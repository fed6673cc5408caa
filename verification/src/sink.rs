//! The writing half: messages in, bytes out.
//!
//! `MessageSink` owns the output buffer and the encoder. It does no writing
//! itself: whoever owns the connection offers it the bytes of `unsent`, and
//! tells `written` how many of them the connection took. A connection may take
//! fewer bytes than it was offered; the others stay, in order, for the next
//! write.

use bytes::BytesMut;
use dlt_core::dlt::Message;
use vstd::prelude::*;

use crate::buffer::{advance, buffered, contents, empty_buffer};
use crate::codec::{encoded, DltEncoder};
use crate::error::{Error, IoError};

verus! {

/// The writing half of a connection.
pub struct MessageSink {
    encoder: DltEncoder,
    buffer: BytesMut,
    failed: bool,
}

impl MessageSink {
    /// The bytes that were encoded and that the connection has not taken yet.
    pub closed spec fn pending(&self) -> Seq<u8> {
        buffered(self.buffer)
    }

    /// Whether a failed write has ended this half of the connection.
    pub closed spec fn failed(&self) -> bool {
        self.failed
    }

    /// A sink with nothing to write.
    pub fn new() -> (sink: MessageSink)
        ensures
            sink.pending() == Seq::<u8>::empty(),
            !sink.failed(),
    {
        MessageSink { encoder: DltEncoder {  }, buffer: empty_buffer(), failed: false }
    }

    /// Whether a failed write has ended this half of the connection.
    pub fn is_failed(&self) -> (failed: bool)
        ensures
            failed == self.failed(),
    {
        self.failed
    }

    /// Encodes `item` behind the bytes that wait to be written.
    ///
    /// Once a write has failed, `push` fails with `Write`. Whenever
    /// `push` fails, the bytes that waited before are still there, and
    /// nothing else.
    pub fn push(&mut self, item: Message) -> (result: Result<(), Error>)
        ensures
            final(self).failed() == old(self).failed(),
            old(self).failed() ==> final(self).pending() == old(self).pending() && result == Err::<
                (),
                Error,
            >(Error::Io(IoError::Write)),
            !old(self).failed() ==> final(self).pending() == encoded(old(self).pending(), item).rest
                && result == encoded(old(self).pending(), item).result,
    {
        if self.failed {
            return Err(Error::Io(IoError::Write));
        }
        self.encoder.encode(item, &mut self.buffer)
    }

    /// The bytes to offer to the connection next: all that wait, in order.
    pub fn unsent(&self) -> (bytes: &[u8])
        ensures
            bytes@ == self.pending(),
    {
        contents(&self.buffer)
    }

    /// Records that the connection took the first `count` of the unsent bytes.
    pub fn written(&mut self, count: usize)
        requires
            count <= old(self).pending().len(),
        ensures
            final(self).pending() == old(self).pending().skip(count as int),
            final(self).failed() == old(self).failed(),
    {
        advance(&mut self.buffer, count)
    }

    /// Takes in that a write to the connection failed.
    ///
    /// A write that would block is no failure: the connection takes no bytes
    /// now, and the write is to be tried again later. Any other failure ends
    /// this half of the connection with `Write`. The unsent bytes stay.
    pub fn write_failed(&mut self, would_block: bool) -> (result: Result<(), Error>)
        ensures
            final(self).pending() == old(self).pending(),
            final(self).failed() == (old(self).failed() || !would_block),
            would_block || old(self).failed() ==> result is Ok,
            !would_block && !old(self).failed() ==> result == Err::<(), Error>(
                Error::Io(IoError::Write),
            ),
    {
        if would_block || self.failed {
            return Ok(());
        }
        self.failed = true;
        Err(Error::Io(IoError::Write))
    }

    /// Whether every byte has been written.
    pub fn is_flushed(&self) -> (flushed: bool)
        ensures
            flushed == (self.pending().len() == 0),
    {
        contents(&self.buffer).len() == 0
    }
}

/// The bytes that a connection has taken of `unsent` after one write for each
/// entry of `accepted`, where a write takes as many bytes as its entry says,
/// or all that are left if those are fewer.
pub open spec fn transmitted(unsent: Seq<u8>, accepted: Seq<nat>) -> Seq<u8>
    decreases accepted.len(),
{
    if accepted.len() == 0 {
        Seq::empty()
    } else {
        let earlier = transmitted(unsent, accepted.drop_last());
        let left = unsent.skip(earlier.len() as int);
        earlier + left.take(vstd::math::min(accepted.last() as int, left.len() as int))
    }
}

/// The bytes that are still unsent after those writes.
pub open spec fn remaining(unsent: Seq<u8>, accepted: Seq<nat>) -> Seq<u8> {
    unsent.skip(transmitted(unsent, accepted).len() as int)
}

/// The number of writes that `total` bytes take on a connection that accepts
/// `limit` bytes at a time.
pub open spec fn writes_needed(total: nat, limit: nat) -> nat
    recommends
        limit > 0,
{
    ((total + limit - 1) / (limit as int)) as nat
}

/// Partial writes lose nothing and reorder nothing: what the connection has
/// taken is the front of the bytes that were to be sent, and what is left is
/// all that stood behind it.
pub proof fn lemma_partial_writes_keep_order(unsent: Seq<u8>, accepted: Seq<nat>)
    ensures
        transmitted(unsent, accepted).len() <= unsent.len(),
        transmitted(unsent, accepted) == unsent.take(transmitted(unsent, accepted).len() as int),
        transmitted(unsent, accepted) + remaining(unsent, accepted) == unsent,
    decreases accepted.len(),
{
    if accepted.len() > 0 {
        lemma_partial_writes_keep_order(unsent, accepted.drop_last());
        let earlier = transmitted(unsent, accepted.drop_last());
        let left = unsent.skip(earlier.len() as int);
        let took = vstd::math::min(accepted.last() as int, left.len() as int);
        assert(earlier + left.take(took) =~= unsent.take(earlier.len() + took));
    }
    let sent = transmitted(unsent, accepted);
    assert(sent + unsent.skip(sent.len() as int) =~= unsent);
}

/// On a connection that takes `limit` bytes with every write, and the last few
/// with the last one, `count` writes have sent `count * limit` bytes, or all of
/// them. All bytes are sent after `writes_needed` writes, and not before.
pub proof fn lemma_writes_until_flushed(unsent: Seq<u8>, limit: nat, count: nat)
    requires
        limit > 0,
    ensures
        transmitted(unsent, Seq::new(count, |i: int| limit)).len() == vstd::math::min(
            (count * limit) as int,
            unsent.len() as int,
        ),
        remaining(unsent, Seq::new(count, |i: int| limit)).len() == 0 <==> count >= writes_needed(
            unsent.len(),
            limit,
        ),
    decreases count,
{
    let accepted = Seq::new(count, |i: int| limit);
    if count > 0 {
        let fewer = (count - 1) as nat;
        lemma_writes_until_flushed(unsent, limit, fewer);
        assert(accepted.drop_last() =~= Seq::new(fewer, |i: int| limit));
        assert(count * limit == fewer * limit + limit) by (nonlinear_arith)
            requires
                fewer == count - 1,
        ;
    } else {
        assert(count * limit == 0) by (nonlinear_arith)
            requires
                count == 0,
        ;
    }
    let total = unsent.len() as int;
    let needed = writes_needed(unsent.len(), limit) as int;
    assert(count * limit >= total <==> count >= needed) by (nonlinear_arith)
        requires
            limit > 0,
            total >= 0,
            needed == (total + limit - 1) / (limit as int),
    ;
}

} // verus!
