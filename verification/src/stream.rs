//! The reading half: a stream of messages over deliveries of bytes.
//!
//! `MessageStream` owns the buffer and the decoder. It does no reading itself:
//! whoever owns the connection calls `pull`, reads from the connection when
//! `pull` asks for bytes, and hands what arrived to `deliver`. An empty
//! delivery says that the connection was closed.

use bytes::BytesMut;
use dlt_core::dlt::Message;
use vstd::prelude::*;

use crate::buffer::{buffered, contents, empty_buffer};
use crate::codec::{append_bytes, appended, concluded, decoded, extracted, DltDecoder};
use crate::error::{Error, IoError};
use crate::parser::parse_outcome;

verus! {

/// What draining a buffer gives.
pub ghost struct Drained {
    /// The messages that were decoded, in the order of their frames.
    pub items: Seq<Message>,
    /// The error that stopped the decoder, if one did.
    pub failure: Option<Error>,
    /// The contents of the buffer afterwards.
    pub rest: Seq<u8>,
}

/// Each decoded message shortens the buffer: its frame has at least a header.
pub proof fn lemma_message_shortens(buffer: Seq<u8>)
    ensures
        decoded(buffer).rest.len() <= buffer.len(),
        decoded(buffer).result matches Ok(Some(_)) ==> decoded(buffer).rest.len() < buffer.len(),
    decreases buffer.len(),
{
    let step = extracted(buffer);
    if step.frame is Some {
        let frame = step.frame.unwrap();
        if concluded(parse_outcome(frame), frame.len() as int) is None {
            lemma_message_shortens(step.rest);
        }
    }
}

/// Calling `decode` on the bytes `buffer` until it asks for more or fails.
pub open spec fn drained(buffer: Seq<u8>) -> Drained
    decreases buffer.len(),
    via drained_terminates
{
    let first = decoded(buffer);
    match first.result {
        Ok(Some(message)) => {
            let then = drained(first.rest);
            Drained { items: seq![message] + then.items, failure: then.failure, rest: then.rest }
        },
        Ok(None) => Drained { items: Seq::empty(), failure: None, rest: first.rest },
        Err(error) => Drained { items: Seq::empty(), failure: Some(error), rest: first.rest },
    }
}

#[via_fn]
proof fn drained_terminates(buffer: Seq<u8>) {
    lemma_message_shortens(buffer);
}

/// All the bytes of `chunks`, in order.
pub open spec fn joined(chunks: Seq<Seq<u8>>) -> Seq<u8>
    decreases chunks.len(),
{
    if chunks.len() == 0 {
        Seq::empty()
    } else {
        joined(chunks.drop_last()) + chunks.last()
    }
}

/// A reader that starts with an empty buffer, receives `chunks` one after the
/// other and drains its buffer after each; once the decoder has failed, the
/// stream is over and later chunks are not looked at.
///
/// The chunks are deliveries of bytes on an open connection. The close of the
/// connection, which `deliver` is told by an empty chunk, is not among them:
/// an empty chunk here is a delivery of no bytes, and the reader goes on.
pub open spec fn fed(chunks: Seq<Seq<u8>>) -> Drained
    decreases chunks.len(),
{
    if chunks.len() == 0 {
        Drained { items: Seq::empty(), failure: None, rest: Seq::empty() }
    } else {
        let before = fed(chunks.drop_last());
        if before.failure is Some {
            before
        } else {
            let now = drained(before.rest + chunks.last());
            Drained { items: before.items + now.items, failure: now.failure, rest: now.rest }
        }
    }
}

/// What `pull` hands out.
#[derive(Debug, PartialEq)]
pub enum Pulled {
    /// The next message.
    Item(Message),
    /// The error that ends the stream. Nothing follows it.
    Failed(Error),
    /// No complete frame is buffered: read from the connection and `deliver`.
    NeedBytes,
    /// The stream is over.
    Ended,
}

/// The reading half of a connection.
pub struct MessageStream {
    decoder: DltDecoder,
    buffer: BytesMut,
    closed: bool,
    failed: bool,
}

impl MessageStream {
    /// The bytes that were delivered and not yet decoded.
    pub closed spec fn pending(&self) -> Seq<u8> {
        buffered(self.buffer)
    }

    /// Whether the connection was closed.
    pub closed spec fn closed(&self) -> bool {
        self.closed
    }

    /// Whether an error has ended the stream.
    pub closed spec fn failed(&self) -> bool {
        self.failed
    }

    /// A stream on a connection from which nothing was read yet.
    pub fn new() -> (stream: MessageStream)
        ensures
            stream.pending() == Seq::<u8>::empty(),
            !stream.closed(),
            !stream.failed(),
    {
        MessageStream { decoder: DltDecoder {  }, buffer: empty_buffer(), closed: false, failed: false }
    }

    /// The number of bytes that were delivered and not yet decoded.
    pub fn pending_len(&self) -> (length: usize)
        ensures
            length == self.pending().len(),
    {
        contents(&self.buffer).len()
    }

    /// Whether an error has ended the stream.
    pub fn is_failed(&self) -> (failed: bool)
        ensures
            failed == self.failed(),
    {
        self.failed
    }

    /// Takes in what one read from the connection returned.
    ///
    /// An empty `chunk` means that the connection was closed. After that, and
    /// after an error, deliveries change nothing. Bytes that the buffer cannot
    /// hold end the stream with `BufferFull`.
    pub fn deliver(&mut self, chunk: &[u8]) -> (result: Result<(), Error>)
        ensures
            old(self).failed() || old(self).closed() ==> result is Ok && *final(self) == *old(self),
            !old(self).failed() && !old(self).closed() ==> {
                &&& final(self).pending() == appended(old(self).pending(), chunk@)
                &&& final(self).closed() == (chunk@.len() == 0)
                &&& final(self).failed() == (result is Err)
                &&& (result is Err) == (old(self).pending().len() + chunk@.len() > isize::MAX)
                &&& (result is Err) ==> result == Err::<(), Error>(
                    Error::Io(IoError::BufferFull),
                )
            },
    {
        if self.failed || self.closed {
            return Ok(());
        }
        let result = append_bytes(chunk, &mut self.buffer);
        self.closed = chunk.len() == 0;
        self.failed = result.is_err();
        result
    }

    /// Takes in that a read from the connection failed.
    ///
    /// A read that would block is no failure: no bytes are there yet, and the
    /// read is to be tried again later. Any other failure ends the stream with
    /// `Read`.
    pub fn read_failed(&mut self, would_block: bool) -> (result: Result<(), Error>)
        ensures
            final(self).pending() == old(self).pending(),
            final(self).closed() == old(self).closed(),
            final(self).failed() == (old(self).failed() || !would_block),
            would_block || old(self).failed() ==> result is Ok,
            !would_block && !old(self).failed() ==> result == Err::<(), Error>(
                Error::Io(IoError::Read),
            ),
    {
        if would_block || self.failed {
            return Ok(());
        }
        self.failed = true;
        Err(Error::Io(IoError::Read))
    }

    /// Takes the next message from the buffer.
    ///
    /// After an error the stream is over. While no complete frame is
    /// buffered, `pull` asks for bytes, or ends the stream once the connection
    /// was closed; what is left of an unfinished frame is then never decoded.
    pub fn pull(&mut self) -> (pulled: Pulled)
        ensures
            old(self).failed() ==> pulled == Pulled::Ended && *final(self) == *old(self),
            !old(self).failed() ==> {
                &&& final(self).pending() == decoded(old(self).pending()).rest
                &&& final(self).closed() == old(self).closed()
                &&& match decoded(old(self).pending()).result {
                    Ok(Some(message)) => pulled == Pulled::Item(message) && !final(self).failed(),
                    Ok(None) => !final(self).failed() && pulled == if old(self).closed() {
                        Pulled::Ended
                    } else {
                        Pulled::NeedBytes
                    },
                    Err(error) => pulled == Pulled::Failed(error) && final(self).failed(),
                }
            },
    {
        if self.failed {
            return Pulled::Ended;
        }
        match self.decoder.decode(&mut self.buffer) {
            Ok(Some(message)) => Pulled::Item(message),
            Ok(None) => if self.closed {
                Pulled::Ended
            } else {
                Pulled::NeedBytes
            },
            Err(error) => {
                self.failed = true;
                Pulled::Failed(error)
            },
        }
    }

    /// Takes every message that is complete in the buffer, in order, and the
    /// error that stopped the decoder, if one did.
    pub fn drain(&mut self) -> (taken: (Vec<Message>, Option<Error>))
        ensures
            old(self).failed() ==> taken.0@.len() == 0 && taken.1 is None && *final(self) == *old(
                self,
            ),
            !old(self).failed() ==> {
                &&& taken.0@ == drained(old(self).pending()).items
                &&& taken.1 == drained(old(self).pending()).failure
                &&& final(self).pending() == drained(old(self).pending()).rest
                &&& final(self).failed() == (taken.1 is Some)
                &&& final(self).closed() == old(self).closed()
            },
    {
        let mut items: Vec<Message> = Vec::new();
        if self.failed {
            return (items, None);
        }
        let ghost start = self.pending();
        loop
            invariant
                start == old(self).pending(),
                !old(self).failed(),
                !self.failed,
                self.closed == old(self).closed,
                drained(start).items == items@ + drained(self.pending()).items,
                drained(start).failure == drained(self.pending()).failure,
                drained(start).rest == drained(self.pending()).rest,
            decreases self.pending().len(),
        {
            proof {
                lemma_message_shortens(self.pending());
            }
            let ghost before = self.pending();
            match self.pull() {
                Pulled::Item(message) => {
                    items.push(message);
                    proof {
                        let then = drained(self.pending());
                        assert(items@ + then.items =~= items@.drop_last() + (seq![message]
                            + then.items));
                    }
                },
                Pulled::Failed(error) => {
                    return (items, Some(error));
                },
                _ => {
                    return (items, None);
                },
            }
        }
    }
}

} // verus!
