//! The byte buffer that frames are cut from and written to.
//!
//! The buffer is a `bytes::BytesMut`. Verus does not look inside it: what it
//! holds is named by `buffered`, and each operation below states, without
//! proof, what the `bytes` crate does to those contents. Allocation failure is
//! outside these contracts, as it is for `Vec` in `vstd`.

use bytes::{Buf, BufMut, BytesMut};
use vstd::prelude::*;

verus! {

#[verifier::external_type_specification]
#[verifier::external_body]
pub struct ExBytesMut(bytes::BytesMut);

/// The bytes that a buffer holds, the oldest first.
pub uninterp spec fn buffered(buffer: BytesMut) -> Seq<u8>;

/// `BytesMut::new`: a buffer that holds nothing.
#[verifier::external_body]
pub(crate) fn empty_buffer() -> (buffer: BytesMut)
    ensures
        buffered(buffer) == Seq::<u8>::empty(),
{
    BytesMut::new()
}

/// `Deref::deref` of `BytesMut`: the contents as a slice, unchanged.
#[verifier::external_body]
pub(crate) fn contents(buffer: &BytesMut) -> (bytes: &[u8])
    ensures
        bytes@ == buffered(*buffer),
{
    buffer
}

/// `BytesMut::reserve`: makes room for `additional` more bytes and leaves the
/// contents as they are. The call panics when the new capacity overflows, so
/// the sum is bounded here.
#[verifier::external_body]
pub(crate) fn reserve(buffer: &mut BytesMut, additional: usize)
    requires
        buffered(*old(buffer)).len() + additional <= isize::MAX,
    ensures
        buffered(*final(buffer)) == buffered(*old(buffer)),
{
    buffer.reserve(additional)
}

/// `Buf::advance` of `BytesMut`: drops the first `count` bytes. The call
/// panics when `count` is more than the buffer holds.
#[verifier::external_body]
pub(crate) fn advance(buffer: &mut BytesMut, count: usize)
    requires
        count <= buffered(*old(buffer)).len(),
    ensures
        buffered(*final(buffer)) == buffered(*old(buffer)).skip(count as int),
{
    buffer.advance(count)
}

/// `BufMut::put` of `BytesMut`, with a slice as its source: appends `bytes`
/// behind the contents. The buffer grows as `reserve` does, so the sum is
/// bounded here.
#[verifier::external_body]
pub(crate) fn put(buffer: &mut BytesMut, bytes: &[u8])
    requires
        buffered(*old(buffer)).len() + bytes@.len() <= isize::MAX,
    ensures
        buffered(*final(buffer)) == buffered(*old(buffer)) + bytes@,
{
    buffer.put(bytes)
}

} // verus!
