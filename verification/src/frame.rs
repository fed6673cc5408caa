//! The wire format of a frame.
//!
//! A frame starts with four header bytes: a flags byte, a counter byte, and the
//! total length of the frame (header included) as a big-endian 16-bit number.
//! The framing layer reads nothing but that length.

use vstd::prelude::*;

verus! {

/// Bytes of a frame header: flags, counter, two bytes of length.
pub const HEADER_LEN: usize = 4;

/// The largest frame length that is accepted: 8 MiB.
pub const MAX_FRAME_LEN: usize = 8 * 1024 * 1024;

/// The total frame length that a header declares: bytes 2 and 3, big-endian.
pub open spec fn declared_length(bytes: Seq<u8>) -> int
    recommends
        bytes.len() >= HEADER_LEN,
{
    bytes[2] as int * 256 + bytes[3] as int
}

/// What a buffer holds, seen from its front.
#[derive(Clone, Copy, Debug, PartialEq, Eq, Structural)]
pub enum FrameStatus {
    /// The header is not complete yet.
    NeedHeader,
    /// The header declares `length` bytes, more than `MAX_FRAME_LEN`.
    TooLarge { length: usize },
    /// The header is complete, but `missing` bytes of the frame have not arrived.
    NeedBody { missing: usize },
    /// The first `length` bytes are one whole frame.
    Ready { length: usize },
}

/// The status of a buffer of `buffered` bytes whose header declares `declared`.
pub open spec fn status_of(buffered: int, declared: int) -> FrameStatus {
    if buffered < HEADER_LEN {
        FrameStatus::NeedHeader
    } else if declared > MAX_FRAME_LEN {
        FrameStatus::TooLarge { length: declared as usize }
    } else if buffered < declared {
        FrameStatus::NeedBody { missing: (declared - buffered) as usize }
    } else {
        FrameStatus::Ready { length: declared as usize }
    }
}

/// The status of the bytes `buffer`.
pub open spec fn frame_status(buffer: Seq<u8>) -> FrameStatus {
    status_of(buffer.len() as int, declared_length(buffer))
}

/// Reads the declared frame length from a complete header.
pub fn read_declared_length(bytes: &[u8]) -> (length: usize)
    requires
        bytes@.len() >= HEADER_LEN,
    ensures
        length == declared_length(bytes@),
        length <= u16::MAX,
{
    let high: usize = bytes[2] as usize;
    let low: usize = bytes[3] as usize;
    high * 256 + low
}

/// Classifies a buffer of `buffered` bytes whose header declares `declared`.
///
/// A declared length over `MAX_FRAME_LEN` is refused as soon as the header is
/// there, whatever else is buffered.
pub fn classify(buffered: usize, declared: usize) -> (status: FrameStatus)
    ensures
        status == status_of(buffered as int, declared as int),
        buffered >= HEADER_LEN && declared > MAX_FRAME_LEN ==> status == (FrameStatus::TooLarge {
            length: declared,
        }),
{
    if buffered < HEADER_LEN {
        FrameStatus::NeedHeader
    } else if declared > MAX_FRAME_LEN {
        FrameStatus::TooLarge { length: declared }
    } else if buffered < declared {
        FrameStatus::NeedBody { missing: declared - buffered }
    } else {
        FrameStatus::Ready { length: declared }
    }
}

/// Classifies the bytes at the front of a buffer.
pub fn inspect(bytes: &[u8]) -> (status: FrameStatus)
    ensures
        status == frame_status(bytes@),
{
    let buffered: usize = bytes.len();
    if buffered < HEADER_LEN {
        FrameStatus::NeedHeader
    } else {
        classify(buffered, read_declared_length(bytes))
    }
}

/// No header can declare more than `MAX_FRAME_LEN`: the length field has 16
/// bits. Of the bytes of a buffer, `TooLarge` is therefore never the status.
pub proof fn lemma_wire_length_bounded(buffer: Seq<u8>)
    ensures
        0 <= declared_length(buffer) <= u16::MAX,
        !(frame_status(buffer) is TooLarge),
{
}

} // verus!
