//! What can go wrong while framing.

use dlt_core::parse::DltParseError;
use vstd::prelude::*;

verus! {

/// A failure of the buffer or of the bytes in it.
#[derive(Clone, Copy, Debug, PartialEq, Eq, Structural)]
pub enum IoError {
    /// A frame header declares `length` bytes, more than a frame may have.
    FrameTooLarge { length: usize },
    /// The parser found no readable message in a frame.
    InvalidMessage,
    /// The lengths in the header of a message add up to more than the length
    /// field of a frame can say.
    MessageTooLong,
    /// A name, a unit or a string that is written for an argument has a
    /// length which, counted in 16 bits, leaves no room for the final zero.
    TextTooLong,
    /// The bytes of a message do not fit behind what the buffer holds.
    BufferFull,
    /// The connection could not be made.
    Connect,
    /// Reading from the connection failed.
    Read,
    /// Writing to the connection failed.
    Write,
}

/// An error of the client. Each one ends the stream it occurs on.
#[derive(Debug, PartialEq)]
pub enum Error {
    /// The parser gave up on a frame.
    Dlt(DltParseError),
    /// A message could not be parsed.
    DltInvalidMessage,
    /// Reading or writing failed.
    Io(IoError),
}

} // verus!
