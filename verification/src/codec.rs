//! The decoder and the encoder.
//!
//! `DltDecoder::decode` is called again and again on a buffer that the
//! connection fills. It takes at most one message from the front each time and
//! never looks at a frame before the whole of it has arrived.
//! `DltEncoder::encode` appends the bytes of one message to an output buffer.

use bytes::BytesMut;
use dlt_core::dlt::Message;
use vstd::prelude::*;
use vstd::slice::{slice_subrange, slice_to_vec};

use crate::buffer::{advance, buffered, contents, put, reserve};
use crate::error::{Error, IoError};
use crate::frame::{frame_status, inspect, FrameStatus, HEADER_LEN};
use crate::parser::{
    argument_kinds, argument_texts, can_be_written, header_shape, message_bytes, overall_length,
    parse_frame, parse_outcome, read_argument_kinds, read_argument_texts, read_header_shape,
    serialize, texts_can_be_written, texts_fit, Parsed,
};

verus! {

/// What one extraction leaves of a buffer, and what it found at the front.
pub ghost struct Extracted {
    /// The frame that was cut off, if one was complete.
    pub frame: Option<Seq<u8>>,
    /// The declared length, if it was refused as too large.
    pub refused: Option<usize>,
    /// The contents of the buffer afterwards.
    pub rest: Seq<u8>,
}

/// Extraction on the bytes `buffer`: a complete frame leaves the buffer, and
/// anything else leaves the buffer as it is.
pub open spec fn extracted(buffer: Seq<u8>) -> Extracted {
    match frame_status(buffer) {
        FrameStatus::Ready { length } => Extracted {
            frame: Some(buffer.take(length as int)),
            refused: None,
            rest: buffer.skip(length as int),
        },
        FrameStatus::TooLarge { length } => Extracted {
            frame: None,
            refused: Some(length),
            rest: buffer,
        },
        _ => Extracted { frame: None, refused: None, rest: buffer },
    }
}

/// What a parser outcome means for the caller of `decode`: a message, an
/// error, or nothing to report (`None`) when the frame was filtered out.
///
/// `frame_length` is the length of the frame that was parsed. A frame is at
/// least as long as its header; of a shorter one only the parser's own failure
/// is passed on, and any other outcome counts as `DltInvalidMessage`.
pub open spec fn concluded(parsed: Parsed, frame_length: int) -> Option<Result<Message, Error>> {
    match parsed {
        Parsed::Failed(error) => Some(Err(Error::Dlt(error))),
        _ if frame_length < HEADER_LEN => Some(Err(Error::DltInvalidMessage)),
        Parsed::Item(message) => Some(Ok(message)),
        Parsed::FilteredOut(_) => None,
        Parsed::Invalid => Some(Err(Error::Io(IoError::InvalidMessage))),
    }
}

/// What one call of `decode` returns, and what it leaves of the buffer.
pub ghost struct Decoded {
    /// The value that `decode` returns.
    pub result: Result<Option<Message>, Error>,
    /// The contents of the buffer afterwards.
    pub rest: Seq<u8>,
}

/// One call of `decode` on the bytes `buffer`.
///
/// Frames whose message is filtered out are dropped one after the other until
/// a frame gives a message or an error, or no complete frame is left.
pub open spec fn decoded(buffer: Seq<u8>) -> Decoded
    decreases buffer.len(),
{
    let step = extracted(buffer);
    match step.frame {
        None => match step.refused {
            Some(length) => Decoded {
                result: Err(Error::Io(IoError::FrameTooLarge { length })),
                rest: step.rest,
            },
            None => Decoded { result: Ok(None), rest: step.rest },
        },
        Some(frame) => match concluded(parse_outcome(frame), frame.len() as int) {
            Some(Ok(message)) => Decoded { result: Ok(Some(message)), rest: step.rest },
            Some(Err(error)) => Decoded { result: Err(error), rest: step.rest },
            None => decoded(step.rest),
        },
    }
}

/// Cuts one complete frame off the front of `src`.
///
/// Returns the frame's bytes, header included, and removes them from `src`.
/// While the frame is incomplete, `src` keeps its contents and `None` is
/// returned. A declared length over the maximum is an error, and `src` keeps
/// its contents.
pub fn take_frame(src: &mut BytesMut) -> (result: Result<Option<Vec<u8>>, Error>)
    ensures
        buffered(*final(src)) == extracted(buffered(*old(src))).rest,
        match result {
            Ok(Some(frame)) => extracted(buffered(*old(src))).frame == Some(frame@),
            Ok(None) => extracted(buffered(*old(src))).frame is None && extracted(
                buffered(*old(src)),
            ).refused is None,
            Err(error) => extracted(buffered(*old(src))).refused is Some && error == Error::Io(
                IoError::FrameTooLarge { length: extracted(buffered(*old(src))).refused.unwrap() },
            ),
        },
{
    let status = inspect(contents(src));
    match status {
        FrameStatus::NeedHeader => Ok(None),
        FrameStatus::TooLarge { length } => Err(Error::Io(IoError::FrameTooLarge { length })),
        FrameStatus::NeedBody { missing } => {
            reserve(src, missing);
            Ok(None)
        },
        FrameStatus::Ready { length } => {
            let frame = slice_to_vec(slice_subrange(contents(src), 0, length));
            advance(src, length);
            Ok(Some(frame))
        },
    }
}

/// Turns the parser's outcome for a frame of `frame_length` bytes into what
/// `decode` reports for it; `None` when the frame was filtered out and the next
/// one is to be tried.
pub fn conclude(parsed: Parsed, frame_length: usize) -> (conclusion: Option<Result<Message, Error>>)
    ensures
        conclusion == concluded(parsed, frame_length as int),
        conclusion is None ==> frame_length >= HEADER_LEN,
{
    match parsed {
        Parsed::Failed(error) => Some(Err(Error::Dlt(error))),
        Parsed::Item(message) => if frame_length < HEADER_LEN {
            Some(Err(Error::DltInvalidMessage))
        } else {
            Some(Ok(message))
        },
        Parsed::FilteredOut(_) => if frame_length < HEADER_LEN {
            Some(Err(Error::DltInvalidMessage))
        } else {
            None
        },
        Parsed::Invalid => if frame_length < HEADER_LEN {
            Some(Err(Error::DltInvalidMessage))
        } else {
            Some(Err(Error::Io(IoError::InvalidMessage)))
        },
    }
}

/// Cuts frames off a buffer and parses them.
pub struct DltDecoder {}

impl DltDecoder {
    /// Takes the next message from the front of `src`.
    ///
    /// `Ok(None)` asks for more bytes: `src` then holds no complete frame.
    /// An error is final: the bytes that follow cannot be trusted to start at
    /// a frame boundary.
    pub fn decode(&mut self, src: &mut BytesMut) -> (result: Result<Option<Message>, Error>)
        ensures
            result == decoded(buffered(*old(src))).result,
            buffered(*final(src)) == decoded(buffered(*old(src))).rest,
    {
        let ghost start = buffered(*src);
        loop
            invariant
                start == buffered(*old(src)),
                decoded(buffered(*src)) == decoded(start),
            decreases buffered(*src).len(),
        {
            let frame = match take_frame(src) {
                Ok(Some(frame)) => frame,
                Ok(None) => { return Ok(None); },
                Err(error) => { return Err(error); },
            };
            match conclude(parse_frame(frame.as_slice()), frame.len()) {
                Some(Ok(message)) => { return Ok(Some(message)); },
                Some(Err(error)) => { return Err(error); },
                None => {},
            }
        }
    }
}

/// The outcome of appending `bytes` behind the contents `buffer`: the two
/// joined, if the result can still be held; else the buffer as it was.
pub open spec fn appended(buffer: Seq<u8>, bytes: Seq<u8>) -> Seq<u8> {
    if buffer.len() + bytes.len() <= isize::MAX {
        buffer + bytes
    } else {
        buffer
    }
}

/// Appends `bytes` behind what `dst` holds.
///
/// Fails with `BufferFull`, and leaves `dst` as it was, when the bytes do not
/// fit; this is the only failure.
pub fn append_bytes(bytes: &[u8], dst: &mut BytesMut) -> (result: Result<(), Error>)
    ensures
        buffered(*final(dst)) == appended(buffered(*old(dst)), bytes@),
        buffered(*old(dst)).len() + bytes@.len() <= isize::MAX ==> result == Ok::<(), Error>(()),
        buffered(*old(dst)).len() + bytes@.len() > isize::MAX ==> result == Err::<(), Error>(
            Error::Io(IoError::BufferFull),
        ),
{
    let held: usize = contents(dst).len();
    let limit: usize = isize::MAX as usize;
    if held > limit || bytes.len() > limit - held {
        return Err(Error::Io(IoError::BufferFull));
    }
    reserve(dst, bytes.len());
    put(dst, bytes);
    Ok(())
}

/// What one call of `encode` returns, and what it leaves in the buffer.
pub ghost struct Encoded {
    /// The value that `encode` returns.
    pub result: Result<(), Error>,
    /// The contents of the buffer afterwards.
    pub rest: Seq<u8>,
}

/// One call of `encode` for `message` on a buffer that holds `buffer`.
///
/// A message whose header lengths do not fit the length field is refused; so
/// is one with a text whose length the serializer cannot count, and one whose
/// bytes the buffer cannot hold. The buffer then stays as it was. Any other
/// message is appended as the serializer writes it.
pub open spec fn encoded(buffer: Seq<u8>, message: Message) -> Encoded {
    if overall_length(header_shape(message)) > u16::MAX {
        Encoded { result: Err(Error::Io(IoError::MessageTooLong)), rest: buffer }
    } else if !texts_fit(argument_kinds(message), argument_texts(message)) {
        Encoded { result: Err(Error::Io(IoError::TextTooLong)), rest: buffer }
    } else if buffer.len() + message_bytes(message).len() > isize::MAX {
        Encoded { result: Err(Error::Io(IoError::BufferFull)), rest: buffer }
    } else {
        Encoded { result: Ok(()), rest: buffer + message_bytes(message) }
    }
}

/// Writes messages as bytes.
pub struct DltEncoder {}

impl DltEncoder {
    /// Appends the bytes of `item` to `dst`, exactly as the serializer gives
    /// them: the length in the header is the message's own.
    pub fn encode(&mut self, item: Message, dst: &mut BytesMut) -> (result: Result<(), Error>)
        ensures
            result == encoded(buffered(*old(dst)), item).result,
            buffered(*final(dst)) == encoded(buffered(*old(dst)), item).rest,
    {
        if !can_be_written(read_header_shape(&item)) {
            return Err(Error::Io(IoError::MessageTooLong));
        }
        let kinds = read_argument_kinds(&item);
        let texts = read_argument_texts(&item);
        if !texts_can_be_written(&kinds, &texts) {
            return Err(Error::Io(IoError::TextTooLong));
        }
        let bytes = serialize(&item);
        append_bytes(bytes.as_slice(), dst)
    }
}

} // verus!
