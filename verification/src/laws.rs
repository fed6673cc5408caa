//! What holds of the decoder however the bytes arrive.
//!
//! A connection cuts the byte stream into deliveries as it pleases. The lemmas
//! here show that the cuts do not matter: what `decode` has decided stays
//! decided when more bytes arrive, and a decoder that waits resumes as if it
//! had seen all the bytes at once.

use vstd::prelude::*;

use dlt_core::dlt::Message;

use crate::codec::{concluded, decoded, encoded, extracted, Decoded, Extracted};
use crate::error::Error;
use crate::frame::{declared_length, frame_status, FrameStatus, HEADER_LEN};
use crate::parser::{message_bytes, parse_outcome};
use crate::stream::{drained, fed, joined, lemma_message_shortens, Drained};

verus! {

/// A frame that is complete at the front of a buffer, or a length that is
/// refused there, is the same after more bytes have arrived; the new bytes
/// stand behind what extraction leaves.
pub proof fn lemma_extraction_stable(buffer: Seq<u8>, more: Seq<u8>)
    requires
        extracted(buffer).frame is Some || extracted(buffer).refused is Some,
    ensures
        extracted(buffer + more).frame == extracted(buffer).frame,
        extracted(buffer + more).refused == extracted(buffer).refused,
        extracted(buffer + more).rest == extracted(buffer).rest + more,
{
    let joined = buffer + more;
    assert(joined[2] == buffer[2] && joined[3] == buffer[3]);
    assert(declared_length(joined) == declared_length(buffer));
    match frame_status(buffer) {
        FrameStatus::Ready { length } => {
            assert(joined.take(length as int) =~= buffer.take(length as int));
            assert(joined.skip(length as int) =~= buffer.skip(length as int) + more);
        },
        _ => {},
    }
}

/// While a buffer holds no complete frame, extraction takes nothing from it.
pub proof fn lemma_extraction_waits(buffer: Seq<u8>)
    ensures
        extracted(buffer).frame is None ==> extracted(buffer).rest == buffer,
        extracted(buffer).frame is Some ==> extracted(buffer).frame.unwrap().len()
            + extracted(buffer).rest.len() == buffer.len(),
        extracted(buffer).frame is Some ==> extracted(buffer).frame.unwrap() + extracted(
            buffer,
        ).rest == buffer,
{
    match frame_status(buffer) {
        FrameStatus::Ready { length } => {
            assert(buffer.take(length as int) + buffer.skip(length as int) =~= buffer);
        },
        _ => {},
    }
}

/// A message or an error that `decode` returns does not depend on the bytes
/// behind the frame it came from: had more bytes been buffered, the result
/// would be the same, and those bytes would be left over behind the rest.
pub proof fn lemma_decision_stable(buffer: Seq<u8>, more: Seq<u8>)
    requires
        decoded(buffer).result != Ok::<Option<Message>, Error>(None),
    ensures
        decoded(buffer + more).result == decoded(buffer).result,
        decoded(buffer + more).rest == decoded(buffer).rest + more,
    decreases buffer.len(),
{
    let step = extracted(buffer);
    if step.frame is Some || step.refused is Some {
        lemma_extraction_stable(buffer, more);
    }
    if step.frame is Some {
        let frame = step.frame.unwrap();
        if concluded(parse_outcome(frame), frame.len() as int) is None {
            lemma_extraction_waits(buffer);
            lemma_decision_stable(step.rest, more);
        }
    }
}

/// A decoder that asked for more bytes goes on, when they arrive, exactly as
/// if they had been there from the start: `decode` on what it left plus the
/// new bytes gives what `decode` gives on all the bytes at once.
pub proof fn lemma_waiting_resumes(buffer: Seq<u8>, more: Seq<u8>)
    requires
        decoded(buffer).result == Ok::<Option<Message>, Error>(None),
    ensures
        decoded(buffer + more) == decoded(decoded(buffer).rest + more),
    decreases buffer.len(),
{
    let step = extracted(buffer);
    if step.frame is Some {
        let frame = step.frame.unwrap();
        lemma_extraction_stable(buffer, more);
        lemma_extraction_waits(buffer);
        lemma_waiting_resumes(step.rest, more);
    } else {
        lemma_extraction_waits(buffer);
    }
}

/// Draining after a second delivery goes on from where draining after the
/// first one stopped. If the first delivery ended in an error, the second adds
/// nothing; else the messages of both deliveries together are those of all the
/// bytes drained at once.
pub proof fn lemma_drain_resumes(buffer: Seq<u8>, more: Seq<u8>)
    ensures
        drained(buffer).failure is Some ==> drained(buffer + more) == (Drained {
            items: drained(buffer).items,
            failure: drained(buffer).failure,
            rest: drained(buffer).rest + more,
        }),
        drained(buffer).failure is None ==> drained(buffer + more) == (Drained {
            items: drained(buffer).items + drained(drained(buffer).rest + more).items,
            failure: drained(drained(buffer).rest + more).failure,
            rest: drained(drained(buffer).rest + more).rest,
        }),
    decreases buffer.len(),
{
    let first = decoded(buffer);
    match first.result {
        Ok(Some(message)) => {
            lemma_decision_stable(buffer, more);
            lemma_message_shortens(buffer);
            lemma_drain_resumes(first.rest, more);
            let then = drained(first.rest);
            if then.failure is None {
                let next = drained(then.rest + more);
                assert(seq![message] + (then.items + next.items) =~= (seq![message] + then.items)
                    + next.items);
            }
        },
        Ok(None) => {
            lemma_waiting_resumes(buffer, more);
            assert(drained(buffer).items + drained(first.rest + more).items =~= drained(
                first.rest + more,
            ).items);
        },
        Err(_) => {
            lemma_decision_stable(buffer, more);
        },
    }
}

/// How the connection cuts the bytes into deliveries does not matter. A reader
/// that drains its buffer after every delivery gets the messages, and the
/// error if there is one, that it would get from all the bytes in one piece;
/// and unless an error ended the stream, the same bytes are left over.
pub proof fn lemma_chunking_is_immaterial(chunks: Seq<Seq<u8>>)
    ensures
        fed(chunks).items == drained(joined(chunks)).items,
        fed(chunks).failure == drained(joined(chunks)).failure,
        fed(chunks).failure is None ==> fed(chunks).rest == drained(joined(chunks)).rest,
    decreases chunks.len(),
{
    if chunks.len() > 0 {
        lemma_chunking_is_immaterial(chunks.drop_last());
        lemma_drain_resumes(joined(chunks.drop_last()), chunks.last());
    }
}

/// The bytes `bytes` in deliveries of one byte each.
pub open spec fn bytewise(bytes: Seq<u8>) -> Seq<Seq<u8>> {
    Seq::new(bytes.len(), |i: int| seq![bytes[i]])
}

/// Deliveries of one byte each hold the bytes they were cut from.
pub proof fn lemma_bytewise_joined(bytes: Seq<u8>)
    ensures
        joined(bytewise(bytes)) == bytes,
    decreases bytes.len(),
{
    if bytes.len() > 0 {
        lemma_bytewise_joined(bytes.drop_last());
        assert(bytewise(bytes).drop_last() =~= bytewise(bytes.drop_last()));
        assert(bytes.drop_last() + seq![bytes.last()] =~= bytes);
    } else {
        assert(bytes =~= Seq::<u8>::empty());
    }
}

/// Decoding one byte at a time gives the messages, in order, and the error,
/// that decoding the same bytes from a single delivery gives.
pub proof fn lemma_bytewise_equals_single_chunk(bytes: Seq<u8>)
    ensures
        fed(bytewise(bytes)).items == fed(seq![bytes]).items,
        fed(bytewise(bytes)).failure == fed(seq![bytes]).failure,
        fed(bytewise(bytes)).failure is None ==> fed(bytewise(bytes)).rest == fed(
            seq![bytes],
        ).rest,
{
    lemma_chunking_is_immaterial(bytewise(bytes));
    lemma_bytewise_joined(bytes);
    lemma_chunking_is_immaterial(seq![bytes]);
    assert(seq![bytes].drop_last() =~= Seq::<Seq<u8>>::empty());
    assert(joined(seq![bytes].drop_last()) =~= Seq::<u8>::empty());
    assert(joined(seq![bytes]) =~= bytes);
}

/// A frame that is whole and declares its own length.
pub open spec fn is_frame(frame: Seq<u8>) -> bool {
    frame.len() >= HEADER_LEN && declared_length(frame) == frame.len()
}

/// A frame that the parser reads as a message.
pub open spec fn is_message_frame(frame: Seq<u8>) -> bool {
    is_frame(frame) && parse_outcome(frame) is Item
}

/// The message that the parser reads from a frame.
pub open spec fn message_of(frame: Seq<u8>) -> Message {
    parse_outcome(frame)->Item_0
}

/// A whole frame at the front of a buffer is what extraction cuts off.
pub proof fn lemma_frame_is_extracted(frame: Seq<u8>, tail: Seq<u8>)
    requires
        is_frame(frame),
    ensures
        extracted(frame + tail) == (Extracted { frame: Some(frame), refused: None, rest: tail }),
{
    let buffer = frame + tail;
    assert(buffer[2] == frame[2] && buffer[3] == frame[3]);
    assert(buffer.take(frame.len() as int) =~= frame);
    assert(buffer.skip(frame.len() as int) =~= tail);
}

/// A buffer that holds message frames and nothing else drains to their
/// messages, one for each frame and in the order of the frames, with no error
/// and no byte left over.
pub proof fn lemma_frames_decode_in_order(frames: Seq<Seq<u8>>)
    requires
        forall|i: int| 0 <= i < frames.len() ==> is_message_frame(#[trigger] frames[i]),
    ensures
        drained(joined(frames)) == (Drained {
            items: frames.map_values(|frame: Seq<u8>| message_of(frame)),
            failure: None,
            rest: Seq::empty(),
        }),
    decreases frames.len(),
{
    let messages = frames.map_values(|frame: Seq<u8>| message_of(frame));
    if frames.len() == 0 {
        assert(messages =~= Seq::<Message>::empty());
    } else {
        let earlier = frames.drop_last();
        let last = frames.last();
        lemma_frames_decode_in_order(earlier);
        lemma_drain_resumes(joined(earlier), last);
        lemma_frame_is_extracted(last, Seq::empty());
        assert(last + Seq::<u8>::empty() =~= last);
        assert(Seq::<u8>::empty() + last =~= last);
        assert(decoded(last) == (Decoded { result: Ok(Some(message_of(last))), rest: Seq::empty() }));
        assert(drained(Seq::<u8>::empty()).items =~= Seq::<Message>::empty());
        assert(drained(last).items =~= seq![message_of(last)]);
        assert(messages =~= earlier.map_values(|frame: Seq<u8>| message_of(frame)) + seq![
            message_of(last),
        ]);
    }
}

/// A stream of message frames gives one message for each frame, in the order
/// of the frames and with nothing left over, however it is cut into
/// deliveries.
pub proof fn lemma_frames_survive_chunking(frames: Seq<Seq<u8>>, chunks: Seq<Seq<u8>>)
    requires
        forall|i: int| 0 <= i < frames.len() ==> is_message_frame(#[trigger] frames[i]),
        joined(chunks) == joined(frames),
    ensures
        fed(chunks) == (Drained {
            items: frames.map_values(|frame: Seq<u8>| message_of(frame)),
            failure: None,
            rest: Seq::empty(),
        }),
{
    lemma_frames_decode_in_order(frames);
    lemma_chunking_is_immaterial(chunks);
}

/// A message frame of which less than a header arrives first and the rest in a
/// second delivery: the first delivery gives nothing and takes nothing, the
/// second gives the one message and leaves the buffer empty.
pub proof fn lemma_split_inside_header(frame: Seq<u8>, cut: int)
    requires
        is_message_frame(frame),
        0 <= cut < HEADER_LEN,
    ensures
        drained(frame.take(cut)) == (Drained {
            items: Seq::empty(),
            failure: None,
            rest: frame.take(cut),
        }),
        fed(seq![frame.take(cut), frame.skip(cut)]) == (Drained {
            items: seq![message_of(frame)],
            failure: None,
            rest: Seq::empty(),
        }),
{
    let chunks = seq![frame.take(cut), frame.skip(cut)];
    let frames = seq![frame];
    assert(frames.drop_last() =~= Seq::<Seq<u8>>::empty());
    assert(joined(frames.drop_last()) =~= Seq::<u8>::empty());
    assert(joined(frames) =~= frame);
    assert(chunks.drop_last() =~= seq![frame.take(cut)]);
    assert(chunks.drop_last().drop_last() =~= Seq::<Seq<u8>>::empty());
    assert(joined(chunks.drop_last().drop_last()) =~= Seq::<u8>::empty());
    assert(joined(chunks.drop_last()) =~= frame.take(cut));
    assert(joined(chunks) =~= frame);
    lemma_frames_survive_chunking(frames, chunks);
    assert(frames.map_values(|frame: Seq<u8>| message_of(frame)) =~= seq![message_of(frame)]);
}

/// A frame that is filtered out, with a message frame right behind it in the
/// same buffer: one call of `decode` returns the message of the second frame,
/// and takes all the bytes of both frames, and no more, from the buffer.
pub proof fn lemma_filtered_frame_is_skipped(filtered: Seq<u8>, valid: Seq<u8>, tail: Seq<u8>)
    requires
        is_frame(filtered),
        parse_outcome(filtered) is FilteredOut,
        is_message_frame(valid),
    ensures
        decoded(filtered + valid + tail) == (Decoded {
            result: Ok(Some(message_of(valid))),
            rest: tail,
        }),
{
    lemma_frame_is_extracted(filtered, valid + tail);
    lemma_frame_is_extracted(valid, tail);
    assert(filtered + valid + tail =~= filtered + (valid + tail));
    assert(decoded(valid + tail) == (Decoded { result: Ok(Some(message_of(valid))), rest: tail }));
    assert(decoded(filtered + (valid + tail)) == decoded(valid + tail));
}

/// Encoding and decoding agree on where a frame ends. If `encode` accepts a
/// message into an empty buffer, and the bytes of the message are one whole
/// frame that declares its own length, then the decoder cuts off exactly those
/// bytes, leaves nothing, and reports what the parser makes of them.
pub proof fn lemma_round_trip(message: Message)
    requires
        encoded(Seq::empty(), message).result is Ok,
        is_frame(message_bytes(message)),
    ensures
        encoded(Seq::empty(), message).rest == message_bytes(message),
        extracted(encoded(Seq::empty(), message).rest) == (Extracted {
            frame: Some(message_bytes(message)),
            refused: None,
            rest: Seq::empty(),
        }),
        parse_outcome(message_bytes(message)) is Item ==> decoded(
            encoded(Seq::empty(), message).rest,
        ) == (Decoded {
            result: Ok(Some(message_of(message_bytes(message)))),
            rest: Seq::empty(),
        }),
{
    let bytes = message_bytes(message);
    assert(Seq::<u8>::empty() + bytes =~= bytes);
    assert(bytes + Seq::<u8>::empty() =~= bytes);
    lemma_frame_is_extracted(bytes, Seq::empty());
}

} // verus!
