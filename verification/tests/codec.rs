use bytes::BytesMut;
use dlt_core::dlt::{Endianness, Message, PayloadContent, StandardHeader};
use dlt_core::parse::DltParseError;
use tokio_dlt::codec::{conclude, take_frame, append_bytes, DltDecoder, DltEncoder};
use tokio_dlt::parser::Parsed;
use tokio_dlt::{Error, IoError};

fn non_verbose(counter: u8, id: u32, payload: Vec<u8>) -> Message {
    let payload_length = 4 + payload.len() as u16;
    Message {
        storage_header: None,
        header: StandardHeader {
            version: 1,
            endianness: Endianness::Big,
            has_extended_header: false,
            payload_length,
            message_counter: counter,
            ecu_id: None,
            session_id: None,
            timestamp: None,
        },
        extended_header: None,
        payload: PayloadContent::NonVerbose(id, payload),
    }
}

#[test]
fn take_frame_waits_for_header() {
    let mut buf = BytesMut::from(&[0x00u8, 0x33, 0x00][..]);
    assert_eq!(take_frame(&mut buf), Ok(None));
    assert_eq!(&buf[..], &[0x00, 0x33, 0x00]);
}

#[test]
fn take_frame_waits_for_body_and_keeps_bytes() {
    let mut buf = BytesMut::from(&[0x00u8, 0x33, 0x00, 0x0A, 1, 2][..]);
    assert_eq!(take_frame(&mut buf), Ok(None));
    assert_eq!(&buf[..], &[0x00, 0x33, 0x00, 0x0A, 1, 2]);
    assert!(buf.capacity() >= 10);
}

#[test]
fn take_frame_two_chunks_of_four_and_six() {
    let payload = [0xDEu8, 0xAD, 0xBE, 0xEF, 0x01, 0x02];
    let mut buf = BytesMut::new();
    buf.extend_from_slice(&[0x00, 0x33, 0x00, 0x0A]);
    assert_eq!(take_frame(&mut buf), Ok(None));
    assert_eq!(buf.len(), 4);
    buf.extend_from_slice(&payload);
    let frame = take_frame(&mut buf).unwrap().unwrap();
    assert_eq!(frame.len(), 10);
    assert_eq!(&frame[..4], &[0x00, 0x33, 0x00, 0x0A]);
    assert_eq!(&frame[4..], &payload);
    assert_eq!(buf.len(), 0);
    assert_eq!(take_frame(&mut buf), Ok(None));
}

#[test]
fn take_frame_leaves_following_bytes() {
    let mut buf = BytesMut::from(&[0x00u8, 0x01, 0x00, 0x05, 9, 0x00, 0x02, 0x00][..]);
    assert_eq!(take_frame(&mut buf), Ok(Some(vec![0x00, 0x01, 0x00, 0x05, 9])));
    assert_eq!(&buf[..], &[0x00, 0x02, 0x00]);
}

#[test]
fn take_frame_with_declared_length_zero_takes_nothing() {
    let mut buf = BytesMut::from(&[0x00u8, 0x01, 0x00, 0x00, 7][..]);
    assert_eq!(take_frame(&mut buf), Ok(Some(vec![])));
    assert_eq!(&buf[..], &[0x00, 0x01, 0x00, 0x00, 7]);
}

#[test]
fn conclude_maps_each_outcome() {
    let message = non_verbose(1, 7, vec![1, 2]);
    assert_eq!(conclude(Parsed::Item(message.clone()), 10), Some(Ok(message)));
    assert_eq!(conclude(Parsed::FilteredOut(6), 10), None);
    assert_eq!(conclude(Parsed::Invalid, 10), Some(Err(Error::Io(IoError::InvalidMessage))));
    let failure = DltParseError::ParsingHickup("bad".to_string());
    assert_eq!(
        conclude(Parsed::Failed(DltParseError::ParsingHickup("bad".to_string())), 10),
        Some(Err(Error::Dlt(failure)))
    );
}

#[test]
fn conclude_accepts_a_frame_of_header_length() {
    assert_eq!(conclude(Parsed::FilteredOut(0), 4), None);
    let message = non_verbose(1, 7, vec![]);
    assert_eq!(conclude(Parsed::Item(message.clone()), 4), Some(Ok(message)));
}

#[test]
fn conclude_rejects_outcomes_for_frames_shorter_than_a_header() {
    let message = non_verbose(1, 7, vec![]);
    assert_eq!(conclude(Parsed::Item(message), 3), Some(Err(Error::DltInvalidMessage)));
    assert_eq!(conclude(Parsed::FilteredOut(0), 0), Some(Err(Error::DltInvalidMessage)));
    assert_eq!(conclude(Parsed::Invalid, 2), Some(Err(Error::DltInvalidMessage)));
    let failure = DltParseError::IncompleteParse { needed: None };
    assert_eq!(
        conclude(Parsed::Failed(DltParseError::IncompleteParse { needed: None }), 0),
        Some(Err(Error::Dlt(failure)))
    );
}

#[test]
fn decode_two_chunks_of_four_and_six() {
    let mut decoder = DltDecoder {};
    let mut buf = BytesMut::new();
    buf.extend_from_slice(&[0x00, 0x33, 0x00, 0x0A]);
    assert_eq!(decoder.decode(&mut buf), Ok(None));
    assert_eq!(buf.len(), 4);
    buf.extend_from_slice(&[0x04, 0x03, 0x02, 0x01, 0xAA, 0xBB]);
    let message = decoder.decode(&mut buf).unwrap().unwrap();
    assert_eq!(message.header.message_counter, 0x33);
    assert_eq!(message.header.payload_length, 6);
    assert_eq!(message.payload, PayloadContent::NonVerbose(0x0102_0304, vec![0xAA, 0xBB]));
    assert_eq!(buf.len(), 0);
    assert_eq!(decoder.decode(&mut buf), Ok(None));
}

#[test]
fn decode_short_first_delivery_then_rest() {
    let bytes = non_verbose(5, 0x11, vec![1, 2, 3]).as_bytes();
    let mut decoder = DltDecoder {};
    let mut buf = BytesMut::new();
    buf.extend_from_slice(&bytes[..3]);
    assert_eq!(decoder.decode(&mut buf), Ok(None));
    buf.extend_from_slice(&bytes[3..]);
    assert_eq!(decoder.decode(&mut buf), Ok(Some(non_verbose(5, 0x11, vec![1, 2, 3]))));
    assert!(buf.is_empty());
}

#[test]
fn decode_yields_frames_in_order() {
    let first = non_verbose(1, 100, vec![1]);
    let second = non_verbose(2, 200, vec![2, 2]);
    let third = non_verbose(3, 300, vec![]);
    let mut buf = BytesMut::new();
    buf.extend_from_slice(&first.as_bytes());
    buf.extend_from_slice(&second.as_bytes());
    buf.extend_from_slice(&third.as_bytes());
    let mut decoder = DltDecoder {};
    assert_eq!(decoder.decode(&mut buf), Ok(Some(first)));
    assert_eq!(decoder.decode(&mut buf), Ok(Some(second)));
    assert_eq!(decoder.decode(&mut buf), Ok(Some(third)));
    assert_eq!(decoder.decode(&mut buf), Ok(None));
    assert!(buf.is_empty());
}

#[test]
fn decode_byte_by_byte_equals_single_chunk() {
    let messages = vec![
        non_verbose(1, 100, vec![1, 2, 3]),
        non_verbose(2, 200, vec![]),
        non_verbose(3, 300, vec![9; 40]),
    ];
    let mut stream = Vec::new();
    for message in &messages {
        stream.extend_from_slice(&message.as_bytes());
    }

    let mut decoder = DltDecoder {};
    let mut whole = BytesMut::from(&stream[..]);
    let mut at_once = Vec::new();
    while let Some(message) = decoder.decode(&mut whole).unwrap() {
        at_once.push(message);
    }

    let mut trickle = BytesMut::new();
    let mut one_by_one = Vec::new();
    for byte in &stream {
        trickle.extend_from_slice(&[*byte]);
        while let Some(message) = decoder.decode(&mut trickle).unwrap() {
            one_by_one.push(message);
        }
    }

    assert_eq!(at_once, messages);
    assert_eq!(one_by_one, messages);
    assert!(whole.is_empty());
    assert!(trickle.is_empty());
}

#[test]
fn decode_reports_parser_failure_and_consumes_frame() {
    let mut decoder = DltDecoder {};
    let mut buf = BytesMut::from(&[0x00u8, 0x01, 0x00, 0x02, 0xFF][..]);
    let result = decoder.decode(&mut buf);
    assert!(matches!(result, Err(Error::Dlt(DltParseError::IncompleteParse { .. }))));
    assert_eq!(&buf[..], &[0x00, 0x02, 0xFF]);
}

#[test]
fn decode_reports_header_longer_than_frame() {
    // Flags ask for an ECU id, a session id and a timestamp: sixteen header
    // bytes, but the frame declares eight.
    let mut decoder = DltDecoder {};
    let mut buf = BytesMut::from(&[0x1Cu8, 0x01, 0x00, 0x08, 1, 2, 3, 4][..]);
    let result = decoder.decode(&mut buf);
    assert!(matches!(result, Err(Error::Dlt(_))));
    assert!(buf.is_empty());
}

#[test]
fn encode_appends_serialized_bytes() {
    let message = non_verbose(0x33, 0x0A0B_0C0D, vec![1, 2, 3]);
    let expected = message.as_bytes();
    assert_eq!(expected, vec![0x22, 0x33, 0x00, 0x0B, 0x0A, 0x0B, 0x0C, 0x0D, 1, 2, 3]);
    let mut encoder = DltEncoder {};
    let mut dst = BytesMut::from(&[0xEEu8, 0xFF][..]);
    assert_eq!(encoder.encode(message, &mut dst), Ok(()));
    assert_eq!(&dst[..2], &[0xEE, 0xFF]);
    assert_eq!(&dst[2..], &expected[..]);
}

#[test]
fn append_bytes_appends_in_order() {
    let mut dst = BytesMut::new();
    assert_eq!(append_bytes(&[1, 2, 3], &mut dst), Ok(()));
    assert_eq!(append_bytes(&[], &mut dst), Ok(()));
    assert_eq!(append_bytes(&[4], &mut dst), Ok(()));
    assert_eq!(&dst[..], &[1, 2, 3, 4]);
}

#[test]
fn encode_then_decode_round_trip() {
    let message = non_verbose(7, 42, vec![5, 6, 7, 8]);
    let mut encoder = DltEncoder {};
    let mut decoder = DltDecoder {};
    let mut wire = BytesMut::new();
    assert_eq!(encoder.encode(message.clone(), &mut wire), Ok(()));
    let by_hand = [0x22u8, 7, 0x00, 12, 0, 0, 0, 42, 5, 6, 7, 8];
    assert_eq!(&wire[..], &by_hand);
    let mut manual = BytesMut::from(&by_hand[..]);
    assert_eq!(take_frame(&mut wire.clone()), take_frame(&mut manual));
    assert_eq!(decoder.decode(&mut wire), Ok(Some(message)));
    assert!(wire.is_empty());
}
