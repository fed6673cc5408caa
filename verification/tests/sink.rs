use dlt_core::dlt::{Endianness, Message, PayloadContent, StandardHeader};
use tokio_dlt::sink::MessageSink;
use tokio_dlt::stream::MessageStream;

fn sample(counter: u8, payload: Vec<u8>) -> Message {
    let payload_length = 4 + payload.len() as u16;
    Message {
        storage_header: None,
        header: StandardHeader {
            version: 1,
            endianness: Endianness::Big,
            has_extended_header: false,
            payload_length,
            message_counter: counter,
            ecu_id: None,
            session_id: None,
            timestamp: None,
        },
        extended_header: None,
        payload: PayloadContent::NonVerbose(1, payload),
    }
}

fn flush(sink: &mut MessageSink, limit: usize) -> (Vec<u8>, usize) {
    let mut sent = Vec::new();
    let mut writes = 0;
    while !sink.is_flushed() {
        let offered = sink.unsent();
        let taken = offered.len().min(limit);
        sent.extend_from_slice(&offered[..taken]);
        sink.written(taken);
        writes += 1;
    }
    (sent, writes)
}

#[test]
fn new_sink_is_flushed() {
    let sink = MessageSink::new();
    assert!(sink.is_flushed());
    assert!(sink.unsent().is_empty());
}

#[test]
fn thirty_seven_bytes_in_writes_of_ten() {
    let message = sample(0x33, (0..29).collect());
    let expected = message.as_bytes();
    assert_eq!(expected.len(), 37);
    let mut sink = MessageSink::new();
    assert_eq!(sink.push(message), Ok(()));
    assert!(!sink.is_flushed());

    let mut sent = Vec::new();
    let mut sizes = Vec::new();
    while !sink.is_flushed() {
        let offered = sink.unsent();
        let taken = offered.len().min(10);
        sent.extend_from_slice(&offered[..taken]);
        sizes.push(taken);
        sink.written(taken);
    }
    assert_eq!(sizes, vec![10, 10, 10, 7]);
    assert_eq!(sent, expected);
    assert!(sink.is_flushed());
}

#[test]
fn written_keeps_the_bytes_behind() {
    let mut sink = MessageSink::new();
    sink.push(sample(1, vec![9, 8, 7])).unwrap();
    let all = sink.unsent().to_vec();
    sink.written(0);
    assert_eq!(sink.unsent(), &all[..]);
    sink.written(5);
    assert_eq!(sink.unsent(), &all[5..]);
    sink.written(all.len() - 5);
    assert!(sink.is_flushed());
}

#[test]
fn pushes_queue_in_order() {
    let mut sink = MessageSink::new();
    sink.push(sample(1, vec![1])).unwrap();
    sink.written(3);
    sink.push(sample(2, vec![2, 2])).unwrap();
    let mut expected = sample(1, vec![1]).as_bytes()[3..].to_vec();
    expected.extend_from_slice(&sample(2, vec![2, 2]).as_bytes());
    assert_eq!(sink.unsent(), &expected[..]);
    for limit in [1usize, 4, 100] {
        let mut other = MessageSink::new();
        other.push(sample(1, vec![1])).unwrap();
        other.push(sample(2, vec![2, 2])).unwrap();
        let total = other.unsent().len();
        let whole = other.unsent().to_vec();
        let (sent, writes) = flush(&mut other, limit);
        assert_eq!(sent, whole);
        assert_eq!(writes, (total + limit - 1) / limit);
    }
}

#[test]
fn sink_output_feeds_a_stream() {
    let messages = vec![sample(1, vec![]), sample(2, vec![4; 30]), sample(3, vec![5])];
    let mut sink = MessageSink::new();
    for message in &messages {
        sink.push(message.clone()).unwrap();
    }
    let mut stream = MessageStream::new();
    let mut received = Vec::new();
    while !sink.is_flushed() {
        let offered = sink.unsent();
        let taken = offered.len().min(6);
        stream.deliver(&offered[..taken]).unwrap();
        sink.written(taken);
        let (mut items, failure) = stream.drain();
        assert_eq!(failure, None);
        received.append(&mut items);
    }
    assert_eq!(received, messages);
    assert_eq!(stream.pending_len(), 0);
}

#[test]
fn write_that_would_block_is_no_failure() {
    let mut sink = MessageSink::new();
    sink.push(sample(1, vec![1])).unwrap();
    let before = sink.unsent().to_vec();
    assert_eq!(sink.write_failed(true), Ok(()));
    assert!(!sink.is_failed());
    assert_eq!(sink.unsent(), &before[..]);
    assert_eq!(sink.push(sample(2, vec![])), Ok(()));
}

#[test]
fn failed_write_ends_the_sink() {
    let mut sink = MessageSink::new();
    sink.push(sample(1, vec![1])).unwrap();
    let before = sink.unsent().to_vec();
    assert_eq!(
        sink.write_failed(false),
        Err(tokio_dlt::Error::Io(tokio_dlt::IoError::Write))
    );
    assert!(sink.is_failed());
    assert_eq!(
        sink.push(sample(2, vec![2])),
        Err(tokio_dlt::Error::Io(tokio_dlt::IoError::Write))
    );
    assert_eq!(sink.unsent(), &before[..]);
    assert_eq!(sink.write_failed(false), Ok(()));
}
