use streaming::codec::{decode_messages, encode_messages};
use streaming::error::StreamError;
use streaming::message::Message;
use streaming::segment::{Segment, StorageConfig, MESSAGES_IN_BUFFER_THRESHOLD, SEGMENT_SIZE};
use streaming::topic::Topic;

fn config(segment_size: u64, threshold: u64) -> StorageConfig {
    StorageConfig {
        segment_size,
        messages_in_buffer_threshold: threshold,
    }
}

fn msg(bytes: &[u8]) -> Message {
    Message::new(bytes.to_vec())
}

#[test]
fn default_config_is_valid() {
    let c = StorageConfig::new();
    assert_eq!(c.segment_size, SEGMENT_SIZE);
    assert_eq!(c.messages_in_buffer_threshold, MESSAGES_IN_BUFFER_THRESHOLD);
    assert!(c.validate().is_ok());
    assert_eq!(SEGMENT_SIZE % MESSAGES_IN_BUFFER_THRESHOLD, 0);
    assert!(SEGMENT_SIZE >= MESSAGES_IN_BUFFER_THRESHOLD);
}

#[test]
fn config_rejects_non_multiple() {
    let c = config(10, 3);
    assert_eq!(c.validate(), Err(StreamError::InvalidSegmentSize(10, 3)));
}

#[test]
fn config_rejects_segment_smaller_than_threshold() {
    let c = config(4, 8);
    assert_eq!(c.validate(), Err(StreamError::InvalidSegmentSize(4, 8)));
}

#[test]
fn config_rejects_zero_threshold() {
    let c = config(10, 0);
    assert_eq!(c.validate(), Err(StreamError::InvalidSegmentSize(10, 0)));
}

#[test]
fn encode_one_message_exact_bytes() {
    let messages = vec![msg(&[0xAB, 0xCD])];
    let bytes = encode_messages(&messages);
    assert_eq!(bytes, vec![2, 0, 0, 0, 0xAB, 0xCD]);
}

#[test]
fn decode_empty_image_is_zero_messages() {
    let bytes: Vec<u8> = Vec::new();
    let decoded = decode_messages(&bytes).unwrap();
    assert_eq!(decoded.len(), 0);
}

#[test]
fn decode_truncated_image_is_corrupt() {
    // header says five payload bytes, only one follows
    let bytes = vec![5, 0, 0, 0, 1];
    assert_eq!(decode_messages(&bytes), Err(StreamError::CannotParseSegment));
    // header itself cut short
    let bytes = vec![5, 0];
    assert_eq!(decode_messages(&bytes), Err(StreamError::CannotParseSegment));
}

#[test]
fn codec_round_trip_preserves_order() {
    let messages = vec![msg(&[1]), msg(&[]), msg(&[2, 3, 4]), msg(&[5, 6])];
    let bytes = encode_messages(&messages);
    let decoded = decode_messages(&bytes).unwrap();
    assert_eq!(decoded.len(), 4);
    assert_eq!(decoded[0].payload, vec![1]);
    assert_eq!(decoded[1].payload, Vec::<u8>::new());
    assert_eq!(decoded[2].payload, vec![2, 3, 4]);
    assert_eq!(decoded[3].payload, vec![5, 6]);
}

#[test]
fn segment_flush_at_threshold() {
    let c = config(4, 2);
    let mut s = Segment::create(0, c);
    s.append(msg(&[1]));
    assert_eq!(s.stored.len(), 0);
    assert_eq!(s.buffer.len(), 1);
    s.append(msg(&[2]));
    // reaching the threshold flushed the buffer
    assert_eq!(s.stored.len(), 2);
    assert_eq!(s.buffer.len(), 0);
}

#[test]
fn segment_flush_twice_is_noop() {
    let c = config(4, 2);
    let mut s = Segment::create(0, c);
    s.append(msg(&[9]));
    s.flush();
    let first = s.durable_bytes();
    assert_eq!(s.stored.len(), 1);
    s.flush();
    let second = s.durable_bytes();
    assert_eq!(s.stored.len(), 1);
    assert_eq!(first, second);
}

#[test]
fn segment_load_empty_image() {
    let c = config(4, 2);
    let s = Segment::load(3, c, &Vec::new()).unwrap();
    assert_eq!(s.sequence, 3);
    assert_eq!(s.stored.len(), 0);
    assert_eq!(s.buffer.len(), 0);
}

#[test]
fn segment_load_corrupt_image() {
    let c = config(4, 2);
    let r = Segment::load(0, c, &vec![9, 0, 0, 0]);
    assert_eq!(r.err(), Some(StreamError::CannotParseSegment));
}

#[test]
fn segment_load_rejects_oversized_image() {
    let c = config(1, 1);
    // two messages in the image, capacity is one
    let messages = vec![msg(&[1]), msg(&[2])];
    let bytes = encode_messages(&messages);
    let r = Segment::load(0, c, &bytes);
    assert_eq!(r.err(), Some(StreamError::CannotParseSegment));
}

#[test]
fn topic_rotates_segments_at_capacity() {
    let c = config(2, 1);
    let mut t = Topic::create(1, c);
    for i in 0..5u8 {
        t.append_message(msg(&[i]));
    }
    // capacity two per segment: three segments, sequences 0, 1, 2
    assert_eq!(t.segments.len(), 3);
    assert_eq!(t.segments[0].sequence, 0);
    assert_eq!(t.segments[1].sequence, 1);
    assert_eq!(t.segments[2].sequence, 2);
    assert_eq!(t.segments[0].stored.len(), 2);
    assert_eq!(t.segments[1].stored.len(), 2);
    assert_eq!(t.segments[2].stored.len(), 1);
}

#[test]
fn topic_round_trip_restores_messages_in_order() {
    let c = config(4, 2);
    let mut t = Topic::create(7, c);
    let payloads: Vec<Vec<u8>> = (0..6u8).map(|i| vec![i, i + 1]).collect();
    for p in &payloads {
        t.append_message(Message::new(p.clone()));
    }
    t.save_existing_messages().unwrap();
    let blobs: Vec<Vec<u8>> = t.segments.iter().map(|s| s.durable_bytes()).collect();
    let reloaded = Topic::load(7, c, &blobs).unwrap();
    assert_eq!(reloaded.topic_id, 7);
    let mut restored: Vec<Vec<u8>> = Vec::new();
    for s in &reloaded.segments {
        assert_eq!(s.buffer.len(), 0);
        for m in &s.stored {
            restored.push(m.payload.clone());
        }
    }
    assert_eq!(restored, payloads);
}

#[test]
fn topic_load_fails_on_corrupt_segment() {
    let c = config(4, 2);
    let blobs = vec![Vec::new(), vec![1, 0, 0]];
    assert_eq!(Topic::load(1, c, &blobs).err(), Some(StreamError::CannotParseSegment));
}
