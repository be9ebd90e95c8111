use streaming::codec::encode_messages;
use streaming::error::StreamError;
use streaming::message::Message;
use streaming::segment::StorageConfig;
use streaming::stream::TopicOnDisk;
use streaming::system::{DiskLayout, System, SystemState};

fn config(segment_size: u64, threshold: u64) -> StorageConfig {
    StorageConfig {
        segment_size,
        messages_in_buffer_threshold: threshold,
    }
}

fn empty_disk() -> DiskLayout {
    DiskLayout {
        base_dir_ready: true,
        topics_dir_ready: true,
        topics: Vec::new(),
    }
}

#[test]
fn init_rejects_invalid_sizing_before_disk() {
    // the sizing check comes first: both directories are unavailable here,
    // yet the sizing error is the one reported
    let disk = DiskLayout {
        base_dir_ready: false,
        topics_dir_ready: false,
        topics: Vec::new(),
    };
    let r = System::init(config(10, 3), disk);
    assert_eq!(r.err(), Some(StreamError::InvalidSegmentSize(10, 3)));
}

#[test]
fn init_fails_on_missing_base_directory() {
    let disk = DiskLayout {
        base_dir_ready: false,
        topics_dir_ready: true,
        topics: Vec::new(),
    };
    let r = System::init(config(4, 2), disk);
    assert_eq!(r.err(), Some(StreamError::CannotCreateBaseDirectory));
}

#[test]
fn init_fails_closed_on_missing_topics_directory() {
    // a persisted topic is present, but it must not be loaded
    let messages = vec![Message::new(vec![1])];
    let disk = DiskLayout {
        base_dir_ready: true,
        topics_dir_ready: false,
        topics: vec![TopicOnDisk {
            topic_id: 1,
            segments: vec![encode_messages(&messages)],
        }],
    };
    let r = System::init(config(4, 2), disk);
    assert_eq!(r.err(), Some(StreamError::CannotCreateTopicsDirectory));
}

#[test]
fn init_loads_persisted_topics() {
    let messages = vec![Message::new(vec![1]), Message::new(vec![2])];
    let disk = DiskLayout {
        base_dir_ready: true,
        topics_dir_ready: true,
        topics: vec![TopicOnDisk {
            topic_id: 9,
            segments: vec![encode_messages(&messages)],
        }],
    };
    let sys = System::init(config(4, 2), disk).unwrap();
    assert_eq!(sys.state, SystemState::Running);
    assert_eq!(sys.stream.topics.len(), 1);
    assert_eq!(sys.stream.topics[0].topic_id, 9);
    assert_eq!(sys.stream.topics[0].segments[0].stored.len(), 2);
}

#[test]
fn init_aborts_on_corrupt_topic() {
    let disk = DiskLayout {
        base_dir_ready: true,
        topics_dir_ready: true,
        topics: vec![TopicOnDisk {
            topic_id: 1,
            segments: vec![vec![7, 0, 0, 0, 1]],
        }],
    };
    let r = System::init(config(4, 2), disk);
    assert_eq!(r.err(), Some(StreamError::CannotParseSegment));
}

#[test]
fn append_to_unknown_topic_is_not_found() {
    let mut sys = System::init(config(4, 2), empty_disk()).unwrap();
    let r = sys.append_message(1, Message::new(vec![1]));
    assert_eq!(r, Err(StreamError::TopicNotFound));
}

#[test]
fn offset_query_for_unknown_topic_is_not_found() {
    let sys = System::init(config(4, 2), empty_disk()).unwrap();
    assert_eq!(
        sys.get_consumer_offset(1, 1).err(),
        Some(StreamError::TopicNotFound)
    );
}

#[test]
fn system_offset_round_trip() {
    let mut sys = System::init(config(4, 2), empty_disk()).unwrap();
    sys.stream.create_topic(3).unwrap();
    sys.store_consumer_offset(3, 42, 17).unwrap();
    let info = sys.get_consumer_offset(3, 42).unwrap();
    assert_eq!(info.topic_id, 3);
    assert_eq!(info.consumer_id, 42);
    assert_eq!(info.offset, 17);
    assert_eq!(
        sys.get_consumer_offset(3, 41).err(),
        Some(StreamError::ConsumerOffsetNotFound)
    );
}

#[test]
fn duplicate_topic_id_is_refused() {
    let mut sys = System::init(config(4, 2), empty_disk()).unwrap();
    sys.stream.create_topic(3).unwrap();
    assert_eq!(
        sys.stream.create_topic(3),
        Err(StreamError::TopicAlreadyExists)
    );
}

#[test]
fn second_save_writes_no_new_bytes() {
    let mut sys = System::init(config(4, 2), empty_disk()).unwrap();
    sys.stream.create_topic(1).unwrap();
    for i in 0..3u8 {
        sys.append_message(1, Message::new(vec![i])).unwrap();
    }
    sys.save_existing_messages().unwrap();
    let first: Vec<Vec<u8>> = sys.stream.topics[0]
        .segments
        .iter()
        .map(|s| s.durable_bytes())
        .collect();
    sys.save_existing_messages().unwrap();
    let second: Vec<Vec<u8>> = sys.stream.topics[0]
        .segments
        .iter()
        .map(|s| s.durable_bytes())
        .collect();
    assert_eq!(first, second);
}

#[test]
fn restart_restores_every_appended_message() {
    let mut sys = System::init(config(4, 2), empty_disk()).unwrap();
    sys.stream.create_topic(5).unwrap();
    let payloads: Vec<Vec<u8>> = (0..7u8).map(|i| vec![i, 10 + i]).collect();
    for p in &payloads {
        sys.append_message(5, Message::new(p.clone())).unwrap();
    }
    sys.shutdown().unwrap();
    // simulated restart: what the shutdown left durable is read back in
    let images: Vec<TopicOnDisk> = sys
        .stream
        .topics
        .iter()
        .map(|t| TopicOnDisk {
            topic_id: t.topic_id,
            segments: t.segments.iter().map(|s| s.durable_bytes()).collect(),
        })
        .collect();
    let reloaded = System::init(
        config(4, 2),
        DiskLayout {
            base_dir_ready: true,
            topics_dir_ready: true,
            topics: images,
        },
    )
    .unwrap();
    let mut restored: Vec<Vec<u8>> = Vec::new();
    for t in &reloaded.stream.topics {
        assert_eq!(t.topic_id, 5);
        for s in &t.segments {
            for m in &s.stored {
                restored.push(m.payload.clone());
            }
        }
    }
    assert_eq!(restored, payloads);
}

#[test]
fn topics_are_reachable_for_a_manual_flush_pass() {
    let mut sys = System::init(config(4, 2), empty_disk()).unwrap();
    sys.stream.create_topic(2).unwrap();
    sys.append_message(2, Message::new(vec![9])).unwrap();
    for topic in sys.stream.get_topics_mut() {
        topic.save_existing_messages().unwrap();
    }
    assert_eq!(sys.stream.topics[0].segments[0].buffer.len(), 0);
    assert_eq!(sys.stream.topics[0].segments[0].stored.len(), 1);
}

#[test]
fn shutdown_drains_every_buffer() {
    let mut sys = System::init(config(4, 2), empty_disk()).unwrap();
    sys.stream.create_topic(1).unwrap();
    // three messages: two flush at the threshold, one stays buffered
    for i in 0..3u8 {
        sys.append_message(1, Message::new(vec![i])).unwrap();
    }
    assert_eq!(sys.stream.topics[0].segments[0].buffer.len(), 1);
    sys.shutdown().unwrap();
    assert_eq!(sys.state, SystemState::Stopped);
    for topic in &sys.stream.topics {
        let mut durable: Vec<Vec<u8>> = Vec::new();
        for segment in &topic.segments {
            assert_eq!(segment.buffer.len(), 0);
            for m in &segment.stored {
                durable.push(m.payload.clone());
            }
        }
        assert_eq!(durable, vec![vec![0u8], vec![1u8], vec![2u8]]);
    }
}
