use streaming::consumer_offsets::{get_path, offset_path, u64_to_decimal};
use streaming::error::StreamError;
use streaming::message::Message;
use streaming::segment::StorageConfig;
use streaming::topic::Topic;

fn config() -> StorageConfig {
    StorageConfig {
        segment_size: 4,
        messages_in_buffer_threshold: 2,
    }
}

#[test]
fn store_then_get_returns_offset() {
    let mut t = Topic::create(1, config());
    t.store_consumer_offset(42, 7);
    assert_eq!(t.get_consumer_offset(42), Ok(7));
}

#[test]
fn second_store_overwrites_first() {
    let mut t = Topic::create(1, config());
    t.store_consumer_offset(42, 10);
    t.store_consumer_offset(42, 20);
    assert_eq!(t.get_consumer_offset(42), Ok(20));
}

#[test]
fn lower_offset_overwrites_too() {
    let mut t = Topic::create(1, config());
    t.store_consumer_offset(42, 20);
    t.store_consumer_offset(42, 5);
    assert_eq!(t.get_consumer_offset(42), Ok(5));
}

#[test]
fn stores_are_isolated_per_consumer() {
    let mut t = Topic::create(1, config());
    t.store_consumer_offset(1, 100);
    t.store_consumer_offset(2, 200);
    t.store_consumer_offset(1, 101);
    assert_eq!(t.get_consumer_offset(1), Ok(101));
    assert_eq!(t.get_consumer_offset(2), Ok(200));
}

#[test]
fn unknown_consumer_is_not_found() {
    let t = Topic::create(1, config());
    assert_eq!(
        t.get_consumer_offset(9),
        Err(StreamError::ConsumerOffsetNotFound)
    );
}

#[test]
fn offset_beyond_log_length_is_accepted_as_given() {
    // this layer records the commit unchecked against the log length
    let mut t = Topic::create(1, config());
    t.append_message(Message::new(vec![1]));
    t.store_consumer_offset(3, 1_000_000);
    assert_eq!(t.get_consumer_offset(3), Ok(1_000_000));
}

#[test]
fn offsets_survive_message_appends() {
    let mut t = Topic::create(1, config());
    t.store_consumer_offset(5, 3);
    for i in 0..6u8 {
        t.append_message(Message::new(vec![i]));
    }
    t.save_existing_messages().unwrap();
    assert_eq!(t.get_consumer_offset(5), Ok(3));
}

#[test]
fn offset_path_shape() {
    let p = get_path("abc", "42");
    assert_eq!(p, "streams/abc/topics/42/consumer-offsets");
}

#[test]
fn decimal_notation_is_exact() {
    assert_eq!(u64_to_decimal(0), "0");
    assert_eq!(u64_to_decimal(7), "7");
    assert_eq!(u64_to_decimal(305), "305");
    assert_eq!(u64_to_decimal(u64::MAX), "18446744073709551615");
}

#[test]
fn offset_path_from_numeric_ids() {
    let p = offset_path(7, 12);
    assert_eq!(p, "streams/7/topics/12/consumer-offsets");
}
