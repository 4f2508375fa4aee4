use fluvio_gateway::admin::{create_topic, delete_topic, describe_topic, list_topics};
use fluvio_gateway::consume::{consume, offset_is_valid, stream_consume, ConsumeSession, LogRecord};
use fluvio_gateway::produce::{batch_produce, produce};

#[test]
fn produce_acknowledged_send() {
    let r = produce(Ok(()), "m1".to_string());
    assert!(r.success);
    assert_eq!(r.error, "");
    assert_eq!(r.message_id, "m1");
}

#[test]
fn produce_failed_send_is_payload_error() {
    let r = produce(Err("send failed".to_string()), "m2".to_string());
    assert!(!r.success);
    assert_eq!(r.error, "send failed");
    assert_eq!(r.message_id, "m2");
}

#[test]
fn batch_produce_aligns_outcomes_with_input() {
    let outcomes = vec![Ok(()), Err("boom".to_string()), Ok(())];
    let r = batch_produce(outcomes);
    assert_eq!(r.success.len(), 3);
    assert_eq!(r.error.len(), 3);
    assert_eq!(r.success, vec![true, false, true]);
    assert_eq!(r.error, vec!["".to_string(), "boom".to_string(), "".to_string()]);
}

#[test]
fn batch_produce_empty_batch() {
    let r = batch_produce(Vec::new());
    assert_eq!(r.success.len(), 0);
    assert_eq!(r.error.len(), 0);
}

#[test]
fn batch_produce_failure_does_not_abort_siblings() {
    let outcomes = vec![Err("a".to_string()), Ok(()), Err("b".to_string())];
    let r = batch_produce(outcomes);
    assert_eq!(r.success, vec![false, true, false]);
    assert_eq!(r.error, vec!["a".to_string(), "".to_string(), "b".to_string()]);
}

fn record(offset: i64, payload: &[u8]) -> LogRecord {
    LogRecord { offset, payload: payload.to_vec() }
}

#[test]
fn consume_caps_at_max_messages() {
    let records = vec![
        record(0, b"r0"),
        record(1, b"r1"),
        record(2, b"r2"),
        record(3, b"r3"),
        record(4, b"r4"),
    ];
    let r = consume(records, 0, 0, 2);
    assert_eq!(r.messages.len(), 2);
    assert_eq!(r.messages[0].offset, 0);
    assert_eq!(r.messages[1].offset, 1);
    assert_eq!(r.messages[0].message, "r0");
    assert_eq!(r.messages[1].message, "r1");
    assert_eq!(r.next_offset, 2);
    assert_eq!(r.error, "");
}

#[test]
fn consume_zero_max_messages_delivers_nothing() {
    let records = vec![record(7, b"x")];
    let r = consume(records, 0, 7, 0);
    assert_eq!(r.messages.len(), 0);
    assert_eq!(r.next_offset, 7);
}

#[test]
fn consume_negative_max_messages_delivers_nothing() {
    let records = vec![record(3, b"x")];
    let r = consume(records, 1, 3, -5);
    assert_eq!(r.messages.len(), 0);
    assert_eq!(r.next_offset, 3);
}

#[test]
fn consume_exhaustion_before_cap() {
    let records = vec![record(10, b"a"), record(11, b"b")];
    let r = consume(records, 2, 10, 5);
    assert_eq!(r.messages.len(), 2);
    assert_eq!(r.next_offset, 12);
    assert_eq!(r.messages[1].message, "b");
    assert_eq!(r.messages[1].partition, 2);
}

#[test]
fn consume_decodes_invalid_utf8_with_replacement() {
    let records = vec![record(0, &[0xff, 0xfe])];
    let r = consume(records, 0, 0, 1);
    assert_eq!(r.messages[0].message, "\u{FFFD}\u{FFFD}");
}

#[test]
fn consume_message_unset_fields_stay_zero() {
    let records = vec![record(0, b"hi")];
    let r = consume(records, 3, 0, 1);
    let m = &r.messages[0];
    assert_eq!(m.key, "");
    assert!(m.headers.is_empty());
    assert_eq!(m.timestamp, 0);
    assert_eq!(m.message_id, "");
    assert_eq!(m.partition, 3);
}

#[test]
fn consume_session_tracks_cursor() {
    let mut s = ConsumeSession::new(0, 5, 2);
    assert_eq!(s.next_offset, 5);
    assert!(s.wants_more());
    s.accept(&record(5, b"one"));
    assert_eq!(s.next_offset, 6);
    assert!(s.wants_more());
    s.accept(&record(6, b"two"));
    assert!(!s.wants_more());
    let r = s.into_reply();
    assert_eq!(r.messages.len(), 2);
    assert_eq!(r.next_offset, 7);
}

#[test]
fn stream_consume_maps_record() {
    let r = stream_consume(Ok(record(9, b"payload")), 4);
    let m = r.unwrap();
    assert_eq!(m.message, "payload");
    assert_eq!(m.offset, 9);
    assert_eq!(m.partition, 4);
    assert_eq!(m.key, "");
}

#[test]
fn stream_consume_forwards_error_text() {
    let r = stream_consume(Err("cursor lost".to_string()), 0);
    assert_eq!(r.unwrap_err(), "cursor lost");
}

#[test]
fn offset_validity_is_non_negativity() {
    assert!(offset_is_valid(0));
    assert!(offset_is_valid(1));
    assert!(!offset_is_valid(-1));
}

#[test]
fn create_topic_twice_reports_conflict_in_payload() {
    let first = create_topic(Ok(()));
    assert!(first.success);
    assert_eq!(first.error, "");
    let second = create_topic(Err("topic already exists".to_string()));
    assert!(!second.success);
    assert_eq!(second.error, "topic already exists");
}

#[test]
fn delete_topic_outcomes() {
    let ok = delete_topic(Ok(()));
    assert!(ok.success);
    assert_eq!(ok.error, "");
    let missing = delete_topic(Err("topic not found".to_string()));
    assert!(!missing.success);
    assert_eq!(missing.error, "topic not found");
}

#[test]
fn list_topics_keeps_backend_order() {
    let r = list_topics(vec!["b".to_string(), "a".to_string(), "c".to_string()]);
    assert_eq!(r.topics, vec!["b".to_string(), "a".to_string(), "c".to_string()]);
}

#[test]
fn describe_topic_present() {
    let r = describe_topic("orders".to_string(), Some("orders".to_string()));
    assert_eq!(r.topic, "orders");
    assert_eq!(r.error, "");
    assert_eq!(r.retention_ms, 0);
    assert!(r.config.is_empty());
    assert!(r.partitions.is_empty());
}

#[test]
fn describe_topic_absent_is_not_found_every_time() {
    for _ in 0..2 {
        let r = describe_topic("ghost".to_string(), None);
        assert_eq!(r.topic, "ghost");
        assert_eq!(r.error, "not found");
        assert_eq!(r.retention_ms, 0);
        assert!(r.config.is_empty());
        assert!(r.partitions.is_empty());
    }
}
