use slog_mongodb::{
    accept_record_at, default_fields, default_fields_at, BatchBuffer, Document, Entry, Field, FieldValue,
    FlushPolicy, Value, WriteAction,
};

fn doc(tag: &str) -> Document {
    Document { entries: vec![Entry { key: "msg".to_string(), value: Value::Str(tag.to_string()) }] }
}

fn buffered(size: usize, interval_ms: u64) -> BatchBuffer {
    BatchBuffer::new(FlushPolicy { size_threshold: size, interval_ms })
}

fn batch(tags: &[&str]) -> WriteAction {
    WriteAction::InsertMany { documents: tags.iter().map(|t| doc(t)).collect(), ordered: false }
}

#[test]
fn unbuffered_writes_each_document_at_once() {
    for size in [0usize, 1] {
        let mut b = buffered(size, 10_000);
        assert_eq!(b.accept_at(doc("a"), 0), WriteAction::InsertOne(doc("a")));
        assert_eq!(b.accept_at(doc("b"), 1), WriteAction::InsertOne(doc("b")));
        assert_eq!(b.pending_len(), 0);
    }
}

#[test]
fn size_threshold_flushes_in_order() {
    let mut b = buffered(4, 1_000_000);
    assert_eq!(b.accept_at(doc("a"), 1), WriteAction::Nothing);
    assert_eq!(b.accept_at(doc("b"), 2), WriteAction::Nothing);
    assert_eq!(b.accept_at(doc("c"), 3), WriteAction::Nothing);
    assert_eq!(b.pending_len(), 3);
    assert_eq!(b.accept_at(doc("d"), 4), batch(&["a", "b", "c", "d"]));
    assert_eq!(b.pending_len(), 0);
}

#[test]
fn interval_flushes_everything_pending() {
    let mut b = buffered(10, 10_000);
    assert_eq!(b.accept_at(doc("a"), 0), WriteAction::Nothing);
    assert_eq!(b.accept_at(doc("b"), 5), WriteAction::Nothing);
    assert_eq!(b.accept_at(doc("c"), 9_999), WriteAction::Nothing);
    assert_eq!(b.accept_at(doc("d"), 12_000), batch(&["a", "b", "c", "d"]));
    assert_eq!(b.pending_len(), 0);
    // The clock of the last flush moved to the flush: the next document waits.
    assert_eq!(b.accept_at(doc("e"), 12_001), WriteAction::Nothing);
    assert_eq!(b.accept_at(doc("f"), 22_000), batch(&["e", "f"]));
}

#[test]
fn no_write_without_waiting() {
    let mut b = buffered(10, 10_000);
    for (i, t) in ["a", "b", "c", "d"].iter().enumerate() {
        assert_eq!(b.accept_at(doc(t), i as u64), WriteAction::Nothing);
    }
    assert_eq!(b.pending_len(), 4);
}

#[test]
fn clock_reading_before_last_flush_is_not_elapsed() {
    let mut b = buffered(10, 100);
    assert_eq!(b.accept_at(doc("a"), 500), batch(&["a"]));
    assert_eq!(b.accept_at(doc("b"), 10), WriteAction::Nothing);
    assert_eq!(b.pending_len(), 1);
}

#[test]
fn batch_write_is_unordered() {
    let mut b = buffered(2, 10_000);
    b.accept_at(doc("a"), 0);
    match b.accept_at(doc("b"), 0) {
        WriteAction::InsertMany { documents, ordered } => {
            assert!(!ordered);
            assert_eq!(documents.len(), 2);
        }
        other => panic!("expected a batch write, got {:?}", other),
    }
}

#[test]
fn two_calls_crossing_threshold_flush_once() {
    let mut b = buffered(3, 10_000);
    assert_eq!(b.accept_at(doc("x"), 0), WriteAction::Nothing);
    assert_eq!(b.accept_at(doc("a"), 1), WriteAction::Nothing);
    assert_eq!(b.accept_at(doc("b"), 2), batch(&["x", "a", "b"]));
    assert_eq!(b.pending_len(), 0);
}

#[test]
fn threshold_three_scenario() {
    let mut b = buffered(3, 10_000);
    assert_eq!(b.accept_at(doc("A"), 0), WriteAction::Nothing);
    assert_eq!(b.accept_at(doc("B"), 0), WriteAction::Nothing);
    assert_eq!(b.pending_len(), 2);
    assert_eq!(b.accept_at(doc("C"), 0), batch(&["A", "B", "C"]));
    assert_eq!(b.pending_len(), 0);
    assert_eq!(b.accept_at(doc("D"), 10), WriteAction::Nothing);
    assert_eq!(b.pending_len(), 1);
}

#[test]
fn scenario_with_live_clock() {
    let mut b = buffered(3, 10_000);
    assert_eq!(b.accept(doc("A")), WriteAction::Nothing);
    assert_eq!(b.accept(doc("B")), WriteAction::Nothing);
    assert_eq!(b.accept(doc("C")), batch(&["A", "B", "C"]));
    assert_eq!(b.accept(doc("D")), WriteAction::Nothing);
    assert_eq!(b.pending_len(), 1);
}

#[test]
fn flush_drains_pending() {
    let mut b = buffered(5, 10_000);
    assert_eq!(b.flush_at(3), WriteAction::Nothing);
    b.accept_at(doc("a"), 4);
    b.accept_at(doc("b"), 5);
    assert_eq!(b.flush_at(6), batch(&["a", "b"]));
    assert_eq!(b.pending_len(), 0);
    b.accept_at(doc("c"), 7);
    assert_eq!(b.flush(), batch(&["c"]));
}

#[test]
fn record_goes_through_buffer() {
    let mut b = buffered(2, 10_000);
    let statics = default_fields_at("2024-01-01T00:00:00+00:00".to_string(), "INFO", 4, "hello");
    let call = vec![Field { key: "key".to_string(), value: FieldValue::Str("value".to_string()) }];
    assert_eq!(accept_record_at(&mut b, &statics, &vec![], &call, 0), Ok(WriteAction::Nothing));
    match accept_record_at(&mut b, &statics, &vec![], &call, 1) {
        Ok(WriteAction::InsertMany { documents, ordered: false }) => {
            assert_eq!(documents.len(), 2);
            let keys: Vec<&str> = documents[0].entries.iter().map(|e| e.key.as_str()).collect();
            assert_eq!(keys, vec!["ts", "level", "leveli", "msg", "key"]);
            assert_eq!(documents[0].get("leveli"), Some(&Value::Int64(4)));
            assert_eq!(documents[0].get("msg"), Some(&Value::Str("hello".to_string())));
        }
        other => panic!("expected a batch write, got {:?}", other),
    }
}

#[test]
fn bad_record_leaves_buffer_alone() {
    let mut b = buffered(2, 10_000);
    b.accept_at(doc("a"), 0);
    let call = vec![Field { key: "n".to_string(), value: FieldValue::U64(u64::MAX) }];
    assert!(accept_record_at(&mut b, &vec![], &vec![], &call, 1).is_err());
    assert_eq!(b.pending_len(), 1);
}

#[test]
fn default_fields_carry_level_and_message() {
    let f = default_fields_at("T".to_string(), "WARN", 3, "careful");
    assert_eq!(f.len(), 4);
    assert_eq!(f[0], Field { key: "ts".to_string(), value: FieldValue::Str("T".to_string()) });
    assert_eq!(f[1], Field { key: "level".to_string(), value: FieldValue::Str("WARN".to_string()) });
    assert_eq!(f[2], Field { key: "leveli".to_string(), value: FieldValue::Usize(3) });
    assert_eq!(f[3], Field { key: "msg".to_string(), value: FieldValue::Str("careful".to_string()) });
}

#[test]
fn default_fields_stamp_local_time() {
    let f = default_fields("CRIT", 1, "down");
    assert_eq!(f[0].key, "ts");
    match &f[0].value {
        FieldValue::Str(ts) => {
            assert!(ts.len() >= 20);
            assert_eq!(ts.as_bytes()[10], b'T');
        }
        other => panic!("expected a string, got {:?}", other),
    }
    assert_eq!(f[1].value, FieldValue::Str("CRIT".to_string()));
}
