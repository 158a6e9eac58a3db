use slog_mongodb::{encode, serialize_record, DocumentSerializer, EncodeError, Field, FieldValue, Value};

fn field(key: &str, value: FieldValue) -> Field {
    Field { key: key.to_string(), value }
}

fn keys(doc: &slog_mongodb::Document) -> Vec<String> {
    doc.entries.iter().map(|e| e.key.clone()).collect()
}

#[test]
fn scalar_values_keep_their_type() {
    assert_eq!(encode(&FieldValue::Bool(true)), Ok(Value::Boolean(true)));
    assert_eq!(encode(&FieldValue::I8(-3)), Ok(Value::Int32(-3)));
    assert_eq!(encode(&FieldValue::I16(-300)), Ok(Value::Int32(-300)));
    assert_eq!(encode(&FieldValue::I32(i32::MIN)), Ok(Value::Int32(i32::MIN)));
    assert_eq!(encode(&FieldValue::I64(i64::MAX)), Ok(Value::Int64(i64::MAX)));
    assert_eq!(encode(&FieldValue::Isize(-7)), Ok(Value::Int64(-7)));
    assert_eq!(encode(&FieldValue::Str("abc".to_string())), Ok(Value::Str("abc".to_string())));
    let bits = 1.5f64.to_bits();
    assert_eq!(encode(&FieldValue::Double(bits)), Ok(Value::Double(bits)));
}

#[test]
fn unsigned_values_become_signed() {
    assert_eq!(encode(&FieldValue::U8(255)), Ok(Value::Int32(255)));
    assert_eq!(encode(&FieldValue::U16(65535)), Ok(Value::Int32(65535)));
    assert_eq!(encode(&FieldValue::U32(u32::MAX)), Ok(Value::Int64(4294967295)));
    assert_eq!(encode(&FieldValue::U64(i64::MAX as u64)), Ok(Value::Int64(i64::MAX)));
    assert_eq!(encode(&FieldValue::Usize(6)), Ok(Value::Int64(6)));
}

#[test]
fn unsigned_value_out_of_range_fails() {
    let big = i64::MAX as u64 + 1;
    assert_eq!(encode(&FieldValue::U64(big)), Err(EncodeError::UnsignedOutOfRange(big)));
    assert_eq!(encode(&FieldValue::U64(u64::MAX)), Err(EncodeError::UnsignedOutOfRange(u64::MAX)));
}

#[test]
fn unit_and_absent_become_null() {
    assert_eq!(encode(&FieldValue::Unit), Ok(Value::Null));
    assert_eq!(encode(&FieldValue::Absent), Ok(Value::Null));
}

#[test]
fn char_becomes_one_character_string() {
    assert_eq!(encode(&FieldValue::Char('x')), Ok(Value::Str("x".to_string())));
    assert_eq!(encode(&FieldValue::Char('é')), Ok(Value::Str("é".to_string())));
}

#[test]
fn record_fields_in_source_order() {
    let statics = vec![field("ts", FieldValue::Str("t0".to_string())), field("level", FieldValue::Str("INFO".to_string()))];
    let instance = vec![field("module", FieldValue::Str("net".to_string()))];
    let call = vec![field("key", FieldValue::Str("value".to_string())), field("n", FieldValue::I32(4))];
    let doc = serialize_record(&statics, &instance, &call).unwrap();
    assert_eq!(keys(&doc), vec!["ts", "level", "module", "key", "n"]);
    assert_eq!(doc.entries[4].value, Value::Int32(4));
}

#[test]
fn repeated_key_is_kept_and_later_wins() {
    let statics = vec![field("k", FieldValue::I32(1))];
    let instance = vec![field("k", FieldValue::I32(2))];
    let call = vec![field("k", FieldValue::I32(3)), field("other", FieldValue::Unit)];
    let doc = serialize_record(&statics, &instance, &call).unwrap();
    assert_eq!(keys(&doc), vec!["k", "k", "k", "other"]);
    assert_eq!(doc.get("k"), Some(&Value::Int32(3)));
    assert_eq!(doc.get("other"), Some(&Value::Null));
    assert_eq!(doc.get("missing"), None);

    let doc = serialize_record(&statics, &instance, &vec![]).unwrap();
    assert_eq!(doc.get("k"), Some(&Value::Int32(2)));
}

#[test]
fn empty_record_gives_empty_document() {
    let doc = serialize_record(&vec![], &vec![], &vec![]).unwrap();
    assert!(doc.entries.is_empty());
}

#[test]
fn one_bad_field_fails_the_record() {
    let statics = vec![field("a", FieldValue::I32(1))];
    let call = vec![field("big", FieldValue::U64(u64::MAX)), field("b", FieldValue::I32(2))];
    assert_eq!(
        serialize_record(&statics, &vec![], &call),
        Err(EncodeError::UnsignedOutOfRange(u64::MAX))
    );
}

#[test]
fn serializer_keeps_document_on_failed_emit() {
    let mut ser = DocumentSerializer::start();
    assert_eq!(ser.emit(&field("a", FieldValue::Bool(false))), Ok(()));
    assert!(ser.emit(&field("b", FieldValue::Usize(usize::MAX))).is_err());
    let doc = ser.end();
    assert_eq!(keys(&doc), vec!["a"]);
    assert_eq!(doc.entries[0].value, Value::Boolean(false));
}
