use prisma_crdt::CRDTOperation;
use prisma_crdt::CRDTOperationType;
use prisma_crdt::codec::DecodeError;
use prisma_crdt::codec::decode_op;
use prisma_crdt::codec::encode_op;
use prisma_crdt::objectify;
use prisma_crdt::timestamp::Timestamp;
use prisma_crdt::value::Value;

fn ts(physical: u64, counter: u64) -> Timestamp {
    Timestamp { physical, counter }
}

fn shared_op(record_id: Value) -> CRDTOperation {
    CRDTOperation::new(
        vec![3u8, 1u8],
        ts(100, 2),
        CRDTOperationType::shared(
            "file",
            record_id,
            Value::Object(vec![("name".to_owned(), Value::Text("a".to_owned()))]),
        ),
    )
}

fn id_value(bytes: &[u8]) -> Value {
    Value::Array(bytes.iter().map(|b| Value::UInt(*b as u64)).collect())
}

fn ts_value(physical: u64, counter: u64) -> Value {
    Value::Array(vec![Value::UInt(physical), Value::UInt(counter)])
}

#[test]
fn round_trip_shared_text_record_id() {
    let op = shared_op(Value::Text("pk-1".to_owned()));
    let decoded = decode_op(encode_op(op)).unwrap();
    assert_eq!(decoded, shared_op(Value::Text("pk-1".to_owned())));
}

#[test]
fn round_trip_shared_numeric_record_id() {
    let op = shared_op(Value::Int(-42));
    let decoded = decode_op(encode_op(op)).unwrap();
    assert_eq!(decoded, shared_op(Value::Int(-42)));
}

#[test]
fn round_trip_shared_composite_record_id() {
    let composite = Value::Array(vec![Value::Text("left".to_owned()), Value::UInt(9)]);
    let op = shared_op(composite);
    let decoded = decode_op(encode_op(op)).unwrap();
    let composite_again = Value::Array(vec![Value::Text("left".to_owned()), Value::UInt(9)]);
    assert_eq!(decoded, shared_op(composite_again));
}

#[test]
fn round_trip_relation_with_item_equal_to_group() {
    let make = || {
        CRDTOperation::new(
            vec![8u8],
            ts(4, 0),
            CRDTOperationType::relation("tag_on_file", vec![9u8, 9u8], vec![9u8, 9u8], Value::Null),
        )
    };
    let decoded = decode_op(encode_op(make())).unwrap();
    assert_eq!(decoded, make());
}

#[test]
fn round_trip_owned_with_empty_batch() {
    let make = || CRDTOperation::new(vec![5u8], ts(6, 1), CRDTOperationType::owned("loc", vec![]));
    let decoded = decode_op(encode_op(make())).unwrap();
    assert_eq!(decoded, make());
    match decoded.typ {
        CRDTOperationType::Owned(o) => assert_eq!(o.data, vec![]),
        _ => panic!("expected an Owned variant"),
    }
}

#[test]
fn round_trip_owned_keeps_entry_order() {
    let make = || {
        CRDTOperation::new(
            vec![5u8],
            ts(6, 1),
            CRDTOperationType::owned("loc", vec![Value::UInt(1), Value::UInt(2), Value::UInt(3)]),
        )
    };
    let decoded = decode_op(encode_op(make())).unwrap();
    assert_eq!(decoded, make());
}

#[test]
fn identical_envelopes_encode_identically() {
    let make = || shared_op(Value::UInt(7));
    assert_eq!(encode_op(make()), encode_op(make()));
}

#[test]
fn encoding_is_one_flat_record_with_the_family_keys() {
    let encoded = encode_op(shared_op(Value::UInt(7)));
    let fields = objectify(encoded).unwrap();
    let keys: Vec<String> = fields.into_iter().map(|f| f.0).collect();
    assert_eq!(
        keys,
        vec![
            "n".to_owned(),
            "t".to_owned(),
            "model".to_owned(),
            "record_id".to_owned(),
            "data".to_owned(),
        ]
    );
}

#[test]
fn decode_rejects_a_non_object() {
    assert_eq!(decode_op(Value::UInt(5)), Err(DecodeError::NotAnObject));
    assert_eq!(decode_op(Value::Null), Err(DecodeError::NotAnObject));
}

#[test]
fn decode_rejects_a_missing_key() {
    let record = Value::Object(vec![
        ("n".to_owned(), id_value(&[1])),
        ("t".to_owned(), ts_value(1, 0)),
        ("model".to_owned(), Value::Text("file".to_owned())),
        ("record_id".to_owned(), Value::UInt(1)),
    ]);
    assert_eq!(decode_op(record), Err(DecodeError::UnrecognizedKeys));
}

#[test]
fn decode_rejects_a_repeated_key() {
    let record = Value::Object(vec![
        ("n".to_owned(), id_value(&[1])),
        ("t".to_owned(), ts_value(1, 0)),
        ("model".to_owned(), Value::Text("file".to_owned())),
        ("model".to_owned(), Value::Text("tag".to_owned())),
        ("data".to_owned(), Value::Null),
    ]);
    assert_eq!(decode_op(record), Err(DecodeError::UnrecognizedKeys));
}

#[test]
fn decode_rejects_an_unknown_key() {
    let record = Value::Object(vec![
        ("n".to_owned(), id_value(&[1])),
        ("t".to_owned(), ts_value(1, 0)),
        ("model".to_owned(), Value::Text("file".to_owned())),
        ("data".to_owned(), Value::Null),
        ("extra".to_owned(), Value::Null),
    ]);
    assert_eq!(decode_op(record), Err(DecodeError::UnrecognizedKeys));
}

#[test]
fn decode_rejects_keys_mixed_across_families() {
    let record = Value::Object(vec![
        ("n".to_owned(), id_value(&[1])),
        ("t".to_owned(), ts_value(1, 0)),
        ("model".to_owned(), Value::Text("file".to_owned())),
        ("relation".to_owned(), Value::Text("tag_on_file".to_owned())),
        ("data".to_owned(), Value::Null),
    ]);
    assert_eq!(decode_op(record), Err(DecodeError::UnrecognizedKeys));
}

#[test]
fn decode_rejects_a_node_byte_out_of_range() {
    let record = Value::Object(vec![
        ("n".to_owned(), Value::Array(vec![Value::UInt(300)])),
        ("t".to_owned(), ts_value(1, 0)),
        ("model".to_owned(), Value::Text("file".to_owned())),
        ("data".to_owned(), Value::Null),
    ]);
    assert_eq!(decode_op(record), Err(DecodeError::MalformedField));
}

#[test]
fn decode_rejects_a_malformed_timestamp() {
    let record = Value::Object(vec![
        ("n".to_owned(), id_value(&[1])),
        ("t".to_owned(), Value::Array(vec![Value::UInt(1)])),
        ("model".to_owned(), Value::Text("file".to_owned())),
        ("data".to_owned(), Value::Null),
    ]);
    assert_eq!(decode_op(record), Err(DecodeError::MalformedField));
}

#[test]
fn decode_rejects_a_non_text_model() {
    let record = Value::Object(vec![
        ("n".to_owned(), id_value(&[1])),
        ("t".to_owned(), ts_value(1, 0)),
        ("model".to_owned(), Value::UInt(3)),
        ("data".to_owned(), Value::Null),
    ]);
    assert_eq!(decode_op(record), Err(DecodeError::MalformedField));
}

#[test]
fn decode_accepts_keys_in_any_order() {
    let record = Value::Object(vec![
        ("data".to_owned(), Value::Null),
        ("model".to_owned(), Value::Text("file".to_owned())),
        ("t".to_owned(), ts_value(12, 1)),
        ("record_id".to_owned(), Value::UInt(4)),
        ("n".to_owned(), id_value(&[2, 2])),
    ]);
    let decoded = decode_op(record).unwrap();
    let expected = CRDTOperation::new(
        vec![2u8, 2u8],
        ts(12, 1),
        CRDTOperationType::shared("file", Value::UInt(4), Value::Null),
    );
    assert_eq!(decoded, expected);
}
