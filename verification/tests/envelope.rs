use prisma_crdt::CRDTOperation;
use prisma_crdt::CRDTOperationType;
use prisma_crdt::ProjectionError;
use prisma_crdt::objectify;
use prisma_crdt::timestamp::Timestamp;
use prisma_crdt::value::Value;

fn ts(physical: u64, counter: u64) -> Timestamp {
    Timestamp { physical, counter }
}

#[test]
fn new_keeps_fields() {
    let op = CRDTOperation::new(
        vec![1u8, 2u8],
        ts(10, 3),
        CRDTOperationType::owned("album", vec![]),
    );
    assert_eq!(op.node, vec![1u8, 2u8]);
    assert_eq!(op.timestamp, ts(10, 3));
    assert_eq!(op.typ, CRDTOperationType::owned("album", vec![]));
}

#[test]
fn shared_builds_shared_variant() {
    let typ = CRDTOperationType::shared("post", Value::Int(3), Value::Null);
    match typ {
        CRDTOperationType::Shared(s) => {
            assert_eq!(s.model, "post".to_owned());
            assert_eq!(s.record_id, Value::Int(3));
            assert_eq!(s.data, Value::Null);
        }
        _ => panic!("expected a Shared variant"),
    }
}

#[test]
fn relation_builds_relation_variant() {
    let typ = CRDTOperationType::relation("tag_on_file", vec![1u8], vec![2u8], Value::Bool(true));
    match typ {
        CRDTOperationType::Relation(r) => {
            assert_eq!(r.relation, "tag_on_file".to_owned());
            assert_eq!(r.relation_item, vec![1u8]);
            assert_eq!(r.relation_group, vec![2u8]);
            assert_eq!(r.data, Value::Bool(true));
        }
        _ => panic!("expected a Relation variant"),
    }
}

#[test]
fn owned_builds_owned_variant() {
    let typ = CRDTOperationType::owned("location", vec![Value::UInt(1), Value::UInt(2)]);
    match typ {
        CRDTOperationType::Owned(o) => {
            assert_eq!(o.model, "location".to_owned());
            assert_eq!(o.data, vec![Value::UInt(1), Value::UInt(2)]);
        }
        _ => panic!("expected an Owned variant"),
    }
}

#[test]
fn precedes_smaller_timestamp_first_whatever_the_nodes() {
    let early_big_node = CRDTOperation::new(
        vec![200u8],
        ts(1, 0),
        CRDTOperationType::owned("m", vec![]),
    );
    let late_small_node = CRDTOperation::new(
        vec![1u8],
        ts(2, 0),
        CRDTOperationType::owned("m", vec![]),
    );
    assert!(early_big_node.precedes(&late_small_node));
    assert!(!late_small_node.precedes(&early_big_node));
}

#[test]
fn precedes_counter_breaks_physical_tie() {
    let a = CRDTOperation::new(vec![9u8], ts(5, 1), CRDTOperationType::owned("m", vec![]));
    let b = CRDTOperation::new(vec![0u8], ts(5, 2), CRDTOperationType::owned("m", vec![]));
    assert!(a.precedes(&b));
    assert!(!b.precedes(&a));
}

#[test]
fn precedes_equal_timestamps_order_by_node_alone() {
    let a = CRDTOperation::new(vec![1u8, 5u8], ts(7, 7), CRDTOperationType::owned("m", vec![]));
    let b = CRDTOperation::new(vec![2u8], ts(7, 7), CRDTOperationType::owned("m", vec![]));
    assert!(a.precedes(&b));
    assert!(!b.precedes(&a));
    let c = CRDTOperation::new(vec![2u8], ts(7, 7), CRDTOperationType::owned("m", vec![]));
    assert!(!b.precedes(&c));
    assert!(!c.precedes(&b));
}

#[test]
fn objectify_returns_exactly_the_declared_fields() {
    let payload = Value::Object(vec![
        ("name".to_owned(), Value::Text("x".to_owned())),
        ("size".to_owned(), Value::UInt(4)),
    ]);
    let fields = objectify(payload).unwrap();
    assert_eq!(fields.len(), 2);
    assert_eq!(fields[0], ("name".to_owned(), Value::Text("x".to_owned())));
    assert_eq!(fields[1], ("size".to_owned(), Value::UInt(4)));
}

#[test]
fn objectify_rejects_a_scalar_every_time() {
    assert_eq!(objectify(Value::UInt(3)), Err(ProjectionError::NotAnObject));
    assert_eq!(objectify(Value::UInt(3)), Err(ProjectionError::NotAnObject));
    assert_eq!(
        objectify(Value::Array(vec![Value::Null])),
        Err(ProjectionError::NotAnObject)
    );
}
