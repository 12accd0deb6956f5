use vstd::prelude::*;

use crate::CRDTOperation;
use crate::CRDTOperationType;
use crate::OwnedOperation;
use crate::RelationOperation;
use crate::SharedOperation;
use crate::timestamp::Timestamp;
use crate::value::Value;

verus! {

// ------------------------------------------------------------------
// Reading a flat record at the specification level
// ------------------------------------------------------------------

/// The value under the first occurrence of key `k` at or after position `i`.
pub open spec fn lookup_from(entries: Seq<(String, Value)>, k: Seq<char>, i: int) -> Option<Value>
    decreases entries.len() - i,
{
    if i < 0 || i >= entries.len() {
        None
    } else if entries[i].0@ == k {
        Some(entries[i].1)
    } else {
        lookup_from(entries, k, i + 1)
    }
}

/// The value under the first occurrence of key `k`, if any.
pub open spec fn lookup(entries: Seq<(String, Value)>, k: Seq<char>) -> Option<Value> {
    lookup_from(entries, k, 0)
}

pub open spec fn has_key(entries: Seq<(String, Value)>, k: Seq<char>) -> bool {
    lookup(entries, k) is Some
}

pub open spec fn keys_unique_from(entries: Seq<(String, Value)>, i: int) -> bool {
    forall|j1: int, j2: int|
        i <= j1 < j2 < entries.len() ==> #[trigger] entries[j1].0@ != #[trigger] entries[j2].0@
}

/// No key occurs twice in the record.
pub open spec fn unique_keys(entries: Seq<(String, Value)>) -> bool {
    keys_unique_from(entries, 0)
}

/// The eight keys a wire record may carry: the envelope's own two and the
/// family-specific ones.
pub open spec fn is_known_key(k: Seq<char>) -> bool {
    ||| k == "n"@
    ||| k == "t"@
    ||| k == "model"@
    ||| k == "record_id"@
    ||| k == "data"@
    ||| k == "relation"@
    ||| k == "relation_item"@
    ||| k == "relation_group"@
}

pub open spec fn keys_known_from(entries: Seq<(String, Value)>, i: int) -> bool {
    forall|j: int| i <= j < entries.len() ==> is_known_key(#[trigger] entries[j].0@)
}

pub open spec fn all_keys_known(entries: Seq<(String, Value)>) -> bool {
    keys_known_from(entries, 0)
}

// ------------------------------------------------------------------
// Field encodings
// ------------------------------------------------------------------

/// `v` encodes the byte identifier `id`: an array of one unsigned number per
/// byte, in order.
pub open spec fn is_id_encoding(v: Value, id: Seq<u8>) -> bool {
    &&& v matches Value::Array(items)
    &&& items@.len() == id.len()
    &&& forall|i: int| 0 <= i < id.len() ==> (#[trigger] items@[i]) == Value::UInt(id[i] as u64)
}

/// `v` encodes the timestamp `t` in the clock's native two-part representation:
/// physical time first, logical counter second.
pub open spec fn is_ts_encoding(v: Value, t: Timestamp) -> bool {
    &&& v matches Value::Array(items)
    &&& items@.len() == 2
    &&& items@[0] == Value::UInt(t.physical)
    &&& items@[1] == Value::UInt(t.counter)
}

/// `v` has the shape of some id encoding: an array of numbers that fit a byte.
pub open spec fn wf_id_value(v: Value) -> bool {
    &&& v matches Value::Array(items)
    &&& forall|i: int|
        0 <= i < items@.len() ==> ((#[trigger] items@[i]) matches Value::UInt(b) && b <= u8::MAX
            as u64)
}

/// `v` has the shape of some timestamp encoding.
pub open spec fn wf_ts_value(v: Value) -> bool {
    &&& v matches Value::Array(items)
    &&& items@.len() == 2
    &&& items@[0] is UInt
    &&& items@[1] is UInt
}

// ------------------------------------------------------------------
// Key sets of the three families
// ------------------------------------------------------------------

/// Exactly the keys of a Shared record are present.
pub open spec fn shared_key_pattern(es: Seq<(String, Value)>) -> bool {
    &&& has_key(es, "n"@)
    &&& has_key(es, "t"@)
    &&& has_key(es, "model"@)
    &&& has_key(es, "record_id"@)
    &&& has_key(es, "data"@)
    &&& !has_key(es, "relation"@)
    &&& !has_key(es, "relation_item"@)
    &&& !has_key(es, "relation_group"@)
}

/// Exactly the keys of a Relation record are present.
pub open spec fn relation_key_pattern(es: Seq<(String, Value)>) -> bool {
    &&& has_key(es, "n"@)
    &&& has_key(es, "t"@)
    &&& has_key(es, "relation"@)
    &&& has_key(es, "relation_item"@)
    &&& has_key(es, "relation_group"@)
    &&& has_key(es, "data"@)
    &&& !has_key(es, "model"@)
    &&& !has_key(es, "record_id"@)
}

/// Exactly the keys of an Owned record are present.
pub open spec fn owned_key_pattern(es: Seq<(String, Value)>) -> bool {
    &&& has_key(es, "n"@)
    &&& has_key(es, "t"@)
    &&& has_key(es, "model"@)
    &&& has_key(es, "data"@)
    &&& !has_key(es, "record_id"@)
    &&& !has_key(es, "relation"@)
    &&& !has_key(es, "relation_item"@)
    &&& !has_key(es, "relation_group"@)
}

/// The record's key set is exactly one family's key set: every key known, none
/// repeated, and the present keys match one family.
pub open spec fn keys_fit(es: Seq<(String, Value)>) -> bool {
    &&& unique_keys(es)
    &&& all_keys_known(es)
    &&& (shared_key_pattern(es) || relation_key_pattern(es) || owned_key_pattern(es))
}

/// Every present field has the shape its key demands.
pub open spec fn fields_ok(es: Seq<(String, Value)>) -> bool {
    &&& lookup(es, "n"@) matches Some(nv) && wf_id_value(nv)
    &&& lookup(es, "t"@) matches Some(tv) && wf_ts_value(tv)
    &&& (has_key(es, "model"@) ==> (lookup(es, "model"@) matches Some(mv) && mv is Text))
    &&& (has_key(es, "relation"@) ==> (lookup(es, "relation"@) matches Some(rv) && rv is Text))
    &&& (has_key(es, "relation_item"@) ==> (lookup(es, "relation_item"@) matches Some(iv)
        && wf_id_value(iv)))
    &&& (has_key(es, "relation_group"@) ==> (lookup(es, "relation_group"@) matches Some(gv)
        && wf_id_value(gv)))
    &&& (owned_key_pattern(es) ==> (lookup(es, "data"@) matches Some(dv) && dv is Array))
}

/// `v` is a well-formed wire record: a flat object whose key set is exactly one
/// family's key set and whose fields have the demanded shapes.
pub open spec fn wf_encoding(v: Value) -> bool {
    &&& v matches Value::Object(entries)
    &&& keys_fit(entries@)
    &&& fields_ok(entries@)
}

/// `v` is a wire record carrying exactly the operation `op`: the envelope keys
/// hold `op`'s node bytes and timestamp, and the family keys hold `op`'s own
/// payload fields, with no extra, missing or repeated key.
pub open spec fn is_encoding_of(v: Value, op: CRDTOperation) -> bool {
    &&& v matches Value::Object(entries)
    &&& keys_fit(entries@)
    &&& lookup(entries@, "n"@) matches Some(nv) && is_id_encoding(nv, op.node@)
    &&& lookup(entries@, "t"@) matches Some(tv) && is_ts_encoding(tv, op.timestamp)
    &&& match op.typ {
        CRDTOperationType::Shared(s) => {
            &&& shared_key_pattern(entries@)
            &&& lookup(entries@, "model"@) == Some(Value::Text(s.model))
            &&& lookup(entries@, "record_id"@) == Some(s.record_id)
            &&& lookup(entries@, "data"@) == Some(s.data)
        },
        CRDTOperationType::Relation(rel) => {
            &&& relation_key_pattern(entries@)
            &&& lookup(entries@, "relation"@) == Some(Value::Text(rel.relation))
            &&& lookup(entries@, "relation_item"@) matches Some(iv) && is_id_encoding(
                iv,
                rel.relation_item@,
            )
            &&& lookup(entries@, "relation_group"@) matches Some(gv) && is_id_encoding(
                gv,
                rel.relation_group@,
            )
            &&& lookup(entries@, "data"@) == Some(rel.data)
        },
        CRDTOperationType::Owned(o) => {
            &&& owned_key_pattern(entries@)
            &&& lookup(entries@, "model"@) == Some(Value::Text(o.model))
            &&& lookup(entries@, "data"@) == Some(Value::Array(o.data))
        },
    }
}

// ------------------------------------------------------------------
// Helper lemmas about lookup
// ------------------------------------------------------------------

/// Facts that pin the eight wire keys apart: their lengths, and the first
/// character of the two one-character keys.
proof fn lemma_wire_keys_distinct()
    ensures
        "n"@.len() == 1,
        "t"@.len() == 1,
        "model"@.len() == 5,
        "record_id"@.len() == 9,
        "data"@.len() == 4,
        "relation"@.len() == 8,
        "relation_item"@.len() == 13,
        "relation_group"@.len() == 14,
        "n"@[0] == 'n',
        "t"@[0] == 't',
{
    reveal_strlit("n");
    reveal_strlit("t");
    reveal_strlit("model");
    reveal_strlit("record_id");
    reveal_strlit("data");
    reveal_strlit("relation");
    reveal_strlit("relation_item");
    reveal_strlit("relation_group");
}

/// A key is absent from position `i` onward exactly when no entry there bears it.
proof fn lemma_lookup_from_none(entries: Seq<(String, Value)>, k: Seq<char>, i: int)
    requires
        0 <= i <= entries.len(),
    ensures
        (lookup_from(entries, k, i) is None) <==> (forall|j: int|
            i <= j < entries.len() ==> (#[trigger] entries[j].0@) != k),
    decreases entries.len() - i,
{
    if i < entries.len() && entries[i].0@ != k {
        lemma_lookup_from_none(entries, k, i + 1);
    }
}

/// An entry with a key that reappears later makes the record's keys non-unique.
proof fn lemma_dup_key_not_unique(es: Seq<(String, Value)>, k: Seq<char>, i: int)
    requires
        0 <= i < es.len(),
        es[i].0@ == k,
        lookup_from(es, k, i + 1) is Some,
    ensures
        !unique_keys(es),
{
    lemma_lookup_from_none(es, k, i + 1);
    let j = choose|j: int| i + 1 <= j < es.len() && (#[trigger] es[j].0@) == k;
    assert(es[i].0@ == es[j].0@);
}

/// Taking in an entry whose key does not reappear keeps keys unique and known.
proof fn lemma_scan_step(es: Seq<(String, Value)>, k: Seq<char>, i: int)
    requires
        0 <= i < es.len(),
        es[i].0@ == k,
        is_known_key(k),
        keys_unique_from(es, i + 1),
        keys_known_from(es, i + 1),
        lookup_from(es, k, i + 1) is None,
    ensures
        keys_unique_from(es, i),
        keys_known_from(es, i),
        lookup_from(es, k, i) == Some(es[i].1),
{
    lemma_lookup_from_none(es, k, i + 1);
}

/// Skipping an entry that bears a different key leaves a lookup unchanged.
proof fn lemma_lookup_skip(es: Seq<(String, Value)>, k: Seq<char>, i: int)
    requires
        0 <= i < es.len(),
        es[i].0@ != k,
    ensures
        lookup_from(es, k, i) == lookup_from(es, k, i + 1),
{
}

// ------------------------------------------------------------------
// Encoding
// ------------------------------------------------------------------

/// Encodes an id as an array of one unsigned number per byte.
fn encode_id(id: &Vec<u8>) -> (r: Value)
    ensures
        is_id_encoding(r, id@),
{
    let mut items: Vec<Value> = Vec::new();
    let mut i: usize = 0;
    while i < id.len()
        invariant
            i <= id@.len(),
            items@.len() == i,
            forall|k: int| 0 <= k < i ==> (#[trigger] items@[k]) == Value::UInt(id@[k] as u64),
        decreases id@.len() - i,
    {
        items.push(Value::UInt(id[i] as u64));
        i = i + 1;
    }
    Value::Array(items)
}

/// Encodes a timestamp in the clock's native two-part representation.
fn encode_ts(t: &Timestamp) -> (r: Value)
    ensures
        is_ts_encoding(r, *t),
{
    let mut items: Vec<Value> = Vec::new();
    items.push(Value::UInt(t.physical));
    items.push(Value::UInt(t.counter));
    Value::Array(items)
}

/// The fixed order in which the encoder writes a family's keys.
pub open spec fn wire_key_order(typ: CRDTOperationType) -> Seq<Seq<char>> {
    match typ {
        CRDTOperationType::Shared(_) => seq!["n"@, "t"@, "model"@, "record_id"@, "data"@],
        CRDTOperationType::Relation(_) => seq![
            "n"@,
            "t"@,
            "relation"@,
            "relation_item"@,
            "relation_group"@,
            "data"@,
        ],
        CRDTOperationType::Owned(_) => seq!["n"@, "t"@, "model"@, "data"@],
    }
}

/// `v` carries its keys in the encoder's fixed order, one entry per key.
pub open spec fn canonical_key_order(v: Value, op: CRDTOperation) -> bool {
    &&& v matches Value::Object(entries)
    &&& entries@.len() == wire_key_order(op.typ).len()
    &&& forall|i: int|
        0 <= i < entries@.len() ==> (#[trigger] entries@[i].0@) == wire_key_order(op.typ)[i]
}

/// Encodes an operation as one flat, self-describing record: the envelope's
/// `n` and `t` keys and the active family's own keys, flattened at top level
/// with no wrapper key and no explicit tag, in one fixed order. Identical
/// envelopes encode to identical records, the basis for deduplication.
pub fn encode_op(op: CRDTOperation) -> (r: Value)
    ensures
        is_encoding_of(r, op),
        canonical_key_order(r, op),
{
    let CRDTOperation { node, timestamp, typ } = op;
    let nv = encode_id(&node);
    let tv = encode_ts(&timestamp);
    let mut entries: Vec<(String, Value)> = Vec::new();
    entries.push(("n".to_owned(), nv));
    entries.push(("t".to_owned(), tv));
    match typ {
        CRDTOperationType::Shared(s) => {
            let SharedOperation { model, record_id, data } = s;
            entries.push(("model".to_owned(), Value::Text(model)));
            entries.push(("record_id".to_owned(), record_id));
            entries.push(("data".to_owned(), data));
            proof {
                lemma_wire_keys_distinct();
                reveal_with_fuel(lookup_from, 7);
                let es = entries@;
                assert(es.len() == 5);
                assert(lookup(es, "n"@) == Some(nv));
                assert(lookup(es, "t"@) == Some(tv));
                assert(lookup(es, "relation"@) is None);
                assert(lookup(es, "relation_item"@) is None);
                assert(lookup(es, "relation_group"@) is None);
                assert(unique_keys(es));
                assert(all_keys_known(es));
            }
            Value::Object(entries)
        },
        CRDTOperationType::Relation(rel) => {
            let RelationOperation { relation, relation_item, relation_group, data } = rel;
            let iv = encode_id(&relation_item);
            let gv = encode_id(&relation_group);
            entries.push(("relation".to_owned(), Value::Text(relation)));
            entries.push(("relation_item".to_owned(), iv));
            entries.push(("relation_group".to_owned(), gv));
            entries.push(("data".to_owned(), data));
            proof {
                lemma_wire_keys_distinct();
                reveal_with_fuel(lookup_from, 8);
                let es = entries@;
                assert(es.len() == 6);
                assert(lookup(es, "n"@) == Some(nv));
                assert(lookup(es, "t"@) == Some(tv));
                assert(lookup(es, "relation_item"@) == Some(iv));
                assert(lookup(es, "relation_group"@) == Some(gv));
                assert(lookup(es, "model"@) is None);
                assert(lookup(es, "record_id"@) is None);
                assert(unique_keys(es));
                assert(all_keys_known(es));
            }
            Value::Object(entries)
        },
        CRDTOperationType::Owned(o) => {
            let OwnedOperation { model, data } = o;
            entries.push(("model".to_owned(), Value::Text(model)));
            entries.push(("data".to_owned(), Value::Array(data)));
            proof {
                lemma_wire_keys_distinct();
                reveal_with_fuel(lookup_from, 6);
                let es = entries@;
                assert(es.len() == 4);
                assert(lookup(es, "n"@) == Some(nv));
                assert(lookup(es, "t"@) == Some(tv));
                assert(lookup(es, "record_id"@) is None);
                assert(lookup(es, "relation"@) is None);
                assert(lookup(es, "relation_item"@) is None);
                assert(lookup(es, "relation_group"@) is None);
                assert(unique_keys(es));
                assert(all_keys_known(es));
            }
            Value::Object(entries)
        },
    }
}

// ------------------------------------------------------------------
// Decoding
// ------------------------------------------------------------------

/// Why a record failed to decode. A decode failure is a recoverable error: the
/// caller (a transport or storage collaborator) must surface it, since a
/// silently discarded operation is a silent consistency violation.
#[derive(Clone, Copy, Debug, PartialEq, Eq)]
pub enum DecodeError {
    /// The record's top level is not a name-to-value object.
    NotAnObject,
    /// The key set is not exactly one family's key set: a key is unknown or
    /// repeated, or the present keys match no family.
    UnrecognizedKeys,
    /// The keys fit one family, but a field has the wrong shape.
    MalformedField,
}

/// Decodes an id field back to its bytes.
fn decode_id(v: &Value) -> (r: Option<Vec<u8>>)
    ensures
        r matches Some(id) ==> is_id_encoding(*v, id@),
        r is Some <==> wf_id_value(*v),
{
    match v {
        Value::Array(items) => {
            let mut out: Vec<u8> = Vec::new();
            let mut i: usize = 0;
            while i < items.len()
                invariant
                    (*v) matches Value::Array(vi) && vi@ == items@,
                    i <= items@.len(),
                    out@.len() == i,
                    forall|k: int|
                        0 <= k < i ==> (#[trigger] items@[k]) == Value::UInt(out@[k] as u64),
                decreases items@.len() - i,
            {
                match &items[i] {
                    Value::UInt(b) => {
                        if *b > 255 {
                            proof {
                                assert(items@[i as int] == Value::UInt(*b));
                            }
                            return None;
                        }
                        out.push(*b as u8);
                    },
                    _ => {
                        proof {
                            assert(!(items@[i as int] is UInt));
                        }
                        return None;
                    },
                }
                i = i + 1;
            }
            Some(out)
        },
        _ => None,
    }
}

/// Decodes a timestamp field.
fn decode_ts(v: &Value) -> (r: Option<Timestamp>)
    ensures
        r matches Some(t) ==> is_ts_encoding(*v, t),
        r is Some <==> wf_ts_value(*v),
{
    match v {
        Value::Array(items) => {
            if items.len() != 2 {
                return None;
            }
            let physical = match &items[0] {
                Value::UInt(x) => *x,
                _ => {
                    return None;
                },
            };
            let counter = match &items[1] {
                Value::UInt(x) => *x,
                _ => {
                    return None;
                },
            };
            Some(Timestamp { physical, counter })
        },
        _ => None,
    }
}

/// Decodes one flat record. No tag is written on the wire, so the family is
/// inferred from which keys are present; to keep that inference unambiguous the
/// key set must be exactly one family's key set, and a record with an unknown,
/// repeated or missing key is rejected rather than guessed at. Every failure is
/// reported to the caller; nothing is silently dropped or defaulted.
pub fn decode_op(v: Value) -> (r: Result<CRDTOperation, DecodeError>)
    ensures
        r matches Ok(op) ==> is_encoding_of(v, op),
        r is Ok <==> wf_encoding(v),
        (r == Err::<CRDTOperation, DecodeError>(DecodeError::NotAnObject)) <==> !(v is Object),
        v matches Value::Object(entries) ==> ((r == Err::<CRDTOperation, DecodeError>(
            DecodeError::UnrecognizedKeys,
        )) <==> !keys_fit(entries@)),
        v matches Value::Object(entries) ==> ((r == Err::<CRDTOperation, DecodeError>(
            DecodeError::MalformedField,
        )) <==> (keys_fit(entries@) && !fields_ok(entries@))),
{
    let entries_vec: Vec<(String, Value)> = match v {
        Value::Object(e) => e,
        _ => {
            return Err(DecodeError::NotAnObject);
        },
    };
    let ghost es = entries_vec@;
    let key_n: String = "n".to_owned();
    let key_t: String = "t".to_owned();
    let key_model: String = "model".to_owned();
    let key_record_id: String = "record_id".to_owned();
    let key_data: String = "data".to_owned();
    let key_relation: String = "relation".to_owned();
    let key_relation_item: String = "relation_item".to_owned();
    let key_relation_group: String = "relation_group".to_owned();
    let mut remaining = entries_vec;
    let mut slot_n: Option<Value> = None;
    let mut slot_t: Option<Value> = None;
    let mut slot_model: Option<Value> = None;
    let mut slot_record_id: Option<Value> = None;
    let mut slot_data: Option<Value> = None;
    let mut slot_relation: Option<Value> = None;
    let mut slot_relation_item: Option<Value> = None;
    let mut slot_relation_group: Option<Value> = None;
    proof {
        assert(es.take(es.len() as int) =~= es);
    }
    while remaining.len() > 0
        invariant
            v matches Value::Object(oe) && oe@ == es,
            remaining@.len() <= es.len(),
            remaining@ == es.take(remaining@.len() as int),
            keys_unique_from(es, remaining@.len() as int),
            keys_known_from(es, remaining@.len() as int),
            slot_n == lookup_from(es, "n"@, remaining@.len() as int),
            slot_t == lookup_from(es, "t"@, remaining@.len() as int),
            slot_model == lookup_from(es, "model"@, remaining@.len() as int),
            slot_record_id == lookup_from(es, "record_id"@, remaining@.len() as int),
            slot_data == lookup_from(es, "data"@, remaining@.len() as int),
            slot_relation == lookup_from(es, "relation"@, remaining@.len() as int),
            slot_relation_item == lookup_from(es, "relation_item"@, remaining@.len() as int),
            slot_relation_group == lookup_from(es, "relation_group"@, remaining@.len() as int),
            key_n@ == "n"@,
            key_t@ == "t"@,
            key_model@ == "model"@,
            key_record_id@ == "record_id"@,
            key_data@ == "data"@,
            key_relation@ == "relation"@,
            key_relation_item@ == "relation_item"@,
            key_relation_group@ == "relation_group"@,
        decreases remaining@.len(),
    {
        proof {
            lemma_wire_keys_distinct();
        }
        let ghost l_old = remaining@.len() as int;
        let kv = remaining.pop().unwrap();
        let ghost i = l_old - 1;
        proof {
            assert(kv == es.take(l_old)[i]);
            assert(es.take(l_old)[i] == es[i]);
            assert(remaining@ =~= es.take(i));
        }
        let (k, val) = kv;
        if k == key_n {
            if slot_n.is_some() {
                proof {
                    lemma_dup_key_not_unique(es, "n"@, i);
                }
                return Err(DecodeError::UnrecognizedKeys);
            }
            slot_n = Some(val);
            proof {
                lemma_scan_step(es, "n"@, i);
                lemma_lookup_skip(es, "t"@, i);
                lemma_lookup_skip(es, "model"@, i);
                lemma_lookup_skip(es, "record_id"@, i);
                lemma_lookup_skip(es, "data"@, i);
                lemma_lookup_skip(es, "relation"@, i);
                lemma_lookup_skip(es, "relation_item"@, i);
                lemma_lookup_skip(es, "relation_group"@, i);
            }
        } else if k == key_t {
            if slot_t.is_some() {
                proof {
                    lemma_dup_key_not_unique(es, "t"@, i);
                }
                return Err(DecodeError::UnrecognizedKeys);
            }
            slot_t = Some(val);
            proof {
                lemma_scan_step(es, "t"@, i);
                lemma_lookup_skip(es, "n"@, i);
                lemma_lookup_skip(es, "model"@, i);
                lemma_lookup_skip(es, "record_id"@, i);
                lemma_lookup_skip(es, "data"@, i);
                lemma_lookup_skip(es, "relation"@, i);
                lemma_lookup_skip(es, "relation_item"@, i);
                lemma_lookup_skip(es, "relation_group"@, i);
            }
        } else if k == key_model {
            if slot_model.is_some() {
                proof {
                    lemma_dup_key_not_unique(es, "model"@, i);
                }
                return Err(DecodeError::UnrecognizedKeys);
            }
            slot_model = Some(val);
            proof {
                lemma_scan_step(es, "model"@, i);
                lemma_lookup_skip(es, "n"@, i);
                lemma_lookup_skip(es, "t"@, i);
                lemma_lookup_skip(es, "record_id"@, i);
                lemma_lookup_skip(es, "data"@, i);
                lemma_lookup_skip(es, "relation"@, i);
                lemma_lookup_skip(es, "relation_item"@, i);
                lemma_lookup_skip(es, "relation_group"@, i);
            }
        } else if k == key_record_id {
            if slot_record_id.is_some() {
                proof {
                    lemma_dup_key_not_unique(es, "record_id"@, i);
                }
                return Err(DecodeError::UnrecognizedKeys);
            }
            slot_record_id = Some(val);
            proof {
                lemma_scan_step(es, "record_id"@, i);
                lemma_lookup_skip(es, "n"@, i);
                lemma_lookup_skip(es, "t"@, i);
                lemma_lookup_skip(es, "model"@, i);
                lemma_lookup_skip(es, "data"@, i);
                lemma_lookup_skip(es, "relation"@, i);
                lemma_lookup_skip(es, "relation_item"@, i);
                lemma_lookup_skip(es, "relation_group"@, i);
            }
        } else if k == key_data {
            if slot_data.is_some() {
                proof {
                    lemma_dup_key_not_unique(es, "data"@, i);
                }
                return Err(DecodeError::UnrecognizedKeys);
            }
            slot_data = Some(val);
            proof {
                lemma_scan_step(es, "data"@, i);
                lemma_lookup_skip(es, "n"@, i);
                lemma_lookup_skip(es, "t"@, i);
                lemma_lookup_skip(es, "model"@, i);
                lemma_lookup_skip(es, "record_id"@, i);
                lemma_lookup_skip(es, "relation"@, i);
                lemma_lookup_skip(es, "relation_item"@, i);
                lemma_lookup_skip(es, "relation_group"@, i);
            }
        } else if k == key_relation {
            if slot_relation.is_some() {
                proof {
                    lemma_dup_key_not_unique(es, "relation"@, i);
                }
                return Err(DecodeError::UnrecognizedKeys);
            }
            slot_relation = Some(val);
            proof {
                lemma_scan_step(es, "relation"@, i);
                lemma_lookup_skip(es, "n"@, i);
                lemma_lookup_skip(es, "t"@, i);
                lemma_lookup_skip(es, "model"@, i);
                lemma_lookup_skip(es, "record_id"@, i);
                lemma_lookup_skip(es, "data"@, i);
                lemma_lookup_skip(es, "relation_item"@, i);
                lemma_lookup_skip(es, "relation_group"@, i);
            }
        } else if k == key_relation_item {
            if slot_relation_item.is_some() {
                proof {
                    lemma_dup_key_not_unique(es, "relation_item"@, i);
                }
                return Err(DecodeError::UnrecognizedKeys);
            }
            slot_relation_item = Some(val);
            proof {
                lemma_scan_step(es, "relation_item"@, i);
                lemma_lookup_skip(es, "n"@, i);
                lemma_lookup_skip(es, "t"@, i);
                lemma_lookup_skip(es, "model"@, i);
                lemma_lookup_skip(es, "record_id"@, i);
                lemma_lookup_skip(es, "data"@, i);
                lemma_lookup_skip(es, "relation"@, i);
                lemma_lookup_skip(es, "relation_group"@, i);
            }
        } else if k == key_relation_group {
            if slot_relation_group.is_some() {
                proof {
                    lemma_dup_key_not_unique(es, "relation_group"@, i);
                }
                return Err(DecodeError::UnrecognizedKeys);
            }
            slot_relation_group = Some(val);
            proof {
                lemma_scan_step(es, "relation_group"@, i);
                lemma_lookup_skip(es, "n"@, i);
                lemma_lookup_skip(es, "t"@, i);
                lemma_lookup_skip(es, "model"@, i);
                lemma_lookup_skip(es, "record_id"@, i);
                lemma_lookup_skip(es, "data"@, i);
                lemma_lookup_skip(es, "relation"@, i);
                lemma_lookup_skip(es, "relation_item"@, i);
            }
        } else {
            proof {
                assert(es[i].0@ == k@);
                assert(!is_known_key(es[i].0@));
                assert(!all_keys_known(es));
            }
            return Err(DecodeError::UnrecognizedKeys);
        }
    }
    proof {
        lemma_wire_keys_distinct();
        assert(slot_n == lookup(es, "n"@));
        assert(slot_t == lookup(es, "t"@));
        assert(slot_model == lookup(es, "model"@));
        assert(slot_record_id == lookup(es, "record_id"@));
        assert(slot_data == lookup(es, "data"@));
        assert(slot_relation == lookup(es, "relation"@));
        assert(slot_relation_item == lookup(es, "relation_item"@));
        assert(slot_relation_group == lookup(es, "relation_group"@));
    }
    match (
        slot_n,
        slot_t,
        slot_model,
        slot_record_id,
        slot_data,
        slot_relation,
        slot_relation_item,
        slot_relation_group,
    ) {
        (Some(nv), Some(tv), Some(mv), Some(rid), Some(dv), None, None, None) => {
            let node = match decode_id(&nv) {
                Some(x) => x,
                None => {
                    return Err(DecodeError::MalformedField);
                },
            };
            let ts = match decode_ts(&tv) {
                Some(x) => x,
                None => {
                    return Err(DecodeError::MalformedField);
                },
            };
            let model = match mv {
                Value::Text(s) => s,
                _ => {
                    return Err(DecodeError::MalformedField);
                },
            };
            Ok(CRDTOperation {
                node,
                timestamp: ts,
                typ: CRDTOperationType::Shared(SharedOperation {
                    model,
                    record_id: rid,
                    data: dv,
                }),
            })
        },
        (Some(nv), Some(tv), None, None, Some(dv), Some(rv), Some(iv), Some(gv)) => {
            let node = match decode_id(&nv) {
                Some(x) => x,
                None => {
                    return Err(DecodeError::MalformedField);
                },
            };
            let ts = match decode_ts(&tv) {
                Some(x) => x,
                None => {
                    return Err(DecodeError::MalformedField);
                },
            };
            let relation = match rv {
                Value::Text(s) => s,
                _ => {
                    return Err(DecodeError::MalformedField);
                },
            };
            let relation_item = match decode_id(&iv) {
                Some(x) => x,
                None => {
                    return Err(DecodeError::MalformedField);
                },
            };
            let relation_group = match decode_id(&gv) {
                Some(x) => x,
                None => {
                    return Err(DecodeError::MalformedField);
                },
            };
            Ok(CRDTOperation {
                node,
                timestamp: ts,
                typ: CRDTOperationType::Relation(RelationOperation {
                    relation,
                    relation_item,
                    relation_group,
                    data: dv,
                }),
            })
        },
        (Some(nv), Some(tv), Some(mv), None, Some(dv), None, None, None) => {
            let node = match decode_id(&nv) {
                Some(x) => x,
                None => {
                    return Err(DecodeError::MalformedField);
                },
            };
            let ts = match decode_ts(&tv) {
                Some(x) => x,
                None => {
                    return Err(DecodeError::MalformedField);
                },
            };
            let model = match mv {
                Value::Text(s) => s,
                _ => {
                    return Err(DecodeError::MalformedField);
                },
            };
            let data = match dv {
                Value::Array(items) => items,
                _ => {
                    return Err(DecodeError::MalformedField);
                },
            };
            Ok(CRDTOperation {
                node,
                timestamp: ts,
                typ: CRDTOperationType::Owned(OwnedOperation { model, data }),
            })
        },
        _ => Err(DecodeError::UnrecognizedKeys),
    }
}

// ------------------------------------------------------------------
// The laws of the codec
// ------------------------------------------------------------------

/// An id encoding is a well-shaped id field.
proof fn lemma_id_encoding_wf(nv: Value, a: Seq<u8>)
    requires
        is_id_encoding(nv, a),
    ensures
        wf_id_value(nv),
{
    match nv {
        Value::Array(items) => {
            assert forall|i: int| 0 <= i < items@.len() implies ((#[trigger] items@[i])
                matches Value::UInt(b) && b <= u8::MAX as u64) by {
                assert(items@[i] == Value::UInt(a[i] as u64));
            }
        },
        _ => {
            assert(false);
        },
    }
}

/// One id field encodes at most one byte sequence.
proof fn lemma_id_encoding_injective(nv: Value, a: Seq<u8>, b: Seq<u8>)
    requires
        is_id_encoding(nv, a),
        is_id_encoding(nv, b),
    ensures
        a == b,
{
    match nv {
        Value::Array(items) => {
            assert forall|i: int| 0 <= i < a.len() implies a[i] == b[i] by {
                assert(items@[i] == Value::UInt(a[i] as u64));
                assert(items@[i] == Value::UInt(b[i] as u64));
            }
            assert(a =~= b);
        },
        _ => {
            assert(false);
        },
    }
}

/// Any record that encodes some operation is a well-formed record, so decoding
/// what was encoded always succeeds: half of the round-trip law.
pub proof fn lemma_encoding_wf(v: Value, op: CRDTOperation)
    requires
        is_encoding_of(v, op),
    ensures
        wf_encoding(v),
{
    match v {
        Value::Object(entries) => {
            let es = entries@;
            match lookup(es, "n"@) {
                Some(nv) => {
                    lemma_id_encoding_wf(nv, op.node@);
                },
                None => {
                    assert(false);
                },
            }
            match op.typ {
                CRDTOperationType::Shared(s) => {},
                CRDTOperationType::Relation(rel) => {
                    match lookup(es, "relation_item"@) {
                        Some(iv) => {
                            lemma_id_encoding_wf(iv, rel.relation_item@);
                        },
                        None => {
                            assert(false);
                        },
                    }
                    match lookup(es, "relation_group"@) {
                        Some(gv) => {
                            lemma_id_encoding_wf(gv, rel.relation_group@);
                        },
                        None => {
                            assert(false);
                        },
                    }
                },
                CRDTOperationType::Owned(o) => {},
            }
        },
        _ => {
            assert(false);
        },
    }
}

/// Two payloads carry the same family and identical family-specific fields,
/// with ids compared by their bytes.
pub open spec fn op_payload_eq(t1: CRDTOperationType, t2: CRDTOperationType) -> bool {
    match (t1, t2) {
        (CRDTOperationType::Shared(a), CRDTOperationType::Shared(b)) => {
            &&& a.model == b.model
            &&& a.record_id == b.record_id
            &&& a.data == b.data
        },
        (CRDTOperationType::Relation(a), CRDTOperationType::Relation(b)) => {
            &&& a.relation == b.relation
            &&& a.relation_item@ == b.relation_item@
            &&& a.relation_group@ == b.relation_group@
            &&& a.data == b.data
        },
        (CRDTOperationType::Owned(a), CRDTOperationType::Owned(b)) => {
            &&& a.model == b.model
            &&& a.data == b.data
        },
        _ => false,
    }
}

/// Round-trip law, second half: a record determines the operation it encodes.
/// Together with the contracts of `encode_op` and `decode_op` this says that
/// encoding an operation and decoding the result yields an operation with
/// identical node bytes, identical timestamp, and identical family-specific
/// fields, whatever the operation was.
pub proof fn lemma_encoding_determines_operation(
    v: Value,
    op1: CRDTOperation,
    op2: CRDTOperation,
)
    requires
        is_encoding_of(v, op1),
        is_encoding_of(v, op2),
    ensures
        op1.node@ == op2.node@,
        op1.timestamp == op2.timestamp,
        op_payload_eq(op1.typ, op2.typ),
{
    match v {
        Value::Object(entries) => {
            let es = entries@;
            match lookup(es, "n"@) {
                Some(nv) => {
                    lemma_id_encoding_injective(nv, op1.node@, op2.node@);
                },
                None => {
                    assert(false);
                },
            }
            match (op1.typ, op2.typ) {
                (CRDTOperationType::Relation(a), CRDTOperationType::Relation(b)) => {
                    match lookup(es, "relation_item"@) {
                        Some(iv) => {
                            lemma_id_encoding_injective(iv, a.relation_item@, b.relation_item@);
                        },
                        None => {
                            assert(false);
                        },
                    }
                    match lookup(es, "relation_group"@) {
                        Some(gv) => {
                            lemma_id_encoding_injective(gv, a.relation_group@, b.relation_group@);
                        },
                        None => {
                            assert(false);
                        },
                    }
                },
                _ => {},
            }
        },
        _ => {
            assert(false);
        },
    }
}

// ------------------------------------------------------------------
// The schema guard: no two families share a required key set
// ------------------------------------------------------------------

/// The required keys of a Shared record.
pub open spec fn shared_keys() -> Set<Seq<char>> {
    Set::empty().insert("n"@).insert("t"@).insert("model"@).insert("record_id"@).insert("data"@)
}

/// The required keys of a Relation record.
pub open spec fn relation_keys() -> Set<Seq<char>> {
    Set::empty().insert("n"@).insert("t"@).insert("relation"@).insert("relation_item"@).insert(
        "relation_group"@,
    ).insert("data"@)
}

/// The required keys of an Owned record.
pub open spec fn owned_keys() -> Set<Seq<char>> {
    Set::empty().insert("n"@).insert("t"@).insert("model"@).insert("data"@)
}

/// No explicit tag is written on the wire, so decoding rests on the families
/// never sharing a required key set. This pins that down at the schema level:
/// were two families ever given identical required keys, decoding would become
/// ambiguous, and this proof would break.
pub proof fn lemma_family_key_sets_distinct()
    ensures
        shared_keys() != relation_keys(),
        shared_keys() != owned_keys(),
        relation_keys() != owned_keys(),
{
    lemma_wire_keys_distinct();
    assert(shared_keys().contains("record_id"@));
    assert(!relation_keys().contains("record_id"@));
    assert(!owned_keys().contains("record_id"@));
    assert(relation_keys().contains("relation"@));
    assert(!owned_keys().contains("relation"@));
}

} // verus!
