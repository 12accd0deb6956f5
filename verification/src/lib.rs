//! The operation envelope and type taxonomy of a replicated, multi-writer
//! data store: each mutation is an immutable record carrying the writing
//! node's id, a hybrid-logical-clock value, and one of three payload families.
//! The envelope gives every operation log the same total order on every node,
//! encodes to a self-describing flat record, decodes back to the identical
//! operation, and projects any payload to generic name-to-value fields.

use vstd::prelude::*;

pub mod codec;
pub mod order;
pub mod timestamp;
pub mod value;

use crate::timestamp::Timestamp;
use crate::value::Value;

verus! {

/// An opaque byte identifier for nodes and records, compared by exact byte
/// equality. Node ids are globally unique; record ids are unique within their
/// owning model or relation.
pub type Id = Vec<u8>;

/// One projected field: a name paired with its value.
pub type SerializedField = (String, Value);

/// Payload of a mutation on one shared record; produced by a collaborator and
/// carried opaquely by the envelope.
pub type SharedOperationData = Value;

/// Payload of a membership change in a many-to-many relation; carried opaquely.
pub type RelationOperationData = Value;

/// One field-update entry of an owned-model batch; carried opaquely.
pub type OwnedOperationData = Value;

/// A mutation on a single record of a shared model, keyed by a model-scoped
/// record identifier of arbitrary shape (text, number, or composite).
#[derive(Debug, PartialEq, Eq)]
pub struct SharedOperation {
    pub model: String,
    pub record_id: Value,
    pub data: SharedOperationData,
}

/// A membership change in a many-to-many relation between an item and a group.
#[derive(Debug, PartialEq, Eq)]
pub struct RelationOperation {
    pub relation: String,
    pub relation_item: Id,
    pub relation_group: Id,
    pub data: RelationOperationData,
}

/// Field-level mutations, possibly batched across several owned records under
/// one model; the entries keep their order.
#[derive(Debug, PartialEq, Eq)]
pub struct OwnedOperation {
    pub model: String,
    pub data: Vec<OwnedOperationData>,
}

/// The three mutually exclusive payload families an envelope may carry.
#[derive(Debug, PartialEq, Eq)]
pub enum CRDTOperationType {
    Shared(SharedOperation),
    Relation(RelationOperation),
    Owned(OwnedOperation),
}

impl CRDTOperationType {
    /// Builds a Shared variant; the model name is copied, so the result has no
    /// tie to the caller's buffer. Pure, with no failure modes.
    pub fn shared(model: &str, record_id: Value, data: SharedOperationData) -> (r: Self)
        ensures
            ({
                &&& r matches CRDTOperationType::Shared(s)
                &&& s.model@ == model@
                &&& s.record_id == record_id
                &&& s.data == data
            }),
    {
        CRDTOperationType::Shared(SharedOperation { model: model.to_owned(), record_id, data })
    }

    /// Builds a Relation variant; the relation name is copied. Pure, with no
    /// failure modes; an item that equals its group is as valid as any other.
    pub fn relation(
        relation: &str,
        relation_item: Id,
        relation_group: Id,
        data: RelationOperationData,
    ) -> (r: Self)
        ensures
            ({
                &&& r matches CRDTOperationType::Relation(rel)
                &&& rel.relation@ == relation@
                &&& rel.relation_item == relation_item
                &&& rel.relation_group == relation_group
                &&& rel.data == data
            }),
    {
        CRDTOperationType::Relation(RelationOperation {
            relation: relation.to_owned(),
            relation_item,
            relation_group,
            data,
        })
    }

    /// Builds an Owned variant; the model name is copied. Pure, with no failure
    /// modes; an empty batch is as valid as any other.
    pub fn owned(model: &str, data: Vec<OwnedOperationData>) -> (r: Self)
        ensures
            ({
                &&& r matches CRDTOperationType::Owned(o)
                &&& o.model@ == model@
                &&& o.data == data
            }),
    {
        CRDTOperationType::Owned(OwnedOperation { model: model.to_owned(), data })
    }
}

/// The operation envelope: the writing node's id, that node's clock value at
/// the mutation, and the payload. Immutable once constructed; the envelope is
/// the unit exchanged between nodes and appended to operation logs.
#[derive(Debug, PartialEq, Eq)]
pub struct CRDTOperation {
    pub node: Id,
    pub timestamp: Timestamp,
    pub typ: CRDTOperationType,
}

impl CRDTOperation {
    /// Wraps a payload with the writing node's id and clock value. Performs no
    /// validation: the caller is responsible for timestamp monotonicity and
    /// correct node attribution; this is a pure value carrier.
    pub fn new(node: Id, timestamp: Timestamp, typ: CRDTOperationType) -> (r: Self)
        ensures
            r.node == node,
            r.timestamp == timestamp,
            r.typ == typ,
    {
        CRDTOperation { node, timestamp, typ }
    }
}

/// A named holder of one generic storage backend, so that other components can
/// be written over "whatever backend is configured". It imposes no interface
/// of its own; all read, write and query behavior belongs to the backend type.
pub struct CRDTStore<Database> {
    pub database: Database,
}

/// The fault reported when a payload does not have the object shape every
/// concrete payload of this system must serialize to.
#[derive(Clone, Copy, Debug, PartialEq, Eq)]
pub enum ProjectionError {
    /// The payload's top level is a scalar or an ordered list, not a record.
    NotAnObject,
}

/// Projects a structured payload to its generic name-to-value fields, so that
/// backend-agnostic merge code can read them without per-model accessors. The
/// fields returned are exactly the payload's declared fields, in order. A
/// payload whose top level is not a record is a schema defect: it is reported
/// loudly and deterministically, never replaced by a silently empty mapping.
pub fn objectify(val: Value) -> (r: Result<Vec<SerializedField>, ProjectionError>)
    ensures
        val matches Value::Object(entries) ==> r == Ok::<Vec<SerializedField>, ProjectionError>(
            entries,
        ),
        !(val is Object) ==> r == Err::<Vec<SerializedField>, ProjectionError>(
            ProjectionError::NotAnObject,
        ),
{
    match val {
        Value::Object(entries) => Ok(entries),
        _ => Err(ProjectionError::NotAnObject),
    }
}

} // verus!
