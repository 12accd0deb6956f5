use vstd::prelude::*;

verus! {

/// A self-describing tagged value: the shapes a payload field may take on the
/// wire (text, numbers, booleans, ordered sequences, and nested name-to-value
/// records). Generic merge code reads fields of any payload through this type
/// instead of relying on a reflective serialization framework.
#[derive(Debug, PartialEq, Eq)]
pub enum Value {
    /// The absent value.
    Null,
    /// A boolean.
    Bool(bool),
    /// An unsigned number; byte and clock encodings use this shape.
    UInt(u64),
    /// A signed number.
    Int(i64),
    /// A text value.
    Text(String),
    /// An ordered sequence of values.
    Array(Vec<Value>),
    /// A name-to-value record, kept in insertion order.
    Object(Vec<(String, Value)>),
}

} // verus!
