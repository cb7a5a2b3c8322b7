//! Tagged cell values.

use vstd::prelude::*;
use crate::json::copy_json;
use crate::schema::ColumnType;

verus! {

/// One cell of a batch, or one attribute value of a log row.
#[derive(Debug, PartialEq)]
pub enum Datum {
    Null,
    Bool(bool),
    Int(i64),
    UInt(u64),
    /// A floating-point number, held as the 64 bits of its IEEE 754 encoding.
    Float(u64),
    Text(String),
    /// An array or an object, carried as it is and never looked into.
    Nested(serde_json::Value),
}

impl Clone for Datum {
    fn clone(&self) -> (r: Datum)
        ensures
            r == *self,
    {
        match self {
            Datum::Null => Datum::Null,
            Datum::Bool(b) => Datum::Bool(*b),
            Datum::Int(i) => Datum::Int(*i),
            Datum::UInt(u) => Datum::UInt(*u),
            Datum::Float(f) => Datum::Float(*f),
            Datum::Text(s) => Datum::Text(s.clone()),
            Datum::Nested(v) => Datum::Nested(copy_json(v)),
        }
    }
}

/// The column type that a value asks for; a null asks for none.
pub open spec fn value_type(v: Datum) -> Option<ColumnType> {
    match v {
        Datum::Null => None,
        Datum::Bool(_) => Some(ColumnType::Boolean),
        Datum::Int(_) => Some(ColumnType::Int64),
        Datum::UInt(_) => Some(ColumnType::UInt64),
        Datum::Float(_) => Some(ColumnType::Float64),
        Datum::Text(_) => Some(ColumnType::Utf8),
        Datum::Nested(_) => Some(ColumnType::Json),
    }
}

/// Whether a column type is one of the three numeric ones.
pub open spec fn is_numeric(t: ColumnType) -> bool {
    t == ColumnType::Int64 || t == ColumnType::UInt64 || t == ColumnType::Float64
}

/// The narrowest column type that holds cells of both types, if there is one.
/// A type joins with itself; two different numeric types widen to `Float64`;
/// nothing else is compatible.
pub open spec fn join(a: ColumnType, b: ColumnType) -> Option<ColumnType> {
    if a == b {
        Some(a)
    } else if is_numeric(a) && is_numeric(b) {
        Some(ColumnType::Float64)
    } else {
        None
    }
}

/// Whether a cell may stand in a column of type `t`.
pub open spec fn fits(v: Datum, t: ColumnType) -> bool {
    match value_type(v) {
        None => true,
        Some(s) => join(s, t) == Some(t),
    }
}

impl Datum {
    /// The column type that this value asks for.
    pub fn column_type(&self) -> (r: Option<ColumnType>)
        ensures
            r == value_type(*self),
    {
        match self {
            Datum::Null => None,
            Datum::Bool(_) => Some(ColumnType::Boolean),
            Datum::Int(_) => Some(ColumnType::Int64),
            Datum::UInt(_) => Some(ColumnType::UInt64),
            Datum::Float(_) => Some(ColumnType::Float64),
            Datum::Text(_) => Some(ColumnType::Utf8),
            Datum::Nested(_) => Some(ColumnType::Json),
        }
    }

    /// Whether this value is the null.
    pub fn is_null(&self) -> (r: bool)
        ensures
            r == (*self == Datum::Null),
    {
        match self {
            Datum::Null => true,
            _ => false,
        }
    }
}

/// Whether a column type is numeric.
fn numeric(t: ColumnType) -> (r: bool)
    ensures
        r == is_numeric(t),
{
    match t {
        ColumnType::Int64 => true,
        ColumnType::UInt64 => true,
        ColumnType::Float64 => true,
        _ => false,
    }
}

/// Joins two column types.
pub fn join_types(a: ColumnType, b: ColumnType) -> (r: Option<ColumnType>)
    ensures
        r == join(a, b),
{
    if a == b {
        Some(a)
    } else if numeric(a) && numeric(b) {
        Some(ColumnType::Float64)
    } else {
        None
    }
}

} // verus!
