//! What encoding and decoding can fail with.

use vstd::prelude::*;

verus! {

/// Why a sequence of rows could not be encoded.
#[derive(Debug, PartialEq, Eq)]
pub enum EncodeError {
    /// The tags of the span with this id have no serialized form.
    Serialization { span_id: u64 },
    /// The values bound to this attribute key have no common column type.
    SchemaInference { key: String },
    /// This attribute key is also the name of a fixed column.
    SchemaMerge { column: String },
}

/// Why a row document could not be mapped onto a row type.
#[derive(Debug, PartialEq, Eq)]
pub enum DecodeError {
    /// The document has no value for a field that the row type requires.
    MissingField { field: String },
    /// The document's value for this field is of the wrong kind.
    WrongType { field: String },
    /// A batch has not one column per field, or a column has not one cell
    /// per row.
    MalformedBatch,
}

/// The mathematical value of a `DecodeError`.
pub enum Failure {
    Missing(Seq<char>),
    Wrong(Seq<char>),
    Malformed,
}

impl View for DecodeError {
    type V = Failure;

    open spec fn view(&self) -> Failure {
        match self {
            DecodeError::MissingField { field } => Failure::Missing(field@),
            DecodeError::WrongType { field } => Failure::Wrong(field@),
            DecodeError::MalformedBatch => Failure::Malformed,
        }
    }
}

/// `r` is a failure whose view is `f`.
pub open spec fn fails<T>(r: Result<T, DecodeError>, f: Failure) -> bool {
    r matches Err(e) && e@ == f
}

/// `r` is the outcome `s`, as an executable value.
pub open spec fn agrees<T>(r: Result<T, DecodeError>, s: Result<T, Failure>) -> bool {
    match s {
        Ok(v) => r == Ok::<T, DecodeError>(v),
        Err(f) => r matches Err(e) && e@ == f,
    }
}

} // verus!
