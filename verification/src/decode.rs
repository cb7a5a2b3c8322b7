//! From batches back to rows: each record becomes a row document, a list of
//! the record's non-null cells under their column names, and each document is
//! mapped onto a row type by field name.

use vstd::prelude::*;
use crate::batch::Batch;
use crate::datum::Datum;
use crate::error::{DecodeError, Failure, agrees};
use crate::infer::Attribute;
use crate::log::{lookup, lookup_value};

verus! {

/// The document of row `k` of `b` over the first `n` columns: for each column
/// whose cell is not null, in column order, the column's name and the cell.
pub open spec fn row_document(b: Batch, k: int, n: int) -> Seq<Attribute>
    decreases n,
{
    if n <= 0 {
        Seq::empty()
    } else {
        let rest = row_document(b, k, n - 1);
        if b.cell(n - 1, k) == Datum::Null {
            rest
        } else {
            rest.push(Attribute { key: b.fields@[n - 1].name, value: b.cell(n - 1, k) })
        }
    }
}

/// The document of row `k` of `b`.
pub open spec fn document(b: Batch, k: int) -> Seq<Attribute> {
    row_document(b, k, b.fields@.len() as int)
}

/// Builds the document of one row of a batch.
pub fn document_of(b: &Batch, k: usize) -> (doc: Vec<Attribute>)
    requires
        b.wf(),
        k < b.rows,
    ensures
        doc@ == document(*b, k as int),
{
    let mut doc: Vec<Attribute> = Vec::new();
    let mut c: usize = 0;
    while c < b.fields.len()
        invariant
            b.wf(),
            k < b.rows,
            c <= b.fields@.len(),
            doc@ == row_document(*b, k as int, c as int),
        decreases b.fields@.len() - c,
    {
        let column = &b.columns[c];
        if !column[k].is_null() {
            doc.push(Attribute { key: b.fields[c].name.clone(), value: column[k].clone() });
        }
        c += 1;
    }
    doc
}

/// What a document binds to `name` as an optional unsigned integer.
pub open spec fn get_uint(doc: Seq<Attribute>, name: Seq<char>) -> Result<Option<u64>, Failure> {
    match lookup(doc, name) {
        Datum::Null => Ok(None),
        Datum::UInt(u) => Ok(Some(u)),
        _ => Err(Failure::Wrong(name)),
    }
}

/// What a document binds to `name` as an optional signed integer.
pub open spec fn get_int(doc: Seq<Attribute>, name: Seq<char>) -> Result<Option<i64>, Failure> {
    match lookup(doc, name) {
        Datum::Null => Ok(None),
        Datum::Int(i) => Ok(Some(i)),
        _ => Err(Failure::Wrong(name)),
    }
}

/// What a document binds to `name` as an optional text.
pub open spec fn get_text(doc: Seq<Attribute>, name: Seq<char>) -> Result<Option<String>, Failure> {
    match lookup(doc, name) {
        Datum::Null => Ok(None),
        Datum::Text(s) => Ok(Some(s)),
        _ => Err(Failure::Wrong(name)),
    }
}

/// A field that the row type requires: absent, it is an error naming it.
pub open spec fn required<T>(v: Result<Option<T>, Failure>, name: Seq<char>) -> Result<T, Failure> {
    match v {
        Err(f) => Err(f),
        Ok(None) => Err(Failure::Missing(name)),
        Ok(Some(x)) => Ok(x),
    }
}

/// Reads an optional unsigned integer field from a document.
pub fn uint_field(doc: &Vec<Attribute>, name: &str) -> (r: Result<Option<u64>, DecodeError>)
    ensures
        agrees(r, get_uint(doc@, name@)),
{
    let key = name.to_string();
    match lookup_value(doc, &key) {
        Datum::Null => Ok(None),
        Datum::UInt(u) => Ok(Some(u)),
        _ => Err(DecodeError::WrongType { field: key }),
    }
}

/// Reads an optional signed integer field from a document.
pub fn int_field(doc: &Vec<Attribute>, name: &str) -> (r: Result<Option<i64>, DecodeError>)
    ensures
        agrees(r, get_int(doc@, name@)),
{
    let key = name.to_string();
    match lookup_value(doc, &key) {
        Datum::Null => Ok(None),
        Datum::Int(i) => Ok(Some(i)),
        _ => Err(DecodeError::WrongType { field: key }),
    }
}

/// Reads an optional text field from a document.
pub fn text_field(doc: &Vec<Attribute>, name: &str) -> (r: Result<Option<String>, DecodeError>)
    ensures
        agrees(r, get_text(doc@, name@)),
{
    let key = name.to_string();
    match lookup_value(doc, &key) {
        Datum::Null => Ok(None),
        Datum::Text(s) => Ok(Some(s)),
        _ => Err(DecodeError::WrongType { field: key }),
    }
}

/// Reads an unsigned integer field that the row type requires.
pub fn required_uint(doc: &Vec<Attribute>, name: &str) -> (r: Result<u64, DecodeError>)
    ensures
        agrees(r, required(get_uint(doc@, name@), name@)),
{
    match uint_field(doc, name) {
        Err(e) => Err(e),
        Ok(None) => Err(DecodeError::MissingField { field: name.to_string() }),
        Ok(Some(x)) => Ok(x),
    }
}

/// Reads a signed integer field that the row type requires.
pub fn required_int(doc: &Vec<Attribute>, name: &str) -> (r: Result<i64, DecodeError>)
    ensures
        agrees(r, required(get_int(doc@, name@), name@)),
{
    match int_field(doc, name) {
        Err(e) => Err(e),
        Ok(None) => Err(DecodeError::MissingField { field: name.to_string() }),
        Ok(Some(x)) => Ok(x),
    }
}

/// Reads a text field that the row type requires.
pub fn required_text(doc: &Vec<Attribute>, name: &str) -> (r: Result<String, DecodeError>)
    ensures
        agrees(r, required(get_text(doc@, name@), name@)),
{
    match text_field(doc, name) {
        Err(e) => Err(e),
        Ok(None) => Err(DecodeError::MissingField { field: name.to_string() }),
        Ok(Some(x)) => Ok(x),
    }
}

/// A row type that documents can be mapped onto.
pub trait Row: Sized {
    /// Whether `r` is an outcome of mapping `doc` onto this type.
    spec fn decodes(doc: Seq<Attribute>, r: Result<Self, DecodeError>) -> bool;

    /// Maps a document onto this type by field name.
    fn from_document(doc: &Vec<Attribute>) -> (r: Result<Self, DecodeError>)
        ensures
            Self::decodes(doc@, r),
    ;
}

/// `done` holds, in order, a row for each of the first rows of `b`.
pub open spec fn decoded_rows<T: Row>(b: Batch, done: Seq<T>) -> bool {
    &&& done.len() <= b.rows
    &&& forall|k: int|
        0 <= k < done.len() ==> T::decodes(
            document(b, k),
            Ok::<T, DecodeError>(#[trigger] done[k]),
        )
}

/// `r` is an outcome of decoding the rows of `b`: a row for every row of the
/// batch, in order; or the error of the first row that fails. A batch that
/// is not well formed is an error of its own.
pub open spec fn is_batch_decoding<T: Row>(b: Batch, r: Result<Seq<T>, DecodeError>) -> bool {
    if !b.wf() {
        r matches Err(e) && e@ == Failure::Malformed
    } else {
        match r {
            Ok(rows) => rows.len() == b.rows && decoded_rows(b, rows),
            Err(e) => exists|done: Seq<T>|
                {
                    &&& #[trigger] decoded_rows(b, done)
                    &&& done.len() < b.rows
                    &&& T::decodes(document(b, done.len() as int), Err::<T, DecodeError>(e))
                },
        }
    }
}

/// The first `n` of `parts`, one after the other.
pub open spec fn concat<T>(parts: Seq<Seq<T>>, n: int) -> Seq<T>
    decreases n,
{
    if n <= 0 {
        Seq::empty()
    } else {
        concat(parts, n - 1) + parts[n - 1]
    }
}

/// `parts` holds, in order, the rows of each of the first of `batches`.
pub open spec fn decoded_batches<T: Row>(batches: Seq<Batch>, parts: Seq<Seq<T>>) -> bool {
    &&& parts.len() <= batches.len()
    &&& forall|i: int|
        0 <= i < parts.len() ==> is_batch_decoding(
            batches[i],
            Ok::<Seq<T>, DecodeError>(#[trigger] parts[i]),
        )
}

/// `r` is an outcome of decoding `batches`: the rows of each batch, decoded
/// on its own, in batch order; or the error of the first batch that fails.
pub open spec fn is_decoding<T: Row>(batches: Seq<Batch>, r: Result<Seq<T>, DecodeError>) -> bool {
    match r {
        Ok(rows) => exists|parts: Seq<Seq<T>>|
            {
                &&& #[trigger] decoded_batches(batches, parts)
                &&& parts.len() == batches.len()
                &&& rows == concat(parts, parts.len() as int)
            },
        Err(e) => exists|parts: Seq<Seq<T>>|
            {
                &&& #[trigger] decoded_batches(batches, parts)
                &&& parts.len() < batches.len()
                &&& is_batch_decoding::<T>(
                    batches[parts.len() as int],
                    Err::<Seq<T>, DecodeError>(e),
                )
            },
    }
}

/// The view of a decoded result.
pub open spec fn rows_view<T>(r: Result<Vec<T>, DecodeError>) -> Result<Seq<T>, DecodeError> {
    match r {
        Ok(v) => Ok(v@),
        Err(e) => Err(e),
    }
}

/// Decodes the rows of one batch.
pub fn decode_batch<T: Row>(b: &Batch) -> (r: Result<Vec<T>, DecodeError>)
    ensures
        is_batch_decoding(*b, rows_view(r)),
{
    if !b.is_well_formed() {
        return Err(DecodeError::MalformedBatch);
    }
    let mut rows: Vec<T> = Vec::new();
    let mut k: usize = 0;
    while k < b.rows
        invariant
            b.wf(),
            k <= b.rows,
            rows@.len() == k,
            decoded_rows(*b, rows@),
        decreases b.rows - k,
    {
        let doc = document_of(b, k);
        match T::from_document(&doc) {
            Ok(row) => {
                rows.push(row);
            },
            Err(e) => {
                assert(decoded_rows(*b, rows@) && rows@.len() < b.rows && T::decodes(
                    document(*b, rows@.len() as int),
                    Err::<T, DecodeError>(e),
                ));
                return Err(e);
            },
        }
        k += 1;
    }
    Ok(rows)
}

/// Decodes batches into rows of type `T`. Each batch is decoded on its own,
/// by column name; the rows come in batch order, and within a batch in row
/// order. No batches give no rows. The first row that cannot be mapped onto
/// `T`, or the first batch that is not well formed, is the error.
pub fn serialize_record_batches<T: Row>(batch: &[Batch]) -> (r: Result<Vec<T>, DecodeError>)
    ensures
        is_decoding(batch@, rows_view(r)),
        batch@.len() == 0 ==> (r matches Ok(v) && v@.len() == 0),
{
    let mut rows: Vec<T> = Vec::new();
    let ghost mut parts: Seq<Seq<T>> = Seq::empty();
    let mut i: usize = 0;
    while i < batch.len()
        invariant
            i <= batch@.len(),
            parts.len() == i,
            decoded_batches(batch@, parts),
            rows@ == concat(parts, i as int),
        decreases batch@.len() - i,
    {
        match decode_batch::<T>(&batch[i]) {
            Ok(mut part) => {
                proof {
                    let before = parts;
                    parts = parts.push(part@);
                    assert forall|n: int| 0 <= n <= before.len() implies concat(parts, n) == concat(
                        before,
                        n,
                    ) by {
                        concat_prefix(before, part@, n);
                    }
                }
                rows.append(&mut part);
            },
            Err(e) => {
                assert(decoded_batches(batch@, parts) && parts.len() < batch@.len()
                    && is_batch_decoding::<T>(
                    batch@[parts.len() as int],
                    Err::<Seq<T>, DecodeError>(e),
                ));
                return Err(e);
            },
        }
        i += 1;
    }
    assert(decoded_batches(batch@, parts) && rows@ == concat(parts, parts.len() as int));
    Ok(rows)
}

/// A part pushed at the end leaves the concatenation of the parts before it
/// as it was.
pub proof fn concat_prefix<T>(parts: Seq<Seq<T>>, last: Seq<T>, n: int)
    requires
        0 <= n <= parts.len(),
    ensures
        concat(parts.push(last), n) == concat(parts, n),
    decreases n,
{
    if n > 0 {
        concat_prefix(parts, last, n - 1);
    }
}

} // verus!
