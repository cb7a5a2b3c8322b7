//! Spans and their encoding into the eight fixed columns.

use vstd::prelude::*;
use crate::batch::Batch;
use crate::error::EncodeError;
use crate::json::{json_text, write_json};
use crate::schema::{schema_span, span_columns};
use crate::datum::Datum;

verus! {

/// One timed operation within a trace. Times are microseconds. The tags are
/// an opaque JSON value: they are stored as one document per row and never
/// expanded into columns.
#[derive(Debug, PartialEq)]
pub struct Span {
    pub id: u64,
    pub parent_id: Option<u64>,
    pub trace_id: u64,
    pub name: String,
    pub process_id: String,
    pub start: i64,
    pub end: Option<i64>,
    pub tags: serde_json::Value,
}

/// The cell for an optional unsigned integer.
pub open spec fn uint_cell(v: Option<u64>) -> Datum {
    match v {
        Some(u) => Datum::UInt(u),
        None => Datum::Null,
    }
}

/// The cell for an optional signed integer.
pub open spec fn int_cell(v: Option<i64>) -> Datum {
    match v {
        Some(i) => Datum::Int(i),
        None => Datum::Null,
    }
}

/// The cell for an optional text.
pub open spec fn text_cell(v: Option<String>) -> Datum {
    match v {
        Some(s) => Datum::Text(s),
        None => Datum::Null,
    }
}

/// The cell of span `s` in column `c`, where `doc` is the serialized form of
/// its tags.
pub open spec fn span_cell(s: Span, doc: String, c: int) -> Datum {
    if c == 0 {
        Datum::UInt(s.id)
    } else if c == 1 {
        uint_cell(s.parent_id)
    } else if c == 2 {
        Datum::UInt(s.trace_id)
    } else if c == 3 {
        Datum::Text(s.name)
    } else if c == 4 {
        Datum::Text(s.process_id)
    } else if c == 5 {
        Datum::Int(s.start)
    } else if c == 6 {
        int_cell(s.end)
    } else {
        Datum::Text(doc)
    }
}

/// `b` is the span batch of `rows`, given the serialized tags `docs` of each.
pub open spec fn is_span_batch(b: Batch, rows: Seq<Span>, docs: Seq<String>) -> bool {
    &&& b.wf()
    &&& b.schema() == span_columns()
    &&& b.rows == rows.len()
    &&& docs.len() == rows.len()
    &&& forall|c: int, r: int|
        0 <= c < 8 && 0 <= r < rows.len() ==> #[trigger] b.cell(c, r) == span_cell(
            rows[r],
            docs[r],
            c,
        )
}

/// The cell for an optional unsigned integer.
pub fn uint_value(v: Option<u64>) -> (r: Datum)
    ensures
        r == uint_cell(v),
{
    match v {
        Some(u) => Datum::UInt(u),
        None => Datum::Null,
    }
}

/// The cell for an optional signed integer.
pub fn int_value(v: Option<i64>) -> (r: Datum)
    ensures
        r == int_cell(v),
{
    match v {
        Some(i) => Datum::Int(i),
        None => Datum::Null,
    }
}

/// The cell for an optional text.
pub fn text_value(v: &Option<String>) -> (r: Datum)
    ensures
        r == text_cell(*v),
{
    match v {
        Some(s) => Datum::Text(s.clone()),
        None => Datum::Null,
    }
}

/// Lays spans out in the eight fixed columns, taking the serialized tags of
/// each span from `docs`. No rows give a batch of eight empty columns.
pub fn span_batch(rows: &Vec<Span>, docs: &Vec<String>) -> (b: Batch)
    requires
        docs@.len() == rows@.len(),
    ensures
        is_span_batch(b, rows@, docs@),
{
    let n = rows.len();
    let mut ids: Vec<Datum> = Vec::new();
    let mut parents: Vec<Datum> = Vec::new();
    let mut traces: Vec<Datum> = Vec::new();
    let mut names: Vec<Datum> = Vec::new();
    let mut processes: Vec<Datum> = Vec::new();
    let mut starts: Vec<Datum> = Vec::new();
    let mut ends: Vec<Datum> = Vec::new();
    let mut tags: Vec<Datum> = Vec::new();
    let mut i: usize = 0;
    while i < n
        invariant
            n == rows@.len(),
            docs@.len() == n,
            i <= n,
            ids@.len() == i,
            parents@.len() == i,
            traces@.len() == i,
            names@.len() == i,
            processes@.len() == i,
            starts@.len() == i,
            ends@.len() == i,
            tags@.len() == i,
            forall|r: int| 0 <= r < i ==> #[trigger] ids@[r] == span_cell(rows@[r], docs@[r], 0),
            forall|r: int| 0 <= r < i ==> #[trigger] parents@[r] == span_cell(rows@[r], docs@[r], 1),
            forall|r: int| 0 <= r < i ==> #[trigger] traces@[r] == span_cell(rows@[r], docs@[r], 2),
            forall|r: int| 0 <= r < i ==> #[trigger] names@[r] == span_cell(rows@[r], docs@[r], 3),
            forall|r: int| 0 <= r < i ==> #[trigger] processes@[r] == span_cell(rows@[r], docs@[r], 4),
            forall|r: int| 0 <= r < i ==> #[trigger] starts@[r] == span_cell(rows@[r], docs@[r], 5),
            forall|r: int| 0 <= r < i ==> #[trigger] ends@[r] == span_cell(rows@[r], docs@[r], 6),
            forall|r: int| 0 <= r < i ==> #[trigger] tags@[r] == span_cell(rows@[r], docs@[r], 7),
        decreases n - i,
    {
        let s = &rows[i];
        ids.push(Datum::UInt(s.id));
        parents.push(uint_value(s.parent_id));
        traces.push(Datum::UInt(s.trace_id));
        names.push(Datum::Text(s.name.clone()));
        processes.push(Datum::Text(s.process_id.clone()));
        starts.push(Datum::Int(s.start));
        ends.push(int_value(s.end));
        tags.push(Datum::Text(docs[i].clone()));
        i += 1;
    }
    let mut columns: Vec<Vec<Datum>> = Vec::new();
    columns.push(ids);
    columns.push(parents);
    columns.push(traces);
    columns.push(names);
    columns.push(processes);
    columns.push(starts);
    columns.push(ends);
    columns.push(tags);
    let b = Batch { fields: schema_span(), columns, rows: n };
    proof {
        assert(b.schema().len() == 8);
        assert forall|c: int| 0 <= c < b.columns@.len() implies (#[trigger] b.columns@[c])@.len()
            == b.rows by {
            assert(c == 0 || c == 1 || c == 2 || c == 3 || c == 4 || c == 5 || c == 6 || c == 7);
        }
        assert forall|c: int, r: int| 0 <= c < 8 && 0 <= r < rows@.len() implies #[trigger] b.cell(
            c,
            r,
        ) == span_cell(rows@[r], docs@[r], c) by {
            assert(c == 0 || c == 1 || c == 2 || c == 3 || c == 4 || c == 5 || c == 6 || c == 7);
        }
    }
    b
}

/// The tags of each of the first `n` rows can be written as JSON.
pub open spec fn all_written(rows: Seq<Span>, n: int) -> bool {
    forall|i: int| 0 <= i < n ==> json_text((#[trigger] rows[i]).tags) is Some
}

/// `docs` holds, row by row, the JSON text of the row's tags.
pub open spec fn written(rows: Seq<Span>, docs: Seq<String>) -> bool {
    &&& docs.len() == rows.len()
    &&& forall|i: int|
        0 <= i < rows.len() ==> json_text(rows[i].tags) == Some((#[trigger] docs[i])@)
}

/// What encoding `rows` gives. Where the tags of every row can be written,
/// the span batch of the rows, its tags cells holding the JSON text of each
/// row's tags. Otherwise a serialization error that carries the id of the
/// first row whose tags cannot be written.
pub open spec fn span_encoding(rows: Seq<Span>, r: Result<Batch, EncodeError>) -> bool {
    match r {
        Ok(b) => exists|docs: Seq<String>| #[trigger]
            is_span_batch(b, rows, docs) && written(rows, docs),
        Err(e) => exists|k: int|
            {
                &&& 0 <= k < rows.len()
                &&& json_text((#[trigger] rows[k]).tags) is None
                &&& all_written(rows, k)
                &&& e == (EncodeError::Serialization { span_id: rows[k].id })
            },
    }
}

/// Encodes spans into a batch with the eight fixed columns. The tags of each
/// span are serialized on their own into one JSON document. An empty input
/// gives a batch without rows, never an error. The encoding succeeds exactly
/// when the tags of every row can be written.
pub fn convert_span_to_record_batch(spans: Vec<Span>) -> (r: Result<Batch, EncodeError>)
    ensures
        span_encoding(spans@, r),
        r is Ok <==> all_written(spans@, spans@.len() as int),
        spans@.len() == 0 ==> r is Ok,
        r matches Ok(b) ==> b.wf() && b.schema() == span_columns() && b.rows == spans@.len(),
{
    let n = spans.len();
    let mut docs: Vec<String> = Vec::new();
    let mut i: usize = 0;
    while i < n
        invariant
            n == spans@.len(),
            i <= n,
            docs@.len() == i,
            all_written(spans@, i as int),
            forall|j: int| 0 <= j < i ==> json_text(spans@[j].tags) == Some((#[trigger] docs@[j])@),
        decreases n - i,
    {
        match write_json(&spans[i].tags) {
            Ok(doc) => {
                docs.push(doc);
            },
            Err(_) => {
                let e = EncodeError::Serialization { span_id: spans[i].id };
                assert(json_text(spans@[i as int].tags) is None && all_written(spans@, i as int)
                    && e == (EncodeError::Serialization { span_id: spans@[i as int].id }));
                return Err(e);
            },
        }
        i += 1;
    }
    let b = span_batch(&spans, &docs);
    let r: Result<Batch, EncodeError> = Ok(b);
    assert(r matches Ok(made) && is_span_batch(made, spans@, docs@) && written(spans@, docs@));
    r
}

} // verus!
