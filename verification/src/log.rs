//! Log rows and their encoding: six fixed columns, then one column per
//! attribute key.

use vstd::prelude::*;
use crate::batch::Batch;
use crate::datum::Datum;
use crate::error::EncodeError;
use crate::conflicts::no_collision_merges;
use crate::infer::{
    Attribute, collision, documents, find_collision, infer_rows, infer_schema, merge_schemas,
};
use crate::schema::{Field, FieldView, log_columns, schema_log, schema_view};
use crate::span::{text_cell, text_value, uint_cell, uint_value};

verus! {

/// A timestamped message with an open list of attributes. The time is in
/// microseconds. A key may occur more than once among the attributes: every
/// occurrence takes part in schema inference, so that two occurrences of
/// types that do not join are a conflict, and the first occurrence gives the
/// key's cell.
#[derive(Debug, PartialEq)]
pub struct Log {
    pub process_id: String,
    pub time: i64,
    pub trace_id: Option<u64>,
    pub span_id: Option<u64>,
    pub level: String,
    pub message: Option<String>,
    pub fields: Vec<Attribute>,
}

/// The index of the first attribute at or after `from` whose key is `key`, or
/// the number of attributes if there is none.
pub open spec fn first_keyed(attrs: Seq<Attribute>, key: Seq<char>, from: int) -> int
    decreases attrs.len() - from,
{
    if from < 0 || from >= attrs.len() {
        attrs.len() as int
    } else if attrs[from].key@ == key {
        from
    } else {
        first_keyed(attrs, key, from + 1)
    }
}

/// The value bound to `key`, or null where the key is absent.
pub open spec fn lookup(attrs: Seq<Attribute>, key: Seq<char>) -> Datum {
    let i = first_keyed(attrs, key, 0);
    if i < attrs.len() {
        attrs[i].value
    } else {
        Datum::Null
    }
}

/// The cell of log row `l` in column `c`, where `name` is the column's name:
/// the six fixed cells first, then the attribute bound to the column's name.
pub open spec fn log_cell(l: Log, c: int, name: Seq<char>) -> Datum {
    if c == 0 {
        Datum::Text(l.process_id)
    } else if c == 1 {
        Datum::Int(l.time)
    } else if c == 2 {
        uint_cell(l.trace_id)
    } else if c == 3 {
        uint_cell(l.span_id)
    } else if c == 4 {
        Datum::Text(l.level)
    } else if c == 5 {
        text_cell(l.message)
    } else {
        lookup(l.fields@, name)
    }
}

/// `b` is the log batch of `rows` under `schema`.
pub open spec fn is_log_batch(b: Batch, rows: Seq<Log>, schema: Seq<FieldView>) -> bool {
    &&& b.wf()
    &&& b.schema() == schema
    &&& b.rows == rows.len()
    &&& forall|c: int, r: int|
        0 <= c < schema.len() && 0 <= r < rows.len() ==> #[trigger] b.cell(c, r) == log_cell(
            rows[r],
            c,
            schema[c].name,
        )
}

/// What encoding `rows` gives. Inference reads every attribute of every
/// row, a repeated key like any other, and its failure comes first. Then the
/// first attribute key, in reading order and whatever it binds, that is the
/// name of a fixed column is a merge error. Otherwise the result is the log
/// batch of the rows under the fixed columns followed by the inferred ones.
pub open spec fn is_log_encoding(rows: Seq<Log>, r: Result<Batch, EncodeError>) -> bool {
    match infer_rows(documents(rows), rows.len() as int) {
        Err(k) => r matches Err(EncodeError::SchemaInference { key }) && key@ == k,
        Ok(dynamic) => match collision(log_columns(), documents(rows)) {
            Some(k) => r matches Err(EncodeError::SchemaMerge { column }) && column@ == k,
            None => r matches Ok(b) && is_log_batch(b, rows, log_columns() + dynamic),
        },
    }
}

/// The value bound to `key` among `attrs`, or null.
pub fn lookup_value(attrs: &Vec<Attribute>, key: &String) -> (r: Datum)
    ensures
        r == lookup(attrs@, key@),
{
    let mut j: usize = 0;
    while j < attrs.len()
        invariant
            j <= attrs@.len(),
            first_keyed(attrs@, key@, 0) == first_keyed(attrs@, key@, j as int),
        decreases attrs@.len() - j,
    {
        if attrs[j].key == *key {
            return attrs[j].value.clone();
        }
        j += 1;
    }
    Datum::Null
}

/// The cells of one attribute column: for each row the value bound to `key`.
pub fn attribute_column(rows: &Vec<Log>, key: &String) -> (col: Vec<Datum>)
    ensures
        col@.len() == rows@.len(),
        forall|r: int| 0 <= r < rows@.len() ==> #[trigger] col@[r] == lookup(rows@[r].fields@, key@),
{
    let mut col: Vec<Datum> = Vec::new();
    let mut r: usize = 0;
    while r < rows.len()
        invariant
            r <= rows@.len(),
            col@.len() == r,
            forall|k: int| 0 <= k < r ==> #[trigger] col@[k] == lookup(rows@[k].fields@, key@),
        decreases rows@.len() - r,
    {
        col.push(lookup_value(&rows[r].fields, key));
        r += 1;
    }
    col
}

/// Lays log rows out under a schema that starts with the six fixed columns:
/// the fixed cells of each row, then for every further column the attribute
/// that the row binds to the column's name, null where it binds none.
pub fn log_batch(rows: &Vec<Log>, fields: Vec<Field>) -> (b: Batch)
    requires
        fields@.len() >= 6,
    ensures
        is_log_batch(b, rows@, schema_view(fields@)),
        b.fields@ == fields@,
{
    let n = rows.len();
    let mut processes: Vec<Datum> = Vec::new();
    let mut times: Vec<Datum> = Vec::new();
    let mut traces: Vec<Datum> = Vec::new();
    let mut spans: Vec<Datum> = Vec::new();
    let mut levels: Vec<Datum> = Vec::new();
    let mut messages: Vec<Datum> = Vec::new();
    let ghost names = schema_view(fields@);
    let mut i: usize = 0;
    while i < n
        invariant
            n == rows@.len(),
            i <= n,
            processes@.len() == i,
            times@.len() == i,
            traces@.len() == i,
            spans@.len() == i,
            levels@.len() == i,
            messages@.len() == i,
            forall|r: int| 0 <= r < i ==> #[trigger] processes@[r] == log_cell(rows@[r], 0, names[0].name),
            forall|r: int| 0 <= r < i ==> #[trigger] times@[r] == log_cell(rows@[r], 1, names[1].name),
            forall|r: int| 0 <= r < i ==> #[trigger] traces@[r] == log_cell(rows@[r], 2, names[2].name),
            forall|r: int| 0 <= r < i ==> #[trigger] spans@[r] == log_cell(rows@[r], 3, names[3].name),
            forall|r: int| 0 <= r < i ==> #[trigger] levels@[r] == log_cell(rows@[r], 4, names[4].name),
            forall|r: int| 0 <= r < i ==> #[trigger] messages@[r] == log_cell(rows@[r], 5, names[5].name),
        decreases n - i,
    {
        let l = &rows[i];
        processes.push(Datum::Text(l.process_id.clone()));
        times.push(Datum::Int(l.time));
        traces.push(uint_value(l.trace_id));
        spans.push(uint_value(l.span_id));
        levels.push(Datum::Text(l.level.clone()));
        messages.push(text_value(&l.message));
        i += 1;
    }
    let mut columns: Vec<Vec<Datum>> = Vec::new();
    columns.push(processes);
    columns.push(times);
    columns.push(traces);
    columns.push(spans);
    columns.push(levels);
    columns.push(messages);
    let mut c: usize = 6;
    assert forall|k: int, r: int| 0 <= k < 6 && 0 <= r < n implies #[trigger] columns@[k]@[r]
        == log_cell(rows@[r], k, names[k].name) by {
        assert(k == 0 || k == 1 || k == 2 || k == 3 || k == 4 || k == 5);
    }
    assert forall|k: int| 0 <= k < 6 implies (#[trigger] columns@[k])@.len() == n by {
        assert(k == 0 || k == 1 || k == 2 || k == 3 || k == 4 || k == 5);
    }
    while c < fields.len()
        invariant
            n == rows@.len(),
            names == schema_view(fields@),
            6 <= c <= fields@.len(),
            columns@.len() == c,
            forall|k: int| 0 <= k < c ==> (#[trigger] columns@[k])@.len() == n,
            forall|k: int, r: int|
                0 <= k < c && 0 <= r < n ==> #[trigger] columns@[k]@[r] == log_cell(
                    rows@[r],
                    k,
                    names[k].name,
                ),
        decreases fields@.len() - c,
    {
        let col = attribute_column(rows, &fields[c].name);
        columns.push(col);
        c += 1;
    }
    Batch { fields, columns, rows: n }
}

/// Encodes log rows into a batch. The schema is derived from the rows: the
/// six fixed columns, then the columns inferred from the attributes. A key
/// whose values have no common type is a `SchemaInference` error; a key
/// named like a fixed column is a `SchemaMerge` error, also where it is
/// bound to null. A row leaves the attribute columns it does not bind null.
pub fn convert_log_to_record_batch(logs: Vec<Log>) -> (r: Result<Batch, EncodeError>)
    ensures
        is_log_encoding(logs@, r),
{
    let dynamic = match infer_schema(&logs) {
        Ok(fields) => fields,
        Err(e) => {
            return Err(e);
        },
    };
    let fixed = schema_log();
    match find_collision(&fixed, &logs) {
        Some(column) => {
            return Err(EncodeError::SchemaMerge { column });
        },
        None => {},
    }
    // No attribute key is named like a fixed column, so the merge succeeds.
    proof {
        no_collision_merges(log_columns(), documents(logs@), schema_view(dynamic@));
    }
    let schema = match merge_schemas(&fixed, &dynamic) {
        Ok(fields) => fields,
        Err(e) => {
            return Err(e);
        },
    };
    assert(schema_view(schema@).len() == 6 + dynamic@.len());
    let r: Result<Batch, EncodeError> = Ok(log_batch(&logs, schema));
    r
}

} // verus!
