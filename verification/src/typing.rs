//! Encoded log batches are well typed: every cell fits the type of its
//! column, and the columns that are not nullable hold no null.

use vstd::prelude::*;
use crate::batch::Batch;
use crate::conflicts::{first_named_bounds, inferred_columns_hold_every_value};
use crate::datum::{Datum, fits, value_type};
use crate::infer::{Attribute, absorb, documents, first_named, infer_attributes, infer_rows};
use crate::laws::distinct_names;
use crate::log::{Log, first_keyed, is_log_batch};
use crate::schema::{ColumnType, FieldView, log_columns};

verus! {

/// The columns have different names and are all nullable.
pub open spec fn open_columns(fields: Seq<FieldView>) -> bool {
    distinct_names(fields) && forall|x: int| 0 <= x < fields.len() ==> (#[trigger] fields[x]).nullable
}

/// Where no field at or after `from` is found under a name, none has it.
proof fn unnamed(fields: Seq<FieldView>, key: Seq<char>, from: int)
    requires
        0 <= from <= fields.len(),
        first_named(fields, key, from) >= fields.len(),
    ensures
        forall|x: int| from <= x < fields.len() ==> (#[trigger] fields[x]).name != key,
    decreases fields.len() - from,
{
    if from < fields.len() {
        unnamed(fields, key, from + 1);
    }
}

/// Among fields of different names, a field is the first of its name.
proof fn found_where_named(fields: Seq<FieldView>, x: int, from: int)
    requires
        distinct_names(fields),
        0 <= from <= x < fields.len(),
    ensures
        first_named(fields, fields[x].name, from) == x,
    decreases x - from,
{
    if from < x {
        found_where_named(fields, x, from + 1);
    }
}

/// Absorbing a value keeps the columns' names different and the columns
/// nullable.
proof fn absorb_keeps_open(fields: Seq<FieldView>, key: Seq<char>, t: ColumnType)
    requires
        open_columns(fields),
    ensures
        absorb(fields, key, t) matches Ok(next) ==> open_columns(next),
{
    let i = first_named(fields, key, 0);
    first_named_bounds(fields, key, 0);
    if i >= fields.len() {
        unnamed(fields, key, 0);
    }
}

/// Reading the attributes of a row keeps the columns' names different and
/// the columns nullable.
proof fn attributes_keep_open(acc: Result<Seq<FieldView>, Seq<char>>, attrs: Seq<Attribute>, n: int)
    requires
        0 <= n <= attrs.len(),
        acc matches Ok(fields) ==> open_columns(fields),
    ensures
        infer_attributes(acc, attrs, n) matches Ok(fields) ==> open_columns(fields),
    decreases n,
{
    if n > 0 {
        attributes_keep_open(acc, attrs, n - 1);
        match infer_attributes(acc, attrs, n - 1) {
            Ok(fields) => {
                match value_type(attrs[n - 1].value) {
                    Some(t) => {
                        absorb_keeps_open(fields, attrs[n - 1].key@, t);
                    },
                    None => {},
                }
            },
            Err(_) => {},
        }
    }
}

/// Inferred columns have different names and are all nullable.
pub proof fn inferred_columns_are_open(docs: Seq<Seq<Attribute>>, n: int)
    requires
        0 <= n <= docs.len(),
    ensures
        infer_rows(docs, n) matches Ok(fields) ==> open_columns(fields),
    decreases n,
{
    if n > 0 {
        inferred_columns_are_open(docs, n - 1);
        attributes_keep_open(infer_rows(docs, n - 1), docs[n - 1], docs[n - 1].len() as int);
    }
}

/// The first attribute keyed `key` lies between `from` and the end, and
/// where it lies before the end its key is `key`.
proof fn first_keyed_bounds(attrs: Seq<Attribute>, key: Seq<char>, from: int)
    requires
        0 <= from <= attrs.len(),
    ensures
        from <= first_keyed(attrs, key, from) <= attrs.len(),
        first_keyed(attrs, key, from) < attrs.len() ==> attrs[first_keyed(attrs, key, from)].key@
            == key,
    decreases attrs.len() - from,
{
    if from < attrs.len() && attrs[from].key@ != key {
        first_keyed_bounds(attrs, key, from + 1);
    }
}

/// In the batch that log rows encode to, every cell fits the type of its
/// column, and a column that is not nullable holds no null.
pub proof fn log_batch_is_well_typed(rows: Seq<Log>, b: Batch, c: int, r: int)
    requires
        infer_rows(documents(rows), rows.len() as int) matches Ok(dynamic) && is_log_batch(
            b,
            rows,
            log_columns() + dynamic,
        ),
        0 <= c < b.schema().len(),
        0 <= r < rows.len(),
    ensures
        fits(b.cell(c, r), b.schema()[c].data_type),
        !b.schema()[c].nullable ==> b.cell(c, r) != Datum::Null,
{
    let docs = documents(rows);
    let dynamic = infer_rows(docs, rows.len() as int)->Ok_0;
    let schema = log_columns() + dynamic;
    let fixed = log_columns();
    assert(fixed.len() == 6);
    if c < 6 {
        assert(schema[c] == fixed[c]);
        assert(c == 0 || c == 1 || c == 2 || c == 3 || c == 4 || c == 5);
    } else {
        let x = c - 6;
        assert(schema[c] == dynamic[x]);
        let name = dynamic[x].name;
        inferred_columns_are_open(docs, docs.len() as int);
        let attrs = rows[r].fields@;
        let a = first_keyed(attrs, name, 0);
        first_keyed_bounds(attrs, name, 0);
        if a < attrs.len() && value_type(attrs[a].value) is Some {
            inferred_columns_hold_every_value(rows, r, a);
            found_where_named(dynamic, x, 0);
        }
    }
}

} // verus!
