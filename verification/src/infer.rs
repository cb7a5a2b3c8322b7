//! Schema inference over log attributes, and the merge of the inferred
//! columns with the fixed ones.
//!
//! Inference reads the attributes row by row and, within a row, in order. A
//! null value asks for nothing. The first value bound to a key opens a column
//! of that value's type, after the columns opened before it. Each later value
//! bound to the same key widens the column to the join of the two types: a
//! type joins with itself, two different numeric types (`Int64`, `UInt64`,
//! `Float64`) widen to `Float64`, and every other pair is a conflict, which
//! ends inference with an error that names the key. A nested value, an array
//! or an object, asks for a `Json` column, which joins with itself only.

use vstd::prelude::*;
use crate::datum::{Datum, join, join_types, value_type};
use crate::error::EncodeError;
use crate::log::Log;
use crate::schema::{ColumnType, Field, FieldView, field_view, schema_view};

verus! {

/// One attribute of a log row.
#[derive(Debug, PartialEq)]
pub struct Attribute {
    pub key: String,
    pub value: Datum,
}

/// The index of the first field at or after `from` whose name is `key`, or the
/// number of fields if there is none.
pub open spec fn first_named(fields: Seq<FieldView>, key: Seq<char>, from: int) -> int
    decreases fields.len() - from,
{
    if from < 0 || from >= fields.len() {
        fields.len() as int
    } else if fields[from].name == key {
        from
    } else {
        first_named(fields, key, from + 1)
    }
}

/// Whether one of the fields is named `key`.
pub open spec fn has_name(fields: Seq<FieldView>, key: Seq<char>) -> bool {
    first_named(fields, key, 0) < fields.len()
}

/// The columns after a value of type `t` bound to `key` has been seen, or the
/// key if the value conflicts with the column's type so far.
pub open spec fn absorb(fields: Seq<FieldView>, key: Seq<char>, t: ColumnType) -> Result<
    Seq<FieldView>,
    Seq<char>,
> {
    let i = first_named(fields, key, 0);
    if i >= fields.len() {
        Ok(fields.push(field_view(key, t, true)))
    } else {
        match join(fields[i].data_type, t) {
            Some(u) => Ok(fields.update(i, field_view(key, u, true))),
            None => Err(key),
        }
    }
}

/// The state of inference after the first `n` attributes of one row, from the
/// state `acc` before the row.
pub open spec fn infer_attributes(
    acc: Result<Seq<FieldView>, Seq<char>>,
    attrs: Seq<Attribute>,
    n: int,
) -> Result<Seq<FieldView>, Seq<char>>
    decreases n,
{
    if n <= 0 {
        acc
    } else {
        match infer_attributes(acc, attrs, n - 1) {
            Err(k) => Err(k),
            Ok(fields) => match value_type(attrs[n - 1].value) {
                None => Ok(fields),
                Some(t) => absorb(fields, attrs[n - 1].key@, t),
            },
        }
    }
}

/// The state of inference after the first `n` of the attribute lists `docs`:
/// the inferred columns in the order in which their keys were first seen, or
/// the key of the first conflict.
pub open spec fn infer_rows(docs: Seq<Seq<Attribute>>, n: int) -> Result<
    Seq<FieldView>,
    Seq<char>,
>
    decreases n,
{
    if n <= 0 {
        Ok(Seq::empty())
    } else {
        infer_attributes(infer_rows(docs, n - 1), docs[n - 1], docs[n - 1].len() as int)
    }
}

/// The attribute lists of the rows, in order.
pub open spec fn documents(rows: Seq<Log>) -> Seq<Seq<Attribute>> {
    Seq::new(rows.len(), |i: int| rows[i].fields@)
}

/// `r` is the outcome `s` of inference, as an executable value.
pub open spec fn is_inferred(
    r: Result<Vec<Field>, EncodeError>,
    s: Result<Seq<FieldView>, Seq<char>>,
) -> bool {
    match s {
        Ok(fields) => r matches Ok(v) && schema_view(v@) == fields,
        Err(k) => r matches Err(EncodeError::SchemaInference { key }) && key@ == k,
    }
}

/// The index of the first field named `key`, or the number of fields.
pub fn find_field(fields: &Vec<Field>, key: &String) -> (i: usize)
    ensures
        i == first_named(schema_view(fields@), key@, 0),
{
    let mut j: usize = 0;
    while j < fields.len()
        invariant
            j <= fields@.len(),
            first_named(schema_view(fields@), key@, 0) == first_named(
                schema_view(fields@),
                key@,
                j as int,
            ),
        decreases fields@.len() - j,
    {
        if fields[j].name == *key {
            return j;
        }
        j += 1;
    }
    j
}

/// Takes one more typed value into the inferred columns. On a conflict the
/// columns stay as they are and the result is `false`.
pub fn absorb_value(fields: &mut Vec<Field>, key: &String, t: ColumnType) -> (ok: bool)
    ensures
        match absorb(schema_view(old(fields)@), key@, t) {
            Ok(f) => ok && schema_view(final(fields)@) == f,
            Err(_) => !ok && final(fields)@ == old(fields)@,
        },
{
    let i = find_field(fields, key);
    if i >= fields.len() {
        fields.push(Field { name: key.clone(), data_type: t, nullable: true });
        assert(schema_view(fields@) =~= schema_view(old(fields)@).push(field_view(key@, t, true)));
        true
    } else {
        match join_types(fields[i].data_type, t) {
            Some(u) => {
                fields.set(i, Field { name: key.clone(), data_type: u, nullable: true });
                assert(schema_view(fields@) =~= schema_view(old(fields)@).update(
                    i as int,
                    field_view(key@, u, true),
                ));
                true
            },
            None => false,
        }
    }
}

/// Infers the dynamic columns of a sequence of log rows from their
/// attributes alone. No rows, and rows without attributes, give no columns.
pub fn infer_schema(docs: &Vec<Log>) -> (r: Result<Vec<Field>, EncodeError>)
    ensures
        is_inferred(r, infer_rows(documents(docs@), docs@.len() as int)),
{
    let mut fields: Vec<Field> = Vec::new();
    let mut conflict: Option<String> = None;
    let mut i: usize = 0;
    assert(schema_view(fields@) =~= Seq::empty());
    while i < docs.len()
        invariant
            i <= docs@.len(),
            match infer_rows(documents(docs@), i as int) {
                Ok(f) => conflict is None && schema_view(fields@) == f,
                Err(k) => conflict matches Some(key) && key@ == k,
            },
        decreases docs@.len() - i,
    {
        let attrs = &docs[i].fields;
        let ghost before = infer_rows(documents(docs@), i as int);
        let mut j: usize = 0;
        while j < attrs.len()
            invariant
                j <= attrs@.len(),
                match infer_attributes(before, attrs@, j as int) {
                    Ok(f) => conflict is None && schema_view(fields@) == f,
                    Err(k) => conflict matches Some(key) && key@ == k,
                },
            decreases attrs@.len() - j,
        {
            if conflict.is_none() {
                match attrs[j].value.column_type() {
                    None => {},
                    Some(t) => {
                        if !absorb_value(&mut fields, &attrs[j].key, t) {
                            conflict = Some(attrs[j].key.clone());
                        }
                    },
                }
            }
            j += 1;
        }
        assert(documents(docs@)[i as int] == attrs@);
        i += 1;
    }
    match conflict {
        Some(key) => Err(EncodeError::SchemaInference { key }),
        None => Ok(fields),
    }
}

/// The index of the first of `dynamic`, at or after `from`, whose name is
/// also the name of one of `fixed`; the length of `dynamic` if there is none.
pub open spec fn first_collision(fixed: Seq<FieldView>, dynamic: Seq<FieldView>, from: int) -> int
    decreases dynamic.len() - from,
{
    if from < 0 || from >= dynamic.len() {
        dynamic.len() as int
    } else if has_name(fixed, dynamic[from].name) {
        from
    } else {
        first_collision(fixed, dynamic, from + 1)
    }
}

/// The merged schema: the fixed columns followed by the dynamic ones, or the
/// name of the first dynamic column that collides with a fixed one.
pub open spec fn merge(fixed: Seq<FieldView>, dynamic: Seq<FieldView>) -> Result<
    Seq<FieldView>,
    Seq<char>,
> {
    let j = first_collision(fixed, dynamic, 0);
    if j < dynamic.len() {
        Err(dynamic[j].name)
    } else {
        Ok(fixed + dynamic)
    }
}

/// `r` is the outcome `s` of a merge, as an executable value.
pub open spec fn is_merged(
    r: Result<Vec<Field>, EncodeError>,
    s: Result<Seq<FieldView>, Seq<char>>,
) -> bool {
    match s {
        Ok(fields) => r matches Ok(v) && schema_view(v@) == fields,
        Err(k) => r matches Err(EncodeError::SchemaMerge { column }) && column@ == k,
    }
}

/// The index of the first attribute at or after `from` whose key is the name
/// of one of `fixed`, whatever it binds; the number of attributes if there
/// is none.
pub open spec fn first_fixed_key(fixed: Seq<FieldView>, attrs: Seq<Attribute>, from: int) -> int
    decreases attrs.len() - from,
{
    if from < 0 || from >= attrs.len() {
        attrs.len() as int
    } else if has_name(fixed, attrs[from].key@) {
        from
    } else {
        first_fixed_key(fixed, attrs, from + 1)
    }
}

/// The index of the first list at or after `from` that holds a key named
/// like one of `fixed`; the number of lists if there is none.
pub open spec fn first_colliding_row(
    fixed: Seq<FieldView>,
    docs: Seq<Seq<Attribute>>,
    from: int,
) -> int
    decreases docs.len() - from,
{
    if from < 0 || from >= docs.len() {
        docs.len() as int
    } else if first_fixed_key(fixed, docs[from], 0) < docs[from].len() {
        from
    } else {
        first_colliding_row(fixed, docs, from + 1)
    }
}

/// The first attribute key, in reading order, that is the name of one of
/// `fixed`. A key bound to null counts like any other.
pub open spec fn collision(fixed: Seq<FieldView>, docs: Seq<Seq<Attribute>>) -> Option<Seq<char>> {
    let i = first_colliding_row(fixed, docs, 0);
    if i < docs.len() {
        Some(docs[i][first_fixed_key(fixed, docs[i], 0)].key@)
    } else {
        None
    }
}

/// Finds the first attribute key of the rows that is the name of a fixed
/// column.
pub fn find_collision(fixed: &Vec<Field>, rows: &Vec<Log>) -> (r: Option<String>)
    ensures
        match collision(schema_view(fixed@), documents(rows@)) {
            Some(k) => r matches Some(s) && s@ == k,
            None => r is None,
        },
{
    let ghost f = schema_view(fixed@);
    let ghost docs = documents(rows@);
    let mut i: usize = 0;
    while i < rows.len()
        invariant
            i <= rows@.len(),
            f == schema_view(fixed@),
            docs == documents(rows@),
            first_colliding_row(f, docs, 0) == first_colliding_row(f, docs, i as int),
        decreases rows@.len() - i,
    {
        let attrs = &rows[i].fields;
        assert(docs[i as int] == attrs@);
        let mut a: usize = 0;
        while a < attrs.len()
            invariant
                a <= attrs@.len(),
                i < rows@.len(),
                f == schema_view(fixed@),
                docs == documents(rows@),
                docs[i as int] == attrs@,
                first_colliding_row(f, docs, 0) == first_colliding_row(f, docs, i as int),
                first_fixed_key(f, attrs@, 0) == first_fixed_key(f, attrs@, a as int),
            decreases attrs@.len() - a,
        {
            if find_field(fixed, &attrs[a].key) < fixed.len() {
                return Some(attrs[a].key.clone());
            }
            a += 1;
        }
        i += 1;
    }
    None
}

/// Appends copies of the fields of `src` to `dst`.
pub fn append_fields(dst: &mut Vec<Field>, src: &Vec<Field>)
    ensures
        final(dst)@ == old(dst)@ + src@,
{
    let mut j: usize = 0;
    assert(dst@ =~= old(dst)@ + src@.subrange(0, 0));
    while j < src.len()
        invariant
            j <= src@.len(),
            dst@ == old(dst)@ + src@.subrange(0, j as int),
        decreases src@.len() - j,
    {
        dst.push(src[j].clone());
        assert(dst@ =~= old(dst)@ + src@.subrange(0, j + 1));
        j += 1;
    }
    assert(src@.subrange(0, src@.len() as int) =~= src@);
}

/// Merges the fixed columns with the inferred ones. A dynamic column named
/// like a fixed one is an error that names it; nothing is overwritten.
pub fn merge_schemas(fixed: &Vec<Field>, dynamic: &Vec<Field>) -> (r: Result<
    Vec<Field>,
    EncodeError,
>)
    ensures
        is_merged(r, merge(schema_view(fixed@), schema_view(dynamic@))),
{
    let ghost f = schema_view(fixed@);
    let ghost d = schema_view(dynamic@);
    let mut j: usize = 0;
    while j < dynamic.len()
        invariant
            j <= dynamic@.len(),
            f == schema_view(fixed@),
            d == schema_view(dynamic@),
            first_collision(f, d, 0) == first_collision(f, d, j as int),
        decreases dynamic@.len() - j,
    {
        if find_field(fixed, &dynamic[j].name) < fixed.len() {
            return Err(EncodeError::SchemaMerge { column: dynamic[j].name.clone() });
        }
        j += 1;
    }
    let mut merged: Vec<Field> = Vec::new();
    append_fields(&mut merged, fixed);
    append_fields(&mut merged, dynamic);
    assert(merged@ =~= fixed@ + dynamic@);
    assert(schema_view(merged@) =~= f + d);
    Ok(merged)
}

} // verus!
