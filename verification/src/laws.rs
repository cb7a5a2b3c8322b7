//! Laws that relate encoding, inference and decoding.

use vstd::prelude::*;
use crate::batch::Batch;
use crate::datum::Datum;
use crate::conflicts::{
    conflict, conflicting_types_fail, earlier, failure_names_a_conflict, first_conflict_is_named,
};
use crate::decode::{
    Row, concat, decoded_batches, decoded_rows, document, is_batch_decoding, is_decoding,
    row_document,
};
use crate::error::{DecodeError, EncodeError, Failure};
use crate::infer::{Attribute, documents, first_colliding_row, infer_rows};
use crate::json::{json_text, json_value};
use crate::log::{Log, first_keyed, is_log_encoding, lookup};
use crate::rows::{SpanColumns, read_span};
use crate::schema::{FieldView, log_columns, span_columns};
use crate::span::{Span, is_span_batch, span_cell, span_encoding, written};

verus! {

/// Rows without attributes infer no columns.
pub proof fn no_attributes_infer_nothing(rows: Seq<Log>, n: int)
    requires
        0 <= n <= rows.len(),
        forall|i: int| 0 <= i < rows.len() ==> (#[trigger] rows[i]).fields@.len() == 0,
    ensures
        infer_rows(documents(rows), n) == Ok::<Seq<FieldView>, Seq<char>>(Seq::empty()),
    decreases n,
{
    if n > 0 {
        no_attributes_infer_nothing(rows, n - 1);
        assert(documents(rows)[n - 1] == rows[n - 1].fields@);
    }
}

/// Where no row has an attribute, encoding the rows succeeds, and the schema
/// of the batch is exactly the six fixed log columns.
pub proof fn no_attributes_fixed_schema(rows: Seq<Log>, r: Result<Batch, EncodeError>)
    requires
        forall|i: int| 0 <= i < rows.len() ==> (#[trigger] rows[i]).fields@.len() == 0,
        is_log_encoding(rows, r),
    ensures
        r matches Ok(b) && b.schema() == log_columns() && b.rows == rows.len(),
{
    no_attributes_infer_nothing(rows, rows.len() as int);
    no_attributes_collide_nowhere(rows, 0);
    let none = Seq::<FieldView>::empty();
    assert(log_columns() + none =~= log_columns());
}

/// Rows without attributes have no key named like a fixed column.
pub proof fn no_attributes_collide_nowhere(rows: Seq<Log>, from: int)
    requires
        0 <= from <= rows.len(),
        forall|i: int| 0 <= i < rows.len() ==> (#[trigger] rows[i]).fields@.len() == 0,
    ensures
        first_colliding_row(log_columns(), documents(rows), from) == rows.len(),
    decreases rows.len() - from,
{
    if from < rows.len() {
        no_attributes_collide_nowhere(rows, from + 1);
        assert(documents(rows)[from] == rows[from].fields@);
    }
}

/// No two fields have the same name.
pub open spec fn distinct_names(fields: Seq<FieldView>) -> bool {
    forall|i: int, j: int| 0 <= i < j < fields.len() ==> fields[i].name != fields[j].name
}

/// Where the first attribute keyed `key` is once one more attribute is
/// appended.
pub proof fn first_keyed_push(s: Seq<Attribute>, a: Attribute, key: Seq<char>, from: int)
    requires
        0 <= from <= s.len(),
    ensures
        from <= first_keyed(s, key, from) <= s.len(),
        first_keyed(s.push(a), key, from) == if first_keyed(s, key, from) < s.len() {
            first_keyed(s, key, from)
        } else if a.key@ == key {
            s.len() as int
        } else {
            s.len() as int + 1
        },
    decreases s.len() - from,
{
    if from < s.len() {
        assert(s.push(a)[from] == s[from]);
        if s[from].key@ != key {
            first_keyed_push(s, a, key, from + 1);
        }
    } else {
        assert(s.push(a)[from] == a);
        assert(first_keyed(s.push(a), key, from + 1) == s.len() + 1);
    }
}

/// In a batch whose columns have different names, the document of a row
/// binds each column's name to the row's cell in that column, a null cell
/// being an absent key; and it binds no other name.
pub proof fn document_lookup(b: Batch, k: int, n: int, name: Seq<char>)
    requires
        b.wf(),
        0 <= k < b.rows,
        0 <= n <= b.fields@.len(),
        distinct_names(b.schema()),
    ensures
        (forall|c: int| 0 <= c < n ==> (#[trigger] b.schema()[c]).name != name) ==> first_keyed(
            row_document(b, k, n),
            name,
            0,
        ) == row_document(b, k, n).len(),
        forall|c: int|
            0 <= c < n && (#[trigger] b.schema()[c]).name == name ==> lookup(
                row_document(b, k, n),
                name,
            ) == b.cell(c, k),
    decreases n,
{
    if n > 0 {
        document_lookup(b, k, n - 1, name);
        let rest = row_document(b, k, n - 1);
        let a = Attribute { key: b.fields@[n - 1].name, value: b.cell(n - 1, k) };
        first_keyed_push(rest, a, name, 0);
        assert(b.schema()[n - 1].name == a.key@);
        assert forall|c: int| 0 <= c < n && (#[trigger] b.schema()[c]).name == name implies lookup(
            row_document(b, k, n),
            name,
        ) == b.cell(c, k) by {
            if c == n - 1 {
                assert forall|d: int| 0 <= d < n - 1 implies (#[trigger] b.schema()[d]).name
                    != name by {}
            } else {
                assert(b.schema()[c].name != b.schema()[n - 1].name);
            }
        }
    }
}

/// `b` has a column of this name with these cells.
pub open spec fn has_column(b: Batch, name: Seq<char>, cells: Seq<Datum>) -> bool {
    exists|d: int|
        0 <= d < b.fields@.len() && (#[trigger] b.schema()[d]).name == name && b.columns@[d]@
            == cells
}

/// Every column of `a` is a column of `b`, by name and cells, wherever it
/// stands there.
pub open spec fn columns_among(a: Batch, b: Batch) -> bool {
    forall|c: int|
        0 <= c < a.fields@.len() ==> has_column(b, (#[trigger] a.schema()[c]).name, a.columns@[c]@)
}

/// Two batches with the same columns in different orders bind every name to
/// the same value in the documents of their rows.
pub proof fn documents_agree_by_name(a: Batch, b: Batch, k: int, name: Seq<char>)
    requires
        a.wf(),
        b.wf(),
        a.rows == b.rows,
        0 <= k < a.rows,
        distinct_names(a.schema()),
        distinct_names(b.schema()),
        columns_among(a, b),
        columns_among(b, a),
    ensures
        lookup(document(a, k), name) == lookup(document(b, k), name),
{
    document_lookup(a, k, a.fields@.len() as int, name);
    document_lookup(b, k, b.fields@.len() as int, name);
    if exists|c: int| 0 <= c < a.fields@.len() && (#[trigger] a.schema()[c]).name == name {
        let c = choose|c: int| 0 <= c < a.fields@.len() && (#[trigger] a.schema()[c]).name == name;
        assert(has_column(b, a.schema()[c].name, a.columns@[c]@));
        let d = choose|d: int|
            0 <= d < b.fields@.len() && (#[trigger] b.schema()[d]).name == name && b.columns@[d]@
                == a.columns@[c]@;
        assert(b.cell(d, k) == a.cell(c, k));
    } else {
        if exists|d: int| 0 <= d < b.fields@.len() && (#[trigger] b.schema()[d]).name == name {
            let d = choose|d: int|
                0 <= d < b.fields@.len() && (#[trigger] b.schema()[d]).name == name;
            assert(has_column(a, b.schema()[d].name, b.columns@[d]@));
        }
    }
}

/// Decoding a span does not depend on the order of the columns: two batches
/// with the same columns in different orders give the same span columns for
/// every row, and so the same outcomes.
pub proof fn span_decoding_ignores_column_order(a: Batch, b: Batch, k: int)
    requires
        a.wf(),
        b.wf(),
        a.rows == b.rows,
        0 <= k < a.rows,
        distinct_names(a.schema()),
        distinct_names(b.schema()),
        columns_among(a, b),
        columns_among(b, a),
    ensures
        read_span(document(a, k)) == read_span(document(b, k)),
        forall|r: Result<Span, DecodeError>|
            Span::decodes(document(a, k), r) == Span::decodes(document(b, k), r),
{
    documents_agree_by_name(a, b, k, "id"@);
    documents_agree_by_name(a, b, k, "parent_id"@);
    documents_agree_by_name(a, b, k, "trace_id"@);
    documents_agree_by_name(a, b, k, "name"@);
    documents_agree_by_name(a, b, k, "process_id"@);
    documents_agree_by_name(a, b, k, "start"@);
    documents_agree_by_name(a, b, k, "end"@);
    documents_agree_by_name(a, b, k, "tags"@);
}

/// The eight span columns have different names.
pub proof fn span_names_distinct()
    ensures
        distinct_names(span_columns()),
{
    reveal_strlit("id");
    reveal_strlit("parent_id");
    reveal_strlit("trace_id");
    reveal_strlit("name");
    reveal_strlit("process_id");
    reveal_strlit("start");
    reveal_strlit("end");
    reveal_strlit("tags");
    let s = span_columns();
    assert(s[0].name.len() == 2);
    assert(s[1].name.len() == 9);
    assert(s[2].name.len() == 8);
    assert(s[3].name.len() == 4);
    assert(s[4].name.len() == 10);
    assert(s[5].name.len() == 5);
    assert(s[6].name.len() == 3);
    assert(s[7].name.len() == 4);
    assert(s[3].name[0] == 'n');
    assert(s[7].name[0] == 't');
}

/// The document of row `k` of a span batch holds the seven plain fields of
/// span `k` and the text that its tags were serialized to.
pub proof fn span_document_columns(b: Batch, rows: Seq<Span>, docs: Seq<String>, k: int)
    requires
        is_span_batch(b, rows, docs),
        0 <= k < rows.len(),
    ensures
        read_span(document(b, k)) == Ok::<SpanColumns, Failure>(
            SpanColumns {
                id: rows[k].id,
                parent_id: rows[k].parent_id,
                trace_id: rows[k].trace_id,
                name: rows[k].name,
                process_id: rows[k].process_id,
                start: rows[k].start,
                end: rows[k].end,
                tags: Some(docs[k]),
            },
        ),
{
    span_names_distinct();
    let s = span_columns();
    assert(b.schema().len() == 8);
    assert(b.fields@.len() == 8);
    assert forall|c: int| 0 <= c < 8 implies lookup(document(b, k), #[trigger] s[c].name)
        == span_cell(rows[k], docs[k], c) by {
        document_lookup(b, k, 8, s[c].name);
        assert(b.schema()[c].name == s[c].name);
        assert(b.cell(c, k) == span_cell(rows[k], docs[k], c));
    }
    assert(s[0].name == "id"@);
    assert(s[1].name == "parent_id"@);
    assert(s[2].name == "trace_id"@);
    assert(s[3].name == "name"@);
    assert(s[4].name == "process_id"@);
    assert(s[5].name == "start"@);
    assert(s[6].name == "end"@);
    assert(s[7].name == "tags"@);
}

/// Two spans agree in their seven plain fields.
pub open spec fn same_fields(a: Span, b: Span) -> bool {
    &&& a.id == b.id
    &&& a.parent_id == b.parent_id
    &&& a.trace_id == b.trace_id
    &&& a.name == b.name
    &&& a.process_id == b.process_id
    &&& a.start == b.start
    &&& a.end == b.end
}

/// What the JSON reader gives for the text that the JSON writer gives for
/// `tags`; `None` where either fails.
pub open spec fn read_back(tags: serde_json::Value) -> Option<serde_json::Value> {
    match json_text(tags) {
        Some(text) => json_value(text),
        None => None,
    }
}

/// The tags of every row can be written and read back.
pub open spec fn all_read_back(rows: Seq<Span>) -> bool {
    forall|k: int| 0 <= k < rows.len() ==> read_back((#[trigger] rows[k]).tags) is Some
}

/// Decoding the batch that spans were encoded to succeeds exactly when the
/// text written for the tags of every row can be read back. It then gives
/// the spans back in order, equal in their seven plain fields, each with the
/// tags that its text reads as. Otherwise the error names `tags`. That the
/// tags read back equal the tags written is left to the JSON writer and
/// reader.
pub proof fn spans_round_trip(
    rows: Seq<Span>,
    encoded: Result<Batch, EncodeError>,
    decoded: Result<Seq<Span>, DecodeError>,
)
    requires
        span_encoding(rows, encoded),
        encoded matches Ok(b) && is_decoding(seq![b], decoded),
    ensures
        decoded is Ok <==> all_read_back(rows),
        decoded matches Ok(out) ==> out.len() == rows.len() && forall|k: int|
            0 <= k < rows.len() ==> same_fields(#[trigger] out[k], rows[k]) && Some(out[k].tags)
                == read_back(rows[k].tags),
        decoded matches Err(e) ==> e@ == Failure::Wrong("tags"@),
{
    let b = encoded->Ok_0;
    let docs = choose|docs: Seq<String>| #[trigger]
        is_span_batch(b, rows, docs) && written(rows, docs);
    let batches = seq![b];
    assert(batches[0] == b);
    assert forall|k: int| 0 <= k < rows.len() implies read_back((#[trigger] rows[k]).tags)
        == json_value(docs[k]@) by {
        assert(json_text(rows[k].tags) == Some(docs[k]@));
    }
    match decoded {
        Ok(out) => {
            let parts = choose|parts: Seq<Seq<Span>>|
                {
                    &&& #[trigger] decoded_batches(batches, parts)
                    &&& parts.len() == batches.len()
                    &&& out == concat(parts, parts.len() as int)
                };
            assert(is_batch_decoding(batches[0], Ok::<Seq<Span>, DecodeError>(parts[0])));
            assert(concat(parts, 0) =~= Seq::<Span>::empty());
            assert(concat(parts, 1) =~= parts[0]);
            assert forall|k: int| 0 <= k < rows.len() implies same_fields(
                #[trigger] out[k],
                rows[k],
            ) && Some(out[k].tags) == read_back(rows[k].tags) by {
                span_document_columns(b, rows, docs, k);
                assert(Span::decodes(document(b, k), Ok(out[k])));
                assert(read_back(rows[k].tags) == json_value(docs[k]@));
            }
            assert forall|k: int| 0 <= k < rows.len() implies read_back(
                (#[trigger] rows[k]).tags,
            ) is Some by {
                assert(Some(out[k].tags) == read_back(rows[k].tags));
            }
        },
        Err(e) => {
            let parts = choose|parts: Seq<Seq<Span>>|
                {
                    &&& #[trigger] decoded_batches(batches, parts)
                    &&& parts.len() < batches.len()
                    &&& is_batch_decoding::<Span>(
                        batches[parts.len() as int],
                        Err::<Seq<Span>, DecodeError>(e),
                    )
                };
            assert(parts.len() == 0);
            let done = choose|done: Seq<Span>|
                {
                    &&& #[trigger] decoded_rows(b, done)
                    &&& done.len() < b.rows
                    &&& Span::decodes(document(b, done.len() as int), Err::<Span, DecodeError>(e))
                };
            let k = done.len() as int;
            span_document_columns(b, rows, docs, k);
            assert(read_back(rows[k].tags) == json_value(docs[k]@));
            assert(read_back(rows[k].tags) is None);
        },
    }
}

/// The first `n` of the parts `p` followed by the parts `q` are the first `n`
/// of `p`.
proof fn concat_front<T>(p: Seq<Seq<T>>, q: Seq<Seq<T>>, n: int)
    requires
        0 <= n <= p.len(),
    ensures
        concat(p + q, n) == concat(p, n),
    decreases n,
{
    if n > 0 {
        concat_front(p, q, n - 1);
        assert((p + q)[n - 1] == p[n - 1]);
    }
}

/// All of the parts `p` and the first `n` of the parts `q`, one after the
/// other, are all of `p` followed by the first `n` of `q`.
proof fn concat_joins<T>(p: Seq<Seq<T>>, q: Seq<Seq<T>>, n: int)
    requires
        0 <= n <= q.len(),
    ensures
        concat(p + q, p.len() + n) == concat(p, p.len() as int) + concat(q, n),
    decreases n,
{
    if n > 0 {
        concat_joins(p, q, n - 1);
        assert((p + q)[p.len() + n - 1] == q[n - 1]);
        assert((concat(p, p.len() as int) + concat(q, n - 1)) + q[n - 1] =~= concat(
            p,
            p.len() as int,
        ) + (concat(q, n - 1) + q[n - 1]));
    } else {
        concat_front(p, q, p.len() as int);
        assert(concat(p, p.len() as int) + concat(q, 0) =~= concat(p, p.len() as int));
    }
}

/// Decoding one list of batches after another gives the rows of the first
/// followed by the rows of the second.
pub proof fn decoding_joins<T: Row>(a: Seq<Batch>, b: Seq<Batch>, x: Seq<T>, y: Seq<T>)
    requires
        is_decoding(a, Ok::<Seq<T>, DecodeError>(x)),
        is_decoding(b, Ok::<Seq<T>, DecodeError>(y)),
    ensures
        is_decoding(a + b, Ok::<Seq<T>, DecodeError>(x + y)),
{
    let p = choose|p: Seq<Seq<T>>|
        {
            &&& #[trigger] decoded_batches(a, p)
            &&& p.len() == a.len()
            &&& x == concat(p, p.len() as int)
        };
    let q = choose|q: Seq<Seq<T>>|
        {
            &&& #[trigger] decoded_batches(b, q)
            &&& q.len() == b.len()
            &&& y == concat(q, q.len() as int)
        };
    let parts = p + q;
    assert forall|i: int| 0 <= i < parts.len() implies is_batch_decoding(
        (a + b)[i],
        Ok::<Seq<T>, DecodeError>(#[trigger] parts[i]),
    ) by {
        if i < p.len() {
            assert(parts[i] == p[i] && (a + b)[i] == a[i]);
        } else {
            assert(parts[i] == q[i - p.len()] && (a + b)[i] == b[i - a.len()]);
        }
    }
    concat_joins(p, q, q.len() as int);
    assert(decoded_batches(a + b, parts) && parts.len() == (a + b).len() && x + y == concat(
        parts,
        parts.len() as int,
    ));
}

/// Rows in which two attributes bind one key to values whose types do not
/// join cannot be encoded: the outcome is a `SchemaInference` error, and the
/// key that it names is one with such a pair of attributes.
pub proof fn conflicting_types_are_refused(
    rows: Seq<Log>,
    key: Seq<char>,
    i: int,
    a: int,
    j: int,
    c: int,
    r: Result<Batch, EncodeError>,
)
    requires
        conflict(rows, key, i, a, j, c),
        is_log_encoding(rows, r),
    ensures
        r matches Err(EncodeError::SchemaInference { key: named }) && exists|
            i: int,
            a: int,
            j: int,
            c: int,
        | #[trigger] conflict(rows, named@, i, a, j, c),
{
    conflicting_types_fail(rows, key, i, a, j, c);
    failure_names_a_conflict(rows);
}

/// Encoding fails with a `SchemaInference` error exactly when two attributes
/// of the rows bind one key to values whose types do not join.
pub proof fn inference_fails_exactly_on_conflicts(rows: Seq<Log>)
    ensures
        infer_rows(documents(rows), rows.len() as int) is Err <==> exists|
            key: Seq<char>,
            i: int,
            a: int,
            j: int,
            c: int,
        | #[trigger] conflict(rows, key, i, a, j, c),
{
    if infer_rows(documents(rows), rows.len() as int) is Err {
        failure_names_a_conflict(rows);
    }
    if exists|key: Seq<char>, i: int, a: int, j: int, c: int| #[trigger]
        conflict(rows, key, i, a, j, c) {
        let (key, i, a, j, c) = choose|key: Seq<char>, i: int, a: int, j: int, c: int| #[trigger]
            conflict(rows, key, i, a, j, c);
        conflicting_types_fail(rows, key, i, a, j, c);
    }
}

/// Rows in which two attributes bind `key` to values whose types do not
/// join, and in which no conflict on another key is complete before this one,
/// fail with a `SchemaInference` error that names `key`.
pub proof fn first_conflict_is_the_error(
    rows: Seq<Log>,
    key: Seq<char>,
    i: int,
    a: int,
    j: int,
    c: int,
    r: Result<Batch, EncodeError>,
)
    requires
        conflict(rows, key, i, a, j, c),
        forall|k2: Seq<char>, i2: int, a2: int, j2: int, c2: int|
            #[trigger] conflict(rows, k2, i2, a2, j2, c2) && earlier(j2, c2, j, c) ==> k2 == key,
        is_log_encoding(rows, r),
    ensures
        r matches Err(EncodeError::SchemaInference { key: named }) && named@ == key,
{
    first_conflict_is_named(rows, key, i, a, j, c);
}

} // verus!
