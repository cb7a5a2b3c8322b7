//! When inference fails: exactly when two values bound to one key have types
//! that do not join. Every failure names a key with such a pair, every such
//! pair is a failure, and where there is none every value has a column that
//! holds it.

use vstd::prelude::*;
use crate::datum::{join, value_type};
use crate::infer::{
    Attribute, absorb, collision, documents, first_colliding_row, first_collision, first_fixed_key,
    first_named, has_name, infer_attributes, infer_rows, merge,
};
use crate::log::Log;
use crate::schema::{ColumnType, FieldView, field_view};

verus! {

/// A column of type `u` holds values of type `t`.
pub open spec fn widens(t: ColumnType, u: ColumnType) -> bool {
    t == u || (crate::datum::is_numeric(t) && u == ColumnType::Float64)
}

/// Attribute `a` of list `i` exists and comes before attribute `m` of list
/// `n` in reading order.
pub open spec fn before(docs: Seq<Seq<Attribute>>, i: int, a: int, n: int, m: int) -> bool {
    &&& 0 <= i < docs.len()
    &&& 0 <= a < docs[i].len()
    &&& (i < n || (i == n && a < m))
}

/// Attribute `a` of list `i` binds `key` to a value of type `t`.
pub open spec fn binds(
    docs: Seq<Seq<Attribute>>,
    i: int,
    a: int,
    key: Seq<char>,
    t: ColumnType,
) -> bool {
    docs[i][a].key@ == key && value_type(docs[i][a].value) == Some(t)
}

/// Some attribute before position (`n`, `m`) binds `key` to a value of a type
/// that a column of type `u` holds.
pub open spec fn backed(
    docs: Seq<Seq<Attribute>>,
    key: Seq<char>,
    u: ColumnType,
    n: int,
    m: int,
) -> bool {
    exists|i: int, a: int, t: ColumnType|
        before(docs, i, a, n, m) && #[trigger] binds(docs, i, a, key, t) && widens(t, u)
}

/// Two attributes before position (`n`, `m`) bind `key` to values whose types
/// do not join.
pub open spec fn clash(docs: Seq<Seq<Attribute>>, key: Seq<char>, n: int, m: int) -> bool {
    exists|i: int, a: int, t: ColumnType, j: int, c: int, u: ColumnType|
        before(docs, j, c, n, m) && before(docs, i, a, j, c) && #[trigger] binds(
            docs,
            i,
            a,
            key,
            t,
        ) && #[trigger] binds(docs, j, c, key, u) && join(t, u) is None
}

/// The state of inference at position (`n`, `m`) is accounted for: every
/// column is backed by a value read so far, and a failure names a key with a
/// clash.
pub open spec fn explained(
    docs: Seq<Seq<Attribute>>,
    s: Result<Seq<FieldView>, Seq<char>>,
    n: int,
    m: int,
) -> bool {
    match s {
        Ok(fields) => forall|x: int|
            0 <= x < fields.len() ==> backed(
                docs,
                (#[trigger] fields[x]).name,
                fields[x].data_type,
                n,
                m,
            ),
        Err(key) => clash(docs, key, n, m),
    }
}

/// Position (`n`, `m`) is at or before position (`p`, `q`).
pub open spec fn reaches(n: int, m: int, p: int, q: int) -> bool {
    n < p || (n == p && m <= q)
}

/// A column backed at one position is backed at every later one.
proof fn backed_later(
    docs: Seq<Seq<Attribute>>,
    key: Seq<char>,
    u: ColumnType,
    n: int,
    m: int,
    p: int,
    q: int,
)
    requires
        backed(docs, key, u, n, m),
        reaches(n, m, p, q),
    ensures
        backed(docs, key, u, p, q),
{
    let (i, a, t) = choose|i: int, a: int, t: ColumnType|
        before(docs, i, a, n, m) && #[trigger] binds(docs, i, a, key, t) && widens(t, u);
    assert(before(docs, i, a, p, q) && binds(docs, i, a, key, t) && widens(t, u));
}

/// A clash before one position is a clash before every later one.
proof fn clash_later(docs: Seq<Seq<Attribute>>, key: Seq<char>, n: int, m: int, p: int, q: int)
    requires
        clash(docs, key, n, m),
        reaches(n, m, p, q),
    ensures
        clash(docs, key, p, q),
{
    let (i, a, t, j, c, u) = choose|i: int, a: int, t: ColumnType, j: int, c: int, u: ColumnType|
        before(docs, j, c, n, m) && before(docs, i, a, j, c) && #[trigger] binds(
            docs,
            i,
            a,
            key,
            t,
        ) && #[trigger] binds(docs, j, c, key, u) && join(t, u) is None;
    assert(before(docs, j, c, p, q) && before(docs, i, a, j, c) && binds(docs, i, a, key, t)
        && binds(docs, j, c, key, u) && join(t, u) is None);
}

/// A state accounted for at one position is accounted for at every later one.
proof fn explained_later(
    docs: Seq<Seq<Attribute>>,
    s: Result<Seq<FieldView>, Seq<char>>,
    n: int,
    m: int,
    p: int,
    q: int,
)
    requires
        explained(docs, s, n, m),
        reaches(n, m, p, q),
    ensures
        explained(docs, s, p, q),
{
    match s {
        Ok(fields) => {
            assert forall|x: int| 0 <= x < fields.len() implies backed(
                docs,
                (#[trigger] fields[x]).name,
                fields[x].data_type,
                p,
                q,
            ) by {
                backed_later(docs, fields[x].name, fields[x].data_type, n, m, p, q);
            }
        },
        Err(key) => {
            clash_later(docs, key, n, m, p, q);
        },
    }
}

/// The first field named `key` lies between `from` and the end, and where it
/// lies before the end it is named `key`.
pub proof fn first_named_bounds(fields: Seq<FieldView>, key: Seq<char>, from: int)
    requires
        0 <= from <= fields.len(),
    ensures
        from <= first_named(fields, key, from) <= fields.len(),
        first_named(fields, key, from) < fields.len() ==> fields[first_named(
            fields,
            key,
            from,
        )].name == key,
    decreases fields.len() - from,
{
    if from < fields.len() && fields[from].name != key {
        first_named_bounds(fields, key, from + 1);
    }
}

/// Reading one more attribute keeps the state accounted for.
proof fn step_explained(docs: Seq<Seq<Attribute>>, fields: Seq<FieldView>, n: int, m: int)
    requires
        0 <= n < docs.len(),
        0 <= m < docs[n].len(),
        explained(docs, Ok(fields), n, m),
        value_type(docs[n][m].value) is Some,
    ensures
        explained(
            docs,
            absorb(fields, docs[n][m].key@, value_type(docs[n][m].value)->Some_0),
            n,
            m + 1,
        ),
{
    let key = docs[n][m].key@;
    let t = value_type(docs[n][m].value)->Some_0;
    let i = first_named(fields, key, 0);
    first_named_bounds(fields, key, 0);
    assert(before(docs, n, m, n, m + 1) && binds(docs, n, m, key, t));
    explained_later(docs, Ok(fields), n, m, n, m + 1);
    match absorb(fields, key, t) {
        Ok(next) => {
            assert forall|x: int| 0 <= x < next.len() implies backed(
                docs,
                (#[trigger] next[x]).name,
                next[x].data_type,
                n,
                m + 1,
            ) by {
                if x == i {
                    assert(widens(t, next[x].data_type));
                } else {
                    assert(next[x] == fields[x]);
                }
            }
        },
        Err(k) => {
            let u = fields[i].data_type;
            let (j, c, s) = choose|j: int, c: int, s: ColumnType|
                before(docs, j, c, n, m) && #[trigger] binds(docs, j, c, key, s) && widens(s, u);
            assert(before(docs, n, m, n, m + 1) && before(docs, j, c, n, m) && binds(
                docs,
                j,
                c,
                key,
                s,
            ) && binds(docs, n, m, key, t) && join(s, t) is None);
        },
    }
}

/// The state after some attributes of a row is accounted for.
proof fn attributes_explained(docs: Seq<Seq<Attribute>>, n: int, m: int)
    requires
        0 <= n < docs.len(),
        0 <= m <= docs[n].len(),
        explained(docs, infer_rows(docs, n), n, 0),
    ensures
        explained(docs, infer_attributes(infer_rows(docs, n), docs[n], m), n, m),
    decreases m,
{
    if m > 0 {
        attributes_explained(docs, n, m - 1);
        let s = infer_attributes(infer_rows(docs, n), docs[n], m - 1);
        match s {
            Ok(fields) => {
                if value_type(docs[n][m - 1].value) is Some {
                    step_explained(docs, fields, n, m - 1);
                } else {
                    explained_later(docs, s, n, m - 1, n, m);
                }
            },
            Err(_) => {
                explained_later(docs, s, n, m - 1, n, m);
            },
        }
    }
}

/// The state after some rows is accounted for.
proof fn rows_explained(docs: Seq<Seq<Attribute>>, n: int)
    requires
        0 <= n <= docs.len(),
    ensures
        explained(docs, infer_rows(docs, n), n, 0),
    decreases n,
{
    if n > 0 {
        rows_explained(docs, n - 1);
        attributes_explained(docs, n - 1, docs[n - 1].len() as int);
        explained_later(docs, infer_rows(docs, n), n - 1, docs[n - 1].len() as int, n, 0);
    }
}

/// Where no attribute at or after `from` has a key named like one of
/// `fixed`, none of them has.
proof fn no_fixed_key(fixed: Seq<FieldView>, attrs: Seq<Attribute>, from: int)
    requires
        0 <= from <= attrs.len(),
        first_fixed_key(fixed, attrs, from) >= attrs.len(),
    ensures
        forall|a: int| from <= a < attrs.len() ==> !has_name(fixed, (#[trigger] attrs[a]).key@),
    decreases attrs.len() - from,
{
    if from < attrs.len() {
        no_fixed_key(fixed, attrs, from + 1);
    }
}

/// Where no list at or after `from` collides with `fixed`, no key of theirs
/// is named like one of `fixed`.
proof fn no_colliding_row(fixed: Seq<FieldView>, docs: Seq<Seq<Attribute>>, from: int)
    requires
        0 <= from <= docs.len(),
        first_colliding_row(fixed, docs, from) >= docs.len(),
    ensures
        forall|i: int, a: int|
            from <= i < docs.len() && 0 <= a < docs[i].len() ==> !has_name(
                fixed,
                (#[trigger] docs[i][a]).key@,
            ),
    decreases docs.len() - from,
{
    if from < docs.len() {
        no_colliding_row(fixed, docs, from + 1);
        no_fixed_key(fixed, docs[from], 0);
    }
}

/// The first colliding column, where there is one, is named like a fixed one.
proof fn first_collision_bounds(fixed: Seq<FieldView>, dynamic: Seq<FieldView>, from: int)
    requires
        0 <= from <= dynamic.len(),
    ensures
        from <= first_collision(fixed, dynamic, from) <= dynamic.len(),
        first_collision(fixed, dynamic, from) < dynamic.len() ==> has_name(
            fixed,
            dynamic[first_collision(fixed, dynamic, from)].name,
        ),
    decreases dynamic.len() - from,
{
    if from < dynamic.len() && !has_name(fixed, dynamic[from].name) {
        first_collision_bounds(fixed, dynamic, from + 1);
    }
}

/// Every inferred column is named by a key that was read, bound to a value
/// of a type that the column holds.
pub proof fn inferred_columns_are_read(docs: Seq<Seq<Attribute>>, x: int)
    requires
        infer_rows(docs, docs.len() as int) matches Ok(fields) && 0 <= x < fields.len(),
    ensures
        exists|i: int, a: int, t: ColumnType|
            0 <= i < docs.len() && 0 <= a < docs[i].len() && #[trigger] binds(
                docs,
                i,
                a,
                infer_rows(docs, docs.len() as int)->Ok_0[x].name,
                t,
            ) && widens(t, infer_rows(docs, docs.len() as int)->Ok_0[x].data_type),
{
    let fields = infer_rows(docs, docs.len() as int)->Ok_0;
    rows_explained(docs, docs.len() as int);
    assert(backed(docs, fields[x].name, fields[x].data_type, docs.len() as int, 0));
    let (i, a, t) = choose|i: int, a: int, t: ColumnType|
        before(docs, i, a, docs.len() as int, 0) && #[trigger] binds(
            docs,
            i,
            a,
            fields[x].name,
            t,
        ) && widens(t, fields[x].data_type);
    assert(0 <= i < docs.len() && 0 <= a < docs[i].len() && binds(docs, i, a, fields[x].name, t)
        && widens(t, fields[x].data_type));
}

/// Where no attribute key is named like a fixed column, the inferred columns
/// merge with the fixed ones: the merged schema is the fixed columns followed
/// by the inferred ones.
pub proof fn no_collision_merges(
    fixed: Seq<FieldView>,
    docs: Seq<Seq<Attribute>>,
    dynamic: Seq<FieldView>,
)
    requires
        infer_rows(docs, docs.len() as int) == Ok::<Seq<FieldView>, Seq<char>>(dynamic),
        collision(fixed, docs) is None,
    ensures
        merge(fixed, dynamic) == Ok::<Seq<FieldView>, Seq<char>>(fixed + dynamic),
{
    let j = first_collision(fixed, dynamic, 0);
    first_collision_bounds(fixed, dynamic, 0);
    if j < dynamic.len() {
        inferred_columns_are_read(docs, j);
        no_colliding_row(fixed, docs, 0);
        let (i, a, t) = choose|i: int, a: int, t: ColumnType|
            0 <= i < docs.len() && 0 <= a < docs[i].len() && #[trigger] binds(
                docs,
                i,
                a,
                dynamic[j].name,
                t,
            ) && widens(t, dynamic[j].data_type);
        assert(!has_name(fixed, docs[i][a].key@));
    }
}

/// Attributes `a` of row `i` and `c` of row `j`, the first before the second,
/// bind `key` to values whose types do not join.
pub open spec fn conflict(rows: Seq<Log>, key: Seq<char>, i: int, a: int, j: int, c: int) -> bool {
    &&& 0 <= i <= j < rows.len()
    &&& 0 <= a < rows[i].fields@.len()
    &&& 0 <= c < rows[j].fields@.len()
    &&& (i < j || a < c)
    &&& rows[i].fields@[a].key@ == key
    &&& rows[j].fields@[c].key@ == key
    &&& value_type(rows[i].fields@[a].value) matches Some(t) && value_type(
        rows[j].fields@[c].value,
    ) matches Some(u) && join(t, u) is None
}

/// The columns hold one named `key` whose type holds values of type `t`.
pub open spec fn covers(fields: Seq<FieldView>, key: Seq<char>, t: ColumnType) -> bool {
    let i = first_named(fields, key, 0);
    i < fields.len() && widens(t, fields[i].data_type)
}

/// Inference has failed, or, where a key and a type are given, its columns
/// cover that key at that type.
pub open spec fn failed_or_covers(
    s: Result<Seq<FieldView>, Seq<char>>,
    w: Option<(Seq<char>, ColumnType)>,
) -> bool {
    match s {
        Err(_) => true,
        Ok(fields) => w matches Some(kt) && covers(fields, kt.0, kt.1),
    }
}

/// Where the first field named `key` is once one more field is appended.
proof fn first_named_push(fields: Seq<FieldView>, x: FieldView, key: Seq<char>, from: int)
    requires
        0 <= from <= fields.len(),
    ensures
        first_named(fields.push(x), key, from) == if first_named(fields, key, from)
            < fields.len() {
            first_named(fields, key, from)
        } else if x.name == key {
            fields.len() as int
        } else {
            fields.len() as int + 1
        },
    decreases fields.len() - from,
{
    first_named_bounds(fields, key, from);
    if from < fields.len() {
        assert(fields.push(x)[from] == fields[from]);
        if fields[from].name != key {
            first_named_push(fields, x, key, from + 1);
        }
    } else {
        assert(fields.push(x)[from] == x);
        assert(first_named(fields.push(x), key, from + 1) == fields.len() + 1);
    }
}

/// Replacing a field by one of the same name moves no first occurrence.
proof fn first_named_update(fields: Seq<FieldView>, i: int, x: FieldView, key: Seq<char>, from: int)
    requires
        0 <= from <= fields.len(),
        0 <= i < fields.len(),
        x.name == fields[i].name,
    ensures
        first_named(fields.update(i, x), key, from) == first_named(fields, key, from),
    decreases fields.len() - from,
{
    if from < fields.len() {
        assert(fields.update(i, x)[from].name == fields[from].name);
        if fields[from].name != key {
            first_named_update(fields, i, x, key, from + 1);
        }
    }
}

/// A column that covers a key at a type still does after another value has
/// been absorbed.
proof fn absorb_keeps(
    fields: Seq<FieldView>,
    other: Seq<char>,
    u: ColumnType,
    key: Seq<char>,
    t: ColumnType,
)
    requires
        covers(fields, key, t),
    ensures
        failed_or_covers(absorb(fields, other, u), Some((key, t))),
{
    let i = first_named(fields, key, 0);
    let j = first_named(fields, other, 0);
    first_named_bounds(fields, key, 0);
    first_named_bounds(fields, other, 0);
    if j >= fields.len() {
        first_named_push(fields, field_view(other, u, true), key, 0);
    } else {
        match join(fields[j].data_type, u) {
            Some(v) => {
                first_named_update(fields, j, field_view(other, v, true), key, 0);
            },
            None => {},
        }
    }
}

/// Once a value has been absorbed, the columns cover its key at its type.
proof fn absorb_covers(fields: Seq<FieldView>, key: Seq<char>, t: ColumnType)
    ensures
        failed_or_covers(absorb(fields, key, t), Some((key, t))),
{
    let i = first_named(fields, key, 0);
    first_named_bounds(fields, key, 0);
    if i >= fields.len() {
        first_named_push(fields, field_view(key, t, true), key, 0);
    } else {
        match join(fields[i].data_type, t) {
            Some(v) => {
                first_named_update(fields, i, field_view(key, v, true), key, 0);
            },
            None => {},
        }
    }
}

/// What holds after some attributes of a row still holds after more of them.
proof fn attributes_keep(
    acc: Result<Seq<FieldView>, Seq<char>>,
    attrs: Seq<Attribute>,
    from: int,
    to: int,
    w: Option<(Seq<char>, ColumnType)>,
)
    requires
        0 <= from <= to <= attrs.len(),
        failed_or_covers(infer_attributes(acc, attrs, from), w),
    ensures
        failed_or_covers(infer_attributes(acc, attrs, to), w),
    decreases to - from,
{
    if from < to {
        attributes_keep(acc, attrs, from, to - 1, w);
        match infer_attributes(acc, attrs, to - 1) {
            Ok(fields) => {
                match value_type(attrs[to - 1].value) {
                    Some(u) => {
                        let kt = w->Some_0;
                        absorb_keeps(fields, attrs[to - 1].key@, u, kt.0, kt.1);
                    },
                    None => {},
                }
            },
            Err(_) => {},
        }
    }
}

/// What holds after some rows still holds after more of them.
proof fn rows_keep(
    docs: Seq<Seq<Attribute>>,
    from: int,
    to: int,
    w: Option<(Seq<char>, ColumnType)>,
)
    requires
        0 <= from <= to <= docs.len(),
        failed_or_covers(infer_rows(docs, from), w),
    ensures
        failed_or_covers(infer_rows(docs, to), w),
    decreases to - from,
{
    if from < to {
        rows_keep(docs, from, to - 1, w);
        attributes_keep(infer_rows(docs, to - 1), docs[to - 1], 0, docs[to - 1].len() as int, w);
    }
}

/// Just before the second attribute of a conflict is read, inference has
/// failed or its columns cover the first.
proof fn covered_until(rows: Seq<Log>, key: Seq<char>, i: int, a: int, j: int, c: int)
    requires
        conflict(rows, key, i, a, j, c),
    ensures
        failed_or_covers(
            infer_attributes(infer_rows(documents(rows), j), documents(rows)[j], c),
            Some((key, value_type(rows[i].fields@[a].value)->Some_0)),
        ),
{
    let docs = documents(rows);
    let t = value_type(rows[i].fields@[a].value)->Some_0;
    let w = Some((key, t));
    assert(docs[i] == rows[i].fields@);
    assert(docs[j] == rows[j].fields@);
    let start = infer_rows(docs, i);
    match infer_attributes(start, docs[i], a) {
        Ok(fields) => {
            absorb_covers(fields, key, t);
        },
        Err(_) => {},
    }
    assert(failed_or_covers(infer_attributes(start, docs[i], a + 1), w));
    let at = infer_rows(docs, j);
    if i == j {
        attributes_keep(start, docs[i], a + 1, c, w);
    } else {
        attributes_keep(start, docs[i], a + 1, docs[i].len() as int, w);
        assert(failed_or_covers(infer_rows(docs, i + 1), w));
        rows_keep(docs, i + 1, j, w);
        attributes_keep(at, docs[j], 0, c, w);
    }
}

/// Where two attributes, in one row or in two, bind one key to values whose
/// types do not join, inference fails.
pub proof fn conflicting_types_fail(
    rows: Seq<Log>,
    key: Seq<char>,
    i: int,
    a: int,
    j: int,
    c: int,
)
    requires
        conflict(rows, key, i, a, j, c),
    ensures
        infer_rows(documents(rows), rows.len() as int) is Err,
{
    let docs = documents(rows);
    let u = value_type(rows[j].fields@[c].value)->Some_0;
    let none: Option<(Seq<char>, ColumnType)> = None;
    assert(docs[j] == rows[j].fields@);
    let at = infer_rows(docs, j);
    covered_until(rows, key, i, a, j, c);
    match infer_attributes(at, docs[j], c) {
        Ok(fields) => {
            first_named_bounds(fields, key, 0);
            assert(absorb(fields, key, u) is Err);
        },
        Err(_) => {},
    }
    assert(infer_attributes(at, docs[j], c + 1) is Err);
    attributes_keep(at, docs[j], c + 1, docs[j].len() as int, none);
    assert(failed_or_covers(infer_rows(docs, j + 1), none));
    rows_keep(docs, j + 1, rows.len() as int, none);
}

/// A failure stays the failure it is while more attributes of a row are read.
proof fn attributes_stay_failed(
    acc: Result<Seq<FieldView>, Seq<char>>,
    attrs: Seq<Attribute>,
    from: int,
    to: int,
    key: Seq<char>,
)
    requires
        0 <= from <= to <= attrs.len(),
        infer_attributes(acc, attrs, from) == Err::<Seq<FieldView>, Seq<char>>(key),
    ensures
        infer_attributes(acc, attrs, to) == Err::<Seq<FieldView>, Seq<char>>(key),
    decreases to - from,
{
    if from < to {
        attributes_stay_failed(acc, attrs, from, to - 1, key);
    }
}

/// A failure stays the failure it is while more rows are read.
proof fn rows_stay_failed(docs: Seq<Seq<Attribute>>, from: int, to: int, key: Seq<char>)
    requires
        0 <= from <= to <= docs.len(),
        infer_rows(docs, from) == Err::<Seq<FieldView>, Seq<char>>(key),
    ensures
        infer_rows(docs, to) == Err::<Seq<FieldView>, Seq<char>>(key),
    decreases to - from,
{
    if from < to {
        rows_stay_failed(docs, from, to - 1, key);
        attributes_stay_failed(
            infer_rows(docs, to - 1),
            docs[to - 1],
            0,
            docs[to - 1].len() as int,
            key,
        );
    }
}

/// Attribute `c` of row `j` comes before attribute `m` of row `n`.
pub open spec fn earlier(j: int, c: int, n: int, m: int) -> bool {
    j < n || (j == n && c < m)
}

/// Inference names the key of the conflict that is complete first: where
/// two attributes bind `key` to values whose types do not join, and every
/// conflict whose second attribute comes before the second of these is on
/// `key` too, the failure names `key`.
pub proof fn first_conflict_is_named(
    rows: Seq<Log>,
    key: Seq<char>,
    i: int,
    a: int,
    j: int,
    c: int,
)
    requires
        conflict(rows, key, i, a, j, c),
        forall|k2: Seq<char>, i2: int, a2: int, j2: int, c2: int|
            #[trigger] conflict(rows, k2, i2, a2, j2, c2) && earlier(j2, c2, j, c) ==> k2 == key,
    ensures
        infer_rows(documents(rows), rows.len() as int) == Err::<Seq<FieldView>, Seq<char>>(key),
{
    let docs = documents(rows);
    let u = value_type(rows[j].fields@[c].value)->Some_0;
    assert(docs[j] == rows[j].fields@);
    let at = infer_rows(docs, j);
    covered_until(rows, key, i, a, j, c);
    rows_explained(docs, j);
    attributes_explained(docs, j, c);
    match infer_attributes(at, docs[j], c) {
        Ok(fields) => {
            first_named_bounds(fields, key, 0);
            assert(absorb(fields, key, u) == Err::<Seq<FieldView>, Seq<char>>(key));
        },
        Err(k2) => {
            let (i2, a2, t2, j2, c2, u2) = choose|
                i2: int,
                a2: int,
                t2: ColumnType,
                j2: int,
                c2: int,
                u2: ColumnType,
            |
                before(docs, j2, c2, j, c) && before(docs, i2, a2, j2, c2) && #[trigger] binds(
                    docs,
                    i2,
                    a2,
                    k2,
                    t2,
                ) && #[trigger] binds(docs, j2, c2, k2, u2) && join(t2, u2) is None;
            assert(docs[i2] == rows[i2].fields@);
            assert(docs[j2] == rows[j2].fields@);
            assert(conflict(rows, k2, i2, a2, j2, c2) && earlier(j2, c2, j, c));
        },
    }
    assert(infer_attributes(at, docs[j], c + 1) == Err::<Seq<FieldView>, Seq<char>>(key));
    attributes_stay_failed(at, docs[j], c + 1, docs[j].len() as int, key);
    rows_stay_failed(docs, j + 1, rows.len() as int, key);
}

/// Where inference succeeds, every value that is not null has a column
/// named by its key, of a type that holds it.
pub proof fn inferred_columns_hold_every_value(rows: Seq<Log>, i: int, a: int)
    requires
        0 <= i < rows.len(),
        0 <= a < rows[i].fields@.len(),
        value_type(rows[i].fields@[a].value) is Some,
        infer_rows(documents(rows), rows.len() as int) is Ok,
    ensures
        covers(
            infer_rows(documents(rows), rows.len() as int)->Ok_0,
            rows[i].fields@[a].key@,
            value_type(rows[i].fields@[a].value)->Some_0,
        ),
{
    let docs = documents(rows);
    let key = rows[i].fields@[a].key@;
    let t = value_type(rows[i].fields@[a].value)->Some_0;
    let w = Some((key, t));
    assert(docs[i] == rows[i].fields@);
    let start = infer_rows(docs, i);
    match infer_attributes(start, docs[i], a) {
        Ok(fields) => {
            absorb_covers(fields, key, t);
        },
        Err(_) => {},
    }
    assert(failed_or_covers(infer_attributes(start, docs[i], a + 1), w));
    attributes_keep(start, docs[i], a + 1, docs[i].len() as int, w);
    assert(failed_or_covers(infer_rows(docs, i + 1), w));
    rows_keep(docs, i + 1, rows.len() as int, w);
}

/// Where inference fails, the key that the error names is bound, by two
/// attributes of the rows, to values whose types do not join.
pub proof fn failure_names_a_conflict(rows: Seq<Log>)
    requires
        infer_rows(documents(rows), rows.len() as int) is Err,
    ensures
        exists|i: int, a: int, j: int, c: int| #[trigger]
            conflict(rows, infer_rows(documents(rows), rows.len() as int)->Err_0, i, a, j, c),
{
    let docs = documents(rows);
    let key = infer_rows(docs, rows.len() as int)->Err_0;
    rows_explained(docs, docs.len() as int);
    let (i, a, t, j, c, u) = choose|i: int, a: int, t: ColumnType, j: int, c: int, u: ColumnType|
        before(docs, j, c, docs.len() as int, 0) && before(docs, i, a, j, c) && #[trigger] binds(
            docs,
            i,
            a,
            key,
            t,
        ) && #[trigger] binds(docs, j, c, key, u) && join(t, u) is None;
    assert(docs[i] == rows[i].fields@);
    assert(docs[j] == rows[j].fields@);
    assert(conflict(rows, key, i, a, j, c));
}

} // verus!
