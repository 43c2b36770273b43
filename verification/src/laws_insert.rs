//! Laws of `INSERT`: the order in which columns are written does not matter.

use crate::ast::{SourceView, StatementView};
use crate::binder_dml::{
    in_table_order, insert_rows, insertion_of, listed_columns, listed_name, row_values,
};
use crate::catalog::{first_named, TableDescriptor};
use crate::laws_bind::{inserted_columns_are_distinct, inserted_rows_are_whole};
use crate::lists::{lemma_place_of, place_of};
use crate::literals::column_literal;
use crate::scope::Env;
use crate::sql::{ObjectName, SetExpr, SqlExpr};
use crate::statement::SqlInsert;
use crate::value::{ErrorView, ValueView};
use vstd::prelude::*;

verus! {

/// Whether a list holds each position below `n` once.
pub open spec fn permutes(p: Seq<int>, n: nat) -> bool {
    p.len() == n && p.no_duplicates() && forall|k: int| 0 <= k < n ==> 0 <= #[trigger] p[k] < n
}

/// What stands at the given positions.
pub open spec fn permuted<A>(s: Seq<A>, p: Seq<int>) -> Seq<A> {
    Seq::new(p.len(), |k: int| s[p[k]])
}

/// Whether the rows of one list are those of another, each with its entries at the given positions.
pub open spec fn rows_permuted(
    rows: Seq<Vec<SqlExpr>>,
    other: Seq<Vec<SqlExpr>>,
    p: Seq<int>,
) -> bool {
    other.len() == rows.len() && forall|i: int|
        0 <= i < rows.len() ==> (#[trigger] rows[i])@.len() == p.len() && other[i]@ == permuted(
            rows[i]@,
            p,
        )
}

/// Whether an `INSERT … VALUES` differs from another only in that the column list and every row are
/// written in another order.
pub open spec fn rearranged(s: SqlInsert, other: SqlInsert, p: Seq<int>) -> bool {
    &&& other.ignore == s.ignore && other.replace_into == s.replace_into && other.on == s.on
    &&& other.returning == s.returning && other.assignments == s.assignments
    &&& other.alias == s.alias && other.table == s.table
    &&& permutes(p, s.columns@.len())
    &&& other.columns@ == permuted(s.columns@, p)
    &&& match (s.source, other.source) {
        (Some(q), Some(r)) => r.with == q.with && r.order_by == q.order_by && r.limit == q.limit
            && match (*q.body, *r.body) {
            (SetExpr::Values(a), SetExpr::Values(b)) => rows_permuted(a@, b@, p),
            _ => false,
        },
        _ => false,
    }
}

/// A permutation holds every position.
proof fn lemma_onto(p: Seq<int>, n: nat, k: int) -> (m: int)
    requires
        permutes(p, n),
        0 <= k < n,
    ensures
        0 <= m < n,
        p[m] == k,
{
    let all = vstd::set_lib::set_int_range(0, n as int);
    vstd::set_lib::lemma_int_range(0, n as int);
    p.unique_seq_to_set();
    assert(p.to_set().subset_of(all)) by {
        assert forall|x: int| p.to_set().contains(x) implies all.contains(x) by {
            let j = choose|j: int| 0 <= j < p.len() && p[j] == x;
            assert(p[j] == x);
        }
    }
    vstd::set_lib::lemma_subset_equality(p.to_set(), all);
    assert(p.to_set().contains(k));
    choose|m: int| 0 <= m < p.len() && p[m] == k
}

/// The column that a written name means, if there is one.
spec fn meant(n: ObjectName, t: TableDescriptor) -> Option<usize> {
    match listed_name(n) {
        Ok(name) => match first_named(t.schema.columns@, name, 0) {
            Some(c) => Some(c as usize),
            None => None,
        },
        Err(_) => None,
    }
}

/// The listed columns are those that the names mean.
proof fn lemma_listed_meant(
    list: Seq<ObjectName>,
    i: int,
    t: TableDescriptor,
    table: Seq<char>,
    acc: Seq<usize>,
)
    requires
        0 <= i <= list.len(),
        acc.len() == i,
        listed_columns(list, i, t, table, acc) is Ok,
    ensures
        ({
            let all = listed_columns(list, i, t, table, acc)->Ok_0;
            &&& all.len() == list.len()
            &&& forall|k: int| 0 <= k < i ==> all[k] == acc[k]
            &&& forall|k: int| i <= k < list.len() ==> meant(#[trigger] list[k], t) == Some(all[k])
        }),
    decreases list.len() - i,
{
    if i < list.len() {
        let c = meant(list[i], t)->0;
        lemma_listed_meant(list, i + 1, t, table, acc.push(c));
        assert(acc.push(c)[i] == c);
    }
}

/// Names that mean distinct columns list them.
proof fn lemma_meant_listed(
    list: Seq<ObjectName>,
    i: int,
    t: TableDescriptor,
    table: Seq<char>,
    all: Seq<usize>,
)
    requires
        0 <= i <= list.len(),
        all.len() == list.len(),
        all.no_duplicates(),
        forall|k: int| 0 <= k < list.len() ==> meant(#[trigger] list[k], t) == Some(all[k]),
    ensures
        listed_columns(list, i, t, table, all.take(i)) == Ok::<Seq<usize>, ErrorView>(all),
    decreases list.len() - i,
{
    if i < list.len() {
        assert(meant(list[i], t) == Some(all[i]));
        assert(!all.take(i).contains(all[i])) by {
            if all.take(i).contains(all[i]) {
                let j = choose|j: int| 0 <= j < i && all.take(i)[j] == all[i];
                assert(all[j] == all[i]);
            }
        }
        assert(all.take(i).push(all[i]) =~= all.take(i + 1));
        lemma_meant_listed(list, i + 1, t, table, all);
    } else {
        assert(all.take(i) =~= all);
    }
}

/// The values of a row are those of its literals.
proof fn lemma_values_of(
    exprs: Seq<SqlExpr>,
    i: int,
    columns: Seq<usize>,
    t: TableDescriptor,
    acc: Seq<ValueView>,
)
    requires
        0 <= i <= exprs.len(),
        acc.len() == i,
        row_values(exprs, i, columns, t, acc) is Ok,
    ensures
        ({
            let all = row_values(exprs, i, columns, t, acc)->Ok_0;
            &&& all.len() == exprs.len()
            &&& forall|k: int| 0 <= k < i ==> all[k] == acc[k]
            &&& forall|k: int|
                i <= k < exprs.len() ==> column_literal(
                    #[trigger] exprs[k],
                    t.schema.columns@[columns[k] as int]@,
                ) == Ok::<ValueView, ErrorView>(all[k])
        }),
    decreases exprs.len() - i,
{
    if i < exprs.len() {
        let v = column_literal(exprs[i], t.schema.columns@[columns[i] as int]@)->Ok_0;
        lemma_values_of(exprs, i + 1, columns, t, acc.push(v));
        assert(acc.push(v)[i] == v);
    }
}

/// Literals with values make a row of them.
proof fn lemma_of_values(
    exprs: Seq<SqlExpr>,
    i: int,
    columns: Seq<usize>,
    t: TableDescriptor,
    all: Seq<ValueView>,
)
    requires
        0 <= i <= exprs.len(),
        all.len() == exprs.len(),
        forall|k: int|
            0 <= k < exprs.len() ==> column_literal(
                #[trigger] exprs[k],
                t.schema.columns@[columns[k] as int]@,
            ) == Ok::<ValueView, ErrorView>(all[k]),
    ensures
        row_values(exprs, i, columns, t, all.take(i)) == Ok::<Seq<ValueView>, ErrorView>(all),
    decreases exprs.len() - i,
{
    if i < exprs.len() {
        assert(column_literal(exprs[i], t.schema.columns@[columns[i] as int]@) == Ok::<
            ValueView,
            ErrorView,
        >(all[i]));
        assert(all.take(i).push(all[i]) =~= all.take(i + 1));
        lemma_of_values(exprs, i + 1, columns, t, all);
    } else {
        assert(all.take(i) =~= all);
    }
}

/// A row of values and their columns, both in another order, is the same row of the table.
proof fn lemma_same_row(values: Seq<ValueView>, columns: Seq<usize>, p: Seq<int>, width: nat)
    requires
        columns.no_duplicates(),
        values.len() == columns.len(),
        permutes(p, columns.len()),
    ensures
        in_table_order(permuted(values, p), permuted(columns, p), width) == in_table_order(
            values,
            columns,
            width,
        ),
{
    let vs = permuted(values, p);
    let cs = permuted(columns, p);
    assert forall|j: int| 0 <= j < width implies in_table_order(vs, cs, width)[j]
        == in_table_order(values, columns, width)[j] by {
        let n = j as usize;
        lemma_place_of(columns, n, 0);
        lemma_place_of(cs, n, 0);
        match place_of(columns, n, 0) {
            Some(k) => {
                let m = lemma_onto(p, columns.len(), k);
                assert(cs[m] == columns[k]);
                match place_of(cs, n, 0) {
                    Some(i) => {
                        assert(cs[i] == columns[p[i]]);
                        assert(p[i] == k);
                    },
                    None => {},
                }
            },
            None => {
                match place_of(cs, n, 0) {
                    Some(i) => {
                        assert(cs[i] == columns[p[i]]);
                    },
                    None => {},
                }
            },
        }
    }
    assert(in_table_order(vs, cs, width) =~= in_table_order(values, columns, width));
}

/// A written row and its columns, both in another order, give the same row.
proof fn lemma_row_permuted(
    exprs: Seq<SqlExpr>,
    columns: Seq<usize>,
    t: TableDescriptor,
    p: Seq<int>,
)
    requires
        exprs.len() == columns.len(),
        permutes(p, columns.len()),
        row_values(exprs, 0, columns, t, Seq::empty()) is Ok,
    ensures
        row_values(permuted(exprs, p), 0, permuted(columns, p), t, Seq::empty()) == Ok::<
            Seq<ValueView>,
            ErrorView,
        >(permuted(row_values(exprs, 0, columns, t, Seq::empty())->Ok_0, p)),
        row_values(exprs, 0, columns, t, Seq::empty())->Ok_0.len() == exprs.len(),
{
    lemma_values_of(exprs, 0, columns, t, Seq::empty());
    let values = row_values(exprs, 0, columns, t, Seq::empty())->Ok_0;
    let es = permuted(exprs, p);
    let cs = permuted(columns, p);
    let vs = permuted(values, p);
    assert forall|k: int| 0 <= k < es.len() implies column_literal(
        #[trigger] es[k],
        t.schema.columns@[cs[k] as int]@,
    ) == Ok::<ValueView, ErrorView>(vs[k]) by {
        assert(es[k] == exprs[p[k]]);
    }
    assert(vs.take(0) =~= Seq::empty());
    lemma_of_values(es, 0, cs, t, vs);
}

/// Rows and their columns, both in another order, give the same rows.
proof fn lemma_rows_permuted(
    rows: Seq<Vec<SqlExpr>>,
    other: Seq<Vec<SqlExpr>>,
    i: int,
    columns: Seq<usize>,
    t: TableDescriptor,
    acc: Seq<Seq<ValueView>>,
    p: Seq<int>,
)
    requires
        0 <= i,
        columns.no_duplicates(),
        permutes(p, columns.len()),
        rows_permuted(rows, other, p),
        insert_rows(rows, i, columns, t, acc) is Ok,
    ensures
        insert_rows(other, i, permuted(columns, p), t, acc) == insert_rows(
            rows,
            i,
            columns,
            t,
            acc,
        ),
    decreases rows.len() - i,
{
    if i < rows.len() {
        assert(rows[i]@.len() == p.len());
        lemma_row_permuted(rows[i]@, columns, t, p);
        let values = row_values(rows[i]@, 0, columns, t, Seq::empty())->Ok_0;
        let width = t.schema.columns@.len();
        lemma_same_row(values, columns, p, width);
        lemma_rows_permuted(
            rows,
            other,
            i + 1,
            columns,
            t,
            acc.push(in_table_order(values, columns, width)),
            p,
        );
    }
}

/// An `INSERT … VALUES` that is accepted is accepted too, and inserts the same rows, when its column
/// list and every row are written in another order. It inserts one row for each that is written,
/// with a value for every column.
pub proof fn written_order_does_not_matter(
    cx: Env<'_>,
    s: SqlInsert,
    other: SqlInsert,
    p: Seq<int>,
)
    requires
        rearranged(s, other, p),
        insertion_of(cx, s) is Ok,
    ensures
        insertion_of(cx, other) == insertion_of(cx, s),
        match (*s.source->0.body, insertion_of(cx, s)->Ok_0) {
            (
                SetExpr::Values(written),
                StatementView::Insert { source: SourceView::Values(rows), .. },
            ) => {
                &&& rows.len() == written@.len()
                &&& forall|k: int| 0 <= k < rows.len() ==> (#[trigger] rows[k]).len() == s.columns@.len()
            },
            _ => false,
        },
{
    let q = *s.source->0;
    let r = *other.source->0;
    let table = crate::names::single_name(s.table->0)->Ok_0;
    let t = cx.catalog.table(table)->0;
    let columns = listed_columns(s.columns@, 0, t, table, Seq::empty())->Ok_0;
    lemma_listed_meant(s.columns@, 0, t, table, Seq::empty());
    inserted_columns_are_distinct(s.columns@, t, table);
    let cs = permuted(columns, p);
    assert(cs.no_duplicates()) by {
        assert forall|i: int, j: int| 0 <= i < cs.len() && 0 <= j < cs.len() && i != j implies cs[i]
            != cs[j] by {
            assert(p[i] != p[j]);
        }
    }
    assert forall|k: int| 0 <= k < other.columns@.len() implies meant(
        #[trigger] other.columns@[k],
        t,
    ) == Some(cs[k]) by {
        assert(other.columns@[k] == s.columns@[p[k]]);
    }
    assert(cs.take(0) =~= Seq::empty());
    lemma_meant_listed(other.columns@, 0, t, table, cs);
    match (*q.body, *r.body) {
        (SetExpr::Values(a), SetExpr::Values(b)) => {
            lemma_rows_permuted(a@, b@, 0, columns, t, Seq::empty(), p);
            inserted_rows_are_whole(a@, 0, columns, t, Seq::empty());
        },
        _ => {},
    }
}

proof fn lemma_rows_of(
    rows: Seq<Vec<SqlExpr>>,
    i: int,
    columns: Seq<usize>,
    t: TableDescriptor,
    acc: Seq<Seq<ValueView>>,
    r: int,
)
    requires
        0 <= i <= rows.len(),
        acc.len() == i,
        insert_rows(rows, i, columns, t, acc) is Ok,
    ensures
        ({
            let all = insert_rows(rows, i, columns, t, acc)->Ok_0;
            &&& all.len() == rows.len()
            &&& 0 <= r < i ==> all[r] == acc[r]
            &&& i <= r < rows.len() ==> rows[r]@.len() == columns.len() && (row_values(
                rows[r]@,
                0,
                columns,
                t,
                Seq::empty(),
            ) matches Ok(values) && all[r] == in_table_order(
                values,
                columns,
                t.schema.columns@.len(),
            ))
        }),
    decreases rows.len() - i,
{
    if i < rows.len() {
        let values = row_values(rows[i]@, 0, columns, t, Seq::empty())->Ok_0;
        let row = in_table_order(values, columns, t.schema.columns@.len());
        lemma_rows_of(rows, i + 1, columns, t, acc.push(row), r);
        assert(acc.push(row)[i] == row);
    }
}

/// The value that a row of an `INSERT … VALUES` has in a listed column is that of the literal that is
/// written for it.
pub proof fn values_go_to_their_columns(cx: Env<'_>, s: SqlInsert, r: int, j: int)
    requires
        insertion_of(cx, s) is Ok,
        s.source matches Some(q) && (*q.body matches SetExpr::Values(rows) && 0 <= r < rows@.len()),
        0 <= j < s.columns@.len(),
    ensures
        match (*s.source->0.body, insertion_of(cx, s)->Ok_0) {
            (
                SetExpr::Values(written),
                StatementView::Insert { table, source: SourceView::Values(rows) },
            ) => {
                &&& s.table matches Some(n) && crate::names::single_name(n) == Ok::<
                    Seq<char>,
                    ErrorView,
                >(table)
                &&& cx.catalog.table(table) matches Some(t) && listed_name(s.columns@[j]) matches Ok(
                    name,
                ) && exists|c: int| #[trigger]
                    crate::laws_conditions::is_column(t, name, c) && column_literal(
                        written@[r]@[j],
                        t.schema.columns@[c]@,
                    ) == Ok::<ValueView, ErrorView>(rows[r][c])
            },
            _ => false,
        },
{
    let table = crate::names::single_name(s.table->0)->Ok_0;
    let t = cx.catalog.table(table)->0;
    let columns = listed_columns(s.columns@, 0, t, table, Seq::empty())->Ok_0;
    lemma_listed_meant(s.columns@, 0, t, table, Seq::empty());
    inserted_columns_are_distinct(s.columns@, t, table);
    match *s.source->0.body {
        SetExpr::Values(written) => {
            lemma_rows_of(written@, 0, columns, t, Seq::empty(), r);
            lemma_values_of(written@[r]@, 0, columns, t, Seq::empty());
            let values = row_values(written@[r]@, 0, columns, t, Seq::empty())->Ok_0;
            let name = listed_name(s.columns@[j])->Ok_0;
            crate::laws_conditions::lemma_column_found(t, name);
            assert(meant(s.columns@[j], t) == Some(columns[j]));
            let c = first_named(t.schema.columns@, name, 0)->0;
            assert(crate::laws_conditions::is_column(t, name, c));
            assert(columns[j] == c);
            crate::binder_dml::values_stand_at_their_columns(
                values,
                columns,
                t.schema.columns@.len(),
                j,
            );
            assert(column_literal(written@[r]@[j], t.schema.columns@[columns[j] as int]@) == Ok::<
                ValueView,
                ErrorView,
            >(values[j]));
        },
        _ => {},
    }
}

} // verus!
