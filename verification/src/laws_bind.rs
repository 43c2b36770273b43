//! Laws of binding.

use crate::ast::{filter_leaves, list_leaves, AnalyticView, FilterView, StatementView};
use crate::binder::statement_of;
use crate::binder_ddl::{column_of, columns_of, creation_of, marked_columns};
use crate::binder_dml::{
    assigned_column, assignments_of, fits_columns, fits_from, in_table_order, insert_rows, listed_columns, row_values,
};
use crate::binder_narrow::{
    analytic_of, grouping_refusal, narrow_clauses_check, narrow_of, narrow_shape, order_item,
    reads_by_key,
};
use crate::catalog::{first_named, key_check, key_entries_check, TableDescriptor};
use crate::expr::{type_of, ExprView};
use crate::key_predicate::key_of;
use crate::names::{
    ambiguous, column_folds, column_is, column_named, common_of, first_at, lemma_first_at, rebased,
    rebased_branches, rebased_list, single_name, visible_expr, visible_named, Found, InfoView,
};
use crate::query::{BodyView, QueryView, VisibleView};
use crate::scope::{exact_candidates, output_alias, resolved, Env, ScopeView, StateView};
use crate::sql::{ObjectName, OrderByExpr, Query, Select, SetExpr, SqlExpr, TableFactor};
use crate::statement::{Assignment, ColumnSpec, SqlCreateTable, SqlStatement};
use crate::value::{views, ColumnView, DataType, ErrorView, ValueView};
use vstd::prelude::*;

verus! {

/// A query of the narrow shape has no clause that the narrow binder refuses, unless its table
/// carries options.
pub proof fn narrow_queries_have_no_refused_clause(q: Query)
    requires
        narrow_shape(q),
        match *q.body {
            SetExpr::Select(s) => match s.from@[0].relation {
                TableFactor::Table { options, .. } => !options.given(),
                _ => true,
            },
            _ => true,
        },
    ensures
        narrow_clauses_check(q) is Ok,
{
}

/// A column with exactly the given name is found before one whose name differs in letter case.
pub proof fn exact_names_come_first(columns: Seq<ColumnView>, name: Seq<char>)
    ensures
        match column_named(columns, name) {
            Some(i) => 0 <= i < columns.len() && ((exists|k: int|
                0 <= k < columns.len() && (#[trigger] columns[k]).name == name) ==> columns[i].name
                == name),
            None => forall|k: int| 0 <= k < columns.len() ==> (#[trigger] columns[k]).name != name,
        },
{
    lemma_first_at(columns, column_is(name), 0);
    lemma_first_at(columns, column_folds(name), 0);
    lemma_first_complete(columns, name, 0);
}

proof fn lemma_first_complete(columns: Seq<ColumnView>, name: Seq<char>, i: int)
    requires
        0 <= i <= columns.len(),
    ensures
        first_at(columns, column_is(name), i) is None ==> forall|k: int|
            i <= k < columns.len() ==> (#[trigger] columns[k]).name != name,
    decreases columns.len() - i,
{
    if i < columns.len() && columns[i].name != name {
        lemma_first_complete(columns, name, i + 1);
    }
}

/// The common type of two branches does not depend on their order.
pub proof fn common_types_are_symmetric(l: DataType, r: DataType)
    ensures
        common_of(l, r) == common_of(r, l),
{
}

/// Without `NULLS FIRST` or `NULLS LAST`, `NULL` sorts as the lowest value.
pub proof fn nulls_sort_lowest_by_default(
    o: OrderByExpr,
    t: TableDescriptor,
    group_by: Seq<usize>,
    grouped: bool,
)
    requires
        o.nulls_first is None,
    ensures
        order_item(o, t, group_by, grouped) matches Ok(x) ==> x.nulls_first == x.asc && x.asc == (
        o.asc != Some(false)),
{
}

proof fn lemma_grouping(
    items: Seq<AnalyticView>,
    i: int,
    group_by: Seq<usize>,
    aggregates: bool,
)
    requires
        0 <= i,
        grouping_refusal(items, i, group_by, aggregates) is None,
    ensures
        forall|k: int|
            i <= k < items.len() ==> match #[trigger] items[k] {
                AnalyticView::Column { index, .. } => group_by.contains(index),
                AnalyticView::Aggregate { .. } => true,
            },
    decreases items.len() - i,
{
    if i < items.len() {
        lemma_grouping(items, i + 1, group_by, aggregates);
    }
}

/// In an analytical query that groups or aggregates, every plain column of the select list is
/// grouped by.
pub proof fn selected_columns_are_grouped(
    q: Query,
    s: crate::sql::Select,
    t: TableDescriptor,
    table: Seq<char>,
)
    ensures
        analytic_of(q, s, t, table) matches Ok(StatementView::AnalyticSelect {
            projection,
            group_by,
            ..
        }) ==> (group_by.len() > 0 || exists|k: int|
            0 <= k < projection.len() && (#[trigger] projection[k]) is Aggregate) ==> forall|k: int|
            0 <= k < projection.len() ==> match #[trigger] projection[k] {
                AnalyticView::Column { index, .. } => group_by.contains(index),
                AnalyticView::Aggregate { .. } => true,
            },
{
    match analytic_of(q, s, t, table) {
        Ok(StatementView::AnalyticSelect { projection, group_by, .. }) => {
            let aggregates = crate::binder_narrow::any_aggregate(
                projection,
                projection.len() as int,
            );
            if exists|k: int| 0 <= k < projection.len() && (#[trigger] projection[k]) is Aggregate {
                let k = choose|k: int|
                    0 <= k < projection.len() && (#[trigger] projection[k]) is Aggregate;
                lemma_any_aggregate(projection, k, projection.len() as int);
            }
            if aggregates || group_by.len() > 0 {
                lemma_grouping(projection, 0, group_by, aggregates);
            }
        },
        _ => {},
    }
}

proof fn lemma_any_aggregate(items: Seq<AnalyticView>, k: int, n: int)
    requires
        0 <= k < n <= items.len(),
        items[k] is Aggregate,
    ensures
        crate::binder_narrow::any_aggregate(items, n),
    decreases n,
{
    if k < n - 1 {
        lemma_any_aggregate(items, k, n - 1);
    }
}

/// The leaves of a filter are comparisons and tests, never conjunctions.
pub proof fn leaves_are_no_conjunctions(f: FilterView)
    ensures
        forall|i: int|
            0 <= i < filter_leaves(f).len() ==> !((#[trigger] filter_leaves(f)[i]) is And),
    decreases f, 0int,
{
    match f {
        FilterView::And(list) => {
            lemma_list_leaves(list, list.len() as int);
        },
        _ => {},
    }
}

proof fn lemma_list_leaves(list: Seq<FilterView>, n: int)
    ensures
        forall|i: int|
            0 <= i < list_leaves(list, n).len() ==> !((#[trigger] list_leaves(list, n)[i]) is And),
    decreases list, n,
{
    if 0 < n <= list.len() {
        lemma_list_leaves(list, n - 1);
        leaves_are_no_conjunctions(list[n - 1]);
        let a = list_leaves(list, n - 1);
        let b = filter_leaves(list[n - 1]);
        assert forall|i: int| 0 <= i < list_leaves(list, n).len() implies !((
        #[trigger] list_leaves(list, n)[i]) is And) by {
            if i < a.len() {
                assert(list_leaves(list, n)[i] == a[i]);
            } else {
                assert(list_leaves(list, n)[i] == b[i - a.len()]);
            }
        }
    }
}

proof fn lemma_listed(
    list: Seq<ObjectName>,
    i: int,
    t: TableDescriptor,
    table: Seq<char>,
    acc: Seq<usize>,
)
    requires
        0 <= i,
        acc.no_duplicates(),
    ensures
        listed_columns(list, i, t, table, acc) matches Ok(all) ==> all.no_duplicates() && all.len()
            == acc.len() + (if i < list.len() {
            list.len() - i
        } else {
            0
        }),
    decreases list.len() - i,
{
    if i < list.len() {
        match crate::binder_dml::listed_name(list[i]) {
            Ok(name) => match first_named(t.schema.columns@, name, 0) {
                Some(c) => {
                    if !acc.contains(c as usize) {
                        lemma_listed(list, i + 1, t, table, acc.push(c as usize));
                    }
                },
                None => {},
            },
            Err(_) => {},
        }
    }
}

/// `INSERT` lists every column at most once.
pub proof fn inserted_columns_are_distinct(
    list: Seq<ObjectName>,
    t: TableDescriptor,
    table: Seq<char>,
)
    ensures
        listed_columns(list, 0, t, table, Seq::empty()) matches Ok(all) ==> all.no_duplicates()
            && all.len() == list.len(),
{
    lemma_listed(list, 0, t, table, Seq::empty());
}

proof fn lemma_row_values(
    exprs: Seq<SqlExpr>,
    i: int,
    columns: Seq<usize>,
    t: TableDescriptor,
    acc: Seq<ValueView>,
)
    requires
        0 <= i <= exprs.len(),
        acc.len() == i,
    ensures
        row_values(exprs, i, columns, t, acc) matches Ok(v) ==> v.len() == exprs.len(),
    decreases exprs.len() - i,
{
    if i < exprs.len() {
        match crate::literals::column_literal(
            exprs[i],
            t.schema.columns@[columns[i] as int]@,
        ) {
            Ok(v) => {
                lemma_row_values(exprs, i + 1, columns, t, acc.push(v));
            },
            Err(_) => {},
        }
    }
}

/// `INSERT` makes one row of each written one, as wide as the table.
pub proof fn inserted_rows_are_whole(
    rows: Seq<Vec<SqlExpr>>,
    i: int,
    columns: Seq<usize>,
    t: TableDescriptor,
    acc: Seq<Seq<ValueView>>,
)
    requires
        0 <= i <= rows.len(),
        acc.len() == i,
        forall|k: int| 0 <= k < acc.len() ==> (#[trigger] acc[k]).len() == t.schema.columns@.len(),
    ensures
        insert_rows(rows, i, columns, t, acc) matches Ok(all) ==> {
            &&& all.len() == rows.len()
            &&& forall|k: int|
                0 <= k < all.len() ==> (#[trigger] all[k]).len() == t.schema.columns@.len()
        },
    decreases rows.len() - i,
{
    if i < rows.len() && rows[i]@.len() == columns.len() {
        match row_values(rows[i]@, 0, columns, t, Seq::empty()) {
            Ok(values) => {
                inserted_rows_are_whole(
                    rows,
                    i + 1,
                    columns,
                    t,
                    acc.push(in_table_order(values, columns, t.schema.columns@.len())),
                );
            },
            Err(_) => {},
        }
    }
}

proof fn lemma_first_named(columns: Seq<crate::value::ColumnDef>, name: Seq<char>, i: int)
    requires
        0 <= i,
    ensures
        first_named(columns, name, i) matches Some(k) ==> i <= k < columns.len(),
    decreases columns.len() - i,
{
    if i < columns.len() && columns[i].name@ != name {
        lemma_first_named(columns, name, i + 1);
    }
}

/// `UPDATE` assigns no column twice, and none of the primary key or of the partition key.
pub proof fn keys_are_never_assigned(
    cx: Env<'_>,
    list: Seq<Assignment>,
    i: int,
    t: TableDescriptor,
    table: Seq<char>,
    alias: Seq<char>,
    st: StateView,
    seen: Seq<usize>,
    acc: Seq<(usize, ExprView)>,
)
    requires
        0 <= i,
        seen.len() == acc.len(),
        seen.no_duplicates(),
        forall|k: int| 0 <= k < acc.len() ==> (#[trigger] acc[k]).0 == seen[k],
        forall|k: int|
            0 <= k < acc.len() ==> !t.primary_key@.contains((#[trigger] acc[k]).0) && !(
            t.partitioning matches Some(p) && p.key_column == acc[k].0),
    ensures
        assignments_of(cx, list, i, t, table, alias, st, seen, acc) matches Ok(r) ==> {
            &&& forall|a: int, b: int|
                0 <= a < b < r.0.len() ==> (#[trigger] r.0[a]).0 != (#[trigger] r.0[b]).0
            &&& forall|k: int|
                0 <= k < r.0.len() ==> !t.primary_key@.contains((#[trigger] r.0[k]).0) && !(
                t.partitioning matches Some(p) && p.key_column == r.0[k].0)
        },
    decreases list.len() - i,
{
    if i < list.len() {
        match crate::binder_dml::assigned_name(list[i].target, alias) {
            Ok(name) => match assigned_column(name, t, table, seen) {
                Ok(c) => match crate::model_expr::bind_of(
                    cx,
                    crate::binder_dml::table_scope(alias, t),
                    st,
                    crate::model_query::top_mode(),
                    list[i].value,
                ) {
                    Ok(b) => match crate::typing::assigned(
                        b.0,
                        t.schema.columns@[c as int]@,
                        *cx.answers,
                    ) {
                        Ok(v) => {
                            lemma_first_named(t.schema.columns@, name, 0);
                            assert(t.schema.columns@.len() == t.schema.columns.len());
                            keys_are_never_assigned(
                                cx,
                                list,
                                i + 1,
                                t,
                                table,
                                alias,
                                b.1,
                                seen.push(c),
                                acc.push((c, v)),
                            );
                        },
                        Err(_) => {},
                    },
                    Err(_) => {},
                },
                Err(_) => {},
            },
            Err(_) => {},
        }
    } else {
        assert forall|a: int, b: int| 0 <= a < b < acc.len() implies (#[trigger] acc[a]).0 != (
        #[trigger] acc[b]).0 by {
            assert(seen[a] != seen[b]);
        }
    }
}

proof fn lemma_key_entries(t: TableDescriptor, i: int)
    requires
        0 <= i,
        key_entries_check(t, i) is Ok,
    ensures
        forall|k: int|
            i <= k < t.primary_key@.len() ==> (#[trigger] t.primary_key@[k])
                < t.schema.columns@.len() && t.schema.columns@[t.primary_key@[k] as int].primary_key
                && !t.primary_key@.take(k).contains(t.primary_key@[k]),
    decreases t.primary_key@.len() - i,
{
    if i < t.primary_key@.len() {
        lemma_key_entries(t, i + 1);
    }
}

/// A primary key that passes the check is not empty, and names existing, marked columns, each
/// once.
pub proof fn checked_keys_are_sound(t: TableDescriptor)
    requires
        key_check(t) is Ok,
    ensures
        t.primary_key@.len() > 0,
        t.primary_key@.no_duplicates(),
        forall|k: int|
            0 <= k < t.primary_key@.len() ==> (#[trigger] t.primary_key@[k])
                < t.schema.columns@.len() && t.schema.columns@[t.primary_key@[k] as int].primary_key,
{
    lemma_key_entries(t, 0);
    let pk = t.primary_key@;
    assert forall|a: int, b: int| 0 <= a < pk.len() && 0 <= b < pk.len() && a != b implies pk[a]
        != pk[b] by {
        let (x, y) = if a < b {
            (a, b)
        } else {
            (b, a)
        };
        assert(pk.take(y)[x] == pk[x]);
        assert(!pk.take(y).contains(pk[y]));
    }
}

/// Whether positions name distinct columns that are marked as the primary key and cannot be
/// `NULL`.
pub open spec fn sound_key(columns: Seq<ColumnView>, keys: Seq<usize>) -> bool {
    &&& keys.no_duplicates()
    &&& forall|k: int|
        0 <= k < keys.len() ==> (#[trigger] keys[k]) < columns.len()
            && columns[keys[k] as int].primary_key && !columns[keys[k] as int].nullable
}

proof fn lemma_columns(
    list: Seq<ColumnSpec>,
    i: int,
    acc: Seq<ColumnView>,
    keys: Seq<usize>,
)
    requires
        0 <= i <= list.len(),
        acc.len() == i,
        list.len() <= usize::MAX,
        sound_key(acc, keys),
        forall|k: int| 0 <= k < keys.len() ==> (#[trigger] keys[k]) < i,
    ensures
        columns_of(list, i, acc, keys) matches Ok(r) ==> sound_key(r.0, r.1) && r.0.len()
            == list.len(),
    decreases list.len() - i,
{
    if i < list.len() {
        match column_of(list[i]) {
            Ok(c) => {
                let next = acc.push(c);
                let more = if c.primary_key {
                    keys.push(i as usize)
                } else {
                    keys
                };
                assert forall|k: int| 0 <= k < more.len() implies (#[trigger] more[k]) < next.len()
                    && next[more[k] as int].primary_key && !next[more[k] as int].nullable by {
                    if k < keys.len() {
                        assert(next[keys[k] as int] == acc[keys[k] as int]);
                    }
                }
                lemma_columns(list, i + 1, next, more);
            },
            Err(_) => {},
        }
    }
}

proof fn lemma_marked(
    key: Seq<(SqlExpr, bool)>,
    i: int,
    specs: Seq<ColumnSpec>,
    columns: Seq<ColumnView>,
    seen: Seq<Seq<char>>,
    keys: Seq<usize>,
)
    requires
        0 <= i <= key.len(),
        columns.len() <= usize::MAX,
        sound_key(columns, keys),
        seen.len() == i,
        keys.len() == i,
        forall|k: int| 0 <= k < keys.len() ==> columns[(#[trigger] keys[k]) as int].name == seen[k],
    ensures
        marked_columns(key, i, specs, columns, seen, keys) matches Ok(r) ==> sound_key(r.0, r.1)
            && r.1.len() == key.len(),
    decreases key.len() - i,
{
    if i < key.len() && !key[i].1 {
        match key[i].0.node {
            crate::sql::SqlNode::Identifier(s) => {
                if !seen.contains(s@) {
                    lemma_first_at(columns, column_is(s@), 0);
                    match first_at(columns, column_is(s@), 0) {
                        Some(c) => {
                            let marked = ColumnView {
                                primary_key: true,
                                nullable: false,
                                ..columns[c]
                            };
                            let next = columns.update(c, marked);
                            let more = keys.push(c as usize);
                            assert forall|k: int| 0 <= k < keys.len() implies keys[k]
                                != c as usize by {
                                if keys[k] == c as usize {
                                    assert(columns[keys[k] as int].name == seen[k]);
                                    assert(seen.contains(s@));
                                }
                            }
                            assert forall|k: int| 0 <= k < more.len() implies next[(
                            #[trigger] more[k]) as int].name == seen.push(s@)[k] && more[k]
                                < next.len() && next[more[k] as int].primary_key
                                && !next[more[k] as int].nullable by {
                                if k < keys.len() {
                                    assert(next[keys[k] as int] == columns[keys[k] as int]);
                                }
                            }
                            lemma_marked(key, i + 1, specs, next, seen.push(s@), more);
                        },
                        None => {},
                    }
                }
            },
            _ => {},
        }
    }
}

/// A table that `CREATE TABLE` makes has a primary key of distinct columns that cannot be `NULL`,
/// and passes the check that later statements make of it.
pub proof fn created_tables_have_sound_keys(cx: Env<'_>, s: SqlCreateTable, t: TableDescriptor)
    requires
        creation_of(cx, s) matches Ok(StatementView::CreateTable { schema, primary_key, .. }) && views(
            t.schema.columns@,
        ) == schema && t.primary_key@ == primary_key,
    ensures
        sound_key(views(t.schema.columns@), t.primary_key@),
        t.primary_key@.len() > 0,
        key_check(t) is Ok,
{
    match columns_of(s.columns@, 0, Seq::empty(), Seq::empty()) {
        Ok(found) => {
            assert(s.columns@.len() <= usize::MAX) by {
                let n = s.columns.len();
            }
            lemma_columns(s.columns@, 0, Seq::empty(), Seq::empty());
            match crate::binder_ddl::table_key(s) {
                Ok(Some(k)) => {
                    lemma_marked(k.columns, 0, s.columns@, found.0, Seq::empty(), Seq::empty());
                },
                _ => {},
            }
        },
        Err(_) => {},
    }
    lemma_sound_entries(t, 0);
}

proof fn lemma_sound_entries(t: TableDescriptor, i: int)
    requires
        0 <= i,
        sound_key(views(t.schema.columns@), t.primary_key@),
    ensures
        key_entries_check(t, i) is Ok,
    decreases t.primary_key@.len() - i,
{
    if i < t.primary_key@.len() {
        lemma_sound_entries(t, i + 1);
        let pk = t.primary_key@;
        let idx = pk[i];
        assert(views(t.schema.columns@)[idx as int].primary_key);
        if pk.take(i).contains(idx) {
            let k = choose|k: int| 0 <= k < pk.take(i).len() && pk.take(i)[k] == idx;
            assert(pk[k] == idx);
        }
    }
}

/// Moving columns by nothing changes nothing.
pub proof fn rebasing_by_nothing_is_the_identity(e: ExprView)
    ensures
        rebased(e, 0, 0) == Ok::<ExprView, ErrorView>(e),
    decreases e, 0int,
{
    match e {
        ExprView::BinaryOp { left, right, .. } => {
            rebasing_by_nothing_is_the_identity(*left);
            rebasing_by_nothing_is_the_identity(*right);
        },
        ExprView::Not(x) => {
            rebasing_by_nothing_is_the_identity(*x);
        },
        ExprView::Negate(x) => {
            rebasing_by_nothing_is_the_identity(*x);
        },
        ExprView::IsNull(x) => {
            rebasing_by_nothing_is_the_identity(*x);
        },
        ExprView::IsNotNull(x) => {
            rebasing_by_nothing_is_the_identity(*x);
        },
        ExprView::Like { expr, pattern, .. } => {
            rebasing_by_nothing_is_the_identity(*expr);
            rebasing_by_nothing_is_the_identity(*pattern);
        },
        ExprView::In { expr, list, .. } => {
            rebasing_by_nothing_is_the_identity(*expr);
            lemma_rebased_list(list, 0, Seq::empty());
            assert(Seq::<ExprView>::empty() + list.skip(0) =~= list);
        },
        ExprView::Between { expr, low, high, .. } => {
            rebasing_by_nothing_is_the_identity(*expr);
            rebasing_by_nothing_is_the_identity(*low);
            rebasing_by_nothing_is_the_identity(*high);
        },
        ExprView::Case { operand, branches, else_result, .. } => {
            match operand {
                Some(x) => {
                    rebasing_by_nothing_is_the_identity(*x);
                },
                None => {},
            }
            match else_result {
                Some(x) => {
                    rebasing_by_nothing_is_the_identity(*x);
                },
                None => {},
            }
            lemma_rebased_branches(branches, 0, Seq::empty());
            assert(Seq::<(ExprView, ExprView)>::empty() + branches.skip(0) =~= branches);
        },
        ExprView::Cast { expr, .. } => {
            rebasing_by_nothing_is_the_identity(*expr);
        },
        ExprView::CalendarInterval { expr, quantity, .. } => {
            rebasing_by_nothing_is_the_identity(*expr);
            rebasing_by_nothing_is_the_identity(*quantity);
        },
        ExprView::ScalarFunction { args, .. } => {
            lemma_rebased_list(args, 0, Seq::empty());
            assert(Seq::<ExprView>::empty() + args.skip(0) =~= args);
        },
        ExprView::InSubquery { expr, .. } => {
            rebasing_by_nothing_is_the_identity(*expr);
        },
        _ => {},
    }
}

proof fn lemma_rebased_list(list: Seq<ExprView>, i: int, acc: Seq<ExprView>)
    requires
        0 <= i <= list.len(),
    ensures
        rebased_list(list, 0, 0, i, acc) == Ok::<Seq<ExprView>, ErrorView>(acc + list.skip(i)),
    decreases list, list.len() - i,
{
    if i < list.len() {
        rebasing_by_nothing_is_the_identity(list[i]);
        lemma_rebased_list(list, i + 1, acc.push(list[i]));
        assert(acc.push(list[i]) + list.skip(i + 1) =~= acc + list.skip(i));
    } else {
        assert(acc + list.skip(i) =~= acc);
    }
}

proof fn lemma_rebased_branches(
    list: Seq<(ExprView, ExprView)>,
    i: int,
    acc: Seq<(ExprView, ExprView)>,
)
    requires
        0 <= i <= list.len(),
    ensures
        rebased_branches(list, 0, 0, i, acc) == Ok::<Seq<(ExprView, ExprView)>, ErrorView>(
            acc + list.skip(i),
        ),
    decreases list, list.len() - i,
{
    if i < list.len() {
        rebasing_by_nothing_is_the_identity(list[i].0);
        rebasing_by_nothing_is_the_identity(list[i].1);
        lemma_rebased_branches(list, i + 1, acc.push(list[i]));
        assert(acc.push((list[i].0, list[i].1)) =~= acc.push(list[i]));
        assert(acc.push(list[i]) + list.skip(i + 1) =~= acc + list.skip(i));
    } else {
        assert(acc + list.skip(i) =~= acc);
    }
}

/// The shape of a query decides its route: one of the narrow shape becomes a read by key or a scan,
/// or is refused, and any other becomes a general query, or is refused.
pub proof fn shape_decides_the_route(cx: Env<'_>, q: Query)
    ensures
        statement_of(cx, SqlStatement::Query(q)) matches Ok(s) ==> if narrow_shape(q) {
            s is Select || s is AnalyticSelect
        } else {
            s is Query
        },
        narrow_shape(q) ==> statement_of(cx, SqlStatement::Query(q)) == narrow_of(cx, q),
{
    reveal_with_fuel(statement_of, 2);
}

/// A query of the narrow shape that names the whole primary key of its table, and neither groups
/// nor orders nor aggregates, is a read by that key or is refused; it never scans.
pub proof fn whole_keys_are_read_by_key(cx: Env<'_>, q: Query, s: Select, t: TableDescriptor)
    requires
        narrow_shape(q),
        *q.body == SetExpr::Select(Box::new(s)),
        single_name(s.from@[0].relation->Table_name) matches Ok(table) && cx.catalog.table(table)
            == Some(t),
        reads_by_key(q, s, t),
    ensures
        statement_of(cx, SqlStatement::Query(q)) matches Ok(r) ==> {
            &&& r matches StatementView::Select { key, .. } && key_of(t, s.selection) == Ok::<
                Seq<ValueView>,
                ErrorView,
            >(key)
        },
{
    reveal_with_fuel(statement_of, 2);
    assert(*((*q.body)->Select_0) == s);
}

/// Where aliases come first, as in `ORDER BY`, a name that is an alias means the output column, even
/// where a slot has a column of that name.
pub proof fn aliases_come_first_in_order(sc: ScopeView, name: Seq<char>)
    requires
        sc.alias_priority || sc.output_only,
        output_alias(sc, name) is Some,
    ensures
        resolved(sc, None, name) == Ok::<ExprView, ErrorView>(output_alias(sc, name)->0),
{
}

/// Where aliases do not come first, as in `HAVING`, a name that a visible column has means that
/// column, even where it is an alias too.
pub proof fn columns_come_first_elsewhere(
    sc: ScopeView,
    name: Seq<char>,
    visible: Seq<VisibleView>,
    i: usize,
)
    requires
        !sc.alias_priority,
        !sc.output_only,
        sc.visible == Some(visible),
        visible_named(visible, sc.slots, name) == Found::At(i),
    ensures
        resolved(sc, None, name) == Ok::<ExprView, ErrorView>(
            visible_expr(visible[i as int], sc.slots),
        ),
{
}

/// An unqualified name that two slots have exactly so is refused as ambiguous.
pub proof fn shared_names_are_ambiguous(sc: ScopeView, name: Seq<char>, i: int, j: int)
    requires
        !sc.output_only,
        sc.visible is None,
        sc.alias_priority ==> output_alias(sc, name) is None,
        0 <= i < j < sc.slots.len(),
        first_at(sc.slots[i].columns, column_is(name), 0) is Some,
        first_at(sc.slots[j].columns, column_is(name), 0) is Some,
    ensures
        resolved(sc, None, name) == ambiguous::<ExprView>(name),
{
    lemma_exact_count(sc.slots, name, 0, Seq::empty(), i, j);
}

proof fn lemma_exact_count(
    infos: Seq<InfoView>,
    name: Seq<char>,
    k: int,
    acc: Seq<(int, int)>,
    i: int,
    j: int,
)
    requires
        0 <= k <= infos.len(),
        0 <= i < j < infos.len(),
        first_at(infos[i].columns, column_is(name), 0) is Some,
        first_at(infos[j].columns, column_is(name), 0) is Some,
    ensures
        exact_candidates(infos, name, k, acc).len() >= acc.len() + (if k <= i {
            2int
        } else if k <= j {
            1int
        } else {
            0int
        }),
    decreases infos.len() - k,
{
    if k < infos.len() {
        match first_at(infos[k].columns, column_is(name), 0) {
            Some(c) => lemma_exact_count(infos, name, k + 1, acc.push((k, c)), i, j),
            None => lemma_exact_count(infos, name, k + 1, acc, i, j),
        }
    }
}

/// Whether an output column is a literal `NULL` or a variable, which fits every column.
pub open spec fn fits_everywhere(q: QueryView, i: int) -> bool {
    q.body matches BodyView::Select(s) && type_of(s.projection[i].expr).permissive()
}

/// The columns of an inserted query match the target columns in number, and each in type unless it is
/// a literal `NULL` or a variable; none that can be `NULL` fills one that cannot.
pub proof fn inserted_queries_match_their_columns(q: QueryView, columns: Seq<ColumnView>)
    requires
        fits_columns(q, columns) is Ok,
        q.body matches BodyView::Select(s) ==> s.projection.len() == q.output_columns.len(),
    ensures
        q.output_columns.len() == columns.len(),
        forall|i: int|
            0 <= i < columns.len() ==> fits_everywhere(q, i) || ((
            #[trigger] q.output_columns[i]).data_type == columns[i].data_type && (
            q.output_columns[i].nullable ==> columns[i].nullable)),
{
    lemma_fits_from(q, columns, 0);
}

proof fn lemma_fits_from(q: QueryView, columns: Seq<ColumnView>, i: int)
    requires
        0 <= i,
        q.output_columns.len() == columns.len(),
        q.body matches BodyView::Select(s) ==> s.projection.len() == q.output_columns.len(),
        fits_from(q, columns, i) is Ok,
    ensures
        forall|k: int|
            i <= k < columns.len() ==> fits_everywhere(q, k) || ((
            #[trigger] q.output_columns[k]).data_type == columns[k].data_type && (
            q.output_columns[k].nullable ==> columns[k].nullable)),
    decreases columns.len() - i,
{
    if i < columns.len() {
        lemma_fits_from(q, columns, i + 1);
    }
}

} // verus!
