//! Laws of `FROM`, `GROUP BY` and wildcards: what a query reads is what is named.

use crate::ast::{SourceView, StatementView};
use crate::binder_dml::{insertion_of, listed_columns, listed_name};
use crate::catalog::TableDescriptor;
use crate::expr::ExprView;
use crate::laws_conditions::is_column;
use crate::laws_queries::{numerals_denote_their_numbers, writes};
use crate::meaning::World;
use crate::model_expr::bind_of;
use crate::model_query::{
    constraint_of, crossed, ctes_of, group_items_of, item_bound_of, item_of, query_of, table_slot,
    top_mode, FromView,
};
use crate::names::{
    last_cte, single_name, visible_expr, visible_name, CteEntryView, CteView, InfoView,
};
use crate::query::{JoinKind, QueryView, SlotView, TreeView, VisibleView};
use crate::scope::{Env, ScopeView, StateView};
use crate::sql::{
    Cte, GroupBy, JoinConstraint, ObjectName, Query, Select, SelectItem, SqlExpr, TableAlias,
};
use crate::statement::SqlInsert;
use crate::value::{views, ErrorView};
use vstd::prelude::*;

verus! {

/// A relation in `FROM` is the common table expression of its name, or else the table of its name
/// with all its columns; it goes by its alias, or by its name without one.
pub proof fn relations_are_those_named(
    cx: Env<'_>,
    ctes: Seq<CteEntryView>,
    name: ObjectName,
    alias: Option<TableAlias>,
    options: bool,
)
    requires
        table_slot(cx, ctes, name, alias, options) is Ok,
    ensures
        ({
            let slot = table_slot(cx, ctes, name, alias, options)->Ok_0;
            &&& single_name(name) matches Ok(n) && match slot {
                SlotView::Base { table, columns, .. } => {
                    &&& table == n
                    &&& last_cte(ctes, n, ctes.len() as int) is None
                    &&& cx.catalog.table(n) matches Some(t) && columns == views(t.schema.columns@)
                },
                SlotView::Derived { query, columns, .. } => {
                    &&& last_cte(ctes, n, ctes.len() as int) == Some(CteView::Query(*query))
                    &&& columns == query.output_columns
                },
                SlotView::WorkingTableSlot { columns, .. } => last_cte(ctes, n, ctes.len() as int)
                    == Some(CteView::Working(columns)),
            }
            &&& match alias {
                Some(a) => slot.alias() == a.name@,
                None => single_name(name) matches Ok(n) && slot.alias() == n,
            }
        }),
{
}

/// Relations that are listed one behind the other are joined with all pairs of their rows.
pub proof fn listed_relations_give_all_pairs(
    left: TreeView,
    visible: Seq<VisibleView>,
    t: TreeView,
    v: Seq<VisibleView>,
    fs: FromView,
    w: World,
    a: spec_fn(usize) -> Option<int>,
)
    ensures
        w.gives(crossed(Some(left), visible, t, v, fs).0, a) == (w.gives(left, a) && w.gives(t, a)),
        crossed(Some(left), visible, t, v, fs).1 == visible + v,
        crossed(None, visible, t, v, fs).0 == t,
{
}

/// A join with `ON` has a condition, and one without any condition is a join of all pairs.
pub proof fn joins_have_their_conditions(
    cx: Env<'_>,
    ctes: Seq<CteEntryView>,
    outer: Seq<InfoView>,
    kind: JoinKind,
    c: JoinConstraint,
    first: usize,
    last: usize,
    l: Seq<VisibleView>,
    r: Seq<VisibleView>,
    fs: FromView,
)
    requires
        constraint_of(cx, ctes, outer, kind, c, first, last, l, r, fs) is Ok,
    ensures
        ({
            let parts = constraint_of(cx, ctes, outer, kind, c, first, last, l, r, fs)->Ok_0;
            match c {
                JoinConstraint::On(_) => parts.kind == kind && parts.on is Some,
                JoinConstraint::Unspecified => parts.kind == JoinKind::Cross && parts.on is None,
                JoinConstraint::Using(_) => parts.kind == kind,
                JoinConstraint::Natural => parts.kind == kind || (kind == JoinKind::Inner
                    && parts.kind == JoinKind::Cross && parts.on is None),
            }
        }),
{
}

/// `*` stands for all visible columns in their order, each under its name.
pub proof fn wildcards_show_all_columns(
    cx: Env<'_>,
    sc: ScopeView,
    st: StateView,
    item: SelectItem,
    visible: Seq<VisibleView>,
)
    requires
        item is Wildcard,
        item_of(cx, sc, st, item, visible) is Ok,
    ensures
        ({
            let all = item_of(cx, sc, st, item, visible)->Ok_0.0;
            all.len() == visible.len() && forall|k: int|
                0 <= k < all.len() ==> (#[trigger] all[k]).expr == visible_expr(visible[k], sc.slots)
                    && all[k].name == visible_name(visible[k], sc.slots)
        }),
{
}

/// The keys of `GROUP BY` are the written expressions, one for each; a numeral stands for the item of
/// the select list at that position.
#[verifier::rlimit(60)]
pub proof fn groups_are_by_what_is_written(
    cx: Env<'_>,
    sc: ScopeView,
    st: StateView,
    s: Select,
    exprs: Vec<SqlExpr>,
    i: int,
    acc: Seq<ExprView>,
    n: nat,
)
    requires
        s.group_by matches GroupBy::Expressions { exprs: list, .. } && list == exprs,
        0 <= i <= exprs@.len(),
        acc.len() == i,
        group_items_of(cx, sc, st, s, i, acc) is Ok,
    ensures
        ({
            let all = group_items_of(cx, sc, st, s, i, acc)->Ok_0.0;
            &&& all.len() == exprs@.len()
            &&& forall|k: int| 0 <= k < i ==> all[k] == acc[k]
            &&& i < exprs@.len() ==> groups_by(cx, sc, st, s, exprs@[i], all[i], n)
        }),
    decreases exprs@.len() - i,
{
    if i < exprs@.len() {
        lemma_group_key(cx, sc, st, s, exprs, i, acc, n);
        let (b, st2) = group_key(cx, sc, st, s, exprs@[i])->Ok_0;
        groups_are_by_what_is_written(cx, sc, st2, s, exprs, i + 1, acc.push(b), n);
        assert(acc.push(b)[i] == b);
    }
}

/// What a key of `GROUP BY` is bound to.
#[verifier::opaque]
spec fn group_key(
    cx: Env<'_>,
    sc: ScopeView,
    st: StateView,
    s: Select,
    e: SqlExpr,
) -> Result<(ExprView, StateView), ErrorView> {
    match crate::typing::integer_literal(e) {
        Some(d) => match crate::typing::ordinal_position(d, s.projection@.len() as int) {
            Some(k) => if 0 <= k < s.projection@.len() {
                item_bound_of(cx, sc, st, s.projection@[k], k + 1)
            } else {
                arbitrary()
            },
            None => Err(ErrorView::InvalidArgument(d)),
        },
        None => bind_of(cx, sc, st, top_mode(), e),
    }
}

/// Whether a key is that of a written one.
#[verifier::opaque]
pub open spec fn groups_by(
    cx: Env<'_>,
    sc: ScopeView,
    st: StateView,
    s: Select,
    e: SqlExpr,
    key: ExprView,
    n: nat,
) -> bool {
    if writes(e, n) {
        1 <= n <= s.projection@.len() && (item_bound_of(
            cx,
            sc,
            st,
            s.projection@[n - 1],
            n as int,
        ) matches Ok((b, _)) && b == key)
    } else {
        crate::typing::integer_literal(e) is None ==> (bind_of(
            cx,
            sc,
            st,
            top_mode(),
            e,
        ) matches Ok((b, _)) && b == key)
    }
}

#[verifier::rlimit(60)]
proof fn lemma_group_key(
    cx: Env<'_>,
    sc: ScopeView,
    st: StateView,
    s: Select,
    exprs: Vec<SqlExpr>,
    i: int,
    acc: Seq<ExprView>,
    n: nat,
)
    requires
        s.group_by matches GroupBy::Expressions { exprs: list, .. } && list == exprs,
        0 <= i < exprs@.len(),
        group_items_of(cx, sc, st, s, i, acc) is Ok,
    ensures
        group_key(cx, sc, st, s, exprs@[i]) matches Ok((b, st2)) && groups_by(
            cx,
            sc,
            st,
            s,
            exprs@[i],
            b,
            n,
        ) && group_items_of(cx, sc, st, s, i, acc) == group_items_of(
            cx,
            sc,
            st2,
            s,
            i + 1,
            acc.push(b),
        ),
{
    reveal(group_key);
    reveal(groups_by);
    numerals_denote_their_numbers(n);
}

/// `WITH` defines its names in their order, each for the query that is written for it.
pub proof fn definitions_keep_their_names(
    cx: Env<'_>,
    outer: Seq<InfoView>,
    immediate: int,
    list: Vec<Cte>,
    i: int,
    acc: Seq<CteEntryView>,
)
    requires
        0 <= i <= list@.len(),
        ctes_of(cx, outer, immediate, list, i, acc) is Ok,
    ensures
        ({
            let all = ctes_of(cx, outer, immediate, list, i, acc)->Ok_0;
            &&& all.len() == acc.len() + list@.len() - i
            &&& acc.is_prefix_of(all)
            &&& forall|k: int|
                i <= k < list@.len() ==> (#[trigger] all[acc.len() + k - i]).name == list@[k].name@
        }),
    decreases list@.len() - i,
{
    if i < list@.len() {
        let q = query_of(cx, acc, outer, immediate, *list@[i].query)->Ok_0;
        let entry = CteEntryView { name: list@[i].name@, binding: CteView::Query(q) };
        definitions_keep_their_names(cx, outer, immediate, list, i + 1, acc.push(entry));
        let all = ctes_of(cx, outer, immediate, list, i, acc)->Ok_0;
        assert(acc.push(entry)[acc.len() as int] == entry);
        assert forall|k: int| i <= k < list@.len() implies (#[trigger] all[acc.len() + k - i]).name
            == list@[k].name@ by {
            if k > i {
                assert(acc.len() + k - i == acc.push(entry).len() + k - (i + 1));
            } else {
                assert(all[acc.len() as int] == acc.push(entry)[acc.len() as int]);
            }
        }
    }
}

/// Whether a listed name is that of a column.
pub open spec fn lists_column(n: ObjectName, t: TableDescriptor, c: usize) -> bool {
    listed_name(n) matches Ok(name) && is_column(t, name, c as int)
}

/// `INSERT … SELECT` inserts the rows of the written query into the listed columns.
pub proof fn queries_are_inserted_as_written(cx: Env<'_>, s: SqlInsert)
    requires
        insertion_of(cx, s) is Ok,
        s.source matches Some(q) && !(*q.body is Values),
    ensures
        match insertion_of(cx, s)->Ok_0 {
            StatementView::Insert { table, source: SourceView::Query { query, columns } } => {
                &&& query_of(cx, Seq::empty(), Seq::empty(), 0, *s.source->0) == Ok::<
                    QueryView,
                    ErrorView,
                >(query)
                &&& cx.catalog.table(table) matches Some(t) && columns.len() == s.columns@.len()
                    && forall|j: int|
                    0 <= j < columns.len() ==> lists_column(s.columns@[j], t, #[trigger] columns[j])
            },
            _ => false,
        },
{
    let table = single_name(s.table->0)->Ok_0;
    let t = cx.catalog.table(table)->0;
    lemma_listed(s.columns@, 0, t, table, Seq::empty());
}

proof fn lemma_listed(
    list: Seq<ObjectName>,
    i: int,
    t: TableDescriptor,
    table: Seq<char>,
    acc: Seq<usize>,
)
    requires
        0 <= i <= list.len(),
        acc.len() == i,
        listed_columns(list, i, t, table, acc) is Ok,
    ensures
        ({
            let all = listed_columns(list, i, t, table, acc)->Ok_0;
            &&& all.len() == list.len()
            &&& forall|k: int| 0 <= k < i ==> all[k] == acc[k]
            &&& forall|k: int|
                i <= k < list.len() ==> lists_column(list[k], t, #[trigger] all[k])
        }),
    decreases list.len() - i,
{
    if i < list.len() {
        let name = listed_name(list[i])->Ok_0;
        crate::laws_conditions::lemma_column_found(t, name);
        let c = crate::catalog::first_named(t.schema.columns@, name, 0)->0 as usize;
        lemma_listed(list, i + 1, t, table, acc.push(c));
        assert(acc.push(c)[i] == c);
        assert(lists_column(list[i], t, c));
    }
}

} // verus!
