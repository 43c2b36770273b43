//! Binding of queries.

use crate::binder_expr::{agrees, agrees_list, agrees_option, bind, make_order_item};
use crate::catalog::{table_not_found, validate_table_descriptor_primary_key};
use crate::expr::{contains_expr, copy_exprs, AggregateSpec, AggregateView, Expr, ExprView};
use crate::grouping::{
    body_correlated_outer_refs, body_output_columns, check_branches, check_distinct_order,
    check_grouped, check_select_grouped, contains_window_through_output, empty_query_like,
    ensure_unique_output_names, lemma_view_queries, make_recursive_query, output_of_projection,
    query_of_body, select_correlated_outer_refs,
};
use crate::model_calls::Mode;
use crate::model_group::select_refs;
use crate::model_query::{
    after_join, alias_name, body_of, body_references, branch_of, condition_of, constraint_of,
    crossed, ctes_of, factor_of, factor_references, from_of, from_references, group_items_of,
    group_of, having_scope, item_bound_of, item_of, items_of, join_kind, join_of, join_slots,
    joined, joined_condition, joined_visible, joins_of, joins_reference, leaf_of, limit_option,
    limits, list_scope, natural_parts, offset_at, on_scope, operator_parts_of, order_items_of,
    order_key_check, order_key_of, order_of, order_scope, ordinal_key, query_check, query_of,
    recursive_cte_of, renamed, row_scope, select_block, select_check, select_clauses_check,
    select_clauses_of, select_of, set_kind, slot_added, slot_items, star_items, table_slot,
    tables_of, tables_reference, top_mode, total_width, union_distinct, unnamed_output,
    using_names, using_parts, wildcard_slot, with_of, working_columns, BoundBody, BoundTree,
    FromView, OrderScopeView, PartsView,
};
use crate::names::{
    column_ref, copy_ctes, copy_infos, join_visible_schema, left_deep_join_tree, lookup_cte,
    mark_nullable_range, natural_columns, object_name_parts, object_name_single,
    physical_visible_schema, position_alias_folded, position_slot, rebase_expr, tree_slot_range,
    using_predicate, visible_column_expr, visible_column_name, visible_expr, visible_name,
    CteBinding, CteEntry, CteEntryView, CteView, SlotInfo,
};
use crate::query::{
    copy_aggregates, copy_visible, copy_windows, view_schemas, view_slots, BodyView, BoundQuery,
    JoinKind, JoinSpec, JoinTree, OrderItem, OrderView, ProjectionItem, ProjectionView, QueryBody,
    QueryView, SelectBody, SelectView, SetOpKind, TableSlot, TreeView, VisibleColumn, VisibleView,
};
use crate::scope::{BindState, Env, Scope, StateView};
use crate::sql::{
    Cte, Distinct, GroupBy, Join, JoinConstraint, JoinOperator, LimitClause, ObjectName, OrderBy,
    OrderByExpr, Query, Select, SelectItem, SetExpr, SetOperator, SetQuantifier, SqlExpr, SqlNode,
    TableAlias, TableFactor, TableWithJoins, With,
};
use crate::text::{cat3, cat7, count_text, owned, same_folded};
use crate::typing::{
    integer_literal_of, limit_literal, parse_ordinal, require_bool,
};
use crate::value::{
    copy_columns, invalid, lemma_views_push, option_view, outcome, unsupported, views, ColumnDef,
    ColumnView, ErrorView, HtapError, Value, ValueView,
};
use vstd::prelude::*;

verus! {

/// Whether nothing but subqueries has been collected.
pub open spec fn fresh(st: StateView) -> bool {
    st.aggregates == Seq::<AggregateView>::empty() && st.windows == Seq::<
        crate::query::WindowView,
    >::empty()
}

fn forget_all_but_subqueries(st: &mut BindState)
    ensures
        fresh(final(st)@),
        final(st)@.subqueries == old(st)@.subqueries,
{
    st.aggregates = Vec::new();
    st.windows = Vec::new();
    assert(st@.aggregates =~= Seq::empty());
    assert(st@.windows =~= Seq::empty());
}

/// What binding a FROM clause collects.
struct FromState {
    slots: Vec<TableSlot>,
    infos: Vec<SlotInfo>,
    schemas: Vec<Vec<VisibleColumn>>,
}

spec fn from_view(fs: FromState, st: StateView) -> FromView {
    FromView {
        slots: views(fs.slots@),
        infos: views(fs.infos@),
        subqueries: st.subqueries,
        schemas: view_schemas(fs.schemas@),
    }
}

spec fn tree_agrees(
    r: Result<(JoinTree, Vec<VisibleColumn>), HtapError>,
    fs: FromView,
    model: BoundTree,
) -> bool {
    match r {
        Ok((t, v)) => model == Ok::<(TreeView, Seq<VisibleView>, FromView), ErrorView>(
            (t@, views(v@), fs),
        ),
        Err(e) => model == Err::<(TreeView, Seq<VisibleView>, FromView), ErrorView>(e@),
    }
}

fn factor_references_cte(f: &TableFactor, name: &str) -> (r: Result<bool, HtapError>)
    ensures
        outcome(r) == factor_references(*f, name@),
    decreases f, 0int,
{
    match f {
        TableFactor::Table { name: n, .. } => match object_name_single(n) {
            Ok(t) => Ok(same_folded(t.as_str(), name)),
            Err(x) => Err(x),
        },
        TableFactor::Derived { subquery, .. } => set_expr_references_cte(&subquery.body, name),
        TableFactor::NestedJoin { tables, .. } => table_with_joins_references_cte(tables, name),
        TableFactor::Other => Ok(false),
    }
}

fn joins_reference_cte(joins: &Vec<Join>, name: &str) -> (r: Result<bool, HtapError>)
    ensures
        outcome(r) == joins_reference(*joins, name@, 0),
    decreases joins, 0int,
{
    let mut i: usize = 0;
    while i < joins.len()
        invariant
            i <= joins.len(),
            joins_reference(*joins, name@, 0) == joins_reference(*joins, name@, i as int),
        decreases joins.len() - i,
    {
        match factor_references_cte(&joins[i].relation, name) {
            Err(x) => {
                return Err(x);
            },
            Ok(found) => {
                if found {
                    return Ok(true);
                }
            },
        }
        i = i + 1;
    }
    Ok(false)
}

fn table_with_joins_references_cte(t: &TableWithJoins, name: &str) -> (r: Result<bool, HtapError>)
    ensures
        outcome(r) == tables_reference(*t, name@),
    decreases t, 0int,
{
    match factor_references_cte(&t.relation, name) {
        Err(x) => Err(x),
        Ok(found) => if found {
            Ok(true)
        } else {
            joins_reference_cte(&t.joins, name)
        },
    }
}

fn from_references_cte(from: &Vec<TableWithJoins>, name: &str) -> (r: Result<bool, HtapError>)
    ensures
        outcome(r) == from_references(*from, name@, 0),
    decreases from, 0int,
{
    let mut i: usize = 0;
    while i < from.len()
        invariant
            i <= from.len(),
            from_references(*from, name@, 0) == from_references(*from, name@, i as int),
        decreases from.len() - i,
    {
        match table_with_joins_references_cte(&from[i], name) {
            Err(x) => {
                return Err(x);
            },
            Ok(found) => {
                if found {
                    return Ok(true);
                }
            },
        }
        i = i + 1;
    }
    Ok(false)
}

fn set_expr_references_cte(b: &SetExpr, name: &str) -> (r: Result<bool, HtapError>)
    ensures
        outcome(r) == body_references(*b, name@),
    decreases b, 0int,
{
    match b {
        SetExpr::Select(s) => from_references_cte(&s.from, name),
        SetExpr::Query(q) => set_expr_references_cte(&q.body, name),
        SetExpr::SetOperation { left, right, .. } => match set_expr_references_cte(left, name) {
            Err(x) => Err(x),
            Ok(found) => if found {
                Ok(true)
            } else {
                set_expr_references_cte(right, name)
            },
        },
        _ => Ok(false),
    }
}

fn check_query(q: &Query) -> (r: Result<(), HtapError>)
    ensures
        outcome(r) == query_check(*q),
{
    if q.fetch {
        return Err(unsupported(owned("FETCH clause not supported in SELECT")));
    }
    if q.locks {
        return Err(unsupported(owned("locking clauses not supported in SELECT")));
    }
    if q.for_clause {
        return Err(unsupported(owned("FOR clause not supported in SELECT")));
    }
    if q.settings || q.format {
        return Err(unsupported(owned("SETTINGS / FORMAT clauses not supported")));
    }
    if q.pipes {
        return Err(unsupported(owned("pipe operators not supported")));
    }
    Ok(())
}

fn bind_limit_option(e: &Option<SqlExpr>, what: &str) -> (r: Result<Option<u64>, HtapError>)
    ensures
        match r {
            Ok(n) => limit_option(*e, what@) == Ok::<Option<u64>, ErrorView>(n),
            Err(x) => limit_option(*e, what@) == Err::<Option<u64>, ErrorView>(x@),
        },
{
    match e {
        None => Ok(None),
        Some(x) => match limit_literal(x, what) {
            Ok(n) => Ok(Some(n)),
            Err(x) => Err(x),
        },
    }
}

fn bind_limit(l: &Option<LimitClause>) -> (r: Result<(Option<u64>, Option<u64>), HtapError>)
    ensures
        match r {
            Ok(n) => limits(*l) == Ok::<(Option<u64>, Option<u64>), ErrorView>(n),
            Err(x) => limits(*l) == Err::<(Option<u64>, Option<u64>), ErrorView>(x@),
        },
{
    match l {
        None => Ok((None, None)),
        Some(LimitClause::LimitOffset { limit, offset, limit_by }) => {
            if *limit_by {
                return Err(unsupported(owned("LIMIT BY not supported")));
            }
            match bind_limit_option(limit, "LIMIT") {
                Err(x) => Err(x),
                Ok(a) => match bind_limit_option(offset, "OFFSET") {
                    Err(x) => Err(x),
                    Ok(b) => Ok((a, b)),
                },
            }
        },
        Some(LimitClause::OffsetCommaLimit { offset, limit }) => match limit_literal(
            limit,
            "LIMIT",
        ) {
            Err(x) => Err(x),
            Ok(a) => match limit_literal(offset, "OFFSET") {
                Err(x) => Err(x),
                Ok(b) => Ok((Some(a), Some(b))),
            },
        },
    }
}

fn find_set_kind(op: &SetOperator, quantifier: &SetQuantifier) -> (r: Result<SetOpKind, HtapError>)
    ensures
        match r {
            Ok(k) => set_kind(*op, *quantifier) == Ok::<SetOpKind, ErrorView>(k),
            Err(x) => set_kind(*op, *quantifier) == Err::<SetOpKind, ErrorView>(x@),
        },
{
    match (op, quantifier) {
        (SetOperator::Union, SetQuantifier::All) => Ok(SetOpKind::UnionAll),
        (SetOperator::Union, SetQuantifier::Other(t)) => Err(
            unsupported(cat3("UNION ", t.as_str(), " not supported")),
        ),
        (SetOperator::Union, _) => Ok(SetOpKind::UnionDistinct),
        (SetOperator::Except, SetQuantifier::All) => Ok(SetOpKind::ExceptAll),
        (SetOperator::Except, SetQuantifier::Other(t)) => Err(
            unsupported(cat3("EXCEPT ", t.as_str(), " not supported")),
        ),
        (SetOperator::Except, _) => Ok(SetOpKind::ExceptDistinct),
        (SetOperator::Intersect, SetQuantifier::All) => Ok(SetOpKind::IntersectAll),
        (SetOperator::Intersect, SetQuantifier::Other(t)) => Err(
            unsupported(cat3("INTERSECT ", t.as_str(), " not supported")),
        ),
        (SetOperator::Intersect, _) => Ok(SetOpKind::IntersectDistinct),
        (SetOperator::Other(t), _) => Err(
            unsupported(cat3("set operator ", t.as_str(), " not supported")),
        ),
    }
}

fn drops_duplicates(q: &SetQuantifier) -> (r: Result<bool, HtapError>)
    ensures
        outcome(r) == union_distinct(*q),
{
    match q {
        SetQuantifier::All => Ok(false),
        SetQuantifier::Other(t) => Err(unsupported(cat3("UNION ", t.as_str(), " not supported"))),
        _ => Ok(true),
    }
}

fn rename_columns(columns: &Vec<ColumnDef>, names: &Vec<String>) -> (r: Vec<ColumnDef>)
    requires
        columns.len() == names.len(),
    ensures
        views(r@) == renamed(views(columns@), names@),
{
    let mut out: Vec<ColumnDef> = Vec::new();
    let mut i: usize = 0;
    while i < columns.len()
        invariant
            i <= columns.len(),
            columns.len() == names.len(),
            out.len() == i,
            forall|j: int|
                0 <= j < i ==> (#[trigger] out@[j])@ == (ColumnView {
                    name: names@[j]@,
                    ..columns@[j]@
                }),
        decreases columns.len() - i,
    {
        out.push(
            ColumnDef {
                name: names[i].clone(),
                data_type: columns[i].data_type,
                nullable: columns[i].nullable,
                primary_key: columns[i].primary_key,
            },
        );
        i = i + 1;
    }
    assert(views(out@) =~= renamed(views(columns@), names@));
    out
}

fn find_working_columns(cte: &Cte, columns: &Vec<ColumnDef>) -> (r: Result<
    Vec<ColumnDef>,
    HtapError,
>)
    ensures
        match r {
            Ok(v) => working_columns(*cte, views(columns@)) == Ok::<Seq<ColumnView>, ErrorView>(
                views(v@),
            ),
            Err(x) => working_columns(*cte, views(columns@)) == Err::<Seq<ColumnView>, ErrorView>(
                x@,
            ),
        },
{
    if cte.columns.len() == 0 {
        return Ok(copy_columns(columns));
    }
    if cte.columns.len() != columns.len() {
        let a = count_text(cte.columns.len());
        let b = count_text(columns.len());
        return Err(
            invalid(
                cat7(
                    "recursive CTE '",
                    cte.shown.as_str(),
                    "' has ",
                    a.as_str(),
                    " column name(s), but its anchor has ",
                    b.as_str(),
                    " column(s)",
                ),
            ),
        );
    }
    Ok(rename_columns(columns, &cte.columns))
}

fn push_cte(ctes: &mut Vec<CteEntry>, name: &String, binding: CteBinding)
    ensures
        views(final(ctes)@) == views(old(ctes)@).push(
            CteEntryView {
                name: name@,
                binding: match binding {
                    CteBinding::Query(q) => CteView::Query(q@),
                    CteBinding::Working(c) => CteView::Working(views(c@)),
                },
            },
        ),
{
    let entry = CteEntry { name: name.clone(), binding };
    proof {
        lemma_views_push(ctes@, entry);
    }
    ctes.push(entry);
}

/// Binds a query in a scope of common table expressions and enclosing slots.
pub(crate) fn bind_query_scoped(
    cx: Env<'_>,
    ctes: &Vec<CteEntry>,
    outer: &Vec<SlotInfo>,
    immediate: usize,
    q: &Query,
) -> (r: Result<BoundQuery, HtapError>)
    ensures
        outcome(r) == query_of(cx, views(ctes@), views(outer@), immediate as int, *q),
    decreases q, 5int, 0int,
{
    match check_query(q) {
        Err(x) => {
            return Err(x);
        },
        Ok(_) => {},
    }
    let local = match bind_with(cx, ctes, outer, immediate, &q.with) {
        Ok(c) => c,
        Err(x) => {
            return Err(x);
        },
    };
    let none: Vec<BoundQuery> = Vec::new();
    assert(views(none@) =~= Seq::empty());
    let mut st = BindState::with_subqueries(none);
    let (body, scope) = match bind_set_expr(cx, &local, outer, immediate, &q.body, &mut st) {
        Ok(b) => b,
        Err(x) => {
            return Err(x);
        },
    };
    let output_columns = body_output_columns(&body);
    let order_by = match bind_order_by(
        cx,
        &local,
        outer,
        &q.order_by,
        &scope,
        &output_columns,
        &mut st,
    ) {
        Ok(o) => o,
        Err(x) => {
            return Err(x);
        },
    };
    match check_distinct_order(&body, &order_by) {
        Err(x) => {
            return Err(x);
        },
        Ok(_) => {},
    }
    let (limit, offset) = match bind_limit(&q.limit) {
        Ok(l) => l,
        Err(x) => {
            return Err(x);
        },
    };
    let refs = body_correlated_outer_refs(&body);
    let correlated = refs.len() > 0;
    let subqueries = st.subqueries;
    proof {
        lemma_view_queries(subqueries);
    }
    Ok(
        BoundQuery {
            body,
            order_by,
            limit,
            offset,
            subqueries,
            correlated,
            correlated_outer_refs: refs,
            output_columns,
        },
    )
}

spec fn ctes_agree(
    r: Result<Vec<CteEntry>, HtapError>,
    model: Result<Seq<CteEntryView>, ErrorView>,
) -> bool {
    match r {
        Ok(v) => model == Ok::<Seq<CteEntryView>, ErrorView>(views(v@)),
        Err(x) => model == Err::<Seq<CteEntryView>, ErrorView>(x@),
    }
}

fn bind_with(
    cx: Env<'_>,
    ctes: &Vec<CteEntry>,
    outer: &Vec<SlotInfo>,
    immediate: usize,
    with: &Option<With>,
) -> (r: Result<Vec<CteEntry>, HtapError>)
    ensures
        ctes_agree(r, with_of(cx, views(ctes@), views(outer@), immediate as int, *with)),
    decreases with, 0int, 0int,
{
    match with {
        None => Ok(copy_ctes(ctes)),
        Some(w) => {
            if w.recursive {
                if w.ctes.len() != 1 {
                    return Err(
                        unsupported(owned("nested or mutually recursive CTEs not supported")),
                    );
                }
                let cte = &w.ctes[0];
                match set_expr_references_cte(&cte.query.body, cte.name.as_str()) {
                    Err(x) => {
                        return Err(x);
                    },
                    Ok(found) => {
                        if found {
                            return match bind_recursive_cte(cx, ctes, outer, immediate, cte) {
                                Err(x) => Err(x),
                                Ok(q) => {
                                    let mut local = copy_ctes(ctes);
                                    push_cte(
                                        &mut local,
                                        &cte.name,
                                        CteBinding::Query(Box::new(q)),
                                    );
                                    Ok(local)
                                },
                            };
                        }
                    },
                }
            }
            bind_ctes(cx, ctes, outer, immediate, &w.ctes)
        },
    }
}

fn bind_ctes(
    cx: Env<'_>,
    ctes: &Vec<CteEntry>,
    outer: &Vec<SlotInfo>,
    immediate: usize,
    list: &Vec<Cte>,
) -> (r: Result<Vec<CteEntry>, HtapError>)
    ensures
        ctes_agree(r, ctes_of(cx, views(outer@), immediate as int, *list, 0, views(ctes@))),
    decreases list, 0int, 0int,
{
    let ghost model = ctes_of(cx, views(outer@), immediate as int, *list, 0, views(ctes@));
    let mut local = copy_ctes(ctes);
    let mut i: usize = 0;
    while i < list.len()
        invariant
            i <= list.len(),
            model == ctes_of(cx, views(outer@), immediate as int, *list, 0, views(ctes@)),
            model == ctes_of(
                cx,
                views(outer@),
                immediate as int,
                *list,
                i as int,
                views(local@),
            ),
        decreases list.len() - i,
    {
        let cte = &list[i];
        if cte.from {
            return Err(unsupported(owned("CTE FROM clause not supported")));
        }
        if cte.columns.len() > 0 {
            return Err(unsupported(owned("CTE column lists not supported")));
        }
        let q = match bind_query_scoped(cx, &local, outer, immediate, &cte.query) {
            Ok(q) => q,
            Err(x) => {
                return Err(x);
            },
        };
        match ensure_unique_output_names(&q.output_columns, cte.name.as_str()) {
            Err(x) => {
                return Err(x);
            },
            Ok(_) => {},
        }
        push_cte(&mut local, &cte.name, CteBinding::Query(Box::new(q)));
        i = i + 1;
    }
    Ok(local)
}

fn bind_recursive_cte(
    cx: Env<'_>,
    ctes: &Vec<CteEntry>,
    outer: &Vec<SlotInfo>,
    immediate: usize,
    cte: &Cte,
) -> (r: Result<BoundQuery, HtapError>)
    ensures
        outcome(r) == recursive_cte_of(cx, views(ctes@), views(outer@), immediate as int, *cte),
    decreases cte, 0int, 0int,
{
    if cte.from {
        return Err(unsupported(owned("CTE FROM clause not supported")));
    }
    match &*cte.query.body {
        SetExpr::SetOperation { op: SetOperator::Union, quantifier, left, right } => {
            let distinct = match drops_duplicates(quantifier) {
                Ok(d) => d,
                Err(x) => {
                    return Err(x);
                },
            };
            let anchor = match bind_branch(cx, ctes, outer, immediate, left) {
                Ok(q) => q,
                Err(x) => {
                    return Err(x);
                },
            };
            assert(anchor@.output_columns == views(anchor.output_columns@));
            let columns = match find_working_columns(cte, &anchor.output_columns) {
                Ok(c) => c,
                Err(x) => {
                    return Err(x);
                },
            };
            let mut inner = copy_ctes(ctes);
            push_cte(&mut inner, &cte.name, CteBinding::Working(copy_columns(&columns)));
            let term = match bind_branch(cx, &inner, outer, immediate, right) {
                Ok(q) => q,
                Err(x) => {
                    return Err(x);
                },
            };
            make_recursive_query(anchor, term, &columns, distinct)
        },
        _ => Err(invalid(owned("recursive CTE body must be a UNION or UNION ALL"))),
    }
}

/// What an order refers to.
enum OrderScope {
    Select {
        slots: Vec<SlotInfo>,
        visible: Vec<VisibleColumn>,
        is_aggregate: bool,
        aggregates: Vec<AggregateSpec>,
        group_by: Vec<Expr>,
    },
    Output,
}

spec fn scope_view(s: OrderScope) -> OrderScopeView {
    match s {
        OrderScope::Select { slots, visible, is_aggregate, aggregates, group_by } => {
            OrderScopeView::Select {
                slots: views(slots@),
                visible: views(visible@),
                is_aggregate,
                aggregates: views(aggregates@),
                group_by: views(group_by@),
            }
        },
        OrderScope::Output => OrderScopeView::Output,
    }
}

spec fn body_agrees(
    r: Result<(QueryBody, OrderScope), HtapError>,
    st: StateView,
    model: BoundBody,
) -> bool {
    match r {
        Ok((b, s)) => model == Ok::<(BodyView, OrderScopeView, Seq<QueryView>), ErrorView>(
            (b@, scope_view(s), st.subqueries),
        ),
        Err(x) => model == Err::<(BodyView, OrderScopeView, Seq<QueryView>), ErrorView>(x@),
    }
}

fn bind_set_expr(
    cx: Env<'_>,
    ctes: &Vec<CteEntry>,
    outer: &Vec<SlotInfo>,
    immediate: usize,
    b: &SetExpr,
    st: &mut BindState,
) -> (r: Result<(QueryBody, OrderScope), HtapError>)
    requires
        fresh(old(st)@),
    ensures
        body_agrees(
            r,
            final(st)@,
            body_of(cx, views(ctes@), views(outer@), immediate as int, *b, old(st)@.subqueries),
        ),
    decreases b, 1int, 0int,
{
    match b {
        SetExpr::Select(s) => match bind_select_body(cx, ctes, outer, immediate, s, st) {
            Err(x) => Err(x),
            Ok((sel, scope)) => Ok((QueryBody::Select(sel), scope)),
        },
        SetExpr::Query(inner) => match bind_query_scoped(cx, ctes, outer, immediate, inner) {
            Err(x) => Err(x),
            Ok(q) => {
                let empty = empty_query_like(&q);
                Ok(
                    (
                        QueryBody::SetOp {
                            kind: SetOpKind::UnionAll,
                            left: Box::new(q),
                            right: Box::new(empty),
                        },
                        OrderScope::Output,
                    ),
                )
            },
        },
        SetExpr::SetOperation { op, quantifier, left, right } => {
            let kind = match find_set_kind(op, quantifier) {
                Ok(k) => k,
                Err(x) => {
                    return Err(x);
                },
            };
            let l = match bind_branch(cx, ctes, outer, immediate, left) {
                Ok(q) => q,
                Err(x) => {
                    return Err(x);
                },
            };
            let r = match bind_branch(cx, ctes, outer, immediate, right) {
                Ok(q) => q,
                Err(x) => {
                    return Err(x);
                },
            };
            match check_branches(&l, &r) {
                Err(x) => {
                    return Err(x);
                },
                Ok(_) => {},
            }
            Ok(
                (
                    QueryBody::SetOp { kind, left: Box::new(l), right: Box::new(r) },
                    OrderScope::Output,
                ),
            )
        },
        SetExpr::Values(_) => Err(unsupported(owned("VALUES as a query body not supported"))),
        SetExpr::Other => Err(unsupported(owned("unsupported query body in SELECT"))),
    }
}

fn bind_branch(
    cx: Env<'_>,
    ctes: &Vec<CteEntry>,
    outer: &Vec<SlotInfo>,
    immediate: usize,
    b: &SetExpr,
) -> (r: Result<BoundQuery, HtapError>)
    ensures
        outcome(r) == branch_of(cx, views(ctes@), views(outer@), immediate as int, *b),
    decreases b, 2int, 0int,
{
    match b {
        SetExpr::Query(inner) => bind_query_scoped(cx, ctes, outer, immediate, inner),
        _ => {
            let none: Vec<BoundQuery> = Vec::new();
            assert(views(none@) =~= Seq::empty());
            let mut st = BindState::with_subqueries(none);
            match bind_set_expr(cx, ctes, outer, immediate, b, &mut st) {
                Err(x) => Err(x),
                Ok((body, _)) => Ok(query_of_body(body, st.subqueries)),
            }
        },
    }
}

fn find_ordinal_key(digits: &str, output: &Vec<ColumnDef>) -> (r: Result<Expr, HtapError>)
    ensures
        outcome(r) == ordinal_key(digits@, views(output@)),
{
    match parse_ordinal(digits, output.len()) {
        Some(k) => Ok(
            Expr::OutputColumn {
                index: k,
                data_type: output[k].data_type,
                nullable: output[k].nullable,
            },
        ),
        None => Err(invalid(cat3("ORDER BY position ", digits, " is not in select list"))),
    }
}

fn check_order_key(scope: &OrderScope, key: &Expr, st: &BindState) -> (r: Result<(), HtapError>)
    ensures
        outcome(r) == order_key_check(scope_view(*scope), key@, st@),
{
    match scope {
        OrderScope::Output => Ok(()),
        OrderScope::Select { is_aggregate, aggregates, group_by, .. } => {
            if st.aggregates.len() != aggregates.len() {
                return Err(
                    invalid(
                        owned(
                            "ORDER BY aggregate expressions must also appear in the select list",
                        ),
                    ),
                );
            }
            if *is_aggregate {
                return check_grouped(key, group_by, "ORDER BY", &st.subqueries, true);
            }
            Ok(())
        },
    }
}

fn bind_order_key(
    cx: Env<'_>,
    ctes: &Vec<CteEntry>,
    outer: &Vec<SlotInfo>,
    e: &SqlExpr,
    scope: &OrderScope,
    output: &Vec<ColumnDef>,
    st: &mut BindState,
) -> (r: Result<Expr, HtapError>)
    ensures
        match r {
            Ok(k) => order_key_of(
                cx,
                views(ctes@),
                views(outer@),
                *e,
                scope_view(*scope),
                views(output@),
                old(st)@.subqueries,
            ) == Ok::<(ExprView, Seq<QueryView>), ErrorView>((k@, final(st)@.subqueries)),
            Err(x) => order_key_of(
                cx,
                views(ctes@),
                views(outer@),
                *e,
                scope_view(*scope),
                views(output@),
                old(st)@.subqueries,
            ) == Err::<(ExprView, Seq<QueryView>), ErrorView>(x@),
        },
    decreases e, 6int, 0int,
{
    match integer_literal_of(e) {
        Some(d) => {
            return find_ordinal_key(d.as_str(), output);
        },
        None => {},
    }
    forget_all_but_subqueries(st);
    let m = Mode { in_aggregate: false, in_window: false };
    match scope {
        OrderScope::Output => {
            let none: Vec<SlotInfo> = Vec::new();
            assert(views(none@) =~= Seq::empty());
            let mut sc = Scope::new(&none, ctes, outer, 0);
            sc.output = Some(output);
            sc.alias_priority = true;
            sc.output_only = true;
            assert(sc@ == order_scope(
                views(ctes@),
                views(outer@),
                scope_view(*scope),
                views(output@),
            ));
            match bind(cx, &sc, st, m, e) {
                Err(x) => Err(x),
                Ok(b) => match check_order_key(scope, &b, st) {
                    Err(x) => Err(x),
                    Ok(_) => Ok(b),
                },
            }
        },
        OrderScope::Select { slots, visible, aggregates, .. } => {
            st.aggregates = copy_aggregates(aggregates);
            let mut sc = Scope::new(slots, ctes, outer, 0);
            sc.visible = Some(visible);
            sc.output = Some(output);
            sc.alias_priority = true;
            assert(sc@ == order_scope(
                views(ctes@),
                views(outer@),
                scope_view(*scope),
                views(output@),
            ));
            match bind(cx, &sc, st, m, e) {
                Err(x) => Err(x),
                Ok(b) => match check_order_key(scope, &b, st) {
                    Err(x) => Err(x),
                    Ok(_) => Ok(b),
                },
            }
        },
    }
}

spec fn order_agrees(
    r: Result<Vec<OrderItem>, HtapError>,
    st: StateView,
    model: Result<(Seq<OrderView>, Seq<QueryView>), ErrorView>,
) -> bool {
    match r {
        Ok(v) => model == Ok::<(Seq<OrderView>, Seq<QueryView>), ErrorView>(
            (views(v@), st.subqueries),
        ),
        Err(x) => model == Err::<(Seq<OrderView>, Seq<QueryView>), ErrorView>(x@),
    }
}

fn bind_order_items(
    cx: Env<'_>,
    ctes: &Vec<CteEntry>,
    outer: &Vec<SlotInfo>,
    list: &Vec<OrderByExpr>,
    scope: &OrderScope,
    output: &Vec<ColumnDef>,
    st: &mut BindState,
) -> (r: Result<Vec<OrderItem>, HtapError>)
    ensures
        order_agrees(
            r,
            final(st)@,
            order_items_of(
                cx,
                views(ctes@),
                views(outer@),
                *list,
                scope_view(*scope),
                views(output@),
                0,
                Seq::empty(),
                old(st)@.subqueries,
            ),
        ),
    decreases list, 0int, 0int,
{
    let ghost c = views(ctes@);
    let ghost o = views(outer@);
    let ghost s = scope_view(*scope);
    let ghost out_cols = views(output@);
    let ghost model = order_items_of(
        cx,
        c,
        o,
        *list,
        s,
        out_cols,
        0,
        Seq::empty(),
        st@.subqueries,
    );
    let mut out: Vec<OrderItem> = Vec::new();
    let mut i: usize = 0;
    assert(views(out@) =~= Seq::empty());
    while i < list.len()
        invariant
            i <= list.len(),
            c == views(ctes@),
            o == views(outer@),
            s == scope_view(*scope),
            out_cols == views(output@),
            model == order_items_of(
                cx,
                c,
                o,
                *list,
                s,
                out_cols,
                0,
                Seq::empty(),
                old(st)@.subqueries,
            ),
            model == order_items_of(
                cx,
                c,
                o,
                *list,
                s,
                out_cols,
                i as int,
                views(out@),
                st@.subqueries,
            ),
        decreases list.len() - i,
    {
        if list[i].with_fill {
            return Err(unsupported(owned("WITH FILL not supported in ORDER BY")));
        }
        let key = match bind_order_key(cx, ctes, outer, &list[i].expr, scope, output, st) {
            Ok(k) => k,
            Err(x) => {
                return Err(x);
            },
        };
        let item = make_order_item(&list[i], key);
        proof {
            lemma_views_push(out@, item);
        }
        out.push(item);
        i = i + 1;
    }
    Ok(out)
}

fn bind_order_by(
    cx: Env<'_>,
    ctes: &Vec<CteEntry>,
    outer: &Vec<SlotInfo>,
    order_by: &Option<OrderBy>,
    scope: &OrderScope,
    output: &Vec<ColumnDef>,
    st: &mut BindState,
) -> (r: Result<Vec<OrderItem>, HtapError>)
    ensures
        order_agrees(
            r,
            final(st)@,
            order_of(
                cx,
                views(ctes@),
                views(outer@),
                *order_by,
                scope_view(*scope),
                views(output@),
                old(st)@.subqueries,
            ),
        ),
    decreases order_by, 0int, 0int,
{
    match order_by {
        None => {
            let out: Vec<OrderItem> = Vec::new();
            assert(views(out@) =~= Seq::empty());
            Ok(out)
        },
        Some(o) => {
            if o.interpolate {
                return Err(unsupported(owned("INTERPOLATE not supported in ORDER BY")));
            }
            if o.all {
                return Err(unsupported(owned("ORDER BY ALL not supported")));
            }
            bind_order_items(cx, ctes, outer, &o.exprs, scope, output, st)
        },
    }
}

fn width_of(infos: &Vec<SlotInfo>) -> (r: usize)
    ensures
        r == total_width(views(infos@), infos@.len() as int),
{
    let mut total: usize = 0;
    let mut i: usize = 0;
    while i < infos.len()
        invariant
            i <= infos.len(),
            total == total_width(views(infos@), i as int),
        decreases infos.len() - i,
    {
        total = total.saturating_add(infos[i].columns.len());
        i = i + 1;
        assert(views(infos@)[i - 1] == infos@[i - 1]@);
    }
    total
}

fn push_slot(slot: TableSlot, fs: &mut FromState, Ghost(st): Ghost<StateView>) -> (r: Result<
    (JoinTree, Vec<VisibleColumn>),
    HtapError,
>)
    ensures
        tree_agrees(r, from_view(*final(fs), st), slot_added(slot@, from_view(*old(fs), st))),
{
    let alias = slot.alias().clone();
    assert(alias@ == slot@.alias());
    match position_alias_folded(&fs.infos, alias.as_str()) {
        Some(_) => {
            return Err(invalid(cat3("not unique table/alias: '", alias.as_str(), "'")));
        },
        None => {},
    }
    let ghost start = from_view(*fs, st);
    let offset: usize = width_of(&fs.infos);
    let columns = copy_columns(slot.columns());
    let index: usize = fs.slots.len();
    let visible = physical_visible_schema(index, columns.len());
    let kept = copy_visible(&visible);
    let info = SlotInfo { alias, columns, offset };
    proof {
        assert(views(columns@) == slot@.columns());
        lemma_views_push(fs.infos@, info);
        lemma_views_push(fs.slots@, slot);
    }
    fs.infos.push(info);
    fs.slots.push(slot);
    let ghost before = fs.schemas@;
    fs.schemas.push(kept);
    assert(view_schemas(fs.schemas@) =~= view_schemas(before).push(views(visible@)));
    Ok((JoinTree::Leaf(index), visible))
}

fn name_of_alias(alias: &Option<TableAlias>, table: &String) -> (r: String)
    ensures
        r@ == alias_name(*alias, table@),
{
    match alias {
        Some(a) => a.name.clone(),
        None => table.clone(),
    }
}

fn bind_table(
    cx: Env<'_>,
    ctes: &Vec<CteEntry>,
    name: &ObjectName,
    alias: &Option<TableAlias>,
    options: bool,
) -> (r: Result<TableSlot, HtapError>)
    ensures
        outcome(r) == table_slot(cx, views(ctes@), *name, *alias, options),
{
    if options {
        return Err(unsupported(owned("unsupported table factor options in SELECT")));
    }
    match alias {
        Some(a) => {
            if a.columns {
                return Err(unsupported(owned("table alias column lists not supported")));
            }
        },
        None => {},
    }
    let table = match object_name_single(name) {
        Ok(t) => t,
        Err(x) => {
            return Err(x);
        },
    };
    let shown = name_of_alias(alias, &table);
    match lookup_cte(ctes, table.as_str()) {
        Some(cte) => {
            return Ok(
                match &cte.binding {
                    CteBinding::Query(q) => {
                        let columns = copy_columns(&q.output_columns);
                        assert(q@.output_columns == views(q.output_columns@));
                        TableSlot::Derived { query: Box::new(q.copy()), alias: shown, columns }
                    },
                    CteBinding::Working(columns) => TableSlot::WorkingTableSlot {
                        alias: shown,
                        columns: copy_columns(columns),
                    },
                },
            );
        },
        None => {},
    }
    let desc = match cx.catalog.table_by_name(table.as_str()) {
        Some(t) => t,
        None => {
            return Err(table_not_found(table.as_str()));
        },
    };
    match validate_table_descriptor_primary_key(desc) {
        Err(x) => {
            return Err(x);
        },
        Ok(_) => {},
    }
    Ok(TableSlot::Base { table, alias: shown, columns: copy_columns(&desc.schema.columns) })
}

fn bind_table_factor_leaf(
    cx: Env<'_>,
    ctes: &Vec<CteEntry>,
    outer: &Vec<SlotInfo>,
    f: &TableFactor,
) -> (r: Result<TableSlot, HtapError>)
    ensures
        outcome(r) == leaf_of(cx, views(ctes@), views(outer@), *f),
    decreases f, 0int, 0int,
{
    match f {
        TableFactor::Table { name, alias, options, extras } => bind_table(
            cx,
            ctes,
            name,
            alias,
            options.given() || extras.given(),
        ),
        TableFactor::Derived { lateral, subquery, alias, sample } => {
            if *lateral {
                return Err(unsupported(owned("LATERAL derived tables not supported")));
            }
            if *sample {
                return Err(unsupported(owned("TABLESAMPLE not supported")));
            }
            match alias {
                None => Err(invalid(owned("every derived table must have its own alias"))),
                Some(a) => {
                    if a.columns {
                        return Err(unsupported(owned("derived table column lists not supported")));
                    }
                    let q = match bind_query_scoped(cx, ctes, outer, 0, subquery) {
                        Ok(q) => q,
                        Err(x) => {
                            return Err(x);
                        },
                    };
                    assert(q@.output_columns == views(q.output_columns@));
                    match ensure_unique_output_names(&q.output_columns, a.name.as_str()) {
                        Err(x) => {
                            return Err(x);
                        },
                        Ok(_) => {},
                    }
                    let columns = copy_columns(&q.output_columns);
                    Ok(TableSlot::Derived { query: Box::new(q), alias: a.name.clone(), columns })
                },
            }
        },
        _ => Err(unsupported(owned("unsupported table relation in SELECT"))),
    }
}

fn bind_table_factor_tree(
    cx: Env<'_>,
    ctes: &Vec<CteEntry>,
    outer: &Vec<SlotInfo>,
    f: &TableFactor,
    fs: &mut FromState,
    st: &mut BindState,
) -> (r: Result<(JoinTree, Vec<VisibleColumn>), HtapError>)
    requires
        fresh(old(st)@),
    ensures
        tree_agrees(
            r,
            from_view(*final(fs), final(st)@),
            factor_of(cx, views(ctes@), views(outer@), *f, from_view(*old(fs), old(st)@)),
        ),
        r is Ok ==> fresh(final(st)@),
    decreases f, 1int, 0int,
{
    match f {
        TableFactor::NestedJoin { tables, alias } => {
            if *alias {
                return Err(
                    unsupported(owned("aliases on nested join expressions not supported")),
                );
            }
            bind_table_with_joins(cx, ctes, outer, tables, fs, st)
        },
        _ => match bind_table_factor_leaf(cx, ctes, outer, f) {
            Err(x) => Err(x),
            Ok(slot) => push_slot(slot, fs, Ghost(st@)),
        },
    }
}

fn kind_of_join(op: &JoinOperator) -> (r: Result<JoinKind, HtapError>)
    ensures
        match r {
            Ok(k) => join_kind(*op) == Ok::<JoinKind, ErrorView>(k),
            Err(x) => join_kind(*op) == Err::<JoinKind, ErrorView>(x@),
        },
{
    match op {
        JoinOperator::Inner(_) => Ok(JoinKind::Inner),
        JoinOperator::Left(_) => Ok(JoinKind::Left),
        JoinOperator::Right(_) => Ok(JoinKind::Right),
        JoinOperator::Full(_) => Ok(JoinKind::Full),
        JoinOperator::Cross(_) => Ok(JoinKind::Cross),
        JoinOperator::Semi => Err(unsupported(owned("join type not supported: SEMI JOIN"))),
        JoinOperator::Anti => Err(unsupported(owned("join type not supported: ANTI JOIN"))),
        JoinOperator::Apply => Err(unsupported(owned("join type not supported: APPLY"))),
        JoinOperator::AsOf => Err(unsupported(owned("join type not supported: ASOF JOIN"))),
        JoinOperator::Other => Err(unsupported(owned("join type not supported: unknown join"))),
    }
}

/// A join's kind and condition, and the names it merges.
struct JoinParts {
    kind: JoinKind,
    on: Option<Expr>,
    names: Option<Vec<String>>,
}

spec fn parts_view(p: JoinParts, st: StateView) -> PartsView {
    PartsView {
        kind: p.kind,
        on: option_view(p.on),
        names: match p.names {
            Some(n) => Some(views(n@)),
            None => None,
        },
        subqueries: st.subqueries,
    }
}

spec fn parts_agree(
    r: Result<JoinParts, HtapError>,
    st: StateView,
    model: Result<PartsView, ErrorView>,
) -> bool {
    match r {
        Ok(p) => model == Ok::<PartsView, ErrorView>(parts_view(p, st)),
        Err(x) => model == Err::<PartsView, ErrorView>(x@),
    }
}

fn names_of_using(list: &Vec<ObjectName>) -> (r: Result<Vec<String>, HtapError>)
    ensures
        match r {
            Ok(v) => using_names(list@, 0, Seq::empty()) == Ok::<Seq<Seq<char>>, ErrorView>(
                views(v@),
            ),
            Err(x) => using_names(list@, 0, Seq::empty()) == Err::<Seq<Seq<char>>, ErrorView>(x@),
        },
{
    let mut out: Vec<String> = Vec::new();
    let mut i: usize = 0;
    assert(views(out@) =~= Seq::empty());
    while i < list.len()
        invariant
            i <= list.len(),
            using_names(list@, 0, Seq::empty()) == using_names(list@, i as int, views(out@)),
        decreases list.len() - i,
    {
        match object_name_single(&list[i]) {
            Err(x) => {
                return Err(x);
            },
            Ok(n) => {
                proof {
                    lemma_views_push(out@, n);
                }
                out.push(n);
            },
        }
        i = i + 1;
    }
    Ok(out)
}

fn bind_using(
    kind: JoinKind,
    columns: &Vec<ObjectName>,
    l: &Vec<VisibleColumn>,
    r: &Vec<VisibleColumn>,
    fs: &FromState,
    st: &BindState,
) -> (res: Result<JoinParts, HtapError>)
    ensures
        parts_agree(
            res,
            st@,
            using_parts(kind, columns@, views(l@), views(r@), from_view(*fs, st@)),
        ),
{
    if kind == JoinKind::Cross {
        return Err(invalid(owned("CROSS JOIN cannot have a USING clause")));
    }
    let names = match names_of_using(columns) {
        Ok(n) => n,
        Err(x) => {
            return Err(x);
        },
    };
    if names.len() == 0 {
        return Err(invalid(owned("JOIN USING requires at least one column")));
    }
    match using_predicate(l, r, &names, &fs.infos) {
        Err(x) => Err(x),
        Ok(on) => Ok(JoinParts { kind, on, names: Some(names) }),
    }
}

fn bind_natural(
    kind: JoinKind,
    l: &Vec<VisibleColumn>,
    r: &Vec<VisibleColumn>,
    fs: &FromState,
    st: &BindState,
) -> (res: Result<JoinParts, HtapError>)
    ensures
        parts_agree(res, st@, natural_parts(kind, views(l@), views(r@), from_view(*fs, st@))),
{
    if kind == JoinKind::Cross {
        return Err(invalid(owned("NATURAL CROSS JOIN is not supported")));
    }
    let names = natural_columns(l, r, &fs.infos);
    if names.len() == 0 {
        if kind == JoinKind::Inner {
            return Ok(JoinParts { kind: JoinKind::Cross, on: None, names: None });
        }
        let always = Expr::Literal(Value::Bool(true));
        assert(always@ == ExprView::Literal(ValueView::Bool(true)));
        return Ok(JoinParts { kind, on: Some(always), names: None });
    }
    match using_predicate(l, r, &names, &fs.infos) {
        Err(x) => Err(x),
        Ok(on) => Ok(JoinParts { kind, on, names: Some(names) }),
    }
}

fn slots_of_join(infos: &Vec<SlotInfo>, first: usize, last: usize) -> (r: Vec<SlotInfo>)
    ensures
        views(r@) == join_slots(views(infos@), first, last),
{
    if first <= last && last < infos.len() {
        copy_infos(infos, first, last + 1)
    } else {
        let r: Vec<SlotInfo> = Vec::new();
        assert(views(r@) =~= Seq::empty());
        r
    }
}

fn bind_constraint(
    cx: Env<'_>,
    ctes: &Vec<CteEntry>,
    outer: &Vec<SlotInfo>,
    kind: JoinKind,
    c: &JoinConstraint,
    first: usize,
    last: usize,
    l: &Vec<VisibleColumn>,
    r: &Vec<VisibleColumn>,
    fs: &FromState,
    st: &mut BindState,
) -> (res: Result<JoinParts, HtapError>)
    requires
        fresh(old(st)@),
    ensures
        parts_agree(
            res,
            final(st)@,
            constraint_of(
                cx,
                views(ctes@),
                views(outer@),
                kind,
                *c,
                first,
                last,
                views(l@),
                views(r@),
                from_view(*fs, old(st)@),
            ),
        ),
        res is Ok ==> fresh(final(st)@),
    decreases c, 0int, 0int,
{
    match c {
        JoinConstraint::On(e) => {
            let slots = slots_of_join(&fs.infos, first, last);
            let mut sc = Scope::new(&slots, ctes, outer, 0);
            sc.allow_aggregates = false;
            sc.window_clause = Some("JOIN ON");
            assert(sc@ == on_scope(views(ctes@), views(outer@), views(fs.infos@), first, last));
            let m = Mode { in_aggregate: false, in_window: false };
            let b = match bind(cx, &sc, st, m, e) {
                Ok(b) => b,
                Err(x) => {
                    return Err(x);
                },
            };
            forget_all_but_subqueries(st);
            match require_bool(&b, "JOIN ON") {
                Err(x) => {
                    return Err(x);
                },
                Ok(_) => {},
            }
            match rebase_expr(&b, 0, first) {
                Err(x) => Err(x),
                Ok(on) => Ok(JoinParts { kind, on: Some(on), names: None }),
            }
        },
        JoinConstraint::Unspecified => {
            if kind == JoinKind::Inner || kind == JoinKind::Cross {
                Ok(JoinParts { kind: JoinKind::Cross, on: None, names: None })
            } else {
                Err(invalid(owned("outer joins require an ON condition")))
            }
        },
        JoinConstraint::Using(columns) => bind_using(kind, columns, l, r, fs, st),
        JoinConstraint::Natural => bind_natural(kind, l, r, fs, st),
    }
}

fn bind_operator(
    cx: Env<'_>,
    ctes: &Vec<CteEntry>,
    outer: &Vec<SlotInfo>,
    kind: JoinKind,
    op: &JoinOperator,
    first: usize,
    last: usize,
    l: &Vec<VisibleColumn>,
    r: &Vec<VisibleColumn>,
    fs: &FromState,
    st: &mut BindState,
) -> (res: Result<JoinParts, HtapError>)
    requires
        fresh(old(st)@),
        join_kind(*op) is Ok,
    ensures
        parts_agree(
            res,
            final(st)@,
            operator_parts_of(
                cx,
                views(ctes@),
                views(outer@),
                kind,
                *op,
                first,
                last,
                views(l@),
                views(r@),
                from_view(*fs, old(st)@),
            ),
        ),
        res is Ok ==> fresh(final(st)@),
    decreases op, 0int, 0int,
{
    match op {
        JoinOperator::Inner(c) => bind_constraint(
            cx,
            ctes,
            outer,
            kind,
            c,
            first,
            last,
            l,
            r,
            fs,
            st,
        ),
        JoinOperator::Left(c) => bind_constraint(
            cx,
            ctes,
            outer,
            kind,
            c,
            first,
            last,
            l,
            r,
            fs,
            st,
        ),
        JoinOperator::Right(c) => bind_constraint(
            cx,
            ctes,
            outer,
            kind,
            c,
            first,
            last,
            l,
            r,
            fs,
            st,
        ),
        JoinOperator::Full(c) => bind_constraint(
            cx,
            ctes,
            outer,
            kind,
            c,
            first,
            last,
            l,
            r,
            fs,
            st,
        ),
        JoinOperator::Cross(c) => bind_constraint(
            cx,
            ctes,
            outer,
            kind,
            c,
            first,
            last,
            l,
            r,
            fs,
            st,
        ),
        _ => Err(invalid(String::new())),
    }
}

fn infos_after_join(
    infos: &Vec<SlotInfo>,
    kind: JoinKind,
    l: (usize, usize),
    r: (usize, usize),
) -> (res: Vec<SlotInfo>)
    ensures
        views(res@) == after_join(views(infos@), kind, l, r),
{
    match kind {
        JoinKind::Left => mark_nullable_range(infos, r),
        JoinKind::Right => mark_nullable_range(infos, l),
        JoinKind::Full => {
            let first = mark_nullable_range(infos, l);
            mark_nullable_range(&first, r)
        },
        _ => {
            let res = copy_infos(infos, 0, infos.len());
            assert(views(infos@).subrange(0, infos@.len() as int) =~= views(infos@));
            res
        },
    }
}

fn both_visible(l: &Vec<VisibleColumn>, r: &Vec<VisibleColumn>) -> (res: Vec<VisibleColumn>)
    ensures
        views(res@) == views(l@) + views(r@),
{
    let mut out = copy_visible(l);
    let mut rest = copy_visible(r);
    let ghost a = out@;
    let ghost b = rest@;
    out.append(&mut rest);
    assert(views(out@) =~= views(a) + views(b));
    out
}

fn make_join(
    parts: JoinParts,
    tree: JoinTree,
    right: JoinTree,
    l: &Vec<VisibleColumn>,
    r: &Vec<VisibleColumn>,
    fs: &mut FromState,
    Ghost(st): Ghost<StateView>,
) -> (res: Result<(JoinTree, Vec<VisibleColumn>), HtapError>)
    ensures
        tree_agrees(
            res,
            from_view(*final(fs), st),
            joined(
                parts_view(parts, st),
                tree@,
                right@,
                views(l@),
                views(r@),
                from_view(*old(fs), st),
            ),
        ),
{
    let ghost pv = parts_view(parts, st);
    let ghost start = from_view(*fs, st);
    if parts.kind == JoinKind::Cross && parts.on.is_some() {
        return Err(invalid(owned("CROSS JOIN cannot have an ON condition")));
    }
    let left_range = tree_slot_range(&tree);
    let right_range = tree_slot_range(&right);
    let infos = infos_after_join(&fs.infos, parts.kind, left_range, right_range);
    let visible = match &parts.names {
        Some(names) => match join_visible_schema(l, r, names, &infos, &fs.infos, parts.kind) {
            Ok(v) => v,
            Err(x) => {
                return Err(x);
            },
        },
        None => both_visible(l, r),
    };
    assert(joined_visible(pv, views(l@), views(r@), views(infos@), start.infos) == Ok::<
        Seq<VisibleView>,
        ErrorView,
    >(views(visible@)));
    let base: usize = if left_range.0 < infos.len() {
        infos[left_range.0].offset
    } else {
        0
    };
    assert(base == offset_at(views(infos@), left_range.0));
    let on = match &parts.on {
        None => None,
        Some(e) => match rebase_expr(e, base, 0) {
            Err(x) => {
                return Err(x);
            },
            Ok(x) => Some(x),
        },
    };
    assert(joined_condition(pv.on, base) == Ok::<Option<ExprView>, ErrorView>(option_view(on)));
    let kept = copy_visible(&visible);
    let ghost before = fs.schemas@;
    fs.schemas.push(kept);
    fs.infos = infos;
    assert(view_schemas(fs.schemas@) =~= view_schemas(before).push(views(visible@)));
    let joined_tree = JoinTree::Join {
        kind: parts.kind,
        left: Box::new(tree),
        right: Box::new(right),
        on,
    };
    Ok((joined_tree, visible))
}

fn bind_join(
    cx: Env<'_>,
    ctes: &Vec<CteEntry>,
    outer: &Vec<SlotInfo>,
    j: &Join,
    tree: JoinTree,
    visible: Vec<VisibleColumn>,
    fs: &mut FromState,
    st: &mut BindState,
) -> (r: Result<(JoinTree, Vec<VisibleColumn>), HtapError>)
    requires
        fresh(old(st)@),
    ensures
        tree_agrees(
            r,
            from_view(*final(fs), final(st)@),
            join_of(
                cx,
                views(ctes@),
                views(outer@),
                *j,
                tree@,
                views(visible@),
                from_view(*old(fs), old(st)@),
            ),
        ),
        r is Ok ==> fresh(final(st)@),
    decreases j, 0int, 0int,
{
    if j.global {
        return Err(unsupported(owned("GLOBAL joins not supported")));
    }
    let kind = match kind_of_join(&j.operator) {
        Ok(k) => k,
        Err(x) => {
            return Err(x);
        },
    };
    let (right, rv) = match bind_table_factor_tree(cx, ctes, outer, &j.relation, fs, st) {
        Ok(t) => t,
        Err(x) => {
            return Err(x);
        },
    };
    let first: usize = tree_slot_range(&tree).0;
    let last: usize = tree_slot_range(&right).1;
    let ghost mid = from_view(*fs, st@);
    let parts = match bind_operator(
        cx,
        ctes,
        outer,
        kind,
        &j.operator,
        first,
        last,
        &visible,
        &rv,
        fs,
        st,
    ) {
        Ok(p) => p,
        Err(x) => {
            return Err(x);
        },
    };
    let res = make_join(parts, tree, right, &visible, &rv, fs, Ghost(st@));
    res
}

fn bind_joins(
    cx: Env<'_>,
    ctes: &Vec<CteEntry>,
    outer: &Vec<SlotInfo>,
    joins: &Vec<Join>,
    tree: JoinTree,
    visible: Vec<VisibleColumn>,
    fs: &mut FromState,
    st: &mut BindState,
) -> (r: Result<(JoinTree, Vec<VisibleColumn>), HtapError>)
    requires
        fresh(old(st)@),
    ensures
        tree_agrees(
            r,
            from_view(*final(fs), final(st)@),
            joins_of(
                cx,
                views(ctes@),
                views(outer@),
                *joins,
                0,
                tree@,
                views(visible@),
                from_view(*old(fs), old(st)@),
            ),
        ),
        r is Ok ==> fresh(final(st)@),
    decreases joins, 0int, 0int,
{
    let ghost c = views(ctes@);
    let ghost o = views(outer@);
    let ghost model = joins_of(
        cx,
        c,
        o,
        *joins,
        0,
        tree@,
        views(visible@),
        from_view(*fs, st@),
    );
    let mut t = tree;
    let mut v = visible;
    let mut i: usize = 0;
    while i < joins.len()
        invariant
            i <= joins.len(),
            fresh(st@),
            c == views(ctes@),
            o == views(outer@),
            model == joins_of(
                cx,
                c,
                o,
                *joins,
                0,
                tree@,
                views(visible@),
                from_view(*old(fs), old(st)@),
            ),
            model == joins_of(
                cx,
                c,
                o,
                *joins,
                i as int,
                t@,
                views(v@),
                from_view(*fs, st@),
            ),
        decreases joins.len() - i,
    {
        match bind_join(cx, ctes, outer, &joins[i], t, v, fs, st) {
            Ok((t2, v2)) => {
                t = t2;
                v = v2;
            },
            Err(x) => {
                return Err(x);
            },
        }
        i = i + 1;
    }
    Ok((t, v))
}

fn bind_table_with_joins(
    cx: Env<'_>,
    ctes: &Vec<CteEntry>,
    outer: &Vec<SlotInfo>,
    t: &TableWithJoins,
    fs: &mut FromState,
    st: &mut BindState,
) -> (r: Result<(JoinTree, Vec<VisibleColumn>), HtapError>)
    requires
        fresh(old(st)@),
    ensures
        tree_agrees(
            r,
            from_view(*final(fs), final(st)@),
            tables_of(cx, views(ctes@), views(outer@), *t, from_view(*old(fs), old(st)@)),
        ),
        r is Ok ==> fresh(final(st)@),
    decreases t, 0int, 0int,
{
    let (tree, visible) = match bind_table_factor_tree(cx, ctes, outer, &t.relation, fs, st) {
        Ok(x) => x,
        Err(x) => {
            return Err(x);
        },
    };
    bind_joins(cx, ctes, outer, &t.joins, tree, visible, fs, st)
}

spec fn option_tree(t: Option<JoinTree>) -> Option<TreeView> {
    match t {
        Some(t) => Some(t@),
        None => None,
    }
}

fn cross(
    tree: Option<JoinTree>,
    visible: Vec<VisibleColumn>,
    t: JoinTree,
    v: Vec<VisibleColumn>,
    fs: &mut FromState,
    Ghost(st): Ghost<StateView>,
) -> (r: (JoinTree, Vec<VisibleColumn>))
    ensures
        (r.0@, views(r.1@), from_view(*final(fs), st)) == crossed(
            option_tree(tree),
            views(visible@),
            t@,
            views(v@),
            from_view(*old(fs), st),
        ),
{
    match tree {
        None => (t, v),
        Some(left) => {
            let both = both_visible(&visible, &v);
            let kept = copy_visible(&both);
            let ghost before = fs.schemas@;
            fs.schemas.push(kept);
            assert(view_schemas(fs.schemas@) =~= view_schemas(before).push(views(both@)));
            (
                JoinTree::Join {
                    kind: JoinKind::Cross,
                    left: Box::new(left),
                    right: Box::new(t),
                    on: None,
                },
                both,
            )
        },
    }
}

fn bind_from(
    cx: Env<'_>,
    ctes: &Vec<CteEntry>,
    outer: &Vec<SlotInfo>,
    from: &Vec<TableWithJoins>,
    fs: &mut FromState,
    st: &mut BindState,
) -> (r: Result<(Option<JoinTree>, Vec<VisibleColumn>), HtapError>)
    requires
        fresh(old(st)@),
    ensures
        match r {
            Ok((t, v)) => from_of(
                cx,
                views(ctes@),
                views(outer@),
                *from,
                0,
                None,
                Seq::empty(),
                from_view(*old(fs), old(st)@),
            ) == Ok::<(Option<TreeView>, Seq<VisibleView>, FromView), ErrorView>(
                (option_tree(t), views(v@), from_view(*final(fs), final(st)@)),
            ),
            Err(x) => from_of(
                cx,
                views(ctes@),
                views(outer@),
                *from,
                0,
                None,
                Seq::empty(),
                from_view(*old(fs), old(st)@),
            ) == Err::<(Option<TreeView>, Seq<VisibleView>, FromView), ErrorView>(x@),
        },
        r is Ok ==> fresh(final(st)@),
    decreases from, 0int, 0int,
{
    let ghost c = views(ctes@);
    let ghost o = views(outer@);
    let ghost model = from_of(cx, c, o, *from, 0, None, Seq::empty(), from_view(*fs, st@));
    let mut tree: Option<JoinTree> = None;
    let mut visible: Vec<VisibleColumn> = Vec::new();
    let mut i: usize = 0;
    assert(views(visible@) =~= Seq::empty());
    while i < from.len()
        invariant
            i <= from.len(),
            fresh(st@),
            c == views(ctes@),
            o == views(outer@),
            model == from_of(
                cx,
                c,
                o,
                *from,
                0,
                None,
                Seq::empty(),
                from_view(*old(fs), old(st)@),
            ),
            model == from_of(
                cx,
                c,
                o,
                *from,
                i as int,
                option_tree(tree),
                views(visible@),
                from_view(*fs, st@),
            ),
        decreases from.len() - i,
    {
        let (t, v) = match bind_table_with_joins(cx, ctes, outer, &from[i], fs, st) {
            Ok(x) => x,
            Err(x) => {
                return Err(x);
            },
        };
        let (t2, v2) = cross(tree, visible, t, v, fs, Ghost(st@));
        tree = Some(t2);
        visible = v2;
        i = i + 1;
    }
    Ok((tree, visible))
}

fn check_select(s: &Select) -> (r: Result<bool, HtapError>)
    ensures
        outcome(r) == select_check(*s),
{
    if s.top {
        return Err(unsupported(owned("TOP not supported in SELECT")));
    }
    if s.into {
        return Err(unsupported(owned("INTO not supported in SELECT")));
    }
    if s.lateral_views {
        return Err(unsupported(owned("LATERAL VIEW not supported in SELECT")));
    }
    if s.prewhere {
        return Err(unsupported(owned("PREWHERE not supported in SELECT")));
    }
    if s.named_window {
        return Err(unsupported(owned("WINDOW clauses not supported in SELECT")));
    }
    if s.qualify {
        return Err(unsupported(owned("QUALIFY not supported in SELECT")));
    }
    if s.sort_clauses.given() {
        return Err(unsupported(owned("CLUSTER BY / DISTRIBUTE BY / SORT BY not supported")));
    }
    if s.connect_by {
        return Err(unsupported(owned("CONNECT BY not supported")));
    }
    if s.modifiers.given() {
        return Err(unsupported(owned("SELECT modifiers not supported")));
    }
    let distinct = match &s.distinct {
        None => false,
        Some(Distinct::All) => false,
        Some(Distinct::Distinct) => true,
        Some(Distinct::On) => {
            return Err(unsupported(owned("DISTINCT ON not supported")));
        },
    };
    if s.projection.len() == 0 {
        return Err(invalid(owned("SELECT projection cannot be empty")));
    }
    Ok(distinct)
}

fn bind_condition(
    cx: Env<'_>,
    sc: &Scope<'_>,
    st: &mut BindState,
    e: &Option<SqlExpr>,
    clause: &str,
) -> (r: Result<Option<Expr>, HtapError>)
    ensures
        agrees_option(r, final(st)@, condition_of(cx, sc@, old(st)@, *e, clause@)),
    decreases e, 0int, 0int,
{
    match e {
        None => Ok(None),
        Some(x) => {
            let m = Mode { in_aggregate: false, in_window: false };
            match bind(cx, sc, st, m, x) {
                Err(x) => Err(x),
                Ok(b) => match require_bool(&b, clause) {
                    Err(x) => Err(x),
                    Ok(_) => Ok(Some(b)),
                },
            }
        },
    }
}

fn bind_item_for_group(
    cx: Env<'_>,
    sc: &Scope<'_>,
    st: &mut BindState,
    item: &SelectItem,
    position: usize,
) -> (r: Result<Expr, HtapError>)
    requires
        position < usize::MAX,
    ensures
        agrees(r, final(st)@, item_bound_of(cx, sc@, old(st)@, *item, position + 1)),
    decreases item, 0int, 0int,
{
    let m = Mode { in_aggregate: false, in_window: false };
    match item {
        SelectItem::UnnamedExpr(e) => bind(cx, sc, st, m, e),
        SelectItem::ExprWithAlias { expr, .. } => bind(cx, sc, st, m, expr),
        SelectItem::ExprWithAliases => Err(
            unsupported(owned("multiple aliases per expression not supported")),
        ),
        _ => {
            let n = count_text(position + 1);
            Err(invalid(cat3("GROUP BY position ", n.as_str(), " refers to a wildcard")))
        },
    }
}

fn bind_group_items(cx: Env<'_>, sc: &Scope<'_>, st: &mut BindState, s: &Select) -> (r: Result<
    Vec<Expr>,
    HtapError,
>)
    requires
        s.group_by is Expressions,
    ensures
        agrees_list(
            r,
            final(st)@,
            group_items_of(cx, sc@, old(st)@, *s, 0, Seq::empty()),
        ),
    decreases s, 1int, 0int,
{
    let ghost model = group_items_of(cx, sc@, st@, *s, 0, Seq::empty());
    let m = Mode { in_aggregate: false, in_window: false };
    let mut out: Vec<Expr> = Vec::new();
    assert(views(out@) =~= Seq::empty());
    match &s.group_by {
        GroupBy::All => {},
        GroupBy::Expressions { exprs, .. } => {
            let total: usize = s.projection.len();
            let mut i: usize = 0;
            while i < exprs.len()
                invariant
                    i <= exprs.len(),
                    total == s.projection@.len(),
                    s.group_by is Expressions,
                    s.group_by->exprs == *exprs,
                    m == top_mode(),
                    model == group_items_of(cx, sc@, old(st)@, *s, 0, Seq::empty()),
                    model == group_items_of(cx, sc@, st@, *s, i as int, views(out@)),
                decreases exprs.len() - i,
            {
                let b = match integer_literal_of(&exprs[i]) {
                    Some(d) => match parse_ordinal(d.as_str(), total) {
                        Some(k) => match bind_item_for_group(cx, sc, st, &s.projection[k], k) {
                            Ok(b) => b,
                            Err(x) => {
                                return Err(x);
                            },
                        },
                        None => {
                            return Err(
                                invalid(
                                    cat3("GROUP BY position ", d.as_str(), " is not in select list"),
                                ),
                            );
                        },
                    },
                    None => match bind(cx, sc, st, m, &exprs[i]) {
                        Ok(b) => b,
                        Err(x) => {
                            return Err(x);
                        },
                    },
                };
                if contains_expr(&out, &b) {
                    return Err(
                        invalid(
                            cat3("duplicate expression '", exprs[i].text.as_str(), "' in GROUP BY"),
                        ),
                    );
                }
                proof {
                    lemma_views_push(out@, b);
                }
                out.push(b);
                i = i + 1;
            }
        },
    }
    Ok(out)
}

fn bind_group(cx: Env<'_>, sc: &Scope<'_>, st: &mut BindState, s: &Select) -> (r: Result<
    Vec<Expr>,
    HtapError,
>)
    ensures
        agrees_list(r, final(st)@, group_of(cx, sc@, old(st)@, *s)),
    decreases s, 2int, 0int,
{
    match &s.group_by {
        GroupBy::All => Err(unsupported(owned("GROUP BY ALL is not supported"))),
        GroupBy::Expressions { modifiers, .. } => {
            if *modifiers {
                return Err(unsupported(owned("GROUP BY modifiers not supported")));
            }
            bind_group_items(cx, sc, st, s)
        },
    }
}

fn items_of_star(visible: &Vec<VisibleColumn>, infos: &Vec<SlotInfo>) -> (r: Vec<ProjectionItem>)
    ensures
        views(r@) == star_items(views(visible@), views(infos@)),
{
    let mut out: Vec<ProjectionItem> = Vec::new();
    let mut i: usize = 0;
    while i < visible.len()
        invariant
            i <= visible.len(),
            out.len() == i,
            forall|j: int|
                0 <= j < i ==> (#[trigger] out@[j])@ == (ProjectionView {
                    expr: visible_expr(visible@[j]@, views(infos@)),
                    name: visible_name(visible@[j]@, views(infos@)),
                }),
        decreases visible.len() - i,
    {
        let expr = visible_column_expr(&visible[i], infos);
        let name = visible_column_name(&visible[i], infos);
        out.push(ProjectionItem { expr, name });
        i = i + 1;
    }
    assert(views(out@) =~= star_items(views(visible@), views(infos@)));
    out
}

fn items_of_slot(infos: &Vec<SlotInfo>, slot: usize) -> (r: Vec<ProjectionItem>)
    requires
        slot < infos.len(),
    ensures
        views(r@) == slot_items(views(infos@), slot as int),
{
    let ghost all = views(infos@);
    let mut out: Vec<ProjectionItem> = Vec::new();
    let mut i: usize = 0;
    assert(all[slot as int] == infos@[slot as int]@);
    while i < infos[slot].columns.len()
        invariant
            slot < infos.len(),
            all == views(infos@),
            all[slot as int] == infos@[slot as int]@,
            i <= infos@[slot as int].columns@.len(),
            out.len() == i,
            forall|j: int| 0 <= j < i ==> (#[trigger] out@[j])@ == slot_items(all, slot as int)[j],
        decreases infos@[slot as int].columns@.len() - i,
    {
        let expr = column_ref(infos, slot, i);
        let name = infos[slot].columns[i].name.clone();
        out.push(ProjectionItem { expr, name });
        i = i + 1;
    }
    assert(views(out@) =~= slot_items(all, slot as int));
    out
}

fn slot_of_wildcard(n: &Option<ObjectName>, infos: &Vec<SlotInfo>) -> (r: Result<usize, HtapError>)
    ensures
        match r {
            Ok(i) => i < infos@.len() && wildcard_slot(*n, views(infos@)) == Ok::<int, ErrorView>(
                i as int,
            ),
            Err(x) => wildcard_slot(*n, views(infos@)) == Err::<int, ErrorView>(x@),
        },
{
    match n {
        None => Err(unsupported(owned("expression-qualified wildcard not supported"))),
        Some(name) => {
            let parts = match object_name_parts(name) {
                Ok(p) => p,
                Err(x) => {
                    return Err(x);
                },
            };
            if parts.len() != 1 {
                return Err(unsupported(owned("multi-part qualified wildcard not supported")));
            }
            assert(views(parts@)[0] == parts@[0]@);
            match position_slot(infos, parts[0].as_str()) {
                Some(i) => Ok(i),
                None => Err(invalid(cat3("unknown table or alias '", parts[0].as_str(), "'"))),
            }
        },
    }
}

fn name_of_unnamed(e: &SqlExpr) -> (r: String)
    ensures
        r@ == unnamed_output(*e),
{
    match &e.node {
        SqlNode::Identifier(name) => name.clone(),
        SqlNode::CompoundIdentifier(parts) => if parts.len() > 0 {
            parts[parts.len() - 1].clone()
        } else {
            String::new()
        },
        _ => e.text.clone(),
    }
}

fn one_item(expr: Expr, name: String) -> (r: Vec<ProjectionItem>)
    ensures
        views(r@) == seq![ProjectionView { expr: expr@, name: name@ }],
{
    let mut out: Vec<ProjectionItem> = Vec::new();
    let ghost v = ProjectionView { expr: expr@, name: name@ };
    out.push(ProjectionItem { expr, name });
    assert(views(out@) =~= seq![v]);
    out
}

fn bind_item(
    cx: Env<'_>,
    sc: &Scope<'_>,
    st: &mut BindState,
    item: &SelectItem,
    visible: &Vec<VisibleColumn>,
) -> (r: Result<Vec<ProjectionItem>, HtapError>)
    ensures
        agrees_list(r, final(st)@, item_of(cx, sc@, old(st)@, *item, views(visible@))),
    decreases item, 0int, 0int,
{
    let m = Mode { in_aggregate: false, in_window: false };
    match item {
        SelectItem::Wildcard { modified } => {
            if modified.given() {
                return Err(unsupported(owned("wildcard modifiers not supported")));
            }
            if visible.len() == 0 {
                return Err(invalid(owned("SELECT * requires a FROM clause")));
            }
            Ok(items_of_star(visible, sc.slots))
        },
        SelectItem::QualifiedWildcard(n) => match slot_of_wildcard(n, sc.slots) {
            Err(x) => Err(x),
            Ok(slot) => Ok(items_of_slot(sc.slots, slot)),
        },
        SelectItem::UnnamedExpr(e) => match bind(cx, sc, st, m, e) {
            Err(x) => Err(x),
            Ok(b) => {
                let name = name_of_unnamed(e);
                Ok(one_item(b, name))
            },
        },
        SelectItem::ExprWithAlias { expr, alias } => match bind(cx, sc, st, m, expr) {
            Err(x) => Err(x),
            Ok(b) => Ok(one_item(b, alias.clone())),
        },
        SelectItem::ExprWithAliases => Err(
            unsupported(owned("multiple aliases per expression not supported")),
        ),
    }
}

fn bind_items(
    cx: Env<'_>,
    sc: &Scope<'_>,
    st: &mut BindState,
    items: &Vec<SelectItem>,
    visible: &Vec<VisibleColumn>,
) -> (r: Result<Vec<ProjectionItem>, HtapError>)
    ensures
        agrees_list(
            r,
            final(st)@,
            items_of(cx, sc@, old(st)@, *items, views(visible@), 0, Seq::empty()),
        ),
    decreases items, 0int, 0int,
{
    let ghost v = views(visible@);
    let ghost model = items_of(cx, sc@, st@, *items, v, 0, Seq::empty());
    let mut out: Vec<ProjectionItem> = Vec::new();
    let mut i: usize = 0;
    assert(views(out@) =~= Seq::empty());
    while i < items.len()
        invariant
            i <= items.len(),
            v == views(visible@),
            model == items_of(cx, sc@, old(st)@, *items, v, 0, Seq::empty()),
            model == items_of(cx, sc@, st@, *items, v, i as int, views(out@)),
        decreases items.len() - i,
    {
        let mut more = match bind_item(cx, sc, st, &items[i], visible) {
            Ok(x) => x,
            Err(x) => {
                return Err(x);
            },
        };
        let ghost a = out@;
        let ghost b = more@;
        out.append(&mut more);
        assert(views(out@) =~= views(a) + views(b));
        i = i + 1;
    }
    Ok(out)
}

fn check_select_clauses(
    st: &BindState,
    having: &Option<Expr>,
    projection: &Vec<ProjectionItem>,
    group_by: &Vec<Expr>,
) -> (r: Result<(), HtapError>)
    ensures
        outcome(r) == select_clauses_check(
            st@,
            option_view(*having),
            views(projection@),
            views(group_by@),
        ),
{
    match having {
        Some(h) => {
            if contains_window_through_output(h, projection) {
                return Err(
                    invalid(
                        owned("window function results cannot be referenced in HAVING clause"),
                    ),
                );
            }
        },
        None => {},
    }
    if group_by.len() > 0 || st.aggregates.len() > 0 {
        return check_select_grouped(
            &st.windows,
            &st.aggregates,
            projection,
            having,
            group_by,
            &st.subqueries,
        );
    }
    Ok(())
}

fn make_select(
    fs: FromState,
    tree: Option<JoinTree>,
    filter: Option<Expr>,
    group_by: Vec<Expr>,
    st: &BindState,
    having: Option<Expr>,
    projection: Vec<ProjectionItem>,
    distinct: bool,
) -> (r: SelectBody)
    ensures
        r@ == select_block(
            from_view(fs, st@),
            option_tree(tree),
            option_view(filter),
            views(group_by@),
            st@,
            option_view(having),
            views(projection@),
            distinct,
        ),
{
    let ghost model = select_block(
        from_view(fs, st@),
        option_tree(tree),
        option_view(filter),
        views(group_by@),
        st@,
        option_view(having),
        views(projection@),
        distinct,
    );
    let join_tree = match tree {
        Some(t) => t,
        None => {
            let joins: Vec<JoinSpec> = Vec::new();
            left_deep_join_tree(&joins)
        },
    };
    let none: Vec<Expr> = Vec::new();
    assert(views(none@) =~= Seq::empty());
    assert(view_slots(fs.slots) =~= views(fs.slots@));
    let mut body = SelectBody {
        slots: fs.slots,
        join_tree,
        visible_schemas: fs.schemas,
        filter,
        group_by,
        aggregates: copy_aggregates(&st.aggregates),
        windows: copy_windows(&st.windows),
        having,
        projection,
        distinct,
        correlated_outer_refs: none,
    };
    let ghost bare = body@;
    let refs = select_correlated_outer_refs(&body);
    assert(views(refs@) == select_refs(bare));
    assert(model.correlated_outer_refs == select_refs(bare));
    body.correlated_outer_refs = refs;
    body
}

spec fn select_agrees(
    r: Result<(SelectBody, OrderScope), HtapError>,
    st: StateView,
    model: Result<(SelectView, OrderScopeView, Seq<QueryView>), ErrorView>,
) -> bool {
    match r {
        Ok((s, o)) => model == Ok::<(SelectView, OrderScopeView, Seq<QueryView>), ErrorView>(
            (s@, scope_view(o), st.subqueries),
        ),
        Err(x) => model == Err::<(SelectView, OrderScopeView, Seq<QueryView>), ErrorView>(x@),
    }
}

fn bind_select_clauses(
    cx: Env<'_>,
    ctes: &Vec<CteEntry>,
    outer: &Vec<SlotInfo>,
    immediate: usize,
    s: &Select,
    distinct: bool,
    tree: Option<JoinTree>,
    visible: Vec<VisibleColumn>,
    fs: FromState,
    st: &mut BindState,
) -> (r: Result<(SelectBody, OrderScope), HtapError>)
    requires
        fresh(old(st)@),
    ensures
        select_agrees(
            r,
            final(st)@,
            select_clauses_of(
                cx,
                views(ctes@),
                views(outer@),
                immediate as int,
                *s,
                distinct,
                option_tree(tree),
                views(visible@),
                from_view(fs, old(st)@),
            ),
        ),
    decreases s, 4int, 0int,
{
    let ghost c = views(ctes@);
    let ghost o = views(outer@);
    let ghost v = views(visible@);
    let ghost n = views(fs.infos@);
    let mut sc = Scope::new(&fs.infos, ctes, outer, immediate);
    sc.visible = Some(&visible);
    sc.allow_aggregates = false;
    sc.window_clause = Some("WHERE");
    assert(sc@ == row_scope(n, c, o, immediate as int, v, "WHERE"@));
    let filter = match bind_condition(cx, &sc, st, &s.selection, "WHERE") {
        Ok(f) => f,
        Err(x) => {
            return Err(x);
        },
    };
    let mut sc = Scope::new(&fs.infos, ctes, outer, immediate);
    sc.visible = Some(&visible);
    sc.allow_aggregates = false;
    sc.window_clause = Some("GROUP BY");
    assert(sc@ == row_scope(n, c, o, immediate as int, v, "GROUP BY"@));
    let group_by = match bind_group(cx, &sc, st, s) {
        Ok(g) => g,
        Err(x) => {
            return Err(x);
        },
    };
    let mut sc = Scope::new(&fs.infos, ctes, outer, immediate);
    sc.visible = Some(&visible);
    sc.collect_windows = true;
    assert(sc@ == list_scope(n, c, o, immediate as int, v));
    let projection = match bind_items(cx, &sc, st, &s.projection, &visible) {
        Ok(p) => p,
        Err(x) => {
            return Err(x);
        },
    };
    let output = output_of_projection(&projection);
    let mut sc = Scope::new(&fs.infos, ctes, outer, immediate);
    sc.visible = Some(&visible);
    sc.output = Some(&output);
    sc.window_clause = Some("HAVING");
    assert(sc@ == having_scope(n, c, o, immediate as int, v, views(output@)));
    let having = match bind_condition(cx, &sc, st, &s.having, "HAVING") {
        Ok(h) => h,
        Err(x) => {
            return Err(x);
        },
    };
    match check_select_clauses(st, &having, &projection, &group_by) {
        Err(x) => {
            return Err(x);
        },
        Ok(_) => {},
    }
    let is_aggregate = group_by.len() > 0 || st.aggregates.len() > 0;
    let slots = copy_infos(&fs.infos, 0, fs.infos.len());
    assert(views(fs.infos@).subrange(0, fs.infos@.len() as int) =~= n);
    let scope = OrderScope::Select {
        slots,
        visible,
        is_aggregate,
        aggregates: copy_aggregates(&st.aggregates),
        group_by: copy_exprs(&group_by),
    };
    let body = make_select(fs, tree, filter, group_by, st, having, projection, distinct);
    Ok((body, scope))
}

fn bind_select_body(
    cx: Env<'_>,
    ctes: &Vec<CteEntry>,
    outer: &Vec<SlotInfo>,
    immediate: usize,
    s: &Select,
    st: &mut BindState,
) -> (r: Result<(SelectBody, OrderScope), HtapError>)
    requires
        fresh(old(st)@),
    ensures
        select_agrees(
            r,
            final(st)@,
            select_of(cx, views(ctes@), views(outer@), immediate as int, *s, old(st)@.subqueries),
        ),
    decreases s, 5int, 0int,
{
    let distinct = match check_select(s) {
        Ok(d) => d,
        Err(x) => {
            return Err(x);
        },
    };
    let mut fs = FromState { slots: Vec::new(), infos: Vec::new(), schemas: Vec::new() };
    proof {
        let start = from_view(fs, st@);
        assert(start.slots =~= Seq::empty());
        assert(start.infos =~= Seq::empty());
        assert(start.schemas =~= Seq::empty());
    }
    let (tree, visible) = match bind_from(cx, ctes, outer, &s.from, &mut fs, st) {
        Ok(x) => x,
        Err(x) => {
            return Err(x);
        },
    };
    bind_select_clauses(cx, ctes, outer, immediate, s, distinct, tree, visible, fs, st)
}

/// Binds a general `SELECT` query.
pub fn bind_query(cx: Env<'_>, q: &Query) -> (r: Result<BoundQuery, HtapError>)
    ensures
        outcome(r) == query_of(cx, Seq::empty(), Seq::empty(), 0, *q),
{
    let ctes: Vec<CteEntry> = Vec::new();
    let outer: Vec<SlotInfo> = Vec::new();
    assert(views(ctes@) =~= Seq::empty());
    assert(views(outer@) =~= Seq::empty());
    bind_query_scoped(cx, &ctes, &outer, 0, q)
}

} // verus!
