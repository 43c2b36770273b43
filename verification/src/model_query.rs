//! The model of query binding: what a query is bound to, or why it is refused.

use crate::catalog::{key_check, no_table};
use crate::expr::{type_of, AggregateView, ExprView};
use crate::model_calls::{Bound, Mode};
use crate::model_expr::{bind_of, order_item};
use crate::model_group::{
    bare_query, body_columns, body_refs, branches_check, distinct_order_check, empty_like,
    grouped_check, projection_columns, recursive_query, select_grouped_check, select_refs,
    shows_window, unique_names_check,
};
use crate::names::{
    alias_folds, column_ref_view, first_at, joined_schema, last_cte, name_parts, padded,
    physical_schema, rebased, shared_names, single_name, slot_named, slot_range, sum_held,
    using_from, visible_expr, visible_name, CteEntryView, CteView, InfoView,
};
use crate::query::{
    BodyView, JoinKind, OrderView, ProjectionView, QueryView, SelectView, SetOpKind, SlotView,
    TreeView, VisibleView,
};
use crate::scope::{plain_scope, Env, ScopeView, StateView};
use crate::sql::{
    Cte, Distinct, GroupBy, Join, JoinConstraint, JoinOperator, LimitClause, ObjectName, OrderBy,
    OrderByExpr, Query, Select, SelectItem, SetExpr, SetOperator, SetQuantifier, SqlExpr, SqlNode,
    TableAlias, TableFactor, TableWithJoins, With,
};
use crate::text::{folds_to, nat_text};
use crate::typing::{bool_check, integer_literal, limit_number, ordinal_position};
use crate::value::{
    invalid_view, unsupported_view, views, ColumnView, ErrorView, ValueView,
};
use vstd::prelude::*;

verus! {

/// What an order refers to.
pub enum OrderScopeView {
    /// A select block.
    Select {
        /// Slots.
        slots: Seq<InfoView>,
        /// Visible columns.
        visible: Seq<VisibleView>,
        /// Whether the block aggregates.
        is_aggregate: bool,
        /// Aggregates.
        aggregates: Seq<AggregateView>,
        /// `GROUP BY`.
        group_by: Seq<ExprView>,
    },
    /// Output columns only.
    Output,
}

/// A bound body with what an order refers to and the subqueries, or a refusal.
pub type BoundBody = Result<(BodyView, OrderScopeView, Seq<QueryView>), ErrorView>;

/// The mode outside of aggregates and windows.
pub open spec fn top_mode() -> Mode {
    Mode { in_aggregate: false, in_window: false }
}

/// The kind of a set operation, or its refusal.
pub open spec fn set_kind(op: SetOperator, quantifier: SetQuantifier) -> Result<
    SetOpKind,
    ErrorView,
> {
    match (op, quantifier) {
        (SetOperator::Union, SetQuantifier::All) => Ok(SetOpKind::UnionAll),
        (SetOperator::Union, SetQuantifier::Other(t)) => unsupported_view(
            "UNION "@ + t@ + " not supported"@,
        ),
        (SetOperator::Union, _) => Ok(SetOpKind::UnionDistinct),
        (SetOperator::Except, SetQuantifier::All) => Ok(SetOpKind::ExceptAll),
        (SetOperator::Except, SetQuantifier::Other(t)) => unsupported_view(
            "EXCEPT "@ + t@ + " not supported"@,
        ),
        (SetOperator::Except, _) => Ok(SetOpKind::ExceptDistinct),
        (SetOperator::Intersect, SetQuantifier::All) => Ok(SetOpKind::IntersectAll),
        (SetOperator::Intersect, SetQuantifier::Other(t)) => unsupported_view(
            "INTERSECT "@ + t@ + " not supported"@,
        ),
        (SetOperator::Intersect, _) => Ok(SetOpKind::IntersectDistinct),
        (SetOperator::Other(t), _) => unsupported_view("set operator "@ + t@ + " not supported"@),
    }
}

/// Whether a table factor names a common table expression.
pub open spec fn factor_references(f: TableFactor, name: Seq<char>) -> Result<bool, ErrorView>
    decreases f, 0int,
{
    match f {
        TableFactor::Table { name: n, .. } => match single_name(n) {
            Ok(t) => Ok(folds_to(t, name)),
            Err(x) => Err(x),
        },
        TableFactor::Derived { subquery, .. } => body_references(*subquery.body, name),
        TableFactor::NestedJoin { tables, .. } => tables_reference(*tables, name),
        TableFactor::Other => Ok(false),
    }
}

/// Whether a join from the `i`-th on names a common table expression.
pub open spec fn joins_reference(joins: Vec<Join>, name: Seq<char>, i: int) -> Result<
    bool,
    ErrorView,
>
    decreases joins, joins@.len() - i,
{
    if i < 0 || i >= joins@.len() {
        Ok(false)
    } else {
        match factor_references(joins@[i].relation, name) {
            Err(x) => Err(x),
            Ok(found) => if found {
                Ok(true)
            } else {
                joins_reference(joins, name, i + 1)
            },
        }
    }
}

/// Whether joined tables name a common table expression.
pub open spec fn tables_reference(t: TableWithJoins, name: Seq<char>) -> Result<bool, ErrorView>
    decreases t, 0int,
{
    match factor_references(t.relation, name) {
        Err(x) => Err(x),
        Ok(found) => if found {
            Ok(true)
        } else {
            joins_reference(t.joins, name, 0)
        },
    }
}

/// Whether a FROM clause from the `i`-th item on names a common table expression.
pub open spec fn from_references(from: Vec<TableWithJoins>, name: Seq<char>, i: int) -> Result<
    bool,
    ErrorView,
>
    decreases from, from@.len() - i,
{
    if i < 0 || i >= from@.len() {
        Ok(false)
    } else {
        match tables_reference(from@[i], name) {
            Err(x) => Err(x),
            Ok(found) => if found {
                Ok(true)
            } else {
                from_references(from, name, i + 1)
            },
        }
    }
}

/// Whether a query body names a common table expression in a FROM clause.
pub open spec fn body_references(b: SetExpr, name: Seq<char>) -> Result<bool, ErrorView>
    decreases b, 0int,
{
    match b {
        SetExpr::Select(s) => from_references(s.from, name, 0),
        SetExpr::Query(q) => body_references(*q.body, name),
        SetExpr::SetOperation { left, right, .. } => match body_references(*left, name) {
            Err(x) => Err(x),
            Ok(found) => if found {
                Ok(true)
            } else {
                body_references(*right, name)
            },
        },
        _ => Ok(false),
    }
}

/// Columns with other names.
pub open spec fn renamed(columns: Seq<ColumnView>, names: Seq<String>) -> Seq<ColumnView> {
    Seq::new(columns.len(), |i: int| ColumnView { name: names[i]@, ..columns[i] })
}

/// The columns of a recursive query's working table, or its refusal.
pub open spec fn working_columns(cte: Cte, columns: Seq<ColumnView>) -> Result<
    Seq<ColumnView>,
    ErrorView,
> {
    if cte.columns@.len() == 0 {
        Ok(columns)
    } else if cte.columns@.len() != columns.len() {
        invalid_view(
            "recursive CTE '"@ + cte.shown@ + "' has "@ + nat_text(cte.columns@.len())
                + " column name(s), but its anchor has "@ + nat_text(columns.len())
                + " column(s)"@,
        )
    } else {
        Ok(renamed(columns, cte.columns@))
    }
}

/// Whether a union drops repeated rows, or its refusal.
pub open spec fn union_distinct(q: SetQuantifier) -> Result<bool, ErrorView> {
    match q {
        SetQuantifier::All => Ok(false),
        SetQuantifier::Other(t) => unsupported_view("UNION "@ + t@ + " not supported"@),
        _ => Ok(true),
    }
}

/// Whether a query is free of clauses that are not supported.
pub open spec fn query_check(q: Query) -> Result<(), ErrorView> {
    if q.fetch {
        unsupported_view("FETCH clause not supported in SELECT"@)
    } else if q.locks {
        unsupported_view("locking clauses not supported in SELECT"@)
    } else if q.for_clause {
        unsupported_view("FOR clause not supported in SELECT"@)
    } else if q.settings || q.format {
        unsupported_view("SETTINGS / FORMAT clauses not supported"@)
    } else if q.pipes {
        unsupported_view("pipe operators not supported"@)
    } else {
        Ok(())
    }
}

/// An optional number of a `LIMIT` clause.
pub open spec fn limit_option(e: Option<SqlExpr>, what: Seq<char>) -> Result<
    Option<u64>,
    ErrorView,
> {
    match e {
        None => Ok(None),
        Some(x) => match limit_number(x, what) {
            Ok(n) => Ok(Some(n)),
            Err(x) => Err(x),
        },
    }
}

/// The limit and offset of a query, or their refusal.
pub open spec fn limits(l: Option<LimitClause>) -> Result<(Option<u64>, Option<u64>), ErrorView> {
    match l {
        None => Ok((None, None)),
        Some(LimitClause::LimitOffset { limit, offset, limit_by }) => if limit_by {
            unsupported_view("LIMIT BY not supported"@)
        } else {
            match limit_option(limit, "LIMIT"@) {
                Err(x) => Err(x),
                Ok(l) => match limit_option(offset, "OFFSET"@) {
                    Err(x) => Err(x),
                    Ok(o) => Ok((l, o)),
                },
            }
        },
        Some(LimitClause::OffsetCommaLimit { offset, limit }) => match limit_number(
            limit,
            "LIMIT"@,
        ) {
            Err(x) => Err(x),
            Ok(l) => match limit_number(offset, "OFFSET"@) {
                Err(x) => Err(x),
                Ok(o) => Ok((Some(l), Some(o))),
            },
        },
    }
}

/// The bound form of a query, or its refusal.
pub open spec fn query_of(
    cx: Env<'_>,
    ctes: Seq<CteEntryView>,
    outer: Seq<InfoView>,
    immediate: int,
    q: Query,
) -> Result<QueryView, ErrorView>
    decreases q, 5int, 0int,
{
    match query_check(q) {
        Err(x) => Err(x),
        Ok(_) => match with_of(cx, ctes, outer, immediate, q.with) {
            Err(x) => Err(x),
            Ok(local) => match body_of(cx, local, outer, immediate, *q.body, Seq::empty()) {
                Err(x) => Err(x),
                Ok((body, scope, subqueries)) => match order_of(
                    cx,
                    local,
                    outer,
                    q.order_by,
                    scope,
                    body_columns(body),
                    subqueries,
                ) {
                    Err(x) => Err(x),
                    Ok((order_by, subqueries2)) => match distinct_order_check(body, order_by) {
                        Err(x) => Err(x),
                        Ok(_) => match limits(q.limit) {
                            Err(x) => Err(x),
                            Ok((limit, offset)) => Ok(
                                QueryView {
                                    body,
                                    order_by,
                                    limit,
                                    offset,
                                    subqueries: subqueries2,
                                    correlated: body_refs(body).len() > 0,
                                    correlated_outer_refs: body_refs(body),
                                    output_columns: body_columns(body),
                                },
                            ),
                        },
                    },
                },
            },
        },
    }
}

/// The common table expressions in scope behind a `WITH`, or its refusal.
pub open spec fn with_of(
    cx: Env<'_>,
    ctes: Seq<CteEntryView>,
    outer: Seq<InfoView>,
    immediate: int,
    with: Option<With>,
) -> Result<Seq<CteEntryView>, ErrorView>
    decreases with, 0int, 0int,
{
    match with {
        None => Ok(ctes),
        Some(w) => if w.recursive && w.ctes@.len() != 1 {
            unsupported_view("nested or mutually recursive CTEs not supported"@)
        } else if w.recursive {
            match body_references(*w.ctes@[0].query.body, w.ctes@[0].name@) {
                Err(x) => Err(x),
                Ok(found) => if found {
                    match recursive_cte_of(cx, ctes, outer, immediate, w.ctes@[0]) {
                        Err(x) => Err(x),
                        Ok(q) => Ok(
                            ctes.push(
                                CteEntryView {
                                    name: w.ctes@[0].name@,
                                    binding: CteView::Query(q),
                                },
                            ),
                        ),
                    }
                } else {
                    ctes_of(cx, outer, immediate, w.ctes, 0, ctes)
                },
            }
        } else {
            ctes_of(cx, outer, immediate, w.ctes, 0, ctes)
        },
    }
}

/// The common table expressions from the `i`-th on, behind those of `acc`, or a refusal.
pub open spec fn ctes_of(
    cx: Env<'_>,
    outer: Seq<InfoView>,
    immediate: int,
    list: Vec<Cte>,
    i: int,
    acc: Seq<CteEntryView>,
) -> Result<Seq<CteEntryView>, ErrorView>
    decreases list, 0int, list@.len() - i,
{
    if i < 0 || i >= list@.len() {
        Ok(acc)
    } else if list@[i].from {
        unsupported_view("CTE FROM clause not supported"@)
    } else if list@[i].columns@.len() > 0 {
        unsupported_view("CTE column lists not supported"@)
    } else {
        match query_of(cx, acc, outer, immediate, *list@[i].query) {
            Err(x) => Err(x),
            Ok(q) => match unique_names_check(q.output_columns, list@[i].name@, 0) {
                Err(x) => Err(x),
                Ok(_) => ctes_of(
                    cx,
                    outer,
                    immediate,
                    list,
                    i + 1,
                    acc.push(
                        CteEntryView { name: list@[i].name@, binding: CteView::Query(q) },
                    ),
                ),
            },
        }
    }
}

/// The query that a recursive common table expression stands for, or its refusal.
pub open spec fn recursive_cte_of(
    cx: Env<'_>,
    ctes: Seq<CteEntryView>,
    outer: Seq<InfoView>,
    immediate: int,
    cte: Cte,
) -> Result<QueryView, ErrorView>
    decreases cte, 0int, 0int,
{
    if cte.from {
        unsupported_view("CTE FROM clause not supported"@)
    } else {
        match *cte.query.body {
            SetExpr::SetOperation { op: SetOperator::Union, quantifier, left, right } => {
                match union_distinct(quantifier) {
                    Err(x) => Err(x),
                    Ok(distinct) => match branch_of(cx, ctes, outer, immediate, *left) {
                        Err(x) => Err(x),
                        Ok(anchor) => match working_columns(cte, anchor.output_columns) {
                            Err(x) => Err(x),
                            Ok(columns) => match branch_of(
                                cx,
                                ctes.push(
                                    CteEntryView {
                                        name: cte.name@,
                                        binding: CteView::Working(columns),
                                    },
                                ),
                                outer,
                                immediate,
                                *right,
                            ) {
                                Err(x) => Err(x),
                                Ok(term) => recursive_query(anchor, term, columns, distinct),
                            },
                        },
                    },
                }
            },
            _ => invalid_view("recursive CTE body must be a UNION or UNION ALL"@),
        }
    }
}

/// The bound form of a query body, or its refusal.
pub open spec fn body_of(
    cx: Env<'_>,
    ctes: Seq<CteEntryView>,
    outer: Seq<InfoView>,
    immediate: int,
    b: SetExpr,
    subqueries: Seq<QueryView>,
) -> BoundBody
    decreases b, 1int, 0int,
{
    match b {
        SetExpr::Select(s) => match select_of(cx, ctes, outer, immediate, *s, subqueries) {
            Err(x) => Err(x),
            Ok((sel, scope, subqueries2)) => Ok((BodyView::Select(sel), scope, subqueries2)),
        },
        SetExpr::Query(inner) => match query_of(cx, ctes, outer, immediate, *inner) {
            Err(x) => Err(x),
            Ok(q) => Ok(
                (
                    BodyView::SetOp {
                        kind: SetOpKind::UnionAll,
                        left: Box::new(q),
                        right: Box::new(empty_like(q)),
                    },
                    OrderScopeView::Output,
                    subqueries,
                ),
            ),
        },
        SetExpr::SetOperation { op, quantifier, left, right } => match set_kind(op, quantifier) {
            Err(x) => Err(x),
            Ok(kind) => match branch_of(cx, ctes, outer, immediate, *left) {
                Err(x) => Err(x),
                Ok(l) => match branch_of(cx, ctes, outer, immediate, *right) {
                    Err(x) => Err(x),
                    Ok(r) => match branches_check(l, r) {
                        Err(x) => Err(x),
                        Ok(_) => Ok(
                            (
                                BodyView::SetOp { kind, left: Box::new(l), right: Box::new(r) },
                                OrderScopeView::Output,
                                subqueries,
                            ),
                        ),
                    },
                },
            },
        },
        SetExpr::Values(_) => unsupported_view("VALUES as a query body not supported"@),
        SetExpr::Other => unsupported_view("unsupported query body in SELECT"@),
    }
}

/// The bound form of a branch of a set operation, or its refusal.
pub open spec fn branch_of(
    cx: Env<'_>,
    ctes: Seq<CteEntryView>,
    outer: Seq<InfoView>,
    immediate: int,
    b: SetExpr,
) -> Result<QueryView, ErrorView>
    decreases b, 2int, 0int,
{
    match b {
        SetExpr::Query(inner) => query_of(cx, ctes, outer, immediate, *inner),
        _ => match body_of(cx, ctes, outer, immediate, b, Seq::empty()) {
            Err(x) => Err(x),
            Ok((body, _, subqueries)) => Ok(bare_query(body, subqueries)),
        },
    }
}

/// The scope of an order key.
pub open spec fn order_scope(
    ctes: Seq<CteEntryView>,
    outer: Seq<InfoView>,
    scope: OrderScopeView,
    output: Seq<ColumnView>,
) -> ScopeView {
    match scope {
        OrderScopeView::Output => ScopeView {
            output: Some(output),
            alias_priority: true,
            output_only: true,
            ..plain_scope(Seq::empty(), ctes, outer, 0)
        },
        OrderScopeView::Select { slots, visible, .. } => ScopeView {
            visible: Some(visible),
            output: Some(output),
            alias_priority: true,
            ..plain_scope(slots, ctes, outer, 0)
        },
    }
}

/// The aggregates that an order key can refer to.
pub open spec fn order_aggregates(scope: OrderScopeView) -> Seq<AggregateView> {
    match scope {
        OrderScopeView::Output => Seq::empty(),
        OrderScopeView::Select { aggregates, .. } => aggregates,
    }
}

/// Whether a bound order key may be used in its scope.
pub open spec fn order_key_check(scope: OrderScopeView, key: ExprView, after: StateView) -> Result<
    (),
    ErrorView,
> {
    match scope {
        OrderScopeView::Output => Ok(()),
        OrderScopeView::Select { is_aggregate, aggregates, group_by, .. } => {
            if after.aggregates.len() != aggregates.len() {
                invalid_view("ORDER BY aggregate expressions must also appear in the select list"@)
            } else if is_aggregate {
                grouped_check(key, group_by, "ORDER BY"@, after.subqueries, true)
            } else {
                Ok(())
            }
        },
    }
}

/// The output column that an ordinal in `ORDER BY` names, or its refusal.
pub open spec fn ordinal_key(digits: Seq<char>, output: Seq<ColumnView>) -> Result<
    ExprView,
    ErrorView,
> {
    match ordinal_position(digits, output.len() as int) {
        Some(k) => Ok(
            ExprView::OutputColumn {
                index: k as usize,
                data_type: output[k].data_type,
                nullable: output[k].nullable,
            },
        ),
        None => invalid_view("ORDER BY position "@ + digits + " is not in select list"@),
    }
}

/// The bound key of an order item with the subqueries after it, or a refusal.
pub open spec fn order_key_of(
    cx: Env<'_>,
    ctes: Seq<CteEntryView>,
    outer: Seq<InfoView>,
    e: SqlExpr,
    scope: OrderScopeView,
    output: Seq<ColumnView>,
    subqueries: Seq<QueryView>,
) -> Result<(ExprView, Seq<QueryView>), ErrorView>
    decreases e, 6int, 0int,
{
    match integer_literal(e) {
        Some(d) => match ordinal_key(d, output) {
            Err(x) => Err(x),
            Ok(k) => Ok((k, subqueries)),
        },
        None => match bind_of(
            cx,
            order_scope(ctes, outer, scope, output),
            StateView { aggregates: order_aggregates(scope), subqueries, windows: Seq::empty() },
            top_mode(),
            e,
        ) {
            Err(x) => Err(x),
            Ok((b, st)) => match order_key_check(scope, b, st) {
                Err(x) => Err(x),
                Ok(_) => Ok((b, st.subqueries)),
            },
        },
    }
}

/// The bound order keys from the `i`-th on, behind those of `acc`, or a refusal.
pub open spec fn order_items_of(
    cx: Env<'_>,
    ctes: Seq<CteEntryView>,
    outer: Seq<InfoView>,
    list: Vec<OrderByExpr>,
    scope: OrderScopeView,
    output: Seq<ColumnView>,
    i: int,
    acc: Seq<OrderView>,
    subqueries: Seq<QueryView>,
) -> Result<(Seq<OrderView>, Seq<QueryView>), ErrorView>
    decreases list, 0int, list@.len() - i,
{
    if i < 0 || i >= list@.len() {
        Ok((acc, subqueries))
    } else if list@[i].with_fill {
        unsupported_view("WITH FILL not supported in ORDER BY"@)
    } else {
        match order_key_of(cx, ctes, outer, list@[i].expr, scope, output, subqueries) {
            Err(x) => Err(x),
            Ok((b, subqueries2)) => order_items_of(
                cx,
                ctes,
                outer,
                list,
                scope,
                output,
                i + 1,
                acc.push(order_item(list@[i], b)),
                subqueries2,
            ),
        }
    }
}

/// The bound order of a query, or its refusal.
pub open spec fn order_of(
    cx: Env<'_>,
    ctes: Seq<CteEntryView>,
    outer: Seq<InfoView>,
    order_by: Option<OrderBy>,
    scope: OrderScopeView,
    output: Seq<ColumnView>,
    subqueries: Seq<QueryView>,
) -> Result<(Seq<OrderView>, Seq<QueryView>), ErrorView>
    decreases order_by, 0int, 0int,
{
    match order_by {
        None => Ok((Seq::empty(), subqueries)),
        Some(o) => if o.interpolate {
            unsupported_view("INTERPOLATE not supported in ORDER BY"@)
        } else if o.all {
            unsupported_view("ORDER BY ALL not supported"@)
        } else {
            order_items_of(cx, ctes, outer, o.exprs, scope, output, 0, Seq::empty(), subqueries)
        },
    }
}

/// What binding a FROM clause collects.
pub struct FromView {
    /// Inputs.
    pub slots: Seq<SlotView>,
    /// What names see of them.
    pub infos: Seq<InfoView>,
    /// Subqueries of join conditions.
    pub subqueries: Seq<QueryView>,
    /// Visible columns of each leaf and join.
    pub schemas: Seq<Seq<VisibleView>>,
}

/// The tree and visible columns of a FROM item with what was collected, or a refusal.
pub type BoundTree = Result<(TreeView, Seq<VisibleView>, FromView), ErrorView>;

/// The number of columns of the first `n` slots.
pub open spec fn total_width(infos: Seq<InfoView>, n: int) -> usize
    decreases n,
{
    if n <= 0 || n > infos.len() {
        0
    } else {
        sum_held(total_width(infos, n - 1), infos[n - 1].columns.len() as usize)
    }
}

/// A slot added to a FROM clause, or its refusal where its name is taken.
pub open spec fn slot_added(slot: SlotView, fs: FromView) -> BoundTree {
    if first_at(fs.infos, alias_folds(slot.alias()), 0) is Some {
        invalid_view("not unique table/alias: '"@ + slot.alias() + "'"@)
    } else {
        let index = fs.slots.len() as usize;
        let visible = physical_schema(index, slot.columns().len());
        Ok(
            (
                TreeView::Leaf(index),
                visible,
                FromView {
                    slots: fs.slots.push(slot),
                    infos: fs.infos.push(
                        InfoView {
                            alias: slot.alias(),
                            columns: slot.columns(),
                            offset: total_width(fs.infos, fs.infos.len() as int),
                        },
                    ),
                    subqueries: fs.subqueries,
                    schemas: fs.schemas.push(visible),
                },
            ),
        )
    }
}

/// The name of a relation in a query.
pub open spec fn alias_name(alias: Option<TableAlias>, table: Seq<char>) -> Seq<char> {
    match alias {
        Some(a) => a.name@,
        None => table,
    }
}

/// Whether a relation's alias lists columns.
pub open spec fn alias_has_columns(alias: Option<TableAlias>) -> bool {
    match alias {
        Some(a) => a.columns,
        None => false,
    }
}

/// The slot of a table or a common table expression, or its refusal.
pub open spec fn table_slot(
    cx: Env<'_>,
    ctes: Seq<CteEntryView>,
    name: ObjectName,
    alias: Option<TableAlias>,
    options: bool,
) -> Result<SlotView, ErrorView> {
    if options {
        unsupported_view("unsupported table factor options in SELECT"@)
    } else if alias_has_columns(alias) {
        unsupported_view("table alias column lists not supported"@)
    } else {
        match single_name(name) {
            Err(x) => Err(x),
            Ok(table) => match last_cte(ctes, table, ctes.len() as int) {
                Some(CteView::Query(q)) => Ok(
                    SlotView::Derived {
                        query: Box::new(q),
                        alias: alias_name(alias, table),
                        columns: q.output_columns,
                    },
                ),
                Some(CteView::Working(columns)) => Ok(
                    SlotView::WorkingTableSlot { alias: alias_name(alias, table), columns },
                ),
                None => match cx.catalog.table(table) {
                    None => Err(no_table(table)),
                    Some(t) => match key_check(t) {
                        Err(x) => Err(x),
                        Ok(_) => Ok(
                            SlotView::Base {
                                table,
                                alias: alias_name(alias, table),
                                columns: views(t.schema.columns@),
                            },
                        ),
                    },
                },
            },
        }
    }
}

/// The slot of a relation, or its refusal.
pub open spec fn leaf_of(
    cx: Env<'_>,
    ctes: Seq<CteEntryView>,
    outer: Seq<InfoView>,
    f: TableFactor,
) -> Result<SlotView, ErrorView>
    decreases f, 0int, 0int,
{
    match f {
        TableFactor::Table { name, alias, options, extras } => table_slot(
            cx,
            ctes,
            name,
            alias,
            options.given() || extras.given(),
        ),
        TableFactor::Derived { lateral, subquery, alias, sample } => if lateral {
            unsupported_view("LATERAL derived tables not supported"@)
        } else if sample {
            unsupported_view("TABLESAMPLE not supported"@)
        } else {
            match alias {
                None => invalid_view("every derived table must have its own alias"@),
                Some(a) => if a.columns {
                    unsupported_view("derived table column lists not supported"@)
                } else {
                    match query_of(cx, ctes, outer, 0, *subquery) {
                        Err(x) => Err(x),
                        Ok(q) => match unique_names_check(q.output_columns, a.name@, 0) {
                            Err(x) => Err(x),
                            Ok(_) => Ok(
                                SlotView::Derived {
                                    query: Box::new(q),
                                    alias: a.name@,
                                    columns: q.output_columns,
                                },
                            ),
                        },
                    }
                },
            }
        },
        _ => unsupported_view("unsupported table relation in SELECT"@),
    }
}

/// The tree of a relation, or its refusal.
pub open spec fn factor_of(
    cx: Env<'_>,
    ctes: Seq<CteEntryView>,
    outer: Seq<InfoView>,
    f: TableFactor,
    fs: FromView,
) -> BoundTree
    decreases f, 1int, 0int,
{
    match f {
        TableFactor::NestedJoin { tables, alias } => if alias {
            unsupported_view("aliases on nested join expressions not supported"@)
        } else {
            tables_of(cx, ctes, outer, *tables, fs)
        },
        _ => match leaf_of(cx, ctes, outer, f) {
            Err(x) => Err(x),
            Ok(slot) => slot_added(slot, fs),
        },
    }
}

/// The kind of a join, or the refusal of one that is not supported.
pub open spec fn join_kind(op: JoinOperator) -> Result<JoinKind, ErrorView> {
    match op {
        JoinOperator::Inner(_) => Ok(JoinKind::Inner),
        JoinOperator::Left(_) => Ok(JoinKind::Left),
        JoinOperator::Right(_) => Ok(JoinKind::Right),
        JoinOperator::Full(_) => Ok(JoinKind::Full),
        JoinOperator::Cross(_) => Ok(JoinKind::Cross),
        JoinOperator::Semi => unsupported_view("join type not supported: SEMI JOIN"@),
        JoinOperator::Anti => unsupported_view("join type not supported: ANTI JOIN"@),
        JoinOperator::Apply => unsupported_view("join type not supported: APPLY"@),
        JoinOperator::AsOf => unsupported_view("join type not supported: ASOF JOIN"@),
        JoinOperator::Other => unsupported_view("join type not supported: unknown join"@),
    }
}

/// The slots that a join condition sees.
pub open spec fn join_slots(infos: Seq<InfoView>, first: usize, last: usize) -> Seq<InfoView> {
    if first <= last && last < infos.len() {
        infos.subrange(first as int, last + 1)
    } else {
        Seq::empty()
    }
}

/// The names that `USING` lists from the `i`-th on, behind those of `acc`, or a refusal.
pub open spec fn using_names(list: Seq<ObjectName>, i: int, acc: Seq<Seq<char>>) -> Result<
    Seq<Seq<char>>,
    ErrorView,
>
    decreases list.len() - i,
{
    if i < 0 || i >= list.len() {
        Ok(acc)
    } else {
        match single_name(list[i]) {
            Err(x) => Err(x),
            Ok(n) => using_names(list, i + 1, acc.push(n)),
        }
    }
}

/// A join's kind and condition, the names it merges, and the subqueries of its condition.
pub struct PartsView {
    /// Kind.
    pub kind: JoinKind,
    /// Condition.
    pub on: Option<ExprView>,
    /// Merged names.
    pub names: Option<Seq<Seq<char>>>,
    /// Subqueries.
    pub subqueries: Seq<QueryView>,
}

/// A join condition written with `USING`, or its refusal.
pub open spec fn using_parts(
    kind: JoinKind,
    columns: Seq<ObjectName>,
    l: Seq<VisibleView>,
    r: Seq<VisibleView>,
    fs: FromView,
) -> Result<PartsView, ErrorView> {
    if kind == JoinKind::Cross {
        invalid_view("CROSS JOIN cannot have a USING clause"@)
    } else {
        match using_names(columns, 0, Seq::empty()) {
            Err(x) => Err(x),
            Ok(names) => if names.len() == 0 {
                invalid_view("JOIN USING requires at least one column"@)
            } else {
                match using_from(l, r, names, fs.infos, 0, None) {
                    Err(x) => Err(x),
                    Ok(on) => Ok(
                        PartsView { kind, on, names: Some(names), subqueries: fs.subqueries },
                    ),
                }
            },
        }
    }
}

/// The condition of a `NATURAL` join, or its refusal.
pub open spec fn natural_parts(
    kind: JoinKind,
    l: Seq<VisibleView>,
    r: Seq<VisibleView>,
    fs: FromView,
) -> Result<PartsView, ErrorView> {
    if kind == JoinKind::Cross {
        invalid_view("NATURAL CROSS JOIN is not supported"@)
    } else {
        let names = shared_names(l, r, fs.infos, 0, Seq::empty());
        if names.len() == 0 {
            Ok(
                PartsView {
                    kind: if kind == JoinKind::Inner {
                        JoinKind::Cross
                    } else {
                        kind
                    },
                    on: if kind == JoinKind::Inner {
                        None
                    } else {
                        Some(ExprView::Literal(ValueView::Bool(true)))
                    },
                    names: None,
                    subqueries: fs.subqueries,
                },
            )
        } else {
            match using_from(l, r, names, fs.infos, 0, None) {
                Err(x) => Err(x),
                Ok(on) => Ok(
                    PartsView { kind, on, names: Some(names), subqueries: fs.subqueries },
                ),
            }
        }
    }
}

/// The scope of a join condition.
pub open spec fn on_scope(
    ctes: Seq<CteEntryView>,
    outer: Seq<InfoView>,
    infos: Seq<InfoView>,
    first: usize,
    last: usize,
) -> ScopeView {
    ScopeView {
        allow_aggregates: false,
        window_clause: Some("JOIN ON"@),
        ..plain_scope(join_slots(infos, first, last), ctes, outer, 0)
    }
}

/// The bound condition of a join, or its refusal.
pub open spec fn constraint_of(
    cx: Env<'_>,
    ctes: Seq<CteEntryView>,
    outer: Seq<InfoView>,
    kind: JoinKind,
    c: JoinConstraint,
    first: usize,
    last: usize,
    l: Seq<VisibleView>,
    r: Seq<VisibleView>,
    fs: FromView,
) -> Result<PartsView, ErrorView>
    decreases c, 0int, 0int,
{
    match c {
        JoinConstraint::On(e) => match bind_of(
            cx,
            on_scope(ctes, outer, fs.infos, first, last),
            StateView {
                aggregates: Seq::empty(),
                subqueries: fs.subqueries,
                windows: Seq::empty(),
            },
            top_mode(),
            e,
        ) {
            Err(x) => Err(x),
            Ok((b, st)) => match bool_check(type_of(b), "JOIN ON"@) {
                Err(x) => Err(x),
                Ok(_) => match rebased(b, 0, first) {
                    Err(x) => Err(x),
                    Ok(on) => Ok(
                        PartsView { kind, on: Some(on), names: None, subqueries: st.subqueries },
                    ),
                },
            },
        },
        JoinConstraint::Unspecified => if kind == JoinKind::Inner || kind == JoinKind::Cross {
            Ok(
                PartsView {
                    kind: JoinKind::Cross,
                    on: None,
                    names: None,
                    subqueries: fs.subqueries,
                },
            )
        } else {
            invalid_view("outer joins require an ON condition"@)
        },
        JoinConstraint::Using(columns) => using_parts(kind, columns@, l, r, fs),
        JoinConstraint::Natural => natural_parts(kind, l, r, fs),
    }
}

/// The bound condition of a join operator, or its refusal.
pub open spec fn operator_parts_of(
    cx: Env<'_>,
    ctes: Seq<CteEntryView>,
    outer: Seq<InfoView>,
    kind: JoinKind,
    op: JoinOperator,
    first: usize,
    last: usize,
    l: Seq<VisibleView>,
    r: Seq<VisibleView>,
    fs: FromView,
) -> Result<PartsView, ErrorView>
    decreases op, 0int, 0int,
{
    match op {
        JoinOperator::Inner(c) => constraint_of(cx, ctes, outer, kind, c, first, last, l, r, fs),
        JoinOperator::Left(c) => constraint_of(cx, ctes, outer, kind, c, first, last, l, r, fs),
        JoinOperator::Right(c) => constraint_of(cx, ctes, outer, kind, c, first, last, l, r, fs),
        JoinOperator::Full(c) => constraint_of(cx, ctes, outer, kind, c, first, last, l, r, fs),
        JoinOperator::Cross(c) => constraint_of(cx, ctes, outer, kind, c, first, last, l, r, fs),
        _ => arbitrary(),
    }
}

/// Slots after a join: those of padded sides become nullable.
pub open spec fn after_join(
    infos: Seq<InfoView>,
    kind: JoinKind,
    l: (usize, usize),
    r: (usize, usize),
) -> Seq<InfoView> {
    match kind {
        JoinKind::Left => padded(infos, r.0 as int, r.1 as int),
        JoinKind::Right => padded(infos, l.0 as int, l.1 as int),
        JoinKind::Full => padded(
            padded(infos, l.0 as int, l.1 as int),
            r.0 as int,
            r.1 as int,
        ),
        _ => infos,
    }
}

/// The offset of a slot's first column.
pub open spec fn offset_at(infos: Seq<InfoView>, slot: usize) -> usize {
    if slot < infos.len() {
        infos[slot as int].offset
    } else {
        0
    }
}

/// The visible columns of a join, or their refusal.
pub open spec fn joined_visible(
    parts: PartsView,
    l: Seq<VisibleView>,
    r: Seq<VisibleView>,
    infos: Seq<InfoView>,
    before: Seq<InfoView>,
) -> Result<Seq<VisibleView>, ErrorView> {
    match parts.names {
        Some(names) => joined_schema(l, r, names, infos, before, parts.kind),
        None => Ok(l + r),
    }
}

/// The condition of a join over the columns of its subtree, or its refusal.
pub open spec fn joined_condition(on: Option<ExprView>, base: usize) -> Result<
    Option<ExprView>,
    ErrorView,
> {
    match on {
        None => Ok(None),
        Some(e) => match rebased(e, base, 0) {
            Err(x) => Err(x),
            Ok(x) => Ok(Some(x)),
        },
    }
}

/// A join of two bound inputs, or its refusal.
pub open spec fn joined(
    parts: PartsView,
    tree: TreeView,
    right: TreeView,
    l: Seq<VisibleView>,
    r: Seq<VisibleView>,
    fs: FromView,
) -> BoundTree {
    if parts.kind == JoinKind::Cross && parts.on is Some {
        invalid_view("CROSS JOIN cannot have an ON condition"@)
    } else {
        let infos = after_join(fs.infos, parts.kind, slot_range(tree), slot_range(right));
        match joined_visible(parts, l, r, infos, fs.infos) {
            Err(x) => Err(x),
            Ok(v) => match joined_condition(parts.on, offset_at(infos, slot_range(tree).0)) {
                Err(x) => Err(x),
                Ok(on) => Ok(
                    (
                        TreeView::Join {
                            kind: parts.kind,
                            left: Box::new(tree),
                            right: Box::new(right),
                            on,
                        },
                        v,
                        FromView {
                            slots: fs.slots,
                            infos,
                            subqueries: parts.subqueries,
                            schemas: fs.schemas.push(v),
                        },
                    ),
                ),
            },
        }
    }
}

/// A join of what stands before it with its right input, or its refusal.
pub open spec fn join_of(
    cx: Env<'_>,
    ctes: Seq<CteEntryView>,
    outer: Seq<InfoView>,
    j: Join,
    tree: TreeView,
    visible: Seq<VisibleView>,
    fs: FromView,
) -> BoundTree
    decreases j, 0int, 0int,
{
    if j.global {
        unsupported_view("GLOBAL joins not supported"@)
    } else {
        match join_kind(j.operator) {
            Err(x) => Err(x),
            Ok(kind) => match factor_of(cx, ctes, outer, j.relation, fs) {
                Err(x) => Err(x),
                Ok((right, rv, fs2)) => match operator_parts_of(
                    cx,
                    ctes,
                    outer,
                    kind,
                    j.operator,
                    slot_range(tree).0,
                    slot_range(right).1,
                    visible,
                    rv,
                    fs2,
                ) {
                    Err(x) => Err(x),
                    Ok(parts) => joined(parts, tree, right, visible, rv, fs2),
                },
            },
        }
    }
}

/// The tree of the joins from the `i`-th on over what stands before them, or a refusal.
pub open spec fn joins_of(
    cx: Env<'_>,
    ctes: Seq<CteEntryView>,
    outer: Seq<InfoView>,
    joins: Vec<Join>,
    i: int,
    tree: TreeView,
    visible: Seq<VisibleView>,
    fs: FromView,
) -> BoundTree
    decreases joins, 0int, joins@.len() - i,
{
    if i < 0 || i >= joins@.len() {
        Ok((tree, visible, fs))
    } else {
        match join_of(cx, ctes, outer, joins@[i], tree, visible, fs) {
            Err(x) => Err(x),
            Ok((tree2, visible2, fs2)) => joins_of(
                cx,
                ctes,
                outer,
                joins,
                i + 1,
                tree2,
                visible2,
                fs2,
            ),
        }
    }
}

/// The tree of a FROM item, or its refusal.
pub open spec fn tables_of(
    cx: Env<'_>,
    ctes: Seq<CteEntryView>,
    outer: Seq<InfoView>,
    t: TableWithJoins,
    fs: FromView,
) -> BoundTree
    decreases t, 0int, 0int,
{
    match factor_of(cx, ctes, outer, t.relation, fs) {
        Err(x) => Err(x),
        Ok((tree, visible, fs2)) => joins_of(cx, ctes, outer, t.joins, 0, tree, visible, fs2),
    }
}

/// A FROM item crossed with what stands before it.
pub open spec fn crossed(
    tree: Option<TreeView>,
    visible: Seq<VisibleView>,
    t: TreeView,
    v: Seq<VisibleView>,
    fs: FromView,
) -> (TreeView, Seq<VisibleView>, FromView) {
    match tree {
        None => (t, v, fs),
        Some(left) => (
            TreeView::Join {
                kind: JoinKind::Cross,
                left: Box::new(left),
                right: Box::new(t),
                on: None,
            },
            visible + v,
            FromView { schemas: fs.schemas.push(visible + v), ..fs },
        ),
    }
}

/// The tree of the FROM items from the `i`-th on, crossed with what stands before them.
pub open spec fn from_of(
    cx: Env<'_>,
    ctes: Seq<CteEntryView>,
    outer: Seq<InfoView>,
    from: Vec<TableWithJoins>,
    i: int,
    tree: Option<TreeView>,
    visible: Seq<VisibleView>,
    fs: FromView,
) -> Result<(Option<TreeView>, Seq<VisibleView>, FromView), ErrorView>
    decreases from, 0int, from@.len() - i,
{
    if i < 0 || i >= from@.len() {
        Ok((tree, visible, fs))
    } else {
        match tables_of(cx, ctes, outer, from@[i], fs) {
            Err(x) => Err(x),
            Ok((t, v, fs2)) => {
                let (t3, v3, fs3) = crossed(tree, visible, t, v, fs2);
                from_of(cx, ctes, outer, from, i + 1, Some(t3), v3, fs3)
            },
        }
    }
}

/// Whether a select block is free of clauses that are not supported, and whether it is distinct.
pub open spec fn select_check(s: Select) -> Result<bool, ErrorView> {
    if s.top {
        unsupported_view("TOP not supported in SELECT"@)
    } else if s.into {
        unsupported_view("INTO not supported in SELECT"@)
    } else if s.lateral_views {
        unsupported_view("LATERAL VIEW not supported in SELECT"@)
    } else if s.prewhere {
        unsupported_view("PREWHERE not supported in SELECT"@)
    } else if s.named_window {
        unsupported_view("WINDOW clauses not supported in SELECT"@)
    } else if s.qualify {
        unsupported_view("QUALIFY not supported in SELECT"@)
    } else if s.sort_clauses.given() {
        unsupported_view("CLUSTER BY / DISTRIBUTE BY / SORT BY not supported"@)
    } else if s.connect_by {
        unsupported_view("CONNECT BY not supported"@)
    } else if s.modifiers.given() {
        unsupported_view("SELECT modifiers not supported"@)
    } else if s.distinct is Some && s.distinct->0 is On {
        unsupported_view("DISTINCT ON not supported"@)
    } else if s.projection@.len() == 0 {
        invalid_view("SELECT projection cannot be empty"@)
    } else {
        Ok(s.distinct is Some && s.distinct->0 is Distinct)
    }
}

/// The scope of a clause that forbids aggregates and window functions.
pub open spec fn row_scope(
    infos: Seq<InfoView>,
    ctes: Seq<CteEntryView>,
    outer: Seq<InfoView>,
    immediate: int,
    visible: Seq<VisibleView>,
    clause: Seq<char>,
) -> ScopeView {
    ScopeView {
        visible: Some(visible),
        allow_aggregates: false,
        window_clause: Some(clause),
        ..plain_scope(infos, ctes, outer, immediate)
    }
}

/// The scope of the select list.
pub open spec fn list_scope(
    infos: Seq<InfoView>,
    ctes: Seq<CteEntryView>,
    outer: Seq<InfoView>,
    immediate: int,
    visible: Seq<VisibleView>,
) -> ScopeView {
    ScopeView {
        visible: Some(visible),
        collect_windows: true,
        ..plain_scope(infos, ctes, outer, immediate)
    }
}

/// The scope of `HAVING`.
pub open spec fn having_scope(
    infos: Seq<InfoView>,
    ctes: Seq<CteEntryView>,
    outer: Seq<InfoView>,
    immediate: int,
    visible: Seq<VisibleView>,
    output: Seq<ColumnView>,
) -> ScopeView {
    ScopeView {
        visible: Some(visible),
        output: Some(output),
        window_clause: Some("HAVING"@),
        ..plain_scope(infos, ctes, outer, immediate)
    }
}

/// A bound condition that may be missing, or its refusal.
pub open spec fn condition_of(
    cx: Env<'_>,
    sc: ScopeView,
    st: StateView,
    e: Option<SqlExpr>,
    clause: Seq<char>,
) -> Result<(Option<ExprView>, StateView), ErrorView>
    decreases e, 0int, 0int,
{
    match e {
        None => Ok((None, st)),
        Some(x) => match bind_of(cx, sc, st, top_mode(), x) {
            Err(x) => Err(x),
            Ok((b, st2)) => match bool_check(type_of(b), clause) {
                Err(x) => Err(x),
                Ok(_) => Ok((Some(b), st2)),
            },
        },
    }
}

/// The expression of a select item that an ordinal names, or its refusal.
pub open spec fn item_bound_of(
    cx: Env<'_>,
    sc: ScopeView,
    st: StateView,
    item: SelectItem,
    ordinal: int,
) -> Bound
    decreases item, 0int, 0int,
{
    match item {
        SelectItem::UnnamedExpr(e) => bind_of(cx, sc, st, top_mode(), e),
        SelectItem::ExprWithAlias { expr, .. } => bind_of(cx, sc, st, top_mode(), expr),
        SelectItem::ExprWithAliases => unsupported_view(
            "multiple aliases per expression not supported"@,
        ),
        _ => invalid_view(
            "GROUP BY position "@ + nat_text(ordinal as nat) + " refers to a wildcard"@,
        ),
    }
}

/// The expressions of a `GROUP BY`.
pub open spec fn group_exprs(g: GroupBy) -> Vec<SqlExpr> {
    g->exprs
}

/// The grouping keys from the `i`-th on, behind those of `acc`, or a refusal.
pub open spec fn group_items_of(
    cx: Env<'_>,
    sc: ScopeView,
    st: StateView,
    s: Select,
    i: int,
    acc: Seq<ExprView>,
) -> Result<(Seq<ExprView>, StateView), ErrorView>
    decreases s, 1int, group_exprs(s.group_by)@.len() - i,
{
    match s.group_by {
        GroupBy::All => arbitrary(),
        GroupBy::Expressions { exprs, .. } => if i < 0 || i >= exprs@.len() {
            Ok((acc, st))
        } else {
            let bound = match integer_literal(exprs@[i]) {
                Some(d) => match ordinal_position(d, s.projection@.len() as int) {
                    Some(k) => if 0 <= k < s.projection@.len() {
                        item_bound_of(cx, sc, st, s.projection@[k], k + 1)
                    } else {
                        arbitrary()
                    },
                    None => invalid_view("GROUP BY position "@ + d + " is not in select list"@),
                },
                None => bind_of(cx, sc, st, top_mode(), exprs@[i]),
            };
            match bound {
                Err(x) => Err(x),
                Ok((b, st2)) => if acc.contains(b) {
                    invalid_view("duplicate expression '"@ + exprs@[i].text@ + "' in GROUP BY"@)
                } else {
                    group_items_of(cx, sc, st2, s, i + 1, acc.push(b))
                },
            }
        },
    }
}

/// The grouping keys of a select block, or their refusal.
pub open spec fn group_of(cx: Env<'_>, sc: ScopeView, st: StateView, s: Select) -> Result<
    (Seq<ExprView>, StateView),
    ErrorView,
>
    decreases s, 2int, 0int,
{
    match s.group_by {
        GroupBy::All => unsupported_view("GROUP BY ALL is not supported"@),
        GroupBy::Expressions { exprs, modifiers } => if modifiers {
            unsupported_view("GROUP BY modifiers not supported"@)
        } else {
            group_items_of(cx, sc, st, s, 0, Seq::empty())
        },
    }
}

/// The output columns that `*` stands for.
pub open spec fn star_items(visible: Seq<VisibleView>, infos: Seq<InfoView>) -> Seq<
    ProjectionView,
> {
    Seq::new(
        visible.len(),
        |i: int|
            ProjectionView {
                expr: visible_expr(visible[i], infos),
                name: visible_name(visible[i], infos),
            },
    )
}

/// The output columns that `t.*` stands for.
pub open spec fn slot_items(infos: Seq<InfoView>, slot: int) -> Seq<ProjectionView> {
    Seq::new(
        infos[slot].columns.len(),
        |i: int|
            ProjectionView {
                expr: column_ref_view(infos, slot, i),
                name: infos[slot].columns[i].name,
            },
    )
}

/// The slot that `t.*` names, or its refusal.
pub open spec fn wildcard_slot(n: Option<ObjectName>, infos: Seq<InfoView>) -> Result<
    int,
    ErrorView,
> {
    match n {
        None => unsupported_view("expression-qualified wildcard not supported"@),
        Some(name) => match name_parts(name, 0, Seq::empty()) {
            Err(x) => Err(x),
            Ok(parts) => if parts.len() != 1 {
                unsupported_view("multi-part qualified wildcard not supported"@)
            } else {
                match slot_named(infos, parts[0]) {
                    None => invalid_view("unknown table or alias '"@ + parts[0] + "'"@),
                    Some(i) => Ok(i),
                }
            },
        },
    }
}

/// The name of an output column without an alias.
pub open spec fn unnamed_output(e: SqlExpr) -> Seq<char> {
    match e.node {
        SqlNode::Identifier(name) => name@,
        SqlNode::CompoundIdentifier(parts) => if parts@.len() > 0 {
            parts@[parts@.len() - 1]@
        } else {
            Seq::empty()
        },
        _ => e.text@,
    }
}

/// The output columns of a select item, or its refusal.
pub open spec fn item_of(
    cx: Env<'_>,
    sc: ScopeView,
    st: StateView,
    item: SelectItem,
    visible: Seq<VisibleView>,
) -> Result<(Seq<ProjectionView>, StateView), ErrorView>
    decreases item, 0int, 0int,
{
    match item {
        SelectItem::Wildcard { modified } => if modified.given() {
            unsupported_view("wildcard modifiers not supported"@)
        } else if visible.len() == 0 {
            invalid_view("SELECT * requires a FROM clause"@)
        } else {
            Ok((star_items(visible, sc.slots), st))
        },
        SelectItem::QualifiedWildcard(n) => match wildcard_slot(n, sc.slots) {
            Err(x) => Err(x),
            Ok(slot) => Ok((slot_items(sc.slots, slot), st)),
        },
        SelectItem::UnnamedExpr(e) => match bind_of(cx, sc, st, top_mode(), e) {
            Err(x) => Err(x),
            Ok((b, st2)) => Ok(
                (seq![ProjectionView { expr: b, name: unnamed_output(e) }], st2),
            ),
        },
        SelectItem::ExprWithAlias { expr, alias } => match bind_of(cx, sc, st, top_mode(), expr) {
            Err(x) => Err(x),
            Ok((b, st2)) => Ok((seq![ProjectionView { expr: b, name: alias@ }], st2)),
        },
        SelectItem::ExprWithAliases => unsupported_view(
            "multiple aliases per expression not supported"@,
        ),
    }
}

/// The output columns of the select items from the `i`-th on, behind those of `acc`.
pub open spec fn items_of(
    cx: Env<'_>,
    sc: ScopeView,
    st: StateView,
    items: Vec<SelectItem>,
    visible: Seq<VisibleView>,
    i: int,
    acc: Seq<ProjectionView>,
) -> Result<(Seq<ProjectionView>, StateView), ErrorView>
    decreases items, 0int, items@.len() - i,
{
    if i < 0 || i >= items@.len() {
        Ok((acc, st))
    } else {
        match item_of(cx, sc, st, items@[i], visible) {
            Err(x) => Err(x),
            Ok((more, st2)) => items_of(cx, sc, st2, items, visible, i + 1, acc + more),
        }
    }
}

/// The parts of a select block, and the block with its references.
pub open spec fn select_block(
    fs: FromView,
    tree: Option<TreeView>,
    filter: Option<ExprView>,
    group_by: Seq<ExprView>,
    st: StateView,
    having: Option<ExprView>,
    projection: Seq<ProjectionView>,
    distinct: bool,
) -> SelectView {
    let bare = SelectView {
        slots: fs.slots,
        join_tree: match tree {
            Some(t) => t,
            None => TreeView::Leaf(0),
        },
        visible_schemas: fs.schemas,
        filter,
        group_by,
        aggregates: st.aggregates,
        windows: st.windows,
        having,
        projection,
        distinct,
        correlated_outer_refs: Seq::empty(),
    };
    SelectView { correlated_outer_refs: select_refs(bare), ..bare }
}

/// Whether the bound clauses of a select block fit each other.
pub open spec fn select_clauses_check(
    st: StateView,
    having: Option<ExprView>,
    projection: Seq<ProjectionView>,
    group_by: Seq<ExprView>,
) -> Result<(), ErrorView> {
    if having is Some && shows_window(having->0, projection) {
        invalid_view("window function results cannot be referenced in HAVING clause"@)
    } else if group_by.len() > 0 || st.aggregates.len() > 0 {
        select_grouped_check(
            st.windows,
            st.aggregates,
            projection,
            having,
            group_by,
            st.subqueries,
        )
    } else {
        Ok(())
    }
}

/// The bound form of a select block, or its refusal.
pub open spec fn select_of(
    cx: Env<'_>,
    ctes: Seq<CteEntryView>,
    outer: Seq<InfoView>,
    immediate: int,
    s: Select,
    subqueries: Seq<QueryView>,
) -> Result<(SelectView, OrderScopeView, Seq<QueryView>), ErrorView>
    decreases s, 5int, 0int,
{
    match select_check(s) {
        Err(x) => Err(x),
        Ok(distinct) => match from_of(
            cx,
            ctes,
            outer,
            s.from,
            0,
            None,
            Seq::empty(),
            FromView {
                slots: Seq::empty(),
                infos: Seq::empty(),
                subqueries,
                schemas: Seq::empty(),
            },
        ) {
            Err(x) => Err(x),
            Ok((tree, visible, fs)) => select_clauses_of(
                cx,
                ctes,
                outer,
                immediate,
                s,
                distinct,
                tree,
                visible,
                fs,
            ),
        },
    }
}

/// The bound form of a select block over its bound FROM clause, or its refusal.
pub open spec fn select_clauses_of(
    cx: Env<'_>,
    ctes: Seq<CteEntryView>,
    outer: Seq<InfoView>,
    immediate: int,
    s: Select,
    distinct: bool,
    tree: Option<TreeView>,
    visible: Seq<VisibleView>,
    fs: FromView,
) -> Result<(SelectView, OrderScopeView, Seq<QueryView>), ErrorView>
    decreases s, 4int, 0int,
{
    let st0 = StateView {
        aggregates: Seq::empty(),
        subqueries: fs.subqueries,
        windows: Seq::empty(),
    };
    match condition_of(
        cx,
        row_scope(fs.infos, ctes, outer, immediate, visible, "WHERE"@),
        st0,
        s.selection,
        "WHERE"@,
    ) {
        Err(x) => Err(x),
        Ok((filter, st1)) => match group_of(
            cx,
            row_scope(fs.infos, ctes, outer, immediate, visible, "GROUP BY"@),
            st1,
            s,
        ) {
            Err(x) => Err(x),
            Ok((group_by, st2)) => match items_of(
                cx,
                list_scope(fs.infos, ctes, outer, immediate, visible),
                st2,
                s.projection,
                visible,
                0,
                Seq::empty(),
            ) {
                Err(x) => Err(x),
                Ok((projection, st3)) => match condition_of(
                    cx,
                    having_scope(
                        fs.infos,
                        ctes,
                        outer,
                        immediate,
                        visible,
                        projection_columns(projection),
                    ),
                    st3,
                    s.having,
                    "HAVING"@,
                ) {
                    Err(x) => Err(x),
                    Ok((having, st4)) => match select_clauses_check(
                        st4,
                        having,
                        projection,
                        group_by,
                    ) {
                        Err(x) => Err(x),
                        Ok(_) => Ok(
                            (
                                select_block(
                                    fs,
                                    tree,
                                    filter,
                                    group_by,
                                    st4,
                                    having,
                                    projection,
                                    distinct,
                                ),
                                OrderScopeView::Select {
                                    slots: fs.infos,
                                    visible,
                                    is_aggregate: group_by.len() > 0 || st4.aggregates.len() > 0,
                                    aggregates: st4.aggregates,
                                    group_by,
                                },
                                st4.subqueries,
                            ),
                        ),
                    },
                },
            },
        },
    }
}

} // verus!
