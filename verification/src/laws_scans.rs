//! Laws of scans, insertions and assignments: what is read and written is what is named.

use crate::ast::{AggregateFunction, AnalyticOrderBy, AnalyticView, StatementView};
use crate::binder_dml::{assigned_name, assignments_of, table_scope};
use crate::binder_narrow::{
    analytic_items, analytic_of, analytic_projection, group_columns, order_items, point_items,
    point_projection,
};
use crate::catalog::{first_named, TableDescriptor};
use crate::convert::cast_view;
use crate::eval::{eval_of, ContextView};
use crate::expr::{type_of, ExprView};
use crate::laws_conditions::{is_column, lemma_column_found};
use crate::model_expr::bind_of;
use crate::model_query::top_mode;
use crate::scope::{Env, StateView};
use crate::sql::{
    FunctionArg, FunctionArguments, ObjectNamePart, OrderByExpr, Query, Select, SelectItem,
    SqlExpr, SqlNode,
};
use crate::statement::Assignment;
use crate::text::upper;
use crate::typing::assigned;
use crate::value::{ColumnView, DataType, ErrorView, ValueView};
use vstd::prelude::*;

verus! {

/// Whether an expression of a scan is a column of the table.
pub open spec fn shows_column(x: AnalyticView, t: TableDescriptor, i: int) -> bool {
    &&& 0 <= i < t.schema.columns@.len()
    &&& x == (AnalyticView::Column {
        index: i as usize,
        name: t.schema.columns@[i].name@,
        data_type: t.schema.columns@[i].data_type,
        nullable: t.schema.columns@[i].nullable,
    })
}

/// The keyword of an aggregate of a scan.
pub open spec fn keyword(f: AggregateFunction) -> Seq<char> {
    match f {
        AggregateFunction::CountStar => "COUNT"@,
        AggregateFunction::Count => "COUNT"@,
        AggregateFunction::Sum => "SUM"@,
        AggregateFunction::Min => "MIN"@,
        AggregateFunction::Max => "MAX"@,
    }
}

/// Whether an expression of a scan is the aggregate of a written call: the function of its name, of
/// the named column, or of whole rows where `*` is written. A count is an integer that is never
/// `NULL`, and the least and greatest value have the type of the column.
pub open spec fn shows_aggregate(x: AnalyticView, f: crate::sql::Function, t: TableDescriptor) -> bool {
    x matches AnalyticView::Aggregate { function, column_index, data_type, nullable, .. } && {
        &&& f.name.parts@.len() == 1
        &&& (f.name.parts@[0] matches ObjectNamePart::Identifier(n) && keyword(function) == upper(
            n@,
        ))
        &&& (f.args matches FunctionArguments::List(list) && list.args@.len() == 1 && match (
            list.args@[0],
            column_index,
        ) {
            (FunctionArg::Wildcard, None) => function == AggregateFunction::CountStar,
            (FunctionArg::Expr(e), Some(i)) => function != AggregateFunction::CountStar && (
            e.node matches SqlNode::Identifier(s) && is_column(t, s@, i as int)),
            _ => false,
        })
        &&& (function == AggregateFunction::CountStar || function == AggregateFunction::Count
            ==> data_type == DataType::Int64 && !nullable)
        &&& (function == AggregateFunction::Min || function == AggregateFunction::Max ==> nullable
            && (column_index matches Some(i) && data_type
            == t.schema.columns@[i as int].data_type))
        &&& (function == AggregateFunction::Sum ==> nullable)
    }
}

/// Whether an expression of a scan is the written item.
pub open spec fn shows_item(x: AnalyticView, item: SelectItem, t: TableDescriptor) -> bool {
    match item {
        SelectItem::UnnamedExpr(e) => match e.node {
            SqlNode::Identifier(s) => exists|i: int| #[trigger]
                is_column(t, s@, i) && shows_column(x, t, i),
            SqlNode::Function(f) => shows_aggregate(x, *f, t),
            _ => false,
        },
        _ => false,
    }
}

proof fn lemma_item(item: SelectItem, t: TableDescriptor, table: Seq<char>)
    requires
        crate::binder_narrow::analytic_item(item, t, table) is Ok,
        item is UnnamedExpr,
    ensures
        shows_item(crate::binder_narrow::analytic_item(item, t, table)->Ok_0, item, t),
{
    match item {
        SelectItem::UnnamedExpr(e) => match e.node {
            SqlNode::Identifier(s) => {
                lemma_column_found(t, s@);
                let i = first_named(t.schema.columns@, s@, 0)->0;
                assert(is_column(t, s@, i));
            },
            SqlNode::Function(f) => {
                lemma_aggregate(*f, t, table);
            },
            _ => {},
        },
        _ => {},
    }
}

proof fn lemma_aggregate(f: crate::sql::Function, t: TableDescriptor, table: Seq<char>)
    requires
        crate::binder_narrow::aggregate_of(f, t, table) is Ok,
    ensures
        shows_aggregate(crate::binder_narrow::aggregate_of(f, t, table)->Ok_0, f, t),
{
    match f.args {
        FunctionArguments::List(list) => {
            if list.args@.len() == 1 {
                match list.args@[0] {
                    FunctionArg::Expr(e) => match e.node {
                        SqlNode::Identifier(s) => {
                            lemma_column_found(t, s@);
                        },
                        _ => {},
                    },
                    _ => {},
                }
            }
        },
        _ => {},
    }
}

proof fn lemma_items(
    items: Seq<SelectItem>,
    i: int,
    t: TableDescriptor,
    table: Seq<char>,
    acc: Seq<AnalyticView>,
)
    requires
        0 <= i <= items.len(),
        acc.len() == i,
        analytic_items(items, i, t, table, acc) is Ok,
    ensures
        ({
            let all = analytic_items(items, i, t, table, acc)->Ok_0;
            &&& all.len() == items.len()
            &&& forall|k: int| 0 <= k < i ==> all[k] == acc[k]
            &&& forall|k: int| i <= k < items.len() ==> shows_item(#[trigger] all[k], items[k], t)
        }),
    decreases items.len() - i,
{
    if i < items.len() {
        let x = crate::binder_narrow::analytic_item(items[i], t, table)->Ok_0;
        assert(items[i] is UnnamedExpr);
        lemma_item(items[i], t, table);
        lemma_items(items, i + 1, t, table, acc.push(x));
        assert(acc.push(x)[i] == x);
    }
}

proof fn lemma_groups(exprs: Seq<SqlExpr>, i: int, t: TableDescriptor, acc: Seq<usize>)
    requires
        0 <= i <= exprs.len(),
        acc.len() == i,
        group_columns(exprs, i, t, acc) is Ok,
    ensures
        ({
            let all = group_columns(exprs, i, t, acc)->Ok_0;
            &&& all.len() == exprs.len()
            &&& forall|k: int| 0 <= k < i ==> all[k] == acc[k]
            &&& forall|k: int|
                i <= k < exprs.len() ==> names_column(exprs[k], t, #[trigger] all[k])
        }),
    decreases exprs.len() - i,
{
    if i < exprs.len() {
        let c = crate::binder_narrow::group_column(exprs[i], t, acc)->Ok_0;
        match exprs[i].node {
            SqlNode::Identifier(s) => {
                lemma_column_found(t, s@);
            },
            _ => {},
        }
        lemma_groups(exprs, i + 1, t, acc.push(c));
        assert(acc.push(c)[i] == c);
    }
}

/// Whether an expression is the name of a column.
pub open spec fn names_column(e: SqlExpr, t: TableDescriptor, c: usize) -> bool {
    e.node matches SqlNode::Identifier(s) && is_column(t, s@, c as int)
}

/// Whether an order key of a scan is the written one: by the named column, from the lowest value up
/// unless `DESC` is written, and `NULL` where it is said to come, else as the lowest value.
pub open spec fn scans_in_order(x: AnalyticOrderBy, o: OrderByExpr, t: TableDescriptor) -> bool {
    &&& names_column(o.expr, t, x.column)
    &&& x.asc == (o.asc != Some(false))
    &&& match o.nulls_first {
        Some(first) => x.nulls_first == first,
        None => x.nulls_first == x.asc,
    }
}

proof fn lemma_orders(
    exprs: Seq<OrderByExpr>,
    i: int,
    t: TableDescriptor,
    group_by: Seq<usize>,
    grouped: bool,
    acc: Seq<AnalyticOrderBy>,
)
    requires
        0 <= i <= exprs.len(),
        acc.len() == i,
        order_items(exprs, i, t, group_by, grouped, acc) is Ok,
    ensures
        ({
            let all = order_items(exprs, i, t, group_by, grouped, acc)->Ok_0;
            &&& all.len() == exprs.len()
            &&& forall|k: int| 0 <= k < i ==> all[k] == acc[k]
            &&& forall|k: int| i <= k < exprs.len() ==> scans_in_order(#[trigger] all[k], exprs[k], t)
        }),
    decreases exprs.len() - i,
{
    if i < exprs.len() {
        let x = crate::binder_narrow::order_item(exprs[i], t, group_by, grouped)->Ok_0;
        match exprs[i].expr.node {
            SqlNode::Identifier(s) => {
                lemma_column_found(t, s@);
            },
            _ => {},
        }
        lemma_orders(exprs, i + 1, t, group_by, grouped, acc.push(x));
        assert(acc.push(x)[i] == x);
    }
}

/// A scan shows the written items in their order, or all columns where `*` is written; it groups by
/// the written columns and orders by the written keys, and its output has a column for each item.
pub proof fn scans_show_what_is_written(
    q: Query,
    s: Select,
    t: TableDescriptor,
    table: Seq<char>,
)
    requires
        analytic_of(q, s, t, table) is Ok,
    ensures
        match analytic_of(q, s, t, table)->Ok_0 {
            StatementView::AnalyticSelect {
                projection,
                group_by,
                order_by,
                output_schema,
                ..
            } => {
                &&& if s.projection@.len() == 1 && s.projection@[0] is Wildcard {
                    projection.len() == t.schema.columns@.len() && forall|k: int|
                        0 <= k < projection.len() ==> shows_column(#[trigger] projection[k], t, k)
                } else {
                    projection.len() == s.projection@.len() && forall|k: int|
                        0 <= k < projection.len() ==> shows_item(
                            #[trigger] projection[k],
                            s.projection@[k],
                            t,
                        )
                }
                &&& match s.group_by {
                    crate::sql::GroupBy::Expressions { exprs, .. } => group_by.len() == exprs@.len()
                        && forall|k: int|
                        0 <= k < group_by.len() ==> names_column(exprs@[k], t, #[trigger] group_by[k]),
                    crate::sql::GroupBy::All => false,
                }
                &&& match q.order_by {
                    None => order_by.len() == 0,
                    Some(o) => order_by.len() == o.exprs@.len() && forall|k: int|
                        0 <= k < order_by.len() ==> scans_in_order(
                            #[trigger] order_by[k],
                            o.exprs@[k],
                            t,
                        ),
                }
                &&& output_schema.len() == projection.len()
                &&& forall|k: int|
                    0 <= k < output_schema.len() ==> shows_as(
                        projection[k],
                        #[trigger] output_schema[k],
                    )
            },
            _ => false,
        },
{
    if !crate::binder_narrow::star_alone(s.projection@) {
        lemma_items(s.projection@, 0, t, table, Seq::empty());
    }
    match s.group_by {
        crate::sql::GroupBy::Expressions { exprs, .. } => {
            lemma_groups(exprs@, 0, t, Seq::empty());
        },
        crate::sql::GroupBy::All => {},
    }
    let projection = analytic_projection(s.projection@, t, table)->Ok_0;
    let group_by = crate::binder_narrow::analytic_grouping(s.group_by, t)->Ok_0;
    let aggregates = crate::binder_narrow::any_aggregate(projection, projection.len() as int);
    match q.order_by {
        Some(o) => {
            lemma_orders(
                o.exprs@,
                0,
                t,
                group_by,
                group_by.len() > 0 || aggregates,
                Seq::empty(),
            );
        },
        None => {},
    }
}

/// Whether an output column is that of an expression of a scan.
pub open spec fn shows_as(x: AnalyticView, c: ColumnView) -> bool {
    match x {
        AnalyticView::Column { name, data_type, nullable, .. } => c.name == name && c.data_type
            == data_type && c.nullable == nullable,
        AnalyticView::Aggregate { name, data_type, nullable, .. } => c.name == name && c.data_type
            == data_type && c.nullable == nullable,
    }
}

/// Whether a written item is the name of a column.
pub open spec fn shows_named(item: SelectItem, t: TableDescriptor, c: usize) -> bool {
    item matches SelectItem::UnnamedExpr(e) && names_column(e, t, c)
}

proof fn lemma_points(
    items: Seq<SelectItem>,
    i: int,
    t: TableDescriptor,
    table: Seq<char>,
    acc: Seq<usize>,
)
    requires
        0 <= i <= items.len(),
        acc.len() == i,
        point_items(items, i, t, table, acc) is Ok,
    ensures
        ({
            let all = point_items(items, i, t, table, acc)->Ok_0;
            &&& all.len() == items.len()
            &&& forall|k: int| 0 <= k < i ==> all[k] == acc[k]
            &&& forall|k: int|
                i <= k < items.len() ==> shows_named(items[k], t, #[trigger] all[k])
        }),
    decreases items.len() - i,
{
    if i < items.len() {
        let c = crate::binder_narrow::point_item(items[i], t, table)->Ok_0;
        match items[i] {
            SelectItem::UnnamedExpr(e) => match e.node {
                SqlNode::Identifier(s) => {
                    lemma_column_found(t, s@);
                },
                _ => {},
            },
            _ => {},
        }
        lemma_points(items, i + 1, t, table, acc.push(c));
        assert(acc.push(c)[i] == c);
    }
}

/// A read by key shows the named columns in their order, or all columns where `*` is written.
pub proof fn reads_by_key_show_what_is_written(
    items: Seq<SelectItem>,
    t: TableDescriptor,
    table: Seq<char>,
)
    requires
        point_projection(items, t, table) is Ok,
    ensures
        ({
            let all = point_projection(items, t, table)->Ok_0;
            if items.len() == 1 && items[0] is Wildcard {
                all.len() == t.schema.columns@.len() && forall|k: int|
                    0 <= k < all.len() ==> #[trigger] all[k] == k
            } else {
                all.len() == items.len() && forall|k: int|
                    0 <= k < all.len() ==> shows_named(items[k], t, #[trigger] all[k])
            }
        }),
{
    assert(t.schema.columns.len() == t.schema.columns@.len());
    if !crate::binder_narrow::star_alone(items) {
        lemma_points(items, 0, t, table, Seq::empty());
    }
}

/// Whether a bound expression has, in a context, the value that an expression has in a column: the
/// same value where it is of the column's type, and else the value cast to that type.
pub open spec fn fills(b: ExprView, x: ExprView, column: ColumnView, c: ContextView) -> bool {
    if type_of(x).permissive() || type_of(x).data_type == column.data_type {
        b == x
    } else if type_of(x).data_type.numeric() && column.data_type.numeric() {
        match eval_of(x, c) {
            Ok(v) => eval_of(b, c) == cast_view(v, column.data_type, c.answers),
            Err(_) => true,
        }
    } else {
        x is Literal && b is Literal
    }
}

proof fn lemma_assigned(x: ExprView, column: ColumnView, c: ContextView)
    requires
        assigned(x, column, c.answers) is Ok,
    ensures
        fills(assigned(x, column, c.answers)->Ok_0, x, column, c),
{
    match x {
        ExprView::Literal(v) => {
            assert(eval_of(x, c) == Ok::<ValueView, ErrorView>(v));
            match cast_view(v, column.data_type, c.answers) {
                Ok(w) => {
                    assert(eval_of(ExprView::Literal(w), c) == Ok::<ValueView, ErrorView>(w));
                },
                Err(_) => {},
            }
        },
        _ => {
            let b = ExprView::Cast { expr: Box::new(x), to: column.data_type };
            assert(eval_of(b, c) == (match eval_of(x, c) {
                Ok(v) => cast_view(v, column.data_type, c.answers),
                Err(e) => Err(e),
            }));
        },
    }
}

/// Whether a bound expression has the value that is written for a column, bound over the columns of
/// the table.
#[verifier::opaque]
pub open spec fn takes_value(
    cx: Env<'_>,
    t: TableDescriptor,
    alias: Seq<char>,
    st: StateView,
    e: SqlExpr,
    b: ExprView,
    column: usize,
    c: ContextView,
) -> bool {
    bind_of(cx, table_scope(alias, t), st, top_mode(), e) matches Ok((x, _)) && fills(
        b,
        x,
        t.schema.columns@[column as int]@,
        c,
    )
}

/// What is bound of an assignment, and the state behind it.
#[verifier::opaque]
spec fn first_assigned(
    cx: Env<'_>,
    a: Assignment,
    t: TableDescriptor,
    table: Seq<char>,
    alias: Seq<char>,
    st: StateView,
    seen: Seq<usize>,
) -> Result<(usize, ExprView, StateView), ErrorView> {
    match assigned_name(a.target, alias) {
        Err(e) => Err(e),
        Ok(name) => match crate::binder_dml::assigned_column(name, t, table, seen) {
            Err(e) => Err(e),
            Ok(c) => match bind_of(cx, table_scope(alias, t), st, top_mode(), a.value) {
                Err(e) => Err(e),
                Ok((x, st2)) => match assigned(x, t.schema.columns@[c as int]@, *cx.answers) {
                    Err(e) => Err(e),
                    Ok(v) => Ok((c, v, st2)),
                },
            },
        },
    }
}

proof fn lemma_first_assigned(
    cx: Env<'_>,
    a: Assignment,
    t: TableDescriptor,
    table: Seq<char>,
    alias: Seq<char>,
    st: StateView,
    seen: Seq<usize>,
    c: ContextView,
)
    requires
        c.answers == *cx.answers,
        first_assigned(cx, a, t, table, alias, st, seen) is Ok,
    ensures
        ({
            let (k, v, _) = first_assigned(cx, a, t, table, alias, st, seen)->Ok_0;
            &&& takes_value(cx, t, alias, st, a.value, v, k, c)
            &&& assigned_name(a.target, alias) matches Ok(n) && is_column(t, n, k as int)
        }),
{
    reveal(takes_value);
    reveal(first_assigned);
    let name = assigned_name(a.target, alias)->Ok_0;
    lemma_column_found(t, name);
    let (k, _, _) = first_assigned(cx, a, t, table, alias, st, seen)->Ok_0;
    let x = bind_of(cx, table_scope(alias, t), st, top_mode(), a.value)->Ok_0.0;
    lemma_assigned(x, t.schema.columns@[k as int]@, c);
}

proof fn lemma_assignments_step(
    cx: Env<'_>,
    list: Seq<Assignment>,
    i: int,
    t: TableDescriptor,
    table: Seq<char>,
    alias: Seq<char>,
    st: StateView,
    seen: Seq<usize>,
    acc: Seq<(usize, ExprView)>,
)
    requires
        0 <= i < list.len(),
    ensures
        assignments_of(cx, list, i, t, table, alias, st, seen, acc) == (match first_assigned(
            cx,
            list[i],
            t,
            table,
            alias,
            st,
            seen,
        ) {
            Err(e) => Err(e),
            Ok((k, v, st2)) => assignments_of(
                cx,
                list,
                i + 1,
                t,
                table,
                alias,
                st2,
                seen.push(k),
                acc.push((k, v)),
            ),
        }),
{
    reveal(first_assigned);
}

proof fn lemma_as_written(
    cx: Env<'_>,
    t: TableDescriptor,
    alias: Seq<char>,
    a: Assignment,
    k: usize,
    v: ExprView,
    st: StateView,
    c: ContextView,
)
    requires
        takes_value(cx, t, alias, st, a.value, v, k, c),
        assigned_name(a.target, alias) matches Ok(n) && is_column(t, n, k as int),
    ensures
        assigns_as_written(cx, t, alias, a, (k, v), c),
{
    let pair = (k, v);
    assert(takes_value(cx, t, alias, st, a.value, pair.1, pair.0, c));
    assert(exists|s: StateView| #[trigger]
        takes_value(cx, t, alias, s, a.value, pair.1, pair.0, c));
    let n = assigned_name(a.target, alias)->Ok_0;
    assert(is_column(t, n, pair.0 as int));
}

/// An `UPDATE` assigns to each named column, in their order, the value that is written for it, bound
/// over the columns of the table.
#[verifier::rlimit(50)]
pub proof fn assignments_are_as_written(
    cx: Env<'_>,
    list: Seq<Assignment>,
    i: int,
    t: TableDescriptor,
    table: Seq<char>,
    alias: Seq<char>,
    st: StateView,
    seen: Seq<usize>,
    acc: Seq<(usize, ExprView)>,
    c: ContextView,
)
    requires
        0 <= i <= list.len(),
        acc.len() == i,
        c.answers == *cx.answers,
        assignments_of(cx, list, i, t, table, alias, st, seen, acc) is Ok,
    ensures
        ({
            let all = assignments_of(cx, list, i, t, table, alias, st, seen, acc)->Ok_0.0;
            &&& all.len() == list.len()
            &&& forall|k: int| 0 <= k < i ==> all[k] == acc[k]
            &&& forall|k: int|
                i <= k < list.len() ==> assigns_as_written(
                    cx,
                    t,
                    alias,
                    list[k],
                    #[trigger] all[k],
                    c,
                )
        }),
    decreases list.len() - i,
{
    if i < list.len() {
        lemma_assignments_step(cx, list, i, t, table, alias, st, seen, acc);
        lemma_first_assigned(cx, list[i], t, table, alias, st, seen, c);
        let (k, v, st2) = first_assigned(cx, list[i], t, table, alias, st, seen)->Ok_0;
        assignments_are_as_written(
            cx,
            list,
            i + 1,
            t,
            table,
            alias,
            st2,
            seen.push(k),
            acc.push((k, v)),
            c,
        );
        assert(acc.push((k, v))[i] == (k, v));
        lemma_as_written(cx, t, alias, list[i], k, v, st, c);
    }
}

/// Whether a column and an expression are those of a written assignment.
pub open spec fn assigns_as_written(
    cx: Env<'_>,
    t: TableDescriptor,
    alias: Seq<char>,
    a: Assignment,
    pair: (usize, ExprView),
    c: ContextView,
) -> bool {
    &&& assigned_name(a.target, alias) matches Ok(n) && is_column(t, n, pair.0 as int)
    &&& exists|st: StateView| #[trigger] takes_value(cx, t, alias, st, a.value, pair.1, pair.0, c)
}

/// The assignments of a bound `UPDATE` are those that are written, for the columns of the named table.
pub proof fn updates_assign_as_written(cx: Env<'_>, s: crate::statement::SqlUpdate, c: ContextView)
    requires
        crate::binder_dml::update_of(cx, s) is Ok,
        c.answers == *cx.answers,
    ensures
        match (s.table.relation, crate::binder_dml::update_of(cx, s)->Ok_0) {
            (
                crate::sql::TableFactor::Table { alias, .. },
                StatementView::Update { table, assignments, .. },
            ) => cx.catalog.table(table) matches Some(t) && assignments.len() == s.assignments@.len()
                && forall|k: int|
                0 <= k < assignments.len() ==> assigns_as_written(
                    cx,
                    t,
                    crate::model_query::alias_name(alias, table),
                    s.assignments@[k],
                    #[trigger] assignments[k],
                    c,
                ),
            _ => false,
        },
{
    match s.table.relation {
        crate::sql::TableFactor::Table { name, alias, .. } => {
            let table = crate::names::single_name(name)->Ok_0;
            let t = cx.catalog.table(table)->0;
            assignments_are_as_written(
                cx,
                s.assignments@,
                0,
                t,
                table,
                crate::model_query::alias_name(alias, table),
                crate::binder_dml::empty_state(),
                Seq::empty(),
                Seq::empty(),
                c,
            );
        },
        _ => {},
    }
}

} // verus!
