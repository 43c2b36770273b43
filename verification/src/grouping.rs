//! Grouping checks, output columns and references of bound queries.

use crate::expr::{
    contains_expr, copy_exprs, nodes, outer_refs, view_branches, view_exprs, AggregateSpec, Expr,
    ExprView,
};
use crate::model_group::{
    aggregate_refs, aggregates_grouped_check, bare_query, body_columns, body_refs, bound_refs,
    branches_check, branches_grouped_check, column_types_check, distinct_order_check, empty_like,
    grouped_check, groups_offset, has_working, list_grouped_check, list_reads_working, list_refs,
    name_taken, node_shows_window, null_supplied, one_window_refs, option_refs,
    order_grouped_check, order_refs, ordered_by_output, projected, projection_columns,
    projection_grouped_check, projection_refs, reads_working, recursive_columns, recursive_query,
    recursive_reference_check, recursive_term_check, refs_grouped_check, select_grouped_check,
    select_refs, set_column, set_columns, shows_window, slots_read_working, subquery_grouped_check,
    tree_has, tree_refs, unique_names_check, window_refs, windows_grouped_check, working_slots,
};
use crate::names::{first_at, union_type};
use crate::query::{
    copy_queries, view_queries, view_slots, BodyView, BoundQuery, JoinKind, JoinTree, OrderItem,
    ProjectionItem, QueryBody, QueryView, SelectBody, TableSlot, ValueFrameBound, WindowFrame,
    WindowSpec,
};
use crate::text::{cat5, count_text, owned, same_folded};
use crate::value::{
    copy_columns, invalid, lemma_views_push, option_view, outcome, views, ColumnDef, ColumnView,
    ErrorView, HtapError,
};
use vstd::prelude::*;

verus! {

fn not_grouped_error(name: &str, what: &str) -> (r: HtapError)
    ensures
        Err::<(), ErrorView>(r@) == crate::model_group::not_grouped(name@, what@),
{
    invalid(
        cat5(
            "column '",
            name,
            "' in '",
            what,
            "' must appear in the GROUP BY clause or be used in an aggregate function",
        ),
    )
}

fn groups(group_by: &Vec<Expr>, offset: usize) -> (r: bool)
    ensures
        r == (first_at(views(group_by@), groups_offset(offset), 0) is Some),
{
    let ghost p = groups_offset(offset);
    let mut i: usize = 0;
    while i < group_by.len()
        invariant
            i <= group_by.len(),
            p == groups_offset(offset),
            first_at(views(group_by@), p, 0) == first_at(views(group_by@), p, i as int),
        decreases group_by.len() - i,
    {
        assert(views(group_by@)[i as int] == group_by@[i as int]@);
        match &group_by[i] {
            Expr::ColumnRef { offset: o, .. } => {
                if *o == offset {
                    return true;
                }
            },
            _ => {},
        }
        i = i + 1;
    }
    false
}

/// Checks that the outer references of a subquery are grouped.
fn check_refs_grouped(refs: &Vec<Expr>, group_by: &Vec<Expr>, what: &str) -> (r: Result<
    (),
    HtapError,
>)
    ensures
        outcome(r) == refs_grouped_check(views(refs@), views(group_by@), what@, 0),
{
    let mut i: usize = 0;
    while i < refs.len()
        invariant
            i <= refs.len(),
            refs_grouped_check(views(refs@), views(group_by@), what@, 0) == refs_grouped_check(
                views(refs@),
                views(group_by@),
                what@,
                i as int,
            ),
        decreases refs.len() - i,
    {
        assert(views(refs@)[i as int] == refs@[i as int]@);
        match &refs[i] {
            Expr::CorrelatedColumnRef { offset, name, .. } => {
                if !groups(group_by, *offset) {
                    return Err(not_grouped_error(name.as_str(), what));
                }
            },
            _ => {},
        }
        i = i + 1;
    }
    Ok(())
}

fn check_correlated_subquery_grouping(
    index: usize,
    group_by: &Vec<Expr>,
    what: &str,
    subqueries: &Vec<BoundQuery>,
) -> (r: Result<(), HtapError>)
    ensures
        outcome(r) == subquery_grouped_check(
            index,
            views(group_by@),
            what@,
            views(subqueries@),
        ),
{
    if index < subqueries.len() {
        assert(views(subqueries@)[index as int] == subqueries@[index as int]@);
        check_refs_grouped(&subqueries[index].correlated_outer_refs, group_by, what)
    } else {
        Ok(())
    }
}

/// Checks that an expression depends on grouped expressions only.
pub(crate) fn check_grouped(
    e: &Expr,
    group_by: &Vec<Expr>,
    what: &str,
    subqueries: &Vec<BoundQuery>,
    strict: bool,
) -> (r: Result<(), HtapError>)
    ensures
        outcome(r) == grouped_check(e@, views(group_by@), what@, views(subqueries@), strict),
    decreases e, 0int,
{
    if strict && contains_expr(group_by, e) {
        return Ok(());
    }
    match e {
        Expr::ColumnRef { name, .. } => if strict {
            Err(not_grouped_error(name.as_str(), what))
        } else {
            Ok(())
        },
        Expr::ScalarSubquery { index, .. } | Expr::Exists { index, .. } => {
            check_correlated_subquery_grouping(*index, group_by, what, subqueries)
        },
        Expr::BinaryOp { left, right, .. } => match check_grouped(
            left,
            group_by,
            what,
            subqueries,
            strict,
        ) {
            Err(x) => Err(x),
            Ok(_) => check_grouped(right, group_by, what, subqueries, strict),
        },
        Expr::Not(x) | Expr::Negate(x) | Expr::IsNull(x) | Expr::IsNotNull(x) => check_grouped(
            x,
            group_by,
            what,
            subqueries,
            strict,
        ),
        Expr::Like { expr, pattern, .. } => match check_grouped(
            expr,
            group_by,
            what,
            subqueries,
            strict,
        ) {
            Err(x) => Err(x),
            Ok(_) => check_grouped(pattern, group_by, what, subqueries, strict),
        },
        Expr::In { expr, list, .. } => match check_grouped(
            expr,
            group_by,
            what,
            subqueries,
            strict,
        ) {
            Err(x) => Err(x),
            Ok(_) => check_list_grouped(list, group_by, what, subqueries, strict),
        },
        Expr::Between { expr, low, high, .. } => match check_grouped(
            expr,
            group_by,
            what,
            subqueries,
            strict,
        ) {
            Err(x) => Err(x),
            Ok(_) => match check_grouped(low, group_by, what, subqueries, strict) {
                Err(x) => Err(x),
                Ok(_) => check_grouped(high, group_by, what, subqueries, strict),
            },
        },
        Expr::Case { operand, branches, else_result, .. } => {
            match operand {
                Some(x) => match check_grouped(x, group_by, what, subqueries, strict) {
                    Err(x) => {
                        return Err(x);
                    },
                    Ok(_) => {},
                },
                None => {},
            }
            match check_branches_grouped(branches, group_by, what, subqueries, strict) {
                Err(x) => {
                    return Err(x);
                },
                Ok(_) => {},
            }
            match else_result {
                Some(x) => check_grouped(x, group_by, what, subqueries, strict),
                None => Ok(()),
            }
        },
        Expr::Cast { expr, .. } => check_grouped(expr, group_by, what, subqueries, strict),
        Expr::CalendarInterval { expr, quantity, .. } => match check_grouped(
            expr,
            group_by,
            what,
            subqueries,
            strict,
        ) {
            Err(x) => Err(x),
            Ok(_) => check_grouped(quantity, group_by, what, subqueries, strict),
        },
        Expr::ScalarFunction { args, .. } => check_list_grouped(
            args,
            group_by,
            what,
            subqueries,
            strict,
        ),
        Expr::InSubquery { expr, index, .. } => match check_grouped(
            expr,
            group_by,
            what,
            subqueries,
            strict,
        ) {
            Err(x) => Err(x),
            Ok(_) => check_correlated_subquery_grouping(*index, group_by, what, subqueries),
        },
        _ => Ok(()),
    }
}

fn check_list_grouped(
    list: &Vec<Expr>,
    group_by: &Vec<Expr>,
    what: &str,
    subqueries: &Vec<BoundQuery>,
    strict: bool,
) -> (r: Result<(), HtapError>)
    ensures
        outcome(r) == list_grouped_check(
            view_exprs(*list),
            views(group_by@),
            what@,
            views(subqueries@),
            strict,
            0,
        ),
    decreases list, 1int,
{
    let ghost l = view_exprs(*list);
    let ghost g = views(group_by@);
    let ghost s = views(subqueries@);
    let mut i: usize = 0;
    while i < list.len()
        invariant
            i <= list.len(),
            l == view_exprs(*list),
            g == views(group_by@),
            s == views(subqueries@),
            list_grouped_check(l, g, what@, s, strict, 0) == list_grouped_check(
                l,
                g,
                what@,
                s,
                strict,
                i as int,
            ),
        decreases list.len() - i,
    {
        match check_grouped(&list[i], group_by, what, subqueries, strict) {
            Err(x) => {
                return Err(x);
            },
            Ok(_) => {},
        }
        i = i + 1;
    }
    Ok(())
}

fn check_branches_grouped(
    list: &Vec<(Expr, Expr)>,
    group_by: &Vec<Expr>,
    what: &str,
    subqueries: &Vec<BoundQuery>,
    strict: bool,
) -> (r: Result<(), HtapError>)
    ensures
        outcome(r) == branches_grouped_check(
            view_branches(*list),
            views(group_by@),
            what@,
            views(subqueries@),
            strict,
            0,
        ),
    decreases list, 1int,
{
    let ghost l = view_branches(*list);
    let ghost g = views(group_by@);
    let ghost s = views(subqueries@);
    let mut i: usize = 0;
    while i < list.len()
        invariant
            i <= list.len(),
            l == view_branches(*list),
            g == views(group_by@),
            s == views(subqueries@),
            branches_grouped_check(l, g, what@, s, strict, 0) == branches_grouped_check(
                l,
                g,
                what@,
                s,
                strict,
                i as int,
            ),
        decreases list.len() - i,
    {
        match check_grouped(&list[i].0, group_by, what, subqueries, strict) {
            Err(x) => {
                return Err(x);
            },
            Ok(_) => {},
        }
        match check_grouped(&list[i].1, group_by, what, subqueries, strict) {
            Err(x) => {
                return Err(x);
            },
            Ok(_) => {},
        }
        i = i + 1;
    }
    Ok(())
}

fn check_order_grouped(
    list: &Vec<OrderItem>,
    group_by: &Vec<Expr>,
    what: &str,
    subqueries: &Vec<BoundQuery>,
) -> (r: Result<(), HtapError>)
    ensures
        outcome(r) == order_grouped_check(
            views(list@),
            views(group_by@),
            what@,
            views(subqueries@),
            0,
        ),
{
    let ghost l = views(list@);
    let ghost g = views(group_by@);
    let ghost s = views(subqueries@);
    let mut i: usize = 0;
    while i < list.len()
        invariant
            i <= list.len(),
            l == views(list@),
            g == views(group_by@),
            s == views(subqueries@),
            order_grouped_check(l, g, what@, s, 0) == order_grouped_check(
                l,
                g,
                what@,
                s,
                i as int,
            ),
        decreases list.len() - i,
    {
        assert(l[i as int].expr == list@[i as int].expr@);
        match check_grouped(&list[i].expr, group_by, what, subqueries, true) {
            Err(x) => {
                return Err(x);
            },
            Ok(_) => {},
        }
        i = i + 1;
    }
    Ok(())
}

fn check_windows_grouped(
    list: &Vec<WindowSpec>,
    group_by: &Vec<Expr>,
    subqueries: &Vec<BoundQuery>,
) -> (r: Result<(), HtapError>)
    ensures
        outcome(r) == windows_grouped_check(
            views(list@),
            views(group_by@),
            views(subqueries@),
            0,
        ),
{
    let ghost l = views(list@);
    let ghost g = views(group_by@);
    let ghost s = views(subqueries@);
    let mut i: usize = 0;
    while i < list.len()
        invariant
            i <= list.len(),
            l == views(list@),
            g == views(group_by@),
            s == views(subqueries@),
            windows_grouped_check(l, g, s, 0) == windows_grouped_check(l, g, s, i as int),
        decreases list.len() - i,
    {
        let w = &list[i];
        proof {
            assert(l[i as int] == w@);
            crate::expr::lemma_view_exprs(w.args);
            crate::expr::lemma_view_exprs(w.partition_by);
        }
        match check_list_grouped(&w.args, group_by, "window function", subqueries, true) {
            Err(x) => {
                return Err(x);
            },
            Ok(_) => {},
        }
        match check_list_grouped(&w.partition_by, group_by, "window function", subqueries, true) {
            Err(x) => {
                return Err(x);
            },
            Ok(_) => {},
        }
        match check_order_grouped(&w.order_by, group_by, "window function", subqueries) {
            Err(x) => {
                return Err(x);
            },
            Ok(_) => {},
        }
        i = i + 1;
    }
    Ok(())
}

fn check_aggregates_grouped(
    list: &Vec<AggregateSpec>,
    group_by: &Vec<Expr>,
    subqueries: &Vec<BoundQuery>,
) -> (r: Result<(), HtapError>)
    ensures
        outcome(r) == aggregates_grouped_check(
            views(list@),
            views(group_by@),
            views(subqueries@),
            0,
        ),
{
    let ghost l = views(list@);
    let ghost g = views(group_by@);
    let ghost s = views(subqueries@);
    let mut i: usize = 0;
    while i < list.len()
        invariant
            i <= list.len(),
            l == views(list@),
            g == views(group_by@),
            s == views(subqueries@),
            aggregates_grouped_check(l, g, s, 0) == aggregates_grouped_check(l, g, s, i as int),
        decreases list.len() - i,
    {
        assert(l[i as int] == list@[i as int]@);
        match &list[i].arg {
            None => {},
            Some(a) => match check_grouped(a, group_by, "aggregate", subqueries, false) {
                Err(x) => {
                    return Err(x);
                },
                Ok(_) => {},
            },
        }
        i = i + 1;
    }
    Ok(())
}

fn check_projection_grouped(
    list: &Vec<ProjectionItem>,
    group_by: &Vec<Expr>,
    subqueries: &Vec<BoundQuery>,
) -> (r: Result<(), HtapError>)
    ensures
        outcome(r) == projection_grouped_check(
            views(list@),
            views(group_by@),
            views(subqueries@),
            0,
        ),
{
    let ghost l = views(list@);
    let ghost g = views(group_by@);
    let ghost s = views(subqueries@);
    let mut i: usize = 0;
    while i < list.len()
        invariant
            i <= list.len(),
            l == views(list@),
            g == views(group_by@),
            s == views(subqueries@),
            projection_grouped_check(l, g, s, 0) == projection_grouped_check(l, g, s, i as int),
        decreases list.len() - i,
    {
        assert(l[i as int] == list@[i as int]@);
        match check_grouped(&list[i].expr, group_by, list[i].name.as_str(), subqueries, true) {
            Err(x) => {
                return Err(x);
            },
            Ok(_) => {},
        }
        i = i + 1;
    }
    Ok(())
}

/// Checks that a grouped select block depends on grouped expressions only.
pub(crate) fn check_select_grouped(
    windows: &Vec<WindowSpec>,
    aggregates: &Vec<AggregateSpec>,
    projection: &Vec<ProjectionItem>,
    having: &Option<Expr>,
    group_by: &Vec<Expr>,
    subqueries: &Vec<BoundQuery>,
) -> (r: Result<(), HtapError>)
    ensures
        outcome(r) == select_grouped_check(
            views(windows@),
            views(aggregates@),
            views(projection@),
            option_view(*having),
            views(group_by@),
            views(subqueries@),
        ),
{
    match check_windows_grouped(windows, group_by, subqueries) {
        Err(x) => {
            return Err(x);
        },
        Ok(_) => {},
    }
    match check_aggregates_grouped(aggregates, group_by, subqueries) {
        Err(x) => {
            return Err(x);
        },
        Ok(_) => {},
    }
    match check_projection_grouped(projection, group_by, subqueries) {
        Err(x) => {
            return Err(x);
        },
        Ok(_) => {},
    }
    match having {
        None => Ok(()),
        Some(h) => check_grouped(h, group_by, "HAVING", subqueries, true),
    }
}

/// Whether an expression contains a window function, also behind output columns.
pub(crate) fn contains_window_through_output(e: &Expr, projection: &Vec<ProjectionItem>) -> (r: bool)
    ensures
        r == shows_window(e@, views(projection@)),
{
    let all = e.walk();
    let ghost p = views(projection@);
    let mut i: usize = 0;
    while i < all.len()
        invariant
            i <= all.len(),
            p == views(projection@),
            views(all@) == nodes(e@),
            forall|j: int| 0 <= j < i ==> !node_shows_window(#[trigger] nodes(e@)[j], p),
        decreases all.len() - i,
    {
        assert(nodes(e@)[i as int] == all@[i as int]@);
        match all[i] {
            Expr::WindowRef { .. } => {
                assert(node_shows_window(nodes(e@)[i as int], p));
                return true;
            },
            Expr::OutputColumn { index, .. } => {
                if *index < projection.len() {
                    assert(p[*index as int].expr == projection@[*index as int].expr@);
                    if projection[*index].expr.contains_window() {
                        assert(node_shows_window(nodes(e@)[i as int], p));
                        return true;
                    }
                }
            },
            _ => {},
        }
        i = i + 1;
    }
    assert(nodes(e@).len() == all.len());
    false
}

/// The output columns of a projection.
pub(crate) fn output_of_projection(projection: &Vec<ProjectionItem>) -> (r: Vec<ColumnDef>)
    ensures
        views(r@) == projection_columns(views(projection@)),
{
    let mut out: Vec<ColumnDef> = Vec::new();
    let mut i: usize = 0;
    while i < projection.len()
        invariant
            i <= projection.len(),
            out.len() == i,
            forall|j: int| 0 <= j < i ==> (#[trigger] out@[j])@ == projected(projection@[j]@),
        decreases projection.len() - i,
    {
        let t = projection[i].expr.static_type();
        out.push(
            ColumnDef {
                name: projection[i].name.clone(),
                data_type: t.data_type,
                nullable: t.nullable,
                primary_key: false,
            },
        );
        i = i + 1;
    }
    assert(views(out@) =~= projection_columns(views(projection@)));
    out
}

fn output_of_set(l: &Vec<ColumnDef>, r: &Vec<ColumnDef>) -> (res: Vec<ColumnDef>)
    ensures
        views(res@) == set_columns(views(l@), views(r@)),
{
    let mut out: Vec<ColumnDef> = Vec::new();
    let mut i: usize = 0;
    while i < l.len() && i < r.len()
        invariant
            i <= l.len(),
            i <= r.len(),
            out.len() == i,
            forall|j: int| 0 <= j < i ==> (#[trigger] out@[j])@ == set_column(l@[j]@, r@[j]@),
        decreases l.len() - i,
    {
        let t = match union_type(l[i].data_type, r[i].data_type) {
            Some(t) => t,
            None => l[i].data_type,
        };
        out.push(
            ColumnDef {
                name: l[i].name.clone(),
                data_type: t,
                nullable: l[i].nullable || r[i].nullable,
                primary_key: false,
            },
        );
        i = i + 1;
    }
    assert(views(out@) =~= set_columns(views(l@), views(r@)));
    out
}

/// The output columns of a body.
pub(crate) fn body_output_columns(b: &QueryBody) -> (r: Vec<ColumnDef>)
    ensures
        views(r@) == body_columns(b@),
{
    match b {
        QueryBody::Select(s) => output_of_projection(&s.projection),
        QueryBody::SetOp { left, right, .. } => output_of_set(
            &left.output_columns,
            &right.output_columns,
        ),
        QueryBody::RecursiveQueryBody { output_columns, .. } => copy_columns(output_columns),
    }
}

fn join_refs(l: &Vec<Expr>, r: &Vec<Expr>) -> (res: Vec<Expr>)
    ensures
        views(res@) == views(l@) + views(r@),
{
    let mut out = copy_exprs(l);
    let mut rest = copy_exprs(r);
    let ghost a = out@;
    let ghost b = rest@;
    out.append(&mut rest);
    assert(views(out@) =~= views(a) + views(b));
    out
}

/// The references of a body to the enclosing query.
pub(crate) fn body_correlated_outer_refs(b: &QueryBody) -> (r: Vec<Expr>)
    ensures
        views(r@) == body_refs(b@),
{
    match b {
        QueryBody::Select(s) => copy_exprs(&s.correlated_outer_refs),
        QueryBody::SetOp { left, right, .. } => join_refs(
            &left.correlated_outer_refs,
            &right.correlated_outer_refs,
        ),
        QueryBody::RecursiveQueryBody { anchor, recursive_term, .. } => join_refs(
            &anchor.correlated_outer_refs,
            &recursive_term.correlated_outer_refs,
        ),
    }
}

/// The model of a query's subqueries.
pub(crate) proof fn lemma_view_queries(list: Vec<BoundQuery>)
    ensures
        view_queries(list) == views(list@),
{
    assert(view_queries(list) =~= views(list@));
}

/// A query of a body alone.
pub(crate) fn query_of_body(body: QueryBody, subqueries: Vec<BoundQuery>) -> (r: BoundQuery)
    ensures
        r@ == bare_query(body@, views(subqueries@)),
{
    let output_columns = body_output_columns(&body);
    let refs = body_correlated_outer_refs(&body);
    let correlated = refs.len() > 0;
    proof {
        lemma_view_queries(subqueries);
    }
    let order_by: Vec<OrderItem> = Vec::new();
    assert(views(order_by@) =~= Seq::empty());
    BoundQuery {
        body,
        order_by,
        limit: None,
        offset: None,
        subqueries,
        correlated,
        correlated_outer_refs: refs,
        output_columns,
    }
}

/// A query that yields no rows, with the columns of another.
pub fn empty_query_like(q: &BoundQuery) -> (r: BoundQuery)
    ensures
        r@ == empty_like(q@),
{
    let order_by: Vec<OrderItem> = Vec::new();
    assert(views(order_by@) =~= Seq::empty());
    BoundQuery {
        body: q.body.copy(),
        order_by,
        limit: Some(0),
        offset: None,
        subqueries: copy_queries(&q.subqueries),
        correlated: q.correlated,
        correlated_outer_refs: copy_exprs(&q.correlated_outer_refs),
        output_columns: copy_columns(&q.output_columns),
    }
}

fn push_expr_refs(e: &Expr, refs: &mut Vec<Expr>)
    ensures
        views(final(refs)@) == views(old(refs)@) + outer_refs(e@),
{
    let mut more = e.correlated_outer_refs();
    let ghost a = refs@;
    let ghost b = more@;
    refs.append(&mut more);
    assert(views(refs@) =~= views(a) + views(b));
}

fn push_option_refs(e: &Option<Expr>, refs: &mut Vec<Expr>)
    ensures
        views(final(refs)@) == views(old(refs)@) + option_refs(option_view(*e)),
{
    match e {
        Some(x) => push_expr_refs(x, refs),
        None => {
            assert(views(refs@) + Seq::<ExprView>::empty() =~= views(refs@));
        },
    }
}

fn push_tree_refs(t: &JoinTree, refs: &mut Vec<Expr>)
    ensures
        views(final(refs)@) == views(old(refs)@) + tree_refs(t@),
    decreases t,
{
    let ghost start = views(refs@);
    match t {
        JoinTree::Leaf(_) => {
            assert(start + Seq::<ExprView>::empty() =~= start);
        },
        JoinTree::Join { left, right, on, .. } => {
            push_tree_refs(left, refs);
            push_tree_refs(right, refs);
            push_option_refs(on, refs);
            assert(views(refs@) =~= start + tree_refs(t@));
        },
    }
}

fn push_list_refs(list: &Vec<Expr>, refs: &mut Vec<Expr>)
    ensures
        views(final(refs)@) == views(old(refs)@) + list_refs(views(list@), list@.len() as int),
{
    let ghost start = views(refs@);
    let mut i: usize = 0;
    assert(start + list_refs(views(list@), 0) =~= start);
    while i < list.len()
        invariant
            i <= list.len(),
            views(refs@) == start + list_refs(views(list@), i as int),
        decreases list.len() - i,
    {
        push_expr_refs(&list[i], refs);
        i = i + 1;
        assert(views(list@)[i - 1] == list@[i - 1]@);
        assert(views(refs@) =~= start + list_refs(views(list@), i as int));
    }
}

fn push_aggregate_refs(list: &Vec<AggregateSpec>, refs: &mut Vec<Expr>)
    ensures
        views(final(refs)@) == views(old(refs)@) + aggregate_refs(
            views(list@),
            list@.len() as int,
        ),
{
    let ghost start = views(refs@);
    let mut i: usize = 0;
    assert(start + aggregate_refs(views(list@), 0) =~= start);
    while i < list.len()
        invariant
            i <= list.len(),
            views(refs@) == start + aggregate_refs(views(list@), i as int),
        decreases list.len() - i,
    {
        push_option_refs(&list[i].arg, refs);
        i = i + 1;
        assert(views(list@)[i - 1] == list@[i - 1]@);
        assert(views(refs@) =~= start + aggregate_refs(views(list@), i as int));
    }
}

fn push_order_refs(list: &Vec<OrderItem>, refs: &mut Vec<Expr>)
    ensures
        views(final(refs)@) == views(old(refs)@) + order_refs(views(list@), list@.len() as int),
{
    let ghost start = views(refs@);
    let mut i: usize = 0;
    assert(start + order_refs(views(list@), 0) =~= start);
    while i < list.len()
        invariant
            i <= list.len(),
            views(refs@) == start + order_refs(views(list@), i as int),
        decreases list.len() - i,
    {
        push_expr_refs(&list[i].expr, refs);
        i = i + 1;
        assert(views(list@)[i - 1] == list@[i - 1]@);
        assert(views(refs@) =~= start + order_refs(views(list@), i as int));
    }
}

fn push_bound_refs(b: &ValueFrameBound, refs: &mut Vec<Expr>)
    ensures
        views(final(refs)@) == views(old(refs)@) + bound_refs(b@),
{
    match b {
        ValueFrameBound::Offset { value, .. } => push_expr_refs(value, refs),
        _ => {
            assert(views(refs@) + Seq::<ExprView>::empty() =~= views(refs@));
        },
    }
}

fn push_one_window_refs(w: &WindowSpec, refs: &mut Vec<Expr>)
    ensures
        views(final(refs)@) == views(old(refs)@) + one_window_refs(w@),
{
    let ghost start = views(refs@);
    push_list_refs(&w.args, refs);
    push_list_refs(&w.partition_by, refs);
    push_order_refs(&w.order_by, refs);
    match &w.frame {
        WindowFrame::ValueRange { start, end } => {
            push_bound_refs(start, refs);
            push_bound_refs(end, refs);
        },
        _ => {},
    }
    assert(views(refs@) =~= start + one_window_refs(w@));
}

fn push_window_refs(list: &Vec<WindowSpec>, refs: &mut Vec<Expr>)
    ensures
        views(final(refs)@) == views(old(refs)@) + window_refs(views(list@), list@.len() as int),
{
    let ghost start = views(refs@);
    let mut i: usize = 0;
    assert(start + window_refs(views(list@), 0) =~= start);
    while i < list.len()
        invariant
            i <= list.len(),
            views(refs@) == start + window_refs(views(list@), i as int),
        decreases list.len() - i,
    {
        push_one_window_refs(&list[i], refs);
        i = i + 1;
        assert(views(list@)[i - 1] == list@[i - 1]@);
        assert(views(refs@) =~= start + window_refs(views(list@), i as int));
    }
}

fn push_projection_refs(list: &Vec<ProjectionItem>, refs: &mut Vec<Expr>)
    ensures
        views(final(refs)@) == views(old(refs)@) + projection_refs(
            views(list@),
            list@.len() as int,
        ),
{
    let ghost start = views(refs@);
    let mut i: usize = 0;
    assert(start + projection_refs(views(list@), 0) =~= start);
    while i < list.len()
        invariant
            i <= list.len(),
            views(refs@) == start + projection_refs(views(list@), i as int),
        decreases list.len() - i,
    {
        push_expr_refs(&list[i].expr, refs);
        i = i + 1;
        assert(views(list@)[i - 1] == list@[i - 1]@);
        assert(views(refs@) =~= start + projection_refs(views(list@), i as int));
    }
}

/// The references of a select block to the enclosing query.
pub(crate) fn select_correlated_outer_refs(s: &SelectBody) -> (r: Vec<Expr>)
    ensures
        views(r@) == select_refs(s@),
{
    let mut refs: Vec<Expr> = Vec::new();
    assert(views(refs@) =~= Seq::empty());
    push_tree_refs(&s.join_tree, &mut refs);
    push_option_refs(&s.filter, &mut refs);
    push_list_refs(&s.group_by, &mut refs);
    push_aggregate_refs(&s.aggregates, &mut refs);
    push_window_refs(&s.windows, &mut refs);
    push_option_refs(&s.having, &mut refs);
    push_projection_refs(&s.projection, &mut refs);
    assert(views(refs@) =~= select_refs(s@));
    refs
}

fn count_mismatch(l: usize, r: usize) -> (res: HtapError)
    ensures
        Err::<(), ErrorView>(res@) == crate::model_group::column_count_mismatch::<()>(
            l as nat,
            r as nat,
        ),
        Err::<Seq<ColumnView>, ErrorView>(res@) == crate::model_group::column_count_mismatch::<
            Seq<ColumnView>,
        >(l as nat, r as nat),
        Err::<QueryView, ErrorView>(res@) == crate::model_group::column_count_mismatch::<QueryView>(
            l as nat,
            r as nat,
        ),
{
    let a = count_text(l);
    let b = count_text(r);
    invalid(
        cat5(
            "UNION branches have different column counts (",
            a.as_str(),
            " vs ",
            b.as_str(),
            ")",
        ),
    )
}

fn type_mismatch(l: &ColumnDef, r: &ColumnDef) -> (res: HtapError)
    ensures
        Err::<(), ErrorView>(res@) == crate::model_group::column_type_mismatch::<()>(l@, r@),
        Err::<Seq<ColumnView>, ErrorView>(res@) == crate::model_group::column_type_mismatch::<
            Seq<ColumnView>,
        >(l@, r@),
{
    invalid(
        crate::text::cat6(
            "UNION column '",
            l.name.as_str(),
            "' has incompatible types ",
            l.data_type.name(),
            " and ",
            r.data_type.name(),
        ),
    )
}

/// Checks that the columns of two branches fit each other.
pub(crate) fn check_branches(l: &BoundQuery, r: &BoundQuery) -> (res: Result<(), HtapError>)
    ensures
        outcome(res) == branches_check(l@, r@),
{
    let a = &l.output_columns;
    let b = &r.output_columns;
    assert(l@.output_columns == views(a@));
    assert(r@.output_columns == views(b@));
    if a.len() != b.len() {
        return Err(count_mismatch(a.len(), b.len()));
    }
    let mut i: usize = 0;
    while i < a.len()
        invariant
            i <= a.len(),
            a.len() == b.len(),
            l@.output_columns == views(a@),
            r@.output_columns == views(b@),
            column_types_check(views(a@), views(b@), 0) == column_types_check(
                views(a@),
                views(b@),
                i as int,
            ),
        decreases a.len() - i,
    {
        match union_type(a[i].data_type, b[i].data_type) {
            None => {
                return Err(type_mismatch(&a[i], &b[i]));
            },
            Some(_) => {},
        }
        i = i + 1;
    }
    Ok(())
}

/// Checks that the output names of a query occur once.
pub(crate) fn ensure_unique_output_names(columns: &Vec<ColumnDef>, what: &str) -> (r: Result<
    (),
    HtapError,
>)
    ensures
        outcome(r) == unique_names_check(views(columns@), what@, 0),
{
    let ghost all = views(columns@);
    let mut i: usize = 0;
    while i < columns.len()
        invariant
            i <= columns.len(),
            all == views(columns@),
            unique_names_check(all, what@, 0) == unique_names_check(all, what@, i as int),
        decreases columns.len() - i,
    {
        let mut j: usize = 0;
        let mut taken = false;
        while j < i
            invariant
                j <= i < columns.len(),
                all == views(columns@),
                taken == name_taken(all, columns@[i as int].name@, j as int),
            decreases i - j,
        {
            let same = same_folded(columns[j].name.as_str(), columns[i].name.as_str());
            assert(all[j as int] == columns@[j as int]@);
            taken = taken || same;
            j = j + 1;
        }
        if taken {
            return Err(
                invalid(
                    cat5("duplicate column name '", columns[i].name.as_str(), "' in '", what, "'"),
                ),
            );
        }
        i = i + 1;
    }
    Ok(())
}

/// Checks the repeated term of a recursive query.
fn validate_recursive_term(q: &BoundQuery) -> (r: Result<(), HtapError>)
    ensures
        outcome(r) == recursive_term_check(q@),
{
    if q.order_by.len() > 0 {
        return Err(invalid(owned("recursive CTE recursive term cannot use ORDER BY")));
    }
    if q.limit.is_some() || q.offset.is_some() {
        return Err(invalid(owned("recursive CTE recursive term cannot use LIMIT")));
    }
    assert(q@.body == q.body@);
    match &q.body {
        QueryBody::Select(s) => {
            assert(q.body@ == BodyView::Select(s@));
            if s.aggregates.len() > 0 {
                return Err(invalid(owned("recursive CTE recursive term cannot use aggregates")));
            }
            if s.group_by.len() > 0 {
                return Err(invalid(owned("recursive CTE recursive term cannot use GROUP BY")));
            }
            if s.distinct {
                return Err(invalid(owned("recursive CTE recursive term cannot use DISTINCT")));
            }
            Ok(())
        },
        _ => Ok(()),
    }
}

fn contains_working(q: &BoundQuery) -> (r: bool)
    ensures
        r == reads_working(q@),
    decreases q, 2int,
{
    assert(q@.body == q.body@);
    match &q.body {
        QueryBody::Select(s) => {
            assert(q.body@ == BodyView::Select(s@));
            assert(s@.slots == view_slots(s.slots));
            assert(q@.subqueries == view_queries(q.subqueries));
            let a = any_working_slot(&s.slots);
            let b = any_derived_working(&s.slots);
            let c = any_working(&q.subqueries);
            a || b || c
        },
        QueryBody::SetOp { kind, left, right } => {
            assert(q.body@ == (BodyView::SetOp {
                kind: *kind,
                left: Box::new(left@),
                right: Box::new(right@),
            }));
            let a = contains_working(left);
            let b = contains_working(right);
            a || b
        },
        QueryBody::RecursiveQueryBody { anchor, recursive_term, distinct, output_columns } => {
            assert(q.body@ == (BodyView::RecursiveQueryBody {
                anchor: Box::new(anchor@),
                recursive_term: Box::new(recursive_term@),
                distinct: *distinct,
                output_columns: views(output_columns@),
            }));
            let a = contains_working(anchor);
            let b = contains_working(recursive_term);
            a || b
        },
    }
}

fn any_working(list: &Vec<BoundQuery>) -> (r: bool)
    ensures
        r == list_reads_working(view_queries(*list), list@.len() as int),
    decreases list, 1int,
{
    let mut i: usize = 0;
    let mut found = false;
    while i < list.len()
        invariant
            i <= list.len(),
            found == list_reads_working(view_queries(*list), i as int),
        decreases list.len() - i,
    {
        let here = contains_working(&list[i]);
        found = found || here;
        i = i + 1;
    }
    found
}

fn any_working_slot(slots: &Vec<TableSlot>) -> (r: bool)
    ensures
        r == has_working(view_slots(*slots), slots@.len() as int),
{
    let mut i: usize = 0;
    let mut found = false;
    while i < slots.len()
        invariant
            i <= slots.len(),
            found == has_working(view_slots(*slots), i as int),
        decreases slots.len() - i,
    {
        let here = match &slots[i] {
            TableSlot::WorkingTableSlot { .. } => true,
            _ => false,
        };
        found = found || here;
        i = i + 1;
    }
    found
}

fn any_derived_working(slots: &Vec<TableSlot>) -> (r: bool)
    ensures
        r == slots_read_working(view_slots(*slots), slots@.len() as int),
    decreases slots, 1int,
{
    let mut i: usize = 0;
    let mut found = false;
    while i < slots.len()
        invariant
            i <= slots.len(),
            found == slots_read_working(view_slots(*slots), i as int),
        decreases slots.len() - i,
    {
        let here = match &slots[i] {
            TableSlot::Derived { query, .. } => contains_working(query),
            _ => false,
        };
        found = found || here;
        i = i + 1;
    }
    found
}

fn collect_working(slots: &Vec<TableSlot>) -> (r: Vec<usize>)
    ensures
        r@.map_values(|x: usize| x as int) == working_slots(
            view_slots(*slots),
            slots@.len() as int,
        ),
{
    let ghost f = |x: usize| x as int;
    let mut out: Vec<usize> = Vec::new();
    let mut i: usize = 0;
    assert(out@.map_values(f) =~= Seq::empty());
    while i < slots.len()
        invariant
            i <= slots.len(),
            f == (|x: usize| x as int),
            out@.map_values(f) == working_slots(view_slots(*slots), i as int),
        decreases slots.len() - i,
    {
        match &slots[i] {
            TableSlot::WorkingTableSlot { .. } => {
                let ghost before = out@;
                out.push(i);
                assert(out@.map_values(f) =~= before.map_values(f).push(i as int));
            },
            _ => {},
        }
        i = i + 1;
    }
    out
}

/// Whether a join tree contains a slot.
pub(crate) fn tree_contains_slot(t: &JoinTree, slot: usize) -> (r: bool)
    ensures
        r == tree_has(t@, slot as int),
    decreases t,
{
    match t {
        JoinTree::Leaf(s) => *s == slot,
        JoinTree::Join { left, right, .. } => {
            let a = tree_contains_slot(left, slot);
            let b = tree_contains_slot(right, slot);
            a || b
        },
    }
}

fn tree_slot_is_null_supplying(t: &JoinTree, slot: usize) -> (r: bool)
    ensures
        r == null_supplied(t@, slot as int),
    decreases t,
{
    match t {
        JoinTree::Leaf(_) => false,
        JoinTree::Join { kind, left, right, .. } => {
            let in_left = tree_contains_slot(left, slot);
            let in_right = tree_contains_slot(right, slot);
            let here = match kind {
                JoinKind::Left => in_right,
                JoinKind::Right => in_left,
                JoinKind::Full => in_left || in_right,
                _ => false,
            };
            let below_left = tree_slot_is_null_supplying(left, slot);
            let below_right = tree_slot_is_null_supplying(right, slot);
            here || below_left || below_right
        },
    }
}

fn validate_recursive_reference(q: &BoundQuery) -> (r: Result<(), HtapError>)
    ensures
        outcome(r) == recursive_reference_check(q@),
{
    assert(q@.body == q.body@);
    match &q.body {
        QueryBody::Select(s) => {
            assert(q.body@ == BodyView::Select(s@));
            assert(s@.slots == view_slots(s.slots));
            assert(q@.subqueries == view_queries(q.subqueries));
            if any_working(&q.subqueries) || any_derived_working(&s.slots) {
                return Err(
                    invalid(owned("recursive CTE cannot be referenced inside a subquery")),
                );
            }
            let working = collect_working(&s.slots);
            assert(working@.map_values(|x: usize| x as int).len() == working@.len());
            if working.len() != 1 {
                return Err(
                    invalid(
                        owned(
                            "recursive CTE must reference itself exactly once at top level of FROM",
                        ),
                    ),
                );
            }
            assert(working@.map_values(|x: usize| x as int)[0] == working@[0] as int);
            if tree_slot_is_null_supplying(&s.join_tree, working[0]) {
                return Err(
                    invalid(
                        owned(
                            "recursive CTE cannot be referenced on the null-supplying side of an outer join",
                        ),
                    ),
                );
            }
            Ok(())
        },
        _ => Err(
            invalid(
                owned("recursive CTE must reference itself exactly once at top level of FROM"),
            ),
        ),
    }
}

fn merge_recursive_columns(names: &Vec<ColumnDef>, l: &Vec<ColumnDef>, r: &Vec<ColumnDef>) -> (res:
    Result<Vec<ColumnDef>, HtapError>)
    ensures
        match res {
            Ok(v) => recursive_columns(views(names@), views(l@), views(r@), 0, Seq::empty())
                == Ok::<Seq<ColumnView>, ErrorView>(views(v@)),
            Err(e) => recursive_columns(views(names@), views(l@), views(r@), 0, Seq::empty())
                == Err::<Seq<ColumnView>, ErrorView>(e@),
        },
{
    let ghost n = views(names@);
    let ghost a = views(l@);
    let ghost b = views(r@);
    let mut out: Vec<ColumnDef> = Vec::new();
    let mut i: usize = 0;
    assert(views(out@) =~= Seq::empty());
    while i < names.len() && i < l.len() && i < r.len()
        invariant
            i <= names.len(),
            i <= l.len(),
            i <= r.len(),
            n == views(names@),
            a == views(l@),
            b == views(r@),
            recursive_columns(n, a, b, 0, Seq::empty()) == recursive_columns(
                n,
                a,
                b,
                i as int,
                views(out@),
            ),
        decreases names.len() - i,
    {
        let t = match union_type(l[i].data_type, r[i].data_type) {
            Some(t) => t,
            None => {
                return Err(type_mismatch(&l[i], &r[i]));
            },
        };
        let c = ColumnDef {
            name: names[i].name.clone(),
            data_type: t,
            nullable: l[i].nullable || r[i].nullable,
            primary_key: false,
        };
        proof {
            lemma_views_push(out@, c);
        }
        out.push(c);
        i = i + 1;
    }
    Ok(out)
}

/// The query that a recursive common table expression stands for.
pub(crate) fn make_recursive_query(
    anchor: BoundQuery,
    term: BoundQuery,
    names: &Vec<ColumnDef>,
    distinct: bool,
) -> (r: Result<BoundQuery, HtapError>)
    ensures
        outcome(r) == recursive_query(anchor@, term@, views(names@), distinct),
{
    match validate_recursive_term(&term) {
        Err(x) => {
            return Err(x);
        },
        Ok(_) => {},
    }
    match validate_recursive_reference(&term) {
        Err(x) => {
            return Err(x);
        },
        Ok(_) => {},
    }
    if anchor.output_columns.len() != term.output_columns.len() {
        return Err(count_mismatch(anchor.output_columns.len(), term.output_columns.len()));
    }
    let columns = match merge_recursive_columns(
        names,
        &anchor.output_columns,
        &term.output_columns,
    ) {
        Ok(c) => c,
        Err(x) => {
            return Err(x);
        },
    };
    let order_by: Vec<OrderItem> = Vec::new();
    let subqueries: Vec<BoundQuery> = Vec::new();
    let refs: Vec<Expr> = Vec::new();
    assert(views(order_by@) =~= Seq::empty());
    assert(view_queries(subqueries) =~= Seq::empty());
    assert(views(refs@) =~= Seq::empty());
    let output_columns = copy_columns(&columns);
    Ok(
        BoundQuery {
            body: QueryBody::RecursiveQueryBody {
                anchor: Box::new(anchor),
                recursive_term: Box::new(term),
                distinct,
                output_columns: columns,
            },
            order_by,
            limit: None,
            offset: None,
            subqueries,
            correlated: false,
            correlated_outer_refs: refs,
            output_columns,
        },
    )
}

fn orders_by_output(order_by: &Vec<OrderItem>) -> (r: bool)
    ensures
        r == ordered_by_output(views(order_by@), 0),
{
    let mut i: usize = 0;
    while i < order_by.len()
        invariant
            i <= order_by.len(),
            ordered_by_output(views(order_by@), 0) == ordered_by_output(
                views(order_by@),
                i as int,
            ),
        decreases order_by.len() - i,
    {
        assert(views(order_by@)[i as int].expr == order_by@[i as int].expr@);
        match &order_by[i].expr {
            Expr::OutputColumn { .. } => {},
            _ => {
                return false;
            },
        }
        i = i + 1;
    }
    true
}

/// Checks that a `SELECT DISTINCT` is ordered by its output only.
pub(crate) fn check_distinct_order(body: &QueryBody, order_by: &Vec<OrderItem>) -> (r: Result<
    (),
    HtapError,
>)
    ensures
        outcome(r) == distinct_order_check(body@, views(order_by@)),
{
    match body {
        QueryBody::Select(s) => {
            if s.distinct && !orders_by_output(order_by) {
                return Err(
                    invalid(
                        owned(
                            "ORDER BY expressions must appear in the select list when SELECT DISTINCT is used",
                        ),
                    ),
                );
            }
            Ok(())
        },
        _ => Ok(()),
    }
}

} // verus!
