//! The model of expression binding: what an expression is bound to, or why it is refused.

use crate::calendar::timestamp_of_text;
use crate::expr::{plain_type, type_of, AggFn, AggregateView, ExprView};
use crate::model_calls::{
    aggregate_display, aggregate_named, aggregate_ref, aggregate_type, arg_expr, ascending_of,
    call_check, case_expr, casted, count_star, default_frame, extract_unit, extraction, frame_end,
    has_offset, is_framed, is_ranking, keep, lag_default_check, lag_offset, negation,
    nulls_first_of, ntile_head, numbering_head, one_argument_window, operation, operator_of,
    peers_frame, plain_args_check, range_order_check, rows_frame, scalar_call, shifted, substring,
    truth_test, window_call_check, window_check, window_list_check, wrong_count, Bound, HeadView,
    Mode,
};
use crate::model_query::query_of;
use crate::names::{comparable_check, single_name, InfoView};
use crate::query::{
    FrameView, OrderView, QueryView, ValueBoundView, WindowFrameDirection, WindowFunctionKind,
    WindowView,
};
use crate::scope::{resolved, Env, ScopeView, StateView};
use crate::sql::{
    BinaryOperator, CaseWhen, DuplicateTreatment, FrameBound, FrameUnits, Function, FunctionArg,
    FunctionArguments, OrderByExpr, Query, SqlExpr, SqlFrame, SqlNode, SqlWindow, UnaryOperator,
    WindowType,
};
use crate::text::{nat_text, upper};
use crate::typing::{
    bad_offset, bool_check, cast_target, is_frame_offset, like_check, literal_view, numeric_check,
    scoped_variable, value_frame_check, variable_ident,
};
use crate::value::{invalid_view, unsupported_view, DataType, ErrorView, ValueView};
use vstd::prelude::*;

verus! {

/// What a scope becomes inside a subquery: its own slots before those it can see.
pub open spec fn nested_outer(sc: ScopeView) -> Seq<InfoView> {
    sc.slots + sc.outer
}

/// The bound form of an expression, or its refusal.
pub open spec fn bind_of(cx: Env<'_>, sc: ScopeView, st: StateView, m: Mode, e: SqlExpr) -> Bound
    decreases e, 5int, 0int,
{
    match e.node {
        SqlNode::Nested(inner) => bind_of(cx, sc, st, m, *inner),
        SqlNode::Identifier(name) => match variable_ident(name@) {
            Err(x) => Err(x),
            Ok(Some(v)) => Ok((v, st)),
            Ok(None) => keep(resolved(sc, None, name@), st),
        },
        SqlNode::CompoundIdentifier(parts) => if parts@.len() != 2 {
            unsupported_view("multi-part column reference not supported: "@ + e.text@)
        } else {
            match scoped_variable(parts@[0]@, parts@[1]@) {
                Err(x) => Err(x),
                Ok(Some(v)) => Ok((v, st)),
                Ok(None) => keep(resolved(sc, Some(parts@[0]@), parts@[1]@), st),
            }
        },
        SqlNode::Value(v) => keep(literal_view(v, e.text@), st),
        SqlNode::DateLiteral(t) => match t {
            None => invalid_view("DATE literal requires a value"@),
            Some(s) => match timestamp_of_text(s@) {
                Ok(micros) => Ok((ExprView::Literal(ValueView::Timestamp(micros)), st)),
                Err(x) => Err(x),
            },
        },
        SqlNode::TypedLiteral => unsupported_view("typed literal not supported: "@ + e.text@),
        SqlNode::Interval { .. } => unsupported_view("typed literal not supported: "@ + e.text@),
        SqlNode::UnaryOp { op, expr } => bind_unary_of(cx, sc, st, m, op, *expr),
        SqlNode::BinaryOp { .. } => bind_binary_of(cx, sc, st, m, e),
        SqlNode::Extract { field, expr } => match extract_unit(field) {
            Err(x) => Err(x),
            Ok(unit) => match bind_of(cx, sc, st, m, *expr) {
                Err(x) => Err(x),
                Ok((b, st2)) => keep(extraction(unit, b), st2),
            },
        },
        SqlNode::Substring { .. } => bind_substring_of(cx, sc, st, m, e),
        SqlNode::IsNull(inner) => match bind_of(cx, sc, st, m, *inner) {
            Err(x) => Err(x),
            Ok((b, st2)) => Ok((ExprView::IsNull(Box::new(b)), st2)),
        },
        SqlNode::IsNotNull(inner) => match bind_of(cx, sc, st, m, *inner) {
            Err(x) => Err(x),
            Ok((b, st2)) => Ok((ExprView::IsNotNull(Box::new(b)), st2)),
        },
        SqlNode::IsTruth { expr, target, negated } => match bind_of(cx, sc, st, m, *expr) {
            Err(x) => Err(x),
            Ok((b, st2)) => keep(truth_test(b, target, negated), st2),
        },
        SqlNode::Like { .. } => bind_like_of(cx, sc, st, m, e),
        SqlNode::InList { expr, list, negated } => match bind_of(cx, sc, st, m, *expr) {
            Err(x) => Err(x),
            Ok((b, st2)) => match bind_candidates_of(cx, sc, st2, m, b, list, 0, Seq::empty()) {
                Err(x) => Err(x),
                Ok((items, st3)) => Ok(
                    (ExprView::In { expr: Box::new(b), list: items, negated }, st3),
                ),
            },
        },
        SqlNode::Between { .. } => bind_between_of(cx, sc, st, m, e),
        SqlNode::Case { .. } => bind_case_of(cx, sc, st, m, e),
        SqlNode::Cast { plain, expr, data_type } => if !plain {
            unsupported_view("only CAST(... AS ...) is supported"@)
        } else {
            match bind_of(cx, sc, st, m, *expr) {
                Err(x) => Err(x),
                Ok((b, st2)) => match cast_target(data_type) {
                    Err(x) => Err(x),
                    Ok(to) => keep(casted(b, to, *cx.answers), st2),
                },
            }
        },
        SqlNode::Function(f) => bind_function_of(cx, sc, st, m, *f),
        SqlNode::Subquery(q) => match bind_subquery_of(cx, sc, st, *q, "scalar subquery"@) {
            Err(x) => Err(x),
            Ok((bound, st2)) => keep(scalar_subquery(bound, st.subqueries.len()), st2),
        },
        SqlNode::InSubquery { expr, subquery, negated } => match bind_of(cx, sc, st, m, *expr) {
            Err(x) => Err(x),
            Ok((b, st2)) => match bind_subquery_of(cx, sc, st2, *subquery, "IN subquery"@) {
                Err(x) => Err(x),
                Ok((bound, st3)) => keep(
                    in_subquery(b, bound, st2.subqueries.len(), negated),
                    st3,
                ),
            },
        },
        SqlNode::Exists { subquery, negated } => match bind_subquery_of(
            cx,
            sc,
            st,
            *subquery,
            "EXISTS subquery"@,
        ) {
            Err(x) => Err(x),
            Ok((bound, st2)) => Ok(
                (
                    ExprView::Exists {
                        index: st.subqueries.len() as usize,
                        negated,
                        correlated: bound.correlated,
                    },
                    st2,
                ),
            ),
        },
        SqlNode::Tuple(_) => unsupported_view("row/tuple expressions not supported"@),
        SqlNode::Other => unsupported_view("expression not supported: "@ + e.text@),
    }
}

/// The use of a subquery as a value, or its refusal.
pub open spec fn scalar_subquery(q: QueryView, index: nat) -> Result<ExprView, ErrorView> {
    if q.output_columns.len() != 1 {
        invalid_view(
            "scalar subquery must return exactly one column, found "@ + nat_text(
                q.output_columns.len(),
            ),
        )
    } else {
        Ok(
            ExprView::ScalarSubquery {
                index: index as usize,
                data_type: q.output_columns[0].data_type,
                correlated: q.correlated,
            },
        )
    }
}

/// `IN` over a subquery, or its refusal.
pub open spec fn in_subquery(e: ExprView, q: QueryView, index: nat, negated: bool) -> Result<
    ExprView,
    ErrorView,
> {
    if q.output_columns.len() != 1 {
        invalid_view(
            "IN subquery must return exactly one column, found "@ + nat_text(
                q.output_columns.len(),
            ),
        )
    } else {
        match comparable_check(
            type_of(e),
            plain_type(q.output_columns[0].data_type, true),
            "IN"@,
        ) {
            Err(x) => Err(x),
            Ok(_) => Ok(
                ExprView::InSubquery {
                    expr: Box::new(e),
                    index: index as usize,
                    negated,
                    correlated: q.correlated,
                },
            ),
        }
    }
}

/// The bound form of a unary operator, or its refusal.
pub open spec fn bind_unary_of(
    cx: Env<'_>,
    sc: ScopeView,
    st: StateView,
    m: Mode,
    op: UnaryOperator,
    inner: SqlExpr,
) -> Bound
    decreases inner, 6int, 0int,
{
    match op {
        UnaryOperator::Other(t) => unsupported_view("unary operator "@ + t@ + " not supported"@),
        _ => match bind_of(cx, sc, st, m, inner) {
            Err(x) => Err(x),
            Ok((b, st2)) => match op {
                UnaryOperator::Not => match bool_check(type_of(b), "NOT"@) {
                    Err(x) => Err(x),
                    Ok(_) => Ok((ExprView::Not(Box::new(b)), st2)),
                },
                UnaryOperator::Minus => keep(negation(b), st2),
                _ => match numeric_check(type_of(b), "unary +"@) {
                    Err(x) => Err(x),
                    Ok(_) => Ok((b, st2)),
                },
            },
        },
    }
}

/// The bound form of a binary operator, or its refusal.
pub open spec fn bind_binary_of(
    cx: Env<'_>,
    sc: ScopeView,
    st: StateView,
    m: Mode,
    e: SqlExpr,
) -> Bound
    decreases e, 4int, 0int,
{
    match e.node {
        SqlNode::BinaryOp { left, op, right } => match (left.node, right.node) {
            (_, SqlNode::Interval { value, unit }) => match op {
                BinaryOperator::Plus | BinaryOperator::Minus => match bind_of(
                    cx,
                    sc,
                    st,
                    m,
                    *left,
                ) {
                    Err(x) => Err(x),
                    Ok((t, st2)) => keep(shifted(t, *value, unit, op is Minus), st2),
                },
                _ => invalid_view("calendar intervals may only be used with + or -"@),
            },
            (SqlNode::Interval { value, unit }, _) => match op {
                BinaryOperator::Plus => match bind_of(cx, sc, st, m, *right) {
                    Err(x) => Err(x),
                    Ok((t, st2)) => keep(shifted(t, *value, unit, false), st2),
                },
                _ => invalid_view("calendar intervals may only be used with timestamp + INTERVAL"@),
            },
            _ => match operator_of(op) {
                Err(x) => Err(x),
                Ok(op) => match bind_of(cx, sc, st, m, *left) {
                    Err(x) => Err(x),
                    Ok((l, st2)) => match bind_of(cx, sc, st2, m, *right) {
                        Err(x) => Err(x),
                        Ok((r, st3)) => keep(operation(op, l, r), st3),
                    },
                },
            },
        },
        _ => arbitrary(),
    }
}

/// The bound form of `SUBSTRING`, or its refusal.
pub open spec fn bind_substring_of(
    cx: Env<'_>,
    sc: ScopeView,
    st: StateView,
    m: Mode,
    e: SqlExpr,
) -> Bound
    decreases e, 4int, 0int,
{
    match e.node {
        SqlNode::Substring { expr, start: Some(start), length: Some(length) } => match bind_of(
            cx,
            sc,
            st,
            m,
            *expr,
        ) {
            Err(x) => Err(x),
            Ok((b, st2)) => match bind_of(cx, sc, st2, m, *start) {
                Err(x) => Err(x),
                Ok((s, st3)) => match bind_of(cx, sc, st3, m, *length) {
                    Err(x) => Err(x),
                    Ok((l, st4)) => keep(substring(b, s, l), st4),
                },
            },
        },
        _ => unsupported_view("SUBSTRING requires start and length arguments"@),
    }
}

/// The bound form of `LIKE`, or its refusal.
pub open spec fn bind_like_of(
    cx: Env<'_>,
    sc: ScopeView,
    st: StateView,
    m: Mode,
    e: SqlExpr,
) -> Bound
    decreases e, 4int, 0int,
{
    match e.node {
        SqlNode::Like { negated, any, expr, pattern, escape } => if any {
            unsupported_view("LIKE ANY not supported"@)
        } else if escape {
            unsupported_view("LIKE ... ESCAPE not supported"@)
        } else {
            match bind_of(cx, sc, st, m, *expr) {
                Err(x) => Err(x),
                Ok((b, st2)) => match bind_of(cx, sc, st2, m, *pattern) {
                    Err(x) => Err(x),
                    Ok((p, st3)) => match like_check(type_of(b), "LIKE operand"@) {
                        Err(x) => Err(x),
                        Ok(_) => match like_check(type_of(p), "LIKE pattern"@) {
                            Err(x) => Err(x),
                            Ok(_) => Ok(
                                (
                                    ExprView::Like {
                                        expr: Box::new(b),
                                        pattern: Box::new(p),
                                        negated,
                                    },
                                    st3,
                                ),
                            ),
                        },
                    },
                },
            }
        },
        _ => arbitrary(),
    }
}

/// The bound candidates of `IN` from the `i`-th on, behind those of `acc`, or a refusal.
pub open spec fn bind_candidates_of(
    cx: Env<'_>,
    sc: ScopeView,
    st: StateView,
    m: Mode,
    operand: ExprView,
    list: Vec<SqlExpr>,
    i: int,
    acc: Seq<ExprView>,
) -> Result<(Seq<ExprView>, StateView), ErrorView>
    decreases list, 0int, list@.len() - i,
{
    if i < 0 || i >= list@.len() {
        Ok((acc, st))
    } else {
        match bind_of(cx, sc, st, m, list@[i]) {
            Err(x) => Err(x),
            Ok((b, st2)) => match comparable_check(type_of(operand), type_of(b), "IN"@) {
                Err(x) => Err(x),
                Ok(_) => bind_candidates_of(cx, sc, st2, m, operand, list, i + 1, acc.push(b)),
            },
        }
    }
}

/// The bound form of `BETWEEN`, or its refusal.
pub open spec fn bind_between_of(
    cx: Env<'_>,
    sc: ScopeView,
    st: StateView,
    m: Mode,
    e: SqlExpr,
) -> Bound
    decreases e, 4int, 0int,
{
    match e.node {
        SqlNode::Between { expr, negated, low, high } => match bind_of(cx, sc, st, m, *expr) {
            Err(x) => Err(x),
            Ok((b, st2)) => match bind_of(cx, sc, st2, m, *low) {
                Err(x) => Err(x),
                Ok((l, st3)) => match bind_of(cx, sc, st3, m, *high) {
                    Err(x) => Err(x),
                    Ok((h, st4)) => match comparable_check(type_of(b), type_of(l), "BETWEEN"@) {
                        Err(x) => Err(x),
                        Ok(_) => match comparable_check(type_of(b), type_of(h), "BETWEEN"@) {
                            Err(x) => Err(x),
                            Ok(_) => Ok(
                                (
                                    ExprView::Between {
                                        expr: Box::new(b),
                                        low: Box::new(l),
                                        high: Box::new(h),
                                        negated,
                                    },
                                    st4,
                                ),
                            ),
                        },
                    },
                },
            },
        },
        _ => arbitrary(),
    }
}

/// Whether the condition of a `CASE` branch fits its operand.
pub open spec fn branch_check(operand: Option<ExprView>, condition: ExprView) -> Result<
    (),
    ErrorView,
> {
    match operand {
        Some(o) => comparable_check(type_of(o), type_of(condition), "CASE WHEN"@),
        None => bool_check(type_of(condition), "CASE WHEN"@),
    }
}

/// The bound branches of a `CASE` from the `i`-th on, behind those of `acc`, or a refusal.
pub open spec fn bind_branches_of(
    cx: Env<'_>,
    sc: ScopeView,
    st: StateView,
    m: Mode,
    operand: Option<ExprView>,
    list: Vec<CaseWhen>,
    i: int,
    acc: Seq<(ExprView, ExprView)>,
) -> Result<(Seq<(ExprView, ExprView)>, StateView), ErrorView>
    decreases list, 0int, list@.len() - i,
{
    if i < 0 || i >= list@.len() {
        Ok((acc, st))
    } else {
        match bind_of(cx, sc, st, m, list@[i].condition) {
            Err(x) => Err(x),
            Ok((c, st2)) => match branch_check(operand, c) {
                Err(x) => Err(x),
                Ok(_) => match bind_of(cx, sc, st2, m, list@[i].result) {
                    Err(x) => Err(x),
                    Ok((r, st3)) => bind_branches_of(
                        cx,
                        sc,
                        st3,
                        m,
                        operand,
                        list,
                        i + 1,
                        acc.push((c, r)),
                    ),
                },
            },
        }
    }
}

/// The bound form of an expression that may be missing.
pub open spec fn bind_option_of(
    cx: Env<'_>,
    sc: ScopeView,
    st: StateView,
    m: Mode,
    e: Option<Box<SqlExpr>>,
) -> Result<(Option<ExprView>, StateView), ErrorView>
    decreases e, 0int, 0int,
{
    match e {
        None => Ok((None, st)),
        Some(x) => match bind_of(cx, sc, st, m, *x) {
            Err(x) => Err(x),
            Ok((b, st2)) => Ok((Some(b), st2)),
        },
    }
}

/// The bound form of `CASE`, or its refusal.
pub open spec fn bind_case_of(
    cx: Env<'_>,
    sc: ScopeView,
    st: StateView,
    m: Mode,
    e: SqlExpr,
) -> Bound
    decreases e, 4int, 0int,
{
    match e.node {
        SqlNode::Case { operand, conditions, else_result } => match bind_option_of(
            cx,
            sc,
            st,
            m,
            operand,
        ) {
            Err(x) => Err(x),
            Ok((o, st2)) => match bind_branches_of(cx, sc, st2, m, o, conditions, 0, Seq::empty()) {
                Err(x) => Err(x),
                Ok((branches, st3)) => match bind_option_of(cx, sc, st3, m, else_result) {
                    Err(x) => Err(x),
                    Ok((last, st4)) => keep(case_expr(o, branches, last), st4),
                },
            },
        },
        _ => arbitrary(),
    }
}

/// A bound subquery, added to those collected, or its refusal.
pub open spec fn bind_subquery_of(
    cx: Env<'_>,
    sc: ScopeView,
    st: StateView,
    q: Query,
    what: Seq<char>,
) -> Result<(QueryView, StateView), ErrorView>
    decreases q, 9int, 0int,
{
    if !sc.allow_subqueries {
        unsupported_view(what + " not supported here"@)
    } else {
        match query_of(cx, sc.ctes, nested_outer(sc), sc.slots.len() as int, q) {
            Err(x) => Err(x),
            Ok(bound) => Ok(
                (bound, StateView { subqueries: st.subqueries.push(bound), ..st }),
            ),
        }
    }
}

/// The bound arguments of a function from the `i`-th on, behind those of `acc`, or a refusal.
pub open spec fn bind_args_of(
    cx: Env<'_>,
    sc: ScopeView,
    st: StateView,
    m: Mode,
    args: Vec<FunctionArg>,
    name: Seq<char>,
    i: int,
    acc: Seq<ExprView>,
) -> Result<(Seq<ExprView>, StateView), ErrorView>
    decreases args, 0int, args@.len() - i,
{
    if i < 0 || i >= args@.len() {
        Ok((acc, st))
    } else {
        match args@[i] {
            FunctionArg::Expr(e) => match bind_of(cx, sc, st, m, e) {
                Err(x) => Err(x),
                Ok((b, st2)) => bind_args_of(cx, sc, st2, m, args, name, i + 1, acc.push(b)),
            },
            _ => unsupported_view("argument form not supported in '"@ + name + "'"@),
        }
    }
}

/// The bound form of a function call, or its refusal.
pub open spec fn bind_function_of(
    cx: Env<'_>,
    sc: ScopeView,
    st: StateView,
    m: Mode,
    f: Function,
) -> Bound
    decreases f, 9int, 0int,
{
    match single_name(f.name) {
        Err(x) => Err(x),
        Ok(written) => if f.over is Some {
            bind_window_of(cx, sc, st, m, f, upper(written))
        } else {
            bind_call_of(cx, sc, st, m, f, upper(written))
        },
    }
}

/// The bound form of a function call without `OVER`, or its refusal.
pub open spec fn bind_call_of(
    cx: Env<'_>,
    sc: ScopeView,
    st: StateView,
    m: Mode,
    f: Function,
    name: Seq<char>,
) -> Bound
    decreases f, 8int, 0int,
{
    match call_check(f) {
        Err(x) => Err(x),
        Ok(_) => match f.args {
            FunctionArguments::Missing => invalid_view(
                "function '"@ + name + "' requires arguments"@,
            ),
            FunctionArguments::Subquery => unsupported_view(
                "subqueries in function arguments not supported"@,
            ),
            FunctionArguments::List(list) => if list.clauses {
                unsupported_view("clauses in function arguments not supported"@)
            } else {
                let distinct = list.duplicates == Some(DuplicateTreatment::Distinct);
                match aggregate_named(name) {
                    Some(agg) => bind_aggregate_of(
                        cx,
                        sc,
                        st,
                        m,
                        agg,
                        distinct,
                        list.args,
                        name,
                    ),
                    None => if distinct {
                        invalid_view(
                            "DISTINCT is only valid in aggregate functions, not '"@ + name + "'"@,
                        )
                    } else {
                        match bind_args_of(cx, sc, st, m, list.args, name, 0, Seq::empty()) {
                            Err(x) => Err(x),
                            Ok((args, st2)) => keep(scalar_call(name, args), st2),
                        }
                    },
                }
            },
        },
    }
}

/// The bound form of an aggregate, or its refusal.
pub open spec fn bind_aggregate_of(
    cx: Env<'_>,
    sc: ScopeView,
    st: StateView,
    m: Mode,
    func: AggFn,
    distinct: bool,
    args: Vec<FunctionArg>,
    name: Seq<char>,
) -> Bound
    decreases args, 1int, 0int,
{
    if !sc.allow_aggregates {
        invalid_view("aggregate function "@ + name + " is not allowed in this clause"@)
    } else if m.in_aggregate {
        invalid_view("aggregate functions cannot be nested"@)
    } else if args@.len() != 1 {
        wrong_count(name, " requires exactly 1 argument, found "@, args@.len())
    } else {
        match args@[0] {
            FunctionArg::Wildcard => if func != AggFn::Count {
                invalid_view(name + "(*) is not valid"@)
            } else if distinct {
                invalid_view("COUNT(DISTINCT *) is not valid"@)
            } else {
                Ok(aggregate_ref(st, count_star()))
            },
            FunctionArg::Expr(e) => match bind_of(
                cx,
                sc,
                st,
                Mode { in_aggregate: true, in_window: m.in_window },
                e,
            ) {
                Err(x) => Err(x),
                Ok((arg, st2)) => match aggregate_type(func, arg, name) {
                    Err(x) => Err(x),
                    Ok((data_type, nullable)) => Ok(
                        aggregate_ref(
                            st2,
                            AggregateView {
                                func,
                                distinct,
                                arg: Some(arg),
                                data_type,
                                nullable,
                                name: aggregate_display(name, distinct, e.text@),
                            },
                        ),
                    ),
                },
            },
            FunctionArg::Other => unsupported_view(
                "argument form not supported in '"@ + name + "'"@,
            ),
        }
    }
}

/// The bound arguments of a window function and what it results in, or its refusal.
pub open spec fn window_head_of(
    cx: Env<'_>,
    sc: ScopeView,
    st: StateView,
    m: Mode,
    args: Vec<FunctionArg>,
    name: Seq<char>,
) -> Result<HeadView, ErrorView>
    decreases args, 2int, 0int,
{
    if name == "ROW_NUMBER"@ || name == "RANK"@ || name == "DENSE_RANK"@ {
        numbering_head(name, args@.len(), st)
    } else if name == "NTILE"@ {
        ntile_head(name, args@, st)
    } else if name == "LAG"@ || name == "LEAD"@ {
        window_lag_of(cx, sc, st, m, args, name)
    } else if name == "COUNT"@ {
        window_count_of(cx, sc, st, m, args)
    } else if is_framed(name) {
        window_value_of(cx, sc, st, m, args, name)
    } else {
        unsupported_view("window function '"@ + name + "' not supported"@)
    }
}

/// The mode inside a window function.
pub open spec fn inside_window(m: Mode) -> Mode {
    Mode { in_aggregate: m.in_aggregate, in_window: true }
}

/// `COUNT` as a window function, or its refusal.
pub open spec fn window_count_of(
    cx: Env<'_>,
    sc: ScopeView,
    st: StateView,
    m: Mode,
    args: Vec<FunctionArg>,
) -> Result<HeadView, ErrorView>
    decreases args, 0int, 0int,
{
    if args@.len() != 1 || args@[0] is Other {
        wrong_count("COUNT"@, " requires exactly 1 argument, found "@, args@.len())
    } else {
        match args@[0] {
            FunctionArg::Expr(e) => match bind_of(cx, sc, st, inside_window(m), e) {
                Err(x) => Err(x),
                Ok((b, st2)) => Ok(
                    HeadView {
                        kind: WindowFunctionKind::Count,
                        args: seq![b],
                        data_type: DataType::Int64,
                        nullable: false,
                        st: st2,
                    },
                ),
            },
            _ => Ok(
                HeadView {
                    kind: WindowFunctionKind::CountStar,
                    args: Seq::empty(),
                    data_type: DataType::Int64,
                    nullable: false,
                    st,
                },
            ),
        }
    }
}

/// A window function over one value, or its refusal.
pub open spec fn window_value_of(
    cx: Env<'_>,
    sc: ScopeView,
    st: StateView,
    m: Mode,
    args: Vec<FunctionArg>,
    name: Seq<char>,
) -> Result<HeadView, ErrorView>
    decreases args, 0int, 0int,
{
    if args@.len() != 1 {
        wrong_count(name, " requires exactly 1 argument, found "@, args@.len())
    } else {
        match args@[0] {
            FunctionArg::Expr(e) => match bind_of(cx, sc, st, inside_window(m), e) {
                Err(x) => Err(x),
                Ok((b, st2)) => match one_argument_window(name, b) {
                    Err(x) => Err(x),
                    Ok((kind, data_type)) => Ok(
                        HeadView { kind, args: seq![b], data_type, nullable: true, st: st2 },
                    ),
                },
            },
            _ => arbitrary(),
        }
    }
}

/// The offset of `LAG` or `LEAD`; one row where none is written.
pub open spec fn lag_offset_of(args: Seq<FunctionArg>, name: Seq<char>) -> Result<i64, ErrorView> {
    if args.len() > 1 {
        lag_offset(arg_expr(args[1]), name)
    } else {
        Ok(1)
    }
}

/// The default of `LAG` or `LEAD`; `NULL` where none is written.
pub open spec fn lag_default_of(
    cx: Env<'_>,
    sc: ScopeView,
    st: StateView,
    m: Mode,
    args: Vec<FunctionArg>,
    name: Seq<char>,
    value: ExprView,
) -> Bound
    decreases args, 0int, 0int,
{
    if args@.len() > 2 {
        match args@[2] {
            FunctionArg::Expr(d) => match bind_of(cx, sc, st, inside_window(m), d) {
                Err(x) => Err(x),
                Ok((b, st2)) => match lag_default_check(value, b, name) {
                    Err(x) => Err(x),
                    Ok(_) => Ok((b, st2)),
                },
            },
            _ => arbitrary(),
        }
    } else {
        Ok((ExprView::Literal(ValueView::Null), st))
    }
}

/// The bound arguments of `LAG` or `LEAD`, or their refusal.
pub open spec fn window_lag_of(
    cx: Env<'_>,
    sc: ScopeView,
    st: StateView,
    m: Mode,
    args: Vec<FunctionArg>,
    name: Seq<char>,
) -> Result<HeadView, ErrorView>
    decreases args, 1int, 0int,
{
    if args@.len() < 1 || args@.len() > 3 {
        wrong_count(name, " requires 1 to 3 arguments, found "@, args@.len())
    } else {
        match args@[0] {
            FunctionArg::Expr(e) => match bind_of(cx, sc, st, inside_window(m), e) {
                Err(x) => Err(x),
                Ok((value, st2)) => match lag_offset_of(args@, name) {
                    Err(x) => Err(x),
                    Ok(k) => match lag_default_of(cx, sc, st2, m, args, name, value) {
                        Err(x) => Err(x),
                        Ok((d, st3)) => Ok(
                            HeadView {
                                kind: if name == "LAG"@ {
                                    WindowFunctionKind::Lag
                                } else {
                                    WindowFunctionKind::Lead
                                },
                                args: seq![value, ExprView::Literal(ValueView::Int64(k)), d],
                                data_type: type_of(value).data_type,
                                nullable: true,
                                st: st3,
                            },
                        ),
                    },
                },
            },
            _ => arbitrary(),
        }
    }
}

/// The bound expressions of a list from the `i`-th on, behind those of `acc`, or a refusal.
pub open spec fn bind_list_of(
    cx: Env<'_>,
    sc: ScopeView,
    st: StateView,
    m: Mode,
    list: Vec<SqlExpr>,
    i: int,
    acc: Seq<ExprView>,
) -> Result<(Seq<ExprView>, StateView), ErrorView>
    decreases list, 0int, list@.len() - i,
{
    if i < 0 || i >= list@.len() {
        Ok((acc, st))
    } else {
        match bind_of(cx, sc, st, m, list@[i]) {
            Err(x) => Err(x),
            Ok((b, st2)) => bind_list_of(cx, sc, st2, m, list, i + 1, acc.push(b)),
        }
    }
}

/// The order item of a bound key.
pub open spec fn order_item(o: OrderByExpr, key: ExprView) -> OrderView {
    OrderView { expr: key, asc: ascending_of(o), nulls_first: nulls_first_of(o) }
}

/// The bound order keys of a window from the `i`-th on, behind those of `acc`, or a refusal.
pub open spec fn bind_window_order_of(
    cx: Env<'_>,
    sc: ScopeView,
    st: StateView,
    m: Mode,
    list: Vec<OrderByExpr>,
    i: int,
    acc: Seq<OrderView>,
) -> Result<(Seq<OrderView>, StateView), ErrorView>
    decreases list, 0int, list@.len() - i,
{
    if i < 0 || i >= list@.len() {
        Ok((acc, st))
    } else if list@[i].with_fill {
        unsupported_view("WITH FILL is not supported in window ORDER BY"@)
    } else {
        match bind_of(cx, sc, st, m, list@[i].expr) {
            Err(x) => Err(x),
            Ok((b, st2)) => bind_window_order_of(
                cx,
                sc,
                st2,
                m,
                list,
                i + 1,
                acc.push(order_item(list@[i], b)),
            ),
        }
    }
}

/// A bound distance of a `RANGE` frame, or its refusal.
pub open spec fn frame_distance(value: ExprView, direction: WindowFrameDirection) -> Result<
    ValueBoundView,
    ErrorView,
> {
    if is_frame_offset(value) {
        Ok(ValueBoundView::Offset { value, direction })
    } else {
        Err(bad_offset())
    }
}

/// A bound of a `RANGE` frame with offsets, or its refusal.
pub open spec fn bind_value_bound_of(
    cx: Env<'_>,
    sc: ScopeView,
    st: StateView,
    m: Mode,
    b: FrameBound,
) -> Result<(ValueBoundView, StateView), ErrorView>
    decreases b, 0int, 0int,
{
    match b {
        FrameBound::CurrentRow => Ok((ValueBoundView::CurrentRow, st)),
        FrameBound::Preceding(None) => Ok(
            (ValueBoundView::Unbounded(WindowFrameDirection::Preceding), st),
        ),
        FrameBound::Following(None) => Ok(
            (ValueBoundView::Unbounded(WindowFrameDirection::Following), st),
        ),
        FrameBound::Preceding(Some(e)) => match bind_of(cx, sc, st, m, *e) {
            Err(x) => Err(x),
            Ok((value, st2)) => match frame_distance(value, WindowFrameDirection::Preceding) {
                Err(x) => Err(x),
                Ok(v) => Ok((v, st2)),
            },
        },
        FrameBound::Following(Some(e)) => match bind_of(cx, sc, st, m, *e) {
            Err(x) => Err(x),
            Ok((value, st2)) => match frame_distance(value, WindowFrameDirection::Following) {
                Err(x) => Err(x),
                Ok(v) => Ok((v, st2)),
            },
        },
    }
}

/// The end bound of a `RANGE` frame with offsets, or its refusal.
pub open spec fn bind_end_bound_of(
    cx: Env<'_>,
    sc: ScopeView,
    st: StateView,
    m: Mode,
    b: Option<FrameBound>,
) -> Result<(ValueBoundView, StateView), ErrorView>
    decreases b, 0int, 0int,
{
    match b {
        None => Ok((ValueBoundView::CurrentRow, st)),
        Some(x) => bind_value_bound_of(cx, sc, st, m, x),
    }
}

/// A `RANGE` frame with offsets, or its refusal.
pub open spec fn bind_range_of(
    cx: Env<'_>,
    sc: ScopeView,
    st: StateView,
    m: Mode,
    f: SqlFrame,
    order_by: Seq<OrderView>,
) -> Result<(FrameView, StateView), ErrorView>
    decreases f, 0int, 0int,
{
    match range_order_check(order_by) {
        Err(x) => Err(x),
        Ok(_) => match bind_value_bound_of(cx, sc, st, m, f.start) {
            Err(x) => Err(x),
            Ok((start, st2)) => match bind_end_bound_of(cx, sc, st2, m, f.end) {
                Err(x) => Err(x),
                Ok((end, st3)) => match value_frame_check(start, end, *cx.answers) {
                    Err(x) => Err(x),
                    Ok(_) => Ok((FrameView::ValueRange { start, end }, st3)),
                },
            },
        },
    }
}

/// The frame of a window function, or its refusal.
pub open spec fn bind_frame_of(
    cx: Env<'_>,
    sc: ScopeView,
    st: StateView,
    m: Mode,
    frame: Option<SqlFrame>,
    order_by: Seq<OrderView>,
) -> Result<(FrameView, StateView), ErrorView>
    decreases frame, 0int, 0int,
{
    match frame {
        None => Ok((default_frame(order_by.len() > 0), st)),
        Some(f) => match f.units {
            FrameUnits::Rows => match rows_frame(f) {
                Err(x) => Err(x),
                Ok(v) => Ok((v, st)),
            },
            FrameUnits::Range => if !has_offset(f.start) && !has_offset(frame_end(f)) {
                match peers_frame(f) {
                    Err(x) => Err(x),
                    Ok(v) => Ok((v, st)),
                }
            } else {
                bind_range_of(cx, sc, st, m, f, order_by)
            },
            FrameUnits::Groups => unsupported_view("GROUPS window frames are not supported"@),
        },
    }
}

/// A window function collected, or its refusal where none are.
pub open spec fn window_collected(
    sc: ScopeView,
    head: HeadView,
    partition_by: Seq<ExprView>,
    order_by: Seq<OrderView>,
    frame: FrameView,
    st: StateView,
) -> Bound {
    if !sc.collect_windows {
        invalid_view("window functions are only allowed in the select list"@)
    } else {
        Ok(
            (
                ExprView::WindowRef {
                    index: st.windows.len() as usize,
                    data_type: head.data_type,
                    nullable: head.nullable,
                },
                StateView {
                    windows: st.windows.push(
                        WindowView {
                            func: head.kind,
                            args: head.args,
                            partition_by,
                            order_by,
                            frame,
                            data_type: head.data_type,
                            nullable: head.nullable,
                        },
                    ),
                    ..st
                },
            ),
        )
    }
}

/// The window function that arguments and a window come to, or its refusal.
pub open spec fn bind_over_of(
    cx: Env<'_>,
    sc: ScopeView,
    m: Mode,
    head: HeadView,
    name: Seq<char>,
    w: SqlWindow,
) -> Bound
    decreases w, 0int, 0int,
{
    let inside = inside_window(m);
    match bind_list_of(cx, sc, head.st, inside, w.partition_by, 0, Seq::empty()) {
        Err(x) => Err(x),
        Ok((partition_by, st2)) => match bind_window_order_of(
            cx,
            sc,
            st2,
            inside,
            w.order_by,
            0,
            Seq::empty(),
        ) {
            Err(x) => Err(x),
            Ok((order_by, st3)) => if is_framed(name) {
                match bind_frame_of(cx, sc, st3, inside, w.frame, order_by) {
                    Err(x) => Err(x),
                    Ok((frame, st4)) => window_collected(
                        sc,
                        head,
                        partition_by,
                        order_by,
                        frame,
                        st4,
                    ),
                }
            } else {
                window_collected(sc, head, partition_by, order_by, FrameView::Whole, st3)
            },
        },
    }
}

/// Whether the arguments of a window function have a form it accepts.
pub open spec fn window_args_check(args: Seq<FunctionArg>, name: Seq<char>) -> Result<
    (),
    ErrorView,
> {
    if name == "COUNT"@ {
        Ok(())
    } else {
        plain_args_check(args, name, 0)
    }
}

/// The bound form of a window function, or its refusal.
pub open spec fn bind_window_of(
    cx: Env<'_>,
    sc: ScopeView,
    st: StateView,
    m: Mode,
    f: Function,
    name: Seq<char>,
) -> Bound
    decreases f, 8int, 0int,
{
    match window_call_check(sc, m, f) {
        Err(x) => Err(x),
        Ok(_) => match window_check(f.over) {
            Err(x) => Err(x),
            Ok(_) => match window_list_check(f.args, name) {
                Err(x) => Err(x),
                Ok(_) => match (f.over, f.args) {
                    (Some(WindowType::Spec(w)), FunctionArguments::List(list)) => {
                        match window_args_check(list.args@, name) {
                            Err(x) => Err(x),
                            Ok(_) => if is_ranking(name) && w.frame is Some {
                                unsupported_view(
                                    "explicit window frames are not supported for "@ + name,
                                )
                            } else {
                                match window_head_of(cx, sc, st, m, list.args, name) {
                                    Err(x) => Err(x),
                                    Ok(head) => bind_over_of(cx, sc, m, head, name, w),
                                }
                            },
                        }
                    },
                    _ => arbitrary(),
                },
            },
        },
    }
}

} // verus!
