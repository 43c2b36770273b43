//! Binding of expressions.

use crate::calendar::parse_date_to_timestamp_micros;
use crate::convert::cast_value;
use crate::expr::{
    type_of, view_branches, view_exprs, AggFn, AggregateSpec, BinOp, CalendarIntervalUnit, Expr,
    ExprView, ScalarFn,
};
use crate::model_calls::{
    aggregate_named, aggregate_ref, aggregate_type, arity_check, avg_type, call_check, case_expr,
    case_results, casted, count_star, default_frame, every_null, extract_unit, extraction,
    has_offset, is_framed, is_ranking, lag_default_check, negation, ntile_head, numbering_head,
    one_argument_window, operation, operator_of, peers_frame, plain_args_check, range_order_check,
    rows_frame, same_aggregate, scalar_call, scalar_named, shifted, some_null, substring, sum_type,
    text_function, truth_comparison, truth_test, window_call_check, window_check,
    window_list_check, HeadView, Mode,
};
use crate::model_expr::{
    bind_aggregate_of, bind_args_of, bind_between_of, bind_binary_of, bind_branches_of,
    bind_call_of, bind_candidates_of, bind_case_of, bind_end_bound_of, bind_frame_of,
    bind_function_of, bind_like_of, bind_list_of, bind_of, bind_option_of, bind_over_of,
    bind_range_of, bind_subquery_of, bind_substring_of, bind_unary_of, bind_value_bound_of,
    bind_window_of, bind_window_order_of, branch_check, frame_distance, in_subquery,
    lag_default_of, lag_offset_of, nested_outer, order_item, scalar_subquery, window_args_check,
    window_collected, window_count_of, window_head_of, window_lag_of, window_value_of,
};
use crate::names::{check_comparable, copy_infos, first_at, object_name_single, union_type};
use crate::query::{
    OrderItem, PeerFrameBound, QueryView, ValueFrameBound, WindowFrame, WindowFrameDirection,
    WindowFunctionKind, WindowSpec,
};
use crate::scope::{BindState, Env, Scope, StateView};
use crate::sql::{
    BinaryOperator, CaseWhen, DateTimeField, DuplicateTreatment, FrameBound, FrameUnits, Function,
    FunctionArg, FunctionArguments, OrderByExpr, Query, SqlExpr, SqlFrame, SqlNode, SqlValue,
    SqlWindow, UnaryOperator, WindowType,
};
use crate::text::{
    cat2, cat3, cat4, cat5, count_text, owned, parse_u64, same_text, to_upper, unsigned_value,
};
use crate::typing::{
    bad_offset_error, bind_calendar_interval, bind_literal, bind_peer_frame_bound,
    bind_row_frame_bound, check_binary_types, coerce_pair, common_type, integer_literal_of,
    is_offset_literal, map_cast_type, parse_scoped_system_variable, parse_variable_ident,
    require_bool, require_like, require_numeric, require_string, require_timestamp,
    validate_peer_frame_bounds, validate_row_frame_bounds, validate_value_frame_bounds,
};
use crate::value::{
    invalid, lemma_views_push, option_view, outcome, unsupported, views, DataType, ErrorView,
    HtapError, Value, ValueView, MAX_DECIMAL_PRECISION,
};
use vstd::prelude::*;

verus! {

/// Whether a result and the state after it are what a model says; after a refusal the state does
/// not matter.
pub open spec fn agrees<T: View>(
    r: Result<T, HtapError>,
    st: StateView,
    model: Result<(T::V, StateView), ErrorView>,
) -> bool {
    match r {
        Ok(x) => model == Ok::<(T::V, StateView), ErrorView>((x@, st)),
        Err(e) => model == Err::<(T::V, StateView), ErrorView>(e@),
    }
}

/// The same of a list.
pub open spec fn agrees_list<T: View>(
    r: Result<Vec<T>, HtapError>,
    st: StateView,
    model: Result<(Seq<T::V>, StateView), ErrorView>,
) -> bool {
    match r {
        Ok(x) => model == Ok::<(Seq<T::V>, StateView), ErrorView>((views(x@), st)),
        Err(e) => model == Err::<(Seq<T::V>, StateView), ErrorView>(e@),
    }
}

/// The same of something that may be missing.
pub open spec fn agrees_option<T: View>(
    r: Result<Option<T>, HtapError>,
    st: StateView,
    model: Result<(Option<T::V>, StateView), ErrorView>,
) -> bool {
    match r {
        Ok(x) => model == Ok::<(Option<T::V>, StateView), ErrorView>((option_view(x), st)),
        Err(e) => model == Err::<(Option<T::V>, StateView), ErrorView>(e@),
    }
}

fn map_operator(op: &BinaryOperator) -> (r: Result<BinOp, HtapError>)
    ensures
        match r {
            Ok(x) => operator_of(*op) == Ok::<BinOp, ErrorView>(x),
            Err(e) => operator_of(*op) == Err::<BinOp, ErrorView>(e@),
        },
{
    match op {
        BinaryOperator::Plus => Ok(BinOp::Add),
        BinaryOperator::Minus => Ok(BinOp::Sub),
        BinaryOperator::Multiply => Ok(BinOp::Mul),
        BinaryOperator::Divide => Ok(BinOp::Div),
        BinaryOperator::IntegerDivide => Ok(BinOp::IntDiv),
        BinaryOperator::Modulo => Ok(BinOp::Mod),
        BinaryOperator::Eq => Ok(BinOp::Eq),
        BinaryOperator::NotEq => Ok(BinOp::NotEq),
        BinaryOperator::Lt => Ok(BinOp::Lt),
        BinaryOperator::LtEq => Ok(BinOp::Lte),
        BinaryOperator::Gt => Ok(BinOp::Gt),
        BinaryOperator::GtEq => Ok(BinOp::Gte),
        BinaryOperator::And => Ok(BinOp::And),
        BinaryOperator::Or => Ok(BinOp::Or),
        BinaryOperator::Other(t) => Err(
            unsupported(cat3("binary operator ", t.as_str(), " not supported")),
        ),
    }
}

fn negate(e: Expr) -> (r: Result<Expr, HtapError>)
    ensures
        outcome(r) == negation(e@),
{
    match &e {
        Expr::Literal(Value::Int64(i)) => {
            if *i == i64::MIN {
                return Err(invalid(owned("integer literal overflow")));
            }
            Ok(Expr::Literal(Value::Int64(-*i)))
        },
        Expr::Literal(Value::Float64(d)) => Ok(Expr::Literal(Value::Float64(d.neg()))),
        _ => match require_numeric(&e, "unary -") {
            Ok(_) => Ok(Expr::Negate(Box::new(e))),
            Err(x) => Err(x),
        },
    }
}

fn operate(op: BinOp, l: Expr, r: Expr) -> (res: Result<Expr, HtapError>)
    ensures
        outcome(res) == operation(op, l@, r@),
{
    let (l2, r2) = if op.is_comparison() {
        coerce_pair(l, r)
    } else {
        (l, r)
    };
    match check_binary_types(op, &l2, &r2) {
        Ok(_) => Ok(Expr::BinaryOp { op, left: Box::new(l2), right: Box::new(r2) }),
        Err(e) => Err(e),
    }
}

fn shift(timestamp: Expr, value: &SqlExpr, unit: &Option<DateTimeField>, negated: bool) -> (r: Result<
    Expr,
    HtapError,
>)
    ensures
        outcome(r) == shifted(timestamp@, *value, *unit, negated),
{
    match require_timestamp(&timestamp, "calendar interval") {
        Err(e) => Err(e),
        Ok(_) => match bind_calendar_interval(value, unit) {
            Err(e) => Err(e),
            Ok((quantity, unit)) => Ok(
                Expr::CalendarInterval {
                    expr: Box::new(timestamp),
                    quantity: Box::new(quantity),
                    unit,
                    negated,
                },
            ),
        },
    }
}

fn test_truth(e: Expr, target: bool, negated: bool) -> (r: Result<Expr, HtapError>)
    ensures
        outcome(r) == truth_test(e@, target, negated),
{
    match require_bool(&e, "IS TRUE/FALSE") {
        Err(x) => {
            return Err(x);
        },
        Ok(_) => {},
    }
    let ghost operand = e@;
    let mut args: Vec<Expr> = Vec::new();
    let other = Expr::Literal(Value::Bool(!target));
    assert(other@ == ExprView::Literal(ValueView::Bool(!target)));
    args.push(e);
    args.push(other);
    assert(view_exprs(args) =~= seq![operand, ExprView::Literal(ValueView::Bool(!target))]);
    let coalesced = Expr::ScalarFunction {
        func: ScalarFn::Coalesce,
        args,
        data_type: DataType::Bool,
        nullable: false,
    };
    let right = Expr::Literal(Value::Bool(target));
    assert(right@ == ExprView::Literal(ValueView::Bool(target)));
    assert(coalesced@ == (ExprView::ScalarFunction {
        func: ScalarFn::Coalesce,
        args: seq![operand, ExprView::Literal(ValueView::Bool(!target))],
        data_type: DataType::Bool,
        nullable: false,
    }));
    let test = Expr::BinaryOp {
        op: BinOp::Eq,
        left: Box::new(coalesced),
        right: Box::new(right),
    };
    assert(test@ == truth_comparison(operand, target));
    Ok(
        if negated {
            Expr::Not(Box::new(test))
        } else {
            test
        },
    )
}

fn extract(field: &DateTimeField) -> (r: Result<CalendarIntervalUnit, HtapError>)
    ensures
        match r {
            Ok(x) => extract_unit(*field) == Ok::<CalendarIntervalUnit, ErrorView>(x),
            Err(e) => extract_unit(*field) == Err::<CalendarIntervalUnit, ErrorView>(e@),
        },
{
    match field {
        DateTimeField::Year => Ok(CalendarIntervalUnit::Year),
        DateTimeField::Month => Ok(CalendarIntervalUnit::Month),
        DateTimeField::Day => Ok(CalendarIntervalUnit::Day),
        DateTimeField::Other(t) => Err(
            unsupported(cat3("EXTRACT field ", t.as_str(), " not supported")),
        ),
    }
}

fn extract_from(unit: CalendarIntervalUnit, e: Expr) -> (r: Result<Expr, HtapError>)
    ensures
        outcome(r) == extraction(unit, e@),
{
    match require_timestamp(&e, "EXTRACT") {
        Err(x) => {
            return Err(x);
        },
        Ok(_) => {},
    }
    let ghost operand = e@;
    let mut args: Vec<Expr> = Vec::new();
    args.push(e);
    assert(view_exprs(args) =~= seq![operand]);
    Ok(
        Expr::ScalarFunction {
            func: ScalarFn::Extract(unit),
            args,
            data_type: DataType::Int64,
            nullable: true,
        },
    )
}

fn take_substring(e: Expr, start: Expr, length: Expr) -> (r: Result<Expr, HtapError>)
    ensures
        outcome(r) == substring(e@, start@, length@),
{
    match require_string(&e, "SUBSTRING") {
        Err(x) => {
            return Err(x);
        },
        Ok(_) => {},
    }
    match require_numeric(&start, "SUBSTRING start") {
        Err(x) => {
            return Err(x);
        },
        Ok(_) => {},
    }
    match require_numeric(&length, "SUBSTRING length") {
        Err(x) => {
            return Err(x);
        },
        Ok(_) => {},
    }
    let ghost all = seq![e@, start@, length@];
    let mut args: Vec<Expr> = Vec::new();
    args.push(e);
    args.push(start);
    args.push(length);
    assert(view_exprs(args) =~= all);
    Ok(
        Expr::ScalarFunction {
            func: ScalarFn::Substring,
            args,
            data_type: DataType::String,
            nullable: true,
        },
    )
}

fn cast_to(e: Expr, to: DataType, cx: Env<'_>) -> (r: Result<Expr, HtapError>)
    ensures
        outcome(r) == casted(e@, to, *cx.answers),
{
    match &e {
        Expr::Literal(v) => match cast_value(v, to, cx.answers) {
            Ok(x) => Ok(Expr::Literal(x)),
            Err(x) => Err(x),
        },
        _ => Ok(Expr::Cast { expr: Box::new(e), to }),
    }
}

fn case_of(operand: Option<Expr>, branches: Vec<(Expr, Expr)>, last: Option<Expr>) -> (r: Result<
    Expr,
    HtapError,
>)
    ensures
        outcome(r) == case_expr(option_view(operand), view_branches(branches), option_view(last)),
{
    let mut results: Vec<Expr> = Vec::new();
    let mut i: usize = 0;
    while i < branches.len()
        invariant
            i <= branches.len(),
            results.len() == i,
            forall|j: int| 0 <= j < i ==> (#[trigger] results@[j])@ == branches@[j].1@,
        decreases branches.len() - i,
    {
        let x = branches[i].1.copy();
        results.push(x);
        i = i + 1;
    }
    match &last {
        Some(e) => {
            let x = e.copy();
            results.push(x);
        },
        None => {},
    }
    assert(views(results@) =~= case_results(view_branches(branches), option_view(last)));
    match common_type(&results, "CASE") {
        Err(x) => Err(x),
        Ok((data_type, nullable)) => {
            let has_last = last.is_some();
            let operand2 = match operand {
                Some(o) => Some(Box::new(o)),
                None => None,
            };
            let last2 = match last {
                Some(o) => Some(Box::new(o)),
                None => None,
            };
            Ok(
                Expr::Case {
                    operand: operand2,
                    branches,
                    else_result: last2,
                    data_type,
                    nullable: nullable || !has_last,
                },
            )
        },
    }
}

fn find_aggregate(name: &str) -> (r: Option<AggFn>)
    ensures
        r == aggregate_named(name@),
{
    if same_text(name, "COUNT") {
        Some(AggFn::Count)
    } else if same_text(name, "SUM") {
        Some(AggFn::Sum)
    } else if same_text(name, "AVG") {
        Some(AggFn::Avg)
    } else if same_text(name, "MIN") {
        Some(AggFn::Min)
    } else if same_text(name, "MAX") {
        Some(AggFn::Max)
    } else {
        None
    }
}

fn type_of_sum(t: DataType) -> (r: DataType)
    ensures
        r == sum_type(t),
{
    match t {
        DataType::Float64 => DataType::Float64,
        DataType::Decimal { scale, .. } => DataType::Decimal {
            precision: MAX_DECIMAL_PRECISION,
            scale,
        },
        _ => DataType::Int64,
    }
}

fn type_of_avg(t: DataType) -> (r: DataType)
    ensures
        r == avg_type(t),
{
    match t {
        DataType::Decimal { scale, .. } => {
            let wider: u8 = if scale >= MAX_DECIMAL_PRECISION - 4 {
                MAX_DECIMAL_PRECISION
            } else {
                scale + 4
            };
            DataType::Decimal { precision: MAX_DECIMAL_PRECISION, scale: wider }
        },
        _ => DataType::Float64,
    }
}

fn type_of_aggregate(func: AggFn, arg: &Expr, name: &str) -> (r: Result<(DataType, bool), HtapError>)
    ensures
        outcome(r) == aggregate_type(func, arg@, name@),
{
    let t = arg.static_type().data_type;
    match func {
        AggFn::Sum => match require_numeric(arg, name) {
            Ok(_) => Ok((type_of_sum(t), true)),
            Err(e) => Err(e),
        },
        AggFn::Avg => match require_numeric(arg, name) {
            Ok(_) => Ok((type_of_avg(t), true)),
            Err(e) => Err(e),
        },
        AggFn::Min => Ok((t, true)),
        AggFn::Max => Ok((t, true)),
        _ => Ok((DataType::Int64, false)),
    }
}

fn refer_to_aggregate(st: &mut BindState, spec: AggregateSpec) -> (r: Expr)
    ensures
        (r@, final(st)@) == aggregate_ref(old(st)@, spec@),
{
    let data_type = spec.data_type;
    let nullable = spec.nullable;
    let ghost all = st@.aggregates;
    let ghost p = same_aggregate(spec@);
    let mut i: usize = 0;
    while i < st.aggregates.len()
        invariant
            i <= st.aggregates.len(),
            st@.aggregates == all,
            *st == *old(st),
            p == same_aggregate(spec@),
            first_at(all, p, 0) == first_at(all, p, i as int),
            data_type == spec@.data_type,
            nullable == spec@.nullable,
        decreases st.aggregates.len() - i,
    {
        assert(all[i as int] == st.aggregates@[i as int]@);
        if st.aggregates[i].same(&spec) {
            return Expr::AggregateRef { index: i, data_type, nullable };
        }
        i = i + 1;
    }
    let index: usize = st.aggregates.len();
    st.push_aggregate(spec);
    Expr::AggregateRef { index, data_type, nullable }
}

fn check_arity(name: &str, n: usize, found: usize) -> (r: Result<(), HtapError>)
    ensures
        outcome(r) == arity_check(name@, n as nat, found as nat),
{
    if found != n {
        let a = count_text(n);
        let b = count_text(found);
        return Err(
            invalid(
                cat5(name, " requires exactly ", a.as_str(), " argument(s), found ", b.as_str()),
            ),
        );
    }
    Ok(())
}

fn any_null(args: &Vec<Expr>) -> (r: bool)
    ensures
        r == some_null(views(args@), args@.len() as int),
{
    let mut i: usize = 0;
    let mut found = false;
    while i < args.len()
        invariant
            i <= args.len(),
            found == some_null(views(args@), i as int),
        decreases args.len() - i,
    {
        let t = args[i].static_type();
        found = found || t.nullable;
        i = i + 1;
    }
    found
}

fn all_null(args: &Vec<Expr>) -> (r: bool)
    ensures
        r == every_null(views(args@), args@.len() as int),
{
    let mut i: usize = 0;
    let mut every = true;
    while i < args.len()
        invariant
            i <= args.len(),
            every == every_null(views(args@), i as int),
        decreases args.len() - i,
    {
        let t = args[i].static_type();
        every = every && t.nullable;
        i = i + 1;
    }
    every
}

fn find_text_function(func: ScalarFn, result: DataType, name: &str, args: &Vec<Expr>) -> (r: Result<
    (ScalarFn, DataType, bool),
    HtapError,
>)
    ensures
        match r {
            Ok(x) => text_function(func, result, name@, views(args@)) == Ok::<
                (ScalarFn, DataType, bool),
                ErrorView,
            >(x),
            Err(e) => text_function(func, result, name@, views(args@)) == Err::<
                (ScalarFn, DataType, bool),
                ErrorView,
            >(e@),
        },
{
    match check_arity(name, 1, args.len()) {
        Err(e) => Err(e),
        Ok(_) => match require_string(&args[0], name) {
            Err(e) => Err(e),
            Ok(_) => Ok((func, result, args[0].static_type().nullable)),
        },
    }
}

fn find_scalar(name: &str, args: &Vec<Expr>) -> (r: Result<(ScalarFn, DataType, bool), HtapError>)
    ensures
        match r {
            Ok(x) => scalar_named(name@, views(args@)) == Ok::<
                (ScalarFn, DataType, bool),
                ErrorView,
            >(x),
            Err(e) => scalar_named(name@, views(args@)) == Err::<
                (ScalarFn, DataType, bool),
                ErrorView,
            >(e@),
        },
{
    if same_text(name, "UPPER") || same_text(name, "UCASE") {
        return find_text_function(ScalarFn::Upper, DataType::String, name, args);
    }
    if same_text(name, "LOWER") || same_text(name, "LCASE") {
        return find_text_function(ScalarFn::Lower, DataType::String, name, args);
    }
    if same_text(name, "LENGTH") || same_text(name, "OCTET_LENGTH") {
        match check_arity(name, 1, args.len()) {
            Err(e) => {
                return Err(e);
            },
            Ok(_) => {},
        }
        let t = args[0].static_type();
        if t.data_type != DataType::String && t.data_type != DataType::Bytes && !t.is_permissive() {
            return Err(invalid(cat2(name, " requires a string argument")));
        }
        return Ok((ScalarFn::Length, DataType::Int64, t.nullable));
    }
    if same_text(name, "CHAR_LENGTH") || same_text(name, "CHARACTER_LENGTH") {
        return find_text_function(ScalarFn::CharLength, DataType::Int64, name, args);
    }
    if same_text(name, "CONCAT") {
        if args.len() == 0 {
            return Err(invalid(owned("CONCAT requires at least one argument")));
        }
        return Ok((ScalarFn::Concat, DataType::String, any_null(args)));
    }
    if same_text(name, "ABS") {
        match check_arity(name, 1, args.len()) {
            Err(e) => {
                return Err(e);
            },
            Ok(_) => {},
        }
        match require_numeric(&args[0], name) {
            Err(e) => {
                return Err(e);
            },
            Ok(_) => {},
        }
        let t = args[0].static_type();
        return Ok((ScalarFn::Abs, t.data_type, t.nullable));
    }
    if same_text(name, "COALESCE") {
        if args.len() == 0 {
            return Err(invalid(owned("COALESCE requires at least one argument")));
        }
        return match common_type(args, "COALESCE") {
            Err(e) => Err(e),
            Ok((t, _)) => Ok((ScalarFn::Coalesce, t, all_null(args))),
        };
    }
    if same_text(name, "IFNULL") {
        match check_arity(name, 2, args.len()) {
            Err(e) => {
                return Err(e);
            },
            Ok(_) => {},
        }
        return match common_type(args, "IFNULL") {
            Err(e) => Err(e),
            Ok((t, _)) => Ok((ScalarFn::IfNull, t, args[1].static_type().nullable)),
        };
    }
    if same_text(name, "NULLIF") {
        match check_arity(name, 2, args.len()) {
            Err(e) => {
                return Err(e);
            },
            Ok(_) => {},
        }
        return match check_comparable(&args[0], &args[1], "NULLIF") {
            Err(e) => Err(e),
            Ok(_) => Ok((ScalarFn::NullIf, args[0].static_type().data_type, true)),
        };
    }
    Err(unsupported(cat3("function '", name, "' not supported")))
}

fn call_scalar(name: &str, args: Vec<Expr>) -> (r: Result<Expr, HtapError>)
    ensures
        outcome(r) == scalar_call(name@, views(args@)),
{
    proof {
        crate::expr::lemma_view_exprs(args);
    }
    match find_scalar(name, &args) {
        Err(e) => Err(e),
        Ok((func, data_type, nullable)) => Ok(
            Expr::ScalarFunction { func, args, data_type, nullable },
        ),
    }
}

fn check_call(f: &Function) -> (r: Result<(), HtapError>)
    ensures
        outcome(r) == call_check(*f),
{
    if f.filter {
        return Err(unsupported(owned("aggregate FILTER clause not supported")));
    }
    if f.null_treatment || f.modifiers.given() {
        return Err(unsupported(owned("function modifiers not supported")));
    }
    if f.parameters {
        return Err(unsupported(owned("parameterized functions not supported")));
    }
    Ok(())
}

fn check_window_call(sc: &Scope<'_>, m: Mode, f: &Function) -> (r: Result<(), HtapError>)
    ensures
        outcome(r) == window_call_check(sc@, m, *f),
{
    match sc.window_clause {
        Some(clause) => {
            return Err(invalid(cat2("window functions are not allowed in ", clause)));
        },
        None => {},
    }
    if m.in_window {
        return Err(invalid(owned("window functions cannot be nested")));
    }
    if m.in_aggregate {
        return Err(invalid(owned("window functions cannot be used inside aggregate arguments")));
    }
    if f.filter {
        return Err(unsupported(owned("FILTER is not supported for window functions")));
    }
    if f.null_treatment {
        return Err(
            unsupported(
                owned("IGNORE NULLS / RESPECT NULLS is not supported for window functions"),
            ),
        );
    }
    if f.modifiers.given() {
        return Err(unsupported(owned("function modifiers not supported")));
    }
    if f.parameters {
        return Err(unsupported(owned("parameterized window functions not supported")));
    }
    Ok(())
}

fn check_window(over: &Option<WindowType>) -> (r: Result<(), HtapError>)
    ensures
        outcome(r) == window_check(*over),
{
    match over {
        Some(WindowType::Spec(w)) => {
            if w.named {
                return Err(unsupported(owned("named windows are not supported")));
            }
            Ok(())
        },
        _ => Err(unsupported(owned("named windows are not supported"))),
    }
}

fn check_window_list(args: &FunctionArguments, name: &str) -> (r: Result<(), HtapError>)
    ensures
        outcome(r) == window_list_check(*args, name@),
{
    match args {
        FunctionArguments::Missing => Err(
            invalid(cat3("function '", name, "' requires parentheses")),
        ),
        FunctionArguments::Subquery => Err(
            unsupported(owned("subqueries in window function arguments are not supported")),
        ),
        FunctionArguments::List(list) => {
            if list.duplicates.is_some() {
                return Err(
                    unsupported(
                        owned(
                            "DISTINCT / ALL is not supported for ranking and offset window functions",
                        ),
                    ),
                );
            }
            if list.clauses {
                return Err(
                    unsupported(owned("clauses in window function arguments are not supported")),
                );
            }
            Ok(())
        },
    }
}

fn check_window_args(args: &Vec<FunctionArg>, name: &str) -> (r: Result<(), HtapError>)
    ensures
        outcome(r) == window_args_check(args@, name@),
        r is Ok && name@ != "COUNT"@ ==> forall|j: int|
            0 <= j < args@.len() ==> (#[trigger] args@[j]) is Expr,
{
    if same_text(name, "COUNT") {
        return Ok(());
    }
    let mut i: usize = 0;
    while i < args.len()
        invariant
            i <= args.len(),
            plain_args_check(args@, name@, 0) == plain_args_check(args@, name@, i as int),
            forall|j: int| 0 <= j < i ==> (#[trigger] args@[j]) is Expr,
            name@ != "COUNT"@,
        decreases args.len() - i,
    {
        match &args[i] {
            FunctionArg::Expr(_) => {},
            _ => {
                return Err(unsupported(cat3("argument form not supported in '", name, "'")));
            },
        }
        i = i + 1;
    }
    Ok(())
}

fn ranks(name: &str) -> (r: bool)
    ensures
        r == is_ranking(name@),
{
    same_text(name, "ROW_NUMBER") || same_text(name, "RANK") || same_text(name, "DENSE_RANK")
        || same_text(name, "NTILE") || same_text(name, "LAG") || same_text(name, "LEAD")
}

fn framed(name: &str) -> (r: bool)
    ensures
        r == is_framed(name@),
{
    same_text(name, "COUNT") || same_text(name, "SUM") || same_text(name, "AVG") || same_text(
        name,
        "MIN",
    ) || same_text(name, "MAX") || same_text(name, "FIRST_VALUE") || same_text(name, "LAST_VALUE")
}

/// A window function's kind, arguments, result type and nullability.
struct WindowHead {
    kind: WindowFunctionKind,
    args: Vec<Expr>,
    data_type: DataType,
    nullable: bool,
}

spec fn head_agrees(
    r: Result<WindowHead, HtapError>,
    st: StateView,
    model: Result<HeadView, ErrorView>,
) -> bool {
    match r {
        Ok(h) => model == Ok::<HeadView, ErrorView>(
            HeadView {
                kind: h.kind,
                args: views(h.args@),
                data_type: h.data_type,
                nullable: h.nullable,
                st,
            },
        ),
        Err(e) => model == Err::<HeadView, ErrorView>(e@),
    }
}

fn wrong_count_error(name: &str, wanted: &str, found: usize) -> (r: HtapError)
    ensures
        r@ == ErrorView::InvalidArgument(name@ + wanted@ + crate::text::nat_text(found as nat)),
{
    let n = count_text(found);
    invalid(cat3(name, wanted, n.as_str()))
}

fn head_numbering(name: &str, n: usize, st: &BindState) -> (r: Result<WindowHead, HtapError>)
    ensures
        head_agrees(r, st@, numbering_head(name@, n as nat, st@)),
{
    if n != 0 {
        return Err(wrong_count_error(name, " requires exactly 0 arguments, found ", n));
    }
    let kind = if same_text(name, "ROW_NUMBER") {
        WindowFunctionKind::RowNumber
    } else if same_text(name, "RANK") {
        WindowFunctionKind::Rank
    } else {
        WindowFunctionKind::DenseRank
    };
    let args: Vec<Expr> = Vec::new();
    assert(views(args@) =~= Seq::empty());
    Ok(WindowHead { kind, args, data_type: DataType::Int64, nullable: false })
}

fn head_ntile(name: &str, args: &Vec<FunctionArg>, st: &BindState) -> (r: Result<
    WindowHead,
    HtapError,
>)
    requires
        forall|j: int| 0 <= j < args@.len() ==> (#[trigger] args@[j]) is Expr,
    ensures
        head_agrees(r, st@, ntile_head(name@, args@, st@)),
{
    if args.len() != 1 {
        return Err(wrong_count_error(name, " requires exactly 1 argument, found ", args.len()));
    }
    assert(args@[0] is Expr);
    let count: Option<u64> = match &args[0] {
        FunctionArg::Expr(e) => match &e.node {
            SqlNode::Value(SqlValue::Number { digits, .. }) => parse_u64(digits.as_str()),
            _ => None,
        },
        _ => None,
    };
    match count {
        Some(k) => {
            if k > 0 && k <= i64::MAX as u64 {
                let mut out: Vec<Expr> = Vec::new();
                let x = Expr::Literal(Value::Int64(k as i64));
                assert(x@ == ExprView::Literal(ValueView::Int64(k as i64)));
                out.push(x);
                assert(views(out@) =~= seq![ExprView::Literal(ValueView::Int64(k as i64))]);
                return Ok(
                    WindowHead {
                        kind: WindowFunctionKind::Ntile,
                        args: out,
                        data_type: DataType::Int64,
                        nullable: false,
                    },
                );
            }
        },
        None => {},
    }
    Err(invalid(owned("NTILE argument must be a positive integer literal")))
}

fn offset_of_lag(args: &Vec<FunctionArg>, name: &str) -> (r: Result<i64, HtapError>)
    requires
        forall|j: int| 0 <= j < args@.len() ==> (#[trigger] args@[j]) is Expr,
    ensures
        outcome(r) == lag_offset_of(args@, name@),
{
    if args.len() <= 1 {
        return Ok(1);
    }
    assert(args@[1] is Expr);
    match &args[1] {
        FunctionArg::Expr(e) => match integer_literal_of(e) {
            Some(d) => match parse_u64(d.as_str()) {
                Some(k) => if k <= i64::MAX as u64 {
                    assert(unsigned_value(d@) == Some(k as int));
                    Ok(k as i64)
                } else {
                    Err(invalid(cat2(name, " offset must be a non-negative integer literal")))
                },
                None => Err(invalid(cat2(name, " offset must be a non-negative integer literal"))),
            },
            None => Err(invalid(cat2(name, " offset must be a non-negative integer literal"))),
        },
        _ => Err(invalid(cat2(name, " offset must be a non-negative integer literal"))),
    }
}

fn check_lag_default(value: &Expr, default: &Expr, name: &str) -> (r: Result<(), HtapError>)
    ensures
        outcome(r) == lag_default_check(value@, default@, name@),
{
    let v = value.static_type();
    let d = default.static_type();
    if !v.is_permissive() && !d.is_permissive() {
        match union_type(v.data_type, d.data_type) {
            Some(_) => {},
            None => {
                return Err(
                    invalid(
                        cat5(
                            name,
                            " default has incompatible type ",
                            d.data_type.name(),
                            "; expected ",
                            v.data_type.name(),
                        ),
                    ),
                );
            },
        }
    }
    Ok(())
}

fn kind_of_value_window(name: &str, arg: &Expr) -> (r: Result<
    (WindowFunctionKind, DataType),
    HtapError,
>)
    ensures
        match r {
            Ok(x) => one_argument_window(name@, arg@) == Ok::<
                (WindowFunctionKind, DataType),
                ErrorView,
            >(x),
            Err(e) => one_argument_window(name@, arg@) == Err::<
                (WindowFunctionKind, DataType),
                ErrorView,
            >(e@),
        },
{
    let t = arg.static_type().data_type;
    if same_text(name, "SUM") {
        match require_numeric(arg, name) {
            Ok(_) => Ok((WindowFunctionKind::Sum, type_of_sum(t))),
            Err(e) => Err(e),
        }
    } else if same_text(name, "AVG") {
        match require_numeric(arg, name) {
            Ok(_) => Ok((WindowFunctionKind::Avg, type_of_avg(t))),
            Err(e) => Err(e),
        }
    } else if same_text(name, "MIN") {
        Ok((WindowFunctionKind::Min, t))
    } else if same_text(name, "MAX") {
        Ok((WindowFunctionKind::Max, t))
    } else if same_text(name, "FIRST_VALUE") {
        Ok((WindowFunctionKind::FirstValue, t))
    } else {
        Ok((WindowFunctionKind::LastValue, t))
    }
}

fn bound_has_offset(b: &FrameBound) -> (r: bool)
    ensures
        r == has_offset(*b),
{
    match b {
        FrameBound::Preceding(Some(_)) => true,
        FrameBound::Following(Some(_)) => true,
        _ => false,
    }
}

fn check_range_order(order_by: &Vec<OrderItem>) -> (r: Result<(), HtapError>)
    ensures
        outcome(r) == range_order_check(views(order_by@)),
{
    if order_by.len() != 1 {
        return Err(
            invalid(owned("RANGE frames with offsets require exactly one ORDER BY expression")),
        );
    }
    let t = order_by[0].expr.static_type();
    assert(views(order_by@)[0].expr == order_by@[0].expr@);
    if !t.data_type.is_numeric() {
        return Err(
            invalid(
                cat2(
                    "RANGE frames with offsets require a numeric or timestamp ORDER BY expression, found ",
                    t.data_type.name(),
                ),
            ),
        );
    }
    Ok(())
}

fn rows_frame_of(f: &SqlFrame) -> (r: Result<WindowFrame, HtapError>)
    ensures
        outcome(r) == rows_frame(*f),
{
    let start = match bind_row_frame_bound(&f.start) {
        Ok(b) => b,
        Err(e) => {
            return Err(e);
        },
    };
    let end = match &f.end {
        Some(b) => match bind_row_frame_bound(b) {
            Ok(b) => b,
            Err(e) => {
                return Err(e);
            },
        },
        None => crate::query::RowFrameBound::CurrentRow,
    };
    match validate_row_frame_bounds(&start, &end) {
        Err(e) => Err(e),
        Ok(_) => Ok(WindowFrame::Rows { start, end }),
    }
}

fn peers_frame_of(f: &SqlFrame) -> (r: Result<WindowFrame, HtapError>)
    ensures
        outcome(r) == peers_frame(*f),
{
    let start = match bind_peer_frame_bound(&f.start) {
        Ok(b) => b,
        Err(e) => {
            return Err(e);
        },
    };
    let end = match &f.end {
        Some(b) => match bind_peer_frame_bound(b) {
            Ok(b) => b,
            Err(e) => {
                return Err(e);
            },
        },
        None => PeerFrameBound::CurrentRow,
    };
    match validate_peer_frame_bounds(start, end) {
        Err(e) => Err(e),
        Ok(_) => Ok(WindowFrame::PeerRange { start, end }),
    }
}

fn frame_without_clause(ordered: bool) -> (r: WindowFrame)
    ensures
        r@ == default_frame(ordered),
{
    if ordered {
        WindowFrame::PeerRange {
            start: PeerFrameBound::Unbounded(WindowFrameDirection::Preceding),
            end: PeerFrameBound::CurrentRow,
        }
    } else {
        WindowFrame::Whole
    }
}

/// The order item of a bound key.
pub(crate) fn make_order_item(o: &OrderByExpr, key: Expr) -> (r: OrderItem)
    ensures
        r@ == order_item(*o, key@),
{
    let asc = match o.asc {
        Some(a) => a,
        None => true,
    };
    let nulls_first = match o.nulls_first {
        Some(b) => b,
        None => asc,
    };
    OrderItem { expr: key, asc, nulls_first }
}

fn distance(value: Expr, direction: WindowFrameDirection) -> (r: Result<ValueFrameBound, HtapError>)
    ensures
        outcome(r) == frame_distance(value@, direction),
{
    if is_offset_literal(&value) {
        Ok(ValueFrameBound::Offset { value, direction })
    } else {
        Err(bad_offset_error())
    }
}

fn collect_window(
    sc: &Scope<'_>,
    st: &mut BindState,
    head: WindowHead,
    partition_by: Vec<Expr>,
    order_by: Vec<OrderItem>,
    frame: WindowFrame,
    Ghost(before): Ghost<StateView>,
) -> (r: Result<Expr, HtapError>)
    ensures
        agrees(
            r,
            final(st)@,
            window_collected(
                sc@,
                HeadView {
                    kind: head.kind,
                    args: views(head.args@),
                    data_type: head.data_type,
                    nullable: head.nullable,
                    st: before,
                },
                views(partition_by@),
                views(order_by@),
                frame@,
                old(st)@,
            ),
        ),
{
    if !sc.collect_windows {
        return Err(invalid(owned("window functions are only allowed in the select list")));
    }
    let index: usize = st.windows.len();
    let data_type = head.data_type;
    let nullable = head.nullable;
    st.push_window(
        WindowSpec {
            func: head.kind,
            args: head.args,
            partition_by,
            order_by,
            frame,
            data_type,
            nullable,
        },
    );
    Ok(Expr::WindowRef { index, data_type, nullable })
}

fn use_scalar_subquery(st: &BindState, index: usize) -> (r: Result<Expr, HtapError>)
    requires
        index < st.subqueries@.len(),
    ensures
        outcome(r) == scalar_subquery(st@.subqueries[index as int], index as nat),
{
    let q = &st.subqueries[index];
    assert(st@.subqueries[index as int] == q@);
    assert(views(q.output_columns@) == q@.output_columns);
    if q.output_columns.len() != 1 {
        let n = count_text(q.output_columns.len());
        return Err(
            invalid(
                cat2("scalar subquery must return exactly one column, found ", n.as_str()),
            ),
        );
    }
    assert(q@.output_columns[0] == q.output_columns@[0]@);
    Ok(
        Expr::ScalarSubquery {
            index,
            data_type: q.output_columns[0].data_type,
            correlated: q.correlated,
        },
    )
}

fn use_in_subquery(e: Expr, st: &BindState, index: usize, negated: bool) -> (r: Result<
    Expr,
    HtapError,
>)
    requires
        index < st.subqueries@.len(),
    ensures
        outcome(r) == in_subquery(e@, st@.subqueries[index as int], index as nat, negated),
{
    let q = &st.subqueries[index];
    assert(st@.subqueries[index as int] == q@);
    assert(views(q.output_columns@) == q@.output_columns);
    if q.output_columns.len() != 1 {
        let n = count_text(q.output_columns.len());
        return Err(
            invalid(cat2("IN subquery must return exactly one column, found ", n.as_str())),
        );
    }
    assert(q@.output_columns[0] == q.output_columns@[0]@);
    let probe = Expr::ColumnRef {
        slot: 0,
        column: 0,
        offset: 0,
        name: q.output_columns[0].name.clone(),
        data_type: q.output_columns[0].data_type,
        nullable: true,
    };
    assert(type_of(probe@) == crate::expr::plain_type(q@.output_columns[0].data_type, true));
    match check_comparable(&e, &probe, "IN") {
        Err(x) => Err(x),
        Ok(_) => Ok(
            Expr::InSubquery {
                expr: Box::new(e),
                index,
                negated,
                correlated: q.correlated,
            },
        ),
    }
}

/// Binds an expression.
pub(crate) fn bind(cx: Env<'_>, sc: &Scope<'_>, st: &mut BindState, m: Mode, e: &SqlExpr) -> (r:
    Result<Expr, HtapError>)
    ensures
        agrees(r, final(st)@, bind_of(cx, sc@, old(st)@, m, *e)),
    decreases e, 5int, 0int,
{
    match &e.node {
        SqlNode::Nested(inner) => bind(cx, sc, st, m, inner),
        SqlNode::Identifier(name) => match parse_variable_ident(name.as_str()) {
            Err(x) => Err(x),
            Ok(Some(v)) => Ok(v),
            Ok(None) => sc.resolve_column(None, name.as_str()),
        },
        SqlNode::CompoundIdentifier(parts) => {
            if parts.len() != 2 {
                return Err(
                    unsupported(
                        cat2("multi-part column reference not supported: ", e.text.as_str()),
                    ),
                );
            }
            match parse_scoped_system_variable(parts[0].as_str(), parts[1].as_str()) {
                Err(x) => Err(x),
                Ok(Some(v)) => Ok(v),
                Ok(None) => sc.resolve_column(Some(parts[0].as_str()), parts[1].as_str()),
            }
        },
        SqlNode::Value(v) => bind_literal(v, e.text.as_str()),
        SqlNode::DateLiteral(t) => match t {
            None => Err(invalid(owned("DATE literal requires a value"))),
            Some(s) => match parse_date_to_timestamp_micros(s.as_str()) {
                Ok(micros) => Ok(Expr::Literal(Value::Timestamp(micros))),
                Err(x) => Err(x),
            },
        },
        SqlNode::TypedLiteral => Err(
            unsupported(cat2("typed literal not supported: ", e.text.as_str())),
        ),
        SqlNode::Interval { .. } => Err(
            unsupported(cat2("typed literal not supported: ", e.text.as_str())),
        ),
        SqlNode::UnaryOp { op, expr } => bind_unary(cx, sc, st, m, op, expr),
        SqlNode::BinaryOp { .. } => bind_binary(cx, sc, st, m, e),
        SqlNode::Extract { field, expr } => match extract(field) {
            Err(x) => Err(x),
            Ok(unit) => match bind(cx, sc, st, m, expr) {
                Err(x) => Err(x),
                Ok(b) => extract_from(unit, b),
            },
        },
        SqlNode::Substring { .. } => bind_substring(cx, sc, st, m, e),
        SqlNode::IsNull(inner) => match bind(cx, sc, st, m, inner) {
            Err(x) => Err(x),
            Ok(b) => Ok(Expr::IsNull(Box::new(b))),
        },
        SqlNode::IsNotNull(inner) => match bind(cx, sc, st, m, inner) {
            Err(x) => Err(x),
            Ok(b) => Ok(Expr::IsNotNull(Box::new(b))),
        },
        SqlNode::IsTruth { expr, target, negated } => match bind(cx, sc, st, m, expr) {
            Err(x) => Err(x),
            Ok(b) => test_truth(b, *target, *negated),
        },
        SqlNode::Like { .. } => bind_like(cx, sc, st, m, e),
        SqlNode::InList { expr, list, negated } => match bind(cx, sc, st, m, expr) {
            Err(x) => Err(x),
            Ok(b) => match bind_candidates(cx, sc, st, m, &b, list) {
                Err(x) => Err(x),
                Ok(items) => {
                    proof {
                        crate::expr::lemma_view_exprs(items);
                    }
                    Ok(Expr::In { expr: Box::new(b), list: items, negated: *negated })
                },
            },
        },
        SqlNode::Between { .. } => bind_between(cx, sc, st, m, e),
        SqlNode::Case { .. } => bind_case(cx, sc, st, m, e),
        SqlNode::Cast { plain, expr, data_type } => {
            if !*plain {
                return Err(unsupported(owned("only CAST(... AS ...) is supported")));
            }
            match bind(cx, sc, st, m, expr) {
                Err(x) => Err(x),
                Ok(b) => match map_cast_type(data_type) {
                    Err(x) => Err(x),
                    Ok(to) => cast_to(b, to, cx),
                },
            }
        },
        SqlNode::Function(f) => bind_function(cx, sc, st, m, f),
        SqlNode::Subquery(q) => match bind_subquery(cx, sc, st, q, "scalar subquery") {
            Err(x) => Err(x),
            Ok(index) => use_scalar_subquery(st, index),
        },
        SqlNode::InSubquery { expr, subquery, negated } => match bind(cx, sc, st, m, expr) {
            Err(x) => Err(x),
            Ok(b) => match bind_subquery(cx, sc, st, subquery, "IN subquery") {
                Err(x) => Err(x),
                Ok(index) => use_in_subquery(b, st, index, *negated),
            },
        },
        SqlNode::Exists { subquery, negated } => match bind_subquery(
            cx,
            sc,
            st,
            subquery,
            "EXISTS subquery",
        ) {
            Err(x) => Err(x),
            Ok(index) => {
                assert(st@.subqueries[index as int] == st.subqueries@[index as int]@);
                Ok(
                    Expr::Exists {
                        index,
                        negated: *negated,
                        correlated: st.subqueries[index].correlated,
                    },
                )
            },
        },
        SqlNode::Tuple(_) => Err(unsupported(owned("row/tuple expressions not supported"))),
        SqlNode::Other => Err(unsupported(cat2("expression not supported: ", e.text.as_str()))),
    }
}

fn bind_unary(
    cx: Env<'_>,
    sc: &Scope<'_>,
    st: &mut BindState,
    m: Mode,
    op: &UnaryOperator,
    inner: &SqlExpr,
) -> (r: Result<Expr, HtapError>)
    ensures
        agrees(r, final(st)@, bind_unary_of(cx, sc@, old(st)@, m, *op, *inner)),
    decreases inner, 6int, 0int,
{
    match op {
        UnaryOperator::Other(t) => {
            return Err(unsupported(cat3("unary operator ", t.as_str(), " not supported")));
        },
        _ => {},
    }
    let b = match bind(cx, sc, st, m, inner) {
        Ok(b) => b,
        Err(x) => {
            return Err(x);
        },
    };
    match op {
        UnaryOperator::Not => match require_bool(&b, "NOT") {
            Err(x) => Err(x),
            Ok(_) => Ok(Expr::Not(Box::new(b))),
        },
        UnaryOperator::Minus => negate(b),
        _ => match require_numeric(&b, "unary +") {
            Err(x) => Err(x),
            Ok(_) => Ok(b),
        },
    }
}

fn bind_binary(cx: Env<'_>, sc: &Scope<'_>, st: &mut BindState, m: Mode, e: &SqlExpr) -> (r: Result<
    Expr,
    HtapError,
>)
    requires
        e.node is BinaryOp,
    ensures
        agrees(r, final(st)@, bind_binary_of(cx, sc@, old(st)@, m, *e)),
    decreases e, 4int, 0int,
{
    match &e.node {
        SqlNode::BinaryOp { left, op, right } => {
            match &right.node {
                SqlNode::Interval { value, unit } => {
                    let negated = match op {
                        BinaryOperator::Plus => false,
                        BinaryOperator::Minus => true,
                        _ => {
                            return Err(
                                invalid(owned("calendar intervals may only be used with + or -")),
                            );
                        },
                    };
                    return match bind(cx, sc, st, m, left) {
                        Err(x) => Err(x),
                        Ok(t) => shift(t, value, unit, negated),
                    };
                },
                _ => {},
            }
            match &left.node {
                SqlNode::Interval { value, unit } => {
                    return match op {
                        BinaryOperator::Plus => match bind(cx, sc, st, m, right) {
                            Err(x) => Err(x),
                            Ok(t) => shift(t, value, unit, false),
                        },
                        _ => Err(
                            invalid(
                                owned(
                                    "calendar intervals may only be used with timestamp + INTERVAL",
                                ),
                            ),
                        ),
                    };
                },
                _ => {},
            }
            let op2 = match map_operator(op) {
                Ok(x) => x,
                Err(x) => {
                    return Err(x);
                },
            };
            let l = match bind(cx, sc, st, m, left) {
                Ok(b) => b,
                Err(x) => {
                    return Err(x);
                },
            };
            let r = match bind(cx, sc, st, m, right) {
                Ok(b) => b,
                Err(x) => {
                    return Err(x);
                },
            };
            operate(op2, l, r)
        },
        _ => Err(invalid(String::new())),
    }
}

fn bind_substring(cx: Env<'_>, sc: &Scope<'_>, st: &mut BindState, m: Mode, e: &SqlExpr) -> (r:
    Result<Expr, HtapError>)
    ensures
        agrees(r, final(st)@, bind_substring_of(cx, sc@, old(st)@, m, *e)),
    decreases e, 4int, 0int,
{
    match &e.node {
        SqlNode::Substring { expr, start: Some(start), length: Some(length) } => {
            let b = match bind(cx, sc, st, m, expr) {
                Ok(b) => b,
                Err(x) => {
                    return Err(x);
                },
            };
            let s = match bind(cx, sc, st, m, start) {
                Ok(b) => b,
                Err(x) => {
                    return Err(x);
                },
            };
            let l = match bind(cx, sc, st, m, length) {
                Ok(b) => b,
                Err(x) => {
                    return Err(x);
                },
            };
            take_substring(b, s, l)
        },
        _ => Err(unsupported(owned("SUBSTRING requires start and length arguments"))),
    }
}

fn bind_like(cx: Env<'_>, sc: &Scope<'_>, st: &mut BindState, m: Mode, e: &SqlExpr) -> (r: Result<
    Expr,
    HtapError,
>)
    requires
        e.node is Like,
    ensures
        agrees(r, final(st)@, bind_like_of(cx, sc@, old(st)@, m, *e)),
    decreases e, 4int, 0int,
{
    match &e.node {
        SqlNode::Like { negated, any, expr, pattern, escape } => {
            if *any {
                return Err(unsupported(owned("LIKE ANY not supported")));
            }
            if *escape {
                return Err(unsupported(owned("LIKE ... ESCAPE not supported")));
            }
            let b = match bind(cx, sc, st, m, expr) {
                Ok(b) => b,
                Err(x) => {
                    return Err(x);
                },
            };
            let p = match bind(cx, sc, st, m, pattern) {
                Ok(b) => b,
                Err(x) => {
                    return Err(x);
                },
            };
            match require_like(&b, "LIKE operand") {
                Err(x) => {
                    return Err(x);
                },
                Ok(_) => {},
            }
            match require_like(&p, "LIKE pattern") {
                Err(x) => {
                    return Err(x);
                },
                Ok(_) => {},
            }
            Ok(Expr::Like { expr: Box::new(b), pattern: Box::new(p), negated: *negated })
        },
        _ => Err(invalid(String::new())),
    }
}

fn bind_candidates(
    cx: Env<'_>,
    sc: &Scope<'_>,
    st: &mut BindState,
    m: Mode,
    operand: &Expr,
    list: &Vec<SqlExpr>,
) -> (r: Result<Vec<Expr>, HtapError>)
    ensures
        agrees_list(
            r,
            final(st)@,
            bind_candidates_of(cx, sc@, old(st)@, m, operand@, *list, 0, Seq::empty()),
        ),
    decreases list, 0int, 0int,
{
    let ghost model = bind_candidates_of(cx, sc@, st@, m, operand@, *list, 0, Seq::empty());
    let mut out: Vec<Expr> = Vec::new();
    let mut i: usize = 0;
    assert(views(out@) =~= Seq::empty());
    while i < list.len()
        invariant
            i <= list.len(),
            model == bind_candidates_of(cx, sc@, old(st)@, m, operand@, *list, 0, Seq::empty()),
            model == bind_candidates_of(
                cx,
                sc@,
                st@,
                m,
                operand@,
                *list,
                i as int,
                views(out@),
            ),
        decreases list.len() - i,
    {
        let b = match bind(cx, sc, st, m, &list[i]) {
            Ok(b) => b,
            Err(x) => {
                return Err(x);
            },
        };
        match check_comparable(operand, &b, "IN") {
            Err(x) => {
                return Err(x);
            },
            Ok(_) => {},
        }
        proof {
            lemma_views_push(out@, b);
        }
        out.push(b);
        i = i + 1;
    }
    Ok(out)
}

fn bind_between(cx: Env<'_>, sc: &Scope<'_>, st: &mut BindState, m: Mode, e: &SqlExpr) -> (r: Result<
    Expr,
    HtapError,
>)
    requires
        e.node is Between,
    ensures
        agrees(r, final(st)@, bind_between_of(cx, sc@, old(st)@, m, *e)),
    decreases e, 4int, 0int,
{
    match &e.node {
        SqlNode::Between { expr, negated, low, high } => {
            let b = match bind(cx, sc, st, m, expr) {
                Ok(b) => b,
                Err(x) => {
                    return Err(x);
                },
            };
            let l = match bind(cx, sc, st, m, low) {
                Ok(b) => b,
                Err(x) => {
                    return Err(x);
                },
            };
            let h = match bind(cx, sc, st, m, high) {
                Ok(b) => b,
                Err(x) => {
                    return Err(x);
                },
            };
            match check_comparable(&b, &l, "BETWEEN") {
                Err(x) => {
                    return Err(x);
                },
                Ok(_) => {},
            }
            match check_comparable(&b, &h, "BETWEEN") {
                Err(x) => {
                    return Err(x);
                },
                Ok(_) => {},
            }
            Ok(
                Expr::Between {
                    expr: Box::new(b),
                    low: Box::new(l),
                    high: Box::new(h),
                    negated: *negated,
                },
            )
        },
        _ => Err(invalid(String::new())),
    }
}

fn check_branch(operand: &Option<Expr>, condition: &Expr) -> (r: Result<(), HtapError>)
    ensures
        outcome(r) == branch_check(option_view(*operand), condition@),
{
    match operand {
        Some(o) => check_comparable(o, condition, "CASE WHEN"),
        None => require_bool(condition, "CASE WHEN"),
    }
}

fn bind_branches(
    cx: Env<'_>,
    sc: &Scope<'_>,
    st: &mut BindState,
    m: Mode,
    operand: &Option<Expr>,
    list: &Vec<CaseWhen>,
) -> (r: Result<Vec<(Expr, Expr)>, HtapError>)
    ensures
        match r {
            Ok(v) => bind_branches_of(
                cx,
                sc@,
                old(st)@,
                m,
                option_view(*operand),
                *list,
                0,
                Seq::empty(),
            ) == Ok::<(Seq<(ExprView, ExprView)>, StateView), ErrorView>(
                (view_branches(v), final(st)@),
            ),
            Err(e) => bind_branches_of(
                cx,
                sc@,
                old(st)@,
                m,
                option_view(*operand),
                *list,
                0,
                Seq::empty(),
            ) == Err::<(Seq<(ExprView, ExprView)>, StateView), ErrorView>(e@),
        },
    decreases list, 0int, 0int,
{
    let ghost o = option_view(*operand);
    let ghost model = bind_branches_of(cx, sc@, st@, m, o, *list, 0, Seq::empty());
    let mut out: Vec<(Expr, Expr)> = Vec::new();
    let mut i: usize = 0;
    assert(view_branches(out) =~= Seq::empty());
    while i < list.len()
        invariant
            i <= list.len(),
            o == option_view(*operand),
            model == bind_branches_of(cx, sc@, old(st)@, m, o, *list, 0, Seq::empty()),
            model == bind_branches_of(cx, sc@, st@, m, o, *list, i as int, view_branches(out)),
        decreases list.len() - i,
    {
        let c = match bind(cx, sc, st, m, &list[i].condition) {
            Ok(b) => b,
            Err(x) => {
                return Err(x);
            },
        };
        match check_branch(operand, &c) {
            Err(x) => {
                return Err(x);
            },
            Ok(_) => {},
        }
        let b = match bind(cx, sc, st, m, &list[i].result) {
            Ok(b) => b,
            Err(x) => {
                return Err(x);
            },
        };
        let ghost before = view_branches(out);
        let ghost pair = (c@, b@);
        out.push((c, b));
        assert(view_branches(out) =~= before.push(pair));
        i = i + 1;
    }
    Ok(out)
}

fn bind_option(
    cx: Env<'_>,
    sc: &Scope<'_>,
    st: &mut BindState,
    m: Mode,
    e: &Option<Box<SqlExpr>>,
) -> (r: Result<Option<Expr>, HtapError>)
    ensures
        agrees_option(r, final(st)@, bind_option_of(cx, sc@, old(st)@, m, *e)),
    decreases e, 0int, 0int,
{
    match e {
        None => Ok(None),
        Some(x) => match bind(cx, sc, st, m, x) {
            Err(x) => Err(x),
            Ok(b) => Ok(Some(b)),
        },
    }
}

fn bind_case(cx: Env<'_>, sc: &Scope<'_>, st: &mut BindState, m: Mode, e: &SqlExpr) -> (r: Result<
    Expr,
    HtapError,
>)
    requires
        e.node is Case,
    ensures
        agrees(r, final(st)@, bind_case_of(cx, sc@, old(st)@, m, *e)),
    decreases e, 4int, 0int,
{
    match &e.node {
        SqlNode::Case { operand, conditions, else_result } => {
            let o = match bind_option(cx, sc, st, m, operand) {
                Ok(b) => b,
                Err(x) => {
                    return Err(x);
                },
            };
            let branches = match bind_branches(cx, sc, st, m, &o, conditions) {
                Ok(b) => b,
                Err(x) => {
                    return Err(x);
                },
            };
            let last = match bind_option(cx, sc, st, m, else_result) {
                Ok(b) => b,
                Err(x) => {
                    return Err(x);
                },
            };
            case_of(o, branches, last)
        },
        _ => Err(invalid(String::new())),
    }
}

fn bind_subquery(cx: Env<'_>, sc: &Scope<'_>, st: &mut BindState, q: &Query, what: &str) -> (r: Result<
    usize,
    HtapError,
>)
    ensures
        match r {
            Ok(index) => {
                &&& index == old(st)@.subqueries.len()
                &&& index < final(st).subqueries@.len()
                &&& bind_subquery_of(cx, sc@, old(st)@, *q, what@) == Ok::<
                    (QueryView, StateView),
                    ErrorView,
                >((final(st)@.subqueries[index as int], final(st)@))
            },
            Err(e) => bind_subquery_of(cx, sc@, old(st)@, *q, what@) == Err::<
                (QueryView, StateView),
                ErrorView,
            >(e@),
        },
    decreases q, 9int, 0int,
{
    if !sc.allow_subqueries {
        return Err(unsupported(cat2(what, " not supported here")));
    }
    let mut outer = copy_infos(sc.slots, 0, sc.slots.len());
    let mut rest = copy_infos(sc.outer, 0, sc.outer.len());
    let ghost a = outer@;
    let ghost b = rest@;
    outer.append(&mut rest);
    proof {
        assert(outer@ == a + b);
        assert(views(sc.slots@).subrange(0, sc.slots@.len() as int) =~= sc@.slots);
        assert(views(sc.outer@).subrange(0, sc.outer@.len() as int) =~= sc@.outer);
        assert(views(outer@) =~= nested_outer(sc@));
    }
    match crate::binder_query::bind_query_scoped(cx, sc.ctes, &outer, sc.slots.len(), q) {
        Err(x) => Err(x),
        Ok(bound) => {
            let index: usize = st.subqueries.len();
            st.push_subquery(bound);
            Ok(index)
        },
    }
}

fn bind_args(
    cx: Env<'_>,
    sc: &Scope<'_>,
    st: &mut BindState,
    m: Mode,
    args: &Vec<FunctionArg>,
    name: &str,
) -> (r: Result<Vec<Expr>, HtapError>)
    ensures
        agrees_list(
            r,
            final(st)@,
            bind_args_of(cx, sc@, old(st)@, m, *args, name@, 0, Seq::empty()),
        ),
    decreases args, 0int, 0int,
{
    let ghost model = bind_args_of(cx, sc@, st@, m, *args, name@, 0, Seq::empty());
    let mut out: Vec<Expr> = Vec::new();
    let mut i: usize = 0;
    assert(views(out@) =~= Seq::empty());
    while i < args.len()
        invariant
            i <= args.len(),
            model == bind_args_of(cx, sc@, old(st)@, m, *args, name@, 0, Seq::empty()),
            model == bind_args_of(cx, sc@, st@, m, *args, name@, i as int, views(out@)),
        decreases args.len() - i,
    {
        match &args[i] {
            FunctionArg::Expr(e) => {
                let b = match bind(cx, sc, st, m, e) {
                    Ok(b) => b,
                    Err(x) => {
                        return Err(x);
                    },
                };
                proof {
                    lemma_views_push(out@, b);
                }
                out.push(b);
            },
            _ => {
                return Err(unsupported(cat3("argument form not supported in '", name, "'")));
            },
        }
        i = i + 1;
    }
    Ok(out)
}

fn bind_function(cx: Env<'_>, sc: &Scope<'_>, st: &mut BindState, m: Mode, f: &Function) -> (r:
    Result<Expr, HtapError>)
    ensures
        agrees(r, final(st)@, bind_function_of(cx, sc@, old(st)@, m, *f)),
    decreases f, 9int, 0int,
{
    let written = match object_name_single(&f.name) {
        Ok(n) => n,
        Err(x) => {
            return Err(x);
        },
    };
    let name = to_upper(written.as_str());
    if f.over.is_some() {
        bind_window_function(cx, sc, st, m, f, name.as_str())
    } else {
        bind_call(cx, sc, st, m, f, name.as_str())
    }
}

fn bind_call(
    cx: Env<'_>,
    sc: &Scope<'_>,
    st: &mut BindState,
    m: Mode,
    f: &Function,
    name: &str,
) -> (r: Result<Expr, HtapError>)
    ensures
        agrees(r, final(st)@, bind_call_of(cx, sc@, old(st)@, m, *f, name@)),
    decreases f, 8int, 0int,
{
    match check_call(f) {
        Err(x) => {
            return Err(x);
        },
        Ok(_) => {},
    }
    match &f.args {
        FunctionArguments::Missing => Err(
            invalid(cat3("function '", name, "' requires arguments")),
        ),
        FunctionArguments::Subquery => Err(
            unsupported(owned("subqueries in function arguments not supported")),
        ),
        FunctionArguments::List(list) => {
            if list.clauses {
                return Err(unsupported(owned("clauses in function arguments not supported")));
            }
            let distinct = match list.duplicates {
                Some(DuplicateTreatment::Distinct) => true,
                _ => false,
            };
            match find_aggregate(name) {
                Some(agg) => bind_aggregate(cx, sc, st, m, agg, distinct, &list.args, name),
                None => {
                    if distinct {
                        return Err(
                            invalid(
                                cat3(
                                    "DISTINCT is only valid in aggregate functions, not '",
                                    name,
                                    "'",
                                ),
                            ),
                        );
                    }
                    match bind_args(cx, sc, st, m, &list.args, name) {
                        Err(x) => Err(x),
                        Ok(args) => call_scalar(name, args),
                    }
                },
            }
        },
    }
}

fn bind_aggregate(
    cx: Env<'_>,
    sc: &Scope<'_>,
    st: &mut BindState,
    m: Mode,
    func: AggFn,
    distinct: bool,
    args: &Vec<FunctionArg>,
    name: &str,
) -> (r: Result<Expr, HtapError>)
    ensures
        agrees(
            r,
            final(st)@,
            bind_aggregate_of(cx, sc@, old(st)@, m, func, distinct, *args, name@),
        ),
    decreases args, 1int, 0int,
{
    if !sc.allow_aggregates {
        return Err(
            invalid(cat3("aggregate function ", name, " is not allowed in this clause")),
        );
    }
    if m.in_aggregate {
        return Err(invalid(owned("aggregate functions cannot be nested")));
    }
    if args.len() != 1 {
        return Err(wrong_count_error(name, " requires exactly 1 argument, found ", args.len()));
    }
    match &args[0] {
        FunctionArg::Wildcard => {
            if func != AggFn::Count {
                return Err(invalid(cat2(name, "(*) is not valid")));
            }
            if distinct {
                return Err(invalid(owned("COUNT(DISTINCT *) is not valid")));
            }
            let spec = AggregateSpec {
                func: AggFn::CountStar,
                distinct: false,
                arg: None,
                data_type: DataType::Int64,
                nullable: false,
                name: owned("COUNT(*)"),
            };
            assert(spec@ == count_star());
            Ok(refer_to_aggregate(st, spec))
        },
        FunctionArg::Expr(e) => {
            let inner = Mode { in_aggregate: true, in_window: m.in_window };
            let arg = match bind(cx, sc, st, inner, e) {
                Ok(b) => b,
                Err(x) => {
                    return Err(x);
                },
            };
            let (data_type, nullable) = match type_of_aggregate(func, &arg, name) {
                Ok(t) => t,
                Err(x) => {
                    return Err(x);
                },
            };
            let display = if distinct {
                cat4(name, "(DISTINCT ", e.text.as_str(), ")")
            } else {
                cat4(name, "(", e.text.as_str(), ")")
            };
            let spec = AggregateSpec {
                func,
                distinct,
                arg: Some(arg),
                data_type,
                nullable,
                name: display,
            };
            Ok(refer_to_aggregate(st, spec))
        },
        FunctionArg::Other => Err(
            unsupported(cat3("argument form not supported in '", name, "'")),
        ),
    }
}

fn head_count(
    cx: Env<'_>,
    sc: &Scope<'_>,
    st: &mut BindState,
    m: Mode,
    args: &Vec<FunctionArg>,
) -> (r: Result<WindowHead, HtapError>)
    ensures
        head_agrees(r, final(st)@, window_count_of(cx, sc@, old(st)@, m, *args)),
    decreases args, 0int, 0int,
{
    if args.len() != 1 {
        return Err(wrong_count_error("COUNT", " requires exactly 1 argument, found ", args.len()));
    }
    match &args[0] {
        FunctionArg::Expr(e) => {
            let inner = Mode { in_aggregate: m.in_aggregate, in_window: true };
            match bind(cx, sc, st, inner, e) {
                Err(x) => Err(x),
                Ok(b) => {
                    let ghost v = b@;
                    let mut out: Vec<Expr> = Vec::new();
                    out.push(b);
                    assert(views(out@) =~= seq![v]);
                    Ok(
                        WindowHead {
                            kind: WindowFunctionKind::Count,
                            args: out,
                            data_type: DataType::Int64,
                            nullable: false,
                        },
                    )
                },
            }
        },
        FunctionArg::Wildcard => {
            let out: Vec<Expr> = Vec::new();
            assert(views(out@) =~= Seq::empty());
            Ok(
                WindowHead {
                    kind: WindowFunctionKind::CountStar,
                    args: out,
                    data_type: DataType::Int64,
                    nullable: false,
                },
            )
        },
        FunctionArg::Other => Err(
            wrong_count_error("COUNT", " requires exactly 1 argument, found ", args.len()),
        ),
    }
}

fn head_value(
    cx: Env<'_>,
    sc: &Scope<'_>,
    st: &mut BindState,
    m: Mode,
    args: &Vec<FunctionArg>,
    name: &str,
) -> (r: Result<WindowHead, HtapError>)
    requires
        forall|j: int| 0 <= j < args@.len() ==> (#[trigger] args@[j]) is Expr,
    ensures
        head_agrees(r, final(st)@, window_value_of(cx, sc@, old(st)@, m, *args, name@)),
    decreases args, 0int, 0int,
{
    if args.len() != 1 {
        return Err(wrong_count_error(name, " requires exactly 1 argument, found ", args.len()));
    }
    assert(args@[0] is Expr);
    match &args[0] {
        FunctionArg::Expr(e) => {
            let inner = Mode { in_aggregate: m.in_aggregate, in_window: true };
            let b = match bind(cx, sc, st, inner, e) {
                Ok(b) => b,
                Err(x) => {
                    return Err(x);
                },
            };
            match kind_of_value_window(name, &b) {
                Err(x) => Err(x),
                Ok((kind, data_type)) => {
                    let ghost v = b@;
                    let mut out: Vec<Expr> = Vec::new();
                    out.push(b);
                    assert(views(out@) =~= seq![v]);
                    Ok(WindowHead { kind, args: out, data_type, nullable: true })
                },
            }
        },
        _ => Err(invalid(String::new())),
    }
}

fn default_of_lag(
    cx: Env<'_>,
    sc: &Scope<'_>,
    st: &mut BindState,
    m: Mode,
    args: &Vec<FunctionArg>,
    name: &str,
    value: &Expr,
) -> (r: Result<Expr, HtapError>)
    requires
        forall|j: int| 0 <= j < args@.len() ==> (#[trigger] args@[j]) is Expr,
    ensures
        agrees(r, final(st)@, lag_default_of(cx, sc@, old(st)@, m, *args, name@, value@)),
    decreases args, 0int, 0int,
{
    if args.len() <= 2 {
        return Ok(Expr::Literal(Value::Null));
    }
    assert(args@[2] is Expr);
    match &args[2] {
        FunctionArg::Expr(d) => {
            let inner = Mode { in_aggregate: m.in_aggregate, in_window: true };
            let b = match bind(cx, sc, st, inner, d) {
                Ok(b) => b,
                Err(x) => {
                    return Err(x);
                },
            };
            match check_lag_default(value, &b, name) {
                Err(x) => Err(x),
                Ok(_) => Ok(b),
            }
        },
        _ => Err(invalid(String::new())),
    }
}

fn head_lag(
    cx: Env<'_>,
    sc: &Scope<'_>,
    st: &mut BindState,
    m: Mode,
    args: &Vec<FunctionArg>,
    name: &str,
) -> (r: Result<WindowHead, HtapError>)
    requires
        forall|j: int| 0 <= j < args@.len() ==> (#[trigger] args@[j]) is Expr,
    ensures
        head_agrees(r, final(st)@, window_lag_of(cx, sc@, old(st)@, m, *args, name@)),
    decreases args, 1int, 0int,
{
    if args.len() < 1 || args.len() > 3 {
        return Err(wrong_count_error(name, " requires 1 to 3 arguments, found ", args.len()));
    }
    assert(args@[0] is Expr);
    match &args[0] {
        FunctionArg::Expr(e) => {
            let inner = Mode { in_aggregate: m.in_aggregate, in_window: true };
            let value = match bind(cx, sc, st, inner, e) {
                Ok(b) => b,
                Err(x) => {
                    return Err(x);
                },
            };
            let k: i64 = match offset_of_lag(args, name) {
                Ok(k) => k,
                Err(x) => {
                    return Err(x);
                },
            };
            let d = match default_of_lag(cx, sc, st, m, args, name, &value) {
                Ok(b) => b,
                Err(x) => {
                    return Err(x);
                },
            };
            let data_type = value.static_type().data_type;
            let offset = Expr::Literal(Value::Int64(k));
            assert(offset@ == ExprView::Literal(ValueView::Int64(k)));
            let ghost all = seq![value@, ExprView::Literal(ValueView::Int64(k)), d@];
            let mut out: Vec<Expr> = Vec::new();
            out.push(value);
            out.push(offset);
            out.push(d);
            assert(views(out@) =~= all);
            let kind = if same_text(name, "LAG") {
                WindowFunctionKind::Lag
            } else {
                WindowFunctionKind::Lead
            };
            Ok(WindowHead { kind, args: out, data_type, nullable: true })
        },
        _ => Err(invalid(String::new())),
    }
}

fn head_of(
    cx: Env<'_>,
    sc: &Scope<'_>,
    st: &mut BindState,
    m: Mode,
    args: &Vec<FunctionArg>,
    name: &str,
) -> (r: Result<WindowHead, HtapError>)
    requires
        name@ != "COUNT"@ ==> forall|j: int|
            0 <= j < args@.len() ==> (#[trigger] args@[j]) is Expr,
    ensures
        head_agrees(r, final(st)@, window_head_of(cx, sc@, old(st)@, m, *args, name@)),
    decreases args, 2int, 0int,
{
    if same_text(name, "COUNT") {
        proof {
            reveal_strlit("COUNT");
            reveal_strlit("ROW_NUMBER");
            reveal_strlit("RANK");
            reveal_strlit("DENSE_RANK");
            reveal_strlit("NTILE");
            reveal_strlit("LAG");
            reveal_strlit("LEAD");
            assert("COUNT"@[0] != "ROW_NUMBER"@[0]);
            assert("COUNT"@[0] != "RANK"@[0]);
            assert("COUNT"@[0] != "DENSE_RANK"@[0]);
            assert("COUNT"@[0] != "NTILE"@[0]);
            assert("COUNT"@[0] != "LAG"@[0]);
            assert("COUNT"@[0] != "LEAD"@[0]);
        }
        return head_count(cx, sc, st, m, args);
    }
    if same_text(name, "ROW_NUMBER") || same_text(name, "RANK") || same_text(name, "DENSE_RANK") {
        return head_numbering(name, args.len(), st);
    }
    if same_text(name, "NTILE") {
        return head_ntile(name, args, st);
    }
    if same_text(name, "LAG") || same_text(name, "LEAD") {
        return head_lag(cx, sc, st, m, args, name);
    }
    if framed(name) {
        return head_value(cx, sc, st, m, args, name);
    }
    Err(unsupported(cat3("window function '", name, "' not supported")))
}

fn bind_list(cx: Env<'_>, sc: &Scope<'_>, st: &mut BindState, m: Mode, list: &Vec<SqlExpr>) -> (r:
    Result<Vec<Expr>, HtapError>)
    ensures
        agrees_list(r, final(st)@, bind_list_of(cx, sc@, old(st)@, m, *list, 0, Seq::empty())),
    decreases list, 0int, 0int,
{
    let ghost model = bind_list_of(cx, sc@, st@, m, *list, 0, Seq::empty());
    let mut out: Vec<Expr> = Vec::new();
    let mut i: usize = 0;
    assert(views(out@) =~= Seq::empty());
    while i < list.len()
        invariant
            i <= list.len(),
            model == bind_list_of(cx, sc@, old(st)@, m, *list, 0, Seq::empty()),
            model == bind_list_of(cx, sc@, st@, m, *list, i as int, views(out@)),
        decreases list.len() - i,
    {
        let b = match bind(cx, sc, st, m, &list[i]) {
            Ok(b) => b,
            Err(x) => {
                return Err(x);
            },
        };
        proof {
            lemma_views_push(out@, b);
        }
        out.push(b);
        i = i + 1;
    }
    Ok(out)
}

fn bind_window_order(
    cx: Env<'_>,
    sc: &Scope<'_>,
    st: &mut BindState,
    m: Mode,
    list: &Vec<OrderByExpr>,
) -> (r: Result<Vec<OrderItem>, HtapError>)
    ensures
        agrees_list(
            r,
            final(st)@,
            bind_window_order_of(cx, sc@, old(st)@, m, *list, 0, Seq::empty()),
        ),
    decreases list, 0int, 0int,
{
    let ghost model = bind_window_order_of(cx, sc@, st@, m, *list, 0, Seq::empty());
    let mut out: Vec<OrderItem> = Vec::new();
    let mut i: usize = 0;
    assert(views(out@) =~= Seq::empty());
    while i < list.len()
        invariant
            i <= list.len(),
            model == bind_window_order_of(cx, sc@, old(st)@, m, *list, 0, Seq::empty()),
            model == bind_window_order_of(cx, sc@, st@, m, *list, i as int, views(out@)),
        decreases list.len() - i,
    {
        if list[i].with_fill {
            return Err(unsupported(owned("WITH FILL is not supported in window ORDER BY")));
        }
        let b = match bind(cx, sc, st, m, &list[i].expr) {
            Ok(b) => b,
            Err(x) => {
                return Err(x);
            },
        };
        let item = make_order_item(&list[i], b);
        proof {
            lemma_views_push(out@, item);
        }
        out.push(item);
        i = i + 1;
    }
    Ok(out)
}

fn bind_value_frame_bound(
    cx: Env<'_>,
    sc: &Scope<'_>,
    st: &mut BindState,
    m: Mode,
    b: &FrameBound,
) -> (r: Result<ValueFrameBound, HtapError>)
    ensures
        agrees(r, final(st)@, bind_value_bound_of(cx, sc@, old(st)@, m, *b)),
    decreases b, 0int, 0int,
{
    match b {
        FrameBound::CurrentRow => Ok(ValueFrameBound::CurrentRow),
        FrameBound::Preceding(None) => Ok(
            ValueFrameBound::Unbounded(WindowFrameDirection::Preceding),
        ),
        FrameBound::Following(None) => Ok(
            ValueFrameBound::Unbounded(WindowFrameDirection::Following),
        ),
        FrameBound::Preceding(Some(e)) => match bind(cx, sc, st, m, e) {
            Err(x) => Err(x),
            Ok(value) => distance(value, WindowFrameDirection::Preceding),
        },
        FrameBound::Following(Some(e)) => match bind(cx, sc, st, m, e) {
            Err(x) => Err(x),
            Ok(value) => distance(value, WindowFrameDirection::Following),
        },
    }
}

fn bind_end_bound(
    cx: Env<'_>,
    sc: &Scope<'_>,
    st: &mut BindState,
    m: Mode,
    b: &Option<FrameBound>,
) -> (r: Result<ValueFrameBound, HtapError>)
    ensures
        agrees(r, final(st)@, bind_end_bound_of(cx, sc@, old(st)@, m, *b)),
    decreases b, 0int, 0int,
{
    match b {
        None => Ok(ValueFrameBound::CurrentRow),
        Some(x) => bind_value_frame_bound(cx, sc, st, m, x),
    }
}

fn bind_range_frame(
    cx: Env<'_>,
    sc: &Scope<'_>,
    st: &mut BindState,
    m: Mode,
    f: &SqlFrame,
    order_by: &Vec<OrderItem>,
) -> (r: Result<WindowFrame, HtapError>)
    ensures
        agrees(r, final(st)@, bind_range_of(cx, sc@, old(st)@, m, *f, views(order_by@))),
    decreases f, 0int, 0int,
{
    match check_range_order(order_by) {
        Err(x) => {
            return Err(x);
        },
        Ok(_) => {},
    }
    let start = match bind_value_frame_bound(cx, sc, st, m, &f.start) {
        Ok(b) => b,
        Err(x) => {
            return Err(x);
        },
    };
    let end = match bind_end_bound(cx, sc, st, m, &f.end) {
        Ok(b) => b,
        Err(x) => {
            return Err(x);
        },
    };
    match validate_value_frame_bounds(&start, &end, cx.answers) {
        Err(x) => Err(x),
        Ok(_) => Ok(WindowFrame::ValueRange { start, end }),
    }
}

fn bind_window_frame(
    cx: Env<'_>,
    sc: &Scope<'_>,
    st: &mut BindState,
    m: Mode,
    frame: &Option<SqlFrame>,
    order_by: &Vec<OrderItem>,
) -> (r: Result<WindowFrame, HtapError>)
    ensures
        agrees(r, final(st)@, bind_frame_of(cx, sc@, old(st)@, m, *frame, views(order_by@))),
    decreases frame, 0int, 0int,
{
    match frame {
        None => Ok(frame_without_clause(order_by.len() > 0)),
        Some(f) => match f.units {
            FrameUnits::Rows => rows_frame_of(f),
            FrameUnits::Range => {
                let end_offset = match &f.end {
                    Some(b) => bound_has_offset(b),
                    None => false,
                };
                if !bound_has_offset(&f.start) && !end_offset {
                    peers_frame_of(f)
                } else {
                    bind_range_frame(cx, sc, st, m, f, order_by)
                }
            },
            FrameUnits::Groups => Err(
                unsupported(owned("GROUPS window frames are not supported")),
            ),
        },
    }
}

fn bind_over(
    cx: Env<'_>,
    sc: &Scope<'_>,
    st: &mut BindState,
    m: Mode,
    head: WindowHead,
    name: &str,
    w: &SqlWindow,
) -> (r: Result<Expr, HtapError>)
    ensures
        agrees(
            r,
            final(st)@,
            bind_over_of(
                cx,
                sc@,
                m,
                HeadView {
                    kind: head.kind,
                    args: views(head.args@),
                    data_type: head.data_type,
                    nullable: head.nullable,
                    st: old(st)@,
                },
                name@,
                *w,
            ),
        ),
    decreases w, 0int, 0int,
{
    let ghost before = st@;
    let inner = Mode { in_aggregate: m.in_aggregate, in_window: true };
    let partition_by = match bind_list(cx, sc, st, inner, &w.partition_by) {
        Ok(b) => b,
        Err(x) => {
            return Err(x);
        },
    };
    let order_by = match bind_window_order(cx, sc, st, inner, &w.order_by) {
        Ok(b) => b,
        Err(x) => {
            return Err(x);
        },
    };
    if framed(name) {
        let frame = match bind_window_frame(cx, sc, st, inner, &w.frame, &order_by) {
            Ok(b) => b,
            Err(x) => {
                return Err(x);
            },
        };
        collect_window(sc, st, head, partition_by, order_by, frame, Ghost(before))
    } else {
        collect_window(sc, st, head, partition_by, order_by, WindowFrame::Whole, Ghost(before))
    }
}

fn bind_window_function(
    cx: Env<'_>,
    sc: &Scope<'_>,
    st: &mut BindState,
    m: Mode,
    f: &Function,
    name: &str,
) -> (r: Result<Expr, HtapError>)
    ensures
        agrees(r, final(st)@, bind_window_of(cx, sc@, old(st)@, m, *f, name@)),
        window_call_check(sc@, m, *f) is Err || window_check(f.over) is Err || window_list_check(
            f.args,
            name@,
        ) is Err ==> final(st)@ == old(st)@,
    decreases f, 8int, 0int,
{
    match check_window_call(sc, m, f) {
        Err(x) => {
            return Err(x);
        },
        Ok(_) => {},
    }
    match check_window(&f.over) {
        Err(x) => {
            return Err(x);
        },
        Ok(_) => {},
    }
    match check_window_list(&f.args, name) {
        Err(x) => {
            return Err(x);
        },
        Ok(_) => {},
    }
    match (&f.over, &f.args) {
        (Some(WindowType::Spec(w)), FunctionArguments::List(list)) => {
            match check_window_args(&list.args, name) {
                Err(x) => {
                    return Err(x);
                },
                Ok(_) => {},
            }
            if ranks(name) && w.frame.is_some() {
                return Err(
                    unsupported(cat2("explicit window frames are not supported for ", name)),
                );
            }
            let head = match head_of(cx, sc, st, m, &list.args, name) {
                Ok(h) => h,
                Err(x) => {
                    return Err(x);
                },
            };
            bind_over(cx, sc, st, m, head, name, w)
        },
        _ => Err(invalid(String::new())),
    }
}

} // verus!
