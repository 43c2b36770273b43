//! The model of operators, function calls and windows over bound operands.

use crate::answers::Answers;
use crate::convert::cast_view;
use crate::expr::{
    least, type_of, AggFn, AggregateView, BinOp, CalendarIntervalUnit, ExprView, ScalarFn,
};
use crate::names::{common_of, comparable_check, first_at};
use crate::query::{
    FrameView, OrderView, PeerFrameBound, WindowFrameDirection, WindowFunctionKind,
};
use crate::scope::{ScopeView, StateView};
use crate::sql::{
    BinaryOperator, DateTimeField, FrameBound, Function, FunctionArg, FunctionArguments,
    OrderByExpr, SqlExpr, SqlFrame, SqlNode, SqlValue, WindowType,
};
use crate::text::{nat_text, unsigned_value};
use crate::typing::{
    bool_check, branches_type, coerced_pair, integer_literal, interval_parts, numeric_check,
    operand_check, peer_bound, peer_frame_check, row_bound, row_frame_check, string_check,
    timestamp_check,
};
use crate::value::{
    invalid_view, unsupported_view, DataType, ErrorView, ValueView, MAX_DECIMAL_PRECISION,
};
use vstd::prelude::*;

verus! {

/// Inside what an expression stands.
#[derive(Clone, Copy, Debug)]
pub struct Mode {
    /// Inside the argument of an aggregate.
    pub in_aggregate: bool,
    /// Inside a window function.
    pub in_window: bool,
}

/// A bound expression with what was collected on the way, or a refusal.
pub type Bound = Result<(ExprView, StateView), ErrorView>;

/// A result together with an unchanged state.
pub open spec fn keep(r: Result<ExprView, ErrorView>, st: StateView) -> Bound {
    match r {
        Ok(e) => Ok((e, st)),
        Err(e) => Err(e),
    }
}

/// The operator of the bound tree, if the written one has one.
pub open spec fn operator_of(op: BinaryOperator) -> Result<BinOp, ErrorView> {
    match op {
        BinaryOperator::Plus => Ok(BinOp::Add),
        BinaryOperator::Minus => Ok(BinOp::Sub),
        BinaryOperator::Multiply => Ok(BinOp::Mul),
        BinaryOperator::Divide => Ok(BinOp::Div),
        BinaryOperator::IntegerDivide => Ok(BinOp::IntDiv),
        BinaryOperator::Modulo => Ok(BinOp::Mod),
        BinaryOperator::Eq => Ok(BinOp::Eq),
        BinaryOperator::NotEq => Ok(BinOp::NotEq),
        BinaryOperator::Lt => Ok(BinOp::Lt),
        BinaryOperator::LtEq => Ok(BinOp::Lte),
        BinaryOperator::Gt => Ok(BinOp::Gt),
        BinaryOperator::GtEq => Ok(BinOp::Gte),
        BinaryOperator::And => Ok(BinOp::And),
        BinaryOperator::Or => Ok(BinOp::Or),
        BinaryOperator::Other(t) => unsupported_view(
            "binary operator "@ + t@ + " not supported"@,
        ),
    }
}

/// A unary minus applied to a bound operand.
pub open spec fn negation(e: ExprView) -> Result<ExprView, ErrorView> {
    match e {
        ExprView::Literal(ValueView::Int64(i)) => if i == i64::MIN {
            invalid_view("integer literal overflow"@)
        } else {
            Ok(ExprView::Literal(ValueView::Int64((-i) as i64)))
        },
        ExprView::Literal(ValueView::Float64(d)) => Ok(
            ExprView::Literal(ValueView::Float64(d.negated())),
        ),
        _ => match numeric_check(type_of(e), "unary -"@) {
            Ok(_) => Ok(ExprView::Negate(Box::new(e))),
            Err(x) => Err(x),
        },
    }
}

/// A binary operator applied to bound operands.
pub open spec fn operation(op: BinOp, l: ExprView, r: ExprView) -> Result<ExprView, ErrorView> {
    let (l2, r2) = if op.comparison() {
        coerced_pair(l, r)
    } else {
        (l, r)
    };
    match operand_check(op, type_of(l2), type_of(r2)) {
        Ok(_) => Ok(ExprView::BinaryOp { op, left: Box::new(l2), right: Box::new(r2) }),
        Err(e) => Err(e),
    }
}

/// A timestamp moved by an interval.
pub open spec fn shifted(
    timestamp: ExprView,
    value: SqlExpr,
    unit: Option<DateTimeField>,
    negated: bool,
) -> Result<ExprView, ErrorView> {
    match timestamp_check(type_of(timestamp), "calendar interval"@) {
        Err(e) => Err(e),
        Ok(_) => match interval_parts(value, unit) {
            Err(e) => Err(e),
            Ok((quantity, unit)) => Ok(
                ExprView::CalendarInterval {
                    expr: Box::new(timestamp),
                    quantity: Box::new(quantity),
                    unit,
                    negated,
                },
            ),
        },
    }
}

/// The test behind `x IS TRUE` and the like: `x`, with `NULL` read as the other truth value,
/// compared with the truth value.
pub open spec fn truth_comparison(e: ExprView, target: bool) -> ExprView {
    ExprView::BinaryOp {
        op: BinOp::Eq,
        left: Box::new(
            ExprView::ScalarFunction {
                func: ScalarFn::Coalesce,
                args: seq![e, ExprView::Literal(ValueView::Bool(!target))],
                data_type: DataType::Bool,
                nullable: false,
            },
        ),
        right: Box::new(ExprView::Literal(ValueView::Bool(target))),
    }
}

/// `x IS TRUE` and the like, or its refusal.
pub open spec fn truth_test(e: ExprView, target: bool, negated: bool) -> Result<
    ExprView,
    ErrorView,
> {
    match bool_check(type_of(e), "IS TRUE/FALSE"@) {
        Err(x) => Err(x),
        Ok(_) => Ok(
            if negated {
                ExprView::Not(Box::new(truth_comparison(e, target)))
            } else {
                truth_comparison(e, target)
            },
        ),
    }
}

/// The field that `EXTRACT` reads.
pub open spec fn extract_unit(field: DateTimeField) -> Result<CalendarIntervalUnit, ErrorView> {
    match field {
        DateTimeField::Year => Ok(CalendarIntervalUnit::Year),
        DateTimeField::Month => Ok(CalendarIntervalUnit::Month),
        DateTimeField::Day => Ok(CalendarIntervalUnit::Day),
        DateTimeField::Other(t) => unsupported_view("EXTRACT field "@ + t@ + " not supported"@),
    }
}

/// `EXTRACT` of a bound operand, or its refusal.
pub open spec fn extraction(unit: CalendarIntervalUnit, e: ExprView) -> Result<
    ExprView,
    ErrorView,
> {
    match timestamp_check(type_of(e), "EXTRACT"@) {
        Err(x) => Err(x),
        Ok(_) => Ok(
            ExprView::ScalarFunction {
                func: ScalarFn::Extract(unit),
                args: seq![e],
                data_type: DataType::Int64,
                nullable: true,
            },
        ),
    }
}

/// `SUBSTRING` of bound operands, or its refusal.
pub open spec fn substring(e: ExprView, start: ExprView, length: ExprView) -> Result<
    ExprView,
    ErrorView,
> {
    match string_check(type_of(e), "SUBSTRING"@) {
        Err(x) => Err(x),
        Ok(_) => match numeric_check(type_of(start), "SUBSTRING start"@) {
            Err(x) => Err(x),
            Ok(_) => match numeric_check(type_of(length), "SUBSTRING length"@) {
                Err(x) => Err(x),
                Ok(_) => Ok(
                    ExprView::ScalarFunction {
                        func: ScalarFn::Substring,
                        args: seq![e, start, length],
                        data_type: DataType::String,
                        nullable: true,
                    },
                ),
            },
        },
    }
}

/// A cast of a bound operand; a literal is cast at once.
pub open spec fn casted(e: ExprView, to: DataType, answers: Answers) -> Result<
    ExprView,
    ErrorView,
> {
    match e {
        ExprView::Literal(v) => match cast_view(v, to, answers) {
            Ok(x) => Ok(ExprView::Literal(x)),
            Err(x) => Err(x),
        },
        _ => Ok(ExprView::Cast { expr: Box::new(e), to }),
    }
}

/// The results of the branches of a `CASE`, with the `ELSE` result last.
pub open spec fn case_results(branches: Seq<(ExprView, ExprView)>, last: Option<ExprView>) -> Seq<
    ExprView,
> {
    let results = branches.map_values(|b: (ExprView, ExprView)| b.1);
    match last {
        Some(e) => results.push(e),
        None => results,
    }
}

/// A `CASE` of bound parts, or its refusal.
pub open spec fn case_expr(
    operand: Option<ExprView>,
    branches: Seq<(ExprView, ExprView)>,
    last: Option<ExprView>,
) -> Result<ExprView, ErrorView> {
    match branches_type(case_results(branches, last), "CASE"@, 0, None, false) {
        Err(x) => Err(x),
        Ok((data_type, nullable)) => Ok(
            ExprView::Case {
                operand: match operand {
                    Some(o) => Some(Box::new(o)),
                    None => None,
                },
                branches,
                else_result: match last {
                    Some(o) => Some(Box::new(o)),
                    None => None,
                },
                data_type,
                nullable: nullable || last is None,
            },
        ),
    }
}

/// The aggregate that a function name stands for.
pub open spec fn aggregate_named(name: Seq<char>) -> Option<AggFn> {
    if name == "COUNT"@ {
        Some(AggFn::Count)
    } else if name == "SUM"@ {
        Some(AggFn::Sum)
    } else if name == "AVG"@ {
        Some(AggFn::Avg)
    } else if name == "MIN"@ {
        Some(AggFn::Min)
    } else if name == "MAX"@ {
        Some(AggFn::Max)
    } else {
        None
    }
}

/// The result type of a sum.
pub open spec fn sum_type(t: DataType) -> DataType {
    match t {
        DataType::Float64 => DataType::Float64,
        DataType::Decimal { scale, .. } => DataType::Decimal {
            precision: MAX_DECIMAL_PRECISION,
            scale,
        },
        _ => DataType::Int64,
    }
}

/// The result type of an average: four more digits behind the point, at most 18.
pub open spec fn avg_type(t: DataType) -> DataType {
    match t {
        DataType::Decimal { scale, .. } => DataType::Decimal {
            precision: MAX_DECIMAL_PRECISION,
            scale: least(scale + 4, MAX_DECIMAL_PRECISION as int) as u8,
        },
        _ => DataType::Float64,
    }
}

/// The result type and nullability of an aggregate, or the refusal of its argument.
pub open spec fn aggregate_type(func: AggFn, arg: ExprView, name: Seq<char>) -> Result<
    (DataType, bool),
    ErrorView,
> {
    let t = type_of(arg);
    match func {
        AggFn::Sum => match numeric_check(t, name) {
            Ok(_) => Ok((sum_type(t.data_type), true)),
            Err(e) => Err(e),
        },
        AggFn::Avg => match numeric_check(t, name) {
            Ok(_) => Ok((avg_type(t.data_type), true)),
            Err(e) => Err(e),
        },
        AggFn::Min => Ok((t.data_type, true)),
        AggFn::Max => Ok((t.data_type, true)),
        _ => Ok((DataType::Int64, false)),
    }
}

/// How an aggregate is shown.
pub open spec fn aggregate_display(name: Seq<char>, distinct: bool, arg: Seq<char>) -> Seq<char> {
    if distinct {
        name + "(DISTINCT "@ + arg + ")"@
    } else {
        name + "("@ + arg + ")"@
    }
}

/// Aggregates equal to a given one.
pub open spec fn same_aggregate(spec: AggregateView) -> spec_fn(AggregateView) -> bool {
    |x: AggregateView| x == spec
}

/// The reference to an aggregate, which is added unless it is there.
pub open spec fn aggregate_ref(st: StateView, spec: AggregateView) -> (ExprView, StateView) {
    match first_at(st.aggregates, same_aggregate(spec), 0) {
        Some(i) => (
            ExprView::AggregateRef {
                index: i as usize,
                data_type: spec.data_type,
                nullable: spec.nullable,
            },
            st,
        ),
        None => (
            ExprView::AggregateRef {
                index: st.aggregates.len() as usize,
                data_type: spec.data_type,
                nullable: spec.nullable,
            },
            StateView { aggregates: st.aggregates.push(spec), ..st },
        ),
    }
}

/// The aggregate `COUNT(*)`.
pub open spec fn count_star() -> AggregateView {
    AggregateView {
        func: AggFn::CountStar,
        distinct: false,
        arg: None,
        data_type: DataType::Int64,
        nullable: false,
        name: "COUNT(*)"@,
    }
}

/// Whether a function got the number of arguments it takes, and if not, its refusal.
pub open spec fn arity_check(name: Seq<char>, n: nat, found: nat) -> Result<(), ErrorView> {
    if found != n {
        invalid_view(
            name + " requires exactly "@ + nat_text(n) + " argument(s), found "@ + nat_text(found),
        )
    } else {
        Ok(())
    }
}

/// Whether any of the first `n` expressions can be `NULL`.
pub open spec fn some_null(args: Seq<ExprView>, n: int) -> bool
    decreases n,
{
    0 < n <= args.len() && (some_null(args, n - 1) || type_of(args[n - 1]).nullable)
}

/// Whether all of the first `n` expressions can be `NULL`.
pub open spec fn every_null(args: Seq<ExprView>, n: int) -> bool
    decreases n,
{
    n <= 0 || n > args.len() || (every_null(args, n - 1) && type_of(args[n - 1]).nullable)
}

/// A scalar function of one text with its result type and nullability, or a refusal.
pub open spec fn text_function(
    func: ScalarFn,
    result: DataType,
    name: Seq<char>,
    args: Seq<ExprView>,
) -> Result<(ScalarFn, DataType, bool), ErrorView> {
    match arity_check(name, 1, args.len()) {
        Err(e) => Err(e),
        Ok(_) => match string_check(type_of(args[0]), name) {
            Err(e) => Err(e),
            Ok(_) => Ok((func, result, type_of(args[0]).nullable)),
        },
    }
}

/// The scalar function a name stands for with its result type and nullability, or a refusal.
pub open spec fn scalar_named(name: Seq<char>, args: Seq<ExprView>) -> Result<
    (ScalarFn, DataType, bool),
    ErrorView,
> {
    if name == "UPPER"@ || name == "UCASE"@ {
        text_function(ScalarFn::Upper, DataType::String, name, args)
    } else if name == "LOWER"@ || name == "LCASE"@ {
        text_function(ScalarFn::Lower, DataType::String, name, args)
    } else if name == "LENGTH"@ || name == "OCTET_LENGTH"@ {
        match arity_check(name, 1, args.len()) {
            Err(e) => Err(e),
            Ok(_) => {
                let t = type_of(args[0]);
                if t.data_type != DataType::String && t.data_type != DataType::Bytes
                    && !t.permissive() {
                    invalid_view(name + " requires a string argument"@)
                } else {
                    Ok((ScalarFn::Length, DataType::Int64, t.nullable))
                }
            },
        }
    } else if name == "CHAR_LENGTH"@ || name == "CHARACTER_LENGTH"@ {
        text_function(ScalarFn::CharLength, DataType::Int64, name, args)
    } else if name == "CONCAT"@ {
        if args.len() == 0 {
            invalid_view("CONCAT requires at least one argument"@)
        } else {
            Ok((ScalarFn::Concat, DataType::String, some_null(args, args.len() as int)))
        }
    } else if name == "ABS"@ {
        match arity_check(name, 1, args.len()) {
            Err(e) => Err(e),
            Ok(_) => match numeric_check(type_of(args[0]), name) {
                Err(e) => Err(e),
                Ok(_) => Ok(
                    (ScalarFn::Abs, type_of(args[0]).data_type, type_of(args[0]).nullable),
                ),
            },
        }
    } else if name == "COALESCE"@ {
        if args.len() == 0 {
            invalid_view("COALESCE requires at least one argument"@)
        } else {
            match branches_type(args, "COALESCE"@, 0, None, false) {
                Err(e) => Err(e),
                Ok((t, _)) => Ok((ScalarFn::Coalesce, t, every_null(args, args.len() as int))),
            }
        }
    } else if name == "IFNULL"@ {
        match arity_check(name, 2, args.len()) {
            Err(e) => Err(e),
            Ok(_) => match branches_type(args, "IFNULL"@, 0, None, false) {
                Err(e) => Err(e),
                Ok((t, _)) => Ok((ScalarFn::IfNull, t, type_of(args[1]).nullable)),
            },
        }
    } else if name == "NULLIF"@ {
        match arity_check(name, 2, args.len()) {
            Err(e) => Err(e),
            Ok(_) => match comparable_check(type_of(args[0]), type_of(args[1]), "NULLIF"@) {
                Err(e) => Err(e),
                Ok(_) => Ok((ScalarFn::NullIf, type_of(args[0]).data_type, true)),
            },
        }
    } else {
        unsupported_view("function '"@ + name + "' not supported"@)
    }
}

/// A call of a scalar function on bound arguments, or its refusal.
pub open spec fn scalar_call(name: Seq<char>, args: Seq<ExprView>) -> Result<ExprView, ErrorView> {
    match scalar_named(name, args) {
        Err(x) => Err(x),
        Ok((func, data_type, nullable)) => Ok(
            ExprView::ScalarFunction { func, args, data_type, nullable },
        ),
    }
}

/// Whether a function without `OVER` is free of clauses that are not supported.
pub open spec fn call_check(f: Function) -> Result<(), ErrorView> {
    if f.filter {
        unsupported_view("aggregate FILTER clause not supported"@)
    } else if f.null_treatment || f.modifiers.given() {
        unsupported_view("function modifiers not supported"@)
    } else if f.parameters {
        unsupported_view("parameterized functions not supported"@)
    } else {
        Ok(())
    }
}

/// Whether a window function may stand where it does and is free of unsupported clauses.
pub open spec fn window_call_check(sc: ScopeView, m: Mode, f: Function) -> Result<(), ErrorView> {
    if sc.window_clause is Some {
        invalid_view("window functions are not allowed in "@ + sc.window_clause->0)
    } else if m.in_window {
        invalid_view("window functions cannot be nested"@)
    } else if m.in_aggregate {
        invalid_view("window functions cannot be used inside aggregate arguments"@)
    } else if f.filter {
        unsupported_view("FILTER is not supported for window functions"@)
    } else if f.null_treatment {
        unsupported_view("IGNORE NULLS / RESPECT NULLS is not supported for window functions"@)
    } else if f.modifiers.given() {
        unsupported_view("function modifiers not supported"@)
    } else if f.parameters {
        unsupported_view("parameterized window functions not supported"@)
    } else {
        Ok(())
    }
}

/// Whether a window is defined in place.
pub open spec fn window_check(over: Option<WindowType>) -> Result<(), ErrorView> {
    match over {
        Some(WindowType::Spec(w)) => if w.named {
            unsupported_view("named windows are not supported"@)
        } else {
            Ok(())
        },
        _ => unsupported_view("named windows are not supported"@),
    }
}

/// Whether the arguments of a window function are a plain list.
pub open spec fn window_list_check(args: FunctionArguments, name: Seq<char>) -> Result<
    (),
    ErrorView,
> {
    match args {
        FunctionArguments::Missing => invalid_view(
            "function '"@ + name + "' requires parentheses"@,
        ),
        FunctionArguments::Subquery => unsupported_view(
            "subqueries in window function arguments are not supported"@,
        ),
        FunctionArguments::List(list) => if list.duplicates is Some {
            unsupported_view(
                "DISTINCT / ALL is not supported for ranking and offset window functions"@,
            )
        } else if list.clauses {
            unsupported_view("clauses in window function arguments are not supported"@)
        } else {
            Ok(())
        },
    }
}

/// Whether the arguments from the `i`-th on are expressions.
pub open spec fn plain_args_check(args: Seq<FunctionArg>, name: Seq<char>, i: int) -> Result<
    (),
    ErrorView,
>
    decreases args.len() - i,
{
    if i < 0 || i >= args.len() {
        Ok(())
    } else {
        match args[i] {
            FunctionArg::Expr(_) => plain_args_check(args, name, i + 1),
            _ => unsupported_view("argument form not supported in '"@ + name + "'"@),
        }
    }
}

/// Whether a name is that of a function that ranks or looks at other rows.
pub open spec fn is_ranking(name: Seq<char>) -> bool {
    name == "ROW_NUMBER"@ || name == "RANK"@ || name == "DENSE_RANK"@ || name == "NTILE"@ || name
        == "LAG"@ || name == "LEAD"@
}

/// Whether a name is that of a function over a frame.
pub open spec fn is_framed(name: Seq<char>) -> bool {
    name == "COUNT"@ || name == "SUM"@ || name == "AVG"@ || name == "MIN"@ || name == "MAX"@ || name
        == "FIRST_VALUE"@ || name == "LAST_VALUE"@
}

/// The refusal of a wrong number of arguments.
pub open spec fn wrong_count<T>(name: Seq<char>, wanted: Seq<char>, found: nat) -> Result<
    T,
    ErrorView,
> {
    invalid_view(name + wanted + nat_text(found))
}

/// The bucket count of `NTILE`, or its refusal.
pub open spec fn ntile_count(e: SqlExpr) -> Result<i64, ErrorView> {
    let n: Option<int> = match e.node {
        SqlNode::Value(SqlValue::Number { digits, .. }) => unsigned_value(digits@),
        _ => None,
    };
    match n {
        Some(k) if 0 < k <= i64::MAX => Ok(k as i64),
        _ => invalid_view("NTILE argument must be a positive integer literal"@),
    }
}

/// The offset of `LAG` and `LEAD`, or its refusal.
pub open spec fn lag_offset(e: SqlExpr, name: Seq<char>) -> Result<i64, ErrorView> {
    let n: Option<int> = match integer_literal(e) {
        Some(d) => unsigned_value(d),
        None => None,
    };
    match n {
        Some(k) if k <= i64::MAX => Ok(k as i64),
        _ => invalid_view(name + " offset must be a non-negative integer literal"@),
    }
}

/// Whether the default of `LAG` and `LEAD` fits their value.
pub open spec fn lag_default_check(value: ExprView, default: ExprView, name: Seq<char>) -> Result<
    (),
    ErrorView,
> {
    let v = type_of(value);
    let d = type_of(default);
    if !v.permissive() && !d.permissive() && common_of(v.data_type, d.data_type) is None {
        invalid_view(
            name + " default has incompatible type "@ + d.data_type.keyword() + "; expected "@
                + v.data_type.keyword(),
        )
    } else {
        Ok(())
    }
}

/// A window function's kind, arguments, result type, nullability and what was collected.
pub struct HeadView {
    /// Function.
    pub kind: WindowFunctionKind,
    /// Arguments.
    pub args: Seq<ExprView>,
    /// Result type.
    pub data_type: DataType,
    /// Result nullability.
    pub nullable: bool,
    /// What was collected.
    pub st: StateView,
}

/// A numbering function, or its refusal.
pub open spec fn numbering_head(name: Seq<char>, n: nat, st: StateView) -> Result<
    HeadView,
    ErrorView,
> {
    if n != 0 {
        wrong_count(name, " requires exactly 0 arguments, found "@, n)
    } else {
        Ok(
            HeadView {
                kind: if name == "ROW_NUMBER"@ {
                    WindowFunctionKind::RowNumber
                } else if name == "RANK"@ {
                    WindowFunctionKind::Rank
                } else {
                    WindowFunctionKind::DenseRank
                },
                args: Seq::empty(),
                data_type: DataType::Int64,
                nullable: false,
                st,
            },
        )
    }
}

/// The expression that an argument is, if it is one.
pub open spec fn arg_expr(a: FunctionArg) -> SqlExpr {
    a->Expr_0
}

/// `NTILE`, or its refusal.
pub open spec fn ntile_head(name: Seq<char>, args: Seq<FunctionArg>, st: StateView) -> Result<
    HeadView,
    ErrorView,
> {
    if args.len() != 1 {
        wrong_count(name, " requires exactly 1 argument, found "@, args.len())
    } else {
        match ntile_count(arg_expr(args[0])) {
            Err(x) => Err(x),
            Ok(k) => Ok(
                HeadView {
                    kind: WindowFunctionKind::Ntile,
                    args: seq![ExprView::Literal(ValueView::Int64(k))],
                    data_type: DataType::Int64,
                    nullable: false,
                    st,
                },
            ),
        }
    }
}

/// The kind and result type of a window function over one argument.
pub open spec fn one_argument_window(name: Seq<char>, arg: ExprView) -> Result<
    (WindowFunctionKind, DataType),
    ErrorView,
> {
    let t = type_of(arg);
    if name == "SUM"@ {
        match numeric_check(t, name) {
            Ok(_) => Ok((WindowFunctionKind::Sum, sum_type(t.data_type))),
            Err(e) => Err(e),
        }
    } else if name == "AVG"@ {
        match numeric_check(t, name) {
            Ok(_) => Ok((WindowFunctionKind::Avg, avg_type(t.data_type))),
            Err(e) => Err(e),
        }
    } else if name == "MIN"@ {
        Ok((WindowFunctionKind::Min, t.data_type))
    } else if name == "MAX"@ {
        Ok((WindowFunctionKind::Max, t.data_type))
    } else if name == "FIRST_VALUE"@ {
        Ok((WindowFunctionKind::FirstValue, t.data_type))
    } else {
        Ok((WindowFunctionKind::LastValue, t.data_type))
    }
}

/// Whether a frame bound has a distance.
pub open spec fn has_offset(b: FrameBound) -> bool {
    match b {
        FrameBound::Preceding(Some(_)) => true,
        FrameBound::Following(Some(_)) => true,
        _ => false,
    }
}

/// Whether a `RANGE` frame with offsets has one numeric order key.
pub open spec fn range_order_check(order_by: Seq<OrderView>) -> Result<(), ErrorView> {
    if order_by.len() != 1 {
        invalid_view("RANGE frames with offsets require exactly one ORDER BY expression"@)
    } else {
        let t = type_of(order_by[0].expr);
        if !t.data_type.numeric() {
            invalid_view(
                "RANGE frames with offsets require a numeric or timestamp ORDER BY expression, found "@
                    + t.data_type.keyword(),
            )
        } else {
            Ok(())
        }
    }
}

/// The end of a frame; the current row where none is written.
pub open spec fn frame_end(f: SqlFrame) -> FrameBound {
    match f.end {
        Some(b) => b,
        None => FrameBound::CurrentRow,
    }
}

/// A `ROWS` frame, or its refusal.
pub open spec fn rows_frame(f: SqlFrame) -> Result<FrameView, ErrorView> {
    match row_bound(f.start) {
        Err(e) => Err(e),
        Ok(start) => match row_bound(frame_end(f)) {
            Err(e) => Err(e),
            Ok(end) => match row_frame_check(start, end) {
                Err(e) => Err(e),
                Ok(_) => Ok(FrameView::Rows { start, end }),
            },
        },
    }
}

/// A `RANGE` frame without offsets, or its refusal.
pub open spec fn peers_frame(f: SqlFrame) -> Result<FrameView, ErrorView> {
    match peer_bound(f.start) {
        Err(e) => Err(e),
        Ok(start) => match peer_bound(frame_end(f)) {
            Err(e) => Err(e),
            Ok(end) => match peer_frame_check(start, end) {
                Err(e) => Err(e),
                Ok(_) => Ok(FrameView::PeerRange { start, end }),
            },
        },
    }
}

/// The frame of a function where none is written.
pub open spec fn default_frame(ordered: bool) -> FrameView {
    if ordered {
        FrameView::PeerRange {
            start: PeerFrameBound::Unbounded(WindowFrameDirection::Preceding),
            end: PeerFrameBound::CurrentRow,
        }
    } else {
        FrameView::Whole
    }
}

/// Whether the order is ascending, which it is unless it is said otherwise.
pub open spec fn ascending_of(o: OrderByExpr) -> bool {
    match o.asc {
        Some(a) => a,
        None => true,
    }
}

/// Whether `NULL` comes first: in ascending order, unless it is said otherwise.
pub open spec fn nulls_first_of(o: OrderByExpr) -> bool {
    match o.nulls_first {
        Some(b) => b,
        None => ascending_of(o),
    }
}

} // verus!
