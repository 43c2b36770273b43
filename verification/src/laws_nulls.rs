//! Laws of nullability: an expression whose type is not nullable is never `NULL`.

use crate::answers::Answers;
use crate::arithmetic::arithmetic_view;
use crate::convert::{cast_view, compare_view, conform_view, Rank};
use crate::eval::{
    any_null, call_value, case_of, concat_text, concat_value, eval_list_of, eval_of,
    first_present, in_list_of, strict_operation, ContextView,
};
use crate::expr::{any_nullable, type_of, BinOp, ExprView, ScalarFn};
use crate::model_calls::{case_expr, case_results, every_null, scalar_call, scalar_named, some_null};
use crate::names::common_of;
use crate::typing::branches_type;
use crate::value::{DataType, ErrorView, ValueView};
use vstd::prelude::*;

verus! {

/// Whether an evaluation gives `NULL`.
pub open spec fn is_null(r: Result<ValueView, ErrorView>) -> bool {
    r == Ok::<ValueView, ErrorView>(ValueView::Null)
}

/// Whether the nullability that an expression shows holds in a context. A reference that is not
/// nullable finds no `NULL`; a `CASE` that is not nullable has results that are not, `ELSE`
/// included; a call that is not nullable has the arguments for that.
pub open spec fn honest(e: ExprView, c: ContextView) -> bool
    decreases e, 0int,
{
    match e {
        ExprView::ColumnRef { nullable, .. } => nullable || !is_null(eval_of(e, c)),
        ExprView::CorrelatedColumnRef { nullable, .. } => nullable || !is_null(eval_of(e, c)),
        ExprView::OutputColumn { nullable, .. } => nullable || !is_null(eval_of(e, c)),
        ExprView::AggregateRef { nullable, .. } => nullable || !is_null(eval_of(e, c)),
        ExprView::WindowRef { nullable, .. } => nullable || !is_null(eval_of(e, c)),
        ExprView::BinaryOp { left, right, .. } => honest(*left, c) && honest(*right, c),
        ExprView::Not(x) => honest(*x, c),
        ExprView::Negate(x) => honest(*x, c),
        ExprView::Like { expr, pattern, .. } => honest(*expr, c) && honest(*pattern, c),
        ExprView::In { expr, list, .. } => honest(*expr, c) && all_honest(
            list,
            list.len() as int,
            c,
        ),
        ExprView::Between { expr, low, high, .. } => honest(*expr, c) && honest(*low, c) && honest(
            *high,
            c,
        ),
        ExprView::Cast { expr, .. } => honest(*expr, c),
        ExprView::CalendarInterval { expr, quantity, .. } => honest(*expr, c) && honest(
            *quantity,
            c,
        ),
        ExprView::Case { branches, else_result, nullable, .. } => nullable || (all_results_present(
            branches,
            branches.len() as int,
            c,
        ) && match else_result {
            Some(x) => honest(*x, c) && !type_of(*x).nullable,
            None => false,
        }),
        ExprView::ScalarFunction { func, args, nullable, .. } => nullable || match func {
            ScalarFn::NullIf => false,
            ScalarFn::Coalesce => some_present(args, args.len() as int, c),
            ScalarFn::IfNull => some_present(args, 2, c),
            _ => all_present(args, args.len() as int, c),
        },
        _ => true,
    }
}

/// Whether the first `n` expressions are honest.
pub open spec fn all_honest(list: Seq<ExprView>, n: int, c: ContextView) -> bool
    decreases list, n,
{
    n <= 0 || n > list.len() || (all_honest(list, n - 1, c) && honest(list[n - 1], c))
}

/// Whether the first `n` expressions are honest and not nullable.
pub open spec fn all_present(list: Seq<ExprView>, n: int, c: ContextView) -> bool
    decreases list, n,
{
    n <= 0 || n > list.len() || (all_present(list, n - 1, c) && honest(list[n - 1], c) && !type_of(
        list[n - 1],
    ).nullable)
}

/// Whether one of the first `n` expressions is honest and not nullable.
pub open spec fn some_present(list: Seq<ExprView>, n: int, c: ContextView) -> bool
    decreases list, n,
{
    0 < n <= list.len() && (some_present(list, n - 1, c) || (honest(list[n - 1], c) && !type_of(
        list[n - 1],
    ).nullable))
}

/// Whether the results of the first `n` branches are honest and not nullable.
pub open spec fn all_results_present(
    branches: Seq<(ExprView, ExprView)>,
    n: int,
    c: ContextView,
) -> bool
    decreases branches, n,
{
    n <= 0 || n > branches.len() || (all_results_present(branches, n - 1, c) && honest(
        branches[n - 1].1,
        c,
    ) && !type_of(branches[n - 1].1).nullable)
}

/// Sums, differences and products of values are values.
proof fn lemma_arithmetic_present(op: BinOp, l: ValueView, r: ValueView, answers: Answers)
    requires
        op == BinOp::Add || op == BinOp::Sub || op == BinOp::Mul,
    ensures
        !is_null(arithmetic_view(op, l, r, answers)),
{
}

/// Values can be compared.
proof fn lemma_compare_present(l: ValueView, r: ValueView, answers: Answers)
    requires
        !(l is Null),
        !(r is Null),
    ensures
        compare_view(l, r, answers) != Ok::<Option<Rank>, ErrorView>(None),
{
}

/// A value stays one when it is cast or conformed.
proof fn lemma_conversions_present(v: ValueView, to: DataType, answers: Answers)
    requires
        !(v is Null),
    ensures
        !is_null(cast_view(v, to, answers)),
        !is_null(conform_view(v, to, answers)),
{
}

/// An operator whose result can be `NULL` only where an operand is.
proof fn lemma_operator_present(op: BinOp, l: ValueView, r: ValueView, answers: Answers)
    requires
        !op.divides(),
        op != BinOp::And,
        op != BinOp::Or,
        !(l is Null),
        !(r is Null),
    ensures
        !is_null(strict_operation(op, l, r, answers)),
{
    if op.comparison() {
        lemma_compare_present(l, r, answers);
    } else {
        lemma_arithmetic_present(op, l, r, answers);
    }
}

/// The values of a list are those of its expressions.
proof fn lemma_list_values(list: Seq<ExprView>, c: ContextView, i: int, acc: Seq<ValueView>)
    requires
        0 <= i <= list.len(),
        acc.len() == i,
        eval_list_of(list, c, i, acc) is Ok,
    ensures
        ({
            let vals = eval_list_of(list, c, i, acc)->Ok_0;
            &&& vals.len() == list.len()
            &&& forall|k: int| 0 <= k < i ==> vals[k] == acc[k]
            &&& forall|k: int|
                i <= k < list.len() ==> eval_of(#[trigger] list[k], c) == Ok::<
                    ValueView,
                    ErrorView,
                >(vals[k])
        }),
    decreases list.len() - i,
{
    if i < list.len() {
        let v = eval_of(list[i], c)->Ok_0;
        lemma_list_values(list, c, i + 1, acc.push(v));
        assert(acc.push(v)[i] == v);
    }
}

/// `CONCAT` of values is a value.
proof fn lemma_concat_present(vals: Seq<ValueView>, i: int, acc: Seq<char>, answers: Answers)
    requires
        0 <= i,
        forall|k: int| 0 <= k < vals.len() ==> !((#[trigger] vals[k]) is Null),
    ensures
        !is_null(concat_value(vals, i, acc, answers)),
    decreases vals.len() - i,
{
    if i < vals.len() && concat_text(vals[i], answers) is Ok {
        lemma_concat_present(vals, i + 1, acc + concat_text(vals[i], answers)->Ok_0, answers);
    }
}

/// Among values with one that is not `NULL`, the first such is found.
proof fn lemma_first_present(vals: Seq<ValueView>, i: int, k: int)
    requires
        0 <= i <= k < vals.len(),
        !(vals[k] is Null),
    ensures
        !(first_present(vals, i) is Null),
    decreases vals.len() - i,
{
    if vals[i] is Null {
        lemma_first_present(vals, i + 1, k);
    }
}

proof fn lemma_no_null(vals: Seq<ValueView>, i: int)
    requires
        0 <= i,
        forall|k: int| 0 <= k < vals.len() ==> !((#[trigger] vals[k]) is Null),
    ensures
        !any_null(vals, i),
    decreases vals.len() - i,
{
    if i < vals.len() {
        lemma_no_null(vals, i + 1);
    }
}

/// A call of a function that gives `NULL` only for `NULL`, on values.
proof fn lemma_call_present(func: ScalarFn, vals: Seq<ValueView>, answers: Answers)
    requires
        func != ScalarFn::NullIf,
        func != ScalarFn::Coalesce,
        func != ScalarFn::IfNull,
        forall|k: int| 0 <= k < vals.len() ==> !((#[trigger] vals[k]) is Null),
    ensures
        !is_null(call_value(func, vals, answers)),
{
    lemma_concat_present(vals, 0, Seq::empty(), answers);
    lemma_no_null(vals, 0);
}

/// `IN` over candidates that are not nullable finds no `NULL`.
proof fn lemma_in_list(
    v: ValueView,
    list: Seq<ExprView>,
    negated: bool,
    c: ContextView,
    i: int,
)
    requires
        !(v is Null),
        0 <= i,
        all_honest(list, list.len() as int, c),
        !any_nullable(list, list.len() as int),
    ensures
        !is_null(in_list_of(v, list, negated, c, i, false)),
    decreases list, 0int, list.len() - i,
{
    if i < list.len() {
        lemma_listed(list, list.len() as int, i, c);
        lemma_never_null(list[i], c);
        match eval_of(list[i], c) {
            Ok(x) => {
                lemma_compare_present(v, x, c.answers);
            },
            Err(_) => {},
        }
        lemma_in_list(v, list, negated, c, i + 1);
    }
}

proof fn lemma_listed(list: Seq<ExprView>, n: int, i: int, c: ContextView)
    requires
        0 <= i < n <= list.len(),
        all_honest(list, n, c),
        !any_nullable(list, n),
    ensures
        honest(list[i], c),
        !type_of(list[i]).nullable,
    decreases n,
{
    if i < n - 1 {
        lemma_listed(list, n - 1, i, c);
    }
}

proof fn lemma_result_listed(branches: Seq<(ExprView, ExprView)>, n: int, i: int, c: ContextView)
    requires
        0 <= i < n <= branches.len(),
        all_results_present(branches, n, c),
    ensures
        honest(branches[i].1, c),
        !type_of(branches[i].1).nullable,
    decreases n,
{
    if i < n - 1 {
        lemma_result_listed(branches, n - 1, i, c);
    }
}

/// The branch that a `CASE` takes has a value.
proof fn lemma_case(
    operand: Option<ValueView>,
    branches: Seq<(ExprView, ExprView)>,
    data_type: DataType,
    c: ContextView,
    i: int,
)
    requires
        0 <= i,
        all_results_present(branches, branches.len() as int, c),
    ensures
        case_of(operand, branches, data_type, c, i) != Ok::<Option<ValueView>, ErrorView>(
            Some(ValueView::Null),
        ),
    decreases branches, 0int, branches.len() - i,
{
    if i < branches.len() {
        lemma_result_listed(branches, branches.len() as int, i, c);
        lemma_never_null(branches[i].1, c);
        match eval_of(branches[i].1, c) {
            Ok(v) => {
                lemma_conversions_present(v, data_type, c.answers);
            },
            Err(_) => {},
        }
        lemma_case(operand, branches, data_type, c, i + 1);
    }
}

/// Expressions that are honest and not nullable have values.
proof fn lemma_all_present(list: Seq<ExprView>, vals: Seq<ValueView>, n: int, c: ContextView)
    requires
        0 <= n <= list.len(),
        vals.len() == list.len(),
        forall|k: int|
            0 <= k < list.len() ==> eval_of(#[trigger] list[k], c) == Ok::<ValueView, ErrorView>(
                vals[k],
            ),
        all_present(list, n, c),
    ensures
        forall|k: int| 0 <= k < n ==> !((#[trigger] vals[k]) is Null),
    decreases list, 0int, n,
{
    if n > 0 {
        lemma_all_present(list, vals, n - 1, c);
        lemma_never_null(list[n - 1], c);
        assert(eval_of(list[n - 1], c) == Ok::<ValueView, ErrorView>(vals[n - 1]));
    }
}

/// One of several expressions that is honest and not nullable has a value.
proof fn lemma_some_present(list: Seq<ExprView>, vals: Seq<ValueView>, n: int, c: ContextView) -> (k:
    int)
    requires
        vals.len() == list.len(),
        forall|k: int|
            0 <= k < list.len() ==> eval_of(#[trigger] list[k], c) == Ok::<ValueView, ErrorView>(
                vals[k],
            ),
        some_present(list, n, c),
    ensures
        0 <= k < n <= list.len(),
        !(vals[k] is Null),
    decreases list, 0int, n,
{
    if honest(list[n - 1], c) && !type_of(list[n - 1]).nullable {
        lemma_never_null(list[n - 1], c);
        assert(eval_of(list[n - 1], c) == Ok::<ValueView, ErrorView>(vals[n - 1]));
        n - 1
    } else {
        lemma_some_present(list, vals, n - 1, c)
    }
}

/// A call that is honest and not nullable has a value.
proof fn lemma_function(func: ScalarFn, args: Seq<ExprView>, c: ContextView)
    requires
        match func {
            ScalarFn::NullIf => false,
            ScalarFn::Coalesce => some_present(args, args.len() as int, c),
            ScalarFn::IfNull => some_present(args, 2, c),
            _ => all_present(args, args.len() as int, c),
        },
        eval_list_of(args, c, 0, Seq::empty()) is Ok,
    ensures
        !is_null(call_value(func, eval_list_of(args, c, 0, Seq::empty())->Ok_0, c.answers)),
    decreases args, 1int, 0int,
{
    let vals = eval_list_of(args, c, 0, Seq::empty())->Ok_0;
    lemma_list_values(args, c, 0, Seq::empty());
    match func {
        ScalarFn::NullIf => {},
        ScalarFn::Coalesce => {
            let k = lemma_some_present(args, vals, args.len() as int, c);
            lemma_first_present(vals, 0, k);
        },
        ScalarFn::IfNull => {
            let k = lemma_some_present(args, vals, 2, c);
            assert(k == 0 || k == 1);
        },
        _ => {
            lemma_all_present(args, vals, args.len() as int, c);
            lemma_call_present(func, vals, c.answers);
        },
    }
}

proof fn lemma_never_null(e: ExprView, c: ContextView)
    requires
        honest(e, c),
        !type_of(e).nullable,
    ensures
        !is_null(eval_of(e, c)),
    decreases e, 0int, 0int,
{
    match e {
        ExprView::BinaryOp { op, left, right } => {
            lemma_never_null(*left, c);
            lemma_never_null(*right, c);
            match (eval_of(*left, c), eval_of(*right, c)) {
                (Ok(a), Ok(b)) => {
                    if op != BinOp::And && op != BinOp::Or {
                        lemma_operator_present(op, a, b, c.answers);
                    }
                },
                _ => {},
            }
        },
        ExprView::Not(x) => {
            lemma_never_null(*x, c);
        },
        ExprView::Negate(x) => {
            lemma_never_null(*x, c);
        },
        ExprView::Like { expr, pattern, .. } => {
            lemma_never_null(*expr, c);
            lemma_never_null(*pattern, c);
        },
        ExprView::In { expr, list, negated } => {
            lemma_never_null(*expr, c);
            match eval_of(*expr, c) {
                Ok(v) => {
                    lemma_in_list(v, list, negated, c, 0);
                },
                Err(_) => {},
            }
        },
        ExprView::Between { expr, low, high, .. } => {
            lemma_never_null(*expr, c);
            lemma_never_null(*low, c);
            lemma_never_null(*high, c);
            match (eval_of(*expr, c), eval_of(*low, c), eval_of(*high, c)) {
                (Ok(v), Ok(lo), Ok(hi)) => {
                    lemma_compare_present(v, lo, c.answers);
                    lemma_compare_present(v, hi, c.answers);
                },
                _ => {},
            }
        },
        ExprView::Cast { expr, to } => {
            lemma_never_null(*expr, c);
            match eval_of(*expr, c) {
                Ok(v) => {
                    lemma_conversions_present(v, to, c.answers);
                },
                Err(_) => {},
            }
        },
        ExprView::CalendarInterval { expr, quantity, .. } => {
            lemma_never_null(*expr, c);
            lemma_never_null(*quantity, c);
        },
        ExprView::Case { operand, branches, else_result, data_type, .. } => {
            match operand {
                Some(o) => {
                    match eval_of(*o, c) {
                        Ok(v) => {
                            lemma_case(Some(v), branches, data_type, c, 0);
                        },
                        Err(_) => {},
                    }
                },
                None => {
                    lemma_case(None, branches, data_type, c, 0);
                },
            }
            match else_result {
                Some(x) => {
                    lemma_never_null(*x, c);
                    match eval_of(*x, c) {
                        Ok(v) => {
                            lemma_conversions_present(v, data_type, c.answers);
                        },
                        Err(_) => {},
                    }
                },
                None => {},
            }
        },
        ExprView::ScalarFunction { func, args, data_type, .. } => {
            match eval_list_of(args, c, 0, Seq::empty()) {
                Ok(vals) => {
                    lemma_function(func, args, c);
                    match call_value(func, vals, c.answers) {
                        Ok(v) => {
                            lemma_conversions_present(v, data_type, c.answers);
                        },
                        Err(_) => {},
                    }
                },
                Err(_) => {},
            }
        },
        _ => {},
    }
}

/// An expression whose type is not nullable never evaluates to `NULL`, where its references and the
/// nullability stored in it are honest.
pub proof fn types_without_null_have_values(e: ExprView, c: ContextView)
    requires
        honest(e, c),
        !type_of(e).nullable,
    ensures
        eval_of(e, c) matches Ok(v) ==> !(v is Null),
{
    lemma_never_null(e, c);
}

/// Dividing by zero gives `NULL`, and the type of a division shows that it can.
pub proof fn divisions_are_nullable(op: BinOp, left: ExprView, right: ExprView)
    requires
        op.divides(),
    ensures
        type_of(
            ExprView::BinaryOp { op, left: Box::new(left), right: Box::new(right) },
        ).nullable,
{
}

proof fn lemma_some_of(args: Seq<ExprView>, n: int, c: ContextView)
    requires
        0 <= n <= args.len(),
        all_honest(args, n, c),
    ensures
        !some_null(args, n) ==> all_present(args, n, c),
        !every_null(args, n) ==> some_present(args, n, c),
    decreases n,
{
    if n > 0 {
        lemma_some_of(args, n - 1, c);
    }
}

/// How the nullability of a call depends on its arguments.
spec fn call_nullable(func: ScalarFn, args: Seq<ExprView>, nullable: bool) -> bool {
    match func {
        ScalarFn::NullIf => nullable,
        ScalarFn::Coalesce => nullable == every_null(args, args.len() as int),
        ScalarFn::IfNull => args.len() == 2 && nullable == type_of(args[1]).nullable,
        ScalarFn::Concat => nullable == some_null(args, args.len() as int),
        _ => args.len() == 1 && nullable == type_of(args[0]).nullable,
    }
}

proof fn lemma_call_nullable(name: Seq<char>, args: Seq<ExprView>)
    requires
        scalar_named(name, args) is Ok,
    ensures
        call_nullable(scalar_named(name, args)->Ok_0.0, args, scalar_named(name, args)->Ok_0.2),
{
}

proof fn lemma_last(args: Seq<ExprView>, c: ContextView)
    requires
        args.len() > 0,
        all_honest(args, args.len() as int, c),
        !type_of(args.last()).nullable,
    ensures
        some_present(args, args.len() as int, c),
        args.len() == 1 ==> all_present(args, 1, c),
{
    assert(all_present(args, 0, c));
}

proof fn lemma_call_honest(
    func: ScalarFn,
    args: Seq<ExprView>,
    data_type: DataType,
    nullable: bool,
    c: ContextView,
)
    requires
        all_honest(args, args.len() as int, c),
        call_nullable(func, args, nullable),
    ensures
        honest(ExprView::ScalarFunction { func, args, data_type, nullable }, c),
{
    let n = args.len() as int;
    lemma_some_of(args, n, c);
    if !nullable && func != ScalarFn::Coalesce && func != ScalarFn::Concat {
        lemma_last(args, c);
    }
}

/// A call that the binder makes of honest arguments is honest.
pub proof fn bound_calls_are_honest(name: Seq<char>, args: Seq<ExprView>, c: ContextView)
    requires
        all_honest(args, args.len() as int, c),
        scalar_call(name, args) is Ok,
    ensures
        honest(scalar_call(name, args)->Ok_0, c),
{
    lemma_call_nullable(name, args);
    let (func, data_type, nullable) = scalar_named(name, args)->Ok_0;
    lemma_call_honest(func, args, data_type, nullable, c);
    assert(scalar_call(name, args)->Ok_0 == (ExprView::ScalarFunction {
        func,
        args,
        data_type,
        nullable,
    }));
}

/// A type of several branches that is not nullable is one of branches that are not.
proof fn lemma_branches_type(
    exprs: Seq<ExprView>,
    what: Seq<char>,
    i: int,
    so_far: Option<DataType>,
    nullable: bool,
    k: int,
)
    requires
        0 <= i <= exprs.len(),
        branches_type(exprs, what, i, so_far, nullable) matches Ok((_, n)) && !n,
    ensures
        !nullable,
        i <= k < exprs.len() ==> !type_of(exprs[k]).nullable,
    decreases exprs.len() - i,
{
    if i < exprs.len() {
        let t = type_of(exprs[i]);
        if t.permissive() {
            lemma_branches_type(exprs, what, i + 1, so_far, nullable || t.nullable, k);
        } else {
            match so_far {
                None => {
                    lemma_branches_type(
                        exprs,
                        what,
                        i + 1,
                        Some(t.data_type),
                        nullable || t.nullable,
                        k,
                    );
                },
                Some(cur) => {
                    lemma_branches_type(
                        exprs,
                        what,
                        i + 1,
                        common_of(cur, t.data_type),
                        nullable || t.nullable,
                        k,
                    );
                },
            }
        }
    }
}

proof fn lemma_results_of(
    branches: Seq<(ExprView, ExprView)>,
    last: Option<ExprView>,
    n: int,
    c: ContextView,
)
    requires
        0 <= n <= branches.len(),
        branches_type(case_results(branches, last), "CASE"@, 0, None, false) matches Ok((_, x))
            && !x,
        forall|k: int| 0 <= k < branches.len() ==> honest((#[trigger] branches[k]).1, c),
    ensures
        all_results_present(branches, n, c),
    decreases n,
{
    if n > 0 {
        lemma_results_of(branches, last, n - 1, c);
        lemma_branches_type(case_results(branches, last), "CASE"@, 0, None, false, n - 1);
        assert(case_results(branches, last)[n - 1] == branches[n - 1].1);
        assert(honest(branches[n - 1].1, c));
    }
}

/// A `CASE` that the binder makes of honest results is honest.
pub proof fn bound_cases_are_honest(
    operand: Option<ExprView>,
    branches: Seq<(ExprView, ExprView)>,
    last: Option<ExprView>,
    c: ContextView,
)
    requires
        forall|k: int| 0 <= k < branches.len() ==> honest((#[trigger] branches[k]).1, c),
        last matches Some(x) ==> honest(x, c),
        case_expr(operand, branches, last) is Ok,
    ensures
        honest(case_expr(operand, branches, last)->Ok_0, c),
{
    match branches_type(case_results(branches, last), "CASE"@, 0, None, false) {
        Ok((_, nullable)) => {
            if !nullable && last is Some {
                let n = branches.len() as int;
                lemma_results_of(branches, last, n, c);
                lemma_branches_type(case_results(branches, last), "CASE"@, 0, None, false, n);
                assert(case_results(branches, last)[n] == last->0);
            }
        },
        Err(_) => {},
    }
}

} // verus!
