//! Answers that were given stand: more answers never change a result that is settled.

use crate::answers::{first_reply, Answers};
use crate::arithmetic::arithmetic_view;
use crate::convert::{bad_cast_view, cast_view, compare_view, conform_view, value_text};
use crate::eval::{
    between_value, call_value, case_of, concat_text, concat_value, eval_list_of, eval_of,
    in_list_of, in_rows_value, strict_operation, subquery_rows, ContextView,
};
use crate::expr::{BinOp, ExprView, ScalarFn};
use crate::value::{DataType, ErrorView, RequestView, ValueView};
use vstd::prelude::*;

verus! {

/// Whether every answer of one collection is given by another, too.
pub open spec fn extends(a: Answers, b: Answers) -> bool {
    forall|q: RequestView| (#[trigger] a.reply(q)) is Some ==> b.reply(q) == a.reply(q)
}

/// Whether a result does not wait for an answer.
pub open spec fn settled<T>(r: Result<T, ErrorView>) -> bool {
    !(r matches Err(ErrorView::Pending(_)))
}

proof fn lemma_first_reply(a: Answers, b: Answers, q: RequestView, i: int)
    requires
        0 <= i <= a.entries@.len() <= b.entries@.len(),
        forall|k: int| 0 <= k < a.entries@.len() ==> b.entries@[k] == a.entries@[k],
        first_reply(a.entries@, q, i) is Some,
    ensures
        first_reply(b.entries@, q, i) == first_reply(a.entries@, q, i),
    decreases a.entries@.len() - i,
{
    if i < a.entries@.len() && a.entries@[i].0@ != q {
        lemma_first_reply(a, b, q, i + 1);
    }
}

/// Recording more answers keeps those that are there.
pub proof fn more_answers_extend(a: Answers, b: Answers)
    requires
        a.entries@.len() <= b.entries@.len(),
        forall|k: int| 0 <= k < a.entries@.len() ==> b.entries@[k] == a.entries@[k],
    ensures
        extends(a, b),
{
    assert forall|q: RequestView| (#[trigger] a.reply(q)) is Some implies b.reply(q) == a.reply(
        q,
    ) by {
        lemma_first_reply(a, b, q, 0);
    }
}

proof fn lemma_texts(v: ValueView, to: DataType, a: Answers, b: Answers)
    requires
        extends(a, b),
    ensures
        settled(value_text(v, a)) ==> value_text(v, b) == value_text(v, a),
        !(bad_cast_view(v, to, a) is Pending) ==> bad_cast_view(v, to, b) == bad_cast_view(
            v,
            to,
            a,
        ),
{
}

proof fn lemma_casts(v: ValueView, to: DataType, a: Answers, b: Answers)
    requires
        extends(a, b),
    ensures
        settled(cast_view(v, to, a)) ==> cast_view(v, to, b) == cast_view(v, to, a),
{
    lemma_texts(v, to, a, b);
    lemma_texts(v, DataType::Bool, a, b);
    lemma_texts(v, DataType::Float64, a, b);
    lemma_texts(v, DataType::String, a, b);
}

proof fn lemma_conforms(v: ValueView, to: DataType, a: Answers, b: Answers)
    requires
        extends(a, b),
    ensures
        settled(conform_view(v, to, a)) ==> conform_view(v, to, b) == conform_view(v, to, a),
{
    lemma_casts(v, to, a, b);
}

proof fn lemma_compares(l: ValueView, r: ValueView, a: Answers, b: Answers)
    requires
        extends(a, b),
    ensures
        settled(compare_view(l, r, a)) ==> compare_view(l, r, b) == compare_view(l, r, a),
{
}

proof fn lemma_arithmetic(op: BinOp, l: ValueView, r: ValueView, a: Answers, b: Answers)
    requires
        extends(a, b),
    ensures
        settled(arithmetic_view(op, l, r, a)) ==> arithmetic_view(op, l, r, b) == arithmetic_view(
            op,
            l,
            r,
            a,
        ),
{
}

proof fn lemma_operations(op: BinOp, l: ValueView, r: ValueView, a: Answers, b: Answers)
    requires
        extends(a, b),
    ensures
        settled(strict_operation(op, l, r, a)) ==> strict_operation(op, l, r, b)
            == strict_operation(op, l, r, a),
{
    lemma_compares(l, r, a, b);
    lemma_arithmetic(op, l, r, a, b);
}

proof fn lemma_between(
    v: ValueView,
    lo: ValueView,
    hi: ValueView,
    negated: bool,
    a: Answers,
    b: Answers,
)
    requires
        extends(a, b),
    ensures
        settled(between_value(v, lo, hi, negated, a)) ==> between_value(v, lo, hi, negated, b)
            == between_value(v, lo, hi, negated, a),
{
    lemma_compares(v, lo, a, b);
    lemma_compares(v, hi, a, b);
}

proof fn lemma_concat(vals: Seq<ValueView>, i: int, acc: Seq<char>, a: Answers, b: Answers)
    requires
        extends(a, b),
    ensures
        settled(concat_value(vals, i, acc, a)) ==> concat_value(vals, i, acc, b) == concat_value(
            vals,
            i,
            acc,
            a,
        ),
    decreases vals.len() - i,
{
    if 0 <= i < vals.len() && !(vals[i] is Null) {
        lemma_texts(vals[i], DataType::String, a, b);
        match concat_text(vals[i], a) {
            Ok(t) => {
                lemma_concat(vals, i + 1, acc + t, a, b);
            },
            Err(_) => {},
        }
    }
}

proof fn lemma_calls(func: ScalarFn, vals: Seq<ValueView>, a: Answers, b: Answers)
    requires
        extends(a, b),
    ensures
        settled(call_value(func, vals, a)) ==> call_value(func, vals, b) == call_value(
            func,
            vals,
            a,
        ),
{
    lemma_concat(vals, 0, Seq::empty(), a, b);
    if vals.len() >= 2 {
        lemma_compares(vals[0], vals[1], a, b);
    }
}

proof fn lemma_in_rows(
    v: ValueView,
    rows: Seq<Seq<ValueView>>,
    negated: bool,
    i: int,
    saw_null: bool,
    a: Answers,
    b: Answers,
)
    requires
        extends(a, b),
    ensures
        settled(in_rows_value(v, rows, negated, a, i, saw_null)) ==> in_rows_value(
            v,
            rows,
            negated,
            b,
            i,
            saw_null,
        ) == in_rows_value(v, rows, negated, a, i, saw_null),
    decreases rows.len() - i,
{
    if 0 <= i < rows.len() {
        lemma_compares(v, crate::eval::first_value(rows[i]), a, b);
        lemma_in_rows(v, rows, negated, i + 1, true, a, b);
        lemma_in_rows(v, rows, negated, i + 1, saw_null, a, b);
    }
}

/// More answers never change the value of an expression that is settled, nor an error that is no
/// wait.
pub proof fn settled_values_stand(e: ExprView, c: ContextView, d: ContextView)
    requires
        extends(c.answers, d.answers),
        d == (ContextView { answers: d.answers, ..c }),
    ensures
        settled(eval_of(e, c)) ==> eval_of(e, d) == eval_of(e, c),
    decreases e, 0int, 0int,
{
    let a = c.answers;
    let b = d.answers;
    match e {
        ExprView::BinaryOp { op, left, right } => {
            settled_values_stand(*left, c, d);
            settled_values_stand(*right, c, d);
            match (eval_of(*left, c), eval_of(*right, c)) {
                (Ok(l), Ok(r)) => {
                    lemma_operations(op, l, r, a, b);
                },
                _ => {},
            }
        },
        ExprView::Not(x) => {
            settled_values_stand(*x, c, d);
        },
        ExprView::Negate(x) => {
            settled_values_stand(*x, c, d);
        },
        ExprView::IsNull(x) => {
            settled_values_stand(*x, c, d);
        },
        ExprView::IsNotNull(x) => {
            settled_values_stand(*x, c, d);
        },
        ExprView::Like { expr, pattern, .. } => {
            settled_values_stand(*expr, c, d);
            settled_values_stand(*pattern, c, d);
        },
        ExprView::In { expr, list, negated } => {
            settled_values_stand(*expr, c, d);
            match eval_of(*expr, c) {
                Ok(v) => {
                    lemma_in_list(v, list, negated, 0, false, c, d);
                },
                Err(_) => {},
            }
        },
        ExprView::Between { expr, low, high, negated } => {
            settled_values_stand(*expr, c, d);
            settled_values_stand(*low, c, d);
            settled_values_stand(*high, c, d);
            match (eval_of(*expr, c), eval_of(*low, c), eval_of(*high, c)) {
                (Ok(v), Ok(lo), Ok(hi)) => {
                    lemma_between(v, lo, hi, negated, a, b);
                },
                _ => {},
            }
        },
        ExprView::Case { operand, branches, else_result, data_type, .. } => {
            match operand {
                Some(x) => {
                    settled_values_stand(*x, c, d);
                    match eval_of(*x, c) {
                        Ok(v) => {
                            lemma_cases(Some(v), branches, data_type, 0, c, d);
                        },
                        Err(_) => {},
                    }
                },
                None => {
                    lemma_cases(None, branches, data_type, 0, c, d);
                },
            }
            match else_result {
                Some(x) => {
                    settled_values_stand(*x, c, d);
                    match eval_of(*x, c) {
                        Ok(v) => {
                            lemma_conforms(v, data_type, a, b);
                        },
                        Err(_) => {},
                    }
                },
                None => {},
            }
        },
        ExprView::Cast { expr, to } => {
            settled_values_stand(*expr, c, d);
            match eval_of(*expr, c) {
                Ok(v) => {
                    lemma_casts(v, to, a, b);
                },
                Err(_) => {},
            }
        },
        ExprView::CalendarInterval { expr, quantity, .. } => {
            settled_values_stand(*expr, c, d);
            settled_values_stand(*quantity, c, d);
        },
        ExprView::ScalarFunction { func, args, data_type, .. } => {
            lemma_list(args, 0, Seq::empty(), c, d);
            match eval_list_of(args, c, 0, Seq::empty()) {
                Ok(vals) => {
                    lemma_calls(func, vals, a, b);
                    match call_value(func, vals, a) {
                        Ok(v) => {
                            lemma_conforms(v, data_type, a, b);
                        },
                        Err(_) => {},
                    }
                },
                Err(_) => {},
            }
        },
        ExprView::InSubquery { expr, index, negated, correlated } => {
            settled_values_stand(*expr, c, d);
            match (eval_of(*expr, c), subquery_rows(c, index, correlated)) {
                (Ok(v), Ok(rows)) => {
                    lemma_in_rows(v, rows, negated, 0, false, a, b);
                },
                _ => {},
            }
        },
        _ => {},
    }
}

proof fn lemma_in_list(
    v: ValueView,
    list: Seq<ExprView>,
    negated: bool,
    i: int,
    saw_null: bool,
    c: ContextView,
    d: ContextView,
)
    requires
        extends(c.answers, d.answers),
        d == (ContextView { answers: d.answers, ..c }),
    ensures
        settled(in_list_of(v, list, negated, c, i, saw_null)) ==> in_list_of(
            v,
            list,
            negated,
            d,
            i,
            saw_null,
        ) == in_list_of(v, list, negated, c, i, saw_null),
    decreases list, 0int, list.len() - i,
{
    if 0 <= i < list.len() {
        settled_values_stand(list[i], c, d);
        match eval_of(list[i], c) {
            Ok(x) => {
                lemma_compares(v, x, c.answers, d.answers);
            },
            Err(_) => {},
        }
        lemma_in_list(v, list, negated, i + 1, true, c, d);
        lemma_in_list(v, list, negated, i + 1, saw_null, c, d);
    }
}

proof fn lemma_cases(
    operand: Option<ValueView>,
    branches: Seq<(ExprView, ExprView)>,
    data_type: DataType,
    i: int,
    c: ContextView,
    d: ContextView,
)
    requires
        extends(c.answers, d.answers),
        d == (ContextView { answers: d.answers, ..c }),
    ensures
        settled(case_of(operand, branches, data_type, c, i)) ==> case_of(
            operand,
            branches,
            data_type,
            d,
            i,
        ) == case_of(operand, branches, data_type, c, i),
    decreases branches, 0int, branches.len() - i,
{
    if 0 <= i < branches.len() {
        settled_values_stand(branches[i].0, c, d);
        settled_values_stand(branches[i].1, c, d);
        match (eval_of(branches[i].0, c), operand) {
            (Ok(x), Some(v)) => {
                lemma_compares(v, x, c.answers, d.answers);
            },
            _ => {},
        }
        match eval_of(branches[i].1, c) {
            Ok(v) => {
                lemma_conforms(v, data_type, c.answers, d.answers);
            },
            Err(_) => {},
        }
        lemma_cases(operand, branches, data_type, i + 1, c, d);
    }
}

proof fn lemma_list(
    list: Seq<ExprView>,
    i: int,
    acc: Seq<ValueView>,
    c: ContextView,
    d: ContextView,
)
    requires
        extends(c.answers, d.answers),
        d == (ContextView { answers: d.answers, ..c }),
    ensures
        settled(eval_list_of(list, c, i, acc)) ==> eval_list_of(list, d, i, acc) == eval_list_of(
            list,
            c,
            i,
            acc,
        ),
    decreases list, 0int, list.len() - i,
{
    if 0 <= i < list.len() {
        settled_values_stand(list[i], c, d);
        match eval_of(list[i], c) {
            Ok(v) => {
                lemma_list(list, i + 1, acc.push(v), c, d);
            },
            Err(_) => {},
        }
    }
}

} // verus!
