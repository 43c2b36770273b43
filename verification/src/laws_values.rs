//! Laws of values: what comparisons, ranges, lists and integer arithmetic mean.

use crate::answers::Answers;
use crate::arithmetic::{arithmetic_view, whole_quotient, whole_remainder};
use crate::convert::{compare_view, text_rank, Rank};
use crate::decimal::{magnitude, pow10};
use crate::eval::{
    case_of, eval_of, first_value, in_list_of, in_rows_value, matches_pattern, ContextView,
};
use crate::expr::{BinOp, ExprView};
use crate::laws_eval::{comparison_turns, turned, values_equal_themselves};
use crate::value::{DataType, ErrorView, ValueView};
use vstd::arithmetic::div_mod::lemma_fundamental_div_mod;
use vstd::prelude::*;

verus! {

/// A result that is a truth value.
pub open spec fn is_bool(r: Result<ValueView, ErrorView>, b: bool) -> bool {
    r == Ok::<ValueView, ErrorView>(ValueView::Bool(b))
}

/// A binary operator applied to two expressions.
pub open spec fn applied(op: BinOp, left: ExprView, right: ExprView) -> ExprView {
    ExprView::BinaryOp { op, left: Box::new(left), right: Box::new(right) }
}

/// A range test.
pub open spec fn ranged(x: ExprView, low: ExprView, high: ExprView, negated: bool) -> ExprView {
    ExprView::Between { expr: Box::new(x), low: Box::new(low), high: Box::new(high), negated }
}

/// `x BETWEEN low AND high` is `x >= low AND x <= high`, and `x NOT BETWEEN low AND high` is
/// `NOT (x >= low AND x <= high)`, wherever both comparisons have a value.
pub proof fn ranges_are_two_comparisons(
    x: ExprView,
    low: ExprView,
    high: ExprView,
    c: ContextView,
)
    requires
        eval_of(applied(BinOp::Gte, x, low), c) is Ok,
        eval_of(applied(BinOp::Lte, x, high), c) is Ok,
    ensures
        eval_of(ranged(x, low, high, false), c) == eval_of(
            applied(BinOp::And, applied(BinOp::Gte, x, low), applied(BinOp::Lte, x, high)),
            c,
        ),
        eval_of(ranged(x, low, high, true), c) == eval_of(
            ExprView::Not(
                Box::new(
                    applied(BinOp::And, applied(BinOp::Gte, x, low), applied(BinOp::Lte, x, high)),
                ),
            ),
            c,
        ),
{
    let ge = applied(BinOp::Gte, x, low);
    let le = applied(BinOp::Lte, x, high);
    let both = applied(BinOp::And, ge, le);
    lemma_operands(BinOp::Gte, x, low, c);
    lemma_operands(BinOp::Lte, x, high, c);
    let v = eval_of(x, c)->Ok_0;
    let lo = eval_of(low, c)->Ok_0;
    let hi = eval_of(high, c)->Ok_0;
    lemma_comparison(BinOp::Gte, v, lo, c.answers);
    lemma_comparison(BinOp::Lte, v, hi, c.answers);
    lemma_conjunction(ge, le, c);
    assert(eval_of(ExprView::Not(Box::new(both)), c) == eval_of(ExprView::Not(Box::new(both)), c));
    assert(eval_of(ranged(x, low, high, false), c) == crate::eval::between_value(
        v,
        lo,
        hi,
        false,
        c.answers,
    ));
    assert(eval_of(ranged(x, low, high, true), c) == crate::eval::between_value(
        v,
        lo,
        hi,
        true,
        c.answers,
    ));
}

proof fn lemma_operands(op: BinOp, x: ExprView, y: ExprView, c: ContextView)
    requires
        op != BinOp::And,
        op != BinOp::Or,
    ensures
        eval_of(applied(op, x, y), c) == (match eval_of(x, c) {
            Err(e) => Err(e),
            Ok(a) => match eval_of(y, c) {
                Err(e) => Err(e),
                Ok(b) => crate::eval::strict_operation(op, a, b, c.answers),
            },
        }),
{
}

proof fn lemma_conjunction(x: ExprView, y: ExprView, c: ContextView)
    requires
        eval_of(x, c) matches Ok(a) && (a is Bool || a is Null),
        eval_of(y, c) matches Ok(b) && (b is Bool || b is Null),
    ensures
        eval_of(applied(BinOp::And, x, y), c) == Ok::<ValueView, ErrorView>(
            if is_bool(eval_of(x, c), false) || is_bool(eval_of(y, c), false) {
                ValueView::Bool(false)
            } else if is_bool(eval_of(x, c), true) && is_bool(eval_of(y, c), true) {
                ValueView::Bool(true)
            } else {
                ValueView::Null
            },
        ),
{
}

proof fn lemma_comparison(op: BinOp, a: ValueView, b: ValueView, answers: Answers)
    requires
        op.comparison(),
        crate::eval::strict_operation(op, a, b, answers) is Ok,
    ensures
        crate::eval::strict_operation(op, a, b, answers)->Ok_0 is Bool
            || crate::eval::strict_operation(op, a, b, answers)->Ok_0 is Null,
        (a is Null || b is Null) ==> compare_view(a, b, answers) == Ok::<Option<Rank>, ErrorView>(
            None,
        ),
{
}

/// Both ends of a range belong to it: a value that is not `NULL` lies between itself and itself.
pub proof fn ranges_hold_their_ends(x: ExprView, c: ContextView)
    requires
        eval_of(x, c) matches Ok(v) && !(v is Null),
    ensures
        is_bool(eval_of(ranged(x, x, x, false), c), true),
        is_bool(eval_of(ranged(x, x, x, true), c), false),
{
    let v = eval_of(x, c)->Ok_0;
    values_equal_themselves(v, c.answers);
    assert(eval_of(ranged(x, x, x, false), c) == crate::eval::between_value(v, v, v, false, c.answers));
    assert(eval_of(ranged(x, x, x, true), c) == crate::eval::between_value(v, v, v, true, c.answers));
}

/// The integer that a value is, if it is one.
pub open spec fn whole(v: ValueView) -> Option<int> {
    match v {
        ValueView::Int32(i) => Some(i as int),
        ValueView::Int64(i) => Some(i as int),
        _ => None,
    }
}

/// Integers of either width compare as numbers.
pub proof fn integers_compare_as_numbers(x: ExprView, y: ExprView, a: int, b: int, c: ContextView)
    requires
        eval_of(x, c) matches Ok(v) && whole(v) == Some(a),
        eval_of(y, c) matches Ok(w) && whole(w) == Some(b),
    ensures
        is_bool(eval_of(applied(BinOp::Eq, x, y), c), a == b),
        is_bool(eval_of(applied(BinOp::NotEq, x, y), c), a != b),
        is_bool(eval_of(applied(BinOp::Lt, x, y), c), a < b),
        is_bool(eval_of(applied(BinOp::Lte, x, y), c), a <= b),
        is_bool(eval_of(applied(BinOp::Gt, x, y), c), a > b),
        is_bool(eval_of(applied(BinOp::Gte, x, y), c), a >= b),
{
    lemma_operands(BinOp::Eq, x, y, c);
    lemma_operands(BinOp::NotEq, x, y, c);
    lemma_operands(BinOp::Lt, x, y, c);
    lemma_operands(BinOp::Lte, x, y, c);
    lemma_operands(BinOp::Gt, x, y, c);
    lemma_operands(BinOp::Gte, x, y, c);
}

/// A comparison and its converse, or its opposite, agree on all values that can be compared.
pub proof fn comparisons_agree(x: ExprView, y: ExprView, c: ContextView)
    requires
        eval_of(applied(BinOp::Eq, x, y), c) is Ok,
    ensures
        eval_of(applied(BinOp::Eq, y, x), c) == eval_of(applied(BinOp::Eq, x, y), c),
        eval_of(applied(BinOp::Gt, y, x), c) == eval_of(applied(BinOp::Lt, x, y), c),
        eval_of(applied(BinOp::Gte, y, x), c) == eval_of(applied(BinOp::Lte, x, y), c),
        eval_of(applied(BinOp::NotEq, x, y), c) == turned(eval_of(applied(BinOp::Eq, x, y), c)),
        eval_of(applied(BinOp::Gte, x, y), c) == turned(eval_of(applied(BinOp::Lt, x, y), c)),
        eval_of(applied(BinOp::Gt, x, y), c) == turned(eval_of(applied(BinOp::Lte, x, y), c)),
        !(is_bool(eval_of(applied(BinOp::Eq, x, y), c), true) && is_bool(
            eval_of(applied(BinOp::Lt, x, y), c),
            true,
        )),
{
    lemma_operands(BinOp::Eq, x, y, c);
    lemma_operands(BinOp::NotEq, x, y, c);
    lemma_operands(BinOp::Lt, x, y, c);
    lemma_operands(BinOp::Lte, x, y, c);
    lemma_operands(BinOp::Gt, x, y, c);
    lemma_operands(BinOp::Gte, x, y, c);
    lemma_operands(BinOp::Eq, y, x, c);
    lemma_operands(BinOp::Gt, y, x, c);
    lemma_operands(BinOp::Gte, y, x, c);
    comparison_turns(eval_of(x, c)->Ok_0, eval_of(y, c)->Ok_0, c.answers);
}

proof fn lemma_text_less(a: Seq<char>, b: Seq<char>, i: int, k: int)
    requires
        0 <= i <= k <= a.len(),
        k < b.len(),
        forall|j: int| i <= j < k ==> a[j] == b[j],
        k == a.len() || (a[k] as int) < (b[k] as int),
    ensures
        text_rank(a, b, i) == Rank::Less,
    decreases k - i,
{
    if i < k {
        lemma_text_less(a, b, i + 1, k);
    }
}

/// Texts compare by the first characters in which they differ, and a text is less than a longer one
/// that begins with it.
pub proof fn texts_compare_by_characters(
    x: ExprView,
    y: ExprView,
    a: Seq<char>,
    b: Seq<char>,
    k: int,
    c: ContextView,
)
    requires
        eval_of(x, c) == Ok::<ValueView, ErrorView>(ValueView::String(a)),
        eval_of(y, c) == Ok::<ValueView, ErrorView>(ValueView::String(b)),
        0 <= k <= a.len(),
        k < b.len(),
        forall|j: int| 0 <= j < k ==> a[j] == b[j],
        k == a.len() || (a[k] as int) < (b[k] as int),
    ensures
        is_bool(eval_of(applied(BinOp::Lt, x, y), c), true),
        is_bool(eval_of(applied(BinOp::Eq, x, y), c), false),
        is_bool(eval_of(applied(BinOp::Gt, y, x), c), true),
{
    lemma_operands(BinOp::Lt, x, y, c);
    lemma_operands(BinOp::Eq, x, y, c);
    lemma_text_less(a, b, 0, k);
    comparisons_agree(x, y, c);
}

/// `FALSE` is less than `TRUE`.
pub proof fn false_is_less_than_true(x: ExprView, y: ExprView, a: bool, b: bool, c: ContextView)
    requires
        is_bool(eval_of(x, c), a),
        is_bool(eval_of(y, c), b),
    ensures
        is_bool(eval_of(applied(BinOp::Eq, x, y), c), a == b),
        is_bool(eval_of(applied(BinOp::Lt, x, y), c), !a && b),
{
    lemma_operands(BinOp::Eq, x, y, c);
    lemma_operands(BinOp::Lt, x, y, c);
}

/// A sum, difference or product of integers is that of the numbers, or is refused where 64 bits
/// cannot hold it.
pub proof fn integer_arithmetic_is_exact(x: ExprView, y: ExprView, a: int, b: int, c: ContextView)
    requires
        eval_of(x, c) matches Ok(v) && whole(v) == Some(a),
        eval_of(y, c) matches Ok(w) && whole(w) == Some(b),
    ensures
        is_integer(eval_of(applied(BinOp::Add, x, y), c), a + b),
        is_integer(eval_of(applied(BinOp::Sub, x, y), c), a - b),
        is_integer(eval_of(applied(BinOp::Mul, x, y), c), a * b),
{
    lemma_operands(BinOp::Add, x, y, c);
    lemma_operands(BinOp::Sub, x, y, c);
    lemma_operands(BinOp::Mul, x, y, c);
}

/// Whether a result is an integer, or a refusal where 64 bits cannot hold the integer.
pub open spec fn is_integer(r: Result<ValueView, ErrorView>, n: int) -> bool {
    if i64::MIN <= n <= i64::MAX {
        r == Ok::<ValueView, ErrorView>(ValueView::Int64(n as i64))
    } else {
        r is Err
    }
}

/// Whether `a` divided by `b` is `q`, the fraction dropped, and leaves `r`.
pub open spec fn divided(a: int, b: int, q: int, r: int) -> bool {
    &&& q * b + r == a
    &&& (b > 0 ==> -b < r < b)
    &&& (b < 0 ==> b < r < -b)
    &&& (a >= 0 ==> r >= 0)
    &&& (a <= 0 ==> r <= 0)
}

/// Dividing integers by one that is not zero: `DIV` drops the fraction, `%` is what is left, and
/// what is left has the sign of the dividend. Dividing by zero gives `NULL`.
pub proof fn integer_division_leaves_the_rest(
    x: ExprView,
    y: ExprView,
    a: int,
    b: int,
    c: ContextView,
)
    requires
        eval_of(x, c) matches Ok(v) && whole(v) == Some(a),
        eval_of(y, c) matches Ok(w) && whole(w) == Some(b),
    ensures
        b == 0 ==> eval_of(applied(BinOp::IntDiv, x, y), c) == Ok::<ValueView, ErrorView>(
            ValueView::Null,
        ) && eval_of(applied(BinOp::Mod, x, y), c) == Ok::<ValueView, ErrorView>(ValueView::Null),
        b != 0 && !(a == i64::MIN && b == -1) ==> exists|q: int, r: int|
            {
                &&& #[trigger] divided(a, b, q, r)
                &&& is_integer(eval_of(applied(BinOp::IntDiv, x, y), c), q)
                &&& is_integer(eval_of(applied(BinOp::Mod, x, y), c), r)
            },
{
    lemma_operands(BinOp::IntDiv, x, y, c);
    lemma_operands(BinOp::Mod, x, y, c);
    if b != 0 && !(a == i64::MIN && b == -1) {
        let q = whole_quotient(a, b);
        let r = whole_remainder(a, b);
        lemma_whole_division(a, b);
        assert(divided(a, b, q, r));
    }
}

proof fn lemma_whole_division(a: int, b: int)
    requires
        b != 0,
        i64::MIN <= a <= i64::MAX,
        i64::MIN <= b <= i64::MAX,
    ensures
        whole_quotient(a, b) * b + whole_remainder(a, b) == a,
        -magnitude(b) < whole_remainder(a, b) < magnitude(b),
        a >= 0 ==> whole_remainder(a, b) >= 0,
        a <= 0 ==> whole_remainder(a, b) <= 0,
        !(a == i64::MIN && b == -1) ==> i64::MIN <= whole_quotient(a, b) <= i64::MAX,
{
    let m = magnitude(a);
    let n = magnitude(b);
    lemma_fundamental_div_mod(m, n);
    let q = m / n;
    let r = m % n;
    assert(0 <= r < n);
    assert(0 <= q <= m) by (nonlinear_arith)
        requires
            m == n * q + r,
            n >= 1,
            0 <= r < n,
            m >= 0,
    ;
    if b != 1 && b != -1 {
        assert(2 * q <= m) by (nonlinear_arith)
            requires
                m == n * q + r,
                n >= 2,
                r >= 0,
                q >= 0,
        ;
    }
    assert((-q) * b == -(q * b)) by (nonlinear_arith);
    assert(q * (-b) == -(q * b)) by (nonlinear_arith);
    assert(n * q == q * n) by (nonlinear_arith);
}

/// What `IN` over a list says: `TRUE` where the value equals a candidate before which none fails to
/// compare, `FALSE` where it differs from all of them, and `NULL` where it differs from all that are
/// not `NULL`.
pub proof fn lists_are_searched(v: ValueView, list: Seq<ExprView>, c: ContextView, i: int, met: bool)
    requires
        0 <= i <= list.len(),
    ensures
        match in_list_of(v, list, false, c, i, met) {
            Ok(ValueView::Bool(true)) => exists|k: int|
                i <= k < list.len() && #[trigger] equals(v, list[k], c) == Some(true),
            Ok(ValueView::Bool(false)) => !met && forall|k: int|
                i <= k < list.len() ==> #[trigger] equals(v, list[k], c) == Some(false),
            Ok(ValueView::Null) => (met || exists|k: int|
                i <= k < list.len() && #[trigger] equals(v, list[k], c) is None) && forall|k: int|
                i <= k < list.len() ==> #[trigger] equals(v, list[k], c) != Some(true),
            Ok(_) => false,
            Err(_) => true,
        },
    decreases list.len() - i,
{
    if i < list.len() {
        lists_are_searched(v, list, c, i + 1, true);
        lists_are_searched(v, list, c, i + 1, met);
        assert(equals(v, list[i], c) == equals(v, list[i], c));
    }
}

/// Whether a value equals that of an expression: `None` where this is not known.
pub open spec fn equals(v: ValueView, e: ExprView, c: ContextView) -> Option<bool> {
    match eval_of(e, c) {
        Ok(w) => match compare_view(v, w, c.answers) {
            Ok(Some(k)) => Some(k == Rank::Equal),
            _ => None,
        },
        Err(_) => None,
    }
}

/// What `IN` over the rows of a subquery says: the same of their first values.
pub proof fn rows_are_searched(
    v: ValueView,
    rows: Seq<Seq<ValueView>>,
    answers: Answers,
    i: int,
    met: bool,
)
    requires
        0 <= i <= rows.len(),
    ensures
        match in_rows_value(v, rows, false, answers, i, met) {
            Ok(ValueView::Bool(true)) => exists|k: int|
                i <= k < rows.len() && compare_view(
                    v,
                    first_value(#[trigger] rows[k]),
                    answers,
                ) == Ok::<Option<Rank>, ErrorView>(Some(Rank::Equal)),
            Ok(ValueView::Bool(false)) => !met && forall|k: int|
                i <= k < rows.len() ==> (compare_view(
                    v,
                    first_value(#[trigger] rows[k]),
                    answers,
                ) matches Ok(Some(x)) && x != Rank::Equal),
            Ok(ValueView::Null) => (met || exists|k: int|
                i <= k < rows.len() && compare_view(
                    v,
                    first_value(#[trigger] rows[k]),
                    answers,
                ) == Ok::<Option<Rank>, ErrorView>(None)) && forall|k: int|
                i <= k < rows.len() ==> compare_view(
                    v,
                    first_value(#[trigger] rows[k]),
                    answers,
                ) != Ok::<Option<Rank>, ErrorView>(Some(Rank::Equal)),
            Ok(_) => false,
            Err(_) => true,
        },
    decreases rows.len() - i,
{
    if i < rows.len() {
        rows_are_searched(v, rows, answers, i + 1, true);
        rows_are_searched(v, rows, answers, i + 1, met);
        assert(rows[i] == rows[i]);
    }
}

/// A `CASE` without operand.
pub open spec fn searched(
    branches: Seq<(ExprView, ExprView)>,
    last: Option<Box<ExprView>>,
    data_type: DataType,
    nullable: bool,
) -> ExprView {
    ExprView::Case { operand: None, branches, else_result: last, data_type, nullable }
}

proof fn lemma_branches_from(
    operand: Option<ValueView>,
    branches: Seq<(ExprView, ExprView)>,
    rest: Seq<(ExprView, ExprView)>,
    data_type: DataType,
    c: ContextView,
    i: int,
)
    requires
        0 <= i <= rest.len(),
        branches.len() == rest.len() + 1,
        forall|k: int| 0 <= k < rest.len() ==> branches[k + 1] == #[trigger] rest[k],
    ensures
        case_of(operand, branches, data_type, c, i + 1) == case_of(operand, rest, data_type, c, i),
    decreases rest.len() - i,
{
    if i < rest.len() {
        lemma_branches_from(operand, branches, rest, data_type, c, i + 1);
        assert(branches[i + 1] == rest[i]);
    }
}

/// A first condition that does not hold, `NULL` included, is as good as no first branch.
pub proof fn false_branches_are_skipped(
    condition: ExprView,
    result: ExprView,
    rest: Seq<(ExprView, ExprView)>,
    last: Option<Box<ExprView>>,
    data_type: DataType,
    nullable: bool,
    c: ContextView,
)
    requires
        eval_of(condition, c) is Ok,
        !is_bool(eval_of(condition, c), true),
    ensures
        eval_of(searched(seq![(condition, result)] + rest, last, data_type, nullable), c)
            == eval_of(searched(rest, last, data_type, nullable), c),
{
    let branches = seq![(condition, result)] + rest;
    assert(branches[0] == (condition, result));
    lemma_branches_from(None, branches, rest, data_type, c, 0);
    assert(case_of(None, branches, data_type, c, 0) == case_of(None, branches, data_type, c, 1));
    lemma_searched(branches, last, data_type, nullable, c);
    lemma_searched(rest, last, data_type, nullable, c);
}

proof fn lemma_searched(
    branches: Seq<(ExprView, ExprView)>,
    last: Option<Box<ExprView>>,
    data_type: DataType,
    nullable: bool,
    c: ContextView,
)
    ensures
        eval_of(searched(branches, last, data_type, nullable), c) == (match case_of(
            None,
            branches,
            data_type,
            c,
            0,
        ) {
            Err(e) => Err(e),
            Ok(Some(v)) => Ok(v),
            Ok(None) => match last {
                None => Ok(ValueView::Null),
                Some(x) => match eval_of(*x, c) {
                    Err(e) => Err(e),
                    Ok(v) => crate::convert::conform_view(v, data_type, c.answers),
                },
            },
        }),
{
}

/// A `CASE` of no branches gives its `ELSE`, and `NULL` without one.
pub proof fn else_is_the_last_resort(
    last: ExprView,
    data_type: DataType,
    nullable: bool,
    c: ContextView,
)
    ensures
        eval_of(searched(Seq::empty(), None, data_type, nullable), c) == Ok::<ValueView, ErrorView>(
            ValueView::Null,
        ),
        eval_of(last, c) matches Ok(v) ==> eval_of(
            searched(Seq::empty(), Some(Box::new(last)), data_type, nullable),
            c,
        ) == crate::convert::conform_view(v, data_type, c.answers),
{
    lemma_searched(Seq::empty(), None, data_type, nullable, c);
    lemma_searched(Seq::empty(), Some(Box::new(last)), data_type, nullable, c);
}

proof fn lemma_operand_case(
    o: ExprView,
    v: ValueView,
    branches: Seq<(ExprView, ExprView)>,
    tests: Seq<(ExprView, ExprView)>,
    data_type: DataType,
    c: ContextView,
    i: int,
)
    requires
        0 <= i <= branches.len(),
        eval_of(o, c) == Ok::<ValueView, ErrorView>(v),
        tests.len() == branches.len(),
        forall|k: int|
            0 <= k < branches.len() ==> #[trigger] tests[k] == (
                applied(BinOp::Eq, o, branches[k].0),
                branches[k].1,
            ),
    ensures
        case_of(Some(v), branches, data_type, c, i) == case_of(None, tests, data_type, c, i),
    decreases branches.len() - i,
{
    if i < branches.len() {
        lemma_operand_case(o, v, branches, tests, data_type, c, i + 1);
        assert(tests[i] == (applied(BinOp::Eq, o, branches[i].0), branches[i].1));
        lemma_operands(BinOp::Eq, o, branches[i].0, c);
    }
}

/// `CASE x WHEN y THEN z ...` is `CASE WHEN x = y THEN z ...`.
pub proof fn operands_are_compared(
    o: ExprView,
    branches: Seq<(ExprView, ExprView)>,
    last: Option<Box<ExprView>>,
    data_type: DataType,
    nullable: bool,
    c: ContextView,
)
    requires
        eval_of(o, c) is Ok,
    ensures
        eval_of(
            ExprView::Case {
                operand: Some(Box::new(o)),
                branches,
                else_result: last,
                data_type,
                nullable,
            },
            c,
        ) == eval_of(
            searched(
                branches.map_values(
                    |b: (ExprView, ExprView)| (applied(BinOp::Eq, o, b.0), b.1),
                ),
                last,
                data_type,
                nullable,
            ),
            c,
        ),
{
    let tests = branches.map_values(|b: (ExprView, ExprView)| (applied(BinOp::Eq, o, b.0), b.1));
    let v = eval_of(o, c)->Ok_0;
    lemma_operand_case(o, v, branches, tests, data_type, c, 0);
    lemma_searched(tests, last, data_type, nullable, c);
    let e = ExprView::Case {
        operand: Some(Box::new(o)),
        branches,
        else_result: last,
        data_type,
        nullable,
    };
    assert(eval_of(e, c) == eval_of(e, c));
}

/// A literal is its value, and a reference is what stands at its position: in the row, in the row of
/// the enclosing query, in the output, or among the aggregates of the group.
pub proof fn references_read_their_positions(e: ExprView, c: ContextView)
    ensures
        match e {
            ExprView::Literal(v) => eval_of(e, c) == Ok::<ValueView, ErrorView>(v),
            ExprView::ColumnRef { offset, .. } => offset < c.row.len() ==> eval_of(e, c) == Ok::<
                ValueView,
                ErrorView,
            >(c.row[offset as int]),
            ExprView::CorrelatedColumnRef { offset, .. } => c.outer matches Some(row) ==> (offset
                < row.len() ==> eval_of(e, c) == Ok::<ValueView, ErrorView>(row[offset as int])),
            ExprView::OutputColumn { index, .. } => c.output matches Some(row) ==> (index
                < row.len() ==> eval_of(e, c) == Ok::<ValueView, ErrorView>(row[index as int])),
            ExprView::WindowRef { index, .. } => c.output matches Some(row) ==> (index
                < row.len() ==> eval_of(e, c) == Ok::<ValueView, ErrorView>(row[index as int])),
            ExprView::AggregateRef { index, .. } => index < c.aggregates.len() ==> eval_of(e, c)
                == Ok::<ValueView, ErrorView>(c.aggregates[index as int]),
            _ => true,
        },
{
}

/// The rows that a subquery gives.
pub open spec fn rows_of(index: usize, correlated: bool, c: ContextView) -> Result<
    Seq<Seq<ValueView>>,
    ErrorView,
> {
    crate::eval::subquery_rows(c, index, correlated)
}

/// `EXISTS` is `TRUE` exactly where the subquery gives a row, and `NOT EXISTS` where it gives none. A
/// subquery as a value is `NULL` without a row, the value of its one row, and refused with more rows.
pub proof fn subqueries_are_read(
    index: usize,
    correlated: bool,
    negated: bool,
    data_type: DataType,
    c: ContextView,
)
    ensures
        rows_of(index, correlated, c) matches Ok(rows) ==> {
            let e = ExprView::ScalarSubquery { index, data_type, correlated };
            &&& is_bool(
                eval_of(ExprView::Exists { index, negated, correlated }, c),
                (rows.len() > 0) != negated,
            )
            &&& (rows.len() == 0 ==> eval_of(e, c) == Ok::<ValueView, ErrorView>(ValueView::Null))
            &&& (rows.len() == 1 && rows[0].len() > 0 ==> eval_of(e, c) == Ok::<
                ValueView,
                ErrorView,
            >(rows[0][0]))
            &&& (rows.len() > 1 ==> eval_of(e, c) is Err)
        },
        !correlated && index < c.subqueries.len() ==> rows_of(index, correlated, c) == Ok::<
            Seq<Seq<ValueView>>,
            ErrorView,
        >(c.subqueries[index as int]),
{
    let e = ExprView::ScalarSubquery { index, data_type, correlated };
    let x = ExprView::Exists { index, negated, correlated };
    assert(eval_of(e, c) == eval_of(e, c));
    assert(eval_of(x, c) == eval_of(x, c));
}

/// In a pattern `_` stands for any one character, and a pattern without `_` and `%` matches itself
/// alone.
pub proof fn patterns_match_by_characters(v: Seq<char>, p: Seq<char>)
    ensures
        matches_pattern(v, seq!['_'] + p) == (v.len() > 0 && matches_pattern(v.skip(1), p)),
        (forall|i: int| 0 <= i < p.len() ==> #[trigger] p[i] != '%' && p[i] != '_')
            ==> matches_pattern(v, p) == (v == p),
{
    let q = seq!['_'] + p;
    assert(q.skip(1) =~= p);
    assert(q[0] == '_');
    if forall|i: int| 0 <= i < p.len() ==> #[trigger] p[i] != '%' && p[i] != '_' {
        lemma_plain_pattern(v, p);
    }
}

proof fn lemma_plain_pattern(v: Seq<char>, p: Seq<char>)
    requires
        forall|i: int| 0 <= i < p.len() ==> #[trigger] p[i] != '%' && p[i] != '_',
    ensures
        matches_pattern(v, p) == (v == p),
    decreases p.len(),
{
    if p.len() == 0 {
        if v.len() == 0 {
            assert(v =~= p);
        }
    } else {
        assert(p[0] != '%' && p[0] != '_');
        if v.len() > 0 {
            assert forall|i: int| 0 <= i < p.skip(1).len() implies #[trigger] p.skip(1)[i] != '%'
                && p.skip(1)[i] != '_' by {
                assert(p.skip(1)[i] == p[i + 1]);
            }
            lemma_plain_pattern(v.skip(1), p.skip(1));
            if v[0] == p[0] && v.skip(1) == p.skip(1) {
                assert(v =~= seq![v[0]] + v.skip(1));
                assert(p =~= seq![p[0]] + p.skip(1));
            }
        }
    }
}

/// The sum or difference of decimals is exact where it keeps the digits behind the point, and so is a
/// product with the digits of both.
pub proof fn decimal_arithmetic_is_exact(
    v1: i64,
    p1: u8,
    s1: u8,
    v2: i64,
    p2: u8,
    s2: u8,
    answers: Answers,
)
    ensures
        ({
            let l = ValueView::Decimal { value: v1, precision: p1, scale: s1 };
            let r = ValueView::Decimal { value: v2, precision: p2, scale: s2 };
            let s = if s1 >= s2 {
                s1
            } else {
                s2
            };
            let x = v1 * pow10((s - s1) as nat);
            let y = v2 * pow10((s - s2) as nat);
            &&& (arithmetic_view(BinOp::Add, l, r, answers) matches Ok(ValueView::Decimal {
                value,
                scale,
                ..
            }) ==> scale == s ==> value == x + y)
            &&& (arithmetic_view(BinOp::Sub, l, r, answers) matches Ok(ValueView::Decimal {
                value,
                scale,
                ..
            }) ==> scale == s ==> value == x - y)
            &&& (arithmetic_view(BinOp::Mul, l, r, answers) matches Ok(ValueView::Decimal {
                value,
                scale,
                ..
            }) ==> scale == s1 + s2 ==> value == v1 * v2)
        }),
{
    assert(pow10(0) == 1);
    assert(v1 * 1 == v1 && v2 * 1 == v2);
}

} // verus!
