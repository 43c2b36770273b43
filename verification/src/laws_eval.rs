//! Laws of values and of evaluation.

use crate::answers::Answers;
use crate::atoms::terms;
use crate::convert::{bytes_rank, cast_view, compare_view, conform_view, text_rank, Rank};
use crate::decimal::{lemma_pow10_positive, magnitude, pow10, rescale_view, rounded_quotient};
use crate::eval::{
    between_value, case_of, conjunction, disjunction, eval_of, in_list_of, in_rows_value,
    like_value, matches_pattern, strict_operation, ContextView, SubqueryBudget,
};
use crate::expr::{arithmetic_type, BinOp, ExprView};
use crate::materialize::conjunction_of;
use crate::value::{DataType, ErrorView, ValueView};
use vstd::arithmetic::div_mod::{lemma_fundamental_div_mod, lemma_fundamental_div_mod_converse};
use vstd::prelude::*;

verus! {

/// Kleene's negation.
pub open spec fn negation(a: Option<bool>) -> Option<bool> {
    match a {
        Some(b) => Some(!b),
        None => None,
    }
}

/// Kleene's connectives: conjunction and disjunction are commutative, associative and idempotent,
/// distribute over each other, and turn into each other under negation.
pub proof fn kleene_connectives(a: Option<bool>, b: Option<bool>, c: Option<bool>)
    ensures
        conjunction(a, b) == conjunction(b, a),
        disjunction(a, b) == disjunction(b, a),
        conjunction(a, conjunction(b, c)) == conjunction(conjunction(a, b), c),
        disjunction(a, disjunction(b, c)) == disjunction(disjunction(a, b), c),
        conjunction(a, a) == a,
        disjunction(a, a) == a,
        conjunction(a, disjunction(b, c)) == disjunction(conjunction(a, b), conjunction(a, c)),
        disjunction(a, conjunction(b, c)) == conjunction(disjunction(a, b), disjunction(a, c)),
        negation(conjunction(a, b)) == disjunction(negation(a), negation(b)),
        negation(disjunction(a, b)) == conjunction(negation(a), negation(b)),
        negation(negation(a)) == a,
{
}

/// Comparisons and arithmetic with `NULL` give `NULL`.
pub proof fn null_operands_give_null(op: BinOp, v: ValueView, answers: Answers)
    ensures
        strict_operation(op, ValueView::Null, v, answers) == Ok::<ValueView, ErrorView>(
            ValueView::Null,
        ),
        strict_operation(op, v, ValueView::Null, answers) == Ok::<ValueView, ErrorView>(
            ValueView::Null,
        ),
        compare_view(ValueView::Null, v, answers) == Ok::<Option<Rank>, ErrorView>(None),
        compare_view(v, ValueView::Null, answers) == Ok::<Option<Rank>, ErrorView>(None),
{
}

/// A left operand that decides `AND` or `OR` decides it whatever the right operand is, an error
/// included.
pub proof fn left_operand_decides(left: ExprView, right: ExprView, c: ContextView)
    ensures
        eval_of(left, c) == Ok::<ValueView, ErrorView>(ValueView::Bool(false)) ==> eval_of(
            ExprView::BinaryOp { op: BinOp::And, left: Box::new(left), right: Box::new(right) },
            c,
        ) == Ok::<ValueView, ErrorView>(ValueView::Bool(false)),
        eval_of(left, c) == Ok::<ValueView, ErrorView>(ValueView::Bool(true)) ==> eval_of(
            ExprView::BinaryOp { op: BinOp::Or, left: Box::new(left), right: Box::new(right) },
            c,
        ) == Ok::<ValueView, ErrorView>(ValueView::Bool(true)),
{
    let both = ExprView::BinaryOp {
        op: BinOp::And,
        left: Box::new(left),
        right: Box::new(right),
    };
    let either = ExprView::BinaryOp {
        op: BinOp::Or,
        left: Box::new(left),
        right: Box::new(right),
    };
    assert(eval_of(both, c) == eval_of(both, c));
    assert(eval_of(either, c) == eval_of(either, c));
}

/// Tests for `NULL` are never `NULL`, and opposite to each other.
pub proof fn null_tests_are_definite(e: ExprView, c: ContextView)
    ensures
        match eval_of(e, c) {
            Ok(v) => eval_of(ExprView::IsNull(Box::new(e)), c) == Ok::<ValueView, ErrorView>(
                ValueView::Bool(v is Null),
            ) && eval_of(ExprView::IsNotNull(Box::new(e)), c) == Ok::<ValueView, ErrorView>(
                ValueView::Bool(!(v is Null)),
            ),
            Err(x) => eval_of(ExprView::IsNull(Box::new(e)), c) == Err::<ValueView, ErrorView>(x)
                && eval_of(ExprView::IsNotNull(Box::new(e)), c) == Err::<ValueView, ErrorView>(x),
        },
{
    assert(eval_of(ExprView::IsNull(Box::new(e)), c) == eval_of(ExprView::IsNull(Box::new(e)), c));
    assert(eval_of(ExprView::IsNotNull(Box::new(e)), c) == eval_of(
        ExprView::IsNotNull(Box::new(e)),
        c,
    ));
}

/// A `CASE` whose first condition holds gives the result of its first branch, whatever the other
/// branches and the `ELSE` are.
pub proof fn case_takes_the_first_true_branch(
    condition: ExprView,
    result: ExprView,
    others: Seq<(ExprView, ExprView)>,
    else_result: Option<Box<ExprView>>,
    data_type: DataType,
    nullable: bool,
    c: ContextView,
)
    requires
        eval_of(condition, c) == Ok::<ValueView, ErrorView>(ValueView::Bool(true)),
    ensures
        eval_of(
            ExprView::Case {
                operand: None,
                branches: seq![(condition, result)] + others,
                else_result,
                data_type,
                nullable,
            },
            c,
        ) == (match eval_of(result, c) {
            Err(e) => Err(e),
            Ok(v) => conform_view(v, data_type, c.answers),
        }),
{
    let branches = seq![(condition, result)] + others;
    assert(branches[0] == (condition, result));
    lemma_first_branch(branches, data_type, c);
    lemma_case(branches, else_result, data_type, nullable, c);
}

proof fn lemma_first_branch(
    branches: Seq<(ExprView, ExprView)>,
    data_type: DataType,
    c: ContextView,
)
    requires
        branches.len() > 0,
        eval_of(branches[0].0, c) == Ok::<ValueView, ErrorView>(ValueView::Bool(true)),
    ensures
        case_of(None, branches, data_type, c, 0) == (match eval_of(branches[0].1, c) {
            Err(e) => Err(e),
            Ok(v) => match conform_view(v, data_type, c.answers) {
                Err(e) => Err(e),
                Ok(w) => Ok(Some(w)),
            },
        }),
{
}

proof fn lemma_case(
    branches: Seq<(ExprView, ExprView)>,
    else_result: Option<Box<ExprView>>,
    data_type: DataType,
    nullable: bool,
    c: ContextView,
)
    ensures
        case_of(None, branches, data_type, c, 0) matches Ok(Some(v)) ==> eval_of(
            ExprView::Case { operand: None, branches, else_result, data_type, nullable },
            c,
        ) == Ok::<ValueView, ErrorView>(v),
        case_of(None, branches, data_type, c, 0) matches Err(x) ==> eval_of(
            ExprView::Case { operand: None, branches, else_result, data_type, nullable },
            c,
        ) == Err::<ValueView, ErrorView>(x),
{
}

/// A truth value turned, and `NULL` kept.
pub open spec fn turned(r: Result<ValueView, ErrorView>) -> Result<ValueView, ErrorView> {
    match r {
        Ok(ValueView::Bool(b)) => Ok(ValueView::Bool(!b)),
        _ => r,
    }
}

/// `NOT IN` over rows is the opposite of `IN`.
pub proof fn not_in_negates_in(
    v: ValueView,
    rows: Seq<Seq<ValueView>>,
    answers: Answers,
    i: int,
    saw_null: bool,
)
    ensures
        in_rows_value(v, rows, true, answers, i, saw_null) == turned(
            in_rows_value(v, rows, false, answers, i, saw_null),
        ),
    decreases rows.len() - i,
{
    if 0 <= i < rows.len() {
        not_in_negates_in(v, rows, answers, i + 1, true);
        not_in_negates_in(v, rows, answers, i + 1, saw_null);
    }
}

/// `NOT IN` over a list is the opposite of `IN`.
pub proof fn not_in_list_negates_in_list(
    v: ValueView,
    list: Seq<ExprView>,
    c: ContextView,
    i: int,
    saw_null: bool,
)
    ensures
        in_list_of(v, list, true, c, i, saw_null) == turned(
            in_list_of(v, list, false, c, i, saw_null),
        ),
    decreases list.len() - i,
{
    if 0 <= i < list.len() {
        not_in_list_negates_in_list(v, list, c, i + 1, true);
        not_in_list_negates_in_list(v, list, c, i + 1, saw_null);
    }
}

/// `NOT LIKE` and `NOT BETWEEN` are the opposites of `LIKE` and `BETWEEN`.
pub proof fn negated_tests_are_opposite(
    v: ValueView,
    p: ValueView,
    lo: ValueView,
    hi: ValueView,
    answers: Answers,
)
    ensures
        like_value(v, p, true) == turned(like_value(v, p, false)),
        between_value(v, lo, hi, true, answers) == turned(
            between_value(v, lo, hi, false, answers),
        ),
{
}

/// The rank seen from the other side.
pub open spec fn opposite(k: Rank) -> Rank {
    match k {
        Rank::Less => Rank::Greater,
        Rank::Equal => Rank::Equal,
        Rank::Greater => Rank::Less,
    }
}

proof fn lemma_text_rank(a: Seq<char>, b: Seq<char>, i: int)
    ensures
        text_rank(b, a, i) == opposite(text_rank(a, b, i)),
    decreases a.len() - i,
{
    if 0 <= i < a.len() && i < b.len() && a[i] == b[i] {
        lemma_text_rank(a, b, i + 1);
    }
}

proof fn lemma_bytes_rank(a: Seq<u8>, b: Seq<u8>, i: int)
    ensures
        bytes_rank(b, a, i) == opposite(bytes_rank(a, b, i)),
    decreases a.len() - i,
{
    if 0 <= i < a.len() && i < b.len() && a[i] == b[i] {
        lemma_bytes_rank(a, b, i + 1);
    }
}

/// Comparing two values from the other side turns the result.
pub proof fn comparison_turns(l: ValueView, r: ValueView, answers: Answers)
    ensures
        compare_view(l, r, answers) matches Ok(k) ==> compare_view(r, l, answers) == Ok::<
            Option<Rank>,
            ErrorView,
        >(
            match k {
                Some(x) => Some(opposite(x)),
                None => None,
            },
        ),
{
    match (l, r) {
        (ValueView::String(a), ValueView::String(b)) => {
            lemma_text_rank(a, b, 0);
        },
        (ValueView::Bytes(a), ValueView::Bytes(b)) => {
            lemma_bytes_rank(a, b, 0);
        },
        _ => {},
    }
}

proof fn lemma_text_equal(a: Seq<char>, i: int)
    ensures
        text_rank(a, a, i) == Rank::Equal,
    decreases a.len() - i,
{
    if 0 <= i < a.len() {
        lemma_text_equal(a, i + 1);
    }
}

proof fn lemma_bytes_equal(a: Seq<u8>, i: int)
    ensures
        bytes_rank(a, a, i) == Rank::Equal,
    decreases a.len() - i,
{
    if 0 <= i < a.len() {
        lemma_bytes_equal(a, i + 1);
    }
}

/// A value that is not `NULL` equals itself.
pub proof fn values_equal_themselves(v: ValueView, answers: Answers)
    requires
        !(v is Null),
    ensures
        compare_view(v, v, answers) == Ok::<Option<Rank>, ErrorView>(Some(Rank::Equal)),
{
    match v {
        ValueView::String(a) => {
            lemma_text_equal(a, 0);
        },
        ValueView::Bytes(a) => {
            lemma_bytes_equal(a, 0);
        },
        _ => {},
    }
}

/// A cast gives a value of the type it is to, and `NULL` for `NULL` alone.
pub proof fn casts_give_the_target_type(v: ValueView, to: DataType, answers: Answers)
    ensures
        cast_view(v, to, answers) matches Ok(w) ==> (if v is Null {
            w is Null
        } else {
            w.data_type() == Some(to)
        }),
{
}

/// In a place of a decimal type, or of a wider numeric type, a value takes that type.
pub proof fn conformed_values_have_the_place_type(v: ValueView, t: DataType, answers: Answers)
    requires
        t is Decimal || (t == DataType::Float64 && (v is Int32 || v is Int64)) || (t
            == DataType::Int64 && v is Int32),
    ensures
        conform_view(v, t, answers) matches Ok(w) ==> (if v is Null {
            w is Null
        } else {
            w.data_type() == Some(t)
        }),
{
    casts_give_the_target_type(v, t, answers);
}

/// Rounding treats both signs alike.
pub proof fn rounding_is_symmetric(v: int, d: int)
    requires
        d != 0,
    ensures
        rounded_quotient(-v, d) == -rounded_quotient(v, d),
        rounded_quotient(v, -d) == -rounded_quotient(v, d),
{
    if v == 0 {
        let m = magnitude(d);
        lemma_fundamental_div_mod_converse(m, 2 * m, 0, m);
    }
}

/// A rounded quotient is off by at most one half, and a tie goes away from zero.
pub proof fn rounding_is_to_the_nearest(v: int, d: int)
    requires
        v >= 0,
        d > 0,
    ensures
        2 * v - d < 2 * d * rounded_quotient(v, d) <= 2 * v + d,
{
    lemma_fundamental_div_mod(2 * v + d, 2 * d);
    let q = (2 * v + d) / (2 * d);
    let r = (2 * v + d) % (2 * d);
    assert(0 <= r < 2 * d);
    assert(2 * d * q == 2 * v + d - r);
}

/// Digits that were added behind the point can be taken away again.
pub proof fn rescaling_up_and_down(v: int, from: int, to: int)
    requires
        0 <= from <= to,
    ensures
        rescale_view(v, from, to) matches Ok(w) ==> rescale_view(w, to, from) == Ok::<
            int,
            ErrorView,
        >(v),
{
    if from < to {
        let f = pow10((to - from) as nat);
        lemma_pow10_positive((to - from) as nat);
        let w = v * f;
        let m = magnitude(v);
        assert(magnitude(w) == m * f) by (nonlinear_arith)
            requires
                w == v * f,
                f >= 1,
                m == magnitude(v),
        ;
        assert(2 * (m * f) + f == m * (2 * f) + f) by (nonlinear_arith);
        lemma_fundamental_div_mod_converse(2 * (m * f) + f, 2 * f, m, f);
        assert((w < 0) == (v < 0)) by (nonlinear_arith)
            requires
                w == v * f,
                f >= 1,
        ;
    }
}

/// A conjunction is `TRUE` exactly where each of its terms is.
pub proof fn conjunction_holds_where_its_terms_do(e: ExprView, c: ContextView)
    ensures
        eval_of(e, c) == Ok::<ValueView, ErrorView>(ValueView::Bool(true)) <==> forall|i: int|
            0 <= i < terms(e).len() ==> eval_of(#[trigger] terms(e)[i], c) == Ok::<
                ValueView,
                ErrorView,
            >(ValueView::Bool(true)),
    decreases e,
{
    let yes = Ok::<ValueView, ErrorView>(ValueView::Bool(true));
    match e {
        ExprView::BinaryOp { op: BinOp::And, left, right } => {
            conjunction_holds_where_its_terms_do(*left, c);
            conjunction_holds_where_its_terms_do(*right, c);
            let a = terms(*left);
            let b = terms(*right);
            assert(terms(e) == a + b);
            if eval_of(*left, c) == yes && eval_of(*right, c) == yes {
                assert forall|i: int| 0 <= i < terms(e).len() implies eval_of(
                    #[trigger] terms(e)[i],
                    c,
                ) == yes by {
                    if i < a.len() {
                        assert(terms(e)[i] == a[i]);
                    } else {
                        assert(terms(e)[i] == b[i - a.len()]);
                    }
                }
            }
            if forall|i: int|
                0 <= i < terms(e).len() ==> eval_of(#[trigger] terms(e)[i], c) == yes {
                assert forall|i: int| 0 <= i < a.len() implies eval_of(#[trigger] a[i], c)
                    == yes by {
                    assert(terms(e)[i] == a[i]);
                }
                assert forall|i: int| 0 <= i < b.len() implies eval_of(#[trigger] b[i], c)
                    == yes by {
                    assert(terms(e)[a.len() + i] == b[i]);
                }
            }
            match eval_of(*left, c) {
                Ok(ValueView::Bool(_)) => {},
                _ => {},
            }
        },
        _ => {
            assert(terms(e)[0] == e);
        },
    }
}

/// Terms joined by `AND` are `TRUE` exactly where each of them is.
pub proof fn joined_terms_hold_where_each_does(list: Seq<ExprView>, n: int, c: ContextView)
    requires
        1 <= n <= list.len(),
    ensures
        eval_of(conjunction_of(list, n), c) == Ok::<ValueView, ErrorView>(ValueView::Bool(true))
            <==> forall|i: int|
            0 <= i < n ==> eval_of(#[trigger] list[i], c) == Ok::<ValueView, ErrorView>(
                ValueView::Bool(true),
            ),
    decreases n,
{
    if n > 1 {
        joined_terms_hold_where_each_does(list, n - 1, c);
        let e = conjunction_of(list, n);
        let yes = Ok::<ValueView, ErrorView>(ValueView::Bool(true));
        assert(e == (ExprView::BinaryOp {
            op: BinOp::And,
            left: Box::new(conjunction_of(list, n - 1)),
            right: Box::new(list[n - 1]),
        }));
        assert(eval_of(e, c) == yes <==> (eval_of(conjunction_of(list, n - 1), c) == yes && eval_of(
            list[n - 1],
            c,
        ) == yes));
    }
}

/// `%` at the front of a pattern matches whatever leaves a rest that matches the rest of the
/// pattern.
pub proof fn percent_skips_any_front(v: Seq<char>, p: Seq<char>)
    requires
        p.len() > 0,
        p[0] == '%',
    ensures
        matches_pattern(v, p) <==> exists|k: int|
            0 <= k <= v.len() && #[trigger] matches_pattern(v.skip(k), p.skip(1)),
    decreases v.len(),
{
    if v.len() > 0 {
        percent_skips_any_front(v.skip(1), p);
    }
    if matches_pattern(v, p) {
        if matches_pattern(v, p.skip(1)) {
            assert(v.skip(0) =~= v);
            assert(matches_pattern(v.skip(0), p.skip(1)));
        } else {
            let k = choose|k: int|
                0 <= k <= v.skip(1).len() && #[trigger] matches_pattern(
                    v.skip(1).skip(k),
                    p.skip(1),
                );
            assert(v.skip(1).skip(k) =~= v.skip(k + 1));
            assert(matches_pattern(v.skip(k + 1), p.skip(1)));
        }
    }
    if exists|k: int| 0 <= k <= v.len() && #[trigger] matches_pattern(v.skip(k), p.skip(1)) {
        let k = choose|k: int|
            0 <= k <= v.len() && #[trigger] matches_pattern(v.skip(k), p.skip(1));
        if k == 0 {
            assert(v.skip(0) =~= v);
        } else {
            assert(v.skip(1).skip(k - 1) =~= v.skip(k));
            assert(matches_pattern(v.skip(1).skip(k - 1), p.skip(1)));
        }
    }
}

/// A pattern without `%` and `_` matches itself and nothing else.
pub proof fn plain_patterns_match_themselves(v: Seq<char>, p: Seq<char>)
    requires
        forall|i: int| 0 <= i < p.len() ==> #[trigger] p[i] != '%' && p[i] != '_',
    ensures
        matches_pattern(v, p) <==> v == p,
    decreases p.len(),
{
    if p.len() == 0 {
        assert(v.len() == 0 ==> v =~= p);
    } else if v.len() > 0 {
        assert forall|i: int| 0 <= i < p.skip(1).len() implies #[trigger] p.skip(1)[i] != '%'
            && p.skip(1)[i] != '_' by {
            assert(p.skip(1)[i] == p[i + 1]);
        }
        plain_patterns_match_themselves(v.skip(1), p.skip(1));
        if v[0] == p[0] && v.skip(1) == p.skip(1) {
            assert forall|i: int| 0 <= i < v.len() implies v[i] == p[i] by {
                if i > 0 {
                    assert(v.skip(1)[i - 1] == v[i]);
                    assert(p.skip(1)[i - 1] == p[i]);
                }
            }
            assert(v.len() == v.skip(1).len() + 1);
            assert(p.len() == p.skip(1).len() + 1);
            assert(v =~= p);
        }
    }
}

/// Arithmetic on valid types always has a type, and a valid one.
pub proof fn arithmetic_types_are_valid(op: BinOp, l: DataType, r: DataType)
    requires
        op.arithmetic(),
        l.valid(),
        r.valid(),
    ensures
        arithmetic_type(op, l, r) matches Ok(t) && t.valid(),
{
}

/// Leaving a subquery undoes entering it, but for the count of subqueries run.
pub proof fn leaving_undoes_entering(budget: SubqueryBudget)
    requires
        budget.within(),
        budget.refusal() is None,
    ensures
        budget.entered().within(),
        budget.entered().left() == (SubqueryBudget {
            invocations: (budget.invocations + 1) as usize,
            ..budget
        }),
{
}

} // verus!
