//! Laws of bound expressions: they mean what is written.

use crate::convert::{cast_view, conform_view};
use crate::eval::{eval_list_of, eval_of, ContextView};
use crate::expr::{type_of, BinOp, ExprView, ScalarFn};
use crate::laws_values::{
    applied, divided, integer_arithmetic_is_exact, integer_division_leaves_the_rest, is_bool,
    is_integer, whole,
};
use crate::model_calls::{operator_of, truth_test, Mode};
use crate::model_expr::{
    bind_branches_of, bind_candidates_of, bind_of, bind_option_of, bind_subquery_of,
};
use crate::scope::{Env, ScopeView, StateView};
use crate::sql::{BinaryOperator, SqlExpr, SqlNode, UnaryOperator};
use crate::typing::cast_target;
use crate::value::{DataType, ErrorView, ValueView};
use vstd::prelude::*;

verus! {

/// Arithmetic that the binder makes of written arithmetic computes on integers what is written.
pub proof fn written_arithmetic_evaluates(
    op: BinaryOperator,
    x: ExprView,
    y: ExprView,
    a: int,
    b: int,
    c: ContextView,
)
    requires
        eval_of(x, c) matches Ok(v) && whole(v) == Some(a),
        eval_of(y, c) matches Ok(w) && whole(w) == Some(b),
    ensures
        match (op, operator_of(op)) {
            (BinaryOperator::Plus, Ok(o)) => is_integer(eval_of(applied(o, x, y), c), a + b),
            (BinaryOperator::Minus, Ok(o)) => is_integer(eval_of(applied(o, x, y), c), a - b),
            (BinaryOperator::Multiply, Ok(o)) => is_integer(eval_of(applied(o, x, y), c), a * b),
            (BinaryOperator::IntegerDivide, Ok(o)) => b != 0 && !(a == i64::MIN && b == -1)
                ==> exists|q: int, r: int| #[trigger]
                divided(a, b, q, r) && is_integer(eval_of(applied(o, x, y), c), q),
            (BinaryOperator::Modulo, Ok(o)) => b != 0 && !(a == i64::MIN && b == -1)
                ==> exists|q: int, r: int| #[trigger]
                divided(a, b, q, r) && is_integer(eval_of(applied(o, x, y), c), r),
            (BinaryOperator::Divide, Ok(o)) => o == BinOp::Div,
            (BinaryOperator::Other(_), _) => operator_of(op) is Err,
            (_, r) => r is Ok,
        },
{
    integer_arithmetic_is_exact(x, y, a, b, c);
    integer_division_leaves_the_rest(x, y, a, b, c);
}

/// `AND` and `OR` that the binder makes follow Kleene's tables: `AND` is `FALSE` where an operand is,
/// `TRUE` where both are, and else `NULL`; `OR` is the other way round.
pub proof fn written_connectives_evaluate(x: ExprView, y: ExprView, c: ContextView)
    requires
        eval_of(x, c) matches Ok(v) && (v is Bool || v is Null),
        eval_of(y, c) matches Ok(w) && (w is Bool || w is Null),
    ensures
        operator_of(BinaryOperator::And) matches Ok(o) && eval_of(applied(o, x, y), c) == Ok::<
            ValueView,
            ErrorView,
        >(
            if is_bool(eval_of(x, c), false) || is_bool(eval_of(y, c), false) {
                ValueView::Bool(false)
            } else if is_bool(eval_of(x, c), true) && is_bool(eval_of(y, c), true) {
                ValueView::Bool(true)
            } else {
                ValueView::Null
            },
        ),
        operator_of(BinaryOperator::Or) matches Ok(o) && eval_of(applied(o, x, y), c) == Ok::<
            ValueView,
            ErrorView,
        >(
            if is_bool(eval_of(x, c), true) || is_bool(eval_of(y, c), true) {
                ValueView::Bool(true)
            } else if is_bool(eval_of(x, c), false) && is_bool(eval_of(y, c), false) {
                ValueView::Bool(false)
            } else {
                ValueView::Null
            },
        ),
{
    lemma_connective(BinOp::And, x, y, c);
    lemma_connective(BinOp::Or, x, y, c);
}

proof fn lemma_connective(op: BinOp, x: ExprView, y: ExprView, c: ContextView)
    requires
        op == BinOp::And || op == BinOp::Or,
        eval_of(x, c) matches Ok(v) && (v is Bool || v is Null),
        eval_of(y, c) matches Ok(w) && (w is Bool || w is Null),
    ensures
        eval_of(applied(op, x, y), c) == Ok::<ValueView, ErrorView>(
            if is_bool(eval_of(x, c), op == BinOp::Or) || is_bool(eval_of(y, c), op == BinOp::Or) {
                ValueView::Bool(op == BinOp::Or)
            } else if is_bool(eval_of(x, c), op == BinOp::And) && is_bool(
                eval_of(y, c),
                op == BinOp::And,
            ) {
                ValueView::Bool(op == BinOp::And)
            } else {
                ValueView::Null
            },
        ),
{
}

/// The operands of a written operator are those of the bound one, in their order. Only a literal that
/// is compared with a truth value or with bytes may become another literal.
pub proof fn operands_keep_their_places(
    cx: Env<'_>,
    sc: ScopeView,
    st: StateView,
    m: Mode,
    e: SqlExpr,
    left: SqlExpr,
    op: BinaryOperator,
    right: SqlExpr,
)
    requires
        e.node == (SqlNode::BinaryOp { left: Box::new(left), op, right: Box::new(right) }),
        !(left.node is Interval),
        !(right.node is Interval),
    ensures
        match (bind_of(cx, sc, st, m, left), operator_of(op)) {
            (Ok((x, st2)), Ok(o)) => match bind_of(cx, sc, st2, m, right) {
                Ok((y, st3)) => match bind_of(cx, sc, st, m, e) {
                    Ok((b, after)) => places_kept(o, x, y, b) && after == st3,
                    Err(_) => true,
                },
                Err(z) => bind_of(cx, sc, st, m, e) == Err::<(ExprView, StateView), ErrorView>(z),
            },
            _ => bind_of(cx, sc, st, m, e) is Err,
        },
{
    assert(bind_of(cx, sc, st, m, e) == crate::model_expr::bind_binary_of(cx, sc, st, m, e));
    match (bind_of(cx, sc, st, m, left), operator_of(op)) {
        (Ok((x, st2)), Ok(o)) => match bind_of(cx, sc, st2, m, right) {
            Ok((y, st3)) => {
                lemma_places(o, x, y);
                assert(bind_of(cx, sc, st, m, e) == crate::model_calls::keep(
                    crate::model_calls::operation(o, x, y),
                    st3,
                ));
            },
            Err(_) => {},
        },
        _ => {},
    }
}

/// Whether a bound operator has the given operands.
pub open spec fn places_kept(o: BinOp, x: ExprView, y: ExprView, b: ExprView) -> bool {
    b matches ExprView::BinaryOp { op, left: l, right: r } && {
        &&& op == o
        &&& (!o.comparison() || !(x is Literal) ==> *l == x)
        &&& (!o.comparison() || !(y is Literal) ==> *r == y)
        &&& (type_of(y).data_type != DataType::Bool && type_of(y).data_type != DataType::Bytes
            && type_of(x).data_type != DataType::Bool && type_of(x).data_type != DataType::Bytes
            ==> *l == x && *r == y)
    }
}

proof fn lemma_places(o: BinOp, x: ExprView, y: ExprView)
    ensures
        crate::model_calls::operation(o, x, y) matches Ok(b) ==> places_kept(o, x, y, b),
{
}

/// `NOT` turns a truth value, a minus sign turns the sign of an integer, and a plus sign does nothing.
pub open spec fn sign_means(op: UnaryOperator, x: ExprView, b: ExprView, c: ContextView) -> bool {
    match op {
        UnaryOperator::Not => {
            &&& (eval_of(x, c) matches Ok(ValueView::Bool(t)) ==> is_bool(eval_of(b, c), !t))
            &&& (eval_of(x, c) == Ok::<ValueView, ErrorView>(ValueView::Null) ==> eval_of(b, c)
                == Ok::<ValueView, ErrorView>(ValueView::Null))
        },
        UnaryOperator::Minus => eval_of(x, c) matches Ok(v) ==> (whole(v) matches Some(a)
            ==> is_integer(eval_of(b, c), -a)),
        UnaryOperator::Plus => b == x,
        UnaryOperator::Other(_) => false,
    }
}

/// A bound sign or `NOT` does with the value of its operand what is written.
pub proof fn written_signs_evaluate(
    cx: Env<'_>,
    sc: ScopeView,
    st: StateView,
    m: Mode,
    e: SqlExpr,
    op: UnaryOperator,
    inner: SqlExpr,
    c: ContextView,
)
    requires
        e.node == (SqlNode::UnaryOp { op, expr: Box::new(inner) }),
        bind_of(cx, sc, st, m, e) is Ok,
    ensures
        bind_of(cx, sc, st, m, inner) matches Ok((x, _)) && sign_means(
            op,
            x,
            bind_of(cx, sc, st, m, e)->Ok_0.0,
            c,
        ),
{
    assert(bind_of(cx, sc, st, m, e) == crate::model_expr::bind_unary_of(cx, sc, st, m, op, inner));
    match bind_of(cx, sc, st, m, inner) {
        Ok((x, st2)) => {
            lemma_signed(op, x, c);
        },
        Err(_) => {},
    }
}

proof fn lemma_signed(op: UnaryOperator, x: ExprView, c: ContextView)
    ensures
        op is Not ==> sign_means(op, x, ExprView::Not(Box::new(x)), c),
        op is Minus ==> (crate::model_calls::negation(x) matches Ok(b) ==> sign_means(op, x, b, c)),
{
    lemma_not(x, c);
    lemma_negated(x, c);
    match x {
        ExprView::Literal(v) => {
            assert(eval_of(x, c) == Ok::<ValueView, ErrorView>(v));
            match v {
                ValueView::Int64(i) => {
                    if i != i64::MIN {
                        let y = ExprView::Literal(ValueView::Int64((-i) as i64));
                        assert(eval_of(y, c) == Ok::<ValueView, ErrorView>(
                            ValueView::Int64((-i) as i64),
                        ));
                    }
                },
                _ => {},
            }
        },
        _ => {},
    }
}

proof fn lemma_not(x: ExprView, c: ContextView)
    ensures
        eval_of(ExprView::Not(Box::new(x)), c) == (match eval_of(x, c) {
            Ok(ValueView::Null) => Ok(ValueView::Null),
            Ok(ValueView::Bool(b)) => Ok(ValueView::Bool(!b)),
            Ok(v) => Err(crate::arithmetic::type_error_view("NOT"@, v)),
            Err(e) => Err(e),
        }),
{
}

proof fn lemma_negated(x: ExprView, c: ContextView)
    ensures
        eval_of(ExprView::Negate(Box::new(x)), c) == (match eval_of(x, c) {
            Ok(v) => crate::eval::negated_value(v),
            Err(e) => Err(e),
        }),
{
}

/// The values of a list of expressions that all have one.
pub proof fn lemma_list_of_values(
    list: Seq<ExprView>,
    vals: Seq<ValueView>,
    c: ContextView,
    i: int,
)
    requires
        0 <= i <= list.len(),
        vals.len() == list.len(),
        forall|k: int|
            0 <= k < list.len() ==> eval_of(#[trigger] list[k], c) == Ok::<ValueView, ErrorView>(
                vals[k],
            ),
    ensures
        eval_list_of(list, c, i, vals.take(i)) == Ok::<Seq<ValueView>, ErrorView>(vals),
    decreases list.len() - i,
{
    if i < list.len() {
        assert(eval_of(list[i], c) == Ok::<ValueView, ErrorView>(vals[i]));
        assert(vals.take(i).push(vals[i]) =~= vals.take(i + 1));
        lemma_list_of_values(list, vals, c, i + 1);
    } else {
        assert(vals.take(i) =~= vals);
    }
}

/// What a call evaluates to, given the values of its arguments.
pub proof fn lemma_call(
    func: ScalarFn,
    args: Seq<ExprView>,
    data_type: DataType,
    nullable: bool,
    vals: Seq<ValueView>,
    c: ContextView,
)
    requires
        vals.len() == args.len(),
        forall|k: int|
            0 <= k < args.len() ==> eval_of(#[trigger] args[k], c) == Ok::<ValueView, ErrorView>(
                vals[k],
            ),
    ensures
        eval_of(ExprView::ScalarFunction { func, args, data_type, nullable }, c) == (
        match crate::eval::call_value(func, vals, c.answers) {
            Err(e) => Err(e),
            Ok(v) => conform_view(v, data_type, c.answers),
        }),
{
    lemma_list_of_values(args, vals, c, 0);
    assert(vals.take(0) =~= Seq::empty());
}

/// `x IS TRUE` and the like are never `NULL`: `x IS [NOT] TRUE` says whether `x` is `TRUE`, or is
/// not, and the same of `FALSE`; `NULL` is neither.
pub proof fn truth_tests_are_definite(
    x: ExprView,
    target: bool,
    negated: bool,
    v: ValueView,
    c: ContextView,
)
    requires
        truth_test(x, target, negated) is Ok,
        eval_of(x, c) == Ok::<ValueView, ErrorView>(v),
        v is Bool || v is Null,
    ensures
        is_bool(
            eval_of(truth_test(x, target, negated)->Ok_0, c),
            (v == ValueView::Bool(target)) != negated,
        ),
{
    let other = ExprView::Literal(ValueView::Bool(!target));
    let args = seq![x, other];
    let vals = seq![v, ValueView::Bool(!target)];
    assert(eval_of(other, c) == Ok::<ValueView, ErrorView>(ValueView::Bool(!target)));
    lemma_call(ScalarFn::Coalesce, args, DataType::Bool, false, vals, c);
    let first = ExprView::ScalarFunction {
        func: ScalarFn::Coalesce,
        args,
        data_type: DataType::Bool,
        nullable: false,
    };
    let shown = if v is Null {
        !target
    } else {
        v->Bool_0
    };
    assert(crate::eval::first_present(vals, 0) == ValueView::Bool(shown)) by {
        assert(vals[0] == v && vals[1] == ValueView::Bool(!target));
        reveal_with_fuel(crate::eval::first_present, 3);
    }
    assert(is_bool(eval_of(first, c), shown));
    let second = ExprView::Literal(ValueView::Bool(target));
    assert(is_bool(eval_of(second, c), target));
    crate::laws_values::false_is_less_than_true(first, second, shown, target, c);
    let test = crate::model_calls::truth_comparison(x, target);
    assert(test == applied(BinOp::Eq, first, second));
    lemma_not(test, c);
}

/// A test for `NULL` is bound to that test of its operand.
pub proof fn null_tests_are_bound_as_written(
    cx: Env<'_>,
    sc: ScopeView,
    st: StateView,
    m: Mode,
    e: SqlExpr,
    inner: SqlExpr,
    negated: bool,
)
    requires
        e.node == (if negated {
            SqlNode::IsNotNull(Box::new(inner))
        } else {
            SqlNode::IsNull(Box::new(inner))
        }),
        bind_of(cx, sc, st, m, e) is Ok,
    ensures
        bind_of(cx, sc, st, m, inner) matches Ok((x, _)) && bind_of(cx, sc, st, m, e)->Ok_0.0 == (
        if negated {
            ExprView::IsNotNull(Box::new(x))
        } else {
            ExprView::IsNull(Box::new(x))
        }),
{
}

/// `x IS TRUE` and the like are bound to that test of their operand.
pub proof fn truth_tests_are_bound_as_written(
    cx: Env<'_>,
    sc: ScopeView,
    st: StateView,
    m: Mode,
    e: SqlExpr,
    inner: SqlExpr,
    target: bool,
    negated: bool,
)
    requires
        e.node == (SqlNode::IsTruth { expr: Box::new(inner), target, negated }),
        bind_of(cx, sc, st, m, e) is Ok,
    ensures
        bind_of(cx, sc, st, m, inner) matches Ok((x, _)) && truth_test(x, target, negated) == Ok::<
            ExprView,
            ErrorView,
        >(bind_of(cx, sc, st, m, e)->Ok_0.0),
{
}

/// `LIKE` is bound to a match of its operand with its pattern, and is negated where that is written.
pub proof fn patterns_are_bound_as_written(
    cx: Env<'_>,
    sc: ScopeView,
    st: StateView,
    m: Mode,
    e: SqlExpr,
    inner: SqlExpr,
    pattern: SqlExpr,
    negated: bool,
    any: bool,
    escape: bool,
)
    requires
        e.node == (SqlNode::Like {
            negated,
            any,
            expr: Box::new(inner),
            pattern: Box::new(pattern),
            escape,
        }),
        bind_of(cx, sc, st, m, e) is Ok,
    ensures
        bind_of(cx, sc, st, m, inner) matches Ok((x, st2)) && (bind_of(
            cx,
            sc,
            st2,
            m,
            pattern,
        ) matches Ok((y, _)) && bind_of(cx, sc, st, m, e)->Ok_0.0 == (ExprView::Like {
            expr: Box::new(x),
            pattern: Box::new(y),
            negated,
        })),
{
    assert(bind_of(cx, sc, st, m, e) == crate::model_expr::bind_like_of(cx, sc, st, m, e));
}

/// `BETWEEN` is bound to a range from its lower to its upper bound, and is negated where that is written.
pub proof fn ranges_are_bound_as_written(
    cx: Env<'_>,
    sc: ScopeView,
    st: StateView,
    m: Mode,
    e: SqlExpr,
    inner: SqlExpr,
    low: SqlExpr,
    high: SqlExpr,
    negated: bool,
)
    requires
        e.node == (SqlNode::Between {
            expr: Box::new(inner),
            negated,
            low: Box::new(low),
            high: Box::new(high),
        }),
        bind_of(cx, sc, st, m, e) is Ok,
    ensures
        bind_of(cx, sc, st, m, inner) matches Ok((x, st2)) && (bind_of(
            cx,
            sc,
            st2,
            m,
            low,
        ) matches Ok((lo, st3)) && (bind_of(cx, sc, st3, m, high) matches Ok((hi, _)) && bind_of(
            cx,
            sc,
            st,
            m,
            e,
        )->Ok_0.0 == (ExprView::Between {
            expr: Box::new(x),
            low: Box::new(lo),
            high: Box::new(hi),
            negated,
        }))),
{
    assert(bind_of(cx, sc, st, m, e) == crate::model_expr::bind_between_of(cx, sc, st, m, e));
}

/// `IN` over a list is bound to a search for its operand among as many candidates as are written.
pub proof fn lists_are_bound_as_written(
    cx: Env<'_>,
    sc: ScopeView,
    st: StateView,
    m: Mode,
    e: SqlExpr,
    inner: SqlExpr,
    list: Vec<SqlExpr>,
    negated: bool,
)
    requires
        e.node == (SqlNode::InList { expr: Box::new(inner), list, negated }),
        bind_of(cx, sc, st, m, e) is Ok,
    ensures
        bind_of(cx, sc, st, m, inner) matches Ok((x, st2)) && (bind_candidates_of(
            cx,
            sc,
            st2,
            m,
            x,
            list,
            0,
            Seq::empty(),
        ) matches Ok((items, _)) && items.len() == list@.len() && bind_of(
            cx,
            sc,
            st,
            m,
            e,
        )->Ok_0.0 == (ExprView::In { expr: Box::new(x), list: items, negated })),
{
    match bind_of(cx, sc, st, m, inner) {
        Ok((x, st2)) => {
            candidates_keep_their_places(cx, sc, st2, m, x, list, 0, Seq::empty());
        },
        Err(_) => {},
    }
}

/// A bound cast evaluates to the cast of its operand to the written type; a literal is cast at once.
pub proof fn casts_are_bound_as_written(
    cx: Env<'_>,
    sc: ScopeView,
    st: StateView,
    m: Mode,
    e: SqlExpr,
    inner: SqlExpr,
    data_type: crate::sql::SqlDataType,
    c: ContextView,
)
    requires
        e.node == (SqlNode::Cast { plain: true, expr: Box::new(inner), data_type }),
        c.answers == *cx.answers,
        bind_of(cx, sc, st, m, e) is Ok,
    ensures
        bind_of(cx, sc, st, m, inner) matches Ok((x, _)) && (cast_target(data_type) matches Ok(to)
            && eval_of(bind_of(cx, sc, st, m, e)->Ok_0.0, c) == (match eval_of(x, c) {
            Ok(v) => cast_view(v, to, c.answers),
            Err(z) => Err(z),
        })),
{
    match (bind_of(cx, sc, st, m, inner), cast_target(data_type)) {
        (Ok((x, _)), Ok(to)) => {
            lemma_cast(x, to, bind_of(cx, sc, st, m, e)->Ok_0.0, c);
        },
        _ => {},
    }
}

/// `EXISTS` is bound to a test of the subquery it adds, and is negated where that is written.
pub proof fn existence_tests_are_bound_as_written(
    cx: Env<'_>,
    sc: ScopeView,
    st: StateView,
    m: Mode,
    e: SqlExpr,
    subquery: crate::sql::Query,
    negated: bool,
)
    requires
        e.node == (SqlNode::Exists { subquery: Box::new(subquery), negated }),
        bind_of(cx, sc, st, m, e) is Ok,
    ensures
        bind_subquery_of(cx, sc, st, subquery, "EXISTS subquery"@) matches Ok((q, after))
            && after.subqueries == st.subqueries.push(q) && bind_of(cx, sc, st, m, e) == Ok::<
            (ExprView, StateView),
            ErrorView,
        >(
            (
                ExprView::Exists {
                    index: st.subqueries.len() as usize,
                    negated,
                    correlated: q.correlated,
                },
                after,
            ),
        ),
{
}

/// `IN` over a subquery is bound to a search for its operand among the rows of the subquery it adds.
pub proof fn searches_in_subqueries_are_bound_as_written(
    cx: Env<'_>,
    sc: ScopeView,
    st: StateView,
    m: Mode,
    e: SqlExpr,
    inner: SqlExpr,
    subquery: crate::sql::Query,
    negated: bool,
)
    requires
        e.node == (SqlNode::InSubquery {
            expr: Box::new(inner),
            subquery: Box::new(subquery),
            negated,
        }),
        bind_of(cx, sc, st, m, e) is Ok,
    ensures
        bind_of(cx, sc, st, m, inner) matches Ok((x, st2)) && (bind_subquery_of(
            cx,
            sc,
            st2,
            subquery,
            "IN subquery"@,
        ) matches Ok((q, after)) && after.subqueries == st2.subqueries.push(q) && bind_of(
            cx,
            sc,
            st,
            m,
            e,
        ) == Ok::<(ExprView, StateView), ErrorView>(
            (
                ExprView::InSubquery {
                    expr: Box::new(x),
                    index: st2.subqueries.len() as usize,
                    negated,
                    correlated: q.correlated,
                },
                after,
            ),
        )),
{
}

/// A subquery as a value is bound to the value of the subquery it adds.
pub proof fn subqueries_are_values(
    cx: Env<'_>,
    sc: ScopeView,
    st: StateView,
    m: Mode,
    e: SqlExpr,
    subquery: crate::sql::Query,
)
    requires
        e.node == SqlNode::Subquery(Box::new(subquery)),
        bind_of(cx, sc, st, m, e) is Ok,
    ensures
        bind_subquery_of(cx, sc, st, subquery, "scalar subquery"@) matches Ok((q, after))
            && after.subqueries == st.subqueries.push(q) && q.output_columns.len() == 1 && bind_of(
            cx,
            sc,
            st,
            m,
            e,
        ) == Ok::<(ExprView, StateView), ErrorView>(
            (
                ExprView::ScalarSubquery {
                    index: st.subqueries.len() as usize,
                    data_type: q.output_columns[0].data_type,
                    correlated: q.correlated,
                },
                after,
            ),
        ),
{
}

/// `CASE` has the operand, the branches and the `ELSE` that are written, in their order.
pub proof fn cases_are_bound_as_written(
    cx: Env<'_>,
    sc: ScopeView,
    st: StateView,
    m: Mode,
    e: SqlExpr,
    operand: Option<Box<SqlExpr>>,
    conditions: Vec<crate::sql::CaseWhen>,
    last: Option<Box<SqlExpr>>,
)
    requires
        e.node == (SqlNode::Case { operand, conditions, else_result: last }),
        bind_of(cx, sc, st, m, e) is Ok,
    ensures
        bind_option_of(cx, sc, st, m, operand) matches Ok((o, st2)) && (bind_branches_of(
            cx,
            sc,
            st2,
            m,
            o,
            conditions,
            0,
            Seq::empty(),
        ) matches Ok((branches, st3)) && branches.len() == conditions@.len() && (bind_option_of(
            cx,
            sc,
            st3,
            m,
            last,
        ) matches Ok((l, _)) && case_has(bind_of(cx, sc, st, m, e)->Ok_0.0, o, branches, l))),
{
    assert(bind_of(cx, sc, st, m, e) == crate::model_expr::bind_case_of(cx, sc, st, m, e));
    match bind_option_of(cx, sc, st, m, operand) {
        Ok((o, st2)) => {
            branches_keep_their_places(cx, sc, st2, m, o, conditions, 0, Seq::empty());
        },
        Err(_) => {},
    }
}

/// Whether a bound `CASE` has the given parts.
pub open spec fn case_has(
    b: ExprView,
    o: Option<ExprView>,
    branches: Seq<(ExprView, ExprView)>,
    last: Option<ExprView>,
) -> bool {
    b matches ExprView::Case { operand, branches: list, else_result, .. } && {
        &&& list == branches
        &&& (match (operand, o) {
            (Some(x), Some(y)) => *x == y,
            (None, None) => true,
            _ => false,
        })
        &&& (match (else_result, last) {
            (Some(x), Some(y)) => *x == y,
            (None, None) => true,
            _ => false,
        })
    }
}

proof fn lemma_cast(x: ExprView, to: DataType, b: ExprView, c: ContextView)
    requires
        crate::model_calls::casted(x, to, c.answers) == Ok::<ExprView, ErrorView>(b),
    ensures
        eval_of(b, c) == eval_of(ExprView::Cast { expr: Box::new(x), to }, c),
{
    let whole_cast = ExprView::Cast { expr: Box::new(x), to };
    match x {
        ExprView::Literal(v) => {
            assert(eval_of(x, c) == Ok::<ValueView, ErrorView>(v));
            assert(eval_of(whole_cast, c) == cast_view(v, to, c.answers));
            assert(eval_of(b, c) == cast_view(v, to, c.answers));
        },
        _ => {},
    }
}

/// The candidates of `IN` are bound in their order.
pub proof fn candidates_keep_their_places(
    cx: Env<'_>,
    sc: ScopeView,
    st: StateView,
    m: Mode,
    x: ExprView,
    list: Vec<SqlExpr>,
    i: int,
    acc: Seq<ExprView>,
)
    requires
        0 <= i <= list@.len(),
        acc.len() == i,
        bind_candidates_of(cx, sc, st, m, x, list, i, acc) is Ok,
    ensures
        bind_candidates_of(cx, sc, st, m, x, list, i, acc)->Ok_0.0.len() == list@.len(),
        acc.is_prefix_of(bind_candidates_of(cx, sc, st, m, x, list, i, acc)->Ok_0.0),
        i < list@.len() ==> (bind_of(cx, sc, st, m, list@[i]) matches Ok((b, _))
            && bind_candidates_of(cx, sc, st, m, x, list, i, acc)->Ok_0.0[i] == b),
    decreases list@.len() - i,
{
    if i < list@.len() {
        let (b, st2) = bind_of(cx, sc, st, m, list@[i])->Ok_0;
        candidates_keep_their_places(cx, sc, st2, m, x, list, i + 1, acc.push(b));
        assert(acc.push(b)[i] == b);
    }
}

/// The branches of a `CASE` are bound in their order, each condition with its result.
pub proof fn branches_keep_their_places(
    cx: Env<'_>,
    sc: ScopeView,
    st: StateView,
    m: Mode,
    operand: Option<ExprView>,
    list: Vec<crate::sql::CaseWhen>,
    i: int,
    acc: Seq<(ExprView, ExprView)>,
)
    requires
        0 <= i <= list@.len(),
        acc.len() == i,
        bind_branches_of(cx, sc, st, m, operand, list, i, acc) is Ok,
    ensures
        bind_branches_of(cx, sc, st, m, operand, list, i, acc)->Ok_0.0.len() == list@.len(),
        acc.is_prefix_of(bind_branches_of(cx, sc, st, m, operand, list, i, acc)->Ok_0.0),
        i < list@.len() ==> (bind_of(cx, sc, st, m, list@[i].condition) matches Ok((c, st2)) && (
        bind_of(cx, sc, st2, m, list@[i].result) matches Ok((r, _)) && bind_branches_of(
            cx,
            sc,
            st,
            m,
            operand,
            list,
            i,
            acc,
        )->Ok_0.0[i] == (c, r))),
    decreases list@.len() - i,
{
    if i < list@.len() {
        let (c, st2) = bind_of(cx, sc, st, m, list@[i].condition)->Ok_0;
        let (r, st3) = bind_of(cx, sc, st2, m, list@[i].result)->Ok_0;
        branches_keep_their_places(cx, sc, st3, m, operand, list, i + 1, acc.push((c, r)));
        assert(acc.push((c, r))[i] == (c, r));
    }
}

/// A timestamp plus an interval is moved forwards by it, on whichever side the interval stands, and a
/// timestamp minus an interval backwards.
pub proof fn intervals_move_as_written(
    cx: Env<'_>,
    sc: ScopeView,
    st: StateView,
    m: Mode,
    e: SqlExpr,
    left: SqlExpr,
    op: BinaryOperator,
    right: SqlExpr,
)
    requires
        e.node == (SqlNode::BinaryOp { left: Box::new(left), op, right: Box::new(right) }),
        right.node is Interval || left.node is Interval,
        bind_of(cx, sc, st, m, e) is Ok,
    ensures
        (op is Plus || op is Minus) && (!(right.node is Interval) ==> op is Plus),
        bind_of(cx, sc, st, m, e)->Ok_0.0 matches ExprView::CalendarInterval { expr, negated, .. }
            && negated == (op is Minus) && (bind_of(
            cx,
            sc,
            st,
            m,
            if right.node is Interval {
                left
            } else {
                right
            },
        ) matches Ok((t, _)) && *expr == t),
{
    assert(bind_of(cx, sc, st, m, e) == crate::model_expr::bind_binary_of(cx, sc, st, m, e));
}

} // verus!
