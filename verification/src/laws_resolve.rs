//! Laws of name resolution: what the references of a bound expression refer to.

use crate::expr::ExprView;
use crate::model_calls::{
    aggregate_named, aggregate_ref, aggregate_type, case_expr, count_star, extraction, operation,
    operator_of, shifted, substring, truth_comparison, truth_test, Bound, HeadView, Mode,
};
use crate::model_expr::{
    bind_aggregate_of, bind_args_of, bind_between_of, bind_binary_of, bind_branches_of,
    bind_call_of, bind_candidates_of, bind_case_of, bind_end_bound_of, bind_frame_of,
    bind_function_of, bind_like_of, bind_list_of, bind_of, bind_option_of, bind_over_of,
    bind_range_of, bind_subquery_of, bind_substring_of, bind_unary_of, bind_value_bound_of,
    bind_window_of, bind_window_order_of, inside_window, lag_default_of, window_count_of,
    window_head_of, window_lag_of, window_value_of,
};
use crate::names::{
    column_named, column_ref_view, lemma_first_at, sum_held, visible_expr, InfoView,
};
use crate::query::{OrderView, VisibleView};
use crate::scope::{
    candidates, output_alias, resolved, resolved_by_slots, Env, ScopeView, StateView,
};
use crate::sql::{
    CaseWhen, FrameBound, Function, FunctionArg, FunctionArguments, OrderByExpr, SqlExpr, SqlFrame,
    SqlNode, SqlWindow, UnaryOperator, WindowType,
};
use crate::value::ErrorView;
use vstd::prelude::*;

verus! {

/// How many results there are for references by index.
pub struct Room {
    /// Aggregates.
    pub aggregates: nat,
    /// Window functions.
    pub windows: nat,
    /// Subqueries.
    pub subqueries: nat,
    /// Output columns.
    pub outputs: nat,
}

/// Whether every column that an expression refers to, by slot, column and offset, is one that `p`
/// admits, and there is a result for every reference by index.
pub open spec fn refers(e: ExprView, p: spec_fn(usize, usize, usize) -> bool, n: Room) -> bool
    decreases e,
{
    match e {
        ExprView::ColumnRef { slot, column, offset, .. } => p(slot, column, offset),
        ExprView::OutputColumn { index, .. } => index < n.outputs,
        ExprView::AggregateRef { index, .. } => index < n.aggregates,
        ExprView::WindowRef { index, .. } => index < n.windows,
        ExprView::ScalarSubquery { index, .. } => index < n.subqueries,
        ExprView::Exists { index, .. } => index < n.subqueries,
        ExprView::InSubquery { expr, index, .. } => refers(*expr, p, n) && index < n.subqueries,
        ExprView::BinaryOp { left, right, .. } => refers(*left, p, n) && refers(*right, p, n),
        ExprView::Not(x) => refers(*x, p, n),
        ExprView::Negate(x) => refers(*x, p, n),
        ExprView::IsNull(x) => refers(*x, p, n),
        ExprView::IsNotNull(x) => refers(*x, p, n),
        ExprView::Like { expr, pattern, .. } => refers(*expr, p, n) && refers(*pattern, p, n),
        ExprView::In { expr, list, .. } => refers(*expr, p, n) && forall|i: int|
            0 <= i < list.len() ==> refers(#[trigger] list[i], p, n),
        ExprView::Between { expr, low, high, .. } => refers(*expr, p, n) && refers(*low, p, n)
            && refers(*high, p, n),
        ExprView::Case { operand, branches, else_result, .. } => {
            &&& operand matches Some(x) ==> refers(*x, p, n)
            &&& forall|i: int|
                0 <= i < branches.len() ==> refers((#[trigger] branches[i]).0, p, n) && refers(
                    branches[i].1,
                    p,
                    n,
                )
            &&& else_result matches Some(x) ==> refers(*x, p, n)
        },
        ExprView::Cast { expr, .. } => refers(*expr, p, n),
        ExprView::CalendarInterval { expr, quantity, .. } => refers(*expr, p, n) && refers(
            *quantity,
            p,
            n,
        ),
        ExprView::ScalarFunction { args, .. } => forall|i: int|
            0 <= i < args.len() ==> refers(#[trigger] args[i], p, n),
        _ => true,
    }
}

/// Whether every expression of a list refers soundly.
pub open spec fn list_refers(
    list: Seq<ExprView>,
    p: spec_fn(usize, usize, usize) -> bool,
    n: Room,
) -> bool {
    forall|i: int| 0 <= i < list.len() ==> refers(#[trigger] list[i], p, n)
}

/// Whether there is at least as much of everything.
pub open spec fn roomier(a: Room, b: Room) -> bool {
    a.aggregates <= b.aggregates && a.windows <= b.windows && a.subqueries <= b.subqueries
        && a.outputs <= b.outputs
}

/// What refers soundly still does where more is admitted.
pub proof fn lemma_refers_more(
    e: ExprView,
    p: spec_fn(usize, usize, usize) -> bool,
    q: spec_fn(usize, usize, usize) -> bool,
    n: Room,
    m: Room,
)
    requires
        refers(e, p, n),
        forall|s: usize, c: usize, o: usize| #[trigger] p(s, c, o) ==> q(s, c, o),
        roomier(n, m),
    ensures
        refers(e, q, m),
    decreases e,
{
    match e {
        ExprView::InSubquery { expr, .. } => lemma_refers_more(*expr, p, q, n, m),
        ExprView::BinaryOp { left, right, .. } => {
            lemma_refers_more(*left, p, q, n, m);
            lemma_refers_more(*right, p, q, n, m);
        },
        ExprView::Not(x) => lemma_refers_more(*x, p, q, n, m),
        ExprView::Negate(x) => lemma_refers_more(*x, p, q, n, m),
        ExprView::IsNull(x) => lemma_refers_more(*x, p, q, n, m),
        ExprView::IsNotNull(x) => lemma_refers_more(*x, p, q, n, m),
        ExprView::Like { expr, pattern, .. } => {
            lemma_refers_more(*expr, p, q, n, m);
            lemma_refers_more(*pattern, p, q, n, m);
        },
        ExprView::In { expr, list, .. } => {
            lemma_refers_more(*expr, p, q, n, m);
            assert forall|i: int| 0 <= i < list.len() implies refers(#[trigger] list[i], q, m) by {
                lemma_refers_more(list[i], p, q, n, m);
            }
        },
        ExprView::Between { expr, low, high, .. } => {
            lemma_refers_more(*expr, p, q, n, m);
            lemma_refers_more(*low, p, q, n, m);
            lemma_refers_more(*high, p, q, n, m);
        },
        ExprView::Case { operand, branches, else_result, .. } => {
            match operand {
                Some(x) => lemma_refers_more(*x, p, q, n, m),
                None => {},
            }
            match else_result {
                Some(x) => lemma_refers_more(*x, p, q, n, m),
                None => {},
            }
            assert forall|i: int| 0 <= i < branches.len() implies refers(
                (#[trigger] branches[i]).0,
                q,
                m,
            ) && refers(branches[i].1, q, m) by {
                lemma_refers_more(branches[i].0, p, q, n, m);
                lemma_refers_more(branches[i].1, p, q, n, m);
            }
        },
        ExprView::Cast { expr, .. } => lemma_refers_more(*expr, p, q, n, m),
        ExprView::CalendarInterval { expr, quantity, .. } => {
            lemma_refers_more(*expr, p, q, n, m);
            lemma_refers_more(*quantity, p, q, n, m);
        },
        ExprView::ScalarFunction { args, .. } => {
            assert forall|i: int| 0 <= i < args.len() implies refers(#[trigger] args[i], q, m) by {
                lemma_refers_more(args[i], p, q, n, m);
            }
        },
        _ => {},
    }
}

/// The columns of slots with their offsets.
pub open spec fn columns_of(slots: Seq<InfoView>) -> spec_fn(usize, usize, usize) -> bool {
    |s: usize, c: usize, o: usize|
        s < slots.len() && c < slots[s as int].columns.len() && o == sum_held(
            slots[s as int].offset,
            c,
        )
}

/// The results that a scope and what was collected in it offer.
pub open spec fn room_of(sc: ScopeView, st: StateView) -> Room {
    Room {
        aggregates: st.aggregates.len(),
        windows: st.windows.len(),
        subqueries: st.subqueries.len(),
        outputs: match sc.output {
            Some(o) => o.len(),
            None => 0,
        },
    }
}

/// Whether what was collected can be counted.
pub open spec fn countable_state(st: StateView) -> bool {
    st.aggregates.len() <= usize::MAX && st.windows.len() <= usize::MAX && st.subqueries.len()
        <= usize::MAX
}

/// Whether what was collected and the scope can be counted, and the scope is sound.
pub open spec fn countable_in(sc: ScopeView, st: StateView) -> bool {
    sound_scope(sc) && countable_state(st)
}

/// Whether a state was reached from another by collecting more, as far as a scope lets anything be
/// collected.
pub open spec fn grows(sc: ScopeView, a: StateView, b: StateView) -> bool {
    &&& a.aggregates.len() <= b.aggregates.len()
    &&& a.windows.len() <= b.windows.len()
    &&& a.subqueries.len() <= b.subqueries.len()
    &&& !sc.allow_aggregates ==> a.aggregates == b.aggregates
    &&& !sc.collect_windows ==> a.windows == b.windows
}

/// Whether the slots, their columns and the output columns of a scope can be counted, and its
/// visible columns refer to its slots.
pub open spec fn sound_scope(sc: ScopeView) -> bool {
    &&& sc.slots.len() <= usize::MAX
    &&& forall|i: int| 0 <= i < sc.slots.len() ==> (#[trigger] sc.slots[i]).columns.len() <= usize::MAX
    &&& sc.output matches Some(o) ==> o.len() <= usize::MAX
    &&& sc.visible matches Some(v) ==> sound_visible(v, sc.slots)
}

/// No results for references by index.
pub open spec fn no_room() -> Room {
    Room { aggregates: 0, windows: 0, subqueries: 0, outputs: 0 }
}

/// Whether visible columns can be counted and refer to the given slots.
pub open spec fn sound_visible(v: Seq<VisibleView>, slots: Seq<InfoView>) -> bool {
    v.len() <= usize::MAX && forall|i: int|
        0 <= i < v.len() ==> refers(
            visible_expr(#[trigger] v[i], slots),
            columns_of(slots),
            no_room(),
        )
}

/// Whether a bound expression refers to what its scope and what was collected offer.
pub open spec fn refers_in(sc: ScopeView, st: StateView, e: ExprView) -> bool {
    refers(e, columns_of(sc.slots), room_of(sc, st))
}

/// Whether the result of binding, if there is one, collects only more and refers soundly.
pub open spec fn sound_bound(sc: ScopeView, st: StateView, r: Bound) -> bool {
    r matches Ok(x) ==> grows(sc, st, x.1) && (countable_in(sc, x.1) ==> refers_in(sc, x.1, x.0))
}

proof fn lemma_grown(sc: ScopeView, a: StateView, b: StateView, e: ExprView)
    requires
        refers_in(sc, a, e),
        grows(sc, a, b),
    ensures
        refers_in(sc, b, e),
{
    lemma_refers_more(e, columns_of(sc.slots), columns_of(sc.slots), room_of(sc, a), room_of(sc, b));
}

pub proof fn lemma_column_ref(sc: ScopeView, st: StateView, slot: int, column: int)
    requires
        sound_scope(sc),
    ensures
        refers_in(sc, st, column_ref_view(sc.slots, slot, column)),
{
}

proof fn lemma_output_alias(sc: ScopeView, st: StateView, name: Seq<char>)
    requires
        sound_scope(sc),
    ensures
        output_alias(sc, name) matches Some(e) ==> refers_in(sc, st, e),
{
    match sc.output {
        None => {},
        Some(out) => {
            lemma_first_at(out, crate::names::column_is(name), 0);
            lemma_first_at(out, crate::names::column_folds(name), 0);
        },
    }
}

/// A name refers to a column of a slot, to an output column, or to the enclosing query.
proof fn lemma_resolved(
    sc: ScopeView,
    st: StateView,
    qualifier: Option<Seq<char>>,
    name: Seq<char>,
)
    requires
        sound_scope(sc),
    ensures
        resolved(sc, qualifier, name) matches Ok(e) ==> refers_in(sc, st, e),
{
    lemma_output_alias(sc, st, name);
    match resolved_by_slots(sc, qualifier, name) {
        Ok(e) => {
            match qualifier {
                Some(q) => match crate::names::slot_named(sc.slots, q) {
                    None => {},
                    Some(si) => match column_named(sc.slots[si].columns, name) {
                        Some(ci) => {
                            lemma_column_ref(sc, st, si, ci);
                        },
                        None => {},
                    },
                },
                None => {
                    let c = candidates(sc.slots, name);
                    if c.len() == 1 {
                        lemma_column_ref(sc, st, c[0].0, c[0].1);
                    }
                },
            }
            assert(refers_in(sc, st, e));
        },
        Err(_) => {},
    }
    match sc.visible {
        Some(v) => {
            match crate::names::visible_named(v, sc.slots, name) {
                crate::names::Found::At(i) => {
                    lemma_first_at(v, crate::names::visible_is(sc.slots, name), 0);
                    lemma_first_at(v, crate::names::visible_folds(sc.slots, name), 0);
                    assert(i < v.len());
                    let x = v[i as int];
                    lemma_refers_more(
                        visible_expr(v[i as int], sc.slots),
                        columns_of(sc.slots),
                        columns_of(sc.slots),
                        no_room(),
                        room_of(sc, st),
                    );
                },
                _ => {},
            }
        },
        None => {},
    }
}

/// A bound expression refers to what is at hand: every column by the offset it has in the joined
/// row, every aggregate, window function and subquery to one that was collected.
pub proof fn bound_expressions_are_resolved(
    cx: Env<'_>,
    sc: ScopeView,
    st: StateView,
    m: Mode,
    e: SqlExpr,
)
    ensures
        sound_bound(sc, st, bind_of(cx, sc, st, m, e)),
    decreases e, 5int, 0int,
{
    match e.node {
        SqlNode::Nested(inner) => bound_expressions_are_resolved(cx, sc, st, m, *inner),
        SqlNode::Identifier(_) => lemma_names(cx, sc, st, m, e),
        SqlNode::CompoundIdentifier(_) => lemma_names(cx, sc, st, m, e),
        SqlNode::UnaryOp { op, expr } => lemma_unary(cx, sc, st, m, op, *expr),
        SqlNode::BinaryOp { .. } => lemma_binary(cx, sc, st, m, e),
        SqlNode::Extract { .. } => lemma_extract(cx, sc, st, m, e),
        SqlNode::Substring { .. } => lemma_substring(cx, sc, st, m, e),
        SqlNode::IsNull(inner) => bound_expressions_are_resolved(cx, sc, st, m, *inner),
        SqlNode::IsNotNull(inner) => bound_expressions_are_resolved(cx, sc, st, m, *inner),
        SqlNode::IsTruth { expr, target, negated } => {
            bound_expressions_are_resolved(cx, sc, st, m, *expr);
            match bind_of(cx, sc, st, m, *expr) {
                Ok((b, st2)) => {
                    lemma_truth(sc, st2, b, target, negated);
                },
                Err(_) => {},
            }
        },
        SqlNode::Like { .. } => lemma_like(cx, sc, st, m, e),
        SqlNode::InList { .. } => lemma_in_list(cx, sc, st, m, e),
        SqlNode::Between { .. } => lemma_between(cx, sc, st, m, e),
        SqlNode::Case { .. } => lemma_case(cx, sc, st, m, e),
        SqlNode::Cast { plain, expr, data_type } => {
            if plain {
                bound_expressions_are_resolved(cx, sc, st, m, *expr);
            }
        },
        SqlNode::Function(f) => lemma_function(cx, sc, st, m, *f),
        SqlNode::InSubquery { .. } => lemma_in_subquery(cx, sc, st, m, e),
        SqlNode::Subquery(_) => lemma_subquery(cx, sc, st, m, e),
        SqlNode::Exists { .. } => lemma_subquery(cx, sc, st, m, e),
        SqlNode::Value(v) => {
            match crate::typing::literal_view(v, e.text@) {
                Ok(x) => {
                    assert(x is Literal);
                    assert(refers_in(sc, st, x));
                },
                Err(_) => {},
            }
        },
        SqlNode::DateLiteral(t) => {
            assert(bind_of(cx, sc, st, m, e) matches Ok(x) ==> x.0 is Literal && x.1 == st);
        },
        SqlNode::TypedLiteral => {},
        SqlNode::Interval { .. } => {},
        SqlNode::Tuple(_) => {},
        SqlNode::Other => {},
    }
}

proof fn lemma_names(cx: Env<'_>, sc: ScopeView, st: StateView, m: Mode, e: SqlExpr)
    requires
        e.node is Identifier || e.node is CompoundIdentifier,
    ensures
        sound_bound(sc, st, bind_of(cx, sc, st, m, e)),
{
    match e.node {
        SqlNode::Identifier(name) => {
            if sound_scope(sc) {
                lemma_resolved(sc, st, None, name@);
            }
            match crate::typing::variable_ident(name@) {
                Ok(Some(v)) => {
                    assert(v is Variable);
                },
                _ => {},
            }
        },
        SqlNode::CompoundIdentifier(parts) => {
            if parts@.len() == 2 {
                if sound_scope(sc) {
                    lemma_resolved(sc, st, Some(parts@[0]@), parts@[1]@);
                }
                match crate::typing::scoped_variable(parts@[0]@, parts@[1]@) {
                    Ok(Some(v)) => {
                        assert(v is Variable);
                    },
                    _ => {},
                }
            }
        },
        _ => {},
    }
}

proof fn lemma_subquery(cx: Env<'_>, sc: ScopeView, st: StateView, m: Mode, e: SqlExpr)
    requires
        e.node is Subquery || e.node is Exists,
    ensures
        sound_bound(sc, st, bind_of(cx, sc, st, m, e)),
{
    match e.node {
        SqlNode::Subquery(q) => {
            match bind_subquery_of(cx, sc, st, *q, "scalar subquery"@) {
                Ok((bound, st2)) => {
                    assert(st2.subqueries.len() == st.subqueries.len() + 1);
                },
                Err(_) => {},
            }
        },
        SqlNode::Exists { subquery, negated } => {
            match bind_subquery_of(cx, sc, st, *subquery, "EXISTS subquery"@) {
                Ok((bound, st2)) => {
                    assert(st2.subqueries.len() == st.subqueries.len() + 1);
                },
                Err(_) => {},
            }
        },
        _ => {},
    }
}

proof fn lemma_truth(sc: ScopeView, st: StateView, e: ExprView, target: bool, negated: bool)
    ensures
        truth_test(e, target, negated) matches Ok(x) ==> refers_in(sc, st, e) ==> refers_in(
            sc,
            st,
            x,
        ),
{
    if refers_in(sc, st, e) {
        let p = columns_of(sc.slots);
        let n = room_of(sc, st);
        let other = ExprView::Literal(crate::value::ValueView::Bool(!target));
        let args = seq![e, other];
        assert(refers(other, p, n));
        assert forall|i: int| 0 <= i < args.len() implies refers(#[trigger] args[i], p, n) by {
            assert(args[0] == e && args[1] == other);
        }
        let call = ExprView::ScalarFunction {
            func: crate::expr::ScalarFn::Coalesce,
            args,
            data_type: crate::value::DataType::Bool,
            nullable: false,
        };
        assert(refers(call, p, n));
        let one = ExprView::Literal(crate::value::ValueView::Bool(target));
        assert(refers(one, p, n));
        assert(refers(truth_comparison(e, target), p, n));
    }
}

proof fn lemma_unary(
    cx: Env<'_>,
    sc: ScopeView,
    st: StateView,
    m: Mode,
    op: UnaryOperator,
    inner: SqlExpr,
)
    ensures
        sound_bound(sc, st, bind_unary_of(cx, sc, st, m, op, inner)),
    decreases inner, 6int, 0int,
{
    if !(op is Other) {
        bound_expressions_are_resolved(cx, sc, st, m, inner);
    }
}

proof fn lemma_operation(
    sc: ScopeView,
    st: StateView,
    op: crate::expr::BinOp,
    l: ExprView,
    r: ExprView,
)
    requires
        refers_in(sc, st, l),
        refers_in(sc, st, r),
    ensures
        operation(op, l, r) matches Ok(x) ==> refers_in(sc, st, x),
{
    let (l2, r2) = crate::typing::coerced_pair(l, r);
    assert(refers_in(sc, st, l2));
    assert(refers_in(sc, st, r2));
}

proof fn lemma_binary(cx: Env<'_>, sc: ScopeView, st: StateView, m: Mode, e: SqlExpr)
    requires
        e.node is BinaryOp,
    ensures
        sound_bound(sc, st, bind_binary_of(cx, sc, st, m, e)),
    decreases e, 4int, 0int,
{
    match e.node {
        SqlNode::BinaryOp { left, op, right } => {
            bound_expressions_are_resolved(cx, sc, st, m, *left);
            bound_expressions_are_resolved(cx, sc, st, m, *right);
            match bind_of(cx, sc, st, m, *left) {
                Ok((l, st2)) => {
                    bound_expressions_are_resolved(cx, sc, st2, m, *right);
                    match (bind_of(cx, sc, st2, m, *right), operator_of(op)) {
                        (Ok((r, st3)), Ok(o)) => {
                            if countable_in(sc, st3) {
                                lemma_grown(sc, st2, st3, l);
                                lemma_operation(sc, st3, o, l, r);
                            }
                        },
                        _ => {},
                    }
                    match right.node {
                        SqlNode::Interval { value, unit } => {
                            lemma_shifted(sc, st2, l, *value, unit, op is Minus);
                        },
                        _ => {},
                    }
                },
                Err(_) => {},
            }
            match (left.node, bind_of(cx, sc, st, m, *right)) {
                (SqlNode::Interval { value, unit }, Ok((r, st2))) => {
                    lemma_shifted(sc, st2, r, *value, unit, false);
                },
                _ => {},
            }
        },
        _ => {},
    }
}

proof fn lemma_shifted(
    sc: ScopeView,
    st: StateView,
    t: ExprView,
    value: SqlExpr,
    unit: Option<crate::sql::DateTimeField>,
    negated: bool,
)
    ensures
        shifted(t, value, unit, negated) matches Ok(x) ==> refers_in(sc, st, t) ==> refers_in(
            sc,
            st,
            x,
        ),
{
    match crate::typing::interval_parts(value, unit) {
        Ok((quantity, u)) => {
            assert(quantity is Literal);
            assert(refers_in(sc, st, quantity));
        },
        Err(_) => {},
    }
}

proof fn lemma_text_part(sc: ScopeView, st: StateView, b: ExprView, s: ExprView, l: ExprView)
    requires
        refers_in(sc, st, b),
        refers_in(sc, st, s),
        refers_in(sc, st, l),
    ensures
        substring(b, s, l) matches Ok(x) ==> refers_in(sc, st, x),
{
    let args = seq![b, s, l];
    assert forall|i: int| 0 <= i < args.len() implies refers(
        #[trigger] args[i],
        columns_of(sc.slots),
        room_of(sc, st),
    ) by {
        assert(args[0] == b && args[1] == s && args[2] == l);
    }
}

proof fn lemma_extraction(
    sc: ScopeView,
    st: StateView,
    unit: crate::expr::CalendarIntervalUnit,
    b: ExprView,
)
    requires
        refers_in(sc, st, b),
    ensures
        extraction(unit, b) matches Ok(x) ==> refers_in(sc, st, x),
{
    let args = seq![b];
    assert forall|i: int| 0 <= i < args.len() implies refers(
        #[trigger] args[i],
        columns_of(sc.slots),
        room_of(sc, st),
    ) by {
        assert(args[0] == b);
    }
}

proof fn lemma_extract(cx: Env<'_>, sc: ScopeView, st: StateView, m: Mode, e: SqlExpr)
    requires
        e.node is Extract,
    ensures
        sound_bound(sc, st, bind_of(cx, sc, st, m, e)),
    decreases e, 4int, 0int,
{
    match e.node {
        SqlNode::Extract { field, expr } => {
            bound_expressions_are_resolved(cx, sc, st, m, *expr);
            match (crate::model_calls::extract_unit(field), bind_of(cx, sc, st, m, *expr)) {
                (Ok(unit), Ok((b, st2))) => {
                    if countable_in(sc, st2) {
                        lemma_extraction(sc, st2, unit, b);
                    }
                },
                _ => {},
            }
        },
        _ => {},
    }
}

proof fn lemma_in_list(cx: Env<'_>, sc: ScopeView, st: StateView, m: Mode, e: SqlExpr)
    requires
        e.node is InList,
    ensures
        sound_bound(sc, st, bind_of(cx, sc, st, m, e)),
    decreases e, 4int, 0int,
{
    match e.node {
        SqlNode::InList { expr, list, negated } => {
            bound_expressions_are_resolved(cx, sc, st, m, *expr);
            match bind_of(cx, sc, st, m, *expr) {
                Ok((b, st2)) => {
                    lemma_candidates(cx, sc, st2, m, b, list, 0, Seq::empty());
                    match bind_candidates_of(cx, sc, st2, m, b, list, 0, Seq::empty()) {
                        Ok((items, st3)) => {
                            if countable_in(sc, st3) {
                                lemma_grown(sc, st2, st3, b);
                            }
                        },
                        Err(_) => {},
                    }
                },
                Err(_) => {},
            }
        },
        _ => {},
    }
}

proof fn lemma_in_subquery(cx: Env<'_>, sc: ScopeView, st: StateView, m: Mode, e: SqlExpr)
    requires
        e.node is InSubquery,
    ensures
        sound_bound(sc, st, bind_of(cx, sc, st, m, e)),
    decreases e, 4int, 0int,
{
    match e.node {
        SqlNode::InSubquery { expr, subquery, negated } => {
            bound_expressions_are_resolved(cx, sc, st, m, *expr);
            match bind_of(cx, sc, st, m, *expr) {
                Ok((b, st2)) => {
                    match bind_subquery_of(cx, sc, st2, *subquery, "IN subquery"@) {
                        Ok((bound, st3)) => {
                            if countable_in(sc, st3) {
                                lemma_grown(sc, st2, st3, b);
                            }
                        },
                        Err(_) => {},
                    }
                },
                Err(_) => {},
            }
        },
        _ => {},
    }
}

proof fn lemma_substring(cx: Env<'_>, sc: ScopeView, st: StateView, m: Mode, e: SqlExpr)
    requires
        e.node is Substring,
    ensures
        sound_bound(sc, st, bind_substring_of(cx, sc, st, m, e)),
    decreases e, 4int, 0int,
{
    match e.node {
        SqlNode::Substring { expr, start: Some(start), length: Some(length) } => {
            bound_expressions_are_resolved(cx, sc, st, m, *expr);
            match bind_of(cx, sc, st, m, *expr) {
                Ok((b, st2)) => {
                    bound_expressions_are_resolved(cx, sc, st2, m, *start);
                    match bind_of(cx, sc, st2, m, *start) {
                        Ok((s, st3)) => {
                            bound_expressions_are_resolved(cx, sc, st3, m, *length);
                            match bind_of(cx, sc, st3, m, *length) {
                                Ok((l, st4)) => {
                                    if countable_in(sc, st4) {
                                        lemma_grown(sc, st2, st4, b);
                                        lemma_grown(sc, st3, st4, s);
                                        lemma_text_part(sc, st4, b, s, l);
                                    }
                                },
                                Err(_) => {},
                            }
                        },
                        Err(_) => {},
                    }
                },
                Err(_) => {},
            }
        },
        _ => {},
    }
}

proof fn lemma_like(cx: Env<'_>, sc: ScopeView, st: StateView, m: Mode, e: SqlExpr)
    requires
        e.node is Like,
    ensures
        sound_bound(sc, st, bind_like_of(cx, sc, st, m, e)),
    decreases e, 4int, 0int,
{
    match e.node {
        SqlNode::Like { negated, any, expr, pattern, escape } => {
            bound_expressions_are_resolved(cx, sc, st, m, *expr);
            match bind_of(cx, sc, st, m, *expr) {
                Ok((b, st2)) => {
                    bound_expressions_are_resolved(cx, sc, st2, m, *pattern);
                    match bind_of(cx, sc, st2, m, *pattern) {
                        Ok((p, st3)) => {
                            if countable_in(sc, st3) {
                                lemma_grown(sc, st2, st3, b);
                            }
                        },
                        Err(_) => {},
                    }
                },
                Err(_) => {},
            }
        },
        _ => {},
    }
}

/// Whether a list that binding gives, if it gives one, refers soundly.
spec fn sound_list(
    sc: ScopeView,
    st: StateView,
    r: Result<(Seq<ExprView>, StateView), ErrorView>,
) -> bool {
    r matches Ok(x) ==> grows(sc, st, x.1) && (countable_in(sc, x.1) ==> list_refers(
        x.0,
        columns_of(sc.slots),
        room_of(sc, x.1),
    ))
}

proof fn lemma_list_grown(sc: ScopeView, a: StateView, b: StateView, list: Seq<ExprView>)
    requires
        list_refers(list, columns_of(sc.slots), room_of(sc, a)),
        grows(sc, a, b),
    ensures
        list_refers(list, columns_of(sc.slots), room_of(sc, b)),
{
    assert forall|i: int| 0 <= i < list.len() implies refers(
        #[trigger] list[i],
        columns_of(sc.slots),
        room_of(sc, b),
    ) by {
        assert(refers_in(sc, a, list[i]));
        lemma_grown(sc, a, b, list[i]);
    }
}

proof fn lemma_list_push(sc: ScopeView, a: StateView, b: StateView, list: Seq<ExprView>, e: ExprView)
    requires
        list_refers(list, columns_of(sc.slots), room_of(sc, a)),
        grows(sc, a, b),
        refers_in(sc, b, e),
    ensures
        list_refers(list.push(e), columns_of(sc.slots), room_of(sc, b)),
{
    lemma_list_grown(sc, a, b, list);
    let more = list.push(e);
    assert forall|i: int| 0 <= i < more.len() implies refers(
        #[trigger] more[i],
        columns_of(sc.slots),
        room_of(sc, b),
    ) by {
        if i < list.len() {
            assert(more[i] == list[i]);
        }
    }
}

proof fn lemma_candidates(
    cx: Env<'_>,
    sc: ScopeView,
    st: StateView,
    m: Mode,
    operand: ExprView,
    list: Vec<SqlExpr>,
    i: int,
    acc: Seq<ExprView>,
)
    requires
        countable_in(sc, st) ==> list_refers(acc, columns_of(sc.slots), room_of(sc, st)),
    ensures
        sound_list(sc, st, bind_candidates_of(cx, sc, st, m, operand, list, i, acc)),
    decreases list, 0int, list@.len() - i,
{
    if 0 <= i < list@.len() {
        bound_expressions_are_resolved(cx, sc, st, m, list@[i]);
        match bind_of(cx, sc, st, m, list@[i]) {
            Ok((b, st2)) => {
                if countable_in(sc, st2) {
                    lemma_list_push(sc, st, st2, acc, b);
                }
                lemma_candidates(cx, sc, st2, m, operand, list, i + 1, acc.push(b));
            },
            Err(_) => {},
        }
    }
}

proof fn lemma_between(cx: Env<'_>, sc: ScopeView, st: StateView, m: Mode, e: SqlExpr)
    requires
        e.node is Between,
    ensures
        sound_bound(sc, st, bind_between_of(cx, sc, st, m, e)),
    decreases e, 4int, 0int,
{
    match e.node {
        SqlNode::Between { expr, negated, low, high } => {
            bound_expressions_are_resolved(cx, sc, st, m, *expr);
            match bind_of(cx, sc, st, m, *expr) {
                Ok((b, st2)) => {
                    bound_expressions_are_resolved(cx, sc, st2, m, *low);
                    match bind_of(cx, sc, st2, m, *low) {
                        Ok((l, st3)) => {
                            bound_expressions_are_resolved(cx, sc, st3, m, *high);
                            match bind_of(cx, sc, st3, m, *high) {
                                Ok((h, st4)) => {
                                    if countable_in(sc, st4) {
                                        lemma_grown(sc, st2, st4, b);
                                        lemma_grown(sc, st3, st4, l);
                                    }
                                },
                                Err(_) => {},
                            }
                        },
                        Err(_) => {},
                    }
                },
                Err(_) => {},
            }
        },
        _ => {},
    }
}

/// Whether the branches of a `CASE` refer soundly.
spec fn branches_refer(sc: ScopeView, st: StateView, list: Seq<(ExprView, ExprView)>) -> bool {
    forall|i: int|
        0 <= i < list.len() ==> refers_in(sc, st, (#[trigger] list[i]).0) && refers_in(
            sc,
            st,
            list[i].1,
        )
}

proof fn lemma_branches_grown(
    sc: ScopeView,
    a: StateView,
    b: StateView,
    list: Seq<(ExprView, ExprView)>,
)
    requires
        branches_refer(sc, a, list),
        grows(sc, a, b),
    ensures
        branches_refer(sc, b, list),
{
    assert forall|i: int| 0 <= i < list.len() implies refers_in(sc, b, (#[trigger] list[i]).0)
        && refers_in(sc, b, list[i].1) by {
        lemma_grown(sc, a, b, list[i].0);
        lemma_grown(sc, a, b, list[i].1);
    }
}

proof fn lemma_branches(
    cx: Env<'_>,
    sc: ScopeView,
    st: StateView,
    m: Mode,
    operand: Option<ExprView>,
    list: Vec<CaseWhen>,
    i: int,
    acc: Seq<(ExprView, ExprView)>,
)
    requires
        countable_in(sc, st) ==> branches_refer(sc, st, acc),
    ensures
        bind_branches_of(cx, sc, st, m, operand, list, i, acc) matches Ok(x) ==> grows(sc, st, x.1)
            && (countable_in(sc, x.1) ==> branches_refer(sc, x.1, x.0)),
    decreases list, 0int, list@.len() - i,
{
    if 0 <= i < list@.len() {
        bound_expressions_are_resolved(cx, sc, st, m, list@[i].condition);
        match bind_of(cx, sc, st, m, list@[i].condition) {
            Ok((c, st2)) => {
                bound_expressions_are_resolved(cx, sc, st2, m, list@[i].result);
                match bind_of(cx, sc, st2, m, list@[i].result) {
                    Ok((r, st3)) => {
                        let more = acc.push((c, r));
                        if countable_in(sc, st3) {
                            lemma_branches_grown(sc, st, st3, acc);
                            lemma_grown(sc, st2, st3, c);
                            assert forall|k: int| 0 <= k < more.len() implies refers_in(
                                sc,
                                st3,
                                (#[trigger] more[k]).0,
                            ) && refers_in(sc, st3, more[k].1) by {
                                if k < acc.len() {
                                    assert(more[k] == acc[k]);
                                }
                            }
                        }
                        lemma_branches(cx, sc, st3, m, operand, list, i + 1, more);
                    },
                    Err(_) => {},
                }
            },
            Err(_) => {},
        }
    }
}

proof fn lemma_option(
    cx: Env<'_>,
    sc: ScopeView,
    st: StateView,
    m: Mode,
    e: Option<Box<SqlExpr>>,
)
    ensures
        bind_option_of(cx, sc, st, m, e) matches Ok(x) ==> grows(sc, st, x.1) && (countable_in(sc, x.1)
            ==> (x.0 matches Some(b) ==> refers_in(sc, x.1, b))),
    decreases e, 0int, 0int,
{
    match e {
        None => {},
        Some(x) => {
            bound_expressions_are_resolved(cx, sc, st, m, *x);
        },
    }
}

proof fn lemma_case(cx: Env<'_>, sc: ScopeView, st: StateView, m: Mode, e: SqlExpr)
    requires
        e.node is Case,
    ensures
        sound_bound(sc, st, bind_case_of(cx, sc, st, m, e)),
    decreases e, 4int, 0int,
{
    match e.node {
        SqlNode::Case { operand, conditions, else_result } => {
            lemma_option(cx, sc, st, m, operand);
            match bind_option_of(cx, sc, st, m, operand) {
                Ok((o, st2)) => {
                    lemma_branches(cx, sc, st2, m, o, conditions, 0, Seq::empty());
                    match bind_branches_of(cx, sc, st2, m, o, conditions, 0, Seq::empty()) {
                        Ok((branches, st3)) => {
                            lemma_option(cx, sc, st3, m, else_result);
                            match bind_option_of(cx, sc, st3, m, else_result) {
                                Ok((last, st4)) => {
                                    if countable_in(sc, st4) {
                                        lemma_branches_grown(sc, st3, st4, branches);
                                        match o {
                                            Some(x) => {
                                                lemma_grown(sc, st2, st4, x);
                                            },
                                            None => {},
                                        }
                                        match case_expr(o, branches, last) {
                                            Ok(x) => {
                                                assert forall|i: int| 0 <= i < branches.len() implies refers(
                                                    (#[trigger] branches[i]).0,
                                                    columns_of(sc.slots),
                                                    room_of(sc, st4),
                                                ) && refers(
                                                    branches[i].1,
                                                    columns_of(sc.slots),
                                                    room_of(sc, st4),
                                                ) by {
                                                    assert(refers_in(sc, st4, branches[i].0));
                                                }
                                                assert(refers_in(sc, st4, x));
                                            },
                                            Err(_) => {},
                                        }
                                    }
                                },
                                Err(_) => {},
                            }
                        },
                        Err(_) => {},
                    }
                },
                Err(_) => {},
            }
        },
        _ => {},
    }
}

proof fn lemma_args(
    cx: Env<'_>,
    sc: ScopeView,
    st: StateView,
    m: Mode,
    args: Vec<FunctionArg>,
    name: Seq<char>,
    i: int,
    acc: Seq<ExprView>,
)
    requires
        countable_in(sc, st) ==> list_refers(acc, columns_of(sc.slots), room_of(sc, st)),
    ensures
        sound_list(sc, st, bind_args_of(cx, sc, st, m, args, name, i, acc)),
    decreases args, 0int, args@.len() - i,
{
    if 0 <= i < args@.len() {
        match args@[i] {
            FunctionArg::Expr(e) => {
                bound_expressions_are_resolved(cx, sc, st, m, e);
                match bind_of(cx, sc, st, m, e) {
                    Ok((b, st2)) => {
                        if countable_in(sc, st2) {
                            lemma_list_push(sc, st, st2, acc, b);
                        }
                        lemma_args(cx, sc, st2, m, args, name, i + 1, acc.push(b));
                    },
                    Err(_) => {},
                }
            },
            _ => {},
        }
    }
}

proof fn lemma_function(cx: Env<'_>, sc: ScopeView, st: StateView, m: Mode, f: Function)
    ensures
        sound_bound(sc, st, bind_function_of(cx, sc, st, m, f)),
    decreases f, 9int, 0int,
{
    match crate::names::single_name(f.name) {
        Err(_) => {},
        Ok(written) => {
            if f.over is Some {
                lemma_window(cx, sc, st, m, f, crate::text::upper(written));
            } else {
                lemma_call(cx, sc, st, m, f, crate::text::upper(written));
            }
        },
    }
}

proof fn lemma_call(
    cx: Env<'_>,
    sc: ScopeView,
    st: StateView,
    m: Mode,
    f: Function,
    name: Seq<char>,
)
    ensures
        sound_bound(sc, st, bind_call_of(cx, sc, st, m, f, name)),
    decreases f, 8int, 0int,
{
    match f.args {
        FunctionArguments::List(list) => {
            let distinct = list.duplicates == Some(crate::sql::DuplicateTreatment::Distinct);
            match aggregate_named(name) {
                Some(agg) => {
                    lemma_aggregate(cx, sc, st, m, agg, distinct, list.args, name);
                },
                None => {
                    lemma_args(cx, sc, st, m, list.args, name, 0, Seq::empty());
                },
            }
        },
        _ => {},
    }
}

proof fn lemma_aggregate_ref(sc: ScopeView, st: StateView, spec: crate::expr::AggregateView)
    requires
        sc.allow_aggregates,
    ensures
        sound_bound(sc, st, Ok(aggregate_ref(st, spec))),
{
    lemma_first_at(st.aggregates, crate::model_calls::same_aggregate(spec), 0);
}

proof fn lemma_aggregate(
    cx: Env<'_>,
    sc: ScopeView,
    st: StateView,
    m: Mode,
    func: crate::expr::AggFn,
    distinct: bool,
    args: Vec<FunctionArg>,
    name: Seq<char>,
)
    ensures
        sound_bound(sc, st, bind_aggregate_of(cx, sc, st, m, func, distinct, args, name)),
    decreases args, 1int, 0int,
{
    if sc.allow_aggregates && args@.len() == 1 {
        match args@[0] {
            FunctionArg::Wildcard => {
                lemma_aggregate_ref(sc, st, count_star());
            },
            FunctionArg::Expr(e) => {
                let inside = Mode { in_aggregate: true, in_window: m.in_window };
                bound_expressions_are_resolved(cx, sc, st, inside, e);
                match bind_of(cx, sc, st, inside, e) {
                    Ok((arg, st2)) => match aggregate_type(func, arg, name) {
                        Ok((data_type, nullable)) => {
                            lemma_aggregate_ref(
                                sc,
                                st2,
                                crate::expr::AggregateView {
                                    func,
                                    distinct,
                                    arg: Some(arg),
                                    data_type,
                                    nullable,
                                    name: crate::model_calls::aggregate_display(
                                        name,
                                        distinct,
                                        e.text@,
                                    ),
                                },
                            );
                        },
                        Err(_) => {},
                    },
                    Err(_) => {},
                }
            },
            FunctionArg::Other => {},
        }
    }
}

/// Whether every argument is an expression.
spec fn only_exprs(args: Seq<FunctionArg>) -> bool {
    forall|i: int| 0 <= i < args.len() ==> (#[trigger] args[i]) is Expr
}

proof fn lemma_plain_args(args: Seq<FunctionArg>, name: Seq<char>, i: int)
    requires
        0 <= i,
        crate::model_calls::plain_args_check(args, name, i) is Ok,
    ensures
        forall|k: int| i <= k < args.len() ==> (#[trigger] args[k]) is Expr,
    decreases args.len() - i,
{
    if i < args.len() {
        lemma_plain_args(args, name, i + 1);
    }
}

/// Whether the head of a window function, if there is one, collects only more.
spec fn sound_head(sc: ScopeView, st: StateView, r: Result<HeadView, ErrorView>) -> bool {
    r matches Ok(h) ==> grows(sc, st, h.st)
}

proof fn lemma_lag(
    cx: Env<'_>,
    sc: ScopeView,
    st: StateView,
    m: Mode,
    args: Vec<FunctionArg>,
    name: Seq<char>,
)
    requires
        only_exprs(args@),
    ensures
        sound_head(sc, st, window_lag_of(cx, sc, st, m, args, name)),
    decreases args, 1int, 0int,
{
    let inside = inside_window(m);
    if 1 <= args@.len() <= 3 {
        assert(args@[0] is Expr);
        match args@[0] {
            FunctionArg::Expr(e) => {
                bound_expressions_are_resolved(cx, sc, st, inside, e);
                match bind_of(cx, sc, st, inside, e) {
                    Ok((value, st2)) => {
                        lemma_lag_default(cx, sc, st2, m, args, name, value);
                    },
                    Err(_) => {},
                }
            },
            _ => {},
        }
    }
}

proof fn lemma_lag_default(
    cx: Env<'_>,
    sc: ScopeView,
    st: StateView,
    m: Mode,
    args: Vec<FunctionArg>,
    name: Seq<char>,
    value: ExprView,
)
    requires
        only_exprs(args@),
    ensures
        lag_default_of(cx, sc, st, m, args, name, value) matches Ok(x) ==> grows(sc, st, x.1),
    decreases args, 0int, 0int,
{
    if args@.len() > 2 {
        assert(args@[2] is Expr);
        match args@[2] {
            FunctionArg::Expr(d) => {
                bound_expressions_are_resolved(cx, sc, st, inside_window(m), d);
            },
            _ => {},
        }
    }
}

proof fn lemma_head(
    cx: Env<'_>,
    sc: ScopeView,
    st: StateView,
    m: Mode,
    args: Vec<FunctionArg>,
    name: Seq<char>,
)
    requires
        name != "COUNT"@ ==> only_exprs(args@),
    ensures
        sound_head(sc, st, window_head_of(cx, sc, st, m, args, name)),
    decreases args, 2int, 0int,
{
    let r = window_head_of(cx, sc, st, m, args, name);
    if name == "ROW_NUMBER"@ || name == "RANK"@ || name == "DENSE_RANK"@ {
        assert(r == crate::model_calls::numbering_head(name, args@.len(), st));
        assert(sound_head(sc, st, r));
    } else if name == "NTILE"@ {
        assert(r == crate::model_calls::ntile_head(name, args@, st));
        assert(sound_head(sc, st, r));
    } else if name == "LAG"@ || name == "LEAD"@ {
        assert(r == window_lag_of(cx, sc, st, m, args, name));
        reveal_strlit("LAG");
        reveal_strlit("LEAD");
        reveal_strlit("COUNT");
        assert(name.len() != "COUNT"@.len());
        lemma_lag(cx, sc, st, m, args, name);
    } else if name == "COUNT"@ {
        assert(r == window_count_of(cx, sc, st, m, args));
        lemma_window_value(cx, sc, st, m, args, name);
    } else if crate::model_calls::is_framed(name) {
        assert(r == window_value_of(cx, sc, st, m, args, name));
        lemma_window_value(cx, sc, st, m, args, name);
    } else {
        assert(sound_head(sc, st, r));
    }
}

proof fn lemma_window_value(
    cx: Env<'_>,
    sc: ScopeView,
    st: StateView,
    m: Mode,
    args: Vec<FunctionArg>,
    name: Seq<char>,
)
    ensures
        sound_head(sc, st, window_count_of(cx, sc, st, m, args)),
        only_exprs(args@) ==> sound_head(sc, st, window_value_of(cx, sc, st, m, args, name)),
    decreases args, 0int, 0int,
{
    if args@.len() == 1 {
        match args@[0] {
            FunctionArg::Expr(e) => {
                bound_expressions_are_resolved(cx, sc, st, inside_window(m), e);
            },
            _ => {},
        }
    }
}

proof fn lemma_list(
    cx: Env<'_>,
    sc: ScopeView,
    st: StateView,
    m: Mode,
    list: Vec<SqlExpr>,
    i: int,
    acc: Seq<ExprView>,
)
    ensures
        bind_list_of(cx, sc, st, m, list, i, acc) matches Ok(x) ==> grows(sc, st, x.1),
    decreases list, 0int, list@.len() - i,
{
    if 0 <= i < list@.len() {
        bound_expressions_are_resolved(cx, sc, st, m, list@[i]);
        match bind_of(cx, sc, st, m, list@[i]) {
            Ok((b, st2)) => {
                lemma_list(cx, sc, st2, m, list, i + 1, acc.push(b));
            },
            Err(_) => {},
        }
    }
}

proof fn lemma_window_order(
    cx: Env<'_>,
    sc: ScopeView,
    st: StateView,
    m: Mode,
    list: Vec<OrderByExpr>,
    i: int,
    acc: Seq<OrderView>,
)
    ensures
        bind_window_order_of(cx, sc, st, m, list, i, acc) matches Ok(x) ==> grows(sc, st, x.1),
    decreases list, 0int, list@.len() - i,
{
    if 0 <= i < list@.len() && !list@[i].with_fill {
        bound_expressions_are_resolved(cx, sc, st, m, list@[i].expr);
        match bind_of(cx, sc, st, m, list@[i].expr) {
            Ok((b, st2)) => {
                lemma_window_order(
                    cx,
                    sc,
                    st2,
                    m,
                    list,
                    i + 1,
                    acc.push(crate::model_expr::order_item(list@[i], b)),
                );
            },
            Err(_) => {},
        }
    }
}

proof fn lemma_value_bound(cx: Env<'_>, sc: ScopeView, st: StateView, m: Mode, b: FrameBound)
    ensures
        bind_value_bound_of(cx, sc, st, m, b) matches Ok(x) ==> grows(sc, st, x.1),
    decreases b, 0int, 0int,
{
    match b {
        FrameBound::Preceding(Some(e)) => bound_expressions_are_resolved(cx, sc, st, m, *e),
        FrameBound::Following(Some(e)) => bound_expressions_are_resolved(cx, sc, st, m, *e),
        _ => {},
    }
}

proof fn lemma_end_bound(cx: Env<'_>, sc: ScopeView, st: StateView, m: Mode, b: Option<FrameBound>)
    ensures
        bind_end_bound_of(cx, sc, st, m, b) matches Ok(x) ==> grows(sc, st, x.1),
    decreases b, 0int, 0int,
{
    match b {
        Some(x) => lemma_value_bound(cx, sc, st, m, x),
        None => {},
    }
}

proof fn lemma_range(
    cx: Env<'_>,
    sc: ScopeView,
    st: StateView,
    m: Mode,
    f: SqlFrame,
    order_by: Seq<OrderView>,
)
    ensures
        bind_range_of(cx, sc, st, m, f, order_by) matches Ok(x) ==> grows(sc, st, x.1),
    decreases f, 0int, 0int,
{
    lemma_value_bound(cx, sc, st, m, f.start);
    match bind_value_bound_of(cx, sc, st, m, f.start) {
        Ok((start, st2)) => {
            lemma_end_bound(cx, sc, st2, m, f.end);
        },
        Err(_) => {},
    }
}

proof fn lemma_frame(
    cx: Env<'_>,
    sc: ScopeView,
    st: StateView,
    m: Mode,
    frame: Option<SqlFrame>,
    order_by: Seq<OrderView>,
)
    ensures
        bind_frame_of(cx, sc, st, m, frame, order_by) matches Ok(x) ==> grows(sc, st, x.1),
    decreases frame, 0int, 0int,
{
    match frame {
        Some(f) => lemma_range(cx, sc, st, m, f, order_by),
        None => {},
    }
}

proof fn lemma_over(
    cx: Env<'_>,
    sc: ScopeView,
    st: StateView,
    m: Mode,
    head: HeadView,
    name: Seq<char>,
    w: SqlWindow,
)
    requires
        grows(sc, st, head.st),
    ensures
        sound_bound(sc, st, bind_over_of(cx, sc, m, head, name, w)),
    decreases w, 0int, 0int,
{
    let inside = inside_window(m);
    lemma_list(cx, sc, head.st, inside, w.partition_by, 0, Seq::empty());
    match bind_list_of(cx, sc, head.st, inside, w.partition_by, 0, Seq::empty()) {
        Ok((partition_by, st2)) => {
            lemma_window_order(cx, sc, st2, inside, w.order_by, 0, Seq::empty());
            match bind_window_order_of(cx, sc, st2, inside, w.order_by, 0, Seq::empty()) {
                Ok((order_by, st3)) => {
                    lemma_frame(cx, sc, st3, inside, w.frame, order_by);
                },
                Err(_) => {},
            }
        },
        Err(_) => {},
    }
}

proof fn lemma_window(
    cx: Env<'_>,
    sc: ScopeView,
    st: StateView,
    m: Mode,
    f: Function,
    name: Seq<char>,
)
    requires
        f.over is Some,
    ensures
        sound_bound(sc, st, bind_window_of(cx, sc, st, m, f, name)),
    decreases f, 8int, 0int,
{
    if crate::model_calls::window_check(f.over) is Ok && crate::model_calls::window_list_check(
        f.args,
        name,
    ) is Ok {
        match (f.over, f.args) {
            (Some(WindowType::Spec(w)), FunctionArguments::List(list)) => {
                if crate::model_expr::window_args_check(list.args@, name) is Ok {
                    if name != "COUNT"@ {
                        lemma_plain_args(list.args@, name, 0);
                    }
                    lemma_head(cx, sc, st, m, list.args, name);
                    match window_head_of(cx, sc, st, m, list.args, name) {
                        Ok(head) => lemma_over(cx, sc, st, m, head, name, w),
                        Err(_) => {},
                    }
                }
            },
            _ => {},
        }
    }
}

} // verus!
