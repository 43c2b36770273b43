//! Laws of moved offsets: what rebasing and placing columns anew keep.

use crate::atoms::terms;
use crate::expr::{type_of, BinOp, ExprView};
use crate::laws_resolve::{refers, Room};
use crate::materialize::{
    always, remapped, remapped_branches, remapped_list, remapped_offset,
};
use crate::model_calls::{
    aggregate_named, operation, operator_of, window_check, window_list_check, Bound, Mode,
};
use crate::model_expr::{
    bind_aggregate_of, bind_between_of, bind_binary_of, bind_call_of, bind_case_of,
    bind_function_of, bind_like_of, bind_of, bind_over_of, bind_substring_of, bind_unary_of,
    bind_window_of, window_head_of,
};
use crate::names::{rebased, rebased_branches, rebased_list, single_name};
use crate::query::SlotView;
use crate::scope::{Env, ScopeView, StateView};
use crate::sql::{
    DuplicateTreatment, Function, FunctionArguments, SqlExpr, SqlNode, WindowType,
};
use crate::text::upper;
use crate::typing::operand_check;
use crate::value::{DataType, ErrorView};
use vstd::prelude::*;

verus! {

/// Whether `q` admits the columns that `p` admits, with slots moved up and offsets moved down.
pub open spec fn moves(
    p: spec_fn(usize, usize, usize) -> bool,
    q: spec_fn(usize, usize, usize) -> bool,
    down: usize,
    up: usize,
) -> bool {
    forall|s: usize, c: usize, o: usize|
        #[trigger] p(s, c, o) && s + up <= usize::MAX && o >= down ==> q(
            (s + up) as usize,
            c,
            (o - down) as usize,
        )
}

proof fn lemma_rebased_list(list: Seq<ExprView>, down: usize, up: usize, i: int, acc: Seq<ExprView>)
    requires
        0 <= i <= list.len(),
        acc.len() == i,
        rebased_list(list, down, up, i, acc) is Ok,
    ensures
        ({
            let r = rebased_list(list, down, up, i, acc)->Ok_0;
            &&& r.len() == list.len()
            &&& forall|k: int| 0 <= k < i ==> r[k] == acc[k]
            &&& forall|k: int|
                i <= k < list.len() ==> rebased(#[trigger] list[k], down, up) == Ok::<
                    ExprView,
                    ErrorView,
                >(r[k])
        }),
    decreases list.len() - i,
{
    if i < list.len() {
        let x = rebased(list[i], down, up)->Ok_0;
        lemma_rebased_list(list, down, up, i + 1, acc.push(x));
        let r = rebased_list(list, down, up, i, acc)->Ok_0;
        assert(r[i] == acc.push(x)[i]);
        assert forall|k: int| 0 <= k < i implies r[k] == acc[k] by {
            assert(r[k] == acc.push(x)[k]);
        }
    }
}

proof fn lemma_rebased_branches(
    list: Seq<(ExprView, ExprView)>,
    down: usize,
    up: usize,
    i: int,
    acc: Seq<(ExprView, ExprView)>,
)
    requires
        0 <= i <= list.len(),
        acc.len() == i,
        rebased_branches(list, down, up, i, acc) is Ok,
    ensures
        ({
            let r = rebased_branches(list, down, up, i, acc)->Ok_0;
            &&& r.len() == list.len()
            &&& forall|k: int| 0 <= k < i ==> r[k] == acc[k]
            &&& forall|k: int|
                i <= k < list.len() ==> {
                    &&& rebased((#[trigger] list[k]).0, down, up) == Ok::<ExprView, ErrorView>(
                        r[k].0,
                    )
                    &&& rebased(list[k].1, down, up) == Ok::<ExprView, ErrorView>(r[k].1)
                }
        }),
    decreases list.len() - i,
{
    if i < list.len() {
        let x = (rebased(list[i].0, down, up)->Ok_0, rebased(list[i].1, down, up)->Ok_0);
        lemma_rebased_branches(list, down, up, i + 1, acc.push(x));
        let r = rebased_branches(list, down, up, i, acc)->Ok_0;
        assert(r[i] == acc.push(x)[i]);
        assert forall|k: int| 0 <= k < i implies r[k] == acc[k] by {
            assert(r[k] == acc.push(x)[k]);
        }
    }
}

/// A rebased expression refers to the same columns by their new slots and offsets.
pub proof fn rebased_expressions_refer_alike(
    e: ExprView,
    p: spec_fn(usize, usize, usize) -> bool,
    q: spec_fn(usize, usize, usize) -> bool,
    n: Room,
    down: usize,
    up: usize,
)
    requires
        refers(e, p, n),
        moves(p, q, down, up),
        rebased(e, down, up) is Ok,
    ensures
        refers(rebased(e, down, up)->Ok_0, q, n),
    decreases e,
{
    match e {
        ExprView::InSubquery { expr, .. } => rebased_expressions_refer_alike(
            *expr,
            p,
            q,
            n,
            down,
            up,
        ),
        ExprView::BinaryOp { left, right, .. } => {
            rebased_expressions_refer_alike(*left, p, q, n, down, up);
            rebased_expressions_refer_alike(*right, p, q, n, down, up);
        },
        ExprView::Not(x) => rebased_expressions_refer_alike(*x, p, q, n, down, up),
        ExprView::Negate(x) => rebased_expressions_refer_alike(*x, p, q, n, down, up),
        ExprView::IsNull(x) => rebased_expressions_refer_alike(*x, p, q, n, down, up),
        ExprView::IsNotNull(x) => rebased_expressions_refer_alike(*x, p, q, n, down, up),
        ExprView::Like { expr, pattern, .. } => {
            rebased_expressions_refer_alike(*expr, p, q, n, down, up);
            rebased_expressions_refer_alike(*pattern, p, q, n, down, up);
        },
        ExprView::In { expr, list, .. } => {
            rebased_expressions_refer_alike(*expr, p, q, n, down, up);
            lemma_rebased_list(list, down, up, 0, Seq::empty());
            let r = rebased_list(list, down, up, 0, Seq::empty())->Ok_0;
            assert forall|i: int| 0 <= i < r.len() implies refers(#[trigger] r[i], q, n) by {
                assert(refers(list[i], p, n));
                rebased_expressions_refer_alike(list[i], p, q, n, down, up);
            }
        },
        ExprView::Between { expr, low, high, .. } => {
            rebased_expressions_refer_alike(*expr, p, q, n, down, up);
            rebased_expressions_refer_alike(*low, p, q, n, down, up);
            rebased_expressions_refer_alike(*high, p, q, n, down, up);
        },
        ExprView::Case { operand, branches, else_result, .. } => {
            match operand {
                Some(x) => rebased_expressions_refer_alike(*x, p, q, n, down, up),
                None => {},
            }
            match else_result {
                Some(x) => rebased_expressions_refer_alike(*x, p, q, n, down, up),
                None => {},
            }
            lemma_rebased_branches(branches, down, up, 0, Seq::empty());
            let r = rebased_branches(branches, down, up, 0, Seq::empty())->Ok_0;
            assert forall|i: int| 0 <= i < r.len() implies refers((#[trigger] r[i]).0, q, n)
                && refers(r[i].1, q, n) by {
                assert(refers(branches[i].0, p, n));
                rebased_expressions_refer_alike(branches[i].0, p, q, n, down, up);
                rebased_expressions_refer_alike(branches[i].1, p, q, n, down, up);
            }
        },
        ExprView::Cast { expr, .. } => rebased_expressions_refer_alike(*expr, p, q, n, down, up),
        ExprView::CalendarInterval { expr, quantity, .. } => {
            rebased_expressions_refer_alike(*expr, p, q, n, down, up);
            rebased_expressions_refer_alike(*quantity, p, q, n, down, up);
        },
        ExprView::ScalarFunction { args, .. } => {
            lemma_rebased_list(args, down, up, 0, Seq::empty());
            let r = rebased_list(args, down, up, 0, Seq::empty())->Ok_0;
            assert forall|i: int| 0 <= i < r.len() implies refers(#[trigger] r[i], q, n) by {
                assert(refers(args[i], p, n));
                rebased_expressions_refer_alike(args[i], p, q, n, down, up);
            }
        },
        _ => {},
    }
}

proof fn lemma_same_list(
    list: Seq<ExprView>,
    slots: Seq<SlotView>,
    layout: Seq<usize>,
    i: int,
    acc: Seq<ExprView>,
)
    requires
        0 <= i <= list.len(),
        acc == list.take(i),
        forall|k: int|
            0 <= k < list.len() ==> remapped(#[trigger] list[k], slots, layout) == Ok::<
                ExprView,
                ErrorView,
            >(list[k]),
    ensures
        remapped_list(list, slots, layout, i, acc) == Ok::<Seq<ExprView>, ErrorView>(list),
    decreases list.len() - i,
{
    if i < list.len() {
        assert(acc.push(list[i]) =~= list.take(i + 1));
        lemma_same_list(list, slots, layout, i + 1, acc.push(list[i]));
    } else {
        assert(acc =~= list);
    }
}

proof fn lemma_same_branches(
    list: Seq<(ExprView, ExprView)>,
    slots: Seq<SlotView>,
    layout: Seq<usize>,
    i: int,
    acc: Seq<(ExprView, ExprView)>,
)
    requires
        0 <= i <= list.len(),
        acc == list.take(i),
        forall|k: int|
            0 <= k < list.len() ==> {
                &&& remapped((#[trigger] list[k]).0, slots, layout) == Ok::<ExprView, ErrorView>(
                    list[k].0,
                )
                &&& remapped(list[k].1, slots, layout) == Ok::<ExprView, ErrorView>(list[k].1)
            },
    ensures
        remapped_branches(list, slots, layout, i, acc) == Ok::<
            Seq<(ExprView, ExprView)>,
            ErrorView,
        >(list),
    decreases list.len() - i,
{
    if i < list.len() {
        assert((list[i].0, list[i].1) == list[i]);
        assert(acc.push(list[i]) =~= list.take(i + 1));
        lemma_same_branches(list, slots, layout, i + 1, acc.push(list[i]));
    } else {
        assert(acc =~= list);
    }
}

/// An expression whose columns have the offsets that a layout gives them is placed by that layout.
pub proof fn placed_expressions_stay(
    e: ExprView,
    p: spec_fn(usize, usize, usize) -> bool,
    n: Room,
    slots: Seq<SlotView>,
    layout: Seq<usize>,
)
    requires
        refers(e, p, n),
        forall|s: usize, c: usize, o: usize| #[trigger]
            p(s, c, o) ==> remapped_offset(s, c, slots, layout) == Ok::<usize, ErrorView>(o),
    ensures
        remapped(e, slots, layout) == Ok::<ExprView, ErrorView>(e),
    decreases e,
{
    match e {
        ExprView::InSubquery { expr, .. } => placed_expressions_stay(*expr, p, n, slots, layout),
        ExprView::BinaryOp { left, right, .. } => {
            placed_expressions_stay(*left, p, n, slots, layout);
            placed_expressions_stay(*right, p, n, slots, layout);
        },
        ExprView::Not(x) => placed_expressions_stay(*x, p, n, slots, layout),
        ExprView::Negate(x) => placed_expressions_stay(*x, p, n, slots, layout),
        ExprView::IsNull(x) => placed_expressions_stay(*x, p, n, slots, layout),
        ExprView::IsNotNull(x) => placed_expressions_stay(*x, p, n, slots, layout),
        ExprView::Like { expr, pattern, .. } => {
            placed_expressions_stay(*expr, p, n, slots, layout);
            placed_expressions_stay(*pattern, p, n, slots, layout);
        },
        ExprView::In { expr, list, .. } => {
            placed_expressions_stay(*expr, p, n, slots, layout);
            assert forall|k: int| 0 <= k < list.len() implies remapped(
                #[trigger] list[k],
                slots,
                layout,
            ) == Ok::<ExprView, ErrorView>(list[k]) by {
                placed_expressions_stay(list[k], p, n, slots, layout);
            }
            assert(list.take(0) =~= Seq::empty());
            lemma_same_list(list, slots, layout, 0, Seq::empty());
        },
        ExprView::Between { expr, low, high, .. } => {
            placed_expressions_stay(*expr, p, n, slots, layout);
            placed_expressions_stay(*low, p, n, slots, layout);
            placed_expressions_stay(*high, p, n, slots, layout);
        },
        ExprView::Case { operand, branches, else_result, .. } => {
            match operand {
                Some(x) => placed_expressions_stay(*x, p, n, slots, layout),
                None => {},
            }
            match else_result {
                Some(x) => placed_expressions_stay(*x, p, n, slots, layout),
                None => {},
            }
            assert forall|k: int| 0 <= k < branches.len() implies {
                &&& remapped((#[trigger] branches[k]).0, slots, layout) == Ok::<
                    ExprView,
                    ErrorView,
                >(branches[k].0)
                &&& remapped(branches[k].1, slots, layout) == Ok::<ExprView, ErrorView>(
                    branches[k].1,
                )
            } by {
                placed_expressions_stay(branches[k].0, p, n, slots, layout);
                placed_expressions_stay(branches[k].1, p, n, slots, layout);
            }
            assert(branches.take(0) =~= Seq::empty());
            lemma_same_branches(branches, slots, layout, 0, Seq::empty());
        },
        ExprView::Cast { expr, .. } => placed_expressions_stay(*expr, p, n, slots, layout),
        ExprView::CalendarInterval { expr, quantity, .. } => {
            placed_expressions_stay(*expr, p, n, slots, layout);
            placed_expressions_stay(*quantity, p, n, slots, layout);
        },
        ExprView::ScalarFunction { args, .. } => {
            assert forall|k: int| 0 <= k < args.len() implies remapped(
                #[trigger] args[k],
                slots,
                layout,
            ) == Ok::<ExprView, ErrorView>(args[k]) by {
                placed_expressions_stay(args[k], p, n, slots, layout);
            }
            assert(args.take(0) =~= Seq::empty());
            lemma_same_list(args, slots, layout, 0, Seq::empty());
        },
        _ => {},
    }
}

/// Whether no operand of a conjunction is the number one.
pub open spec fn no_bare_number(e: ExprView) -> bool
    decreases e,
{
    match e {
        ExprView::BinaryOp { op: BinOp::And, left, right } => *left != always() && *right
            != always() && no_bare_number(*left) && no_bare_number(*right),
        _ => true,
    }
}

/// No term of a condition is the number one.
pub proof fn lemma_terms_no_bare_number(e: ExprView)
    requires
        no_bare_number(e),
        e != always(),
    ensures
        forall|i: int| 0 <= i < terms(e).len() ==> #[trigger] terms(e)[i] != always(),
    decreases e,
{
    match e {
        ExprView::BinaryOp { op: BinOp::And, left, right } => {
            lemma_terms_no_bare_number(*left);
            lemma_terms_no_bare_number(*right);
            let l = terms(*left);
            let r = terms(*right);
            assert forall|i: int| 0 <= i < terms(e).len() implies #[trigger] terms(e)[i]
                != always() by {
                if i < l.len() {
                    assert(terms(e)[i] == l[i]);
                } else {
                    assert(terms(e)[i] == r[i - l.len()]);
                }
            }
        },
        _ => {},
    }
}

/// Rebasing makes no number out of anything else.
pub proof fn lemma_rebased_no_bare_number(e: ExprView, down: usize, up: usize)
    requires
        rebased(e, down, up) is Ok,
    ensures
        rebased(e, down, up)->Ok_0 == always() ==> e == always(),
        no_bare_number(e) ==> no_bare_number(rebased(e, down, up)->Ok_0),
    decreases e,
{
    match e {
        ExprView::BinaryOp { op, left, right } => {
            lemma_rebased_no_bare_number(*left, down, up);
            lemma_rebased_no_bare_number(*right, down, up);
        },
        _ => {},
    }
}

/// Whether a bound expression, if there is one, is no conjunction.
spec fn no_conjunction(r: Bound) -> bool {
    r matches Ok(x) ==> !(x.0 matches ExprView::BinaryOp { op: BinOp::And, .. })
}

proof fn lemma_call_root(
    cx: Env<'_>,
    sc: ScopeView,
    st: StateView,
    m: Mode,
    f: Function,
    name: Seq<char>,
)
    ensures
        no_conjunction(bind_call_of(cx, sc, st, m, f, name)),
{
    match f.args {
        FunctionArguments::List(list) => {
            let distinct = list.duplicates == Some(DuplicateTreatment::Distinct);
            match aggregate_named(name) {
                Some(agg) => {
                    assert(no_conjunction(
                        bind_aggregate_of(cx, sc, st, m, agg, distinct, list.args, name),
                    ));
                },
                None => {},
            }
        },
        _ => {},
    }
}

proof fn lemma_window_root(
    cx: Env<'_>,
    sc: ScopeView,
    st: StateView,
    m: Mode,
    f: Function,
    name: Seq<char>,
)
    requires
        f.over is Some,
    ensures
        no_conjunction(bind_window_of(cx, sc, st, m, f, name)),
{
    if window_check(f.over) is Ok && window_list_check(f.args, name) is Ok {
        match (f.over, f.args) {
            (Some(WindowType::Spec(w)), FunctionArguments::List(list)) => {
                match window_head_of(cx, sc, st, m, list.args, name) {
                    Ok(head) => {
                        assert(no_conjunction(bind_over_of(cx, sc, m, head, name, w)));
                    },
                    Err(_) => {},
                }
            },
            _ => {},
        }
    }
}

proof fn lemma_function_root(cx: Env<'_>, sc: ScopeView, st: StateView, m: Mode, f: Function)
    ensures
        no_conjunction(bind_function_of(cx, sc, st, m, f)),
{
    match single_name(f.name) {
        Err(_) => {},
        Ok(written) => {
            if f.over is Some {
                lemma_window_root(cx, sc, st, m, f, upper(written));
            } else {
                lemma_call_root(cx, sc, st, m, f, upper(written));
            }
        },
    }
}

proof fn lemma_parts_root(cx: Env<'_>, sc: ScopeView, st: StateView, m: Mode, e: SqlExpr)
    ensures
        e.node is Substring ==> no_conjunction(bind_substring_of(cx, sc, st, m, e)),
        e.node is Like ==> no_conjunction(bind_like_of(cx, sc, st, m, e)),
        e.node is Between ==> no_conjunction(bind_between_of(cx, sc, st, m, e)),
        e.node is Case ==> no_conjunction(bind_case_of(cx, sc, st, m, e)),
{
}

proof fn lemma_names_root(cx: Env<'_>, sc: ScopeView, st: StateView, m: Mode, e: SqlExpr)
    requires
        sc.visible is None,
        e.node is Identifier || e.node is CompoundIdentifier,
    ensures
        no_conjunction(bind_of(cx, sc, st, m, e)),
{
}

proof fn lemma_other_root(cx: Env<'_>, sc: ScopeView, st: StateView, m: Mode, e: SqlExpr)
    requires
        sc.visible is None,
        !(e.node is Nested || e.node is UnaryOp || e.node is BinaryOp),
    ensures
        no_conjunction(bind_of(cx, sc, st, m, e)),
{
    match e.node {
        SqlNode::Identifier(_) => lemma_names_root(cx, sc, st, m, e),
        SqlNode::CompoundIdentifier(_) => lemma_names_root(cx, sc, st, m, e),
        SqlNode::Function(f) => lemma_function_root(cx, sc, st, m, *f),
        SqlNode::Substring { .. } => lemma_parts_root(cx, sc, st, m, e),
        SqlNode::Like { .. } => lemma_parts_root(cx, sc, st, m, e),
        SqlNode::Between { .. } => lemma_parts_root(cx, sc, st, m, e),
        SqlNode::Case { .. } => lemma_parts_root(cx, sc, st, m, e),
        _ => {},
    }
}

/// A conjunction that binding made has no number among its operands.
proof fn lemma_operation_no_bare_number(op: BinOp, l: ExprView, r: ExprView)
    requires
        no_bare_number(l),
        no_bare_number(r),
    ensures
        operation(op, l, r) matches Ok(x) ==> no_bare_number(x),
{
    if op == BinOp::And {
        assert(!op.comparison());
        if operand_check(op, type_of(l), type_of(r)) is Ok {
            assert(type_of(always()).data_type == DataType::Int64);
        }
    }
}

/// A bound conjunction has no number among its operands.
pub proof fn lemma_bound_no_bare_number(
    cx: Env<'_>,
    sc: ScopeView,
    st: StateView,
    m: Mode,
    e: SqlExpr,
)
    requires
        sc.visible is None,
    ensures
        bind_of(cx, sc, st, m, e) matches Ok(x) ==> no_bare_number(x.0),
    decreases e,
{
    match e.node {
        SqlNode::Nested(inner) => lemma_bound_no_bare_number(cx, sc, st, m, *inner),
        SqlNode::UnaryOp { op, expr } => {
            lemma_bound_no_bare_number(cx, sc, st, m, *expr);
            assert(bind_of(cx, sc, st, m, e) == bind_unary_of(cx, sc, st, m, op, *expr));
        },
        SqlNode::BinaryOp { left, op, right } => {
            assert(bind_of(cx, sc, st, m, e) == bind_binary_of(cx, sc, st, m, e));
            lemma_bound_no_bare_number(cx, sc, st, m, *left);
            match bind_of(cx, sc, st, m, *left) {
                Ok((l, st2)) => {
                    lemma_bound_no_bare_number(cx, sc, st2, m, *right);
                    match (operator_of(op), bind_of(cx, sc, st2, m, *right)) {
                        (Ok(o), Ok((r, _))) => {
                            lemma_operation_no_bare_number(o, l, r);
                        },
                        _ => {},
                    }
                },
                Err(_) => {},
            }
        },
        _ => {
            lemma_other_root(cx, sc, st, m, e);
        },
    }
}

} // verus!
