//! Laws of layouts: a predicate means the same wherever its columns are looked up.

use crate::atoms::terms;
use crate::eval::{case_of, eval_list_of, eval_of, in_list_of};
use crate::expr::{branch_nodes, list_nodes, nodes, BinOp, ExprView};
use crate::lists::{lemma_place_of, place_of};
use crate::materialize::{
    remapped, remapped_branches, remapped_list, remapped_offset, width_before,
};
use crate::meaning::World;
use crate::query::SlotView;
use crate::value::{DataType, ErrorView, ValueView};
use vstd::prelude::*;

verus! {

/// The rows of the first slots of a layout have as many values as those slots have columns.
proof fn lemma_width(w: World, layout: Seq<usize>, n: int, a: spec_fn(usize) -> Option<int>)
    requires
        w.fits(),
        0 <= n <= layout.len(),
        width_before(w.slots, layout, n) is Ok,
    ensures
        w.flat(layout.take(n), a).len() == width_before(w.slots, layout, n)->Ok_0,
    decreases n,
{
    if n > 0 {
        lemma_width(w, layout, n - 1, a);
        assert(layout.take(n).drop_last() =~= layout.take(n - 1));
        assert(layout.take(n).last() == layout[n - 1]);
    } else {
        assert(layout.take(n).len() == 0);
    }
}

/// The rows of a layout begin with those of its first slots.
proof fn lemma_flat_prefix(w: World, layout: Seq<usize>, n: int, a: spec_fn(usize) -> Option<int>)
    requires
        0 <= n <= layout.len(),
    ensures
        w.flat(layout.take(n), a).len() <= w.flat(layout, a).len(),
        forall|i: int|
            0 <= i < w.flat(layout.take(n), a).len() ==> w.flat(layout, a)[i] == w.flat(
                layout.take(n),
                a,
            )[i],
    decreases layout.len() - n,
{
    if n < layout.len() {
        lemma_flat_prefix(w, layout, n + 1, a);
        assert(layout.take(n + 1).drop_last() =~= layout.take(n));
    } else {
        assert(layout.take(n) =~= layout);
    }
}

/// A column lies at its offset.
proof fn lemma_column(
    w: World,
    layout: Seq<usize>,
    slot: usize,
    column: usize,
    a: spec_fn(usize) -> Option<int>,
)
    requires
        w.fits(),
        remapped_offset(slot, column, w.slots, layout) is Ok,
    ensures
        ({
            let offset = remapped_offset(slot, column, w.slots, layout)->Ok_0;
            &&& offset < w.flat(layout, a).len()
            &&& column < w.part(slot, a).len()
            &&& w.flat(layout, a)[offset as int] == w.part(slot, a)[column as int]
        }),
{
    lemma_place_of(layout, slot, 0);
    let k = place_of(layout, slot, 0)->0;
    lemma_width(w, layout, k, a);
    lemma_flat_prefix(w, layout, k + 1, a);
    assert(layout.take(k + 1).drop_last() =~= layout.take(k));
    assert(layout.take(k + 1).last() == slot);
    assert(w.part(slot, a).len() == w.slots[slot as int].columns().len());
}

/// Whether a node of an expression runs a subquery on the row that the expression is evaluated on.
pub open spec fn runs_on_row(e: ExprView) -> bool {
    match e {
        ExprView::ScalarSubquery { correlated, .. } => correlated,
        ExprView::InSubquery { correlated, .. } => correlated,
        ExprView::Exists { correlated, .. } => correlated,
        _ => false,
    }
}

/// Whether an expression holds a subquery that runs on the row that the expression is evaluated on.
pub open spec fn asks_for_row(e: ExprView) -> bool {
    exists|i: int| 0 <= i < nodes(e).len() && runs_on_row(#[trigger] nodes(e)[i])
}

/// Whether none of the nodes runs a subquery on the row.
spec fn plain(list: Seq<ExprView>) -> bool {
    forall|i: int| 0 <= i < list.len() ==> !runs_on_row(#[trigger] list[i])
}

proof fn lemma_plain_add(a: Seq<ExprView>, b: Seq<ExprView>)
    ensures
        plain(a + b) == (plain(a) && plain(b)),
{
    if plain(a + b) {
        assert forall|i: int| 0 <= i < a.len() implies !runs_on_row(#[trigger] a[i]) by {
            assert((a + b)[i] == a[i]);
        }
        assert forall|i: int| 0 <= i < b.len() implies !runs_on_row(#[trigger] b[i]) by {
            assert((a + b)[a.len() + i] == b[i]);
        }
    }
}

proof fn lemma_plain_list(list: Seq<ExprView>, n: int, i: int)
    requires
        0 <= i < n <= list.len(),
        plain(list_nodes(list, n)),
    ensures
        plain(nodes(list[i])),
    decreases n,
{
    lemma_plain_add(list_nodes(list, n - 1), nodes(list[n - 1]));
    if i < n - 1 {
        lemma_plain_list(list, n - 1, i);
    }
}

proof fn lemma_plain_branches(list: Seq<(ExprView, ExprView)>, n: int, i: int)
    requires
        0 <= i < n <= list.len(),
        plain(branch_nodes(list, n)),
    ensures
        plain(nodes(list[i].0)),
        plain(nodes(list[i].1)),
    decreases n,
{
    lemma_plain_add(branch_nodes(list, n - 1) + nodes(list[n - 1].0), nodes(list[n - 1].1));
    lemma_plain_add(branch_nodes(list, n - 1), nodes(list[n - 1].0));
    if i < n - 1 {
        lemma_plain_branches(list, n - 1, i);
    }
}

proof fn lemma_remapped_list(
    list: Seq<ExprView>,
    slots: Seq<SlotView>,
    layout: Seq<usize>,
    i: int,
    acc: Seq<ExprView>,
)
    requires
        0 <= i <= list.len(),
        acc.len() == i,
        remapped_list(list, slots, layout, i, acc) is Ok,
    ensures
        ({
            let r = remapped_list(list, slots, layout, i, acc)->Ok_0;
            &&& r.len() == list.len()
            &&& forall|k: int| 0 <= k < i ==> r[k] == acc[k]
            &&& forall|k: int|
                i <= k < list.len() ==> remapped(#[trigger] list[k], slots, layout) == Ok::<
                    ExprView,
                    ErrorView,
                >(r[k])
        }),
    decreases list.len() - i,
{
    if i < list.len() {
        let x = remapped(list[i], slots, layout)->Ok_0;
        lemma_remapped_list(list, slots, layout, i + 1, acc.push(x));
        let r = remapped_list(list, slots, layout, i, acc)->Ok_0;
        assert(r[i] == acc.push(x)[i]);
        assert forall|k: int| 0 <= k < i implies r[k] == acc[k] by {
            assert(r[k] == acc.push(x)[k]);
        }
    }
}

proof fn lemma_remapped_branches(
    list: Seq<(ExprView, ExprView)>,
    slots: Seq<SlotView>,
    layout: Seq<usize>,
    i: int,
    acc: Seq<(ExprView, ExprView)>,
)
    requires
        0 <= i <= list.len(),
        acc.len() == i,
        remapped_branches(list, slots, layout, i, acc) is Ok,
    ensures
        ({
            let r = remapped_branches(list, slots, layout, i, acc)->Ok_0;
            &&& r.len() == list.len()
            &&& forall|k: int| 0 <= k < i ==> r[k] == acc[k]
            &&& forall|k: int|
                i <= k < list.len() ==> {
                    &&& remapped((#[trigger] list[k]).0, slots, layout) == Ok::<
                        ExprView,
                        ErrorView,
                    >(r[k].0)
                    &&& remapped(list[k].1, slots, layout) == Ok::<ExprView, ErrorView>(r[k].1)
                }
        }),
    decreases list.len() - i,
{
    if i < list.len() {
        let x = (
            remapped(list[i].0, slots, layout)->Ok_0,
            remapped(list[i].1, slots, layout)->Ok_0,
        );
        lemma_remapped_branches(list, slots, layout, i + 1, acc.push(x));
        let r = remapped_branches(list, slots, layout, i, acc)->Ok_0;
        assert(r[i] == acc.push(x)[i]);
        assert forall|k: int| 0 <= k < i implies r[k] == acc[k] by {
            assert(r[k] == acc.push(x)[k]);
        }
    }
}

/// The value of an expression with its columns placed by a layout.
spec fn value_at(w: World, e: ExprView, layout: Seq<usize>, a: spec_fn(usize) -> Option<int>) -> Result<
    ValueView,
    ErrorView,
> {
    eval_of(remapped(e, w.slots, layout)->Ok_0, w.at(layout, a))
}

/// A predicate that runs no subquery on its row has one value, whatever layout its columns are
/// placed by.
pub proof fn moved_predicates_keep_their_values(
    w: World,
    e: ExprView,
    from: Seq<usize>,
    to: Seq<usize>,
    a: spec_fn(usize) -> Option<int>,
)
    requires
        w.fits(),
        !asks_for_row(e),
        remapped(e, w.slots, from) is Ok,
        remapped(e, w.slots, to) is Ok,
    ensures
        eval_of(remapped(e, w.slots, from)->Ok_0, w.at(from, a)) == eval_of(
            remapped(e, w.slots, to)->Ok_0,
            w.at(to, a),
        ),
{
    assert(plain(nodes(e)));
    lemma_value(w, e, from, to, a);
}

proof fn lemma_value(
    w: World,
    e: ExprView,
    from: Seq<usize>,
    to: Seq<usize>,
    a: spec_fn(usize) -> Option<int>,
)
    requires
        w.fits(),
        plain(nodes(e)),
        remapped(e, w.slots, from) is Ok,
        remapped(e, w.slots, to) is Ok,
    ensures
        value_at(w, e, from, a) == value_at(w, e, to, a),
    decreases e, 0int, 0int,
{
    assert(nodes(e)[0] == e);
    let below = nodes(e).skip(1);
    assert(nodes(e) =~= seq![e] + below);
    lemma_plain_add(seq![e], below);
    match e {
        ExprView::ColumnRef { slot, column, .. } => {
            lemma_column(w, from, slot, column, a);
            lemma_column(w, to, slot, column, a);
        },
        ExprView::BinaryOp { op, left, right } => {
            assert(below =~= nodes(*left) + nodes(*right));
            lemma_plain_add(nodes(*left), nodes(*right));
            lemma_value(w, *left, from, to, a);
            lemma_value(w, *right, from, to, a);
        },
        ExprView::Not(x) => {
            assert(below =~= nodes(*x));
            lemma_value(w, *x, from, to, a);
        },
        ExprView::Negate(x) => {
            assert(below =~= nodes(*x));
            lemma_value(w, *x, from, to, a);
        },
        ExprView::IsNull(x) => {
            assert(below =~= nodes(*x));
            lemma_value(w, *x, from, to, a);
        },
        ExprView::IsNotNull(x) => {
            assert(below =~= nodes(*x));
            lemma_value(w, *x, from, to, a);
        },
        ExprView::Like { expr, pattern, .. } => {
            assert(below =~= nodes(*expr) + nodes(*pattern));
            lemma_plain_add(nodes(*expr), nodes(*pattern));
            lemma_value(w, *expr, from, to, a);
            lemma_value(w, *pattern, from, to, a);
        },
        ExprView::In { expr, list, negated } => {
            let n = list.len() as int;
            assert(below =~= nodes(*expr) + list_nodes(list, n));
            lemma_plain_add(nodes(*expr), list_nodes(list, n));
            lemma_value(w, *expr, from, to, a);
            lemma_remapped_list(list, w.slots, from, 0, Seq::empty());
            lemma_remapped_list(list, w.slots, to, 0, Seq::empty());
            match value_at(w, *expr, from, a) {
                Ok(v) => {
                    lemma_in_list(w, list, from, to, a, v, negated, 0, false);
                },
                Err(_) => {},
            }
        },
        ExprView::Between { expr, low, high, .. } => {
            assert(below =~= nodes(*expr) + nodes(*low) + nodes(*high));
            lemma_plain_add(nodes(*expr) + nodes(*low), nodes(*high));
            lemma_plain_add(nodes(*expr), nodes(*low));
            lemma_value(w, *expr, from, to, a);
            lemma_value(w, *low, from, to, a);
            lemma_value(w, *high, from, to, a);
        },
        ExprView::Case { operand, branches, else_result, data_type, .. } => {
            let n = branches.len() as int;
            let first = match operand {
                Some(x) => nodes(*x),
                None => Seq::empty(),
            };
            let last = match else_result {
                Some(x) => nodes(*x),
                None => Seq::empty(),
            };
            assert(below =~= first + branch_nodes(branches, n) + last);
            lemma_plain_add(first + branch_nodes(branches, n), last);
            lemma_plain_add(first, branch_nodes(branches, n));
            lemma_remapped_branches(branches, w.slots, from, 0, Seq::empty());
            lemma_remapped_branches(branches, w.slots, to, 0, Seq::empty());
            match else_result {
                Some(x) => {
                    lemma_value(w, *x, from, to, a);
                },
                None => {},
            }
            match operand {
                Some(x) => {
                    lemma_value(w, *x, from, to, a);
                    match value_at(w, *x, from, a) {
                        Ok(v) => {
                            lemma_case(w, branches, from, to, a, Some(v), data_type, 0);
                        },
                        Err(_) => {},
                    }
                },
                None => {
                    lemma_case(w, branches, from, to, a, None, data_type, 0);
                },
            }
        },
        ExprView::Cast { expr, .. } => {
            assert(below =~= nodes(*expr));
            lemma_value(w, *expr, from, to, a);
        },
        ExprView::CalendarInterval { expr, quantity, .. } => {
            assert(below =~= nodes(*expr) + nodes(*quantity));
            lemma_plain_add(nodes(*expr), nodes(*quantity));
            lemma_value(w, *expr, from, to, a);
            lemma_value(w, *quantity, from, to, a);
        },
        ExprView::ScalarFunction { args, .. } => {
            assert(below =~= list_nodes(args, args.len() as int));
            lemma_remapped_list(args, w.slots, from, 0, Seq::empty());
            lemma_remapped_list(args, w.slots, to, 0, Seq::empty());
            lemma_args(w, args, from, to, a, 0, Seq::empty());
        },
        ExprView::InSubquery { expr, .. } => {
            assert(below =~= nodes(*expr));
            lemma_value(w, *expr, from, to, a);
        },
        _ => {},
    }
}

proof fn lemma_in_list(
    w: World,
    list: Seq<ExprView>,
    from: Seq<usize>,
    to: Seq<usize>,
    a: spec_fn(usize) -> Option<int>,
    v: ValueView,
    negated: bool,
    i: int,
    saw_null: bool,
)
    requires
        w.fits(),
        plain(list_nodes(list, list.len() as int)),
        0 <= i <= list.len(),
        remapped_list(list, w.slots, from, 0, Seq::empty()) is Ok,
        remapped_list(list, w.slots, to, 0, Seq::empty()) is Ok,
    ensures
        in_list_of(
            v,
            remapped_list(list, w.slots, from, 0, Seq::empty())->Ok_0,
            negated,
            w.at(from, a),
            i,
            saw_null,
        ) == in_list_of(
            v,
            remapped_list(list, w.slots, to, 0, Seq::empty())->Ok_0,
            negated,
            w.at(to, a),
            i,
            saw_null,
        ),
    decreases list, 0int, list.len() - i,
{
    lemma_remapped_list(list, w.slots, from, 0, Seq::empty());
    lemma_remapped_list(list, w.slots, to, 0, Seq::empty());
    if i < list.len() {
        lemma_plain_list(list, list.len() as int, i);
        lemma_value(w, list[i], from, to, a);
        lemma_in_list(w, list, from, to, a, v, negated, i + 1, true);
        lemma_in_list(w, list, from, to, a, v, negated, i + 1, saw_null);
    }
}

proof fn lemma_case(
    w: World,
    list: Seq<(ExprView, ExprView)>,
    from: Seq<usize>,
    to: Seq<usize>,
    a: spec_fn(usize) -> Option<int>,
    operand: Option<ValueView>,
    data_type: DataType,
    i: int,
)
    requires
        w.fits(),
        plain(branch_nodes(list, list.len() as int)),
        0 <= i <= list.len(),
        remapped_branches(list, w.slots, from, 0, Seq::empty()) is Ok,
        remapped_branches(list, w.slots, to, 0, Seq::empty()) is Ok,
    ensures
        case_of(
            operand,
            remapped_branches(list, w.slots, from, 0, Seq::empty())->Ok_0,
            data_type,
            w.at(from, a),
            i,
        ) == case_of(
            operand,
            remapped_branches(list, w.slots, to, 0, Seq::empty())->Ok_0,
            data_type,
            w.at(to, a),
            i,
        ),
    decreases list, 0int, list.len() - i,
{
    lemma_remapped_branches(list, w.slots, from, 0, Seq::empty());
    lemma_remapped_branches(list, w.slots, to, 0, Seq::empty());
    if i < list.len() {
        lemma_plain_branches(list, list.len() as int, i);
        assert(list[i].0 == list[i].0);
        lemma_value(w, list[i].0, from, to, a);
        lemma_value(w, list[i].1, from, to, a);
        lemma_case(w, list, from, to, a, operand, data_type, i + 1);
    }
}

proof fn lemma_args(
    w: World,
    list: Seq<ExprView>,
    from: Seq<usize>,
    to: Seq<usize>,
    a: spec_fn(usize) -> Option<int>,
    i: int,
    acc: Seq<ValueView>,
)
    requires
        w.fits(),
        plain(list_nodes(list, list.len() as int)),
        0 <= i <= list.len(),
        remapped_list(list, w.slots, from, 0, Seq::empty()) is Ok,
        remapped_list(list, w.slots, to, 0, Seq::empty()) is Ok,
    ensures
        eval_list_of(
            remapped_list(list, w.slots, from, 0, Seq::empty())->Ok_0,
            w.at(from, a),
            i,
            acc,
        ) == eval_list_of(
            remapped_list(list, w.slots, to, 0, Seq::empty())->Ok_0,
            w.at(to, a),
            i,
            acc,
        ),
    decreases list, 0int, list.len() - i,
{
    lemma_remapped_list(list, w.slots, from, 0, Seq::empty());
    lemma_remapped_list(list, w.slots, to, 0, Seq::empty());
    if i < list.len() {
        lemma_plain_list(list, list.len() as int, i);
        lemma_value(w, list[i], from, to, a);
        match value_at(w, list[i], from, a) {
            Ok(v) => {
                lemma_args(w, list, from, to, a, i + 1, acc.push(v));
            },
            Err(_) => {},
        }
    }
}

/// The terms of a predicate whose columns lie where a layout puts them lie there too.
pub proof fn terms_lie_where_the_whole_does(e: ExprView, slots: Seq<SlotView>, layout: Seq<usize>)
    requires
        remapped(e, slots, layout) == Ok::<ExprView, ErrorView>(e),
    ensures
        forall|i: int|
            0 <= i < terms(e).len() ==> remapped(#[trigger] terms(e)[i], slots, layout) == Ok::<
                ExprView,
                ErrorView,
            >(terms(e)[i]),
    decreases e,
{
    match e {
        ExprView::BinaryOp { op: BinOp::And, left, right } => {
            terms_lie_where_the_whole_does(*left, slots, layout);
            terms_lie_where_the_whole_does(*right, slots, layout);
            let l = terms(*left);
            let r = terms(*right);
            assert forall|i: int| 0 <= i < terms(e).len() implies remapped(
                #[trigger] terms(e)[i],
                slots,
                layout,
            ) == Ok::<ExprView, ErrorView>(terms(e)[i]) by {
                if i < l.len() {
                    assert(terms(e)[i] == l[i]);
                } else {
                    assert(terms(e)[i] == r[i - l.len()]);
                }
            }
        },
        _ => {},
    }
}

/// The terms of a predicate that runs no subquery on its row run none either.
pub proof fn terms_of_plain_predicates_are_plain(e: ExprView)
    requires
        !asks_for_row(e),
    ensures
        forall|i: int| 0 <= i < terms(e).len() ==> !asks_for_row(#[trigger] terms(e)[i]),
    decreases e,
{
    match e {
        ExprView::BinaryOp { op: BinOp::And, left, right } => {
            assert(plain(nodes(e)));
            let below = nodes(*left) + nodes(*right);
            assert(nodes(e) =~= seq![e] + below);
            lemma_plain_add(seq![e], below);
            lemma_plain_add(nodes(*left), nodes(*right));
            terms_of_plain_predicates_are_plain(*left);
            terms_of_plain_predicates_are_plain(*right);
            let l = terms(*left);
            let r = terms(*right);
            assert forall|i: int| 0 <= i < terms(e).len() implies !asks_for_row(
                #[trigger] terms(e)[i],
            ) by {
                if i < l.len() {
                    assert(terms(e)[i] == l[i]);
                } else {
                    assert(terms(e)[i] == r[i - l.len()]);
                }
            }
        },
        _ => {},
    }
}

} // verus!
