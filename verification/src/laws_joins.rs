//! Laws of joins: what reordering and moving conditions keep of the rows of a join tree.
//!
//! The slots of a tree occur once, so a join is told apart by its set of slots, and the conditions
//! of the joins can be given as one function of that set and of a choice of rows.

use crate::atoms::{leaf_order, outer, slot_set};
use crate::cardinality::Planning;
use crate::laws_plan::{
    additive, lemma_found, lemma_in_order_slots, reordering_keeps_slots, slot_bag, total,
};
use crate::meaning::{absent, agree, World};
use crate::query::{JoinKind, TreeView};
use crate::reorder::{component, holds_working, in_order, inner_join, reordered};
use crate::component::MAX_COMPARED;
use crate::expr::ExprView;
use vstd::multiset::Multiset;
use vstd::prelude::*;

verus! {

/// Whether no slot occurs on both sides of a join.
pub open spec fn apart(t: TreeView) -> bool
    decreases t,
{
    match t {
        TreeView::Leaf(_) => true,
        TreeView::Join { left, right, .. } => apart(*left) && apart(*right) && slot_set(
            *left,
        ).disjoint(slot_set(*right)),
    }
}

/// Whether the slots of a set are those of a join of a tree.
pub open spec fn has_join(t: TreeView, s: Set<usize>) -> bool
    decreases t,
{
    match t {
        TreeView::Leaf(_) => false,
        TreeView::Join { left, right, .. } => s == slot_set(t) || has_join(*left, s) || has_join(
            *right,
            s,
        ),
    }
}

/// Whether a choice is a row of a tree whose joins have the given conditions.
pub open spec fn given(
    w: World,
    t: TreeView,
    on: spec_fn(Set<usize>, spec_fn(usize) -> Option<int>) -> bool,
    a: spec_fn(usize) -> Option<int>,
) -> bool
    decreases t, 0int,
{
    match t {
        TreeView::Leaf(slot) => a(slot) matches Some(i) && w.has_row(slot, i),
        TreeView::Join { kind, left, right, .. } => {
            let s = slot_set(t);
            let l = slot_set(*left);
            let r = slot_set(*right);
            let both = given(w, *left, on, a) && given(w, *right, on, a) && on(s, a);
            let left_alone = given(w, *left, on, a) && absent(r, a) && unmatched(
                w,
                *right,
                on,
                l,
                s,
                a,
            );
            let right_alone = given(w, *right, on, a) && absent(l, a) && unmatched(
                w,
                *left,
                on,
                r,
                s,
                a,
            );
            match kind {
                JoinKind::Inner | JoinKind::Cross => both,
                JoinKind::Left => both || left_alone,
                JoinKind::Right => both || right_alone,
                JoinKind::Full => both || left_alone || right_alone,
            }
        },
    }
}

/// Whether no row of a tree meets the condition of the join of the slots `s` together with what a
/// choice takes of the slots `side`.
pub open spec fn unmatched(
    w: World,
    t: TreeView,
    on: spec_fn(Set<usize>, spec_fn(usize) -> Option<int>) -> bool,
    side: Set<usize>,
    s: Set<usize>,
    a: spec_fn(usize) -> Option<int>,
) -> bool
    decreases t, 1int,
{
    forall|b: spec_fn(usize) -> Option<int>|
        #[trigger] agree(side, a, b) && given(w, t, on, b) ==> !on(s, b)
}

pub proof fn lemma_slot_set(t: TreeView)
    ensures
        exists|s: usize| slot_set(t).contains(s),
        t matches TreeView::Join { left, right, .. } ==> slot_set(t) == slot_set(*left).union(
            slot_set(*right),
        ),
        t matches TreeView::Leaf(s) ==> slot_set(t) == set![s],
    decreases t,
{
    match t {
        TreeView::Leaf(s) => {
            assert(leaf_order(t)[0] == s);
            assert(slot_set(t) =~= set![s]);
            assert(slot_set(t).contains(s));
        },
        TreeView::Join { left, right, .. } => {
            lemma_slot_set(*left);
            let a = leaf_order(*left);
            let b = leaf_order(*right);
            assert forall|s: usize| (a + b).contains(s) <==> a.contains(s) || b.contains(s) by {
                if a.contains(s) {
                    let k = a.index_of(s);
                    assert((a + b)[k] == s);
                }
                if b.contains(s) {
                    let k = b.index_of(s);
                    assert((a + b)[a.len() + k] == s);
                }
            }
            assert(slot_set(t) =~= slot_set(*left).union(slot_set(*right)));
            let s = choose|s: usize| slot_set(*left).contains(s);
            assert(slot_set(t).contains(s));
        },
    }
}

pub proof fn lemma_join_within(t: TreeView, s: Set<usize>)
    requires
        has_join(t, s),
    ensures
        s.subset_of(slot_set(t)),
        exists|x: usize| s.contains(x),
    decreases t,
{
    lemma_slot_set(t);
    match t {
        TreeView::Leaf(_) => {},
        TreeView::Join { left, right, .. } => {
            if s != slot_set(t) {
                if has_join(*left, s) {
                    lemma_join_within(*left, s);
                } else {
                    lemma_join_within(*right, s);
                }
            }
        },
    }
}

/// A join of a tree whose slots lie on one side is a join of that side.
pub proof fn lemma_join_below(t: TreeView, s: Set<usize>)
    requires
        apart(t),
        has_join(t, s),
    ensures
        t matches TreeView::Join { left, right, .. } ==> {
            &&& s.subset_of(slot_set(*left)) ==> has_join(*left, s)
            &&& s.subset_of(slot_set(*right)) ==> has_join(*right, s)
        },
{
    lemma_slot_set(t);
    lemma_join_within(t, s);
    match t {
        TreeView::Leaf(_) => {},
        TreeView::Join { left, right, .. } => {
            lemma_slot_set(*left);
            lemma_slot_set(*right);
            let x = choose|x: usize| slot_set(*left).contains(x);
            let y = choose|y: usize| slot_set(*right).contains(y);
            assert(slot_set(t).contains(x) && slot_set(t).contains(y));
            let z = choose|z: usize| s.contains(z);
            if has_join(*left, s) {
                lemma_join_within(*left, s);
            }
            if has_join(*right, s) {
                lemma_join_within(*right, s);
            }
        },
    }
}

/// The slots of a join that lie on neither side alone are no join of a side.
proof fn lemma_whole_is_new(t: TreeView)
    requires
        apart(t),
        t is Join,
    ensures
        t matches TreeView::Join { left, right, .. } ==> {
            &&& !has_join(*left, slot_set(t))
            &&& !has_join(*right, slot_set(t))
            &&& forall|s: Set<usize>| #[trigger] has_join(*left, s) ==> !has_join(*right, s)
        },
{
    match t {
        TreeView::Leaf(_) => {},
        TreeView::Join { left, right, .. } => {
            lemma_slot_set(t);
            lemma_slot_set(*left);
            lemma_slot_set(*right);
            let x = choose|x: usize| slot_set(*left).contains(x);
            let y = choose|y: usize| slot_set(*right).contains(y);
            assert(slot_set(t).contains(x) && slot_set(t).contains(y));
            if has_join(*left, slot_set(t)) {
                lemma_join_within(*left, slot_set(t));
            }
            if has_join(*right, slot_set(t)) {
                lemma_join_within(*right, slot_set(t));
            }
            assert forall|s: Set<usize>| #[trigger] has_join(*left, s) implies !has_join(
                *right,
                s,
            ) by {
                if has_join(*right, s) {
                    lemma_join_within(*left, s);
                    lemma_join_within(*right, s);
                    let z = choose|z: usize| s.contains(z);
                    assert(slot_set(*left).contains(z) && slot_set(*right).contains(z));
                }
            }
        },
    }
}

/// Conditions that agree on the joins of a tree give the same rows.
pub proof fn lemma_same_conditions(
    w: World,
    t: TreeView,
    f: spec_fn(Set<usize>, spec_fn(usize) -> Option<int>) -> bool,
    g: spec_fn(Set<usize>, spec_fn(usize) -> Option<int>) -> bool,
)
    requires
        forall|s: Set<usize>, a: spec_fn(usize) -> Option<int>|
            has_join(t, s) ==> #[trigger] f(s, a) == g(s, a),
    ensures
        forall|a: spec_fn(usize) -> Option<int>|
            #![trigger given(w, t, f, a)]
            #![trigger given(w, t, g, a)]
            given(w, t, f, a) == given(w, t, g, a),
    decreases t,
{
    match t {
        TreeView::Leaf(_) => {},
        TreeView::Join { kind, left, right, .. } => {
            assert(has_join(t, slot_set(t)));
            lemma_same_conditions(w, *left, f, g);
            lemma_same_conditions(w, *right, f, g);
            let s = slot_set(t);
            assert forall|a: spec_fn(usize) -> Option<int>|
                #![trigger given(w, t, f, a)]
                #![trigger given(w, t, g, a)]
                given(w, t, f, a) == given(w, t, g, a) by {
                lemma_unmatched(w, *left, *left, f, g, slot_set(*right), s, a);
                lemma_unmatched(w, *right, *right, f, g, slot_set(*left), s, a);
                assert(given(w, *left, f, a) == given(w, *left, g, a));
                assert(given(w, *right, f, a) == given(w, *right, g, a));
                assert(f(s, a) == g(s, a));
            }
        },
    }
}

/// Trees with the same rows leave the same choices unmatched.
proof fn lemma_unmatched(
    w: World,
    t: TreeView,
    u: TreeView,
    f: spec_fn(Set<usize>, spec_fn(usize) -> Option<int>) -> bool,
    g: spec_fn(Set<usize>, spec_fn(usize) -> Option<int>) -> bool,
    side: Set<usize>,
    s: Set<usize>,
    a: spec_fn(usize) -> Option<int>,
)
    requires
        forall|b: spec_fn(usize) -> Option<int>|
            #![trigger given(w, t, f, b)]
            #![trigger given(w, u, g, b)]
            given(w, t, f, b) == given(w, u, g, b),
        forall|b: spec_fn(usize) -> Option<int>| #[trigger] f(s, b) == g(s, b),
    ensures
        unmatched(w, t, f, side, s, a) == unmatched(w, u, g, side, s, a),
{
    if unmatched(w, t, f, side, s, a) {
        assert forall|b: spec_fn(usize) -> Option<int>|
            #[trigger] agree(side, a, b) && given(w, u, g, b) implies !g(s, b) by {
            assert(given(w, t, f, b));
            assert(f(s, b) == g(s, b));
        }
    }
    if unmatched(w, u, g, side, s, a) {
        assert forall|b: spec_fn(usize) -> Option<int>|
            #[trigger] agree(side, a, b) && given(w, t, f, b) implies !f(s, b) by {
            assert(given(w, u, g, b));
            assert(f(s, b) == g(s, b));
        }
    }
}

/// Whether the slots of a set are those of an inner join that no outer join above can fill with
/// `NULL`.
pub open spec fn free_join(t: TreeView, s: Set<usize>) -> bool
    decreases t,
{
    match t {
        TreeView::Leaf(_) => false,
        TreeView::Join { kind, left, right, .. } => {
            ||| !outer(kind) && s == slot_set(t)
            ||| kind != JoinKind::Right && kind != JoinKind::Full && free_join(*left, s)
            ||| kind != JoinKind::Left && kind != JoinKind::Full && free_join(*right, s)
        },
    }
}

pub proof fn lemma_free_is_join(t: TreeView, s: Set<usize>)
    requires
        free_join(t, s),
    ensures
        has_join(t, s),
    decreases t,
{
    match t {
        TreeView::Leaf(_) => {},
        TreeView::Join { kind, left, right, .. } => {
            if kind != JoinKind::Right && kind != JoinKind::Full && free_join(*left, s) {
                lemma_free_is_join(*left, s);
            }
            if kind != JoinKind::Left && kind != JoinKind::Full && free_join(*right, s) {
                lemma_free_is_join(*right, s);
            }
        },
    }
}

/// A join of one side is free where that side is, and free within that side.
proof fn lemma_free_side(t: TreeView, s: Set<usize>)
    requires
        apart(t),
    ensures
        t matches TreeView::Join { kind, left, right, .. } ==> {
            &&& free_join(t, slot_set(t)) == !outer(kind)
            &&& has_join(*left, s) ==> free_join(t, s) == (kind != JoinKind::Right && kind
                != JoinKind::Full && free_join(*left, s))
            &&& has_join(*right, s) ==> free_join(t, s) == (kind != JoinKind::Left && kind
                != JoinKind::Full && free_join(*right, s))
        },
{
    match t {
        TreeView::Leaf(_) => {},
        TreeView::Join { kind, left, right, .. } => {
            lemma_whole_is_new(t);
            let x = slot_set(t);
            if free_join(*left, x) {
                lemma_free_is_join(*left, x);
            }
            if free_join(*right, x) {
                lemma_free_is_join(*right, x);
            }
            if free_join(*left, s) {
                lemma_free_is_join(*left, s);
            }
            if free_join(*right, s) {
                lemma_free_is_join(*right, s);
            }
            if has_join(*left, s) {
                assert(!has_join(*right, s));
                assert(s != x);
            }
            if has_join(*right, s) {
                assert(!has_join(*left, s));
                assert(s != x);
            }
        },
    }
}

/// Whether all free joins of a tree let a choice through.
pub open spec fn all_free(
    t: TreeView,
    f: spec_fn(Set<usize>, spec_fn(usize) -> Option<int>) -> bool,
    a: spec_fn(usize) -> Option<int>,
) -> bool {
    forall|s: Set<usize>| #[trigger] free_join(t, s) ==> f(s, a)
}

proof fn lemma_all_free(
    t: TreeView,
    f: spec_fn(Set<usize>, spec_fn(usize) -> Option<int>) -> bool,
    a: spec_fn(usize) -> Option<int>,
)
    ensures
        t matches TreeView::Join { kind, left, right, .. } ==> all_free(t, f, a) == ((!outer(kind)
            ==> f(slot_set(t), a)) && (kind != JoinKind::Right && kind != JoinKind::Full
            ==> all_free(*left, f, a)) && (kind != JoinKind::Left && kind != JoinKind::Full
            ==> all_free(*right, f, a))),
{
    match t {
        TreeView::Leaf(_) => {},
        TreeView::Join { kind, left, right, .. } => {
            let s = slot_set(t);
            let lower_left = kind != JoinKind::Right && kind != JoinKind::Full;
            let lower_right = kind != JoinKind::Left && kind != JoinKind::Full;
            if all_free(t, f, a) {
                if !outer(kind) {
                    assert(free_join(t, s));
                }
                if lower_left {
                    assert forall|x: Set<usize>| #[trigger] free_join(*left, x) implies f(x, a) by {
                        assert(free_join(t, x));
                    }
                }
                if lower_right {
                    assert forall|x: Set<usize>| #[trigger] free_join(*right, x) implies f(
                        x,
                        a,
                    ) by {
                        assert(free_join(t, x));
                    }
                }
            }
            if (!outer(kind) ==> f(s, a)) && (lower_left ==> all_free(*left, f, a)) && (lower_right
                ==> all_free(*right, f, a)) {
                assert forall|x: Set<usize>| #[trigger] free_join(t, x) implies f(x, a) by {
                    assert((!outer(kind) && x == s) || (lower_left && free_join(*left, x)) || (
                    lower_right && free_join(*right, x)));
                }
            }
        },
    }
}

/// A condition of a free join can be tested after all joins: a tree whose free joins have further
/// conditions gives those rows of the tree without them that meet them all.
pub proof fn conditions_of_free_joins_rise(
    w: World,
    t: TreeView,
    pinned: spec_fn(Set<usize>, spec_fn(usize) -> Option<int>) -> bool,
    more: spec_fn(Set<usize>, spec_fn(usize) -> Option<int>) -> bool,
    on: spec_fn(Set<usize>, spec_fn(usize) -> Option<int>) -> bool,
)
    requires
        apart(t),
        forall|s: Set<usize>, a: spec_fn(usize) -> Option<int>| #[trigger]
            on(s, a) == (pinned(s, a) && more(s, a)),
        forall|s: Set<usize>, a: spec_fn(usize) -> Option<int>|
            has_join(t, s) && !free_join(t, s) ==> #[trigger] more(s, a),
    ensures
        forall|a: spec_fn(usize) -> Option<int>|
            #![trigger given(w, t, on, a)]
            #![trigger given(w, t, pinned, a)]
            given(w, t, on, a) == (given(w, t, pinned, a) && all_free(t, more, a)),
    decreases t,
{
    match t {
        TreeView::Leaf(_) => {},
        TreeView::Join { kind, left, right, .. } => {
            let s = slot_set(t);
            assert(has_join(t, s));
            let lower_left = kind != JoinKind::Right && kind != JoinKind::Full;
            let lower_right = kind != JoinKind::Left && kind != JoinKind::Full;
            assert forall|x: Set<usize>, a: spec_fn(usize) -> Option<int>|
                has_join(*left, x) && !(lower_left && free_join(*left, x)) implies #[trigger] more(
                x,
                a,
            ) by {
                lemma_free_side(t, x);
                assert(has_join(t, x));
            }
            assert forall|x: Set<usize>, a: spec_fn(usize) -> Option<int>|
                has_join(*right, x) && !(lower_right && free_join(*right, x)) implies #[trigger] more(
                x,
                a,
            ) by {
                lemma_free_side(t, x);
                assert(has_join(t, x));
            }
            if lower_left {
                conditions_of_free_joins_rise(w, *left, pinned, more, on);
            } else {
                assert forall|x: Set<usize>, a: spec_fn(usize) -> Option<int>|
                    has_join(*left, x) implies #[trigger] on(x, a) == pinned(x, a) by {
                    assert(more(x, a));
                }
                lemma_same_conditions(w, *left, on, pinned);
            }
            if lower_right {
                conditions_of_free_joins_rise(w, *right, pinned, more, on);
            } else {
                assert forall|x: Set<usize>, a: spec_fn(usize) -> Option<int>|
                    has_join(*right, x) implies #[trigger] on(x, a) == pinned(x, a) by {
                    assert(more(x, a));
                }
                lemma_same_conditions(w, *right, on, pinned);
            }
            lemma_free_side(t, s);
            if outer(kind) {
                assert forall|b: spec_fn(usize) -> Option<int>| #[trigger]
                    on(s, b) == pinned(s, b) by {
                    assert(more(s, b));
                }
            }
            assert forall|a: spec_fn(usize) -> Option<int>|
                #![trigger given(w, t, on, a)]
                #![trigger given(w, t, pinned, a)]
                given(w, t, on, a) == (given(w, t, pinned, a) && all_free(t, more, a)) by {
                lemma_all_free(t, more, a);
                assert(on(s, a) == (pinned(s, a) && more(s, a)));
                if kind == JoinKind::Left || kind == JoinKind::Full {
                    lemma_unmatched(w, *right, *right, on, pinned, slot_set(*left), s, a);
                }
                if kind == JoinKind::Right || kind == JoinKind::Full {
                    lemma_unmatched(w, *left, *left, on, pinned, slot_set(*right), s, a);
                }
                assert(given(w, *left, on, a) == (given(w, *left, pinned, a) && (lower_left
                    ==> all_free(*left, more, a))));
                assert(given(w, *right, on, a) == (given(w, *right, pinned, a) && (lower_right
                    ==> all_free(*right, more, a))));
            }
        },
    }
}

/// No slot occurs on both sides of a join exactly where no slot occurs twice.
pub proof fn lemma_apart(t: TreeView)
    ensures
        apart(t) == leaf_order(t).no_duplicates(),
    decreases t,
{
    match t {
        TreeView::Leaf(_) => {},
        TreeView::Join { left, right, .. } => {
            lemma_apart(*left);
            lemma_apart(*right);
            let a = leaf_order(*left);
            let b = leaf_order(*right);
            assert(leaf_order(t) == a + b);
            if (a + b).no_duplicates() {
                assert(a.no_duplicates()) by {
                    assert forall|i: int, j: int| 0 <= i < a.len() && 0 <= j < a.len() && i
                        != j implies a[i] != a[j] by {
                        assert((a + b)[i] != (a + b)[j]);
                    }
                }
                assert(b.no_duplicates()) by {
                    assert forall|i: int, j: int| 0 <= i < b.len() && 0 <= j < b.len() && i
                        != j implies b[i] != b[j] by {
                        assert((a + b)[a.len() + i] != (a + b)[a.len() + j]);
                    }
                }
                assert forall|x: usize| a.contains(x) implies !b.contains(x) by {
                    if b.contains(x) {
                        let i = a.index_of(x);
                        let j = b.index_of(x);
                        assert((a + b)[i] != (a + b)[a.len() + j]);
                    }
                }
                assert(slot_set(*left).disjoint(slot_set(*right)));
            }
            if apart(t) {
                assert forall|i: int, j: int| 0 <= i < (a + b).len() && 0 <= j < (a + b).len() && i
                    != j implies (a + b)[i] != (a + b)[j] by {
                    if i < a.len() && j >= a.len() {
                        assert(slot_set(*left).contains(a[i]));
                        assert(slot_set(*right).contains(b[j - a.len()]));
                    }
                    if j < a.len() && i >= a.len() {
                        assert(slot_set(*left).contains(a[j]));
                        assert(slot_set(*right).contains(b[i - a.len()]));
                    }
                }
            }
        },
    }
}

/// Trees with the same slots have the same set of slots, and if one has them apart, so has the other.
proof fn lemma_same_slots(t: TreeView, u: TreeView)
    requires
        slot_bag(t) == slot_bag(u),
    ensures
        slot_set(u) == slot_set(t),
        apart(t) ==> apart(u),
{
    let a = leaf_order(t);
    let b = leaf_order(u);
    a.to_multiset_ensures();
    b.to_multiset_ensures();
    assert forall|s: usize| slot_set(u).contains(s) <==> slot_set(t).contains(s) by {
        assert(a.contains(s) <==> slot_bag(t).count(s) > 0);
        assert(b.contains(s) <==> slot_bag(u).count(s) > 0);
    }
    assert(slot_set(u) =~= slot_set(t));
    lemma_apart(t);
    lemma_apart(u);
    if a.no_duplicates() {
        a.lemma_multiset_has_no_duplicates();
        assert forall|x: usize| b.to_multiset().contains(x) implies b.to_multiset().count(x)
            == 1 by {
            assert(a.to_multiset().contains(x));
        }
        b.lemma_multiset_has_no_duplicates_conv();
    }
}

/// Reordering keeps the set of slots, and the slots apart.
pub proof fn lemma_reordered_slots(t: TreeView, p: Planning)
    ensures
        slot_set(reordered(t, p)) == slot_set(t),
        apart(t) ==> apart(reordered(t, p)),
        slot_set(in_order(t, p)) == slot_set(t),
        apart(t) ==> apart(in_order(t, p)),
{
    reordering_keeps_slots(t, p);
    lemma_in_order_slots(t, p);
    lemma_same_slots(t, reordered(t, p));
    lemma_same_slots(t, in_order(t, p));
}

/// The relations that a component of inner joins joins, from left to right.
pub open spec fn relations(t: TreeView) -> Seq<TreeView>
    decreases t,
{
    match t {
        TreeView::Leaf(_) => seq![t],
        TreeView::Join { kind, left, right, .. } => if outer(kind) {
            seq![t]
        } else {
            relations(*left) + relations(*right)
        },
    }
}

/// Whether the slots of a set are those of an inner join of the component of a tree.
pub open spec fn component_join(t: TreeView, s: Set<usize>) -> bool
    decreases t,
{
    match t {
        TreeView::Leaf(_) => false,
        TreeView::Join { kind, left, right, .. } => !outer(kind) && (s == slot_set(t)
            || component_join(*left, s) || component_join(*right, s)),
    }
}

/// Whether a choice is a row of every tree of a list.
pub open spec fn all_given(
    w: World,
    list: Seq<TreeView>,
    on: spec_fn(Set<usize>, spec_fn(usize) -> Option<int>) -> bool,
    a: spec_fn(usize) -> Option<int>,
) -> bool {
    forall|i: int| 0 <= i < list.len() ==> given(w, #[trigger] list[i], on, a)
}

/// Whether all inner joins of the component of a tree let a choice through.
pub open spec fn all_inner(
    t: TreeView,
    on: spec_fn(Set<usize>, spec_fn(usize) -> Option<int>) -> bool,
    a: spec_fn(usize) -> Option<int>,
) -> bool {
    forall|s: Set<usize>| #[trigger] component_join(t, s) ==> on(s, a)
}

proof fn lemma_all_given_add(
    w: World,
    x: Seq<TreeView>,
    y: Seq<TreeView>,
    on: spec_fn(Set<usize>, spec_fn(usize) -> Option<int>) -> bool,
    a: spec_fn(usize) -> Option<int>,
)
    ensures
        all_given(w, x + y, on, a) == (all_given(w, x, on, a) && all_given(w, y, on, a)),
{
    if all_given(w, x + y, on, a) {
        assert forall|i: int| 0 <= i < x.len() implies given(w, #[trigger] x[i], on, a) by {
            assert((x + y)[i] == x[i]);
        }
        assert forall|i: int| 0 <= i < y.len() implies given(w, #[trigger] y[i], on, a) by {
            assert((x + y)[x.len() + i] == y[i]);
        }
    }
}

/// The rows of a component are the rows of its relations that meet the conditions of its joins.
proof fn lemma_given_component(
    w: World,
    t: TreeView,
    on: spec_fn(Set<usize>, spec_fn(usize) -> Option<int>) -> bool,
    a: spec_fn(usize) -> Option<int>,
)
    ensures
        given(w, t, on, a) == (all_given(w, relations(t), on, a) && all_inner(t, on, a)),
    decreases t,
{
    match t {
        TreeView::Leaf(_) => {
            assert(relations(t)[0] == t);
        },
        TreeView::Join { kind, left, right, .. } => {
            if outer(kind) {
                assert(relations(t)[0] == t);
            } else {
                lemma_given_component(w, *left, on, a);
                lemma_given_component(w, *right, on, a);
                lemma_all_given_add(w, relations(*left), relations(*right), on, a);
                let s = slot_set(t);
                if all_inner(t, on, a) {
                    assert(component_join(t, s));
                    assert forall|x: Set<usize>| #[trigger] component_join(*left, x) implies on(
                        x,
                        a,
                    ) by {
                        assert(component_join(t, x));
                    }
                    assert forall|x: Set<usize>| #[trigger] component_join(*right, x) implies on(
                        x,
                        a,
                    ) by {
                        assert(component_join(t, x));
                    }
                }
                if all_inner(*left, on, a) && all_inner(*right, on, a) && on(s, a) {
                    assert forall|x: Set<usize>| #[trigger] component_join(t, x) implies on(
                        x,
                        a,
                    ) by {
                        assert(x == s || component_join(*left, x) || component_join(*right, x));
                    }
                }
            }
        },
    }
}

/// What a relation of a component has, the component has.
proof fn lemma_relation(t: TreeView, i: int, s: Set<usize>)
    requires
        0 <= i < relations(t).len(),
    ensures
        slot_set(relations(t)[i]).subset_of(slot_set(t)),
        has_join(relations(t)[i], s) ==> has_join(t, s),
        apart(t) ==> apart(relations(t)[i]),
        !inner_join(relations(t)[i]),
        relations(relations(t)[i]) == seq![relations(t)[i]],
    decreases t,
{
    match t {
        TreeView::Leaf(_) => {},
        TreeView::Join { kind, left, right, .. } => {
            if !outer(kind) {
                lemma_slot_set(t);
                let n = relations(*left).len();
                if i < n {
                    assert(relations(t)[i] == relations(*left)[i]);
                    lemma_relation(*left, i, s);
                } else {
                    assert(relations(t)[i] == relations(*right)[i - n]);
                    lemma_relation(*right, i - n, s);
                }
            }
        },
    }
}

/// A join of a component whose slots lie in one relation is a join of that relation.
proof fn lemma_join_of_relation(t: TreeView, i: int, s: Set<usize>)
    requires
        0 <= i < relations(t).len(),
        apart(t),
        has_join(t, s),
        s.subset_of(slot_set(relations(t)[i])),
    ensures
        has_join(relations(t)[i], s),
    decreases t,
{
    match t {
        TreeView::Leaf(_) => {},
        TreeView::Join { kind, left, right, .. } => {
            if !outer(kind) {
                lemma_join_below(t, s);
                let n = relations(*left).len();
                if i < n {
                    assert(relations(t)[i] == relations(*left)[i]);
                    lemma_relation(*left, i, s);
                    lemma_join_of_relation(*left, i, s);
                } else {
                    assert(relations(t)[i] == relations(*right)[i - n]);
                    lemma_relation(*right, i - n, s);
                    lemma_join_of_relation(*right, i - n, s);
                }
            }
        },
    }
}

/// An inner join of a component lies in none of its relations.
proof fn lemma_component_join(t: TreeView, i: int, s: Set<usize>)
    requires
        0 <= i < relations(t).len(),
        apart(t),
        component_join(t, s),
    ensures
        has_join(t, s),
        !s.subset_of(slot_set(relations(t)[i])),
    decreases t,
{
    match t {
        TreeView::Leaf(_) => {},
        TreeView::Join { kind, left, right, .. } => {
            lemma_slot_set(t);
            lemma_slot_set(*left);
            lemma_slot_set(*right);
            let x = choose|x: usize| slot_set(*left).contains(x);
            let y = choose|y: usize| slot_set(*right).contains(y);
            let n = relations(*left).len();
            let m = relations(*right).len();
            lemma_relations_some(*left);
            lemma_relations_some(*right);
            if i < n {
                assert(relations(t)[i] == relations(*left)[i]);
                lemma_relation(*left, i, s);
            } else {
                assert(relations(t)[i] == relations(*right)[i - n]);
                lemma_relation(*right, i - n, s);
            }
            if s == slot_set(t) {
                assert(s.contains(x) && s.contains(y));
            } else if component_join(*left, s) {
                lemma_component_join(*left, if i < n { i } else { 0 }, s);
                lemma_join_within(*left, s);
                let z = choose|z: usize| s.contains(z);
                assert(slot_set(*left).contains(z));
            } else {
                lemma_component_join(*right, if i < n { 0 } else { i - n }, s);
                lemma_join_within(*right, s);
                let z = choose|z: usize| s.contains(z);
                assert(slot_set(*right).contains(z));
            }
        },
    }
}

proof fn lemma_relations_some(t: TreeView)
    ensures
        relations(t).len() > 0,
    decreases t,
{
    match t {
        TreeView::Leaf(_) => {},
        TreeView::Join { kind, left, right, .. } => {
            if !outer(kind) {
                lemma_relations_some(*left);
            }
        },
    }
}

/// A join of a component is one of its inner joins or a join of one of its relations.
proof fn lemma_join_cases(t: TreeView, s: Set<usize>)
    requires
        has_join(t, s),
    ensures
        component_join(t, s) || exists|i: int|
            0 <= i < relations(t).len() && has_join(#[trigger] relations(t)[i], s),
    decreases t,
{
    match t {
        TreeView::Leaf(_) => {},
        TreeView::Join { kind, left, right, .. } => {
            if outer(kind) {
                assert(relations(t)[0] == t);
            } else if s != slot_set(t) {
                let n = relations(*left).len();
                if has_join(*left, s) {
                    lemma_join_cases(*left, s);
                    if !component_join(*left, s) {
                        let i = choose|i: int|
                            0 <= i < relations(*left).len() && has_join(
                                #[trigger] relations(*left)[i],
                                s,
                            );
                        assert(relations(t)[i] == relations(*left)[i]);
                    }
                } else {
                    lemma_join_cases(*right, s);
                    if !component_join(*right, s) {
                        let i = choose|i: int|
                            0 <= i < relations(*right).len() && has_join(
                                #[trigger] relations(*right)[i],
                                s,
                            );
                        assert(relations(t)[n + i] == relations(*right)[i]);
                    }
                }
            }
        },
    }
}

/// The relations of a reordered component are those of the component, each reordered.
proof fn lemma_component_relations(t: TreeView, p: Planning)
    ensures
        component(t, p).len() == relations(t).len(),
        forall|i: int|
            0 <= i < relations(t).len() ==> #[trigger] component(t, p)[i] == reordered(
                relations(t)[i],
                p,
            ),
    decreases t,
{
    match t {
        TreeView::Leaf(_) => {},
        TreeView::Join { kind, left, right, .. } => {
            if !outer(kind) {
                lemma_component_relations(*left, p);
                lemma_component_relations(*right, p);
                let n = relations(*left).len();
                assert forall|i: int| 0 <= i < relations(t).len() implies #[trigger] component(
                    t,
                    p,
                )[i] == reordered(relations(t)[i], p) by {
                    if i < n {
                        assert(component(t, p)[i] == component(*left, p)[i]);
                        assert(relations(t)[i] == relations(*left)[i]);
                    } else {
                        assert(component(t, p)[i] == component(*right, p)[i - n]);
                        assert(relations(t)[i] == relations(*right)[i - n]);
                    }
                }
            }
        },
    }
}

/// The relations of a tree with their numbers of occurrence.
spec fn relation_bag(t: TreeView) -> Multiset<TreeView> {
    relations(t).to_multiset()
}

proof fn lemma_relation_bag_additive()
    ensures
        additive(|t: TreeView| relation_bag(t)),
{
    let m = |t: TreeView| relation_bag(t);
    assert forall|k: JoinKind, l: TreeView, r: TreeView, on: Option<ExprView>|
        !outer(k) implies #[trigger] m(
        TreeView::Join { kind: k, left: Box::new(l), right: Box::new(r), on },
    ) == m(l).add(m(r)) by {
        vstd::seq_lib::lemma_multiset_commutative(relations(l), relations(r));
    }
}

proof fn lemma_total_relations(rels: Seq<TreeView>, n: int)
    requires
        0 <= n <= rels.len(),
        forall|i: int| 0 <= i < rels.len() ==> relations(#[trigger] rels[i]) == seq![rels[i]],
    ensures
        total(rels, |t: TreeView| relation_bag(t), n) == rels.take(n).to_multiset(),
    decreases n,
{
    let m = |t: TreeView| relation_bag(t);
    if n > 0 {
        lemma_total_relations(rels, n - 1);
        assert(rels.take(n) =~= rels.take(n - 1) + seq![rels[n - 1]]);
        vstd::seq_lib::lemma_multiset_commutative(rels.take(n - 1), seq![rels[n - 1]]);
        assert(m(rels[n - 1]) == seq![rels[n - 1]].to_multiset());
    } else {
        assert(rels.take(0) =~= Seq::empty());
        rels.take(0).to_multiset_ensures();
        assert(rels.take(0).to_multiset() =~= Multiset::empty());
    }
}

/// Whether every tree of a list stands in another list.
#[verifier::opaque]
spec fn within(x: Seq<TreeView>, y: Seq<TreeView>) -> bool {
    forall|i: int| 0 <= i < x.len() ==> y.contains(#[trigger] x[i])
}

proof fn place_within(x: Seq<TreeView>, y: Seq<TreeView>, i: int) -> (j: int)
    requires
        within(x, y),
        0 <= i < x.len(),
    ensures
        0 <= j < y.len(),
        y[j] == x[i],
{
    reveal(within);
    assert(y.contains(x[i]));
    y.index_of(x[i])
}

proof fn lemma_within(x: Seq<TreeView>, y: Seq<TreeView>)
    requires
        x.to_multiset() == y.to_multiset(),
    ensures
        within(x, y),
{
    reveal(within);
    x.to_multiset_ensures();
    y.to_multiset_ensures();
    assert forall|i: int| 0 <= i < x.len() implies y.contains(#[trigger] x[i]) by {
        assert(x.contains(x[i]));
        assert(x.to_multiset().count(x[i]) > 0);
    }
}

/// The tree found for a component has its relations, and no others.
proof fn lemma_found_relations(t: TreeView, p: Planning, found: TreeView)
    requires
        component(t, p).len() >= 2,
        found == reordered(t, p),
        inner_join(t),
        !holds_working(p.select, component(t, p), component(t, p).len() as int),
        (if component(t, p).len() <= MAX_COMPARED {
            crate::component::cheapest_tree(component(t, p), p)
        } else {
            crate::component::greedy_tree(component(t, p), p)
        }) is Some,
    ensures
        within(relations(found), component(t, p)),
        within(component(t, p), relations(found)),
{
    let rels = component(t, p);
    let m = |t: TreeView| relation_bag(t);
    lemma_relation_bag_additive();
    lemma_found(rels, p, m);
    lemma_component_relations(t, p);
    assert forall|i: int| 0 <= i < rels.len() implies relations(#[trigger] rels[i])
        == seq![rels[i]] by {
        lemma_relation(t, i, Set::empty());
        let u = relations(t)[i];
        assert(rels[i] == reordered(u, p));
        match u {
            TreeView::Leaf(_) => {},
            TreeView::Join { kind, left, right, on } => {
                assert(outer(kind));
            },
        }
    }
    lemma_total_relations(rels, rels.len() as int);
    assert(rels.take(rels.len() as int) =~= rels);
    assert(relation_bag(found) == rels.to_multiset());
    lemma_within(relations(found), rels);
    lemma_within(rels, relations(found));
}

/// Whether a condition holds of every set of slots that only one of two trees has a join of.
pub open spec fn keyed(
    t: TreeView,
    u: TreeView,
    on: spec_fn(Set<usize>, spec_fn(usize) -> Option<int>) -> bool,
) -> bool {
    forall|s: Set<usize>, a: spec_fn(usize) -> Option<int>|
        has_join(t, s) != has_join(u, s) ==> #[trigger] on(s, a)
}

/// Whether every relation of a component has the slots of a relation of another one.
#[verifier::opaque]
spec fn matching(t: TreeView, u: TreeView) -> bool {
    forall|i: int|
        0 <= i < relations(t).len() ==> has_slots(relations(u), slot_set(#[trigger] relations(t)[i]))
}

/// Whether a tree of a list has the given slots.
spec fn has_slots(list: Seq<TreeView>, s: Set<usize>) -> bool {
    exists|j: int| 0 <= j < list.len() && slot_set(#[trigger] list[j]) == s
}

proof fn matching_relation(t: TreeView, u: TreeView, i: int) -> (j: int)
    requires
        matching(t, u),
        0 <= i < relations(t).len(),
    ensures
        0 <= j < relations(u).len(),
        slot_set(relations(u)[j]) == slot_set(relations(t)[i]),
{
    reveal(matching);
    let s = slot_set(relations(t)[i]);
    assert(has_slots(relations(u), s));
    choose|j: int| 0 <= j < relations(u).len() && slot_set(#[trigger] relations(u)[j]) == s
}

/// The conditions of the inner joins of a component are those of another one over the same
/// relations.
proof fn lemma_inner_conditions(
    t: TreeView,
    u: TreeView,
    on: spec_fn(Set<usize>, spec_fn(usize) -> Option<int>) -> bool,
    a: spec_fn(usize) -> Option<int>,
)
    requires
        apart(t),
        apart(u),
        matching(u, t),
        keyed(t, u, on),
        all_inner(u, on, a),
    ensures
        all_inner(t, on, a),
{
    assert forall|s: Set<usize>| #[trigger] component_join(t, s) implies on(s, a) by {
        lemma_relations_some(t);
        lemma_component_join(t, 0, s);
        if has_join(u, s) {
            lemma_join_cases(u, s);
            if !component_join(u, s) {
                let j = choose|j: int|
                    0 <= j < relations(u).len() && has_join(#[trigger] relations(u)[j], s);
                lemma_join_within(relations(u)[j], s);
                let i = matching_relation(u, t, j);
                lemma_component_join(t, i, s);
            }
        } else {
            assert(has_join(t, s) != has_join(u, s));
        }
    }
}

/// Reordering keeps the rows of a tree, whatever the conditions of its joins, as long as every join
/// with a condition that can fail is a join of both trees.
pub proof fn reordering_keeps_rows(
    w: World,
    t: TreeView,
    p: Planning,
    on: spec_fn(Set<usize>, spec_fn(usize) -> Option<int>) -> bool,
)
    requires
        apart(t),
        keyed(t, reordered(t, p), on),
    ensures
        forall|a: spec_fn(usize) -> Option<int>|
            #![trigger given(w, t, on, a)]
            #![trigger given(w, reordered(t, p), on, a)]
            given(w, t, on, a) == given(w, reordered(t, p), on, a),
    decreases
        t,
        (if inner_join(t) {
            2int
        } else {
            0int
        }),
{
    let u = reordered(t, p);
    lemma_reordered_slots(t, p);
    match t {
        TreeView::Leaf(_) => {},
        TreeView::Join { kind, left, right, on: condition } => {
            let rels = component(t, p);
            let found = if rels.len() <= MAX_COMPARED {
                crate::component::cheapest_tree(rels, p)
            } else {
                crate::component::greedy_tree(rels, p)
            };
            if !outer(kind) && !holds_working(p.select, rels, rels.len() as int) && rels.len() >= 2
                && found is Some {
                lemma_found_relations(t, p, u);
                lemma_component_relations(t, p);
                lemma_matching(t, u, p);
                assert forall|i: int| 0 <= i < relations(t).len() implies keyed(
                    #[trigger] relations(t)[i],
                    reordered(relations(t)[i], p),
                    on,
                ) by {
                    lemma_keyed_relation(t, u, p, i, on);
                }
                lemma_relations_keep(w, t, p, on);
                assert forall|a: spec_fn(usize) -> Option<int>|
                    #![trigger given(w, t, on, a)]
                    #![trigger given(w, u, on, a)]
                    given(w, t, on, a) == given(w, u, on, a) by {
                    lemma_given_component(w, t, on, a);
                    lemma_given_component(w, u, on, a);
                    assert(keyed(u, t, on));
                    if all_inner(u, on, a) {
                        lemma_inner_conditions(t, u, on, a);
                    }
                    if all_inner(t, on, a) {
                        lemma_inner_conditions(u, t, on, a);
                    }
                    if all_given(w, relations(t), on, a) {
                        assert forall|j: int| 0 <= j < relations(u).len() implies given(
                            w,
                            #[trigger] relations(u)[j],
                            on,
                            a,
                        ) by {
                            let i = place_within(relations(u), rels, j);
                            assert(rels[i] == reordered(relations(t)[i], p));
                            assert(given(w, relations(t)[i], on, a));
                        }
                    }
                    if all_given(w, relations(u), on, a) {
                        assert forall|i: int| 0 <= i < relations(t).len() implies given(
                            w,
                            #[trigger] relations(t)[i],
                            on,
                            a,
                        ) by {
                            assert(rels[i] == reordered(relations(t)[i], p));
                            let j = place_within(rels, relations(u), i);
                            assert(given(w, relations(u)[j], on, a));
                        }
                    }
                }
            } else if outer(kind) {
                let x = reordered(*left, p);
                let y = reordered(*right, p);
                lemma_reordered_slots(*left, p);
                lemma_reordered_slots(*right, p);
                assert(u == (TreeView::Join {
                    kind,
                    left: Box::new(x),
                    right: Box::new(y),
                    on: condition,
                }));
                lemma_keyed_sides(t, u, on);
                reordering_keeps_rows(w, *left, p, on);
                reordering_keeps_rows(w, *right, p, on);
                lemma_sides_keep_rows(w, t, u, on);
            } else {
                assert(u == in_order(t, p));
                lemma_in_order_keeps_rows(w, t, p, on);
            }
        },
    }
}

/// A component that keeps its order keeps its rows.
proof fn lemma_in_order_keeps_rows(
    w: World,
    t: TreeView,
    p: Planning,
    on: spec_fn(Set<usize>, spec_fn(usize) -> Option<int>) -> bool,
)
    requires
        apart(t),
        keyed(t, in_order(t, p), on),
    ensures
        forall|a: spec_fn(usize) -> Option<int>|
            #![trigger given(w, t, on, a)]
            #![trigger given(w, in_order(t, p), on, a)]
            given(w, t, on, a) == given(w, in_order(t, p), on, a),
    decreases t, 1int,
{
    match t {
        TreeView::Leaf(_) => {},
        TreeView::Join { kind, left, right, on: condition } => {
            if outer(kind) {
                reordering_keeps_rows(w, t, p, on);
            } else {
                let u = in_order(t, p);
                lemma_reordered_slots(t, p);
                lemma_reordered_slots(*left, p);
                lemma_reordered_slots(*right, p);
                assert(u == (TreeView::Join {
                    kind,
                    left: Box::new(in_order(*left, p)),
                    right: Box::new(in_order(*right, p)),
                    on: condition,
                }));
                lemma_keyed_sides(t, u, on);
                lemma_in_order_keeps_rows(w, *left, p, on);
                lemma_in_order_keeps_rows(w, *right, p, on);
                lemma_sides_keep_rows(w, t, u, on);
            }
        },
    }
}

/// A condition that is keyed for two joins is keyed for their sides.
proof fn lemma_keyed_sides(
    t: TreeView,
    u: TreeView,
    on: spec_fn(Set<usize>, spec_fn(usize) -> Option<int>) -> bool,
)
    requires
        apart(t),
        apart(u),
        keyed(t, u, on),
    ensures
        match (t, u) {
            (
                TreeView::Join { left, right, .. },
                TreeView::Join { left: x, right: y, .. },
            ) => slot_set(*left) == slot_set(*x) && slot_set(*right) == slot_set(*y) ==> keyed(
                *left,
                *x,
                on,
            ) && keyed(*right, *y, on),
            _ => true,
        },
{
    match (t, u) {
        (TreeView::Join { left, right, .. }, TreeView::Join { left: x, right: y, .. }) => {
            if slot_set(*left) == slot_set(*x) && slot_set(*right) == slot_set(*y) {
                assert forall|s: Set<usize>, a: spec_fn(usize) -> Option<int>|
                    has_join(*left, s) != has_join(*x, s) implies #[trigger] on(s, a) by {
                    lemma_side_is_keyed(t, u, s);
                }
                assert forall|s: Set<usize>, a: spec_fn(usize) -> Option<int>|
                    has_join(*right, s) != has_join(*y, s) implies #[trigger] on(s, a) by {
                    lemma_side_is_keyed(t, u, s);
                }
            }
        },
        _ => {},
    }
}

proof fn lemma_side_is_keyed(t: TreeView, u: TreeView, s: Set<usize>)
    requires
        apart(t),
        apart(u),
    ensures
        match (t, u) {
            (
                TreeView::Join { left, right, .. },
                TreeView::Join { left: x, right: y, .. },
            ) => slot_set(*left) == slot_set(*x) && slot_set(*right) == slot_set(*y) ==> {
                &&& has_join(*left, s) != has_join(*x, s) ==> has_join(t, s) != has_join(u, s)
                &&& has_join(*right, s) != has_join(*y, s) ==> has_join(t, s) != has_join(u, s)
            },
            _ => true,
        },
{
    match (t, u) {
        (TreeView::Join { left, right, .. }, TreeView::Join { left: x, right: y, .. }) => {
            if slot_set(*left) == slot_set(*x) && slot_set(*right) == slot_set(*y) {
                if has_join(t, s) {
                    lemma_join_below(t, s);
                }
                if has_join(u, s) {
                    lemma_join_below(u, s);
                }
                if has_join(*left, s) {
                    lemma_join_within(*left, s);
                }
                if has_join(*x, s) {
                    lemma_join_within(*x, s);
                }
                if has_join(*right, s) {
                    lemma_join_within(*right, s);
                }
                if has_join(*y, s) {
                    lemma_join_within(*y, s);
                }
            }
        },
        _ => {},
    }
}

/// Joins of the same kind whose sides have the same rows and slots have the same rows.
proof fn lemma_sides_keep_rows(
    w: World,
    t: TreeView,
    u: TreeView,
    on: spec_fn(Set<usize>, spec_fn(usize) -> Option<int>) -> bool,
)
    requires
        match (t, u) {
            (
                TreeView::Join { kind, left, right, .. },
                TreeView::Join { kind: k, left: x, right: y, .. },
            ) => {
                &&& kind == k
                &&& slot_set(*left) == slot_set(*x)
                &&& slot_set(*right) == slot_set(*y)
                &&& forall|a: spec_fn(usize) -> Option<int>|
                    #![trigger given(w, *left, on, a)]
                    #![trigger given(w, *x, on, a)]
                    given(w, *left, on, a) == given(w, *x, on, a)
                &&& forall|a: spec_fn(usize) -> Option<int>|
                    #![trigger given(w, *right, on, a)]
                    #![trigger given(w, *y, on, a)]
                    given(w, *right, on, a) == given(w, *y, on, a)
            },
            _ => false,
        },
    ensures
        forall|a: spec_fn(usize) -> Option<int>|
            #![trigger given(w, t, on, a)]
            #![trigger given(w, u, on, a)]
            given(w, t, on, a) == given(w, u, on, a),
{
    match (t, u) {
        (TreeView::Join { left, right, .. }, TreeView::Join { left: x, right: y, .. }) => {
            lemma_slot_set(t);
            lemma_slot_set(u);
            assert forall|a: spec_fn(usize) -> Option<int>|
                #![trigger given(w, t, on, a)]
                #![trigger given(w, u, on, a)]
                given(w, t, on, a) == given(w, u, on, a) by {
                assert(given(w, *left, on, a) == given(w, *x, on, a));
                assert(given(w, *right, on, a) == given(w, *y, on, a));
                lemma_unmatched(w, *left, *x, on, on, slot_set(*right), slot_set(t), a);
                lemma_unmatched(w, *right, *y, on, on, slot_set(*left), slot_set(t), a);
            }
        },
        _ => {},
    }
}

/// A component that holds the working table of a recursive query keeps its order: the relations it
/// joins, each reordered within, stand where they stood.
pub proof fn working_components_keep_their_order(t: TreeView, p: Planning)
    requires
        inner_join(t),
        holds_working(p.select, component(t, p), component(t, p).len() as int),
    ensures
        relations(reordered(t, p)) == component(t, p),
        reordered(t, p) == in_order(t, p),
{
    lemma_in_order_relations(t, p);
}

proof fn lemma_in_order_relations(t: TreeView, p: Planning)
    ensures
        relations(in_order(t, p)) == component(t, p),
    decreases t,
{
    match t {
        TreeView::Leaf(_) => {
            assert(relations(in_order(t, p)) =~= component(t, p));
        },
        TreeView::Join { kind, left, right, .. } => {
            if !outer(kind) {
                lemma_in_order_relations(*left, p);
                lemma_in_order_relations(*right, p);
                assert(relations(in_order(t, p)) =~= relations(in_order(*left, p)) + relations(
                    in_order(*right, p),
                ));
            } else {
                let u = reordered(t, p);
                assert(in_order(t, p) == u);
                assert(relations(u) =~= seq![u]);
                assert(component(t, p) =~= seq![u]);
            }
        },
    }
}

/// The relations of a component and of the tree found for it have the same slots.
proof fn lemma_matching(t: TreeView, u: TreeView, p: Planning)
    requires
        within(relations(u), component(t, p)),
        within(component(t, p), relations(u)),
    ensures
        matching(t, u),
        matching(u, t),
{
    let rels = component(t, p);
    lemma_component_relations(t, p);
    reveal(matching);
    assert forall|i: int| 0 <= i < relations(t).len() implies has_slots(
        relations(u),
        slot_set(#[trigger] relations(t)[i]),
    ) by {
        assert(rels[i] == reordered(relations(t)[i], p));
        lemma_reordered_slots(relations(t)[i], p);
        let j = place_within(rels, relations(u), i);
        assert(slot_set(relations(u)[j]) == slot_set(relations(t)[i]));
    }
    assert forall|j: int| 0 <= j < relations(u).len() implies has_slots(
        relations(t),
        slot_set(#[trigger] relations(u)[j]),
    ) by {
        let i = place_within(relations(u), rels, j);
        assert(rels[i] == reordered(relations(t)[i], p));
        lemma_reordered_slots(relations(t)[i], p);
        assert(slot_set(relations(t)[i]) == slot_set(relations(u)[j]));
    }
}

proof fn lemma_keyed_relation(
    t: TreeView,
    u: TreeView,
    p: Planning,
    i: int,
    on: spec_fn(Set<usize>, spec_fn(usize) -> Option<int>) -> bool,
)
    requires
        apart(t),
        apart(u),
        keyed(t, u, on),
        0 <= i < relations(t).len(),
        within(component(t, p), relations(u)),
    ensures
        keyed(relations(t)[i], reordered(relations(t)[i], p), on),
{
    let x = relations(t)[i];
    let y = reordered(x, p);
    let rels = component(t, p);
    lemma_component_relations(t, p);
    lemma_reordered_slots(x, p);
    assert(rels[i] == y);
    let j = place_within(rels, relations(u), i);
    assert forall|s: Set<usize>, a: spec_fn(usize) -> Option<int>|
        has_join(x, s) != has_join(y, s) implies #[trigger] on(s, a) by {
        lemma_relation(t, i, s);
        lemma_relation(u, j, s);
        if has_join(x, s) {
            lemma_join_within(x, s);
            if has_join(u, s) {
                lemma_join_of_relation(u, j, s);
            }
        } else {
            lemma_join_within(y, s);
            if has_join(t, s) {
                lemma_join_of_relation(t, i, s);
            }
        }
    }
}

proof fn lemma_relations_keep(
    w: World,
    t: TreeView,
    p: Planning,
    on: spec_fn(Set<usize>, spec_fn(usize) -> Option<int>) -> bool,
)
    requires
        apart(t),
        forall|i: int|
            0 <= i < relations(t).len() ==> keyed(
                #[trigger] relations(t)[i],
                reordered(relations(t)[i], p),
                on,
            ),
    ensures
        forall|i: int, a: spec_fn(usize) -> Option<int>|
            0 <= i < relations(t).len() ==> #[trigger] given(w, relations(t)[i], on, a) == given(
                w,
                reordered(relations(t)[i], p),
                on,
                a,
            ),
    decreases t, 1int,
{
    match t {
        TreeView::Leaf(_) => {
            assert(relations(t)[0] == t);
        },
        TreeView::Join { kind, left, right, .. } => {
            if outer(kind) {
                assert(relations(t)[0] == t);
                reordering_keeps_rows(w, t, p, on);
            } else {
                let n = relations(*left).len();
                assert forall|i: int| 0 <= i < relations(*left).len() implies keyed(
                    #[trigger] relations(*left)[i],
                    reordered(relations(*left)[i], p),
                    on,
                ) by {
                    assert(relations(t)[i] == relations(*left)[i]);
                }
                assert forall|i: int| 0 <= i < relations(*right).len() implies keyed(
                    #[trigger] relations(*right)[i],
                    reordered(relations(*right)[i], p),
                    on,
                ) by {
                    assert(relations(t)[n + i] == relations(*right)[i]);
                }
                lemma_relations_keep(w, *left, p, on);
                lemma_relations_keep(w, *right, p, on);
                assert forall|i: int, a: spec_fn(usize) -> Option<int>|
                    0 <= i < relations(t).len() implies #[trigger] given(
                    w,
                    relations(t)[i],
                    on,
                    a,
                ) == given(w, reordered(relations(t)[i], p), on, a) by {
                    if i < n {
                        assert(relations(t)[i] == relations(*left)[i]);
                        assert(given(w, relations(*left)[i], on, a) == given(
                            w,
                            reordered(relations(*left)[i], p),
                            on,
                            a,
                        ));
                    } else {
                        assert(relations(t)[i] == relations(*right)[i - n]);
                        assert(given(w, relations(*right)[i - n], on, a) == given(
                            w,
                            reordered(relations(*right)[i - n], p),
                            on,
                            a,
                        ));
                    }
                }
            }
        },
    }
}

} // verus!
