//! Laws of free joins: which joins an outer join above cannot fill with `NULL`.

use crate::atoms::{
    boundaries, crosses, join_layouts, join_slots, joins, leaf_order, location, meets, null_slots,
    outer, placed_slots, slot_set, spans_outer, BoundaryView, OuterBoundaryLocation,
    PredicatePlacement,
};
use crate::laws_joins::{
    apart, free_join, has_join, lemma_free_is_join, lemma_join_within, lemma_slot_set,
};
use crate::laws_plan::outer_bag;
use crate::query::{JoinKind, TreeView};
use crate::reorder::{movable_placement, smallest_holder};
use vstd::prelude::*;

verus! {

/// Whether an outer join keeps the rows of its left input that match nothing.
pub open spec fn pads_right(kind: JoinKind) -> bool {
    kind == JoinKind::Left || kind == JoinKind::Full
}

/// Whether an outer join keeps the rows of its right input that match nothing.
pub open spec fn pads_left(kind: JoinKind) -> bool {
    kind == JoinKind::Right || kind == JoinKind::Full
}

/// Whether an outer join is the join of the slots `s`, or can fill them with `NULL`.
pub open spec fn bars(e: (JoinKind, Set<usize>, Set<usize>), s: Set<usize>) -> bool {
    ||| s == e.1.union(e.2)
    ||| pads_right(e.0) && s.subset_of(e.2)
    ||| pads_left(e.0) && s.subset_of(e.1)
}

/// The joins of a tree in post-order are its joins, and no two of them have the same slots.
pub proof fn lemma_join_slots(t: TreeView)
    ensures
        join_slots(t).len() == joins(t),
        join_layouts(t).len() == joins(t),
        joins(t) + 1 == leaf_order(t).len(),
        forall|k: int| 0 <= k < joins(t) ==> has_join(t, #[trigger] join_slots(t)[k]),
        forall|k: int|
            0 <= k < joins(t) ==> (#[trigger] join_layouts(t)[k]).to_set() == join_slots(t)[k],
        apart(t) ==> forall|i: int, j: int|
            0 <= i < joins(t) && 0 <= j < joins(t) && (#[trigger] join_slots(t)[i]) == (
            #[trigger] join_slots(t)[j]) ==> i == j,
    decreases t, 1int,
{
    match t {
        TreeView::Leaf(_) => {},
        TreeView::Join { left, right, .. } => {
            lemma_join_slots(*left);
            lemma_join_slots(*right);
            lemma_slot_set(t);
            lemma_slot_set(*left);
            lemma_slot_set(*right);
            let a = join_slots(*left);
            let b = join_slots(*right);
            let n = a.len() as int;
            let m = b.len() as int;
            let all = join_slots(t);
            assert(all == (a + b).push(slot_set(t)));
            let la = join_layouts(*left);
            let lb = join_layouts(*right);
            assert(join_layouts(t) == (la + lb).push(leaf_order(t)));
            assert forall|k: int| 0 <= k < joins(t) implies has_join(t, #[trigger] all[k]) by {
                if k < n {
                    assert(all[k] == a[k]);
                } else if k < n + m {
                    assert(all[k] == b[k - n]);
                }
            }
            assert forall|k: int| 0 <= k < joins(t) implies (
            #[trigger] join_layouts(t)[k]).to_set() == all[k] by {
                if k < n {
                    assert(join_layouts(t)[k] == la[k]);
                    assert(all[k] == a[k]);
                } else if k < n + m {
                    assert(join_layouts(t)[k] == lb[k - n]);
                    assert(all[k] == b[k - n]);
                }
            }
            if apart(t) {
                let x = choose|x: usize| slot_set(*left).contains(x);
                let y = choose|y: usize| slot_set(*right).contains(y);
                assert forall|i: int, j: int|
                    0 <= i < joins(t) && 0 <= j < joins(t) && (#[trigger] all[i]) == (
                    #[trigger] all[j]) implies i == j by {
                    lemma_side(t, i);
                    lemma_side(t, j);
                    assert(slot_set(t).contains(x) && slot_set(t).contains(y));
                    let z = choose|z: usize| all[i].contains(z);
                    if i < n && j < n {
                        assert(a[i] == a[j]);
                    }
                    if n <= i < n + m && n <= j < n + m {
                        assert(b[i - n] == b[j - n]);
                    }
                }
            }
        },
    }
}

proof fn lemma_side(t: TreeView, k: int)
    requires
        t is Join,
        0 <= k < joins(t),
    ensures
        t matches TreeView::Join { left, right, .. } ==> {
            let n = joins(*left);
            let m = joins(*right);
            &&& join_slots(*left).len() == n
            &&& join_slots(*right).len() == m
            &&& exists|z: usize| join_slots(t)[k].contains(z)
            &&& k < n ==> join_slots(t)[k].subset_of(slot_set(*left))
            &&& n <= k < n + m ==> join_slots(t)[k].subset_of(slot_set(*right))
            &&& k == n + m ==> join_slots(t)[k] == slot_set(t)
        },
    decreases t, 0int,
{
    match t {
        TreeView::Leaf(_) => {},
        TreeView::Join { left, right, .. } => {
            lemma_join_slots(*left);
            lemma_join_slots(*right);
            lemma_slot_set(t);
            let a = join_slots(*left);
            let b = join_slots(*right);
            let n = a.len() as int;
            let m = b.len() as int;
            if k < n {
                assert(join_slots(t)[k] == a[k]);
                lemma_join_within(*left, a[k]);
            } else if k < n + m {
                assert(join_slots(t)[k] == b[k - n]);
                lemma_join_within(*right, b[k - n]);
            }
        },
    }
}

/// A join is free, or an outer join of the tree bars it.
pub proof fn barring_join(t: TreeView, s: Set<usize>) -> (e: (JoinKind, Set<usize>, Set<usize>))
    requires
        has_join(t, s),
        !free_join(t, s),
    ensures
        outer_bag(t).count(e) > 0,
        bars(e, s),
    decreases t,
{
    match t {
        TreeView::Leaf(_) => { arbitrary() },
        TreeView::Join { kind, left, right, .. } => {
            lemma_slot_set(t);
            let own = (kind, slot_set(*left), slot_set(*right));
            if s == slot_set(t) {
                assert(outer(kind));
                own
            } else if has_join(*left, s) {
                lemma_join_within(*left, s);
                if pads_left(kind) {
                    own
                } else {
                    barring_join(*left, s)
                }
            } else {
                lemma_join_within(*right, s);
                if pads_right(kind) {
                    own
                } else {
                    barring_join(*right, s)
                }
            }
        },
    }
}

/// What the entries of outer joins say of a tree.
pub proof fn lemma_outer_entry(t: TreeView, e: (JoinKind, Set<usize>, Set<usize>))
    requires
        apart(t),
        outer_bag(t).count(e) > 0,
    ensures
        outer(e.0),
        e.1.disjoint(e.2),
        exists|x: usize| e.1.contains(x),
        exists|x: usize| e.2.contains(x),
        e.1.union(e.2).subset_of(slot_set(t)),
        e.1.finite(),
        e.2.finite(),
        has_join(t, e.1) || exists|x: usize| e.1 == set![x],
        has_join(t, e.2) || exists|x: usize| e.2 == set![x],
        pads_right(e.0) ==> e.2.subset_of(null_slots(t)),
        pads_left(e.0) ==> e.1.subset_of(null_slots(t)),
        forall|s: Set<usize>| meets(s, e.1) && meets(s, e.2) ==> #[trigger] spans_outer(t, s),
        exists|i: int|
            0 <= i < boundaries(t).len() && #[trigger] boundaries(t)[i] == (BoundaryView {
                slots: e.1.union(e.2),
                left: e.1,
                right: e.2,
            }),
    decreases t,
{
    match t {
        TreeView::Leaf(_) => {},
        TreeView::Join { kind, left, right, .. } => {
            lemma_slot_set(t);
            lemma_slot_set(*left);
            lemma_slot_set(*right);
            let a = boundaries(*left);
            let b = boundaries(*right);
            let own = (kind, slot_set(*left), slot_set(*right));
            let target = BoundaryView { slots: e.1.union(e.2), left: e.1, right: e.2 };
            if outer(kind) && e == own {
                lemma_child(*left);
                lemma_child(*right);
                assert(boundaries(t)[(a.len() + b.len()) as int] == target);
            } else if outer_bag(*left).count(e) > 0 {
                lemma_outer_entry(*left, e);
                assert forall|s: Set<usize>|
                    meets(s, e.1) && meets(s, e.2) implies #[trigger] spans_outer(t, s) by {
                    assert(spans_outer(*left, s));
                }
                let i = choose|i: int| 0 <= i < a.len() && #[trigger] a[i] == target;
                assert(boundaries(t)[i] == target);
            } else {
                assert(outer_bag(*right).count(e) > 0);
                lemma_outer_entry(*right, e);
                assert forall|s: Set<usize>|
                    meets(s, e.1) && meets(s, e.2) implies #[trigger] spans_outer(t, s) by {
                    assert(spans_outer(*right, s));
                }
                let i = choose|i: int| 0 <= i < b.len() && #[trigger] b[i] == target;
                assert(boundaries(t)[a.len() + i] == target);
            }
        },
    }
}

proof fn lemma_child(t: TreeView)
    ensures
        slot_set(t).finite(),
        has_join(t, slot_set(t)) || exists|x: usize| slot_set(t) == set![x],
{
    lemma_slot_set(t);
    vstd::seq_lib::seq_to_set_is_finite(leaf_order(t));
    match t {
        TreeView::Leaf(s) => {
            assert(slot_set(t) == set![s]);
        },
        TreeView::Join { .. } => {},
    }
}

/// No outer join bars a free join.
pub proof fn free_joins_are_not_barred(
    t: TreeView,
    s: Set<usize>,
    e: (JoinKind, Set<usize>, Set<usize>),
)
    requires
        apart(t),
        free_join(t, s),
        outer_bag(t).count(e) > 0,
    ensures
        !bars(e, s),
    decreases t,
{
    lemma_outer_entry(t, e);
    lemma_free_is_join(t, s);
    lemma_join_within(t, s);
    let z = choose|z: usize| s.contains(z);
    let p = choose|x: usize| e.1.contains(x);
    let q = choose|x: usize| e.2.contains(x);
    match t {
        TreeView::Leaf(_) => {},
        TreeView::Join { kind, left, right, .. } => {
            lemma_slot_set(t);
            lemma_slot_set(*left);
            lemma_slot_set(*right);
            let x = choose|x: usize| slot_set(*left).contains(x);
            let y = choose|y: usize| slot_set(*right).contains(y);
            assert(slot_set(t).contains(x) && slot_set(t).contains(y));
            assert(e.1.union(e.2).contains(p) && e.1.union(e.2).contains(q));
            let own = (kind, slot_set(*left), slot_set(*right));
            let in_left = kind != JoinKind::Right && kind != JoinKind::Full && free_join(*left, s);
            let in_right = kind != JoinKind::Left && kind != JoinKind::Full && free_join(*right, s);
            if in_left {
                lemma_free_is_join(*left, s);
                lemma_join_within(*left, s);
                assert(slot_set(*left).contains(z));
            } else if in_right {
                lemma_free_is_join(*right, s);
                lemma_join_within(*right, s);
                assert(slot_set(*right).contains(z));
            }
            if outer(kind) && e == own {
                if in_left {
                    assert(!s.contains(y));
                } else {
                    assert(in_right);
                    assert(!s.contains(x));
                }
            } else if outer_bag(*left).count(e) > 0 {
                lemma_outer_entry(*left, e);
                if in_left {
                    free_joins_are_not_barred(*left, s, e);
                } else if in_right {
                    assert(!slot_set(*left).contains(z));
                } else {
                    assert(s.contains(y));
                }
            } else {
                assert(outer_bag(*right).count(e) > 0);
                lemma_outer_entry(*right, e);
                if in_left {
                    assert(!slot_set(*right).contains(z));
                } else if in_right {
                    free_joins_are_not_barred(*right, s, e);
                } else {
                    assert(s.contains(x));
                }
            }
        },
    }
}

proof fn lemma_smallest(sets: Seq<Set<usize>>, slots: Set<usize>, i: int, best: Option<int>)
    requires
        0 <= i <= sets.len(),
        best matches Some(b) ==> 0 <= b < i && slots.subset_of(sets[b]) && forall|j: int|
            0 <= j < i && slots.subset_of(#[trigger] sets[j]) ==> sets[b].len() <= sets[j].len(),
        best is None ==> forall|j: int| 0 <= j < i ==> !slots.subset_of(#[trigger] sets[j]),
    ensures
        smallest_holder(sets, slots, i, best) matches Some(k) ==> 0 <= k < sets.len()
            && slots.subset_of(sets[k]) && forall|j: int|
            0 <= j < sets.len() && slots.subset_of(#[trigger] sets[j]) ==> sets[k].len()
                <= sets[j].len(),
    decreases sets.len() - i,
{
    if i < sets.len() {
        if slots.subset_of(sets[i]) && (match best {
            None => true,
            Some(b) => sets[i].len() < sets[b].len(),
        }) {
            lemma_smallest(sets, slots, i + 1, Some(i));
        } else {
            lemma_smallest(sets, slots, i + 1, best);
        }
    }
}

/// A join of the given slots has a place in post-order.
pub proof fn place_of_join(t: TreeView, s: Set<usize>) -> (k: int)
    requires
        has_join(t, s),
    ensures
        0 <= k < join_slots(t).len(),
        join_slots(t)[k] == s,
    decreases t,
{
    match t {
        TreeView::Leaf(_) => 0,
        TreeView::Join { left, right, .. } => {
            let a = join_slots(*left);
            let b = join_slots(*right);
            if s == slot_set(t) {
                (a.len() + b.len()) as int
            } else if has_join(*left, s) {
                let k = place_of_join(*left, s);
                assert(join_slots(t)[k] == a[k]);
                k
            } else {
                let k = place_of_join(*right, s);
                assert(join_slots(t)[a.len() + k] == b[k]);
                a.len() + k
            }
        },
    }
}

/// The smallest join that holds the slots of a predicate is free, where no outer join can fill one
/// of them with `NULL` and none has them on both sides.
pub proof fn smallest_holders_are_free(original: TreeView, t: TreeView, slots: Set<usize>, id: usize)
    requires
        apart(t),
        apart(original),
        outer_bag(t) == outer_bag(original),
        joins(t) <= usize::MAX,
        movable_placement(t, slots) == PredicatePlacement::Join(id),
        !meets(slots, null_slots(original)),
        !spans_outer(original, slots),
    ensures
        id < join_slots(t).len(),
        free_join(t, join_slots(t)[id as int]),
{
    lemma_join_slots(t);
    let sets = join_slots(t);
    lemma_smallest(sets, slots, 0, None);
    let k = smallest_holder(sets, slots, 0, None)->0;
    assert(id == k);
    let s = sets[k];
    assert(has_join(t, s));
    assert(slots.len() != 0);
    assert(exists|x: usize| slots.contains(x)) by {
        if forall|x: usize| !slots.contains(x) {
            assert(slots =~= Set::empty());
        }
    }
    let x = choose|x: usize| slots.contains(x);
    if !free_join(t, s) {
        let e = barring_join(t, s);
        lemma_outer_entry(t, e);
        lemma_outer_entry(original, e);
        if pads_right(e.0) && s.subset_of(e.2) {
            assert(null_slots(original).contains(x));
        } else if pads_left(e.0) && s.subset_of(e.1) {
            assert(null_slots(original).contains(x));
        } else {
            assert(s == e.1.union(e.2));
            lemma_not_smaller(t, slots, e.1, e.2, k);
            assert(e.1.union(e.2) =~= e.2.union(e.1));
            lemma_not_smaller(t, slots, e.2, e.1, k);
            let p = choose|p: usize| slots.contains(p) && !e.1.contains(p);
            let q = choose|q: usize| slots.contains(q) && !e.2.contains(q);
            assert(s.contains(p) && s.contains(q));
            assert(meets(slots, e.1)) by {
                assert(slots.contains(q) && e.1.contains(q));
            }
            assert(meets(slots, e.2)) by {
                assert(slots.contains(p) && e.2.contains(p));
            }
            assert(spans_outer(original, slots));
        }
    }
}

proof fn lemma_not_smaller(t: TreeView, slots: Set<usize>, a: Set<usize>, b: Set<usize>, k: int)
    requires
        0 <= k < join_slots(t).len(),
        join_slots(t)[k] == a.union(b),
        a.disjoint(b),
        a.finite(),
        b.finite(),
        exists|x: usize| b.contains(x),
        has_join(t, a) || exists|x: usize| a == set![x],
        exists|x: usize| slots.contains(x),
        !exists|x: usize| slots == set![x],
        forall|j: int|
            0 <= j < join_slots(t).len() && slots.subset_of(#[trigger] join_slots(t)[j])
                ==> join_slots(t)[k].len() <= join_slots(t)[j].len(),
    ensures
        !slots.subset_of(a),
{
    if !slots.subset_of(a) {
    } else if has_join(t, a) {
        let j = place_of_join(t, a);
        assert(a.union(b).len() <= a.len());
        vstd::set_lib::lemma_set_disjoint_lens(a, b);
        let y = choose|x: usize| b.contains(x);
        assert(b.len() > 0) by {
            if b.len() == 0 {
                assert(b =~= Set::empty());
            }
        }
    } else {
        let y = choose|x: usize| a == set![x];
        let x = choose|x: usize| slots.contains(x);
        assert(a.contains(x));
        assert(slots =~= set![y]);
    }
}

/// A join that lies where a free join lies, as seen from every outer join, is free.
pub proof fn joins_beside_free_joins_are_free(
    original: TreeView,
    t: TreeView,
    from: Set<usize>,
    id: usize,
)
    requires
        apart(t),
        apart(original),
        outer_bag(t) == outer_bag(original),
        free_join(original, from),
        !crosses(from, PredicatePlacement::Join(id), join_slots(t), boundaries(original)),
    ensures
        id < join_slots(t).len(),
        free_join(t, join_slots(t)[id as int]),
{
    lemma_join_slots(t);
    let sets = join_slots(t);
    assert(placed_slots(PredicatePlacement::Join(id), sets) is Some);
    let s = sets[id as int];
    assert(has_join(t, s));
    if !free_join(t, s) {
        let e = barring_join(t, s);
        lemma_outer_entry(original, e);
        free_joins_are_not_barred(original, from, e);
        let b = BoundaryView { slots: e.1.union(e.2), left: e.1, right: e.2 };
        let i = choose|i: int|
            0 <= i < boundaries(original).len() && #[trigger] boundaries(original)[i] == b;
        assert(location(from, boundaries(original)[i]) == location(s, boundaries(original)[i]));
        assert(location(from, b) == location(s, b));
        lemma_join_within(t, s);
        let z = choose|z: usize| s.contains(z);
        let p = choose|x: usize| e.1.contains(x);
        let q = choose|x: usize| e.2.contains(x);
        assert(e.1.union(e.2).contains(p) && e.1.union(e.2).contains(q));
        if s == e.1.union(e.2) {
            assert(location(s, b) == OuterBoundaryLocation::At);
        } else if pads_right(e.0) && s.subset_of(e.2) {
            assert(!e.1.contains(z));
            assert(location(s, b) == OuterBoundaryLocation::Right);
        } else {
            assert(location(s, b) == OuterBoundaryLocation::Left);
        }
    }
}

} // verus!
