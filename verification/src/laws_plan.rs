//! Laws of planning: what reordering keeps.

use crate::atoms::{
    atom_id, atoms_of, join_atoms, join_slots, joins, leaf_order, on_atoms, outer, slot_set,
    where_atoms, AtomView, PredicateAtomId, PredicateMobility, PredicatePlacement,
};
use crate::cardinality::Planning;
use crate::component::{
    all_bits, best_next, best_plan, best_split, bit, cheapest_tree, cheaper, fewest_rows,
    greedy_tree, join_plans, join_trees, joined_greedily, lemma_best_next, lemma_fewest_rows,
    lemma_first_part, lemma_parts_of, lowest, next_part, only_bit, rows_with, PlanView,
    MAX_COMPARED,
};
use crate::expr::ExprView;
use crate::materialize::{attached, residual_terms, terms_at};
use crate::optimize::optimized_select;
use crate::query::{JoinKind, SelectView, TreeView};
use crate::reorder::{
    atom_check, atoms_check, component, conservation_check, count_ids, ids_of, in_order, occurrences,
    placed_ids, placement_for, reordered, visible_slots, ReorderedView,
};
use crate::stats::StatsLookup;
use vstd::multiset::Multiset;
use vstd::prelude::*;

verus! {

/// Whether what a measure takes from a join without padding is what it takes from its inputs.
pub open spec fn additive<X>(m: spec_fn(TreeView) -> Multiset<X>) -> bool {
    forall|k: JoinKind, l: TreeView, r: TreeView, on: Option<ExprView>|
        !outer(k) ==> #[trigger] m(
            TreeView::Join { kind: k, left: Box::new(l), right: Box::new(r), on },
        ) == m(l).add(m(r))
}

/// What a measure takes from the `i`-th relation, where a mask holds it.
pub open spec fn part<X>(
    rels: Seq<TreeView>,
    m: spec_fn(TreeView) -> Multiset<X>,
    mask: u16,
    i: int,
) -> Multiset<X> {
    if i < rels.len() && mask & bit(i) != 0 {
        m(rels[i])
    } else {
        Multiset::empty()
    }
}

/// What a measure takes from the relations of a mask.
pub open spec fn mask_sum<X>(
    rels: Seq<TreeView>,
    m: spec_fn(TreeView) -> Multiset<X>,
    mask: u16,
) -> Multiset<X> {
    part(rels, m, mask, 0).add(part(rels, m, mask, 1)).add(part(rels, m, mask, 2)).add(
        part(rels, m, mask, 3),
    ).add(part(rels, m, mask, 4)).add(part(rels, m, mask, 5)).add(part(rels, m, mask, 6)).add(
        part(rels, m, mask, 7),
    )
}

/// What a measure takes from the first `n` relations.
pub open spec fn total<X>(rels: Seq<TreeView>, m: spec_fn(TreeView) -> Multiset<X>, n: int) -> Multiset<
    X,
>
    decreases n,
{
    if n <= 0 || n > rels.len() {
        Multiset::empty()
    } else {
        total(rels, m, n - 1).add(m(rels[n - 1]))
    }
}

proof fn lemma_split_bits(mask: u16, left: u16)
    requires
        left & mask == left,
    ensures
        forall|i: int|
            0 <= i < 8 ==> {
                let b = #[trigger] bit(i);
                let right = mask ^ left;
                ((mask & b != 0) == (left & b != 0 || right & b != 0)) && !(left & b != 0 && right
                    & b != 0)
            },
{
    let right = mask ^ left;
    assert forall|i: int| 0 <= i < 8 implies {
        let b = #[trigger] bit(i);
        ((mask & b != 0) == (left & b != 0 || right & b != 0)) && !(left & b != 0 && right & b
            != 0)
    } by {
        let b = bit(i);
        assert(((mask & b != 0) == (left & b != 0 || (mask ^ left) & b != 0)) && !(left & b != 0
            && (mask ^ left) & b != 0)) by (bit_vector)
            requires
                left & mask == left,
                b == 1 || b == 2 || b == 4 || b == 8 || b == 16 || b == 32 || b == 64 || b == 128,
        ;
    }
}

proof fn lemma_split_sum<X>(
    rels: Seq<TreeView>,
    m: spec_fn(TreeView) -> Multiset<X>,
    mask: u16,
    left: u16,
)
    requires
        left & mask == left,
    ensures
        mask_sum(rels, m, mask) == mask_sum(rels, m, left).add(mask_sum(rels, m, mask ^ left)),
{
    lemma_split_bits(mask, left);
    let right = mask ^ left;
    assert forall|i: int| 0 <= i < 8 implies #[trigger] part(rels, m, mask, i) == part(
        rels,
        m,
        left,
        i,
    ).add(part(rels, m, right, i)) by {
        let b = bit(i);
        assert(part(rels, m, mask, i) =~= part(rels, m, left, i).add(part(rels, m, right, i)));
    }
    assert(part(rels, m, mask, 0) == part(rels, m, left, 0).add(part(rels, m, right, 0)));
    assert(part(rels, m, mask, 1) == part(rels, m, left, 1).add(part(rels, m, right, 1)));
    assert(part(rels, m, mask, 2) == part(rels, m, left, 2).add(part(rels, m, right, 2)));
    assert(part(rels, m, mask, 3) == part(rels, m, left, 3).add(part(rels, m, right, 3)));
    assert(part(rels, m, mask, 4) == part(rels, m, left, 4).add(part(rels, m, right, 4)));
    assert(part(rels, m, mask, 5) == part(rels, m, left, 5).add(part(rels, m, right, 5)));
    assert(part(rels, m, mask, 6) == part(rels, m, left, 6).add(part(rels, m, right, 6)));
    assert(part(rels, m, mask, 7) == part(rels, m, left, 7).add(part(rels, m, right, 7)));
    assert(mask_sum(rels, m, mask) =~= mask_sum(rels, m, left).add(mask_sum(rels, m, right)));
}

proof fn lemma_bits()
    ensures
        forall|i: int, j: int|
            0 <= i < 8 && 0 <= j < 8 ==> ((#[trigger] bit(i)) & (#[trigger] bit(j)) != 0) == (i
                == j),
{
    assert forall|i: int, j: int| 0 <= i < 8 && 0 <= j < 8 implies ((#[trigger] bit(i)) & (
    #[trigger] bit(j)) != 0) == (i == j) by {
        let a = bit(i);
        let b = bit(j);
        assert((a & b != 0) == (a == b)) by (bit_vector)
            requires
                a == 1 || a == 2 || a == 4 || a == 8 || a == 16 || a == 32 || a == 64 || a == 128,
                b == 1 || b == 2 || b == 4 || b == 8 || b == 16 || b == 32 || b == 64 || b == 128,
        ;
    }
}

proof fn lemma_single_sum<X>(rels: Seq<TreeView>, m: spec_fn(TreeView) -> Multiset<X>, i: int)
    requires
        0 <= i < 8,
        i < rels.len(),
    ensures
        mask_sum(rels, m, bit(i)) == m(rels[i]),
{
    lemma_bits();
    assert(mask_sum(rels, m, bit(i)) =~= m(rels[i])) by {
        assert forall|j: int| 0 <= j < 8 implies #[trigger] part(rels, m, bit(i), j) == (if i == j {
            m(rels[i])
        } else {
            Multiset::empty()
        }) by {
            assert((bit(i) & bit(j) != 0) == (i == j));
        }
        assert(part(rels, m, bit(i), 0) == if i == 0 { m(rels[i]) } else { Multiset::empty() });
        assert(part(rels, m, bit(i), 1) == if i == 1 { m(rels[i]) } else { Multiset::empty() });
        assert(part(rels, m, bit(i), 2) == if i == 2 { m(rels[i]) } else { Multiset::empty() });
        assert(part(rels, m, bit(i), 3) == if i == 3 { m(rels[i]) } else { Multiset::empty() });
        assert(part(rels, m, bit(i), 4) == if i == 4 { m(rels[i]) } else { Multiset::empty() });
        assert(part(rels, m, bit(i), 5) == if i == 5 { m(rels[i]) } else { Multiset::empty() });
        assert(part(rels, m, bit(i), 6) == if i == 6 { m(rels[i]) } else { Multiset::empty() });
        assert(part(rels, m, bit(i), 7) == if i == 7 { m(rels[i]) } else { Multiset::empty() });
    }
}

proof fn lemma_best_plan<X>(
    rels: Seq<TreeView>,
    mask: u16,
    p: Planning,
    m: spec_fn(TreeView) -> Multiset<X>,
)
    requires
        additive(m),
    ensures
        best_plan(rels, mask, p) matches Some(x) ==> m(x.tree) == mask_sum(rels, m, mask),
    decreases mask, 65536int,
{
    match only_bit(mask) {
        Some(i) => {
            if i < rels.len() {
                assert(mask == bit(i));
                lemma_single_sum(rels, m, i);
            }
        },
        None => {
            lemma_first_part(mask);
            lemma_best_split(rels, mask, next_part(mask, mask), None, p, m);
        },
    }
}

proof fn lemma_best_split<X>(
    rels: Seq<TreeView>,
    mask: u16,
    left: u16,
    best: Option<PlanView>,
    p: Planning,
    m: spec_fn(TreeView) -> Multiset<X>,
)
    requires
        additive(m),
        left & mask == left && left < mask || left == 0,
        best matches Some(x) ==> m(x.tree) == mask_sum(rels, m, mask),
    ensures
        best_split(rels, mask, left, best, p) matches Some(x) ==> m(x.tree) == mask_sum(
            rels,
            m,
            mask,
        ),
    decreases mask, left as int,
{
    if left > 0 {
        lemma_parts_of(mask, left);
        let right = mask ^ left;
        let next = next_part(left, mask);
        if left & lowest(mask) == 0 {
            lemma_best_split(rels, mask, next, best, p, m);
        } else {
            lemma_best_plan(rels, left, p, m);
            lemma_best_plan(rels, right, p, m);
            match (best_plan(rels, left, p), best_plan(rels, right, p)) {
                (Some(a), Some(b)) => {
                    let new = join_plans(p, a, b);
                    lemma_split_sum(rels, m, mask, left);
                    assert(m(new.tree) == m(a.tree).add(m(b.tree)));
                    lemma_best_split(rels, mask, next, cheaper(best, new), p, m);
                },
                _ => {
                    lemma_best_split(rels, mask, next, best, p, m);
                },
            }
        }
    }
}

proof fn lemma_all_bits(n: int, i: int)
    requires
        1 <= n <= 8,
        0 <= i < 8,
    ensures
        (all_bits(n) & bit(i) != 0) == (i < n),
{
    let a = all_bits(n);
    let b = bit(i);
    assert((a & b != 0) == (a >= b)) by (bit_vector)
        requires
            a == 1 || a == 3 || a == 7 || a == 15 || a == 31 || a == 63 || a == 127 || a == 255,
            b == 1 || b == 2 || b == 4 || b == 8 || b == 16 || b == 32 || b == 64 || b == 128,
    ;
}

proof fn lemma_full_sum<X>(rels: Seq<TreeView>, m: spec_fn(TreeView) -> Multiset<X>)
    requires
        1 <= rels.len() <= 8,
    ensures
        mask_sum(rels, m, all_bits(rels.len() as int)) == total(rels, m, rels.len() as int),
{
    let n = rels.len() as int;
    let full = all_bits(n);
    assert forall|i: int| 0 <= i < 8 implies #[trigger] part(rels, m, full, i) == (if i < n {
        m(rels[i])
    } else {
        Multiset::empty()
    }) by {
        lemma_all_bits(n, i);
    }
    let p0 = part(rels, m, full, 0);
    let p1 = part(rels, m, full, 1);
    let p2 = part(rels, m, full, 2);
    let p3 = part(rels, m, full, 3);
    let p4 = part(rels, m, full, 4);
    let p5 = part(rels, m, full, 5);
    let p6 = part(rels, m, full, 6);
    let p7 = part(rels, m, full, 7);
    reveal_with_fuel(total, 9);
    assert(mask_sum(rels, m, full) =~= total(rels, m, n));
}

proof fn lemma_total_add<X>(
    a: Seq<TreeView>,
    b: Seq<TreeView>,
    m: spec_fn(TreeView) -> Multiset<X>,
    n: int,
)
    requires
        0 <= n <= b.len(),
    ensures
        total(a + b, m, a.len() + n) == total(a, m, a.len() as int).add(total(b, m, n)),
    decreases n,
{
    if n == 0 {
        lemma_total_prefix(a, a + b, m, a.len() as int);
        assert(total(a, m, a.len() as int).add(Multiset::empty()) =~= total(a, m, a.len() as int));
    } else {
        lemma_total_add(a, b, m, n - 1);
        assert((a + b)[a.len() + n - 1] == b[n - 1]);
        assert(total(a + b, m, a.len() + n) =~= total(a, m, a.len() as int).add(total(b, m, n)));
    }
}

proof fn lemma_total_prefix<X>(
    a: Seq<TreeView>,
    b: Seq<TreeView>,
    m: spec_fn(TreeView) -> Multiset<X>,
    n: int,
)
    requires
        0 <= n <= a.len() <= b.len(),
        forall|i: int| 0 <= i < n ==> a[i] == b[i],
    ensures
        total(a, m, n) == total(b, m, n),
    decreases n,
{
    if n > 0 {
        lemma_total_prefix(a, b, m, n - 1);
    }
}

proof fn lemma_total_remove<X>(rels: Seq<TreeView>, m: spec_fn(TreeView) -> Multiset<X>, k: int)
    requires
        0 <= k < rels.len(),
    ensures
        total(rels, m, rels.len() as int) == total(
            rels.remove(k),
            m,
            rels.len() - 1,
        ).add(m(rels[k])),
{
    let a = rels.take(k);
    let b = rels.skip(k + 1);
    let one = seq![rels[k]];
    assert(rels =~= a + (one + b));
    assert(rels.remove(k) =~= a + b);
    lemma_total_add(a, one + b, m, (one + b).len() as int);
    lemma_total_add(one, b, m, b.len() as int);
    lemma_total_add(a, b, m, b.len() as int);
    reveal_with_fuel(total, 2);
    assert(total(one, m, 1) =~= m(rels[k]));
    assert(total(rels, m, rels.len() as int) =~= total(rels.remove(k), m, rels.len() - 1).add(
        m(rels[k]),
    ));
}

proof fn lemma_greedily<X>(
    tree: TreeView,
    slots: Set<usize>,
    rows: u64,
    rels: Seq<TreeView>,
    p: Planning,
    m: spec_fn(TreeView) -> Multiset<X>,
)
    requires
        additive(m),
    ensures
        m(joined_greedily(tree, slots, rows, rels, p)) == m(tree).add(
            total(rels, m, rels.len() as int),
        ),
    decreases rels.len(),
{
    if rels.len() == 0 {
        assert(m(tree).add(Multiset::empty()) =~= m(tree));
    } else {
        lemma_best_next(slots, rows, rels, 1, 0, p);
        let k = best_next(slots, rows, rels, 1, 0, p);
        let joined = join_trees(p, tree, slots, rels[k], slot_set(rels[k]));
        lemma_greedily(
            joined,
            slots.union(slot_set(rels[k])),
            rows_with(slots, rows, rels[k], p),
            rels.remove(k),
            p,
            m,
        );
        lemma_total_remove(rels, m, k);
        assert(m(joined) == m(tree).add(m(rels[k])));
        assert(m(joined_greedily(tree, slots, rows, rels, p)) =~= m(tree).add(
            total(rels, m, rels.len() as int),
        ));
    }
}

/// A tree that was found for a component holds what its relations hold.
pub proof fn lemma_found<X>(rels: Seq<TreeView>, p: Planning, m: spec_fn(TreeView) -> Multiset<X>)
    requires
        additive(m),
        rels.len() >= 2,
    ensures
        rels.len() <= MAX_COMPARED ==> (cheapest_tree(rels, p) matches Some(t) ==> m(t) == total(
            rels,
            m,
            rels.len() as int,
        )),
        greedy_tree(rels, p) matches Some(t) ==> m(t) == total(rels, m, rels.len() as int),
{
    if rels.len() <= MAX_COMPARED {
        lemma_best_plan(rels, all_bits(rels.len() as int), p, m);
        lemma_full_sum(rels, m);
    }
    lemma_fewest_rows(rels, 1, 0, p);
    let k = fewest_rows(rels, 1, 0, p);
    lemma_greedily(
        rels[k],
        slot_set(rels[k]),
        crate::cardinality::tree_rows(rels[k], p),
        rels.remove(k),
        p,
        m,
    );
    lemma_total_remove(rels, m, k);
    match greedy_tree(rels, p) {
        Some(t) => {
            assert(m(t) =~= total(rels, m, rels.len() as int));
        },
        None => {},
    }
}

/// The slots of a tree with their numbers of occurrence.
pub open spec fn slot_bag(t: TreeView) -> Multiset<usize> {
    leaf_order(t).to_multiset()
}

proof fn lemma_slot_bag(t: TreeView)
    ensures
        t matches TreeView::Join { left, right, .. } ==> slot_bag(t) == slot_bag(*left).add(
            slot_bag(*right),
        ),
{
    match t {
        TreeView::Join { left, right, .. } => {
            vstd::seq_lib::lemma_multiset_commutative(leaf_order(*left), leaf_order(*right));
        },
        TreeView::Leaf(_) => {},
    }
}

proof fn lemma_slot_bag_additive()
    ensures
        additive(|t: TreeView| slot_bag(t)),
{
    let m = |t: TreeView| slot_bag(t);
    assert forall|k: JoinKind, l: TreeView, r: TreeView, on: Option<ExprView>|
        !outer(k) implies #[trigger] m(
        TreeView::Join { kind: k, left: Box::new(l), right: Box::new(r), on },
    ) == m(l).add(m(r)) by {
        lemma_slot_bag(TreeView::Join { kind: k, left: Box::new(l), right: Box::new(r), on });
    }
}

/// Reordering keeps every slot, and adds none.
pub proof fn reordering_keeps_slots(t: TreeView, p: Planning)
    ensures
        slot_bag(reordered(t, p)) == slot_bag(t),
    decreases
        t,
        (if crate::reorder::inner_join(t) {
            2int
        } else {
            0int
        }),
{
    let m = |t: TreeView| slot_bag(t);
    lemma_slot_bag_additive();
    match t {
        TreeView::Leaf(_) => {},
        TreeView::Join { kind, left, right, .. } => {
            lemma_slot_bag(t);
            if outer(kind) {
                reordering_keeps_slots(*left, p);
                reordering_keeps_slots(*right, p);
                lemma_slot_bag(reordered(t, p));
            } else {
                let rels = component(t, p);
                lemma_component_slots(t, p);
                lemma_in_order_slots(t, p);
                if rels.len() >= 2 {
                    lemma_found(rels, p, m);
                }
            }
        },
    }
}

pub proof fn lemma_in_order_slots(t: TreeView, p: Planning)
    ensures
        slot_bag(in_order(t, p)) == slot_bag(t),
    decreases t, 1int,
{
    match t {
        TreeView::Leaf(_) => {},
        TreeView::Join { kind, left, right, .. } => {
            if outer(kind) {
                reordering_keeps_slots(t, p);
            } else {
                lemma_in_order_slots(*left, p);
                lemma_in_order_slots(*right, p);
                lemma_slot_bag(t);
                lemma_slot_bag(in_order(t, p));
            }
        },
    }
}

proof fn lemma_component_slots(t: TreeView, p: Planning)
    ensures
        total(component(t, p), |t: TreeView| slot_bag(t), component(t, p).len() as int) == slot_bag(
            t,
        ),
    decreases t, 1int,
{
    let m = |t: TreeView| slot_bag(t);
    match t {
        TreeView::Join { kind, left, right, .. } => {
            if !outer(kind) {
                lemma_component_slots(*left, p);
                lemma_component_slots(*right, p);
                lemma_total_add(
                    component(*left, p),
                    component(*right, p),
                    m,
                    component(*right, p).len() as int,
                );
                lemma_slot_bag(t);
            } else {
                reordering_keeps_slots(t, p);
                reveal_with_fuel(total, 2);
                assert(total(seq![reordered(t, p)], m, 1) =~= slot_bag(t));
            }
        },
        TreeView::Leaf(_) => {
            reveal_with_fuel(total, 2);
            assert(total(seq![t], m, 1) =~= slot_bag(t));
        },
    }
}

/// Trees with the same slots have the same set of slots.
proof fn lemma_same_slot_set(a: TreeView, b: TreeView)
    requires
        slot_bag(a) == slot_bag(b),
    ensures
        slot_set(a) == slot_set(b),
{
    leaf_order(a).to_multiset_ensures();
    leaf_order(b).to_multiset_ensures();
    assert(slot_set(a) =~= slot_set(b)) by {
        assert forall|s: usize| slot_set(a).contains(s) <==> slot_set(b).contains(s) by {
            assert(leaf_order(a).contains(s) <==> slot_bag(a).count(s) > 0);
            assert(leaf_order(b).contains(s) <==> slot_bag(b).count(s) > 0);
        }
    }
}

/// The outer joins of a tree with their numbers of occurrence: the kind and the slots of the inputs
/// of each.
pub open spec fn outer_bag(t: TreeView) -> Multiset<(JoinKind, Set<usize>, Set<usize>)>
    decreases t,
{
    match t {
        TreeView::Leaf(_) => Multiset::empty(),
        TreeView::Join { kind, left, right, .. } => {
            let inner = outer_bag(*left).add(outer_bag(*right));
            if outer(kind) {
                inner.insert((kind, slot_set(*left), slot_set(*right)))
            } else {
                inner
            }
        },
    }
}

proof fn lemma_outer_bag_additive()
    ensures
        additive(|t: TreeView| outer_bag(t)),
{
    let m = |t: TreeView| outer_bag(t);
    assert forall|k: JoinKind, l: TreeView, r: TreeView, on: Option<ExprView>|
        !outer(k) implies #[trigger] m(
        TreeView::Join { kind: k, left: Box::new(l), right: Box::new(r), on },
    ) == m(l).add(m(r)) by {}
}

/// Reordering keeps every outer join with its kind and the slots of its inputs, and adds none.
pub proof fn reordering_keeps_outer_joins(t: TreeView, p: Planning)
    ensures
        outer_bag(reordered(t, p)) == outer_bag(t),
    decreases
        t,
        (if crate::reorder::inner_join(t) {
            2int
        } else {
            0int
        }),
{
    let m = |t: TreeView| outer_bag(t);
    lemma_outer_bag_additive();
    match t {
        TreeView::Leaf(_) => {},
        TreeView::Join { kind, left, right, .. } => {
            if outer(kind) {
                reordering_keeps_outer_joins(*left, p);
                reordering_keeps_outer_joins(*right, p);
                reordering_keeps_slots(*left, p);
                reordering_keeps_slots(*right, p);
                lemma_same_slot_set(*left, reordered(*left, p));
                lemma_same_slot_set(*right, reordered(*right, p));
            } else {
                let rels = component(t, p);
                lemma_component_outer_joins(t, p);
                lemma_in_order_outer_joins(t, p);
                if rels.len() >= 2 {
                    lemma_found(rels, p, m);
                }
            }
        },
    }
}

proof fn lemma_in_order_outer_joins(t: TreeView, p: Planning)
    ensures
        outer_bag(in_order(t, p)) == outer_bag(t),
    decreases t, 1int,
{
    match t {
        TreeView::Leaf(_) => {},
        TreeView::Join { kind, left, right, .. } => {
            if outer(kind) {
                reordering_keeps_outer_joins(t, p);
            } else {
                lemma_in_order_outer_joins(*left, p);
                lemma_in_order_outer_joins(*right, p);
            }
        },
    }
}

proof fn lemma_component_outer_joins(t: TreeView, p: Planning)
    ensures
        total(component(t, p), |t: TreeView| outer_bag(t), component(t, p).len() as int)
            == outer_bag(t),
    decreases t, 1int,
{
    let m = |t: TreeView| outer_bag(t);
    match t {
        TreeView::Join { kind, left, right, .. } => {
            if !outer(kind) {
                lemma_component_outer_joins(*left, p);
                lemma_component_outer_joins(*right, p);
                lemma_total_add(
                    component(*left, p),
                    component(*right, p),
                    m,
                    component(*right, p).len() as int,
                );
            } else {
                reordering_keeps_outer_joins(t, p);
                reveal_with_fuel(total, 2);
                assert(total(seq![reordered(t, p)], m, 1) =~= outer_bag(t));
            }
        },
        TreeView::Leaf(_) => {
            reveal_with_fuel(total, 2);
            assert(total(seq![t], m, 1) =~= outer_bag(t));
        },
    }
}

proof fn lemma_join_atom_ids(t: TreeView, under: bool, join: usize, first: int)
    ensures
        forall|i: int|
            0 <= i < join_atoms(t, under, join, first).len() ==> (#[trigger] join_atoms(
                t,
                under,
                join,
                first,
            )[i]).id == atom_id(first + i),
    decreases t,
{
    match t {
        TreeView::Leaf(_) => {},
        TreeView::Join { kind, left, right, on } => {
            let ua = under || kind == JoinKind::Right || kind == JoinKind::Full;
            let ub = under || kind == JoinKind::Left || kind == JoinKind::Full;
            let a = join_atoms(*left, ua, join, first);
            let middle = crate::atoms::ahead(join, joins(*left));
            let b = join_atoms(*right, ub, middle, first + a.len());
            lemma_join_atom_ids(*left, ua, join, first);
            lemma_join_atom_ids(*right, ub, middle, first + a.len());
            let own = crate::atoms::ahead(middle, joins(*right));
            let c = on_atoms(on, kind, under, own, first + a.len() + b.len());
            let all = join_atoms(t, under, join, first);
            assert(all == a + b + c);
            assert forall|i: int| 0 <= i < all.len() implies (#[trigger] all[i]).id == atom_id(
                first + i,
            ) by {
                if i < a.len() {
                    assert(all[i] == a[i]);
                } else if i < a.len() + b.len() {
                    assert(all[i] == b[i - a.len()]);
                } else {
                    assert(all[i] == c[i - a.len() - b.len()]);
                }
            }
        },
    }
}

/// The predicates of a select block are named by their positions, so no two have one name.
pub proof fn predicates_are_named_by_position(s: SelectView)
    ensures
        forall|i: int|
            0 <= i < atoms_of(s).len() ==> (#[trigger] atoms_of(s)[i]).id == atom_id(i),
        atoms_of(s).len() <= u32::MAX ==> ids_of(atoms_of(s)).no_duplicates(),
{
    let w = where_atoms(s.join_tree, s.filter);
    let j = join_atoms(s.join_tree, false, 0, w.len() as int);
    lemma_join_atom_ids(s.join_tree, false, 0, w.len() as int);
    assert forall|i: int| 0 <= i < atoms_of(s).len() implies (#[trigger] atoms_of(s)[i]).id
        == atom_id(i) by {
        if i < w.len() {
            assert(atoms_of(s)[i] == w[i]);
        } else {
            assert(atoms_of(s)[i] == j[i - w.len()]);
        }
    }
    if atoms_of(s).len() <= u32::MAX {
        let ids = ids_of(atoms_of(s));
        assert forall|a: int, b: int| 0 <= a < ids.len() && 0 <= b < ids.len() && a != b implies ids[a]
            != ids[b] by {
            assert(atoms_of(s)[a].id == atom_id(a));
            assert(atoms_of(s)[b].id == atom_id(b));
        }
    }
}

pub proof fn lemma_atoms_check(atoms: Seq<AtomView>, i: int, original: TreeView, r: ReorderedView)
    requires
        0 <= i,
        atoms_check(atoms, i, original, r) is Ok,
    ensures
        forall|k: int| i <= k < atoms.len() ==> atom_check(#[trigger] atoms[k], original, r) is Ok,
    decreases atoms.len() - i,
{
    if i < atoms.len() {
        lemma_atoms_check(atoms, i + 1, original, r);
    }
}

proof fn lemma_count_once(ids: Seq<PredicateAtomId>, k: int, n: int)
    requires
        ids.no_duplicates(),
        0 <= k < ids.len(),
        0 <= n <= ids.len(),
    ensures
        count_ids(ids, ids[k], n) == (if k < n {
            1nat
        } else {
            0nat
        }),
    decreases n,
{
    if n > 0 {
        lemma_count_once(ids, k, n - 1);
    }
}

/// A reordering that passes the check evaluates every predicate exactly once, where all of its
/// slots are at hand; a predicate that must stay after the joins is there, and a pinned one is at a
/// join of the slots it was pinned to.
pub proof fn checked_reorderings_conserve_predicates(
    original: TreeView,
    atoms: Seq<AtomView>,
    r: ReorderedView,
    k: int,
)
    requires
        conservation_check(original, atoms, r) is Ok,
        0 <= k < atoms.len(),
    ensures
        occurrences(placed_ids(r.placements), atoms[k].id) == 1,
        placement_for(r.placements, atoms[k].id, 0) matches Some(p) && {
            &&& visible_slots(atoms[k].id, p, r.tree) matches Ok(v) && atoms[k].slots.subset_of(v)
            &&& atoms[k].mobility == PredicateMobility::PostJoinOnly ==> p
                == PredicatePlacement::PostJoin
            &&& atoms[k].mobility matches PredicateMobility::PinnedToJoin { join_id } ==> (p matches PredicatePlacement::Join(
                j,
            ) && j < join_slots(r.tree).len() && join_id < join_slots(original).len() && join_slots(
                r.tree,
            )[j as int] == join_slots(original)[join_id as int])
        },
{
    lemma_atoms_check(atoms, 0, original, r);
    assert(atom_check(atoms[k], original, r) is Ok);
    let ids = ids_of(atoms);
    lemma_count_once(ids, k, ids.len() as int);
    assert(ids[k] == atoms[k].id);
    assert(occurrences(ids, atoms[k].id) == occurrences(placed_ids(r.placements), atoms[k].id));
}

/// Attaching conditions moves no slot.
pub proof fn lemma_attached_order(
    t: TreeView,
    placed: Seq<(PredicatePlacement, ExprView)>,
    first: usize,
)
    ensures
        leaf_order(attached(t, placed, first)) == leaf_order(t),
    decreases t,
{
    match t {
        TreeView::Join { left, right, .. } => {
            let middle = crate::atoms::ahead(first, joins(*left));
            lemma_attached_order(*left, placed, first);
            lemma_attached_order(*right, placed, middle);
        },
        TreeView::Leaf(_) => {},
    }
}

/// Optimization keeps the slots of a select block and changes nothing but its join tree and its
/// filter; where it falls back, it changes nothing at all, and where it does not, the predicates
/// were checked to be conserved.
pub proof fn optimization_keeps_the_query(s: SelectView, stats: StatsLookup)
    ensures
        optimized_select(s, stats).select matches Some(x) && {
            &&& slot_bag(x.join_tree) == slot_bag(s.join_tree)
            &&& x == (SelectView { join_tree: x.join_tree, filter: x.filter, ..s })
            &&& optimized_select(s, stats).fallback ==> x == s
            &&& !optimized_select(s, stats).fallback ==> conservation_check(
                s.join_tree,
                atoms_of(s),
                crate::reorder::reordering_of(Planning { select: s, stats, atoms: atoms_of(s) }),
            ) is Ok
        },
{
    let atoms = atoms_of(s);
    let p = Planning { select: s, stats, atoms };
    let found = crate::reorder::reordering_of(p);
    reordering_keeps_slots(s.join_tree, p);
    match crate::materialize::placed_terms(
        found.placements,
        0,
        atoms,
        s.slots,
        crate::atoms::join_layouts(found.tree),
        Seq::empty(),
    ) {
        Ok(placed) => {
            lemma_attached_order(found.tree, placed, 0);
        },
        Err(_) => {},
    }
}

/// Every placed predicate is evaluated: at the join it is placed at, or in the filter.
pub proof fn placed_predicates_are_evaluated(
    placed: Seq<(PredicatePlacement, ExprView)>,
    i: int,
    n: int,
)
    requires
        0 <= i < n <= placed.len(),
    ensures
        match placed[i].0 {
            PredicatePlacement::Join(id) => terms_at(placed, id, n).contains(placed[i].1),
            _ => residual_terms(placed, n).contains(placed[i].1),
        },
    decreases n,
{
    if i < n - 1 {
        placed_predicates_are_evaluated(placed, i, n - 1);
        match placed[i].0 {
            PredicatePlacement::Join(id) => {
                let a = terms_at(placed, id, n - 1);
                let k = choose|k: int| 0 <= k < a.len() && a[k] == placed[i].1;
                assert(terms_at(placed, id, n)[k] == placed[i].1);
            },
            _ => {
                let a = residual_terms(placed, n - 1);
                let k = choose|k: int| 0 <= k < a.len() && a[k] == placed[i].1;
                assert(residual_terms(placed, n)[k] == placed[i].1);
            },
        }
    } else {
        match placed[i].0 {
            PredicatePlacement::Join(id) => {
                let a = terms_at(placed, id, n - 1);
                assert(terms_at(placed, id, n)[a.len() as int] == placed[i].1);
            },
            _ => {
                let a = residual_terms(placed, n - 1);
                assert(residual_terms(placed, n)[a.len() as int] == placed[i].1);
            },
        }
    }
}

} // verus!
