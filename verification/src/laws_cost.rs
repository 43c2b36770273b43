//! Laws of join costs: which order the comparison of all splits settles on.

use crate::cardinality::{join_share_of, Planning};
use crate::component::{
    best_plan, best_split, cheaper, join_plans, lemma_first_part, lemma_parts_of, lowest,
    next_part, only_bit, rows_between, sub_one, PlanView,
};
use crate::query::TreeView;
use crate::rounding::{count_double, double_product, units};
use vstd::prelude::*;

verus! {

/// The next lower part of a mask skips none.
proof fn lemma_next_part(mask: u16, from: u16, left: u16)
    requires
        left & mask == left,
        from & mask == from,
        left < from,
    ensures
        left <= next_part(from, mask),
{
    let one = sub_one(from);
    assert(left <= one & mask) by (bit_vector)
        requires
            left & mask == left,
            from & mask == from,
            left < from,
            one == from - 1,
    ;
}

/// The best of the remaining splits and a plan costs no more than the plan.
proof fn lemma_keeps_best(
    rels: Seq<TreeView>,
    mask: u16,
    from: u16,
    best: Option<PlanView>,
    p: Planning,
)
    requires
        from & mask == from,
        from < mask,
        best is Some,
    ensures
        best_split(rels, mask, from, best, p) matches Some(m) && m.cost.key() <= best->0.cost.key(),
    decreases from,
{
    if from != 0 {
        lemma_parts_of(mask, from);
        let rest = next_part(from, mask);
        if from & lowest(mask) == 0 {
            lemma_keeps_best(rels, mask, rest, best, p);
        } else {
            match (best_plan(rels, from, p), best_plan(rels, mask ^ from, p)) {
                (Some(a), Some(b)) => {
                    lemma_keeps_best(rels, mask, rest, cheaper(best, join_plans(p, a, b)), p);
                },
                _ => {
                    lemma_keeps_best(rels, mask, rest, best, p);
                },
            }
        }
    }
}

/// The best of the remaining splits costs no more than any of them.
proof fn lemma_best_of_splits(
    rels: Seq<TreeView>,
    mask: u16,
    from: u16,
    best: Option<PlanView>,
    left: u16,
    p: Planning,
)
    requires
        from & mask == from,
        from < mask,
        left & mask == left,
        0 < left <= from,
        left & lowest(mask) != 0,
        best_plan(rels, left, p) is Some,
        best_plan(rels, mask ^ left, p) is Some,
    ensures
        best_split(rels, mask, from, best, p) matches Some(m) && m.cost.key() <= join_plans(
            p,
            best_plan(rels, left, p)->0,
            best_plan(rels, mask ^ left, p)->0,
        ).cost.key(),
    decreases from,
{
    lemma_parts_of(mask, from);
    let rest = next_part(from, mask);
    if from == left {
        let new = join_plans(
            p,
            best_plan(rels, left, p)->0,
            best_plan(rels, mask ^ left, p)->0,
        );
        lemma_keeps_best(rels, mask, rest, cheaper(best, new), p);
    } else {
        lemma_next_part(mask, from, left);
        if from & lowest(mask) == 0 {
            lemma_best_of_splits(rels, mask, rest, best, left, p);
        } else {
            match (best_plan(rels, from, p), best_plan(rels, mask ^ from, p)) {
                (Some(a), Some(b)) => {
                    lemma_best_of_splits(
                        rels,
                        mask,
                        rest,
                        cheaper(best, join_plans(p, a, b)),
                        left,
                        p,
                    );
                },
                _ => {
                    lemma_best_of_splits(rels, mask, rest, best, left, p);
                },
            }
        }
    }
}

/// The same predicates are evaluated at a join whichever input comes first.
proof fn lemma_share_symmetric(p: Planning, left: Set<usize>, right: Set<usize>, n: int)
    ensures
        join_share_of(p, left, right, n) == join_share_of(p, right, left, n),
    decreases n,
{
    if 0 < n <= p.atoms.len() {
        lemma_share_symmetric(p, left, right, n - 1);
        assert(left.union(right) =~= right.union(left));
    }
}

/// A join gives as many rows, and costs as much, whichever input comes first.
pub proof fn joins_cost_the_same_either_way(p: Planning, a: PlanView, b: PlanView)
    ensures
        join_plans(p, a, b).rows == join_plans(p, b, a).rows,
        join_plans(p, a, b).cost == join_plans(p, b, a).cost,
{
    lemma_share_symmetric(p, a.slots, b.slots, p.atoms.len() as int);
    let x = count_double(a.rows as nat);
    let y = count_double(b.rows as nat);
    assert(units(x) * units(y) == units(y) * units(x)) by (nonlinear_arith);
    assert(double_product(x, y) == double_product(y, x));
    assert(rows_between(p, a.slots, a.rows, b.slots, b.rows) == rows_between(
        p,
        b.slots,
        b.rows,
        a.slots,
        a.rows,
    ));
}

/// However a set of relations is split in two, joining the best plans of the parts costs no less
/// than the best plan of the whole.
pub proof fn no_split_is_cheaper(rels: Seq<TreeView>, mask: u16, left: u16, p: Planning)
    requires
        0 < left < mask,
        left & mask == left,
        best_plan(rels, left, p) is Some,
        best_plan(rels, mask ^ left, p) is Some,
    ensures
        best_plan(rels, mask, p) matches Some(m) && m.cost.key() <= join_plans(
            p,
            best_plan(rels, left, p)->0,
            best_plan(rels, mask ^ left, p)->0,
        ).cost.key(),
{
    lemma_first_part(mask);
    lemma_parts_of(mask, left);
    assert(only_bit(mask) is None) by {
        assert(mask != 1 && mask != 2 && mask != 4 && mask != 8 && mask != 16 && mask != 32 && mask
            != 64 && mask != 128) by (bit_vector)
            requires
                0 < left < mask,
                left & mask == left,
        ;
    }
    let right = mask ^ left;
    let one = sub_one(mask);
    let low = lowest(mask);
    assert(mask ^ right == left && (left & low != 0 || right & low != 0)) by (bit_vector)
        requires
            right == mask ^ left,
            left & mask == left,
            mask > 0,
            one == mask - 1,
            low == mask ^ (mask & one),
    ;
    assert(mask & mask == mask) by (bit_vector);
    let first = next_part(mask, mask);
    if left & low != 0 {
        lemma_next_part(mask, mask, left);
        lemma_best_of_splits(rels, mask, first, None, left, p);
    } else {
        lemma_next_part(mask, mask, right);
        lemma_best_of_splits(rels, mask, first, None, right, p);
        joins_cost_the_same_either_way(
            p,
            best_plan(rels, left, p)->0,
            best_plan(rels, right, p)->0,
        );
    }
}

/// What a plan costs, in units, is what its parts cost and the rows it gives, up to a few parts in two
/// to the power of 52; reading one relation costs its rows.
pub proof fn plans_cost_their_rows(p: Planning, a: PlanView, b: PlanView)
    requires
        crate::rounding::units(a.cost) + crate::rounding::units(b.cost)
            >= crate::rounding::one_in_units(),
        crate::rounding::units(a.cost) + crate::rounding::units(b.cost)
            <= crate::laws_rounding::count_bound() * crate::laws_rounding::count_bound()
            * crate::rounding::one_in_units(),
    ensures
        ({
            let j = join_plans(p, a, b);
            crate::laws_rounding::near(
                units(j.cost) as int,
                (units(a.cost) + units(b.cost) + j.rows * crate::rounding::one_in_units()) as int,
                6,
            )
        }),
{
    let j = join_plans(p, a, b);
    crate::laws_rounding::lemma_unit();
    let one = crate::rounding::one_in_units() as int;
    let w = crate::laws_rounding::count_bound();
    let x = (units(a.cost) + units(b.cost)) as int;
    let s = crate::rounding::double_sum(a.cost, b.cost);
    assert(x <= 4 * w * w * one) by (nonlinear_arith)
        requires
            x <= w * w * one,
            w > 0,
            one > 0,
    ;
    crate::laws_rounding::sums_are_near(a.cost, b.cost);
    let n = j.rows as int;
    assert(n >= 1);
    crate::laws_rounding::counts_are_near(j.rows as nat);
    let c = count_double(j.rows as nat);
    let us = units(s) as int;
    let uc = units(c) as int;
    let m = n * one;
    assert(one <= m <= w * one) by (nonlinear_arith)
        requires
            m == n * one,
            1 <= n < w,
            one > 0,
    ;
    crate::laws_rounding::lemma_bounds(us, x, 1);
    crate::laws_rounding::lemma_bounds(uc, m, 1);
    assert(us + uc <= 4 * w * w * one) by (nonlinear_arith)
        requires
            us <= 2 * x,
            x <= w * w * one,
            uc <= 2 * m,
            m <= w * one,
            w == 0x1_0000_0000_0000_0000,
            one > 0,
    ;
    crate::laws_rounding::sums_are_near(s, c);
    let t = units(j.cost) as int;
    crate::laws_rounding::lemma_near_add(us, x, uc, m, 1);
    crate::laws_rounding::lemma_near_chain(t, us + uc, x + m, 1, 1);
    assert(crate::laws_rounding::near(t, x + m, 3));
    crate::laws_rounding::lemma_near_more(t, x + m, 3, 6);
}

/// Whether no slot is the working table of a recursive query.
pub open spec fn none_working(s: crate::query::SelectView) -> bool {
    forall|i: int| 0 <= i < s.slots.len() ==> !((#[trigger] s.slots[i]) is WorkingTableSlot)
}

proof fn lemma_none_working(s: crate::query::SelectView, slots: Seq<usize>, n: int)
    requires
        none_working(s),
    ensures
        !crate::reorder::any_working(s, slots, n),
    decreases n,
{
    if 0 < n <= slots.len() {
        lemma_none_working(s, slots, n - 1);
    }
}

proof fn lemma_none_held(s: crate::query::SelectView, rels: Seq<TreeView>, n: int)
    requires
        none_working(s),
    ensures
        !crate::reorder::holds_working(s, rels, n),
    decreases n,
{
    if 0 < n <= rels.len() {
        lemma_none_held(s, rels, n - 1);
        let order = crate::atoms::leaf_order(rels[n - 1]);
        lemma_none_working(s, order, order.len() as int);
    }
}

/// Up to eight relations that are joined without padding, in a block without the working table of a
/// recursive query, are joined as their best plan says.
pub proof fn few_relations_are_joined_by_their_best_plan(t: TreeView, p: Planning)
    requires
        t matches TreeView::Join { kind, .. } && !(kind is Left) && !(kind is Right) && !(kind is Full),
        2 <= crate::reorder::component(t, p).len() <= 8,
        none_working(p.select),
    ensures
        ({
            let rels = crate::reorder::component(t, p);
            best_plan(rels, crate::component::all_bits(rels.len() as int), p) matches Some(plan)
                ==> crate::reorder::reordered(t, p) == plan.tree
        }),
{
    let rels = crate::reorder::component(t, p);
    lemma_none_held(p.select, rels, rels.len() as int);
}

} // verus!
