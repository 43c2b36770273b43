//! Orders of joining the relations of a component of `INNER` and `CROSS` joins.
//!
//! Up to eight relations are joined as the cheapest way of splitting them in two says, either part
//! in its own best way; more are joined one by one, always the one that gives the fewest rows.

use crate::atoms::{slot_set, slots_of, sort_dedup};
use crate::cardinality::{
    any_evaluated, estimate_tree_rows, has_join_predicate, join_selectivity, join_share, tree_rows,
    united, Planner, Planning,
};
use crate::double::Double;
use crate::query::{JoinKind, JoinTree, TreeView};
use crate::rounding::{count_double, countable, double_of_count, double_sum, sum};
use crate::stats::{estimate_join_cardinality, joined_rows, ONE_BITS};
use crate::value::views;
use vstd::prelude::*;

verus! {

/// The most relations for which all orders are compared.
pub const MAX_COMPARED: usize = 8;

/// A way of joining some relations.
#[derive(Debug)]
pub struct JoinPlan {
    /// Tree.
    pub tree: JoinTree,
    /// Rows it gives.
    pub rows: u64,
    /// Rows that it and its subtrees give.
    pub cost: Double,
    /// Slots.
    pub slots: Vec<usize>,
}

/// The mathematical model of a [`JoinPlan`].
pub struct PlanView {
    /// Tree.
    pub tree: TreeView,
    /// Rows it gives.
    pub rows: u64,
    /// Rows that it and its subtrees give.
    pub cost: Double,
    /// Slots.
    pub slots: Set<usize>,
}

impl View for JoinPlan {
    type V = PlanView;

    open spec fn view(&self) -> PlanView {
        PlanView {
            tree: self.tree@,
            rows: self.rows,
            cost: self.cost,
            slots: self.slots@.to_set(),
        }
    }
}

/// The way of reading one relation.
pub open spec fn leaf_plan(t: TreeView, p: Planning) -> PlanView {
    PlanView {
        tree: t,
        rows: tree_rows(t, p),
        cost: count_double(tree_rows(t, p) as nat),
        slots: slot_set(t),
    }
}

/// How two inputs are joined: with a condition where a predicate is evaluated there.
pub open spec fn kind_between(p: Planning, left: Set<usize>, right: Set<usize>) -> JoinKind {
    if any_evaluated(p, left, right, p.atoms.len() as int) {
        JoinKind::Inner
    } else {
        JoinKind::Cross
    }
}

/// The rows of a join of two inputs.
pub open spec fn rows_between(p: Planning, left: Set<usize>, left_rows: u64, right: Set<usize>, right_rows: u64) -> u64 {
    joined_rows(left_rows, right_rows, join_share(p, left, right), Double { bits: ONE_BITS })
}

/// The join of two trees.
pub open spec fn join_trees(p: Planning, left: TreeView, ls: Set<usize>, right: TreeView, rs: Set<usize>) -> TreeView {
    TreeView::Join {
        kind: kind_between(p, ls, rs),
        left: Box::new(left),
        right: Box::new(right),
        on: None,
    }
}

/// The join of two plans.
pub open spec fn join_plans(p: Planning, a: PlanView, b: PlanView) -> PlanView {
    let rows = rows_between(p, a.slots, a.rows, b.slots, b.rows);
    PlanView {
        tree: join_trees(p, a.tree, a.slots, b.tree, b.slots),
        rows,
        cost: double_sum(double_sum(a.cost, b.cost), count_double(rows as nat)),
        slots: a.slots.union(b.slots),
    }
}

/// The number whose only binary digit stands for a relation.
pub open spec fn bit(i: int) -> u16 {
    if i == 0 {
        1
    } else if i == 1 {
        2
    } else if i == 2 {
        4
    } else if i == 3 {
        8
    } else if i == 4 {
        16
    } else if i == 5 {
        32
    } else if i == 6 {
        64
    } else {
        128
    }
}

/// The relation that the only binary digit of a number stands for, if it has only one.
pub open spec fn only_bit(mask: u16) -> Option<int> {
    if mask == 1 {
        Some(0int)
    } else if mask == 2 {
        Some(1int)
    } else if mask == 4 {
        Some(2int)
    } else if mask == 8 {
        Some(3int)
    } else if mask == 16 {
        Some(4int)
    } else if mask == 32 {
        Some(5int)
    } else if mask == 64 {
        Some(6int)
    } else if mask == 128 {
        Some(7int)
    } else {
        None
    }
}

/// The number whose binary digits stand for the first `n` relations.
pub open spec fn all_bits(n: int) -> u16 {
    if n <= 0 {
        0
    } else if n >= 8 {
        255
    } else {
        (bit(n) - 1) as u16
    }
}

/// The lowest binary digit of a number.
pub open spec fn lowest(mask: u16) -> u16 {
    mask ^ (mask & sub_one(mask))
}

/// One less.
pub open spec fn sub_one(mask: u16) -> u16 {
    if mask == 0 {
        0
    } else {
        (mask - 1) as u16
    }
}

/// The next lower set of digits within those of a mask.
pub open spec fn next_part(left: u16, mask: u16) -> u16 {
    sub_one(left) & mask
}

/// The plan of the cheaper of two; of equally cheap ones the first.
pub open spec fn cheaper(best: Option<PlanView>, new: PlanView) -> Option<PlanView> {
    match best {
        Some(b) if !(b.cost.key() > new.cost.key()) => best,
        _ => Some(new),
    }
}

/// The best plan for the relations of a mask: one relation is read, and several are joined from
/// the best plans of the two parts of a split.
pub open spec fn best_plan(rels: Seq<TreeView>, mask: u16, p: Planning) -> Option<PlanView>
    decreases mask, 65536int,
    via best_plan_decreases
{
    match only_bit(mask) {
        Some(i) => if i < rels.len() {
            Some(leaf_plan(rels[i], p))
        } else {
            None
        },
        None => best_split(rels, mask, next_part(mask, mask), None, p),
    }
}

/// The best of a plan and of those of the splits of a mask whose first part is `left` or lower and
/// holds the lowest digit.
pub open spec fn best_split(
    rels: Seq<TreeView>,
    mask: u16,
    left: u16,
    best: Option<PlanView>,
    p: Planning,
) -> Option<PlanView>
    decreases mask, left as int,
    when left & mask == left && left < mask || left == 0
    via best_split_decreases
{
    if left == 0 {
        best
    } else if left & lowest(mask) == 0 {
        best_split(rels, mask, next_part(left, mask), best, p)
    } else {
        match (best_plan(rels, left, p), best_plan(rels, mask ^ left, p)) {
            (Some(a), Some(b)) => best_split(
                rels,
                mask,
                next_part(left, mask),
                cheaper(best, join_plans(p, a, b)),
                p,
            ),
            _ => best_split(rels, mask, next_part(left, mask), best, p),
        }
    }
}

/// The parts of a split are smaller than the whole.
pub proof fn lemma_parts_of(mask: u16, left: u16)
    requires
        left & mask == left,
        left < mask,
        left > 0,
    ensures
        (mask ^ left) < mask,
        mask ^ left > 0,
        (mask ^ left) & mask == mask ^ left,
        next_part(left, mask) < left,
        next_part(left, mask) & mask == next_part(left, mask),
        next_part(left, mask) < mask,
{
    assert((mask ^ left) < mask && mask ^ left > 0 && (mask ^ left) & mask == mask ^ left)
        by (bit_vector)
        requires
            left & mask == left,
            left < mask,
            left > 0,
    ;
    let one = sub_one(left);
    assert(one & mask <= one && (one & mask) & mask == one & mask) by (bit_vector);
}

/// The first part of a split lies within the mask.
pub proof fn lemma_first_part(mask: u16)
    ensures
        next_part(mask, mask) & mask == next_part(mask, mask),
        mask > 0 ==> next_part(mask, mask) < mask,
        mask == 0 ==> next_part(mask, mask) == 0,
{
    let one = sub_one(mask);
    assert(one & mask <= one && (one & mask) & mask == one & mask) by (bit_vector);
    assert(0u16 & mask == 0) by (bit_vector);
}

#[via_fn]
proof fn best_plan_decreases(rels: Seq<TreeView>, mask: u16, p: Planning) {
    lemma_first_part(mask);
}

#[via_fn]
proof fn best_split_decreases(
    rels: Seq<TreeView>,
    mask: u16,
    left: u16,
    best: Option<PlanView>,
    p: Planning,
) {
    if left > 0 {
        lemma_parts_of(mask, left);
    }
}

/// The cheapest tree over all relations of a component.
pub open spec fn cheapest_tree(rels: Seq<TreeView>, p: Planning) -> Option<TreeView> {
    match best_plan(rels, all_bits(rels.len() as int), p) {
        Some(plan) => Some(plan.tree),
        None => None,
    }
}

fn bit_of(i: usize) -> (r: u16)
    requires
        i < 8,
    ensures
        r == bit(i as int),
        only_bit(r) == Some(i as int),
{
    if i == 0 {
        1
    } else if i == 1 {
        2
    } else if i == 2 {
        4
    } else if i == 3 {
        8
    } else if i == 4 {
        16
    } else if i == 5 {
        32
    } else if i == 6 {
        64
    } else {
        128
    }
}

fn is_single(mask: u16) -> (r: bool)
    ensures
        r == (only_bit(mask) is Some),
{
    mask == 1 || mask == 2 || mask == 4 || mask == 8 || mask == 16 || mask == 32 || mask == 64
        || mask == 128
}

fn previous(n: u16) -> (r: u16)
    ensures
        r == sub_one(n),
{
    if n == 0 {
        0
    } else {
        n - 1
    }
}

fn read_relation(t: &JoinTree, p: &Planner<'_>) -> (r: JoinPlan)
    ensures
        r@ == leaf_plan(t@, p@),
        countable(r.cost),
{
    let rows: u64 = estimate_tree_rows(t, p);
    let all = slots_of(t);
    JoinPlan { tree: t.copy(), rows, cost: double_of_count(rows), slots: sort_dedup(&all) }
}

fn combine(a: &JoinPlan, b: &JoinPlan, p: &Planner<'_>) -> (r: JoinPlan)
    requires
        countable(a.cost),
        countable(b.cost),
    ensures
        r@ == join_plans(p@, a@, b@),
        countable(r.cost),
{
    let share = join_selectivity(p, &a.slots, &b.slots);
    let rows: u64 = estimate_join_cardinality(a.rows, b.rows, share, Double { bits: ONE_BITS });
    let cost = sum(sum(a.cost, b.cost), double_of_count(rows));
    let kind = if has_join_predicate(p, &a.slots, &b.slots) {
        JoinKind::Inner
    } else {
        JoinKind::Cross
    };
    let both = united(&a.slots, &b.slots);
    let tree = JoinTree::Join {
        kind,
        left: Box::new(a.tree.copy()),
        right: Box::new(b.tree.copy()),
        on: None,
    };
    assert(tree@ == join_trees(p@, a.tree@, a.slots@.to_set(), b.tree@, b.slots@.to_set()));
    JoinPlan { tree, rows, cost, slots: sort_dedup(&both) }
}

/// The model of a plan that may be missing.
pub open spec fn plan_view(p: Option<JoinPlan>) -> Option<PlanView> {
    match p {
        Some(x) => Some(x@),
        None => None,
    }
}

/// Whether the cost of a plan that may be missing is a cost.
pub open spec fn plan_countable(p: Option<JoinPlan>) -> bool {
    match p {
        Some(x) => countable(x.cost),
        None => true,
    }
}

fn search_splits(
    plans: &Vec<Option<JoinPlan>>,
    mask: u16,
    p: &Planner<'_>,
    Ghost(rels): Ghost<Seq<TreeView>>,
) -> (r: Option<JoinPlan>)
    requires
        0 < mask <= plans@.len(),
        only_bit(mask) is None,
        forall|m: int|
            0 <= m < mask ==> plan_view(#[trigger] plans@[m]) == best_plan(rels, m as u16, p@)
                && plan_countable(plans@[m]),
    ensures
        plan_view(r) == best_plan(rels, mask, p@),
        plan_countable(r),
{
    let low: u16 = mask ^ (mask & previous(mask));
    let mut left: u16 = previous(mask) & mask;
    let mut best: Option<JoinPlan> = None;
    proof {
        lemma_first_part(mask);
    }
    while left != 0
        invariant
            0 < mask <= plans@.len(),
            only_bit(mask) is None,
            low == lowest(mask),
            left & mask == left,
            left < mask,
            forall|m: int|
                0 <= m < mask ==> plan_view(#[trigger] plans@[m]) == best_plan(rels, m as u16, p@)
                    && plan_countable(plans@[m]),
            plan_countable(best),
            best_plan(rels, mask, p@) == best_split(rels, mask, left, plan_view(best), p@),
        decreases left,
    {
        proof {
            lemma_parts_of(mask, left);
        }
        if left & low != 0 {
            let right: u16 = mask ^ left;
            assert(plan_view(plans@[left as int]) == best_plan(rels, left, p@));
            assert(plan_view(plans@[right as int]) == best_plan(rels, right, p@));
            match (&plans[left as usize], &plans[right as usize]) {
                (Some(a), Some(b)) => {
                    let new = combine(a, b, p);
                    let keep = match &best {
                        Some(x) => !x.cost.exceeds(&new.cost),
                        None => false,
                    };
                    assert(plan_view(
                        if keep {
                            best
                        } else {
                            Some(new)
                        },
                    ) == cheaper(plan_view(best), new@));
                    if !keep {
                        best = Some(new);
                    }
                },
                _ => {},
            }
        }
        left = previous(left) & mask;
    }
    best
}

/// Joins up to eight relations in an order of least cost.
pub(crate) fn reorder_component_dp(relations: &Vec<JoinTree>, p: &Planner<'_>) -> (r: Option<
    JoinTree,
>)
    requires
        2 <= relations@.len() <= MAX_COMPARED,
    ensures
        match r {
            Some(t) => cheapest_tree(views(relations@), p@) == Some(t@),
            None => cheapest_tree(views(relations@), p@) is None,
        },
{
    let ghost rels = views(relations@);
    let n: usize = relations.len();
    let full: u16 = if n == 8 {
        255
    } else {
        bit_of(n) - 1
    };
    assert(full == all_bits(n as int));
    let mut plans: Vec<Option<JoinPlan>> = Vec::new();
    let first: Option<JoinPlan> = None;
    plans.push(first);
    let mut mask: u16 = 1;
    assert(best_plan(rels, 0, p@) is None) by {
        lemma_first_part(0);
    }
    while mask <= full
        invariant
            2 <= n <= 8,
            n == relations@.len(),
            rels == views(relations@),
            full == all_bits(n as int),
            1 <= mask <= full + 1,
            full <= 255,
            plans@.len() == mask,
            forall|m: int|
                0 <= m < mask ==> plan_view(#[trigger] plans@[m]) == best_plan(rels, m as u16, p@)
                    && plan_countable(plans@[m]),
        decreases full + 1 - mask,
    {
        let plan = if is_single(mask) {
            let i: usize = if mask == 1 {
                0
            } else if mask == 2 {
                1
            } else if mask == 4 {
                2
            } else if mask == 8 {
                3
            } else if mask == 16 {
                4
            } else if mask == 32 {
                5
            } else if mask == 64 {
                6
            } else {
                7
            };
            assert(only_bit(mask) == Some(i as int));
            assert(i < n);
            assert(rels[i as int] == relations@[i as int]@);
            Some(read_relation(&relations[i], p))
        } else {
            proof {
                lemma_first_part(mask);
            }
            search_splits(&plans, mask, p, Ghost(rels))
        };
        assert(plan_view(plan) == best_plan(rels, mask, p@));
        plans.push(plan);
        mask = mask + 1;
    }
    assert(plan_view(plans@[full as int]) == best_plan(rels, full, p@));
    match &plans[full as usize] {
        Some(x) => Some(x.tree.copy()),
        None => None,
    }
}

/// The first of the relations from the `i`-th on and of the `best`-th that gives the fewest rows.
pub open spec fn fewest_rows(rels: Seq<TreeView>, i: int, best: int, p: Planning) -> int
    decreases rels.len() - i,
{
    if i < 0 || i >= rels.len() {
        best
    } else if tree_rows(rels[i], p) < tree_rows(rels[best], p) {
        fewest_rows(rels, i + 1, i, p)
    } else {
        fewest_rows(rels, i + 1, best, p)
    }
}

/// The rows of a join of a plan with a relation.
pub open spec fn rows_with(slots: Set<usize>, rows: u64, t: TreeView, p: Planning) -> u64 {
    rows_between(p, slots, rows, slot_set(t), tree_rows(t, p))
}

/// The first of the relations from the `i`-th on and of the `best`-th whose join with a plan gives
/// the fewest rows.
pub open spec fn best_next(
    slots: Set<usize>,
    rows: u64,
    rels: Seq<TreeView>,
    i: int,
    best: int,
    p: Planning,
) -> int
    decreases rels.len() - i,
{
    if i < 0 || i >= rels.len() {
        best
    } else if rows_with(slots, rows, rels[i], p) < rows_with(slots, rows, rels[best], p) {
        best_next(slots, rows, rels, i + 1, i, p)
    } else {
        best_next(slots, rows, rels, i + 1, best, p)
    }
}

/// A plan joined with all of the given relations, one by one, always with the one that gives the
/// fewest rows.
pub open spec fn joined_greedily(
    tree: TreeView,
    slots: Set<usize>,
    rows: u64,
    rels: Seq<TreeView>,
    p: Planning,
) -> TreeView
    decreases rels.len(),
{
    if rels.len() == 0 {
        tree
    } else {
        let k = best_next(slots, rows, rels, 1, 0, p);
        if 0 <= k < rels.len() {
            joined_greedily(
                join_trees(p, tree, slots, rels[k], slot_set(rels[k])),
                slots.union(slot_set(rels[k])),
                rows_with(slots, rows, rels[k], p),
                rels.remove(k),
                p,
            )
        } else {
            tree
        }
    }
}

/// The tree over all relations of a component that begins with the one of fewest rows.
pub open spec fn greedy_tree(rels: Seq<TreeView>, p: Planning) -> Option<TreeView> {
    if rels.len() == 0 {
        None
    } else {
        let k = fewest_rows(rels, 1, 0, p);
        Some(
            joined_greedily(
                rels[k],
                slot_set(rels[k]),
                tree_rows(rels[k], p),
                rels.remove(k),
                p,
            ),
        )
    }
}

/// The relation of fewest rows is one of them.
pub proof fn lemma_fewest_rows(rels: Seq<TreeView>, i: int, best: int, p: Planning)
    requires
        0 <= best < rels.len(),
    ensures
        0 <= fewest_rows(rels, i, best, p) < rels.len(),
    decreases rels.len() - i,
{
    if 0 <= i < rels.len() {
        if tree_rows(rels[i], p) < tree_rows(rels[best], p) {
            lemma_fewest_rows(rels, i + 1, i, p);
        } else {
            lemma_fewest_rows(rels, i + 1, best, p);
        }
    }
}

/// The next relation is one of them.
pub proof fn lemma_best_next(
    slots: Set<usize>,
    rows: u64,
    rels: Seq<TreeView>,
    i: int,
    best: int,
    p: Planning,
)
    requires
        0 <= best < rels.len(),
    ensures
        0 <= best_next(slots, rows, rels, i, best, p) < rels.len(),
    decreases rels.len() - i,
{
    if 0 <= i < rels.len() {
        if rows_with(slots, rows, rels[i], p) < rows_with(slots, rows, rels[best], p) {
            lemma_best_next(slots, rows, rels, i + 1, i, p);
        } else {
            lemma_best_next(slots, rows, rels, i + 1, best, p);
        }
    }
}

fn find_fewest_rows(relations: &Vec<JoinTree>, p: &Planner<'_>) -> (r: usize)
    requires
        relations@.len() > 0,
    ensures
        r < relations@.len(),
        r == fewest_rows(views(relations@), 1, 0, p@),
{
    let ghost rels = views(relations@);
    let mut best: usize = 0;
    let mut rows: u64 = estimate_tree_rows(&relations[0], p);
    let mut i: usize = 1;
    assert(rels[0] == relations@[0]@);
    while i < relations.len()
        invariant
            1 <= i <= relations.len(),
            best < relations.len(),
            rels == views(relations@),
            rows == tree_rows(rels[best as int], p@),
            fewest_rows(rels, 1, 0, p@) == fewest_rows(rels, i as int, best as int, p@),
        decreases relations.len() - i,
    {
        assert(rels[i as int] == relations@[i as int]@);
        let n: u64 = estimate_tree_rows(&relations[i], p);
        if n < rows {
            best = i;
            rows = n;
        }
        i = i + 1;
    }
    best
}

fn estimate_with(slots: &Vec<usize>, rows: u64, t: &JoinTree, p: &Planner<'_>) -> (r: u64)
    ensures
        r == rows_with(slots@.to_set(), rows, t@, p@),
{
    let own = slots_of(t);
    let share = join_selectivity(p, slots, &own);
    estimate_join_cardinality(rows, estimate_tree_rows(t, p), share, Double { bits: ONE_BITS })
}

fn find_best_next(slots: &Vec<usize>, rows: u64, relations: &Vec<JoinTree>, p: &Planner<'_>) -> (r: (
    usize,
    u64,
))
    requires
        relations@.len() > 0,
    ensures
        r.0 < relations@.len(),
        r.0 == best_next(slots@.to_set(), rows, views(relations@), 1, 0, p@),
        r.1 == rows_with(slots@.to_set(), rows, views(relations@)[r.0 as int], p@),
{
    let ghost rels = views(relations@);
    let ghost set = slots@.to_set();
    let mut best: usize = 0;
    assert(rels[0] == relations@[0]@);
    let mut least: u64 = estimate_with(slots, rows, &relations[0], p);
    let mut i: usize = 1;
    while i < relations.len()
        invariant
            1 <= i <= relations.len(),
            best < relations.len(),
            rels == views(relations@),
            set == slots@.to_set(),
            least == rows_with(set, rows, rels[best as int], p@),
            best_next(set, rows, rels, 1, 0, p@) == best_next(
                set,
                rows,
                rels,
                i as int,
                best as int,
                p@,
            ),
        decreases relations.len() - i,
    {
        assert(rels[i as int] == relations@[i as int]@);
        let n: u64 = estimate_with(slots, rows, &relations[i], p);
        if n < least {
            best = i;
            least = n;
        }
        i = i + 1;
    }
    (best, least)
}

/// Joins relations one by one, always the one that gives the fewest rows.
pub(crate) fn reorder_component_greedy(relations: Vec<JoinTree>, p: &Planner<'_>) -> (r: Option<
    JoinTree,
>)
    ensures
        match r {
            Some(t) => greedy_tree(views(relations@), p@) == Some(t@),
            None => greedy_tree(views(relations@), p@) is None,
        },
{
    if relations.len() == 0 {
        return None;
    }
    let ghost all = views(relations@);
    let first: usize = find_fewest_rows(&relations, p);
    let mut rest = relations;
    assert(all[first as int] == rest@[first as int]@);
    let mut rows: u64 = estimate_tree_rows(&rest[first], p);
    let mut slots = slots_of(&rest[first]);
    let mut tree = rest[first].copy();
    let ghost before = rest@;
    let _ = rest.remove(first);
    assert(views(rest@) =~= all.remove(first as int));
    let ghost model = joined_greedily(
        all[first as int],
        slot_set(all[first as int]),
        tree_rows(all[first as int], p@),
        all.remove(first as int),
        p@,
    );
    while rest.len() > 0
        invariant
            greedy_tree(all, p@) == Some(model),
            all == views(relations@),
            model == joined_greedily(tree@, slots@.to_set(), rows, views(rest@), p@),
        decreases rest.len(),
    {
        let ghost rels = views(rest@);
        let (k, n): (usize, u64) = find_best_next(&slots, rows, &rest, p);
        assert(rels[k as int] == rest@[k as int]@);
        let own = slots_of(&rest[k]);
        let kind = if has_join_predicate(p, &slots, &own) {
            JoinKind::Inner
        } else {
            JoinKind::Cross
        };
        let right = rest[k].copy();
        let ghost ls = slots@.to_set();
        let ghost joined = join_trees(p@, tree@, ls, rels[k as int], slot_set(rels[k as int]));
        let next = JoinTree::Join { kind, left: Box::new(tree), right: Box::new(right), on: None };
        assert(next@ == joined);
        tree = next;
        let both = united(&slots, &own);
        slots = sort_dedup(&both);
        rows = n;
        let _ = rest.remove(k);
        assert(views(rest@) =~= rels.remove(k as int));
    }
    Some(tree)
}

} // verus!
