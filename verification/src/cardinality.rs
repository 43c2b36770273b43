//! Estimates of the number of rows that join trees give.

use crate::atoms::{
    as_sets, collect_join_slot_sets, join_slots, lists_agree, lists_meet, meets, slot_set,
    slots_of, AtomView, PredicateAtom, PredicateMobility,
};
use crate::double::Double;
use crate::expr::{BinOp, Expr, ExprView};
use crate::query::{JoinTree, SelectBody, SelectView, SlotView, TableSlot, TreeView};
use crate::rounding::{countable, double_product, multiply};
use crate::stats::{
    equality_share, estimate_equality_selectivity, estimate_join_cardinality, estimate_row_count,
    joined_rows, EstimateSource, StatsLookup, DEFAULT_EQUALITY_BITS, DEFAULT_RANGE_BITS,
    DEFAULT_ROWS, ONE_BITS,
};
use crate::value::views;
use vstd::prelude::*;

verus! {

/// What planning reads: the select block, the statistics, and the predicates.
#[derive(Clone, Copy, Debug)]
pub struct Planner<'a> {
    /// Select block.
    pub select: &'a SelectBody,
    /// Statistics.
    pub stats: &'a StatsLookup,
    /// Predicates.
    pub atoms: &'a Vec<PredicateAtom>,
}

/// The mathematical model of a [`Planner`].
pub struct Planning {
    /// Select block.
    pub select: SelectView,
    /// Statistics.
    pub stats: StatsLookup,
    /// Predicates.
    pub atoms: Seq<AtomView>,
}

impl<'a> View for Planner<'a> {
    type V = Planning;

    open spec fn view(&self) -> Planning {
        Planning { select: self.select@, stats: *self.stats, atoms: views(self.atoms@) }
    }
}

/// The table of a slot, where it is one.
pub open spec fn table_of(select: SelectView, slot: int) -> Option<Seq<char>> {
    if 0 <= slot < select.slots.len() {
        match select.slots[slot] {
            SlotView::Base { table, .. } => Some(table),
            _ => None,
        }
    } else {
        None
    }
}

/// The table of a slot, where it is one.
pub fn base_table_name(select: &SelectBody, slot: usize) -> (r: Option<&str>)
    ensures
        match r {
            Some(t) => table_of(select@, slot as int) == Some(t@),
            None => table_of(select@, slot as int) is None,
        },
{
    if slot >= select.slots.len() {
        return None;
    }
    assert(select@.slots[slot as int] == select.slots@[slot as int]@);
    match &select.slots[slot] {
        TableSlot::Base { table, .. } => Some(table.as_str()),
        _ => None,
    }
}

/// Whether a predicate is evaluated at a join of the given inputs.
pub open spec fn evaluated_at(a: AtomView, left: Set<usize>, right: Set<usize>, tree: TreeView) -> bool {
    match a.mobility {
        PredicateMobility::FreelyMovableWithinComponent => meets(a.slots, left) && meets(
            a.slots,
            right,
        ),
        PredicateMobility::PinnedToJoin { join_id } => join_id < join_slots(tree).len()
            && join_slots(tree)[join_id as int] == left.union(right),
        PredicateMobility::PostJoinOnly => false,
    }
}

/// Whether a predicate is evaluated at a join of the given inputs.
pub(crate) fn predicate_evaluates_at_join(
    atom: &PredicateAtom,
    left_slots: &Vec<usize>,
    right_slots: &Vec<usize>,
    tree: &JoinTree,
) -> (r: bool)
    ensures
        r == evaluated_at(atom@, left_slots@.to_set(), right_slots@.to_set(), tree@),
{
    match atom.mobility {
        PredicateMobility::FreelyMovableWithinComponent => lists_meet(
            &atom.referenced_slots,
            left_slots,
        ) && lists_meet(&atom.referenced_slots, right_slots),
        PredicateMobility::PinnedToJoin { join_id } => {
            let both = united(left_slots, right_slots);
            let mut sets: Vec<Vec<usize>> = Vec::new();
            collect_join_slot_sets(tree, &mut sets);
            assert(as_sets(sets@) =~= join_slots(tree@));
            if join_id >= sets.len() {
                return false;
            }
            assert(join_slots(tree@)[join_id as int] == sets@[join_id as int]@.to_set());
            lists_agree(&sets[join_id], &both)
        },
        PredicateMobility::PostJoinOnly => false,
    }
}

/// The slots of two lists.
pub(crate) fn united(a: &Vec<usize>, b: &Vec<usize>) -> (r: Vec<usize>)
    ensures
        r@ == a@ + b@,
        r@.to_set() == a@.to_set().union(b@.to_set()),
{
    let mut out: Vec<usize> = a.clone();
    assert(out@ =~= a@);
    let mut i: usize = 0;
    assert(out@ =~= a@ + b@.take(0));
    while i < b.len()
        invariant
            i <= b.len(),
            out@ == a@ + b@.take(i as int),
        decreases b.len() - i,
    {
        out.push(b[i]);
        assert(out@ =~= a@ + b@.take(i + 1));
        i = i + 1;
    }
    assert(b@.take(b.len() as int) =~= b@);
    proof {
        lemma_union(a@, b@);
    }
    out
}

proof fn lemma_union(a: Seq<usize>, b: Seq<usize>)
    ensures
        (a + b).to_set() == a.to_set().union(b.to_set()),
{
    assert forall|s: usize| (a + b).to_set().contains(s) <==> a.to_set().union(
        b.to_set(),
    ).contains(s) by {
        if a.contains(s) {
            let k = choose|k: int| 0 <= k < a.len() && a[k] == s;
            assert((a + b)[k] == s);
        }
        if b.contains(s) {
            let k = choose|k: int| 0 <= k < b.len() && b[k] == s;
            assert((a + b)[a.len() + k] == s);
        }
        if (a + b).contains(s) {
            let k = choose|k: int| 0 <= k < (a + b).len() && (a + b)[k] == s;
            if k < a.len() {
                assert(a[k] == s);
            } else {
                assert(b[k - a.len()] == s);
            }
        }
    }
    assert((a + b).to_set() =~= a.to_set().union(b.to_set()));
}

/// The share of rows that an equality with a column keeps, where the expression is a column of a
/// table.
pub open spec fn column_share(e: ExprView, p: Planning) -> Option<Double> {
    match e {
        ExprView::ColumnRef { slot, column, .. } => match table_of(p.select, slot as int) {
            Some(t) => Some(equality_share(p.stats, t, column as int).0),
            None => None,
        },
        _ => None,
    }
}

fn share_of_column(e: &Expr, p: &Planner<'_>) -> (r: Option<Double>)
    ensures
        r == column_share(e@, p@),
        r matches Some(d) ==> countable(d),
{
    match e {
        Expr::ColumnRef { slot, column, .. } => match base_table_name(p.select, *slot) {
            Some(t) => Some(estimate_equality_selectivity(p.stats, t, *column).0),
            None => None,
        },
        _ => None,
    }
}

/// The share of rows that an equality keeps: the lesser share of its sides that are columns.
pub open spec fn equality_factor(l: ExprView, r: ExprView, p: Planning) -> Double {
    match (column_share(l, p), column_share(r, p)) {
        (Some(a), Some(b)) => if a.bits <= b.bits {
            a
        } else {
            b
        },
        (Some(a), None) => a,
        (None, Some(b)) => b,
        (None, None) => Double { bits: DEFAULT_EQUALITY_BITS },
    }
}

fn equality_expr_selectivity(l: &Expr, r: &Expr, p: &Planner<'_>) -> (d: Double)
    ensures
        d == equality_factor(l@, r@, p@),
        countable(d),
{
    match (share_of_column(l, p), share_of_column(r, p)) {
        (Some(a), Some(b)) => if a.bits <= b.bits {
            a
        } else {
            b
        },
        (Some(a), None) => a,
        (None, Some(b)) => b,
        (None, None) => Double { bits: DEFAULT_EQUALITY_BITS },
    }
}

/// The share of rows that a predicate keeps at a join.
pub open spec fn term_factor(e: ExprView, p: Planning) -> Double {
    match e {
        ExprView::BinaryOp { op: BinOp::Eq, left, right } => equality_factor(*left, *right, p),
        _ => Double { bits: DEFAULT_RANGE_BITS },
    }
}

fn factor_of_term(e: &Expr, p: &Planner<'_>) -> (d: Double)
    ensures
        d == term_factor(e@, p@),
        countable(d),
{
    match e {
        Expr::BinaryOp { op: BinOp::Eq, left, right } => equality_expr_selectivity(left, right, p),
        _ => Double { bits: DEFAULT_RANGE_BITS },
    }
}

/// The share of rows that the first `n` predicates keep at a join of the given inputs.
pub open spec fn join_share_of(p: Planning, left: Set<usize>, right: Set<usize>, n: int) -> Double
    decreases n,
{
    if n <= 0 || n > p.atoms.len() {
        Double { bits: ONE_BITS }
    } else if evaluated_at(p.atoms[n - 1], left, right, p.select.join_tree) {
        double_product(join_share_of(p, left, right, n - 1), term_factor(p.atoms[n - 1].expr, p))
    } else {
        join_share_of(p, left, right, n - 1)
    }
}

/// The share of rows that the predicates keep at a join of the given inputs, at most all.
pub open spec fn join_share(p: Planning, left: Set<usize>, right: Set<usize>) -> Double {
    let d = join_share_of(p, left, right, p.atoms.len() as int);
    if d.bits > ONE_BITS {
        Double { bits: ONE_BITS }
    } else {
        d
    }
}

/// Estimates the share of rows that the predicates keep at a join of the given inputs.
pub(crate) fn join_selectivity(p: &Planner<'_>, left_slots: &Vec<usize>, right_slots: &Vec<usize>) -> (r:
    Double)
    ensures
        r == join_share(p@, left_slots@.to_set(), right_slots@.to_set()),
        countable(r),
{
    let ghost left = left_slots@.to_set();
    let ghost right = right_slots@.to_set();
    assert(p@.select.join_tree == p.select.join_tree@);
    let mut d = Double { bits: ONE_BITS };
    let mut i: usize = 0;
    while i < p.atoms.len()
        invariant
            i <= p.atoms.len(),
            left == left_slots@.to_set(),
            right == right_slots@.to_set(),
            p@.select.join_tree == p.select.join_tree@,
            d == join_share_of(p@, left, right, i as int),
            countable(d),
        decreases p.atoms.len() - i,
    {
        let a = &p.atoms[i];
        assert(p@.atoms[i as int] == a@);
        if predicate_evaluates_at_join(a, left_slots, right_slots, &p.select.join_tree) {
            let f = factor_of_term(&a.expr, p);
            d = multiply(d, f);
        }
        i = i + 1;
    }
    if d.bits > ONE_BITS {
        Double { bits: ONE_BITS }
    } else {
        d
    }
}

/// Whether one of the first `n` predicates is evaluated at a join of the given inputs.
pub open spec fn any_evaluated(p: Planning, left: Set<usize>, right: Set<usize>, n: int) -> bool
    decreases n,
{
    0 < n <= p.atoms.len() && (any_evaluated(p, left, right, n - 1) || evaluated_at(
        p.atoms[n - 1],
        left,
        right,
        p.select.join_tree,
    ))
}

/// Whether a predicate is evaluated at a join of the given inputs.
pub(crate) fn has_join_predicate(p: &Planner<'_>, left_slots: &Vec<usize>, right_slots: &Vec<usize>) -> (r:
    bool)
    ensures
        r == any_evaluated(
            p@,
            left_slots@.to_set(),
            right_slots@.to_set(),
            p@.atoms.len() as int,
        ),
{
    let ghost left = left_slots@.to_set();
    let ghost right = right_slots@.to_set();
    assert(p@.select.join_tree == p.select.join_tree@);
    let mut found = false;
    let mut i: usize = 0;
    while i < p.atoms.len()
        invariant
            i <= p.atoms.len(),
            left == left_slots@.to_set(),
            right == right_slots@.to_set(),
            p@.select.join_tree == p.select.join_tree@,
            found == any_evaluated(p@, left, right, i as int),
        decreases p.atoms.len() - i,
    {
        let a = &p.atoms[i];
        assert(p@.atoms[i as int] == a@);
        if predicate_evaluates_at_join(a, left_slots, right_slots, &p.select.join_tree) {
            found = true;
        }
        i = i + 1;
    }
    found
}

/// The rows of a slot, and how they were estimated.
pub open spec fn slot_rows(p: Planning, slot: int) -> (u64, EstimateSource) {
    match table_of(p.select, slot) {
        Some(t) => match p.stats.of_table(t) {
            Some(s) => (s.row_count, EstimateSource::Stats),
            None => (DEFAULT_ROWS, EstimateSource::Default),
        },
        None => (DEFAULT_ROWS, EstimateSource::Default),
    }
}

/// Estimates the rows of a slot.
pub(crate) fn rows_of_slot(p: &Planner<'_>, slot: usize) -> (r: (u64, EstimateSource))
    ensures
        r == slot_rows(p@, slot as int),
{
    match base_table_name(p.select, slot) {
        Some(t) => match estimate_row_count(p.stats, t) {
            Ok(x) => x,
            Err(_) => (DEFAULT_ROWS, EstimateSource::Default),
        },
        None => (DEFAULT_ROWS, EstimateSource::Default),
    }
}

/// The rows that a join tree gives.
pub open spec fn tree_rows(t: TreeView, p: Planning) -> u64
    decreases t,
{
    match t {
        TreeView::Leaf(slot) => slot_rows(p, slot as int).0,
        TreeView::Join { left, right, .. } => joined_rows(
            tree_rows(*left, p),
            tree_rows(*right, p),
            join_share(p, slot_set(*left), slot_set(*right)),
            Double { bits: ONE_BITS },
        ),
    }
}

/// Estimates the rows that a join tree gives.
pub(crate) fn estimate_tree_rows(t: &JoinTree, p: &Planner<'_>) -> (r: u64)
    ensures
        r == tree_rows(t@, p@),
    decreases *t,
{
    match t {
        JoinTree::Leaf(slot) => rows_of_slot(p, *slot).0,
        JoinTree::Join { left, right, .. } => {
            let a: u64 = estimate_tree_rows(left, p);
            let b: u64 = estimate_tree_rows(right, p);
            let left_slots = slots_of(left);
            let right_slots = slots_of(right);
            let share = join_selectivity(p, &left_slots, &right_slots);
            estimate_join_cardinality(a, b, share, Double { bits: ONE_BITS })
        },
    }
}

} // verus!
