//! Physical choices for a bound query: join order, build sides, pushed-down predicates, and
//! estimates.
//!
//! A choice never changes what a query gives: predicates are checked to be kept, and where they
//! are not, the query is left as it is.

use crate::atoms::{
    atoms_of, extract_predicate_atoms, slot_set, slots_of, AtomView, LeafCandidateId,
    PredicateAtom, PredicateMobility,
};
use crate::cardinality::{
    base_table_name, join_selectivity, join_share, rows_of_slot, slot_rows, table_of, Planner,
    Planning,
};
use crate::double::Double;
use crate::expr::{BinOp, Expr, ExprView};
use crate::materialize::{materialize_predicate_placements, materialized};
use crate::query::{BodyView, BoundQuery, JoinTree, QueryBody, QueryView, SelectBody, SelectView, TreeView};
use crate::reorder::{
    collect_join_metadata, conservation_check, metadata_of, reorder_joins_unchecked, reordering_of,
    validate_predicate_conservation, BuildSide, JoinNodeMetadata,
};
use crate::stats::{
    equality_share, estimate_equality_selectivity, estimate_join_cardinality, joined_rows,
    EstimateSource, StatsLookup, DEFAULT_EQUALITY_BITS, DEFAULT_RANGE_BITS, ONE_BITS,
};
use std::collections::HashMap;
use vstd::prelude::*;

verus! {

broadcast use vstd::std_specs::hash::group_hash_axioms;

/// An estimated number of rows, and how it was estimated.
#[derive(Clone, Copy, Debug, PartialEq, Eq, Structural)]
pub struct NodeEstimate {
    /// Rows that the node gives.
    pub row_count: u64,
    /// How they were estimated.
    pub source: EstimateSource,
}

/// The physical choices for a bound query.
#[derive(Debug, PartialEq)]
pub struct PhysicalQuery {
    /// Select block with its optimized join tree; `None` where the query is no select block.
    pub select: Option<SelectBody>,
    /// Build side of every join, by its post-order index.
    pub join_build_sides: HashMap<usize, BuildSide>,
    /// The predicate pushed down to each slot, if there is one.
    pub pushdown_selections: HashMap<usize, Option<LeafCandidateId>>,
    /// Estimates of the leaves and joins of the tree, in post-order.
    pub node_estimates: Vec<NodeEstimate>,
    /// Whether the select block was left as it is because predicates would not have been kept.
    pub fallback: bool,
}

/// The mathematical model of a [`PhysicalQuery`].
pub struct PhysicalView {
    /// Select block.
    pub select: Option<SelectView>,
    /// Build sides.
    pub build_sides: Map<usize, BuildSide>,
    /// Pushed-down predicates.
    pub pushdown: Map<usize, Option<LeafCandidateId>>,
    /// Estimates.
    pub estimates: Seq<NodeEstimate>,
    /// Whether the select block was left as it is.
    pub fallback: bool,
}

impl View for PhysicalQuery {
    type V = PhysicalView;

    open spec fn view(&self) -> PhysicalView {
        PhysicalView {
            select: match self.select {
                Some(s) => Some(s@),
                None => None,
            },
            build_sides: self.join_build_sides@,
            pushdown: self.pushdown_selections@,
            estimates: self.node_estimates@,
            fallback: self.fallback,
        }
    }
}

/// The column that an expression is.
pub open spec fn location_of(e: ExprView) -> Option<(usize, usize)> {
    match e {
        ExprView::ColumnRef { slot, column, .. } => Some((slot, column)),
        _ => None,
    }
}

fn column_location(e: &Expr) -> (r: Option<(usize, usize)>)
    ensures
        r == location_of(e@),
{
    match e {
        Expr::ColumnRef { slot, column, .. } => Some((*slot, *column)),
        _ => None,
    }
}

/// The share of rows that a predicate keeps at a scan.
pub open spec fn scan_share(e: ExprView, p: Planning) -> Double {
    match e {
        ExprView::BinaryOp { op: BinOp::Eq, left, right } => {
            let at = match location_of(*left) {
                Some(x) => Some(x),
                None => location_of(*right),
            };
            match at {
                Some(x) => match table_of(p.select, x.0 as int) {
                    Some(t) => equality_share(p.stats, t, x.1 as int).0,
                    None => Double { bits: DEFAULT_EQUALITY_BITS },
                },
                None => Double { bits: DEFAULT_EQUALITY_BITS },
            }
        },
        _ => Double { bits: DEFAULT_RANGE_BITS },
    }
}

fn predicate_selectivity(a: &PredicateAtom, p: &Planner<'_>) -> (r: Double)
    ensures
        r == scan_share(a@.expr, p@),
{
    match &a.expr {
        Expr::BinaryOp { op: BinOp::Eq, left, right } => {
            let at = match column_location(left) {
                Some(x) => Some(x),
                None => column_location(right),
            };
            match at {
                Some((slot, column)) => match base_table_name(p.select, slot) {
                    Some(t) => estimate_equality_selectivity(p.stats, t, column).0,
                    None => Double { bits: DEFAULT_EQUALITY_BITS },
                },
                None => Double { bits: DEFAULT_EQUALITY_BITS },
            }
        },
        _ => Double { bits: DEFAULT_RANGE_BITS },
    }
}

/// Whether a predicate can be pushed down to a slot.
pub open spec fn fits_slot(a: AtomView, slot: usize) -> bool {
    a.mobility == PredicateMobility::FreelyMovableWithinComponent && a.slots == set![slot]
}

fn fits(a: &PredicateAtom, slot: usize) -> (r: bool)
    ensures
        r == fits_slot(a@, slot),
{
    match a.mobility {
        PredicateMobility::FreelyMovableWithinComponent => {},
        _ => {
            return false;
        },
    }
    let mut one: Vec<usize> = Vec::new();
    one.push(slot);
    assert(one@.to_set() =~= set![slot]) by {
        assert(one@[0] == slot);
    }
    crate::atoms::lists_agree(&a.referenced_slots, &one)
}

/// The first of the predicates from the `i`-th on and of the `best`-th that fit a slot and keep
/// the fewest rows.
pub open spec fn most_selective(p: Planning, slot: usize, i: int, best: Option<int>) -> Option<int>
    decreases p.atoms.len() - i,
{
    if i < 0 || i >= p.atoms.len() {
        best
    } else if fits_slot(p.atoms[i], slot) && (match best {
        None => true,
        Some(b) => scan_share(p.atoms[i].expr, p).rank() < scan_share(p.atoms[b].expr, p).rank(),
    }) {
        most_selective(p, slot, i + 1, Some(i))
    } else {
        most_selective(p, slot, i + 1, best)
    }
}

/// The predicate pushed down to a slot.
pub open spec fn pushed_down(p: Planning, slot: usize) -> Option<LeafCandidateId> {
    match most_selective(p, slot, 0, None) {
        Some(i) => Some(LeafCandidateId(i as usize)),
        None => None,
    }
}

fn select_for_slot(p: &Planner<'_>, slot: usize) -> (r: Option<LeafCandidateId>)
    ensures
        r == pushed_down(p@, slot),
{
    let mut best: Option<usize> = None;
    let mut share = Double { bits: ONE_BITS };
    let mut i: usize = 0;
    while i < p.atoms.len()
        invariant
            i <= p.atoms.len(),
            best matches Some(b) ==> b < p.atoms.len() && share == scan_share(
                p@.atoms[b as int].expr,
                p@,
            ),
            most_selective(p@, slot, 0, None) == most_selective(
                p@,
                slot,
                i as int,
                match best {
                    Some(b) => Some(b as int),
                    None => None,
                },
            ),
        decreases p.atoms.len() - i,
    {
        let a = &p.atoms[i];
        assert(p@.atoms[i as int] == a@);
        if fits(a, slot) {
            let s = predicate_selectivity(a, p);
            let better = match best {
                None => true,
                Some(_) => s.ranks_below(&share),
            };
            if better {
                best = Some(i);
                share = s;
            }
        }
        i = i + 1;
    }
    match best {
        Some(b) => Some(LeafCandidateId(b)),
        None => None,
    }
}

/// The predicates pushed down to the slots of a select block.
pub open spec fn pushdown_of(p: Planning) -> Map<usize, Option<LeafCandidateId>> {
    Map::new(|s: usize| s < p.select.slots.len(), |s: usize| pushed_down(p, s))
}

fn select_pushdown_candidates(p: &Planner<'_>) -> (r: HashMap<usize, Option<LeafCandidateId>>)
    ensures
        r@ == pushdown_of(p@),
{
    let n: usize = p.select.slots.len();
    let mut out: HashMap<usize, Option<LeafCandidateId>> = HashMap::new();
    let mut slot: usize = 0;
    assert(out@ =~= Map::empty());
    while slot < n
        invariant
            slot <= n,
            n == p@.select.slots.len(),
            out@ == Map::new(|s: usize| s < slot, |s: usize| pushed_down(p@, s)),
        decreases n - slot,
    {
        let chosen = select_for_slot(p, slot);
        out.insert(slot, chosen);
        assert(out@ =~= Map::new(|s: usize| s < slot + 1, |s: usize| pushed_down(p@, s)));
        slot = slot + 1;
    }
    out
}

/// The estimate of a tree.
pub open spec fn estimate_of(t: TreeView, p: Planning) -> NodeEstimate
    decreases t,
{
    match t {
        TreeView::Leaf(slot) => NodeEstimate {
            row_count: slot_rows(p, slot as int).0,
            source: slot_rows(p, slot as int).1,
        },
        TreeView::Join { left, right, .. } => NodeEstimate {
            row_count: joined_rows(
                estimate_of(*left, p).row_count,
                estimate_of(*right, p).row_count,
                join_share(p, slot_set(*left), slot_set(*right)),
                Double { bits: ONE_BITS },
            ),
            source: if estimate_of(*left, p).source == EstimateSource::Stats && estimate_of(
                *right,
                p,
            ).source == EstimateSource::Stats {
                EstimateSource::Stats
            } else {
                EstimateSource::Default
            },
        },
    }
}

/// The estimates of the leaves and joins of a tree, in post-order.
pub open spec fn estimates_of(t: TreeView, p: Planning) -> Seq<NodeEstimate>
    decreases t,
{
    match t {
        TreeView::Leaf(_) => seq![estimate_of(t, p)],
        TreeView::Join { left, right, .. } => (estimates_of(*left, p) + estimates_of(
            *right,
            p,
        )).push(estimate_of(t, p)),
    }
}

fn collect_estimates(t: &JoinTree, p: &Planner<'_>, output: &mut Vec<NodeEstimate>) -> (r:
    NodeEstimate)
    ensures
        final(output)@ == old(output)@ + estimates_of(t@, p@),
        r == estimate_of(t@, p@),
    decreases *t,
{
    let estimate = match t {
        JoinTree::Leaf(slot) => {
            let (row_count, source): (u64, EstimateSource) = rows_of_slot(p, *slot);
            NodeEstimate { row_count, source }
        },
        JoinTree::Join { left, right, .. } => {
            let a = collect_estimates(left, p, output);
            let b = collect_estimates(right, p, output);
            let left_slots = slots_of(left);
            let right_slots = slots_of(right);
            let share = join_selectivity(p, &left_slots, &right_slots);
            let known = match (a.source, b.source) {
                (EstimateSource::Stats, EstimateSource::Stats) => true,
                _ => false,
            };
            NodeEstimate {
                row_count: estimate_join_cardinality(
                    a.row_count,
                    b.row_count,
                    share,
                    Double { bits: ONE_BITS },
                ),
                source: if known {
                    EstimateSource::Stats
                } else {
                    EstimateSource::Default
                },
            }
        },
    };
    output.push(estimate);
    assert(output@ =~= old(output)@ + estimates_of(t@, p@));
    estimate
}

fn estimate_nodes(t: &JoinTree, p: &Planner<'_>) -> (r: Vec<NodeEstimate>)
    ensures
        r@ == estimates_of(t@, p@),
{
    let mut out: Vec<NodeEstimate> = Vec::new();
    let _ = collect_estimates(t, p, &mut out);
    assert(out@ =~= estimates_of(t@, p@));
    out
}

/// The build sides of joins by their indices.
pub open spec fn build_sides_of(list: Seq<JoinNodeMetadata>, n: int) -> Map<usize, BuildSide>
    decreases n,
{
    if n <= 0 || n > list.len() {
        Map::empty()
    } else {
        build_sides_of(list, n - 1).insert(list[n - 1].id, list[n - 1].build_side)
    }
}

fn collect_build_sides(list: &Vec<JoinNodeMetadata>) -> (r: HashMap<usize, BuildSide>)
    ensures
        r@ == build_sides_of(list@, list@.len() as int),
{
    let mut out: HashMap<usize, BuildSide> = HashMap::new();
    let mut i: usize = 0;
    assert(out@ =~= Map::empty());
    while i < list.len()
        invariant
            i <= list.len(),
            out@ == build_sides_of(list@, i as int),
        decreases list.len() - i,
    {
        out.insert(list[i].id, list[i].build_side);
        i = i + 1;
    }
    out
}

/// The choices that leave a select block as it is.
pub open spec fn identity_of(s: SelectView, stats: StatsLookup, fallback: bool) -> PhysicalView {
    let p = Planning { select: s, stats, atoms: atoms_of(s) };
    let metadata = metadata_of(s.join_tree, 0, p);
    PhysicalView {
        select: Some(s),
        build_sides: build_sides_of(metadata, metadata.len() as int),
        pushdown: pushdown_of(p),
        estimates: estimates_of(s.join_tree, p),
        fallback,
    }
}

fn identity_physical_query(select: &SelectBody, stats: &StatsLookup, fallback: bool) -> (r:
    PhysicalQuery)
    ensures
        r@ == identity_of(select@, *stats, fallback),
{
    let atoms = extract_predicate_atoms(select);
    let p = Planner { select, stats, atoms: &atoms };
    assert(p@.select.join_tree == select.join_tree@);
    let mut metadata: Vec<JoinNodeMetadata> = Vec::new();
    let _: u64 = collect_join_metadata(&select.join_tree, &p, &mut metadata);
    assert(metadata@ =~= metadata_of(select.join_tree@, 0, p@));
    PhysicalQuery {
        select: Some(select.copy()),
        join_build_sides: collect_build_sides(&metadata),
        pushdown_selections: select_pushdown_candidates(&p),
        node_estimates: estimate_nodes(&select.join_tree, &p),
        fallback,
    }
}

/// The choices for a select block.
pub open spec fn optimized_select(s: SelectView, stats: StatsLookup) -> PhysicalView {
    let atoms = atoms_of(s);
    let found = reordering_of(Planning { select: s, stats, atoms });
    match conservation_check(s.join_tree, atoms, found) {
        Err(_) => identity_of(s, stats, true),
        Ok(_) => match materialized(s, atoms, found) {
            Err(_) => identity_of(s, stats, true),
            Ok(better) => {
                let p = Planning { select: better, stats, atoms };
                PhysicalView {
                    select: Some(better),
                    build_sides: build_sides_of(found.metadata, found.metadata.len() as int),
                    pushdown: pushdown_of(p),
                    estimates: estimates_of(better.join_tree, p),
                    fallback: false,
                }
            },
        },
    }
}

fn optimize_select(select: &SelectBody, stats: &StatsLookup) -> (r: PhysicalQuery)
    ensures
        r@ == optimized_select(select@, *stats),
{
    let atoms = extract_predicate_atoms(select);
    let found = reorder_joins_unchecked(select, stats, &atoms);
    match validate_predicate_conservation(select, &atoms, &found) {
        Err(_) => {
            return identity_physical_query(select, stats, true);
        },
        Ok(_) => {},
    }
    let better = match materialize_predicate_placements(select, &atoms, &found) {
        Err(_) => {
            return identity_physical_query(select, stats, true);
        },
        Ok(x) => x,
    };
    let p = Planner { select: &better, stats, atoms: &atoms };
    assert(p@.select.join_tree == better.join_tree@);
    let join_build_sides = collect_build_sides(&found.join_metadata);
    let pushdown_selections = select_pushdown_candidates(&p);
    let node_estimates = estimate_nodes(&better.join_tree, &p);
    PhysicalQuery {
        select: Some(better),
        join_build_sides,
        pushdown_selections,
        node_estimates,
        fallback: false,
    }
}

/// The choices for a query: none where it is no select block.
pub open spec fn physical_of(q: QueryView, stats: StatsLookup) -> PhysicalView {
    match q.body {
        BodyView::Select(s) => optimized_select(s, stats),
        _ => PhysicalView {
            select: None,
            build_sides: Map::empty(),
            pushdown: Map::empty(),
            estimates: Seq::empty(),
            fallback: false,
        },
    }
}

/// Makes the physical choices for a bound query.
pub fn optimize(query: &BoundQuery, stats: &StatsLookup) -> (r: PhysicalQuery)
    ensures
        r@ == physical_of(query@, *stats),
{
    assert(query@.body == query.body@);
    match &query.body {
        QueryBody::Select(select) => optimize_select(select, stats),
        _ => {
            let r = PhysicalQuery {
                select: None,
                join_build_sides: HashMap::new(),
                pushdown_selections: HashMap::new(),
                node_estimates: Vec::new(),
                fallback: false,
            };
            assert(r@.build_sides =~= Map::empty());
            assert(r@.pushdown =~= Map::empty());
            assert(r@.estimates =~= Seq::empty());
            r
        },
    }
}

} // verus!
