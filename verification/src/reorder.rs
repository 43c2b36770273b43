//! Reordering of joins, and the placement of predicates in the reordered tree.

use crate::atoms::{
    as_sets, ascending_from, atoms_of, boundaries, collect_join_slot_sets,
    collect_outer_join_boundaries, crosses, extract_predicate_atoms, join_slots, leaf_order,
    list_within, lists_agree, outer, placement_crosses_outer_boundary, slot_set, slots_of,
    sort_dedup, AtomView, OuterJoinBoundary, PredicateAtom, PredicateAtomId, PredicateMobility,
    PredicateOrigin, PredicatePlacement,
};
use crate::cardinality::{rows_of_slot, slot_rows, Planner, Planning};
use crate::component::{
    cheapest_tree, greedy_tree, reorder_component_dp, reorder_component_greedy, MAX_COMPARED,
};
use crate::double::Double;
use crate::expr::ascending;
use crate::query::{JoinKind, JoinTree, SelectBody, SelectView, TableSlot, TreeView};
use crate::stats::{estimate_join_cardinality, joined_rows, StatsLookup, ONE_BITS};
use crate::text::{cat3, count_text, nat_text, owned, unsigned_text};
use crate::value::{outcome, views, ErrorView, HtapError};
use vstd::prelude::*;

verus! {

/// The input of which a join builds a hash table.
#[derive(Clone, Copy, Debug, PartialEq, Eq, Structural)]
pub enum BuildSide {
    /// The left input.
    Left,
    /// The right input.
    Right,
}

/// What planning decides about a join.
#[derive(Clone, Copy, Debug, PartialEq, Eq, Structural)]
pub struct JoinNodeMetadata {
    /// Post-order index of the join.
    pub id: usize,
    /// Join kind.
    pub kind: JoinKind,
    /// Input of which a hash table is built.
    pub build_side: BuildSide,
}

/// A reordered join tree with the placements of the predicates.
#[derive(Debug, PartialEq)]
pub struct ReorderedSelect {
    /// The tree.
    pub join_tree: JoinTree,
    /// The placement of every predicate.
    pub predicate_placements: Vec<(PredicateAtomId, PredicatePlacement)>,
    /// What is decided about every join, in post-order.
    pub join_metadata: Vec<JoinNodeMetadata>,
}

/// The mathematical model of a [`ReorderedSelect`].
pub struct ReorderedView {
    /// The tree.
    pub tree: TreeView,
    /// The placement of every predicate.
    pub placements: Seq<(PredicateAtomId, PredicatePlacement)>,
    /// What is decided about every join, in post-order.
    pub metadata: Seq<JoinNodeMetadata>,
}

impl View for ReorderedSelect {
    type V = ReorderedView;

    open spec fn view(&self) -> ReorderedView {
        ReorderedView {
            tree: self.join_tree@,
            placements: self.predicate_placements@,
            metadata: self.join_metadata@,
        }
    }
}

/// Whether a slot is the working table of a recursive query.
pub open spec fn is_working(select: SelectView, slot: int) -> bool {
    0 <= slot < select.slots.len() && select.slots[slot] is WorkingTableSlot
}

/// Whether one of the first `n` slots is the working table of a recursive query.
pub open spec fn any_working(select: SelectView, slots: Seq<usize>, n: int) -> bool
    decreases n,
{
    0 < n <= slots.len() && (any_working(select, slots, n - 1) || is_working(
        select,
        slots[n - 1] as int,
    ))
}

/// Whether one of the first `n` relations holds the working table of a recursive query.
pub open spec fn holds_working(select: SelectView, rels: Seq<TreeView>, n: int) -> bool
    decreases n,
{
    0 < n <= rels.len() && (holds_working(select, rels, n - 1) || any_working(
        select,
        leaf_order(rels[n - 1]),
        leaf_order(rels[n - 1]).len() as int,
    ))
}

/// Whether a tree is a join that keeps no row without a match.
pub open spec fn inner_join(t: TreeView) -> bool {
    match t {
        TreeView::Join { kind, .. } => !outer(kind),
        TreeView::Leaf(_) => false,
    }
}

/// The relations of a component of inner joins, from left to right, each reordered within.
pub open spec fn component(t: TreeView, p: Planning) -> Seq<TreeView>
    decreases t, 1int,
{
    match t {
        TreeView::Join { kind, left, right, .. } => if !outer(kind) {
            component(*left, p) + component(*right, p)
        } else {
            seq![reordered(t, p)]
        },
        TreeView::Leaf(_) => seq![t],
    }
}

/// A component of inner joins in its order, each relation reordered within.
pub open spec fn in_order(t: TreeView, p: Planning) -> TreeView
    decreases t, 1int,
{
    match t {
        TreeView::Join { kind, left, right, on } => if !outer(kind) {
            TreeView::Join {
                kind,
                left: Box::new(in_order(*left, p)),
                right: Box::new(in_order(*right, p)),
                on,
            }
        } else {
            reordered(t, p)
        },
        TreeView::Leaf(_) => t,
    }
}

/// A tree with its components of inner joins reordered. Outer joins stay where they are, and a
/// component that holds the working table of a recursive query keeps its order.
pub open spec fn reordered(t: TreeView, p: Planning) -> TreeView
    decreases
        t,
        (if inner_join(t) {
            2int
        } else {
            0int
        }),
{
    match t {
        TreeView::Leaf(_) => t,
        TreeView::Join { kind, left, right, on } => if outer(kind) {
            TreeView::Join {
                kind,
                left: Box::new(reordered(*left, p)),
                right: Box::new(reordered(*right, p)),
                on,
            }
        } else {
            let rels = component(t, p);
            if holds_working(p.select, rels, rels.len() as int) || rels.len() < 2 {
                in_order(t, p)
            } else {
                let found = if rels.len() <= MAX_COMPARED {
                    cheapest_tree(rels, p)
                } else {
                    greedy_tree(rels, p)
                };
                match found {
                    Some(x) => x,
                    None => in_order(t, p),
                }
            }
        },
    }
}

fn slot_is_working(select: &SelectBody, slot: usize) -> (r: bool)
    ensures
        r == is_working(select@, slot as int),
{
    if slot >= select.slots.len() {
        return false;
    }
    assert(select@.slots[slot as int] == select.slots@[slot as int]@);
    match &select.slots[slot] {
        TableSlot::WorkingTableSlot { .. } => true,
        _ => false,
    }
}

fn tree_holds_working(select: &SelectBody, t: &JoinTree) -> (r: bool)
    ensures
        r == any_working(select@, leaf_order(t@), leaf_order(t@).len() as int),
{
    let slots = slots_of(t);
    let mut found = false;
    let mut i: usize = 0;
    while i < slots.len()
        invariant
            i <= slots.len(),
            slots@ == leaf_order(t@),
            found == any_working(select@, slots@, i as int),
        decreases slots.len() - i,
    {
        if slot_is_working(select, slots[i]) {
            found = true;
        }
        i = i + 1;
    }
    found
}

fn relations_hold_working(select: &SelectBody, rels: &Vec<JoinTree>) -> (r: bool)
    ensures
        r == holds_working(select@, views(rels@), rels@.len() as int),
{
    let mut found = false;
    let mut i: usize = 0;
    while i < rels.len()
        invariant
            i <= rels.len(),
            found == holds_working(select@, views(rels@), i as int),
        decreases rels.len() - i,
    {
        assert(views(rels@)[i as int] == rels@[i as int]@);
        if tree_holds_working(select, &rels[i]) {
            found = true;
        }
        i = i + 1;
    }
    found
}

fn flatten_inner_component(t: &JoinTree, p: &Planner<'_>) -> (r: Vec<JoinTree>)
    ensures
        views(r@) == component(t@, p@),
    decreases *t, 1int,
{
    match t {
        JoinTree::Join { kind: JoinKind::Inner, left, right, .. }
        | JoinTree::Join { kind: JoinKind::Cross, left, right, .. } => {
            let mut a = flatten_inner_component(left, p);
            let mut b = flatten_inner_component(right, p);
            let ghost x = a@;
            let ghost y = b@;
            a.append(&mut b);
            assert(views(a@) =~= views(x) + views(y));
            a
        },
        JoinTree::Leaf(_) => {
            let mut out: Vec<JoinTree> = Vec::new();
            out.push(t.copy());
            assert(views(out@) =~= seq![t@]);
            out
        },
        _ => {
            let x = reorder_tree(t, p);
            let ghost v = x@;
            let mut out: Vec<JoinTree> = Vec::new();
            out.push(x);
            assert(views(out@) =~= seq![v]);
            out
        },
    }
}

fn rebuild_without_reordering(t: &JoinTree, p: &Planner<'_>) -> (r: JoinTree)
    ensures
        r@ == in_order(t@, p@),
    decreases *t, 1int,
{
    match t {
        JoinTree::Leaf(_) => t.copy(),
        JoinTree::Join { kind, left, right, on } => {
            let inner = match kind {
                JoinKind::Inner | JoinKind::Cross => true,
                _ => false,
            };
            if !inner {
                return reorder_tree(t, p);
            }
            let a = rebuild_without_reordering(left, p);
            let b = rebuild_without_reordering(right, p);
            JoinTree::Join {
                kind: *kind,
                left: Box::new(a),
                right: Box::new(b),
                on: crate::query::copy_option(on),
            }
        },
    }
}

fn reorder_tree(t: &JoinTree, p: &Planner<'_>) -> (r: JoinTree)
    ensures
        r@ == reordered(t@, p@),
    decreases
        *t,
        (if inner_join(t@) {
            2int
        } else {
            0int
        }),
{
    match t {
        JoinTree::Leaf(_) => t.copy(),
        JoinTree::Join { kind, left, right, on } => {
            let inner = match kind {
                JoinKind::Inner | JoinKind::Cross => true,
                _ => false,
            };
            if inner {
                let rels = flatten_inner_component(t, p);
                assert(p@.select == p.select@);
                if !relations_hold_working(p.select, &rels) && rels.len() >= 2 {
                    let found = if rels.len() <= MAX_COMPARED {
                        reorder_component_dp(&rels, p)
                    } else {
                        reorder_component_greedy(rels, p)
                    };
                    match found {
                        Some(x) => {
                            return x;
                        },
                        None => {},
                    }
                }
                return rebuild_without_reordering(t, p);
            }
            let a = reorder_tree(left, p);
            let b = reorder_tree(right, p);
            JoinTree::Join {
                kind: *kind,
                left: Box::new(a),
                right: Box::new(b),
                on: crate::query::copy_option(on),
            }
        },
    }
}

/// The rows that a tree gives where no predicate drops any.
pub open spec fn plain_rows(t: TreeView, p: Planning) -> u64
    decreases t,
{
    match t {
        TreeView::Leaf(slot) => slot_rows(p, slot as int).0,
        TreeView::Join { left, right, .. } => joined_rows(
            plain_rows(*left, p),
            plain_rows(*right, p),
            Double { bits: ONE_BITS },
            Double { bits: ONE_BITS },
        ),
    }
}

/// What is decided about every join of a tree, in post-order; `first` joins come before.
pub open spec fn metadata_of(t: TreeView, first: int, p: Planning) -> Seq<JoinNodeMetadata>
    decreases t,
{
    match t {
        TreeView::Leaf(_) => Seq::empty(),
        TreeView::Join { kind, left, right, .. } => {
            let a = metadata_of(*left, first, p);
            let b = metadata_of(*right, first + a.len(), p);
            (a + b).push(
                JoinNodeMetadata {
                    id: (first + a.len() + b.len()) as usize,
                    kind,
                    build_side: if plain_rows(*left, p) <= plain_rows(*right, p) {
                        BuildSide::Left
                    } else {
                        BuildSide::Right
                    },
                },
            )
        },
    }
}

/// Appends what is decided about every join of a tree, in post-order.
pub(crate) fn collect_join_metadata(t: &JoinTree, p: &Planner<'_>, output: &mut Vec<
    JoinNodeMetadata,
>) -> (r: u64)
    ensures
        final(output)@ == old(output)@ + metadata_of(t@, old(output)@.len() as int, p@),
        r == plain_rows(t@, p@),
    decreases *t,
{
    match t {
        JoinTree::Leaf(slot) => {
            assert(output@ =~= old(output)@ + Seq::empty());
            rows_of_slot(p, *slot).0
        },
        JoinTree::Join { kind, left, right, .. } => {
            let a: u64 = collect_join_metadata(left, p, output);
            let b: u64 = collect_join_metadata(right, p, output);
            let id: usize = output.len();
            output.push(
                JoinNodeMetadata {
                    id,
                    kind: *kind,
                    build_side: if a <= b {
                        BuildSide::Left
                    } else {
                        BuildSide::Right
                    },
                },
            );
            assert(output@ =~= old(output)@ + metadata_of(t@, old(output)@.len() as int, p@));
            estimate_join_cardinality(
                a,
                b,
                Double { bits: ONE_BITS },
                Double { bits: ONE_BITS },
            )
        },
    }
}

/// The first set from the `i`-th on that equals the given one.
pub open spec fn position_of(sets: Seq<Set<usize>>, target: Set<usize>, i: int) -> Option<int>
    decreases sets.len() - i,
{
    if i < 0 || i >= sets.len() {
        None
    } else if sets[i] == target {
        Some(i)
    } else {
        position_of(sets, target, i + 1)
    }
}

fn find_position(sets: &Vec<Vec<usize>>, target: &Vec<usize>) -> (r: Option<usize>)
    ensures
        match r {
            Some(i) => position_of(as_sets(sets@), target@.to_set(), 0) == Some(i as int),
            None => position_of(as_sets(sets@), target@.to_set(), 0) is None,
        },
{
    let mut i: usize = 0;
    while i < sets.len()
        invariant
            i <= sets.len(),
            position_of(as_sets(sets@), target@.to_set(), 0) == position_of(
                as_sets(sets@),
                target@.to_set(),
                i as int,
            ),
        decreases sets.len() - i,
    {
        if lists_agree(&sets[i], target) {
            return Some(i);
        }
        i = i + 1;
    }
    None
}

/// The join at a position, or the place after all joins.
pub open spec fn join_or_after(i: Option<int>) -> PredicatePlacement {
    match i {
        Some(k) => PredicatePlacement::Join(k as usize),
        None => PredicatePlacement::PostJoin,
    }
}

/// The smallest of the sets from the `i`-th on and of the `best`-th that hold all given slots; of
/// equally small ones the first.
pub open spec fn smallest_holder(
    sets: Seq<Set<usize>>,
    slots: Set<usize>,
    i: int,
    best: Option<int>,
) -> Option<int>
    decreases sets.len() - i,
{
    if i < 0 || i >= sets.len() {
        best
    } else if slots.subset_of(sets[i]) && (match best {
        None => true,
        Some(b) => sets[i].len() < sets[b].len(),
    }) {
        smallest_holder(sets, slots, i + 1, Some(i))
    } else {
        smallest_holder(sets, slots, i + 1, best)
    }
}

/// Where a predicate that can move is evaluated: at the scan of its only slot, at the smallest join
/// of all its slots, or after all joins.
pub open spec fn movable_placement(t: TreeView, slots: Set<usize>) -> PredicatePlacement {
    if slots.len() == 0 {
        PredicatePlacement::PostJoin
    } else if exists|s: usize| slots == set![s] {
        PredicatePlacement::Scan(choose|s: usize| slots == set![s])
    } else {
        join_or_after(smallest_holder(join_slots(t), slots, 0, None))
    }
}

proof fn lemma_ascending_len(s: Seq<usize>)
    requires
        ascending(s),
    ensures
        s.to_set().len() == s.len(),
        s.to_set().finite(),
{
    assert(s.no_duplicates()) by {
        assert forall|i: int, j: int| 0 <= i < s.len() && 0 <= j < s.len() && i != j implies s[i]
            != s[j] by {
            if i < j {
                assert(s[i] < s[j]);
            } else {
                assert(s[j] < s[i]);
            }
        }
    }
    s.unique_seq_to_set();
}

/// Where a predicate that can move is evaluated.
pub fn place_movable_predicate(tree: &JoinTree, referenced_slots: &Vec<usize>) -> (r:
    PredicatePlacement)
    ensures
        r == movable_placement(tree@, referenced_slots@.to_set()),
{
    let slots = sort_dedup(referenced_slots);
    let ghost set = slots@.to_set();
    proof {
        lemma_ascending_len(slots@);
    }
    if slots.len() == 0 {
        return PredicatePlacement::PostJoin;
    }
    if slots.len() == 1 {
        let s: usize = slots[0];
        assert(set =~= set![s]) by {
            assert(slots@.contains(s));
        }
        assert(set == set![s]);
        assert forall|x: usize| set == set![x] implies x == s by {
            assert(set![x].contains(x));
            assert(set![s].contains(x));
        }
        return PredicatePlacement::Scan(s);
    }
    assert(!(exists|s: usize| set == set![s])) by {
        if exists|s: usize| set == set![s] {
            let s = choose|s: usize| set == set![s];
            assert(set.contains(slots@[0]) && set.contains(slots@[1])) by {
                assert(slots@.contains(slots@[0]));
                assert(slots@.contains(slots@[1]));
            }
            assert(slots@[0] < slots@[1]);
        }
    }
    let mut sets: Vec<Vec<usize>> = Vec::new();
    collect_join_slot_sets(tree, &mut sets);
    assert(as_sets(sets@) =~= join_slots(tree@));
    let mut best: Option<usize> = None;
    let mut i: usize = 0;
    while i < sets.len()
        invariant
            i <= sets.len(),
            set == slots@.to_set(),
            as_sets(sets@) == join_slots(tree@),
            ascending_from(sets@, 0),
            best matches Some(b) ==> b < sets.len(),
            smallest_holder(join_slots(tree@), set, 0, None) == smallest_holder(
                join_slots(tree@),
                set,
                i as int,
                match best {
                    Some(b) => Some(b as int),
                    None => None,
                },
            ),
        decreases sets.len() - i,
    {
        assert(join_slots(tree@)[i as int] == sets@[i as int]@.to_set());
        proof {
            assert(ascending(sets@[i as int]@));
            lemma_ascending_len(sets@[i as int]@);
            if best is Some {
                assert(ascending(sets@[best->0 as int]@));
                lemma_ascending_len(sets@[best->0 as int]@);
                assert(join_slots(tree@)[best->0 as int] == sets@[best->0 as int]@.to_set());
            }
        }
        let smaller = match best {
            None => true,
            Some(b) => sets[i].len() < sets[b].len(),
        };
        if list_within(&slots, &sets[i]) && smaller {
            best = Some(i);
        }
        i = i + 1;
    }
    match best {
        Some(b) => PredicatePlacement::Join(b),
        None => PredicatePlacement::PostJoin,
    }
}

/// Where a predicate is evaluated in a reordered tree.
pub open spec fn placement_of(a: AtomView, original: TreeView, t: TreeView) -> PredicatePlacement {
    match a.mobility {
        PredicateMobility::PostJoinOnly => PredicatePlacement::PostJoin,
        PredicateMobility::PinnedToJoin { join_id } => join_or_after(
            position_of(
                join_slots(t),
                if join_id < join_slots(original).len() {
                    join_slots(original)[join_id as int]
                } else {
                    Set::empty()
                },
                0,
            ),
        ),
        PredicateMobility::FreelyMovableWithinComponent => {
            let candidate = movable_placement(t, a.slots);
            match a.origin {
                PredicateOrigin::On { join_index } => if join_index >= join_slots(original).len() {
                    PredicatePlacement::PostJoin
                } else if crosses(
                    join_slots(original)[join_index as int],
                    candidate,
                    join_slots(t),
                    boundaries(original),
                ) {
                    join_or_after(
                        position_of(join_slots(t), join_slots(original)[join_index as int], 0),
                    )
                } else {
                    candidate
                },
                _ => candidate,
            }
        },
    }
}

/// The placements of all predicates.
pub open spec fn placements_of(atoms: Seq<AtomView>, original: TreeView, t: TreeView) -> Seq<
    (PredicateAtomId, PredicatePlacement),
> {
    Seq::new(atoms.len(), |i: int| (atoms[i].id, placement_of(atoms[i], original, t)))
}

/// The reordered join tree of a select block with the placements of its predicates.
pub open spec fn reordering_of(p: Planning) -> ReorderedView {
    let t = reordered(p.select.join_tree, p);
    ReorderedView {
        tree: t,
        placements: placements_of(p.atoms, p.select.join_tree, t),
        metadata: metadata_of(t, 0, p),
    }
}

struct Layout<'a> {
    tree: &'a JoinTree,
    original_sets: &'a Vec<Vec<usize>>,
    sets: &'a Vec<Vec<usize>>,
    bounds: &'a Vec<OuterJoinBoundary>,
}

fn join_at(i: Option<usize>) -> (r: PredicatePlacement)
    ensures
        r == join_or_after(
            match i {
                Some(k) => Some(k as int),
                None => None,
            },
        ),
{
    match i {
        Some(k) => PredicatePlacement::Join(k),
        None => PredicatePlacement::PostJoin,
    }
}

fn place_predicate(a: &PredicateAtom, l: &Layout<'_>, Ghost(original): Ghost<TreeView>) -> (r:
    PredicatePlacement)
    requires
        as_sets(l.original_sets@) == join_slots(original),
        as_sets(l.sets@) == join_slots(l.tree@),
        views(l.bounds@) == boundaries(original),
    ensures
        r == placement_of(a@, original, l.tree@),
{
    match a.mobility {
        PredicateMobility::PostJoinOnly => PredicatePlacement::PostJoin,
        PredicateMobility::PinnedToJoin { join_id } => {
            if join_id < l.original_sets.len() {
                assert(join_slots(original)[join_id as int]
                    == l.original_sets@[join_id as int]@.to_set());
                join_at(find_position(l.sets, &l.original_sets[join_id]))
            } else {
                let nothing: Vec<usize> = Vec::new();
                assert(nothing@.to_set() =~= Set::<usize>::empty());
                join_at(find_position(l.sets, &nothing))
            }
        },
        PredicateMobility::FreelyMovableWithinComponent => {
            let candidate = place_movable_predicate(l.tree, &a.referenced_slots);
            match a.origin {
                PredicateOrigin::On { join_index } => {
                    if join_index >= l.original_sets.len() {
                        return PredicatePlacement::PostJoin;
                    }
                    assert(join_slots(original)[join_index as int]
                        == l.original_sets@[join_index as int]@.to_set());
                    if placement_crosses_outer_boundary(
                        &l.original_sets[join_index],
                        candidate,
                        l.sets,
                        l.bounds,
                    ) {
                        join_at(find_position(l.sets, &l.original_sets[join_index]))
                    } else {
                        candidate
                    }
                },
                _ => candidate,
            }
        },
    }
}

/// Reorders the joins of a select block without checking the result.
pub fn reorder_joins_unchecked(
    select: &SelectBody,
    stats: &StatsLookup,
    atoms: &Vec<PredicateAtom>,
) -> (r: ReorderedSelect)
    ensures
        r@ == reordering_of(
            Planning { select: select@, stats: *stats, atoms: views(atoms@) },
        ),
{
    let p = Planner { select, stats, atoms };
    let ghost original = select.join_tree@;
    assert(p@.select.join_tree == original);
    let join_tree = reorder_tree(&select.join_tree, &p);
    let mut join_metadata: Vec<JoinNodeMetadata> = Vec::new();
    let _: u64 = collect_join_metadata(&join_tree, &p, &mut join_metadata);
    assert(join_metadata@ =~= metadata_of(join_tree@, 0, p@));
    let mut original_sets: Vec<Vec<usize>> = Vec::new();
    collect_join_slot_sets(&select.join_tree, &mut original_sets);
    assert(as_sets(original_sets@) =~= join_slots(original));
    let mut sets: Vec<Vec<usize>> = Vec::new();
    collect_join_slot_sets(&join_tree, &mut sets);
    assert(as_sets(sets@) =~= join_slots(join_tree@));
    let mut bounds: Vec<OuterJoinBoundary> = Vec::new();
    collect_outer_join_boundaries(&select.join_tree, &mut bounds);
    assert(views(bounds@) =~= boundaries(original));
    let l = Layout { tree: &join_tree, original_sets: &original_sets, sets: &sets, bounds: &bounds };
    let mut placements: Vec<(PredicateAtomId, PredicatePlacement)> = Vec::new();
    let mut i: usize = 0;
    while i < atoms.len()
        invariant
            i <= atoms.len(),
            placements@.len() == i,
            as_sets(l.original_sets@) == join_slots(original),
            as_sets(l.sets@) == join_slots(l.tree@),
            views(l.bounds@) == boundaries(original),
            l.tree@ == join_tree@,
            forall|k: int|
                0 <= k < i ==> #[trigger] placements@[k] == placements_of(
                    views(atoms@),
                    original,
                    join_tree@,
                )[k],
        decreases atoms.len() - i,
    {
        let a = &atoms[i];
        assert(views(atoms@)[i as int] == a@);
        let placement = place_predicate(a, &l, Ghost(original));
        placements.push((a.id, placement));
        i = i + 1;
    }
    assert(placements@ =~= placements_of(views(atoms@), original, join_tree@));
    ReorderedSelect { join_tree, predicate_placements: placements, join_metadata }
}

/// How many of the first `n` entries have an identifier.
pub open spec fn count_ids(ids: Seq<PredicateAtomId>, id: PredicateAtomId, n: int) -> nat
    decreases n,
{
    if n <= 0 || n > ids.len() {
        0
    } else if ids[n - 1] == id {
        count_ids(ids, id, n - 1) + 1
    } else {
        count_ids(ids, id, n - 1)
    }
}

/// The identifiers of predicates.
pub open spec fn ids_of(atoms: Seq<AtomView>) -> Seq<PredicateAtomId> {
    Seq::new(atoms.len(), |i: int| atoms[i].id)
}

/// The identifiers of placements.
pub open spec fn placed_ids(placements: Seq<(PredicateAtomId, PredicatePlacement)>) -> Seq<
    PredicateAtomId,
> {
    Seq::new(placements.len(), |i: int| placements[i].0)
}

/// How often an identifier occurs.
pub open spec fn occurrences(ids: Seq<PredicateAtomId>, id: PredicateAtomId) -> nat {
    count_ids(ids, id, ids.len() as int)
}

/// The first placement from the `i`-th on of a predicate.
pub open spec fn placement_for(
    placements: Seq<(PredicateAtomId, PredicatePlacement)>,
    id: PredicateAtomId,
    i: int,
) -> Option<PredicatePlacement>
    decreases placements.len() - i,
{
    if i < 0 || i >= placements.len() {
        None
    } else if placements[i].0 == id {
        Some(placements[i].1)
    } else {
        placement_for(placements, id, i + 1)
    }
}

/// How an identifier is shown.
pub open spec fn id_text(id: PredicateAtomId) -> Seq<char> {
    "PredicateAtomId("@ + nat_text(id.0 as nat) + ")"@
}

/// An internal error about a predicate.
pub open spec fn about(id: PredicateAtomId, what: Seq<char>) -> ErrorView {
    ErrorView::Internal("predicate "@ + id_text(id) + what)
}

/// The slots of the place at which a predicate is evaluated; after all joins they are all slots.
pub open spec fn visible_slots(id: PredicateAtomId, p: PredicatePlacement, t: TreeView) -> Result<
    Set<usize>,
    ErrorView,
> {
    match p {
        PredicatePlacement::Scan(slot) => Ok(set![slot]),
        PredicatePlacement::Join(k) => if k < join_slots(t).len() {
            Ok(join_slots(t)[k as int])
        } else {
            Err(about(id, " references missing join node "@ + nat_text(k as nat)))
        },
        PredicatePlacement::PostJoin => Ok(slot_set(t)),
    }
}

/// Whether a predicate stands where it may as far as its origin goes; if not, why.
pub open spec fn origin_check(a: AtomView, p: PredicatePlacement, original: TreeView, t: TreeView) -> Result<
    (),
    ErrorView,
> {
    match a.origin {
        PredicateOrigin::On { join_index } => if join_index >= join_slots(original).len() {
            Err(about(a.id, " originated from missing join "@ + nat_text(join_index as nat)))
        } else if crosses(
            join_slots(original)[join_index as int],
            p,
            join_slots(t),
            boundaries(original),
        ) {
            Err(about(a.id, " crossed an outer-join boundary"@))
        } else {
            Ok(())
        },
        _ => Ok(()),
    }
}

/// Whether a predicate stands where its mobility lets it; if not, why.
pub open spec fn mobility_check(a: AtomView, p: PredicatePlacement, original: TreeView, t: TreeView) -> Result<
    (),
    ErrorView,
> {
    match a.mobility {
        PredicateMobility::PostJoinOnly => if p != PredicatePlacement::PostJoin {
            Err(
                ErrorView::Internal(
                    "post-join predicate "@ + id_text(a.id)
                        + " was moved before the final join"@,
                ),
            )
        } else {
            Ok(())
        },
        PredicateMobility::PinnedToJoin { join_id } => if join_id >= join_slots(original).len() {
            Err(
                about(
                    a.id,
                    " is pinned to missing original join "@ + nat_text(join_id as nat),
                ),
            )
        } else if !(p matches PredicatePlacement::Join(k) && k < join_slots(t).len() && join_slots(
            t,
        )[k as int] == join_slots(original)[join_id as int]) {
            Err(about(a.id, " moved away from its pinned join"@))
        } else {
            Ok(())
        },
        PredicateMobility::FreelyMovableWithinComponent => Ok(()),
    }
}

/// Whether a predicate stands where it may; if not, why.
pub open spec fn atom_check(a: AtomView, original: TreeView, r: ReorderedView) -> Result<
    (),
    ErrorView,
> {
    match placement_for(r.placements, a.id, 0) {
        None => Err(about(a.id, " has no placement"@)),
        Some(p) => match visible_slots(a.id, p, r.tree) {
            Err(e) => Err(e),
            Ok(visible) => if !a.slots.subset_of(visible) {
                Err(about(a.id, " is attached outside its referenced subtree"@))
            } else {
                match origin_check(a, p, original, r.tree) {
                    Err(e) => Err(e),
                    Ok(_) => mobility_check(a, p, original, r.tree),
                }
            },
        },
    }
}

/// Whether the predicates from the `i`-th on stand where they may; if not, why.
pub open spec fn atoms_check(atoms: Seq<AtomView>, i: int, original: TreeView, r: ReorderedView) -> Result<
    (),
    ErrorView,
>
    decreases atoms.len() - i,
{
    if i < 0 || i >= atoms.len() {
        Ok(())
    } else {
        match atom_check(atoms[i], original, r) {
            Err(e) => Err(e),
            Ok(_) => atoms_check(atoms, i + 1, original, r),
        }
    }
}

/// Whether every predicate was kept exactly once and stands where it may; if not, why.
pub open spec fn conservation_check(original: TreeView, atoms: Seq<AtomView>, r: ReorderedView) -> Result<
    (),
    ErrorView,
> {
    if !ids_of(atoms).no_duplicates() {
        Err(ErrorView::Internal("predicate atoms contain duplicate ids"@))
    } else if exists|id: PredicateAtomId| #[trigger]
        occurrences(ids_of(atoms), id) != occurrences(placed_ids(r.placements), id) {
        Err(ErrorView::Internal("predicate ids were not conserved during join reordering"@))
    } else {
        atoms_check(atoms, 0, original, r)
    }
}

fn text_of_id(id: PredicateAtomId) -> (r: String)
    ensures
        r@ == id_text(id),
{
    let n = unsigned_text(id.0 as u64);
    cat3("PredicateAtomId(", n.as_str(), ")")
}

fn error_about(id: PredicateAtomId, what: &str) -> (r: HtapError)
    ensures
        r@ == about(id, what@),
{
    let shown = text_of_id(id);
    HtapError::Internal(cat3("predicate ", shown.as_str(), what))
}

fn numbered(what: &str, n: usize) -> (r: String)
    ensures
        r@ == what@ + nat_text(n as nat),
{
    let k = count_text(n);
    crate::text::cat2(what, k.as_str())
}

fn count_atoms(atoms: &Vec<PredicateAtom>, id: PredicateAtomId) -> (r: usize)
    ensures
        r == occurrences(ids_of(views(atoms@)), id),
{
    let mut n: usize = 0;
    let mut i: usize = 0;
    while i < atoms.len()
        invariant
            i <= atoms.len(),
            n <= i,
            n == count_ids(ids_of(views(atoms@)), id, i as int),
        decreases atoms.len() - i,
    {
        assert(ids_of(views(atoms@))[i as int] == atoms@[i as int].id);
        if atoms[i].id == id {
            n = n + 1;
        }
        i = i + 1;
    }
    n
}

fn count_placements(list: &Vec<(PredicateAtomId, PredicatePlacement)>, id: PredicateAtomId) -> (r:
    usize)
    ensures
        r == occurrences(placed_ids(list@), id),
{
    let mut n: usize = 0;
    let mut i: usize = 0;
    while i < list.len()
        invariant
            i <= list.len(),
            n <= i,
            n == count_ids(placed_ids(list@), id, i as int),
        decreases list.len() - i,
    {
        if list[i].0 == id {
            n = n + 1;
        }
        i = i + 1;
    }
    n
}

/// What does not occur is not counted.
pub proof fn lemma_count_absent(ids: Seq<PredicateAtomId>, id: PredicateAtomId, n: int)
    requires
        !ids.contains(id),
        n <= ids.len(),
    ensures
        count_ids(ids, id, n) == 0,
    decreases n,
{
    if n > 0 {
        assert(ids.contains(ids[n - 1]));
        lemma_count_absent(ids, id, n - 1);
    }
}

fn ids_are_distinct(atoms: &Vec<PredicateAtom>) -> (r: bool)
    ensures
        r == ids_of(views(atoms@)).no_duplicates(),
{
    let ghost ids = ids_of(views(atoms@));
    let mut i: usize = 0;
    while i < atoms.len()
        invariant
            i <= atoms.len(),
            ids == ids_of(views(atoms@)),
            forall|a: int, b: int| 0 <= a < b < i ==> ids[a] != ids[b],
        decreases atoms.len() - i,
    {
        let mut k: usize = 0;
        while k < i
            invariant
                k <= i < atoms.len(),
                ids == ids_of(views(atoms@)),
                forall|a: int| 0 <= a < k ==> ids[a] != ids[i as int],
            decreases i - k,
        {
            assert(ids[k as int] == atoms@[k as int].id);
            assert(ids[i as int] == atoms@[i as int].id);
            if atoms[k].id == atoms[i].id {
                return false;
            }
            k = k + 1;
        }
        i = i + 1;
    }
    true
}

fn ids_are_conserved(
    atoms: &Vec<PredicateAtom>,
    list: &Vec<(PredicateAtomId, PredicatePlacement)>,
) -> (r: bool)
    ensures
        r == !(exists|id: PredicateAtomId| #[trigger]
            occurrences(ids_of(views(atoms@)), id) != occurrences(placed_ids(list@), id)),
{
    let ghost ids = ids_of(views(atoms@));
    let ghost placed = placed_ids(list@);
    let mut i: usize = 0;
    while i < atoms.len()
        invariant
            i <= atoms.len(),
            ids == ids_of(views(atoms@)),
            placed == placed_ids(list@),
            forall|k: int|
                0 <= k < i ==> occurrences(ids, #[trigger] ids[k]) == occurrences(placed, ids[k]),
        decreases atoms.len() - i,
    {
        assert(ids[i as int] == atoms@[i as int].id);
        let id = atoms[i].id;
        if count_atoms(atoms, id) != count_placements(list, id) {
            assert(occurrences(ids, id) != occurrences(placed, id));
            return false;
        }
        i = i + 1;
    }
    let mut j: usize = 0;
    while j < list.len()
        invariant
            j <= list.len(),
            ids == ids_of(views(atoms@)),
            placed == placed_ids(list@),
            forall|k: int|
                0 <= k < j ==> occurrences(ids, #[trigger] placed[k]) == occurrences(
                    placed,
                    placed[k],
                ),
        decreases list.len() - j,
    {
        assert(placed[j as int] == list@[j as int].0);
        let id = list[j].0;
        if count_atoms(atoms, id) != count_placements(list, id) {
            assert(occurrences(ids, id) != occurrences(placed, id));
            return false;
        }
        j = j + 1;
    }
    assert forall|id: PredicateAtomId| #[trigger] occurrences(ids, id) == occurrences(placed, id) by {
        if ids.contains(id) {
            let k = choose|k: int| 0 <= k < ids.len() && ids[k] == id;
            assert(occurrences(ids, ids[k]) == occurrences(placed, ids[k]));
        } else if placed.contains(id) {
            let k = choose|k: int| 0 <= k < placed.len() && placed[k] == id;
            assert(occurrences(ids, placed[k]) == occurrences(placed, placed[k]));
        } else {
            lemma_count_absent(ids, id, ids.len() as int);
            lemma_count_absent(placed, id, placed.len() as int);
        }
    }
    true
}

fn find_placement(list: &Vec<(PredicateAtomId, PredicatePlacement)>, id: PredicateAtomId) -> (r:
    Option<PredicatePlacement>)
    ensures
        r == placement_for(list@, id, 0),
{
    let mut i: usize = 0;
    while i < list.len()
        invariant
            i <= list.len(),
            placement_for(list@, id, 0) == placement_for(list@, id, i as int),
        decreases list.len() - i,
    {
        if list[i].0 == id {
            return Some(list[i].1);
        }
        i = i + 1;
    }
    None
}

fn check_mobility(a: &PredicateAtom, p: PredicatePlacement, l: &Layout<'_>, Ghost(original): Ghost<
    TreeView,
>) -> (r: Result<(), HtapError>)
    requires
        as_sets(l.original_sets@) == join_slots(original),
        as_sets(l.sets@) == join_slots(l.tree@),
    ensures
        outcome(r) == mobility_check(a@, p, original, l.tree@),
{
    match a.mobility {
        PredicateMobility::PostJoinOnly => match p {
            PredicatePlacement::PostJoin => Ok(()),
            _ => {
                let shown = text_of_id(a.id);
                Err(
                    HtapError::Internal(
                        cat3(
                            "post-join predicate ",
                            shown.as_str(),
                            " was moved before the final join",
                        ),
                    ),
                )
            },
        },
        PredicateMobility::PinnedToJoin { join_id } => {
            if join_id >= l.original_sets.len() {
                let what = numbered(" is pinned to missing original join ", join_id);
                return Err(error_about(a.id, what.as_str()));
            }
            assert(join_slots(original)[join_id as int]
                == l.original_sets@[join_id as int]@.to_set());
            let pinned = match p {
                PredicatePlacement::Join(k) => {
                    if k < l.sets.len() {
                        assert(join_slots(l.tree@)[k as int] == l.sets@[k as int]@.to_set());
                        lists_agree(&l.sets[k], &l.original_sets[join_id])
                    } else {
                        false
                    }
                },
                _ => false,
            };
            if pinned {
                Ok(())
            } else {
                Err(error_about(a.id, " moved away from its pinned join"))
            }
        },
        PredicateMobility::FreelyMovableWithinComponent => Ok(()),
    }
}

fn check_atom(
    a: &PredicateAtom,
    list: &Vec<(PredicateAtomId, PredicatePlacement)>,
    l: &Layout<'_>,
    Ghost(original): Ghost<TreeView>,
    Ghost(r): Ghost<ReorderedView>,
) -> (res: Result<(), HtapError>)
    requires
        as_sets(l.original_sets@) == join_slots(original),
        as_sets(l.sets@) == join_slots(l.tree@),
        views(l.bounds@) == boundaries(original),
        r.tree == l.tree@,
        r.placements == list@,
    ensures
        outcome(res) == atom_check(a@, original, r),
{
    let p = match find_placement(list, a.id) {
        Some(p) => p,
        None => {
            return Err(error_about(a.id, " has no placement"));
        },
    };
    let visible: Vec<usize> = match p {
        PredicatePlacement::Scan(slot) => {
            let mut one: Vec<usize> = Vec::new();
            one.push(slot);
            assert(one@.to_set() =~= set![slot]) by {
                assert(one@[0] == slot);
            }
            one
        },
        PredicatePlacement::Join(k) => {
            if k >= l.sets.len() {
                let what = numbered(" references missing join node ", k);
                return Err(error_about(a.id, what.as_str()));
            }
            assert(join_slots(l.tree@)[k as int] == l.sets@[k as int]@.to_set());
            sort_dedup(&l.sets[k])
        },
        PredicatePlacement::PostJoin => slots_of(l.tree),
    };
    if !list_within(&a.referenced_slots, &visible) {
        return Err(error_about(a.id, " is attached outside its referenced subtree"));
    }
    match a.origin {
        PredicateOrigin::On { join_index } => {
            if join_index >= l.original_sets.len() {
                let what = numbered(" originated from missing join ", join_index);
                return Err(error_about(a.id, what.as_str()));
            }
            assert(join_slots(original)[join_index as int]
                == l.original_sets@[join_index as int]@.to_set());
            if placement_crosses_outer_boundary(
                &l.original_sets[join_index],
                p,
                l.sets,
                l.bounds,
            ) {
                return Err(error_about(a.id, " crossed an outer-join boundary"));
            }
        },
        _ => {},
    }
    check_mobility(a, p, l, Ghost(original))
}

/// Checks that a reordering kept every predicate exactly once, and that each stands where its
/// slots, its origin and its mobility let it.
pub fn validate_predicate_conservation(
    original: &SelectBody,
    atoms: &Vec<PredicateAtom>,
    reordered: &ReorderedSelect,
) -> (r: Result<(), HtapError>)
    ensures
        outcome(r) == conservation_check(original@.join_tree, views(atoms@), reordered@),
{
    if !ids_are_distinct(atoms) {
        return Err(HtapError::Internal(owned("predicate atoms contain duplicate ids")));
    }
    if !ids_are_conserved(atoms, &reordered.predicate_placements) {
        return Err(
            HtapError::Internal(owned("predicate ids were not conserved during join reordering")),
        );
    }
    let ghost tree = original.join_tree@;
    assert(original@.join_tree == tree);
    let mut original_sets: Vec<Vec<usize>> = Vec::new();
    collect_join_slot_sets(&original.join_tree, &mut original_sets);
    assert(as_sets(original_sets@) =~= join_slots(tree));
    let mut sets: Vec<Vec<usize>> = Vec::new();
    collect_join_slot_sets(&reordered.join_tree, &mut sets);
    assert(as_sets(sets@) =~= join_slots(reordered.join_tree@));
    let mut bounds: Vec<OuterJoinBoundary> = Vec::new();
    collect_outer_join_boundaries(&original.join_tree, &mut bounds);
    assert(views(bounds@) =~= boundaries(tree));
    let l = Layout {
        tree: &reordered.join_tree,
        original_sets: &original_sets,
        sets: &sets,
        bounds: &bounds,
    };
    let ghost model = conservation_check(tree, views(atoms@), reordered@);
    let mut i: usize = 0;
    while i < atoms.len()
        invariant
            i <= atoms.len(),
            as_sets(l.original_sets@) == join_slots(tree),
            as_sets(l.sets@) == join_slots(l.tree@),
            views(l.bounds@) == boundaries(tree),
            reordered@.tree == l.tree@,
            model == conservation_check(tree, views(atoms@), reordered@),
            tree == original@.join_tree,
            model == atoms_check(views(atoms@), i as int, tree, reordered@),
        decreases atoms.len() - i,
    {
        assert(views(atoms@)[i as int] == atoms@[i as int]@);
        match check_atom(
            &atoms[i],
            &reordered.predicate_placements,
            &l,
            Ghost(tree),
            Ghost(reordered@),
        ) {
            Ok(_) => {},
            Err(e) => {
                return Err(e);
            },
        }
        i = i + 1;
    }
    Ok(())
}

/// Reorders the components of inner joins of a select block, and assigns every predicate the
/// earliest place where it may be evaluated.
pub fn reorder_joins(select: &SelectBody, stats: &StatsLookup) -> (r: Result<
    ReorderedSelect,
    HtapError,
>)
    ensures
        ({
            let atoms = atoms_of(select@);
            let found = reordering_of(Planning { select: select@, stats: *stats, atoms });
            match conservation_check(select@.join_tree, atoms, found) {
                Ok(_) => r is Ok && r->Ok_0@ == found,
                Err(e) => r is Err && r->Err_0@ == e,
            }
        }),
{
    let atoms = extract_predicate_atoms(select);
    let found = reorder_joins_unchecked(select, stats, &atoms);
    match validate_predicate_conservation(select, &atoms, &found) {
        Ok(_) => Ok(found),
        Err(e) => Err(e),
    }
}

} // verus!
