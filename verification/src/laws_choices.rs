//! Laws of physical choices: which input of a join is built first, and which predicate is pushed down.

use crate::atoms::{
    atoms_of, joins, AtomView, LeafCandidateId, PredicateMobility, PredicatePlacement,
};
use crate::cardinality::Planning;
use crate::double::Double;
use crate::expr::ExprView;
use crate::laws_estimates::{keeps_one_in, known_rows, lemma_joined};
use crate::laws_plan::optimization_keeps_the_query;
use crate::laws_rounding::{near, one_has_its_units};
use crate::materialize::attached;
use crate::optimize::{
    build_sides_of, most_selective, optimized_select, pushed_down, scan_share,
};
use crate::query::{SelectView, TreeView};
use crate::reorder::{metadata_of, plain_rows, BuildSide, JoinNodeMetadata};
use crate::rounding::one_in_units;
use crate::stats::{StatsLookup, ONE_BITS};
use vstd::prelude::*;

verus! {

/// Whether a count of rows is that of trees without predicates: a table has the rows that statistics
/// know of it, and a join all pairs of rows of its inputs.
pub open spec fn counts_pairs(
    t: TreeView,
    s: SelectView,
    stats: StatsLookup,
    rows: spec_fn(TreeView) -> u64,
) -> bool
    decreases t,
{
    match t {
        TreeView::Leaf(slot) => known_rows(slot, s, stats) matches Some(n) ==> rows(t) == n,
        TreeView::Join { left, right, .. } => {
            &&& counts_pairs(*left, s, stats, rows)
            &&& counts_pairs(*right, s, stats, rows)
            &&& keeps_one_in(rows(t), rows(*left), rows(*right), 1)
        },
    }
}

/// Whether every join of a tree is built on the input with fewer rows, the left one of equals. The
/// joins are numbered in post-order, from `first` on.
pub open spec fn builds_on_fewer(
    t: TreeView,
    first: int,
    sides: Map<usize, BuildSide>,
    rows: spec_fn(TreeView) -> u64,
) -> bool
    decreases t,
{
    match t {
        TreeView::Leaf(_) => true,
        TreeView::Join { left, right, .. } => {
            let id = (first + joins(*left) + joins(*right)) as usize;
            &&& builds_on_fewer(*left, first, sides, rows)
            &&& builds_on_fewer(*right, first + joins(*left), sides, rows)
            &&& sides.dom().contains(id)
            &&& (sides[id] == BuildSide::Left <==> rows(*left) <= rows(*right))
        },
    }
}

proof fn lemma_counts(t: TreeView, p: Planning)
    ensures
        counts_pairs(t, p.select, p.stats, |x: TreeView| plain_rows(x, p)),
    decreases t,
{
    let rows = |x: TreeView| plain_rows(x, p);
    match t {
        TreeView::Leaf(_) => {},
        TreeView::Join { left, right, .. } => {
            lemma_counts(*left, p);
            lemma_counts(*right, p);
            one_has_its_units();
            let u = one_in_units() as int;
            assert(near(u * 1, u, 0));
            lemma_joined(plain_rows(*left, p), plain_rows(*right, p), 1, Double { bits: ONE_BITS }, 0);
        },
    }
}

/// Whether the map holds the sides of a list at the positions from `first` on.
spec fn holds_list(sides: Map<usize, BuildSide>, list: Seq<JoinNodeMetadata>, first: int) -> bool {
    forall|i: int|
        0 <= i < list.len() ==> sides.dom().contains((first + i) as usize) && sides[(first
            + i) as usize] == (#[trigger] list[i]).build_side
}

proof fn lemma_metadata(t: TreeView, first: int, p: Planning, sides: Map<usize, BuildSide>)
    requires
        0 <= first,
        holds_list(sides, metadata_of(t, first, p), first),
    ensures
        metadata_of(t, first, p).len() == joins(t),
        builds_on_fewer(t, first, sides, |x: TreeView| plain_rows(x, p)),
    decreases t,
{
    match t {
        TreeView::Leaf(_) => {},
        TreeView::Join { left, right, .. } => {
            let a = metadata_of(*left, first, p);
            let b = metadata_of(*right, first + a.len(), p);
            let all = metadata_of(t, first, p);
            assert forall|i: int| 0 <= i < a.len() implies sides.dom().contains(
                (first + i) as usize,
            ) && sides[(first + i) as usize] == (#[trigger] a[i]).build_side by {
                assert(all[i] == a[i]);
            }
            lemma_metadata(*left, first, p, sides);
            assert forall|i: int| 0 <= i < b.len() implies sides.dom().contains(
                (first + a.len() + i) as usize,
            ) && sides[(first + a.len() + i) as usize] == (#[trigger] b[i]).build_side by {
                assert(all[a.len() + i] == b[i]);
                assert(first + (a.len() + i) == first + a.len() + i);
            }
            lemma_metadata(*right, first + a.len(), p, sides);
            let n = a.len() + b.len();
            assert(all[n as int].build_side == (if plain_rows(*left, p) <= plain_rows(*right, p) {
                BuildSide::Left
            } else {
                BuildSide::Right
            }));
            assert(first + n == first + joins(*left) + joins(*right));
        },
    }
}

proof fn lemma_ids(t: TreeView, first: int, p: Planning)
    ensures
        metadata_of(t, first, p).len() == joins(t),
        forall|i: int|
            0 <= i < joins(t) ==> (#[trigger] metadata_of(t, first, p)[i]).id == (first
                + i) as usize,
    decreases t,
{
    match t {
        TreeView::Leaf(_) => {},
        TreeView::Join { left, right, .. } => {
            let a = metadata_of(*left, first, p);
            let b = metadata_of(*right, first + a.len(), p);
            lemma_ids(*left, first, p);
            lemma_ids(*right, first + a.len(), p);
            let all = metadata_of(t, first, p);
            assert forall|i: int| 0 <= i < joins(t) implies (#[trigger] all[i]).id == (first
                + i) as usize by {
                if i < a.len() {
                    assert(all[i] == a[i]);
                } else if i < a.len() + b.len() {
                    assert(all[i] == b[i - a.len()]);
                    assert(first + a.len() + (i - a.len()) == first + i);
                }
            }
        },
    }
}

proof fn lemma_sides(list: Seq<JoinNodeMetadata>, n: int)
    requires
        0 <= n <= list.len(),
        list.len() <= usize::MAX,
        forall|i: int| 0 <= i < list.len() ==> (#[trigger] list[i]).id == i,
    ensures
        forall|i: int|
            0 <= i < n ==> build_sides_of(list, n).dom().contains(i as usize) && build_sides_of(
                list,
                n,
            )[i as usize] == (#[trigger] list[i]).build_side,
    decreases n,
{
    if n > 0 {
        lemma_sides(list, n - 1);
    }
}

proof fn lemma_built(t: TreeView, p: Planning)
    requires
        joins(t) <= usize::MAX,
    ensures
        ({
            let list = metadata_of(t, 0, p);
            builds_on_fewer(
                t,
                0,
                build_sides_of(list, list.len() as int),
                |x: TreeView| plain_rows(x, p),
            )
        }),
{
    let list = metadata_of(t, 0, p);
    lemma_ids(t, 0, p);
    assert forall|i: int| 0 <= i < list.len() implies (#[trigger] list[i]).id == i by {
        assert(list[i].id == (0 + i) as usize);
    }
    lemma_sides(list, list.len() as int);
    let sides = build_sides_of(list, list.len() as int);
    assert forall|i: int| 0 <= i < list.len() implies sides.dom().contains((0 + i) as usize)
        && sides[(0 + i) as usize] == (#[trigger] list[i]).build_side by {
        assert((0 + i) as usize == i as usize);
    }
    lemma_metadata(t, 0, p, sides);
}

proof fn lemma_attached_rows(
    t: TreeView,
    placed: Seq<(PredicatePlacement, ExprView)>,
    first: usize,
    p: Planning,
    q: Planning,
)
    requires
        p.select.slots == q.select.slots,
        p.stats == q.stats,
    ensures
        plain_rows(attached(t, placed, first), q) == plain_rows(t, p),
        joins(attached(t, placed, first)) == joins(t),
    decreases t,
{
    match t {
        TreeView::Leaf(_) => {},
        TreeView::Join { left, right, .. } => {
            let middle = crate::atoms::ahead(first, joins(*left));
            lemma_attached_rows(*left, placed, first, p, q);
            lemma_attached_rows(*right, placed, middle, p, q);
        },
    }
}

proof fn lemma_attached_built(
    t: TreeView,
    placed: Seq<(PredicatePlacement, ExprView)>,
    at: usize,
    first: int,
    sides: Map<usize, BuildSide>,
    p: Planning,
    q: Planning,
)
    requires
        p.select.slots == q.select.slots,
        p.stats == q.stats,
        builds_on_fewer(t, first, sides, |x: TreeView| plain_rows(x, p)),
    ensures
        builds_on_fewer(attached(t, placed, at), first, sides, |x: TreeView| plain_rows(x, q)),
    decreases t,
{
    match t {
        TreeView::Leaf(_) => {},
        TreeView::Join { left, right, .. } => {
            let middle = crate::atoms::ahead(at, joins(*left));
            lemma_attached_built(*left, placed, at, first, sides, p, q);
            lemma_attached_built(*right, placed, middle, first + joins(*left), sides, p, q);
            lemma_attached_rows(*left, placed, at, p, q);
            lemma_attached_rows(*right, placed, middle, p, q);
        },
    }
}

/// The hash table of every join of an optimized select block is built on the input with fewer rows,
/// counted without predicates; of equal inputs on the left one.
pub proof fn joins_build_on_fewer_rows(s: SelectView, stats: StatsLookup)
    requires
        joins(s.join_tree) <= usize::MAX,
        joins(optimized_select(s, stats).select->0.join_tree) <= usize::MAX,
    ensures
        optimized_select(s, stats).select matches Some(x) && exists|rows: spec_fn(TreeView) -> u64|
            counts_pairs(x.join_tree, x, stats, rows) && #[trigger] builds_on_fewer(
                x.join_tree,
                0,
                optimized_select(s, stats).build_sides,
                rows,
            ),
{
    optimization_keeps_the_query(s, stats);
    let o = optimized_select(s, stats);
    let x = o.select->0;
    let atoms = atoms_of(s);
    let p = Planning { select: s, stats, atoms };
    let q = Planning { select: x, stats, atoms };
    let rows = |y: TreeView| plain_rows(y, q);
    lemma_counts(x.join_tree, q);
    lemma_chosen_sides(s, stats);
    assert(counts_pairs(x.join_tree, x, stats, rows));
    assert(builds_on_fewer(x.join_tree, 0, o.build_sides, rows));
}

proof fn lemma_chosen_sides(s: SelectView, stats: StatsLookup)
    requires
        joins(s.join_tree) <= usize::MAX,
        joins(optimized_select(s, stats).select->0.join_tree) <= usize::MAX,
    ensures
        ({
            let o = optimized_select(s, stats);
            let x = o.select->0;
            builds_on_fewer(
                x.join_tree,
                0,
                o.build_sides,
                |y: TreeView| plain_rows(y, Planning { select: x, stats, atoms: atoms_of(s) }),
            )
        }),
{
    let atoms = atoms_of(s);
    let p = Planning { select: s, stats, atoms };
    let found = crate::reorder::reordering_of(p);
    let o = optimized_select(s, stats);
    let x = o.select->0;
    let q = Planning { select: x, stats, atoms };
    if o.fallback {
        assert(x == s);
        lemma_built(s.join_tree, p);
    } else {
        match crate::materialize::placed_terms(
            found.placements,
            0,
            atoms,
            s.slots,
            crate::atoms::join_layouts(found.tree),
            Seq::empty(),
        ) {
            Ok(placed) => {
                assert(x.join_tree == attached(found.tree, placed, 0));
                lemma_attached_rows(found.tree, placed, 0, p, q);
                lemma_built(found.tree, p);
                lemma_attached_built(found.tree, placed, 0, 0, o.build_sides, p, q);
            },
            Err(_) => {},
        }
    }
}

/// Whether a predicate is about a slot alone, and free to move.
pub open spec fn about_slot(a: AtomView, slot: usize) -> bool {
    a.mobility == PredicateMobility::FreelyMovableWithinComponent && forall|x: usize| #[trigger]
        a.slots.contains(x) <==> x == slot
}

proof fn lemma_about(a: AtomView, slot: usize)
    ensures
        crate::optimize::fits_slot(a, slot) == about_slot(a, slot),
{
    if about_slot(a, slot) {
        assert(a.slots =~= set![slot]);
    }
}

proof fn lemma_selective(p: Planning, slot: usize, i: int, best: Option<int>)
    requires
        0 <= i <= p.atoms.len(),
        best matches Some(b) ==> 0 <= b < i && about_slot(p.atoms[b], slot),
        forall|k: int|
            0 <= k < i && about_slot(#[trigger] p.atoms[k], slot) ==> (best matches Some(b)
                && scan_share(p.atoms[b].expr, p).rank() <= scan_share(p.atoms[k].expr, p).rank()),
    ensures
        match most_selective(p, slot, i, best) {
            Some(b) => 0 <= b < p.atoms.len() && about_slot(p.atoms[b], slot) && forall|k: int|
                0 <= k < p.atoms.len() && about_slot(#[trigger] p.atoms[k], slot) ==> scan_share(
                    p.atoms[b].expr,
                    p,
                ).rank() <= scan_share(p.atoms[k].expr, p).rank(),
            None => forall|k: int|
                0 <= k < p.atoms.len() ==> !about_slot(#[trigger] p.atoms[k], slot),
        },
    decreases p.atoms.len() - i,
{
    if i < p.atoms.len() {
        lemma_about(p.atoms[i], slot);
        if crate::optimize::fits_slot(p.atoms[i], slot) && (match best {
            None => true,
            Some(b) => scan_share(p.atoms[i].expr, p).rank() < scan_share(
                p.atoms[b].expr,
                p,
            ).rank(),
        }) {
            lemma_selective(p, slot, i + 1, Some(i));
        } else {
            lemma_selective(p, slot, i + 1, best);
        }
    }
}

/// The predicate that is pushed down to a slot is one about that slot alone, and none about it keeps
/// a lesser share of its rows; a slot without such a predicate has none pushed down.
pub proof fn the_most_selective_predicate_is_pushed_down(p: Planning, slot: usize)
    requires
        p.atoms.len() <= usize::MAX,
    ensures
        match pushed_down(p, slot) {
            Some(LeafCandidateId(b)) => b < p.atoms.len() && about_slot(p.atoms[b as int], slot)
                && forall|k: int|
                0 <= k < p.atoms.len() && about_slot(#[trigger] p.atoms[k], slot) ==> scan_share(
                    p.atoms[b as int].expr,
                    p,
                ).rank() <= scan_share(p.atoms[k].expr, p).rank(),
            None => forall|k: int|
                0 <= k < p.atoms.len() ==> !about_slot(#[trigger] p.atoms[k], slot),
        },
{
    lemma_selective(p, slot, 0, None);
}

/// The share of rows that an equality of a column with something else keeps is near one over its
/// number of distinct values, where statistics know it.
pub proof fn scans_keep_one_value_of_a_column(p: Planning, a: ExprView, b: ExprView)
    requires
        crate::laws_estimates::distinct_values(a, p.select, p.stats) is Some,
    ensures
        near(
            (crate::rounding::units(
                scan_share(crate::laws_estimates::equality(a, b), p),
            ) * crate::laws_estimates::distinct_values(a, p.select, p.stats)->0) as int,
            one_in_units() as int,
            4,
        ),
{
    let n = crate::laws_estimates::distinct_values(a, p.select, p.stats)->0;
    crate::laws_rounding::reciprocals_of_counts_are_near(n as nat);
}

/// An optimized select block has, for each of its slots, the predicate that is pushed down to it, if
/// there is one.
pub proof fn every_slot_has_its_pushdown(s: SelectView, stats: StatsLookup, slot: usize)
    requires
        slot < s.slots.len(),
        atoms_of(s).len() <= usize::MAX,
    ensures
        optimized_select(s, stats).pushdown.dom().contains(slot),
        match optimized_select(s, stats).pushdown[slot] {
            Some(LeafCandidateId(b)) => b < atoms_of(s).len() && about_slot(
                atoms_of(s)[b as int],
                slot,
            ),
            None => forall|k: int|
                0 <= k < atoms_of(s).len() ==> !about_slot(#[trigger] atoms_of(s)[k], slot),
        },
{
    optimization_keeps_the_query(s, stats);
    let x = optimized_select(s, stats).select->0;
    let p = Planning { select: x, stats, atoms: atoms_of(s) };
    the_most_selective_predicate_is_pushed_down(p, slot);
}

/// Whether statistics know the rows of every table of a tree.
pub open spec fn all_known(t: TreeView, s: SelectView, stats: StatsLookup) -> bool
    decreases t,
{
    match t {
        TreeView::Leaf(slot) => known_rows(slot, s, stats) is Some,
        TreeView::Join { left, right, .. } => all_known(*left, s, stats) && all_known(
            *right,
            s,
            stats,
        ),
    }
}

/// An estimate is said to come from statistics exactly where they know all tables that it is about.
pub proof fn estimates_tell_where_they_come_from(t: TreeView, p: Planning)
    ensures
        (crate::optimize::estimate_of(t, p).source == crate::stats::EstimateSource::Stats)
            == all_known(t, p.select, p.stats),
    decreases t,
{
    match t {
        TreeView::Leaf(_) => {},
        TreeView::Join { left, right, .. } => {
            estimates_tell_where_they_come_from(*left, p);
            estimates_tell_where_they_come_from(*right, p);
        },
    }
}

/// The rows that plans are compared by are those that are estimated.
pub proof fn plans_are_compared_by_their_estimates(t: TreeView, p: Planning)
    ensures
        crate::cardinality::tree_rows(t, p) == crate::optimize::estimate_of(t, p).row_count,
    decreases t,
{
    match t {
        TreeView::Leaf(_) => {},
        TreeView::Join { left, right, .. } => {
            plans_are_compared_by_their_estimates(*left, p);
            plans_are_compared_by_their_estimates(*right, p);
        },
    }
}

/// Joining one by one begins with a relation of the fewest rows.
pub proof fn the_fewest_rows_come_first(rels: Seq<TreeView>, i: int, best: int, p: Planning)
    requires
        0 <= best < i <= rels.len(),
        forall|k: int|
            0 <= k < i ==> crate::cardinality::tree_rows(rels[best], p)
                <= crate::cardinality::tree_rows(#[trigger] rels[k], p),
    ensures
        ({
            let first = crate::component::fewest_rows(rels, i, best, p);
            0 <= first < rels.len() && forall|k: int|
                0 <= k < rels.len() ==> crate::cardinality::tree_rows(rels[first], p)
                    <= crate::cardinality::tree_rows(#[trigger] rels[k], p)
        }),
    decreases rels.len() - i,
{
    if i < rels.len() {
        if crate::cardinality::tree_rows(rels[i], p) < crate::cardinality::tree_rows(rels[best], p) {
            the_fewest_rows_come_first(rels, i + 1, i, p);
        } else {
            the_fewest_rows_come_first(rels, i + 1, best, p);
        }
    }
}

/// Joining one by one goes on with a relation whose join gives the fewest rows.
pub proof fn the_fewest_joined_rows_come_next(
    slots: Set<usize>,
    rows: u64,
    rels: Seq<TreeView>,
    i: int,
    best: int,
    p: Planning,
)
    requires
        0 <= best < i <= rels.len(),
        forall|k: int|
            0 <= k < i ==> crate::component::rows_with(slots, rows, rels[best], p)
                <= crate::component::rows_with(slots, rows, #[trigger] rels[k], p),
    ensures
        ({
            let next = crate::component::best_next(slots, rows, rels, i, best, p);
            0 <= next < rels.len() && forall|k: int|
                0 <= k < rels.len() ==> crate::component::rows_with(slots, rows, rels[next], p)
                    <= crate::component::rows_with(slots, rows, #[trigger] rels[k], p)
        }),
    decreases rels.len() - i,
{
    if i < rels.len() {
        if crate::component::rows_with(slots, rows, rels[i], p) < crate::component::rows_with(
            slots,
            rows,
            rels[best],
            p,
        ) {
            the_fewest_joined_rows_come_next(slots, rows, rels, i + 1, i, p);
        } else {
            the_fewest_joined_rows_come_next(slots, rows, rels, i + 1, best, p);
        }
    }
}

} // verus!
