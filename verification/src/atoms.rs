//! Predicates of a select block, taken apart into conjuncts, and where each of them may go.

use crate::expr::{ascending, insert_ascending, nodes, uses_slot, BinOp, Expr, ExprView};
use crate::lists::has_index;
use crate::query::{JoinKind, JoinTree, SelectBody, SelectView, TreeView};
use crate::value::{lemma_views_push, option_view, views};
use vstd::prelude::*;

verus! {

/// Names a leaf that a predicate can be pushed down to.
#[derive(Clone, Copy, Debug, PartialEq, Eq, PartialOrd, Ord, Hash, Structural)]
pub struct LeafCandidateId(pub usize);

/// Names a predicate of a query.
#[derive(Clone, Copy, Debug, PartialEq, Eq, PartialOrd, Ord, Hash, Structural)]
pub struct PredicateAtomId(pub u32);

/// Where a predicate comes from.
#[derive(Clone, Copy, Debug, PartialEq, Eq, Structural)]
pub enum PredicateOrigin {
    /// The `ON` clause of a join.
    On {
        /// Post-order index of the join.
        join_index: usize,
    },
    /// The `WHERE` clause.
    Where,
    /// A `USING` join.
    Using,
    /// A `NATURAL` join.
    Natural,
}

/// How freely a predicate can move in the join tree.
#[derive(Clone, Copy, Debug, PartialEq, Eq, Structural)]
pub enum PredicateMobility {
    /// Anywhere within its connected component of `INNER` and `CROSS` joins.
    FreelyMovableWithinComponent,
    /// Not away from the `ON` clause of a join.
    PinnedToJoin {
        /// Post-order index of the join.
        join_id: usize,
    },
    /// Not before any join.
    PostJoinOnly,
}

/// One conjunct of a query's predicates.
#[derive(Debug, PartialEq)]
pub struct PredicateAtom {
    /// Name within the query.
    pub id: PredicateAtomId,
    /// The predicate.
    pub expr: Expr,
    /// Slots that the predicate refers to.
    pub referenced_slots: Vec<usize>,
    /// Where the predicate comes from.
    pub origin: PredicateOrigin,
    /// How freely the predicate can move.
    pub mobility: PredicateMobility,
}

/// The mathematical model of a [`PredicateAtom`].
pub struct AtomView {
    /// Name within the query.
    pub id: PredicateAtomId,
    /// The predicate.
    pub expr: ExprView,
    /// Slots that the predicate refers to.
    pub slots: Set<usize>,
    /// Where the predicate comes from.
    pub origin: PredicateOrigin,
    /// How freely the predicate can move.
    pub mobility: PredicateMobility,
}

impl View for PredicateAtom {
    type V = AtomView;

    open spec fn view(&self) -> AtomView {
        AtomView {
            id: self.id,
            expr: self.expr@,
            slots: self.referenced_slots@.to_set(),
            origin: self.origin,
            mobility: self.mobility,
        }
    }
}

/// The terms of a conjunction from left to right.
pub open spec fn terms(e: ExprView) -> Seq<ExprView>
    decreases e,
{
    match e {
        ExprView::BinaryOp { op: BinOp::And, left, right } => terms(*left) + terms(*right),
        _ => seq![e],
    }
}

/// The models of what references refer to.
pub open spec fn target_views<'a>(list: Seq<&'a Expr>) -> Seq<ExprView> {
    Seq::new(list.len(), |i: int| list[i]@)
}

/// The terms of a conjunction from left to right.
pub fn conjuncts(e: &Expr) -> (r: Vec<&Expr>)
    ensures
        target_views(r@) == terms(e@),
    decreases *e,
{
    match e {
        Expr::BinaryOp { op: BinOp::And, left, right } => {
            let mut a = conjuncts(left);
            let mut b = conjuncts(right);
            let ghost x = a@;
            let ghost y = b@;
            a.append(&mut b);
            assert(target_views(a@) =~= target_views(x) + target_views(y));
            a
        },
        _ => {
            let mut out: Vec<&Expr> = Vec::new();
            out.push(e);
            assert(target_views(out@) =~= seq![e@]);
            out
        },
    }
}

/// The slots of a join tree from left to right.
pub open spec fn leaf_order(t: TreeView) -> Seq<usize>
    decreases t,
{
    match t {
        TreeView::Leaf(slot) => seq![slot],
        TreeView::Join { left, right, .. } => leaf_order(*left) + leaf_order(*right),
    }
}

/// The slots of a join tree.
pub open spec fn slot_set(t: TreeView) -> Set<usize> {
    leaf_order(t).to_set()
}

/// Appends the slots of a join tree from left to right.
pub fn subtree_slots(tree: &JoinTree, output: &mut Vec<usize>)
    ensures
        final(output)@ == old(output)@ + leaf_order(tree@),
    decreases *tree,
{
    match tree {
        JoinTree::Leaf(slot) => {
            output.push(*slot);
            assert(output@ =~= old(output)@ + seq![*slot]);
        },
        JoinTree::Join { left, right, .. } => {
            subtree_slots(left, output);
            subtree_slots(right, output);
            assert(output@ =~= old(output)@ + (leaf_order((*left)@) + leaf_order((*right)@)));
        },
    }
}

/// The slots of a join tree from left to right.
pub(crate) fn slots_of(tree: &JoinTree) -> (r: Vec<usize>)
    ensures
        r@ == leaf_order(tree@),
{
    let mut out: Vec<usize> = Vec::new();
    subtree_slots(tree, &mut out);
    assert(out@ =~= leaf_order(tree@));
    out
}

/// Sorts a list of slots and drops repetitions.
pub(crate) fn sort_dedup(list: &Vec<usize>) -> (r: Vec<usize>)
    ensures
        ascending(r@),
        r@.to_set() == list@.to_set(),
{
    let mut out: Vec<usize> = Vec::new();
    let mut i: usize = 0;
    while i < list.len()
        invariant
            i <= list.len(),
            ascending(out@),
            forall|s: usize| #[trigger] out@.contains(s) <==> list@.take(i as int).contains(s),
        decreases list.len() - i,
    {
        let ghost before = out@;
        insert_ascending(&mut out, list[i]);
        assert forall|s: usize| #[trigger] out@.contains(s) <==> list@.take(i + 1).contains(s) by {
            lemma_take_contains(list@, i as int, s);
            assert(out@.contains(s) <==> before.contains(s) || s == list@[i as int]);
        }
        i = i + 1;
    }
    assert(list@.take(list.len() as int) =~= list@);
    assert(out@.to_set() =~= list@.to_set()) by {
        assert forall|s: usize| out@.to_set().contains(s) <==> list@.to_set().contains(s) by {
            assert(out@.contains(s) <==> list@.contains(s));
        }
    }
    out
}

proof fn lemma_take_contains(list: Seq<usize>, i: int, s: usize)
    requires
        0 <= i < list.len(),
    ensures
        list.take(i + 1).contains(s) <==> list.take(i).contains(s) || s == list[i],
{
    if list.take(i).contains(s) {
        let k = choose|k: int| 0 <= k < i && list.take(i)[k] == s;
        assert(list.take(i + 1)[k] == s);
    }
    if s == list[i] {
        assert(list.take(i + 1)[i] == s);
    }
    if list.take(i + 1).contains(s) && s != list[i] {
        let front = list.take(i + 1);
        let k = choose|k: int| 0 <= k < front.len() && front[k] == s;
        assert(list.take(i)[k] == s);
    }
}

/// Whether two sets of slots have a slot in common.
pub open spec fn meets(a: Set<usize>, b: Set<usize>) -> bool {
    exists|s: usize| #[trigger] a.contains(s) && b.contains(s)
}

/// Whether two lists of slots have a slot in common.
pub(crate) fn lists_meet(a: &Vec<usize>, b: &Vec<usize>) -> (r: bool)
    ensures
        r == meets(a@.to_set(), b@.to_set()),
{
    let mut i: usize = 0;
    while i < a.len()
        invariant
            i <= a.len(),
            forall|k: int| 0 <= k < i ==> !b@.contains(#[trigger] a@[k]),
        decreases a.len() - i,
    {
        if has_index(b, a[i]) {
            assert(a@.to_set().contains(a@[i as int]));
            assert(b@.to_set().contains(a@[i as int]));
            return true;
        }
        i = i + 1;
    }
    assert forall|s: usize| a@.to_set().contains(s) implies !b@.to_set().contains(s) by {
        let k = choose|k: int| 0 <= k < a@.len() && a@[k] == s;
        assert(!b@.contains(a@[k]));
    }
    false
}

/// Whether every slot of a list is in another.
pub(crate) fn list_within(a: &Vec<usize>, b: &Vec<usize>) -> (r: bool)
    ensures
        r == a@.to_set().subset_of(b@.to_set()),
{
    let mut i: usize = 0;
    while i < a.len()
        invariant
            i <= a.len(),
            forall|k: int| 0 <= k < i ==> b@.contains(#[trigger] a@[k]),
        decreases a.len() - i,
    {
        if !has_index(b, a[i]) {
            assert(a@.to_set().contains(a@[i as int]));
            assert(!b@.to_set().contains(a@[i as int]));
            return false;
        }
        i = i + 1;
    }
    assert forall|s: usize| a@.to_set().contains(s) implies b@.to_set().contains(s) by {
        let k = choose|k: int| 0 <= k < a@.len() && a@[k] == s;
        assert(b@.contains(a@[k]));
    }
    true
}

/// Whether two lists hold the same slots.
pub(crate) fn lists_agree(a: &Vec<usize>, b: &Vec<usize>) -> (r: bool)
    ensures
        r == (a@.to_set() == b@.to_set()),
{
    let r = list_within(a, b) && list_within(b, a);
    assert(r ==> a@.to_set() =~= b@.to_set());
    r
}

/// Whether a join keeps rows of an input that match nothing.
pub open spec fn outer(kind: JoinKind) -> bool {
    kind == JoinKind::Left || kind == JoinKind::Right || kind == JoinKind::Full
}

/// The slots that outer joins can fill with `NULL`.
pub open spec fn null_slots(t: TreeView) -> Set<usize>
    decreases t,
{
    match t {
        TreeView::Leaf(_) => Set::empty(),
        TreeView::Join { kind, left, right, .. } => null_slots(*left).union(
            null_slots(*right),
        ).union(own_null_slots(kind, *left, *right)),
    }
}

/// The slots that one join can fill with `NULL`.
pub open spec fn own_null_slots(kind: JoinKind, left: TreeView, right: TreeView) -> Set<usize> {
    match kind {
        JoinKind::Left => slot_set(right),
        JoinKind::Right => slot_set(left),
        JoinKind::Full => slot_set(left).union(slot_set(right)),
        _ => Set::empty(),
    }
}

proof fn lemma_set_of_sum(a: Seq<usize>, b: Seq<usize>)
    ensures
        (a + b).to_set() == a.to_set().union(b.to_set()),
{
    assert forall|s: usize| (a + b).to_set().contains(s) <==> a.to_set().union(
        b.to_set(),
    ).contains(s) by {
        if a.contains(s) {
            let k = choose|k: int| 0 <= k < a.len() && a[k] == s;
            assert((a + b)[k] == s);
        }
        if b.contains(s) {
            let k = choose|k: int| 0 <= k < b.len() && b[k] == s;
            assert((a + b)[a.len() + k] == s);
        }
        if (a + b).contains(s) {
            let k = choose|k: int| 0 <= k < (a + b).len() && (a + b)[k] == s;
            if k < a.len() {
                assert(a[k] == s);
            } else {
                assert(b[k - a.len()] == s);
            }
        }
    }
    assert((a + b).to_set() =~= a.to_set().union(b.to_set()));
}

/// Adds the slots that outer joins of a tree can fill with `NULL`.
pub fn collect_null_supplying_slots(tree: &JoinTree, output: &mut Vec<usize>)
    ensures
        final(output)@.to_set() == old(output)@.to_set().union(null_slots(tree@)),
        tree@ is Join ==> ascending(final(output)@),
    decreases *tree,
{
    match tree {
        JoinTree::Leaf(_) => {
            assert(output@.to_set() =~= old(output)@.to_set().union(Set::empty()));
        },
        JoinTree::Join { kind, left, right, .. } => {
            let ghost l = (*left)@;
            let ghost r = (*right)@;
            collect_null_supplying_slots(left, output);
            collect_null_supplying_slots(right, output);
            let ghost before = output@;
            match kind {
                JoinKind::Left => {
                    subtree_slots(right, output);
                    proof {
                        lemma_set_of_sum(before, leaf_order(r));
                    }
                },
                JoinKind::Right => {
                    subtree_slots(left, output);
                    proof {
                        lemma_set_of_sum(before, leaf_order(l));
                    }
                },
                JoinKind::Full => {
                    subtree_slots(left, output);
                    subtree_slots(right, output);
                    proof {
                        lemma_set_of_sum(before, leaf_order(l));
                        lemma_set_of_sum(before + leaf_order(l), leaf_order(r));
                    }
                },
                JoinKind::Inner | JoinKind::Cross => {},
            }
            assert(output@.to_set() =~= before.to_set().union(own_null_slots(*kind, l, r)));
            let sorted = sort_dedup(output);
            *output = sorted;
            assert(output@.to_set() =~= old(output)@.to_set().union(null_slots(tree@)));
        },
    }
}

/// Whether slots lie on both sides of an outer join.
pub open spec fn spans_outer(t: TreeView, slots: Set<usize>) -> bool
    decreases t,
{
    match t {
        TreeView::Leaf(_) => false,
        TreeView::Join { kind, left, right, .. } => spans_outer(*left, slots) || spans_outer(
            *right,
            slots,
        ) || (outer(kind) && meets(slots, slot_set(*left)) && meets(slots, slot_set(*right))),
    }
}

/// Whether slots lie on both sides of an outer join.
pub fn spans_outer_join_boundary(tree: &JoinTree, referenced_slots: &Vec<usize>) -> (r: bool)
    ensures
        r == spans_outer(tree@, referenced_slots@.to_set()),
    decreases *tree,
{
    match tree {
        JoinTree::Leaf(_) => false,
        JoinTree::Join { kind, left, right, .. } => {
            if spans_outer_join_boundary(left, referenced_slots) || spans_outer_join_boundary(
                right,
                referenced_slots,
            ) {
                return true;
            }
            match kind {
                JoinKind::Inner | JoinKind::Cross => {
                    return false;
                },
                _ => {},
            }
            let left_slots = slots_of(left);
            let right_slots = slots_of(right);
            lists_meet(referenced_slots, &left_slots) && lists_meet(referenced_slots, &right_slots)
        },
    }
}

/// Whether a node of an expression depends on the row of the enclosing query.
pub open spec fn depends_on_outer(e: ExprView) -> bool {
    match e {
        ExprView::CorrelatedColumnRef { .. } => true,
        ExprView::ScalarSubquery { correlated, .. } => correlated,
        ExprView::InSubquery { correlated, .. } => correlated,
        ExprView::Exists { correlated, .. } => correlated,
        _ => false,
    }
}

/// Whether an expression refers to the enclosing query or holds a subquery that refers to this.
pub open spec fn holds_correlation(e: ExprView) -> bool {
    exists|i: int| 0 <= i < nodes(e).len() && depends_on_outer(#[trigger] nodes(e)[i])
}

/// Whether an expression refers to the enclosing query or holds a subquery that refers to this.
pub(crate) fn contains_correlated_subquery(e: &Expr) -> (r: bool)
    ensures
        r == holds_correlation(e@),
{
    let all = e.walk();
    let mut i: usize = 0;
    while i < all.len()
        invariant
            i <= all.len(),
            views(all@) == nodes(e@),
            forall|k: int| 0 <= k < i ==> !depends_on_outer(#[trigger] nodes(e@)[k]),
        decreases all.len() - i,
    {
        assert(nodes(e@)[i as int] == all@[i as int]@);
        let found = match all[i] {
            Expr::CorrelatedColumnRef { .. } => true,
            Expr::ScalarSubquery { correlated, .. } => *correlated,
            Expr::InSubquery { correlated, .. } => *correlated,
            Expr::Exists { correlated, .. } => *correlated,
            _ => false,
        };
        if found {
            return true;
        }
        i = i + 1;
    }
    assert(nodes(e@).len() == all.len());
    false
}

/// The slots that an expression refers to.
pub open spec fn used_slots(e: ExprView) -> Set<usize> {
    Set::new(|s: usize| uses_slot(e, s as int))
}

/// The name of the predicate at a position.
pub open spec fn atom_id(i: int) -> PredicateAtomId {
    PredicateAtomId(
        if i > u32::MAX {
            u32::MAX
        } else {
            i as u32
        },
    )
}

/// A position some steps ahead, held to what can be counted.
pub open spec fn ahead(n: usize, k: nat) -> usize {
    if n + k > usize::MAX {
        usize::MAX
    } else {
        (n + k) as usize
    }
}

/// The number of joins of a tree.
pub open spec fn joins(t: TreeView) -> nat
    decreases t,
{
    match t {
        TreeView::Leaf(_) => 0,
        TreeView::Join { left, right, .. } => joins(*left) + joins(*right) + 1,
    }
}

/// How freely a term of `WHERE` can move: not before the joins where it depends on the enclosing
/// query, on columns that an outer join can fill with `NULL`, or on both sides of an outer join.
pub open spec fn where_mobility(t: TreeView, e: ExprView) -> PredicateMobility {
    if holds_correlation(e) || meets(used_slots(e), null_slots(t)) || spans_outer(
        t,
        used_slots(e),
    ) {
        PredicateMobility::PostJoinOnly
    } else {
        PredicateMobility::FreelyMovableWithinComponent
    }
}

/// The predicates of `WHERE`.
pub open spec fn where_atoms(t: TreeView, filter: Option<ExprView>) -> Seq<AtomView> {
    match filter {
        None => Seq::empty(),
        Some(f) => Seq::new(terms(f).len(), |i: int| where_atom(t, terms(f)[i], i)),
    }
}

/// The predicate of a term of `WHERE`.
pub open spec fn where_atom(t: TreeView, e: ExprView, i: int) -> AtomView {
    AtomView {
        id: atom_id(i),
        expr: e,
        slots: used_slots(e),
        origin: PredicateOrigin::Where,
        mobility: where_mobility(t, e),
    }
}

/// How freely a term of `ON` can move: it is pinned to its join where that is an outer join, or
/// where an outer join can fill what it joins with `NULL`.
pub open spec fn on_mobility(kind: JoinKind, under: bool, join_id: usize) -> PredicateMobility {
    if !outer(kind) && !under {
        PredicateMobility::FreelyMovableWithinComponent
    } else {
        PredicateMobility::PinnedToJoin { join_id }
    }
}

/// The predicate of a term of `ON`.
pub open spec fn on_atom(e: ExprView, kind: JoinKind, under: bool, join_index: usize, i: int) -> AtomView {
    AtomView {
        id: atom_id(i),
        expr: e,
        slots: used_slots(e),
        origin: PredicateOrigin::On { join_index },
        mobility: on_mobility(kind, under, join_index),
    }
}

/// The predicates of an `ON` clause; `first` is the position of the first of them.
pub open spec fn on_atoms(
    on: Option<ExprView>,
    kind: JoinKind,
    under: bool,
    join_index: usize,
    first: int,
) -> Seq<AtomView> {
    match on {
        None => Seq::empty(),
        Some(c) => Seq::new(
            terms(c).len(),
            |i: int| on_atom(terms(c)[i], kind, under, join_index, first + i),
        ),
    }
}

/// The predicates of the `ON` clauses of a tree in post-order. `under` says that an outer join
/// above can fill the tree with `NULL`, `join` is the index of its first join and `first` the
/// position of its first predicate.
pub open spec fn join_atoms(t: TreeView, under: bool, join: usize, first: int) -> Seq<AtomView>
    decreases t,
{
    match t {
        TreeView::Leaf(_) => Seq::empty(),
        TreeView::Join { kind, left, right, on } => {
            let a = join_atoms(
                *left,
                under || kind == JoinKind::Right || kind == JoinKind::Full,
                join,
                first,
            );
            let middle = ahead(join, joins(*left));
            let b = join_atoms(
                *right,
                under || kind == JoinKind::Left || kind == JoinKind::Full,
                middle,
                first + a.len(),
            );
            let own = ahead(middle, joins(*right));
            a + b + on_atoms(on, kind, under, own, first + a.len() + b.len())
        },
    }
}

/// The predicates of a select block: those of `WHERE`, then those of the joins in post-order.
pub open spec fn atoms_of(s: SelectView) -> Seq<AtomView> {
    let w = where_atoms(s.join_tree, s.filter);
    w + join_atoms(s.join_tree, false, 0, w.len() as int)
}

/// Whether the slots of every predicate are listed in increasing order, each once.
pub open spec fn slots_in_order(atoms: Seq<PredicateAtom>) -> bool {
    forall|i: int| 0 <= i < atoms.len() ==> ascending((#[trigger] atoms[i]).referenced_slots@)
}

fn id_at(n: usize) -> (r: PredicateAtomId)
    ensures
        r == atom_id(n as int),
{
    if n > u32::MAX as usize {
        PredicateAtomId(u32::MAX)
    } else {
        PredicateAtomId(n as u32)
    }
}

fn step_ahead(n: usize) -> (r: usize)
    ensures
        r == ahead(n, 1),
{
    if n == usize::MAX {
        n
    } else {
        n + 1
    }
}

fn slots_used(e: &Expr) -> (r: Vec<usize>)
    ensures
        r@.to_set() == used_slots(e@),
        ascending(r@),
{
    let r = e.referenced_slots();
    assert(r@.to_set() =~= used_slots(e@)) by {
        assert forall|s: usize| r@.to_set().contains(s) <==> used_slots(e@).contains(s) by {
            assert(r@.contains(s) <==> uses_slot(e@, s as int));
        }
    }
    r
}

/// Takes the predicates of a select block apart, and says how freely each can move.
pub fn extract_predicate_atoms(select: &SelectBody) -> (r: Vec<PredicateAtom>)
    ensures
        views(r@) == atoms_of(select@),
        slots_in_order(r@),
{
    let ghost t = select.join_tree@;
    assert(select@.join_tree == t);
    assert(select@.filter == option_view(select.filter));
    let mut atoms: Vec<PredicateAtom> = Vec::new();
    let mut null_supplying: Vec<usize> = Vec::new();
    collect_null_supplying_slots(&select.join_tree, &mut null_supplying);
    assert(null_supplying@.to_set() =~= null_slots(t));
    assert(views(atoms@) =~= Seq::empty());
    match &select.filter {
        None => {},
        Some(filter) => {
            let list = conjuncts(filter);
            let ghost all = target_views(list@);
            let ghost whole = where_atoms(t, Some(filter@));
            let mut i: usize = 0;
            while i < list.len()
                invariant
                    i <= list.len(),
                    all == target_views(list@),
                    all == terms(filter@),
                    whole == where_atoms(t, Some(filter@)),
                    t == select.join_tree@,
                    null_supplying@.to_set() == null_slots(t),
                    atoms@.len() == i,
                    forall|k: int| 0 <= k < i ==> (#[trigger] atoms@[k])@ == whole[k],
                    slots_in_order(atoms@),
                decreases list.len() - i,
            {
                let e = list[i];
                assert(all[i as int] == e@);
                let referenced_slots = slots_used(e);
                let mobility = if contains_correlated_subquery(e) || lists_meet(
                    &referenced_slots,
                    &null_supplying,
                ) || spans_outer_join_boundary(&select.join_tree, &referenced_slots) {
                    PredicateMobility::PostJoinOnly
                } else {
                    PredicateMobility::FreelyMovableWithinComponent
                };
                let atom = PredicateAtom {
                    id: id_at(i),
                    expr: e.copy(),
                    referenced_slots,
                    origin: PredicateOrigin::Where,
                    mobility,
                };
                assert(atom@ == where_atom(t, e@, i as int));
                atoms.push(atom);
                i = i + 1;
            }
            assert(views(atoms@) =~= whole);
        },
    }
    let ghost before = views(atoms@);
    assert(before == where_atoms(t, select@.filter));
    let _: usize = extract_join_atoms(&select.join_tree, false, 0, &mut atoms);
    atoms
}

fn extract_join_atoms(
    tree: &JoinTree,
    under: bool,
    next_join_index: usize,
    atoms: &mut Vec<PredicateAtom>,
) -> (r: usize)
    requires
        slots_in_order(old(atoms)@),
    ensures
        views(final(atoms)@) == views(old(atoms)@) + join_atoms(
            tree@,
            under,
            next_join_index,
            old(atoms)@.len() as int,
        ),
        slots_in_order(final(atoms)@),
        r == ahead(next_join_index, joins(tree@)),
    decreases *tree,
{
    match tree {
        JoinTree::Leaf(_) => {
            assert(views(atoms@) =~= views(old(atoms)@) + Seq::empty());
            next_join_index
        },
        JoinTree::Join { kind, left, right, on } => {
            let ghost start = views(atoms@);
            let ghost a = join_atoms(
                (*left)@,
                under || *kind == JoinKind::Right || *kind == JoinKind::Full,
                next_join_index,
                start.len() as int,
            );
            let middle: usize = extract_join_atoms(
                left,
                under || *kind == JoinKind::Right || *kind == JoinKind::Full,
                next_join_index,
                atoms,
            );
            assert(atoms@.len() == views(atoms@).len());
            let ghost b = join_atoms(
                (*right)@,
                under || *kind == JoinKind::Left || *kind == JoinKind::Full,
                middle,
                start.len() + a.len() as int,
            );
            let own: usize = extract_join_atoms(
                right,
                under || *kind == JoinKind::Left || *kind == JoinKind::Full,
                middle,
                atoms,
            );
            assert(atoms@.len() == views(atoms@).len());
            let ghost first = (start.len() + a.len() + b.len()) as int;
            let ghost before = views(atoms@);
            assert(before =~= start + (a + b));
            let movable = match kind {
                JoinKind::Inner | JoinKind::Cross => !under,
                _ => false,
            };
            let mobility = if movable {
                PredicateMobility::FreelyMovableWithinComponent
            } else {
                PredicateMobility::PinnedToJoin { join_id: own }
            };
            match on {
                None => {},
                Some(c) => {
                    let list = conjuncts(c);
                    push_on_atoms(&list, own, mobility, atoms);
                    assert(views(atoms@) =~= before + on_atoms(
                        Some(c@),
                        *kind,
                        under,
                        own,
                        first,
                    ));
                },
            }
            assert(option_view(*on) == match on {
                Some(c) => Some(c@),
                None => None,
            });
            assert(views(atoms@) =~= start + (a + b + on_atoms(
                option_view(*on),
                *kind,
                under,
                own,
                first,
            )));
            step_ahead(own)
        },
    }
}

fn push_on_atoms(
    list: &Vec<&Expr>,
    join_index: usize,
    mobility: PredicateMobility,
    atoms: &mut Vec<PredicateAtom>,
)
    requires
        slots_in_order(old(atoms)@),
    ensures
        slots_in_order(final(atoms)@),
        views(final(atoms)@) == views(old(atoms)@) + Seq::new(
            list@.len(),
            |i: int|
                AtomView {
                    id: atom_id(old(atoms)@.len() + i),
                    expr: target_views(list@)[i],
                    slots: used_slots(target_views(list@)[i]),
                    origin: PredicateOrigin::On { join_index },
                    mobility,
                },
        ),
{
    let ghost start = atoms@;
    let ghost whole = Seq::new(
        list@.len(),
        |i: int|
            AtomView {
                id: atom_id(start.len() + i),
                expr: target_views(list@)[i],
                slots: used_slots(target_views(list@)[i]),
                origin: PredicateOrigin::On { join_index },
                mobility,
            },
    );
    let mut i: usize = 0;
    assert(views(atoms@) =~= views(start) + whole.take(0));
    while i < list.len()
        invariant
            i <= list.len(),
            slots_in_order(atoms@),
            atoms@.len() == start.len() + i,
            whole.len() == list@.len(),
            whole == Seq::new(
                list@.len(),
                |i: int|
                    AtomView {
                        id: atom_id(start.len() + i),
                        expr: target_views(list@)[i],
                        slots: used_slots(target_views(list@)[i]),
                        origin: PredicateOrigin::On { join_index },
                        mobility,
                    },
            ),
            views(atoms@) == views(start) + whole.take(i as int),
        decreases list.len() - i,
    {
        let e = list[i];
        assert(target_views(list@)[i as int] == e@);
        let referenced_slots = slots_used(e);
        let atom = PredicateAtom {
            id: id_at(atoms.len()),
            expr: e.copy(),
            referenced_slots,
            origin: PredicateOrigin::On { join_index },
            mobility,
        };
        assert(atom@ == whole[i as int]);
        proof {
            lemma_views_push(atoms@, atom);
            assert(views(start) + whole.take(i + 1) =~= (views(start) + whole.take(
                i as int,
            )).push(whole[i as int]));
        }
        atoms.push(atom);
        i = i + 1;
    }
    assert(whole.take(list.len() as int) =~= whole);
}

/// The slots of every join of a tree, in post-order.
pub open spec fn join_slots(t: TreeView) -> Seq<Set<usize>>
    decreases t,
{
    match t {
        TreeView::Leaf(_) => Seq::empty(),
        TreeView::Join { left, right, .. } => (join_slots(*left) + join_slots(*right)).push(
            slot_set(t),
        ),
    }
}

/// The slots of every join of a tree from left to right, in post-order.
pub open spec fn join_layouts(t: TreeView) -> Seq<Seq<usize>>
    decreases t,
{
    match t {
        TreeView::Leaf(_) => Seq::empty(),
        TreeView::Join { left, right, .. } => (join_layouts(*left) + join_layouts(*right)).push(
            leaf_order(t),
        ),
    }
}

/// The sets that lists of slots stand for.
pub open spec fn as_sets(list: Seq<Vec<usize>>) -> Seq<Set<usize>> {
    Seq::new(list.len(), |i: int| list[i]@.to_set())
}

/// Whether every list of slots from a position on is increasing.
pub open spec fn ascending_from(list: Seq<Vec<usize>>, start: int) -> bool {
    forall|i: int| start <= i < list.len() ==> ascending((#[trigger] list[i])@)
}

/// Appends the slots of every join of a tree in post-order.
pub fn collect_join_slot_sets(tree: &JoinTree, output: &mut Vec<Vec<usize>>)
    ensures
        as_sets(final(output)@) == as_sets(old(output)@) + join_slots(tree@),
        ascending_from(final(output)@, old(output)@.len() as int),
        old(output)@.is_prefix_of(final(output)@),
    decreases *tree,
{
    match tree {
        JoinTree::Leaf(_) => {
            assert(as_sets(output@) =~= as_sets(old(output)@) + Seq::empty());
        },
        JoinTree::Join { left, right, .. } => {
            collect_join_slot_sets(left, output);
            let ghost half = output@;
            collect_join_slot_sets(right, output);
            let ghost before = output@;
            assert forall|i: int| old(output)@.len() <= i < before.len() implies ascending(
                (#[trigger] before[i])@,
            ) by {
                if i < half.len() {
                    assert(before[i] == half[i]);
                }
            }
            let all = slots_of(tree);
            let slots = sort_dedup(&all);
            output.push(slots);
            assert(as_sets(output@) =~= as_sets(before).push(slot_set(tree@)));
            assert(as_sets(output@) =~= as_sets(old(output)@) + join_slots(tree@));
        },
    }
}

/// The lists of slots as sequences.
pub open spec fn as_layouts(list: Seq<Vec<usize>>) -> Seq<Seq<usize>> {
    Seq::new(list.len(), |i: int| list[i]@)
}

/// Appends the slots of every join of a tree from left to right, in post-order.
pub fn collect_join_layouts(tree: &JoinTree, output: &mut Vec<Vec<usize>>)
    ensures
        as_layouts(final(output)@) == as_layouts(old(output)@) + join_layouts(tree@),
    decreases *tree,
{
    match tree {
        JoinTree::Leaf(_) => {
            assert(as_layouts(output@) =~= as_layouts(old(output)@) + Seq::empty());
        },
        JoinTree::Join { left, right, .. } => {
            collect_join_layouts(left, output);
            collect_join_layouts(right, output);
            let ghost before = output@;
            output.push(slots_of(tree));
            assert(as_layouts(output@) =~= as_layouts(before).push(leaf_order(tree@)));
            assert(as_layouts(output@) =~= as_layouts(old(output)@) + join_layouts(tree@));
        },
    }
}

/// Where slots lie as seen from an outer join.
#[derive(Clone, Copy, Debug, PartialEq, Eq, Structural)]
pub enum OuterBoundaryLocation {
    /// Within its left input.
    Left,
    /// Within its right input.
    Right,
    /// At the join itself.
    At,
    /// Anywhere else.
    Outside,
}

/// The slots of an outer join and of its inputs.
#[derive(Debug, PartialEq, Eq)]
pub struct OuterJoinBoundary {
    /// Slots of the join.
    pub slots: Vec<usize>,
    /// Slots of the left input.
    pub left_slots: Vec<usize>,
    /// Slots of the right input.
    pub right_slots: Vec<usize>,
}

/// The mathematical model of an [`OuterJoinBoundary`].
pub struct BoundaryView {
    /// Slots of the join.
    pub slots: Set<usize>,
    /// Slots of the left input.
    pub left: Set<usize>,
    /// Slots of the right input.
    pub right: Set<usize>,
}

impl View for OuterJoinBoundary {
    type V = BoundaryView;

    open spec fn view(&self) -> BoundaryView {
        BoundaryView {
            slots: self.slots@.to_set(),
            left: self.left_slots@.to_set(),
            right: self.right_slots@.to_set(),
        }
    }
}

/// The outer joins of a tree, in post-order.
pub open spec fn boundaries(t: TreeView) -> Seq<BoundaryView>
    decreases t,
{
    match t {
        TreeView::Leaf(_) => Seq::empty(),
        TreeView::Join { kind, left, right, .. } => {
            let inner = boundaries(*left) + boundaries(*right);
            if outer(kind) {
                inner.push(
                    BoundaryView {
                        slots: slot_set(t),
                        left: slot_set(*left),
                        right: slot_set(*right),
                    },
                )
            } else {
                inner
            }
        },
    }
}

/// Appends the outer joins of a tree in post-order.
pub fn collect_outer_join_boundaries(tree: &JoinTree, output: &mut Vec<OuterJoinBoundary>)
    ensures
        views(final(output)@) == views(old(output)@) + boundaries(tree@),
    decreases *tree,
{
    match tree {
        JoinTree::Leaf(_) => {
            assert(views(output@) =~= views(old(output)@) + Seq::empty());
        },
        JoinTree::Join { kind, left, right, .. } => {
            collect_outer_join_boundaries(left, output);
            collect_outer_join_boundaries(right, output);
            assert(views(output@) =~= views(old(output)@) + (boundaries((*left)@) + boundaries(
                (*right)@,
            )));
            match kind {
                JoinKind::Inner | JoinKind::Cross => {
                    return;
                },
                _ => {},
            }
            let left_all = slots_of(left);
            let right_all = slots_of(right);
            let all = slots_of(tree);
            let b = OuterJoinBoundary {
                slots: sort_dedup(&all),
                left_slots: sort_dedup(&left_all),
                right_slots: sort_dedup(&right_all),
            };
            let ghost before = output@;
            proof {
                lemma_views_push(before, b);
            }
            output.push(b);
            assert(views(output@) =~= views(old(output)@) + boundaries(tree@));
        },
    }
}

/// Where slots lie as seen from an outer join.
pub open spec fn location(slots: Set<usize>, b: BoundaryView) -> OuterBoundaryLocation {
    if slots == b.slots {
        OuterBoundaryLocation::At
    } else if slots.subset_of(b.left) {
        OuterBoundaryLocation::Left
    } else if slots.subset_of(b.right) {
        OuterBoundaryLocation::Right
    } else {
        OuterBoundaryLocation::Outside
    }
}

/// Where slots lie as seen from an outer join.
pub fn outer_boundary_location(slots: &Vec<usize>, boundary: &OuterJoinBoundary) -> (r:
    OuterBoundaryLocation)
    ensures
        r == location(slots@.to_set(), boundary@),
{
    if lists_agree(slots, &boundary.slots) {
        OuterBoundaryLocation::At
    } else if list_within(slots, &boundary.left_slots) {
        OuterBoundaryLocation::Left
    } else if list_within(slots, &boundary.right_slots) {
        OuterBoundaryLocation::Right
    } else {
        OuterBoundaryLocation::Outside
    }
}

/// Where a predicate is evaluated.
#[derive(Clone, Copy, Debug, PartialEq, Eq, Structural)]
pub enum PredicatePlacement {
    /// While an input is scanned.
    Scan(usize),
    /// At a join.
    Join(usize),
    /// After all joins.
    PostJoin,
}

/// The slots of the place at which a predicate is evaluated, if the place exists.
pub open spec fn placed_slots(p: PredicatePlacement, sets: Seq<Set<usize>>) -> Option<Set<usize>> {
    match p {
        PredicatePlacement::Scan(slot) => Some(set![slot]),
        PredicatePlacement::Join(id) => if id < sets.len() {
            Some(sets[id as int])
        } else {
            None
        },
        PredicatePlacement::PostJoin => Some(Set::empty()),
    }
}

/// Where a placement lies as seen from an outer join.
pub open spec fn placed_location(p: PredicatePlacement, sets: Seq<Set<usize>>, b: BoundaryView) -> OuterBoundaryLocation {
    if p == PredicatePlacement::PostJoin {
        OuterBoundaryLocation::Outside
    } else {
        location(placed_slots(p, sets)->0, b)
    }
}

/// Whether a predicate that comes from `origin` lies elsewhere at its placement, as seen from one
/// of the outer joins; a join that does not exist lies elsewhere.
pub open spec fn crosses(
    origin: Set<usize>,
    p: PredicatePlacement,
    sets: Seq<Set<usize>>,
    bs: Seq<BoundaryView>,
) -> bool {
    placed_slots(p, sets) is None || exists|i: int|
        0 <= i < bs.len() && location(origin, #[trigger] bs[i]) != placed_location(p, sets, bs[i])
}

/// Whether a predicate that comes from `origin_slots` lies elsewhere at its placement.
pub fn placement_crosses_outer_boundary(
    origin_slots: &Vec<usize>,
    placement: PredicatePlacement,
    reordered_join_slots: &Vec<Vec<usize>>,
    boundaries: &Vec<OuterJoinBoundary>,
) -> (r: bool)
    ensures
        r == crosses(
            origin_slots@.to_set(),
            placement,
            as_sets(reordered_join_slots@),
            views(boundaries@),
        ),
{
    let ghost sets = as_sets(reordered_join_slots@);
    let attachment: Vec<usize> = match placement {
        PredicatePlacement::Scan(slot) => {
            let mut one: Vec<usize> = Vec::new();
            one.push(slot);
            assert(one@.to_set() =~= set![slot]) by {
                assert(one@[0] == slot);
            }
            one
        },
        PredicatePlacement::Join(id) => {
            if id >= reordered_join_slots.len() {
                return true;
            }
            let found = sort_dedup(&reordered_join_slots[id]);
            found
        },
        PredicatePlacement::PostJoin => Vec::new(),
    };
    let after = match placement {
        PredicatePlacement::PostJoin => true,
        _ => false,
    };
    assert(placement != PredicatePlacement::PostJoin ==> attachment@.to_set() == placed_slots(
        placement,
        sets,
    )->0);
    let mut i: usize = 0;
    while i < boundaries.len()
        invariant
            i <= boundaries.len(),
            after == (placement == PredicatePlacement::PostJoin),
            sets == as_sets(reordered_join_slots@),
            placed_slots(placement, sets) is Some,
            !after ==> attachment@.to_set() == placed_slots(placement, sets)->0,
            forall|k: int|
                0 <= k < i ==> location(
                    origin_slots@.to_set(),
                    #[trigger] views(boundaries@)[k],
                ) == placed_location(placement, sets, views(boundaries@)[k]),
        decreases boundaries.len() - i,
    {
        let b = &boundaries[i];
        assert(views(boundaries@)[i as int] == b@);
        let origin = outer_boundary_location(origin_slots, b);
        let target = if after {
            OuterBoundaryLocation::Outside
        } else {
            outer_boundary_location(&attachment, b)
        };
        if origin != target {
            return true;
        }
        i = i + 1;
    }
    false
}

} // verus!
