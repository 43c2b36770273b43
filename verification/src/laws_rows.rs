//! Laws of rows: optimization keeps the rows of a select block.

use crate::atoms::{
    ahead, atoms_of, depends_on_outer, holds_correlation, join_atoms, join_layouts, join_slots,
    joins, leaf_order, on_atoms, slot_set, terms, used_slots, where_atoms, AtomView,
    PredicateAtomId, PredicateMobility, PredicateOrigin, PredicatePlacement,
};
use crate::cardinality::Planning;
use crate::expr::{nodes, ExprView};
use crate::laws_eval::{conjunction_holds_where_its_terms_do, joined_terms_hold_where_each_does};
use crate::laws_free::{
    joins_beside_free_joins_are_free, lemma_join_slots, smallest_holders_are_free,
};
use crate::laws_joins::{
    all_free, apart, conditions_of_free_joins_rise, free_join, given, has_join, keyed, lemma_apart,
    lemma_join_within, lemma_reordered_slots, lemma_slot_set, reordering_keeps_rows, unmatched,
};
use crate::laws_layout::{
    asks_for_row, moved_predicates_keep_their_values, runs_on_row, terms_lie_where_the_whole_does,
    terms_of_plain_predicates_are_plain,
};
use crate::laws_plan::{
    lemma_attached_order, lemma_atoms_check, reordering_keeps_outer_joins, reordering_keeps_slots,
};
use crate::materialize::{
    all_of, always, atom_with, attached, conditioned, logical_layout, placed_term, placed_terms,
    remapped, residual_terms, terms_at,
};
use crate::meaning::{agree, World};
use crate::optimize::optimized_select;
use crate::query::{JoinKind, SelectView, SlotView, TreeView};
use crate::reorder::{
    atom_check, conservation_check, ids_of, mobility_check, movable_placement, origin_check,
    placement_for, placement_of, placements_of, reordered, reordering_of,
};
use crate::stats::StatsLookup;
use crate::value::{ErrorView, ValueView};
use vstd::prelude::*;

verus! {

/// Whether the conditions of a tree are those of a bound query: their columns lie where the rows of
/// their joins have them, they run no subquery on the row, none of their terms is a bare number, and
/// a cross join has none.
pub open spec fn laid_out(slots: Seq<SlotView>, t: TreeView) -> bool
    decreases t,
{
    match t {
        TreeView::Leaf(_) => true,
        TreeView::Join { kind, left, right, on } => {
            &&& laid_out(slots, *left)
            &&& laid_out(slots, *right)
            &&& kind == JoinKind::Cross ==> on is None
            &&& on matches Some(e) ==> {
                &&& remapped(e, slots, leaf_order(t)) == Ok::<ExprView, ErrorView>(e)
                &&& !asks_for_row(e)
                &&& forall|i: int| 0 <= i < terms(e).len() ==> #[trigger] terms(e)[i] != always()
            }
        },
    }
}

/// Whether a select block is one that binding gives: it joins every slot once, its columns lie
/// where the rows have them, and its joins can be counted.
pub open spec fn well_bound(s: SelectView) -> bool {
    &&& leaf_order(s.join_tree).no_duplicates()
    &&& joins(s.join_tree) <= usize::MAX
    &&& laid_out(s.slots, s.join_tree)
    &&& s.filter matches Some(f) ==> remapped(f, s.slots, logical_layout(s.slots.len())) == Ok::<
        ExprView,
        ErrorView,
    >(f)
}

/// The condition of the join of the given slots.
spec fn condition(w: World, t: TreeView, s: Set<usize>, a: spec_fn(usize) -> Option<int>) -> bool
    decreases t,
{
    match t {
        TreeView::Leaf(_) => true,
        TreeView::Join { kind, left, right, on } => if s == slot_set(t) {
            kind == JoinKind::Cross || w.joins_on(on, leaf_order(t), a)
        } else if has_join(*left, s) {
            condition(w, *left, s, a)
        } else {
            condition(w, *right, s, a)
        },
    }
}

/// A join of a side is no join of the other side, and not the whole.
proof fn lemma_sides(t: TreeView, s: Set<usize>)
    requires
        apart(t),
    ensures
        t matches TreeView::Join { left, right, .. } ==> {
            &&& has_join(*left, s) ==> s != slot_set(t) && !has_join(*right, s)
            &&& has_join(*right, s) ==> s != slot_set(t) && !has_join(*left, s)
        },
{
    match t {
        TreeView::Leaf(_) => {},
        TreeView::Join { left, right, .. } => {
            lemma_slot_set(t);
            lemma_slot_set(*left);
            lemma_slot_set(*right);
            let x = choose|x: usize| slot_set(*left).contains(x);
            let y = choose|y: usize| slot_set(*right).contains(y);
            assert(slot_set(t).contains(x) && slot_set(t).contains(y));
            if has_join(*left, s) {
                lemma_join_within(*left, s);
                assert(!s.contains(y));
            }
            if has_join(*right, s) {
                lemma_join_within(*right, s);
                assert(!s.contains(x));
            }
            if has_join(*left, s) && has_join(*right, s) {
                let z = choose|z: usize| s.contains(z);
                assert(slot_set(*left).contains(z) && slot_set(*right).contains(z));
            }
        },
    }
}

/// The rows that the two sides of a join leave unmatched.
proof fn lemma_alone(
    w: World,
    t: TreeView,
    u: TreeView,
    on: Option<ExprView>,
    layout: Seq<usize>,
    f: spec_fn(Set<usize>, spec_fn(usize) -> Option<int>) -> bool,
    side: Set<usize>,
    s: Set<usize>,
    a: spec_fn(usize) -> Option<int>,
)
    requires
        forall|b: spec_fn(usize) -> Option<int>| #[trigger] w.gives(t, b) == given(w, u, f, b),
        forall|b: spec_fn(usize) -> Option<int>|
            #![trigger f(s, b)]
            #![trigger w.joins_on(on, layout, b)]
            f(s, b) == w.joins_on(on, layout, b),
    ensures
        unmatched(w, u, f, side, s, a) == (forall|b: spec_fn(usize) -> Option<int>|
            agree(side, a, b) && w.gives(t, b) ==> !#[trigger] w.joins_on(on, layout, b)),
{
    if unmatched(w, u, f, side, s, a) {
        assert forall|b: spec_fn(usize) -> Option<int>|
            agree(side, a, b) && w.gives(t, b) implies !#[trigger] w.joins_on(on, layout, b) by {
            assert(f(s, b) == w.joins_on(on, layout, b));
        }
    }
    if forall|b: spec_fn(usize) -> Option<int>|
        agree(side, a, b) && w.gives(t, b) ==> !#[trigger] w.joins_on(on, layout, b) {
        assert forall|b: spec_fn(usize) -> Option<int>|
            #[trigger] agree(side, a, b) && given(w, u, f, b) implies !f(s, b) by {
            assert(w.gives(t, b));
            assert(f(s, b) == w.joins_on(on, layout, b));
        }
    }
}

/// The rows of a tree are those that the conditions of its joins give.
proof fn lemma_gives(
    w: World,
    t: TreeView,
    f: spec_fn(Set<usize>, spec_fn(usize) -> Option<int>) -> bool,
)
    requires
        apart(t),
        laid_out(w.slots, t),
        forall|s: Set<usize>, a: spec_fn(usize) -> Option<int>|
            has_join(t, s) ==> #[trigger] f(s, a) == condition(w, t, s, a),
    ensures
        forall|a: spec_fn(usize) -> Option<int>| #[trigger] w.gives(t, a) == given(w, t, f, a),
    decreases t,
{
    match t {
        TreeView::Leaf(_) => {},
        TreeView::Join { kind, left, right, on } => {
            let s = slot_set(t);
            assert(has_join(t, s));
            assert forall|x: Set<usize>, a: spec_fn(usize) -> Option<int>|
                has_join(*left, x) implies #[trigger] f(x, a) == condition(w, *left, x, a) by {
                lemma_sides(t, x);
                assert(has_join(t, x));
                assert(f(x, a) == condition(w, t, x, a));
            }
            assert forall|x: Set<usize>, a: spec_fn(usize) -> Option<int>|
                has_join(*right, x) implies #[trigger] f(x, a) == condition(w, *right, x, a) by {
                lemma_sides(t, x);
                assert(has_join(t, x));
                assert(f(x, a) == condition(w, t, x, a));
            }
            lemma_gives(w, *left, f);
            lemma_gives(w, *right, f);
            let layout = leaf_order(t);
            assert forall|b: spec_fn(usize) -> Option<int>|
                #![trigger f(s, b)]
                #![trigger w.joins_on(on, layout, b)]
                f(s, b) == w.joins_on(on, layout, b) by {
                assert(f(s, b) == condition(w, t, s, b));
            }
            assert forall|a: spec_fn(usize) -> Option<int>| #[trigger]
                w.gives(t, a) == given(w, t, f, a) by {
                assert(w.gives(*left, a) == given(w, *left, f, a));
                assert(w.gives(*right, a) == given(w, *right, f, a));
                assert(f(s, a) == w.joins_on(on, layout, a));
                lemma_alone(w, *right, *right, on, layout, f, slot_set(*left), s, a);
                lemma_alone(w, *left, *left, on, layout, f, slot_set(*right), s, a);
            }
        },
    }
}

/// What is known of a predicate that comes from the joins of a tree, the first of which has the
/// index `join`.
spec fn sound_atom(slots: Seq<SlotView>, t: TreeView, under: bool, join: int, x: AtomView) -> bool {
    x.origin matches PredicateOrigin::On { join_index: j } && {
        let i = j - join;
        &&& 0 <= i < joins(t)
        &&& remapped(x.expr, slots, join_layouts(t)[i]) == Ok::<ExprView, ErrorView>(x.expr)
        &&& !asks_for_row(x.expr)
        &&& x.expr != always()
        &&& x.slots == used_slots(x.expr)
        &&& x.mobility == (PredicateMobility::PinnedToJoin { join_id: j }) || (x.mobility
            == PredicateMobility::FreelyMovableWithinComponent && !under && free_join(
            t,
            join_slots(t)[i],
        ))
    }
}

/// Whether the predicates of a list that come from the join of the slots `s` are `TRUE`.
spec fn tested(
    w: World,
    t: TreeView,
    join: int,
    list: Seq<AtomView>,
    s: Set<usize>,
    a: spec_fn(usize) -> Option<int>,
) -> bool {
    forall|k: int|
        0 <= k < list.len() ==> ((#[trigger] list[k]).origin matches PredicateOrigin::On {
            join_index: j,
        } ==> join_slots(t)[j - join] == s ==> w.yes(list[k].expr, join_layouts(t)[j - join], a))
}

/// The predicates of the joins of a tree are sound, and together they are the conditions of its
/// joins.
proof fn lemma_join_atoms(w: World, t: TreeView, under: bool, join: usize, first: int)
    requires
        apart(t),
        laid_out(w.slots, t),
        join + joins(t) <= usize::MAX,
    ensures
        forall|k: int|
            0 <= k < join_atoms(t, under, join, first).len() ==> sound_atom(
                w.slots,
                t,
                under,
                join as int,
                #[trigger] join_atoms(t, under, join, first)[k],
            ),
        forall|s: Set<usize>, a: spec_fn(usize) -> Option<int>|
            has_join(t, s) ==> #[trigger] condition(w, t, s, a) == tested(
                w,
                t,
                join as int,
                join_atoms(t, under, join, first),
                s,
                a,
            ),
    decreases t,
{
    match t {
        TreeView::Leaf(_) => {},
        TreeView::Join { kind, left, right, on } => {
            let ua = under || kind == JoinKind::Right || kind == JoinKind::Full;
            let ub = under || kind == JoinKind::Left || kind == JoinKind::Full;
            let a = join_atoms(*left, ua, join, first);
            let middle = ahead(join, joins(*left));
            let b = join_atoms(*right, ub, middle, first + a.len());
            let own = ahead(middle, joins(*right));
            let c = on_atoms(on, kind, under, own, first + a.len() + b.len());
            let all = join_atoms(t, under, join, first);
            assert(all == a + b + c);
            lemma_join_atoms(w, *left, ua, join, first);
            lemma_join_atoms(w, *right, ub, middle, first + a.len());
            lemma_join_slots(t);
            lemma_join_slots(*left);
            lemma_join_slots(*right);
            let n = joins(*left) as int;
            let m = joins(*right) as int;
            assert(join_slots(t) == (join_slots(*left) + join_slots(*right)).push(slot_set(t)));
            assert(join_layouts(t) == (join_layouts(*left) + join_layouts(*right)).push(
                leaf_order(t),
            ));
            assert(own - join == n + m);
            match on {
                Some(e) => {
                    terms_lie_where_the_whole_does(e, w.slots, leaf_order(t));
                    terms_of_plain_predicates_are_plain(e);
                },
                None => {},
            }
            assert forall|k: int| 0 <= k < all.len() implies sound_atom(
                w.slots,
                t,
                under,
                join as int,
                #[trigger] all[k],
            ) by {
                if k < a.len() {
                    assert(all[k] == a[k]);
                    assert(sound_atom(w.slots, *left, ua, join as int, a[k]));
                    let j = all[k].origin->join_index;
                    assert(join_slots(t)[j - join] == join_slots(*left)[j - join]);
                    assert(join_layouts(t)[j - join] == join_layouts(*left)[j - join]);
                } else if k < a.len() + b.len() {
                    let x = b[k - a.len()];
                    assert(all[k] == x);
                    assert(sound_atom(w.slots, *right, ub, middle as int, x));
                    let j = x.origin->join_index;
                    assert(join_slots(t)[j - join] == join_slots(*right)[j - middle]);
                    assert(join_layouts(t)[j - join] == join_layouts(*right)[j - middle]);
                } else {
                    let i = k - a.len() - b.len();
                    assert(all[k] == c[i]);
                    assert(c[i].expr == terms(on->0)[i]);
                    assert(join_slots(t)[n + m] == slot_set(t));
                    assert(join_layouts(t)[n + m] == leaf_order(t));
                }
            }
            assert forall|s: Set<usize>, p: spec_fn(usize) -> Option<int>|
                has_join(t, s) implies #[trigger] condition(w, t, s, p) == tested(
                w,
                t,
                join as int,
                all,
                s,
                p,
            ) by {
                lemma_sides(t, s);
                lemma_tested_parts(w, t, join as int, a, b, c, s, p);
                if s == slot_set(t) {
                    lemma_untested(w, t, join as int, a, s, p, ua, *left, 0);
                    lemma_untested(w, t, join as int, b, s, p, ub, *right, n);
                    lemma_own_condition(w, t, join as int, c, under, own, first + a.len() + b.len(), p);
                } else if has_join(*left, s) {
                    lemma_untested(w, t, join as int, b, s, p, ub, *right, n);
                    lemma_own_untested(w, t, join as int, c, under, own, first + a.len() + b.len(), s, p);
                    lemma_tested_side(w, t, join as int, a, s, p, ua, *left, 0);
                    assert(condition(w, *left, s, p) == tested(w, *left, join as int, a, s, p));
                } else {
                    assert(has_join(*right, s));
                    lemma_untested(w, t, join as int, a, s, p, ua, *left, 0);
                    lemma_own_untested(w, t, join as int, c, under, own, first + a.len() + b.len(), s, p);
                    lemma_tested_side(w, t, join as int, b, s, p, ub, *right, n);
                    assert(condition(w, *right, s, p) == tested(w, *right, middle as int, b, s, p));
                }
            }
        },
    }
}

proof fn lemma_tested_parts(
    w: World,
    t: TreeView,
    join: int,
    a: Seq<AtomView>,
    b: Seq<AtomView>,
    c: Seq<AtomView>,
    s: Set<usize>,
    p: spec_fn(usize) -> Option<int>,
)
    ensures
        tested(w, t, join, a + b + c, s, p) == (tested(w, t, join, a, s, p) && tested(
            w,
            t,
            join,
            b,
            s,
            p,
        ) && tested(w, t, join, c, s, p)),
{
    let all = a + b + c;
    if tested(w, t, join, all, s, p) {
        assert forall|k: int| 0 <= k < a.len() implies ((#[trigger] a[k]).origin matches PredicateOrigin::On {
            join_index: j,
        } ==> join_slots(t)[j - join] == s ==> w.yes(a[k].expr, join_layouts(t)[j - join], p)) by {
            assert(all[k] == a[k]);
        }
        assert forall|k: int| 0 <= k < b.len() implies ((#[trigger] b[k]).origin matches PredicateOrigin::On {
            join_index: j,
        } ==> join_slots(t)[j - join] == s ==> w.yes(b[k].expr, join_layouts(t)[j - join], p)) by {
            assert(all[a.len() + k] == b[k]);
        }
        assert forall|k: int| 0 <= k < c.len() implies ((#[trigger] c[k]).origin matches PredicateOrigin::On {
            join_index: j,
        } ==> join_slots(t)[j - join] == s ==> w.yes(c[k].expr, join_layouts(t)[j - join], p)) by {
            assert(all[a.len() + b.len() + k] == c[k]);
        }
    }
}

/// Where one side of a join stands among the joins of the whole.
spec fn side_at(t: TreeView, side: TreeView, n: int) -> bool {
    forall|i: int|
        0 <= i < joins(side) ==> (#[trigger] join_slots(side)[i]) == join_slots(t)[n + i]
            && join_layouts(side)[i] == join_layouts(t)[n + i]
}

proof fn lemma_side_at(t: TreeView)
    ensures
        t matches TreeView::Join { left, right, .. } ==> side_at(t, *left, 0) && side_at(
            t,
            *right,
            joins(*left) as int,
        ),
{
    match t {
        TreeView::Leaf(_) => {},
        TreeView::Join { left, right, .. } => {
            lemma_join_slots(*left);
            lemma_join_slots(*right);
        },
    }
}

/// The predicates of one side are not tested at a join that is none of that side.
proof fn lemma_untested(
    w: World,
    t: TreeView,
    join: int,
    list: Seq<AtomView>,
    s: Set<usize>,
    p: spec_fn(usize) -> Option<int>,
    under: bool,
    side: TreeView,
    n: int,
)
    requires
        t matches TreeView::Join { left, right, .. } && (side == *left && n == 0 || side == *right
            && n == joins(*left)),
        !has_join(side, s),
        forall|k: int|
            0 <= k < list.len() ==> sound_atom(w.slots, side, under, join + n, #[trigger] list[k]),
    ensures
        tested(w, t, join, list, s, p),
{
    lemma_side_at(t);
    lemma_join_slots(side);
    assert forall|k: int| 0 <= k < list.len() implies ((#[trigger] list[k]).origin matches PredicateOrigin::On {
        join_index: j,
    } ==> join_slots(t)[j - join] == s ==> w.yes(list[k].expr, join_layouts(t)[j - join], p)) by {
        assert(sound_atom(w.slots, side, under, join + n, list[k]));
        let j = list[k].origin->join_index;
        let i = j - (join + n);
        assert(join_slots(side)[i] == join_slots(t)[n + i]);
    }
}

/// The predicates of one side are tested as they are in that side.
proof fn lemma_tested_side(
    w: World,
    t: TreeView,
    join: int,
    list: Seq<AtomView>,
    s: Set<usize>,
    p: spec_fn(usize) -> Option<int>,
    under: bool,
    side: TreeView,
    n: int,
)
    requires
        t matches TreeView::Join { left, right, .. } && (side == *left && n == 0 || side == *right
            && n == joins(*left)),
        forall|k: int|
            0 <= k < list.len() ==> sound_atom(w.slots, side, under, join + n, #[trigger] list[k]),
    ensures
        tested(w, t, join, list, s, p) == tested(w, side, join + n, list, s, p),
{
    lemma_side_at(t);
    assert forall|k: int| 0 <= k < list.len() implies ((#[trigger] list[k]).origin matches PredicateOrigin::On {
        join_index: j,
    } && join_slots(t)[j - join] == join_slots(side)[j - (join + n)] && join_layouts(t)[j - join]
        == join_layouts(side)[j - (join + n)]) by {
        assert(sound_atom(w.slots, side, under, join + n, list[k]));
        let j = list[k].origin->join_index;
        let i = j - (join + n);
        assert(join_slots(side)[i] == join_slots(t)[n + i]);
    }
}

proof fn lemma_own_untested(
    w: World,
    t: TreeView,
    join: int,
    list: Seq<AtomView>,
    under: bool,
    own: usize,
    first: int,
    s: Set<usize>,
    p: spec_fn(usize) -> Option<int>,
)
    requires
        t matches TreeView::Join { kind, left, right, on } && list == on_atoms(
            on,
            kind,
            under,
            own,
            first,
        ) && own - join == joins(*left) + joins(*right),
        s != slot_set(t),
    ensures
        tested(w, t, join, list, s, p),
{
    match t {
        TreeView::Leaf(_) => {},
        TreeView::Join { kind, left, right, on } => {
            lemma_join_slots(*left);
            lemma_join_slots(*right);
            assert(join_slots(t)[own - join] == slot_set(t));
        },
    }
}

proof fn lemma_own_condition(
    w: World,
    t: TreeView,
    join: int,
    list: Seq<AtomView>,
    under: bool,
    own: usize,
    first: int,
    p: spec_fn(usize) -> Option<int>,
)
    requires
        laid_out(w.slots, t),
        t matches TreeView::Join { kind, left, right, on } && list == on_atoms(
            on,
            kind,
            under,
            own,
            first,
        ) && own - join == joins(*left) + joins(*right),
    ensures
        condition(w, t, slot_set(t), p) == tested(w, t, join, list, slot_set(t), p),
{
    match t {
        TreeView::Leaf(_) => {},
        TreeView::Join { kind, left, right, on } => {
            lemma_join_slots(*left);
            lemma_join_slots(*right);
            assert(join_slots(t)[own - join] == slot_set(t));
            assert(join_layouts(t)[own - join] == leaf_order(t));
            match on {
                None => {},
                Some(e) => {
                    let c = w.at(leaf_order(t), p);
                    conjunction_holds_where_its_terms_do(e, c);
                    assert(e != always()) by {
                        if e == always() {
                            assert(terms(e)[0] == always());
                        }
                    }
                    if w.yes(e, leaf_order(t), p) {
                        assert forall|k: int| 0 <= k < list.len() implies ((
                        #[trigger] list[k]).origin matches PredicateOrigin::On { join_index: j }
                            ==> join_slots(t)[j - join] == slot_set(t) ==> w.yes(
                            list[k].expr,
                            join_layouts(t)[j - join],
                            p,
                        )) by {
                            assert(list[k].expr == terms(e)[k]);
                        }
                    }
                    if tested(w, t, join, list, slot_set(t), p) {
                        assert forall|i: int| 0 <= i < terms(e).len() implies crate::eval::eval_of(
                            #[trigger] terms(e)[i],
                            c,
                        ) == Ok::<ValueView, ErrorView>(ValueView::Bool(true)) by {
                            assert(list[i].expr == terms(e)[i]);
                            assert(list[i].origin == (PredicateOrigin::On { join_index: own }));
                            assert(w.yes(list[i].expr, join_layouts(t)[own - join], p));
                        }
                    }
                },
            }
        },
    }
}

/// Whether the first `n` placed terms that stand at a join are `TRUE`.
spec fn all_at(
    w: World,
    placed: Seq<(PredicatePlacement, ExprView)>,
    id: usize,
    n: int,
    layout: Seq<usize>,
    a: spec_fn(usize) -> Option<int>,
) -> bool {
    forall|i: int|
        0 <= i < n && (#[trigger] placed[i]).0 == PredicatePlacement::Join(id) ==> w.yes(
            placed[i].1,
            layout,
            a,
        )
}

/// Whether all terms of a list are `TRUE`.
spec fn all_yes(
    w: World,
    list: Seq<ExprView>,
    layout: Seq<usize>,
    a: spec_fn(usize) -> Option<int>,
) -> bool {
    forall|i: int| 0 <= i < list.len() ==> w.yes(#[trigger] list[i], layout, a)
}

proof fn lemma_all_yes_push(
    w: World,
    list: Seq<ExprView>,
    e: ExprView,
    layout: Seq<usize>,
    a: spec_fn(usize) -> Option<int>,
)
    ensures
        all_yes(w, list.push(e), layout, a) == (all_yes(w, list, layout, a) && w.yes(e, layout, a)),
{
    let more = list.push(e);
    if all_yes(w, more, layout, a) {
        assert forall|i: int| 0 <= i < list.len() implies w.yes(#[trigger] list[i], layout, a) by {
            assert(more[i] == list[i]);
        }
        assert(more[list.len() as int] == e);
    }
}

proof fn lemma_terms_at(
    w: World,
    placed: Seq<(PredicatePlacement, ExprView)>,
    id: usize,
    n: int,
    layout: Seq<usize>,
    a: spec_fn(usize) -> Option<int>,
)
    requires
        0 <= n <= placed.len(),
    ensures
        all_yes(w, terms_at(placed, id, n), layout, a) == all_at(w, placed, id, n, layout, a),
        terms_at(placed, id, n).len() == 0 <==> forall|i: int|
            0 <= i < n ==> (#[trigger] placed[i]).0 != PredicatePlacement::Join(id),
        forall|i: int|
            0 <= i < terms_at(placed, id, n).len() ==> exists|k: int|
                0 <= k < n && (#[trigger] placed[k]).0 == PredicatePlacement::Join(id)
                    && placed[k].1 == #[trigger] terms_at(placed, id, n)[i],
    decreases n,
{
    if n > 0 {
        lemma_terms_at(w, placed, id, n - 1, layout, a);
        let before = terms_at(placed, id, n - 1);
        let x = placed[n - 1];
        lemma_all_yes_push(w, before, x.1, layout, a);
        if all_at(w, placed, id, n, layout, a) {
            assert(all_at(w, placed, id, n - 1, layout, a));
            if x.0 == PredicatePlacement::Join(id) {
                assert(w.yes(placed[n - 1].1, layout, a));
            }
        }
        if all_at(w, placed, id, n - 1, layout, a) && (x.0 == PredicatePlacement::Join(id)
            ==> w.yes(x.1, layout, a)) {
            assert forall|i: int|
                0 <= i < n && (#[trigger] placed[i]).0 == PredicatePlacement::Join(id) implies w.yes(
                placed[i].1,
                layout,
                a,
            ) by {
                if i == n - 1 {
                }
            }
        }
        let now = terms_at(placed, id, n);
        assert forall|i: int| 0 <= i < now.len() implies exists|k: int|
            0 <= k < n && (#[trigger] placed[k]).0 == PredicatePlacement::Join(id) && placed[k].1
                == #[trigger] now[i] by {
            if i < before.len() {
                assert(now[i] == before[i]);
                let k = choose|k: int|
                    0 <= k < n - 1 && (#[trigger] placed[k]).0 == PredicatePlacement::Join(id)
                        && placed[k].1 == before[i];
                assert(placed[k].1 == now[i]);
            } else {
                assert(placed[n - 1].1 == now[i]);
            }
        }
        if forall|i: int| 0 <= i < n ==> (#[trigger] placed[i]).0 != PredicatePlacement::Join(id) {
            assert(x.0 != PredicatePlacement::Join(id));
        }
    }
}

proof fn lemma_residual(
    w: World,
    placed: Seq<(PredicatePlacement, ExprView)>,
    n: int,
    layout: Seq<usize>,
    a: spec_fn(usize) -> Option<int>,
)
    requires
        0 <= n <= placed.len(),
    ensures
        all_yes(w, residual_terms(placed, n), layout, a) == (forall|i: int|
            0 <= i < n && !((#[trigger] placed[i]).0 is Join) ==> w.yes(placed[i].1, layout, a)),
    decreases n,
{
    if n > 0 {
        lemma_residual(w, placed, n - 1, layout, a);
        let x = placed[n - 1];
        lemma_all_yes_push(w, residual_terms(placed, n - 1), x.1, layout, a);
        if (forall|i: int|
            0 <= i < n - 1 && !((#[trigger] placed[i]).0 is Join) ==> w.yes(
                placed[i].1,
                layout,
                a,
            )) && (!(x.0 is Join) ==> w.yes(x.1, layout, a)) {
            assert forall|i: int| 0 <= i < n && !((#[trigger] placed[i]).0 is Join) implies w.yes(
                placed[i].1,
                layout,
                a,
            ) by {
                if i == n - 1 {
                }
            }
        }
        if forall|i: int|
            0 <= i < n && !((#[trigger] placed[i]).0 is Join) ==> w.yes(placed[i].1, layout, a) {
            if !(x.0 is Join) {
                assert(w.yes(placed[n - 1].1, layout, a));
            }
        }
    }
}

/// Terms joined by `AND` are `TRUE` where each of them is.
proof fn lemma_all_of(
    w: World,
    list: Seq<ExprView>,
    layout: Seq<usize>,
    a: spec_fn(usize) -> Option<int>,
)
    ensures
        (all_of(list) matches Some(e) ==> w.yes(e, layout, a)) == all_yes(w, list, layout, a),
{
    if list.len() > 0 {
        joined_terms_hold_where_each_does(list, list.len() as int, w.at(layout, a));
        if all_yes(w, list, layout, a) {
            assert forall|i: int| 0 <= i < list.len() implies crate::eval::eval_of(
                #[trigger] list[i],
                w.at(layout, a),
            ) == Ok::<ValueView, ErrorView>(ValueView::Bool(true)) by {
                assert(w.yes(list[i], layout, a));
            }
        }
    }
}

/// The conditions that placed terms give the joins of a tree.
spec fn placed_condition(
    w: World,
    whole: TreeView,
    placed: Seq<(PredicatePlacement, ExprView)>,
    s: Set<usize>,
    a: spec_fn(usize) -> Option<int>,
) -> bool {
    forall|i: int|
        0 <= i < placed.len() ==> ((#[trigger] placed[i]).0 matches PredicatePlacement::Join(k)
            ==> k < joins(whole) && join_slots(whole)[k as int] == s ==> w.yes(
            placed[i].1,
            join_layouts(whole)[k as int],
            a,
        ))
}

/// The rows of a tree with placed terms for conditions.
proof fn lemma_attached(
    w: World,
    whole: TreeView,
    placed: Seq<(PredicatePlacement, ExprView)>,
    t: TreeView,
    first: usize,
    f: spec_fn(Set<usize>, spec_fn(usize) -> Option<int>) -> bool,
)
    requires
        apart(whole),
        apart(t),
        joins(whole) <= usize::MAX,
        first + joins(t) <= joins(whole),
        side_at(whole, t, first as int),
        forall|i: int|
            0 <= i < placed.len() && (#[trigger] placed[i]).0 is Join ==> placed[i].1 != always(),
        forall|s: Set<usize>, a: spec_fn(usize) -> Option<int>| #[trigger]
            f(s, a) == placed_condition(w, whole, placed, s, a),
    ensures
        forall|a: spec_fn(usize) -> Option<int>| #[trigger]
            w.gives(attached(t, placed, first), a) == given(w, t, f, a),
    decreases t,
{
    match t {
        TreeView::Leaf(_) => {},
        TreeView::Join { kind, left, right, .. } => {
            let n = joins(*left) as int;
            let m = joins(*right) as int;
            let middle = ahead(first, joins(*left));
            let own = ahead(middle, joins(*right));
            lemma_join_slots(whole);
            lemma_join_slots(t);
            lemma_join_slots(*left);
            lemma_join_slots(*right);
            lemma_side_at(t);
            assert(side_at(whole, *left, first as int)) by {
                assert forall|i: int| 0 <= i < n implies (#[trigger] join_slots(*left)[i])
                    == join_slots(whole)[first + i] && join_layouts(*left)[i] == join_layouts(
                    whole,
                )[first + i] by {
                    assert(join_slots(*left)[i] == join_slots(t)[0 + i]);
                }
            }
            assert(side_at(whole, *right, middle as int)) by {
                assert forall|i: int| 0 <= i < m implies (#[trigger] join_slots(*right)[i])
                    == join_slots(whole)[middle + i] && join_layouts(*right)[i] == join_layouts(
                    whole,
                )[middle + i] by {
                    assert(join_slots(*right)[i] == join_slots(t)[n + i]);
                }
            }
            lemma_attached(w, whole, placed, *left, first, f);
            lemma_attached(w, whole, placed, *right, middle, f);
            let s = slot_set(t);
            let layout = leaf_order(t);
            assert(join_slots(t)[n + m] == s);
            assert(join_layouts(t)[n + m] == layout);
            assert(join_slots(whole)[own as int] == s);
            assert(join_layouts(whole)[own as int] == layout);
            let l = attached(*left, placed, first);
            let r = attached(*right, placed, middle);
            lemma_attached_order(*left, placed, first);
            lemma_attached_order(*right, placed, middle);
            let list = terms_at(placed, own, placed.len() as int);
            let c = conditioned(kind, list);
            let u = attached(t, placed, first);
            lemma_attached_order(t, placed, first);
            assert(u == (TreeView::Join {
                kind: c.0,
                left: Box::new(l),
                right: Box::new(r),
                on: c.1,
            }));
            assert forall|b: spec_fn(usize) -> Option<int>|
                #![trigger f(s, b)]
                #![trigger w.joins_on(c.1, layout, b)]
                f(s, b) == w.joins_on(c.1, layout, b) by {
                lemma_node(w, whole, placed, kind, s, layout, own, b);
                assert(f(s, b) == placed_condition(w, whole, placed, s, b));
            }
            assert forall|a: spec_fn(usize) -> Option<int>| #[trigger]
                w.gives(u, a) == given(w, t, f, a) by {
                assert(w.gives(l, a) == given(w, *left, f, a));
                assert(w.gives(r, a) == given(w, *right, f, a));
                assert(f(s, a) == w.joins_on(c.1, layout, a));
                lemma_alone(w, r, *right, c.1, layout, f, slot_set(*left), s, a);
                lemma_alone(w, l, *left, c.1, layout, f, slot_set(*right), s, a);
                assert(slot_set(l) == slot_set(*left));
                assert(slot_set(r) == slot_set(*right));
                assert(c.0 == JoinKind::Cross ==> c.1 is None);
            }
        },
    }
}

/// The condition of one join with placed terms.
proof fn lemma_node(
    w: World,
    whole: TreeView,
    placed: Seq<(PredicatePlacement, ExprView)>,
    kind: JoinKind,
    s: Set<usize>,
    layout: Seq<usize>,
    own: usize,
    a: spec_fn(usize) -> Option<int>,
)
    requires
        apart(whole),
        own < joins(whole),
        join_slots(whole)[own as int] == s,
        join_layouts(whole)[own as int] == layout,
        forall|i: int|
            0 <= i < placed.len() && (#[trigger] placed[i]).0 is Join ==> placed[i].1 != always(),
    ensures
        placed_condition(w, whole, placed, s, a) == w.joins_on(
            conditioned(kind, terms_at(placed, own, placed.len() as int)).1,
            layout,
            a,
        ),
{
    let n = placed.len() as int;
    let list = terms_at(placed, own, n);
    lemma_terms_at(w, placed, own, n, layout, a);
    lemma_all_of(w, list, layout, a);
    lemma_join_slots(whole);
    assert(placed_condition(w, whole, placed, s, a) == all_at(w, placed, own, n, layout, a)) by {
        if all_at(w, placed, own, n, layout, a) {
            assert forall|i: int| 0 <= i < placed.len() implies ((
            #[trigger] placed[i]).0 matches PredicatePlacement::Join(k) ==> k < joins(whole)
                && join_slots(whole)[k as int] == s ==> w.yes(
                placed[i].1,
                join_layouts(whole)[k as int],
                a,
            )) by {
                match placed[i].0 {
                    PredicatePlacement::Join(k) => {
                        if k < joins(whole) && join_slots(whole)[k as int] == s {
                            assert(k == own);
                        }
                    },
                    _ => {},
                }
            }
        }
    }
    if list.len() > 0 {
        let e = all_of(list)->0;
        assert(e != always()) by {
            if list.len() == 1 {
                assert(e == list[0]);
                let k = choose|k: int|
                    0 <= k < n && (#[trigger] placed[k]).0 == PredicatePlacement::Join(own)
                        && placed[k].1 == list[0];
                assert(placed[k].1 != always());
            }
        }
    }
}

/// The layout that the columns of a predicate of a select block are bound to.
spec fn home(s: SelectView, x: AtomView) -> Seq<usize> {
    match x.origin {
        PredicateOrigin::On { join_index } => join_layouts(s.join_tree)[join_index as int],
        _ => logical_layout(s.slots.len()),
    }
}

/// Whether a predicate of a select block is `TRUE` where it was bound.
spec fn holds(w: World, s: SelectView, x: AtomView, a: spec_fn(usize) -> Option<int>) -> bool {
    w.yes(x.expr, home(s, x), a)
}

/// Whether the predicates pinned to the join of the given slots are `TRUE`.
spec fn pinned_hold(
    w: World,
    s: SelectView,
    slots: Set<usize>,
    a: spec_fn(usize) -> Option<int>,
) -> bool {
    forall|i: int|
        0 <= i < atoms_of(s).len() ==> ((
        #[trigger] atoms_of(s)[i]).mobility matches PredicateMobility::PinnedToJoin { join_id }
            ==> join_slots(s.join_tree)[join_id as int] == slots ==> holds(w, s, atoms_of(s)[i], a))
}

/// Whether the predicates that come from the join of the given slots and can move are `TRUE`.
spec fn movable_hold(
    w: World,
    s: SelectView,
    slots: Set<usize>,
    a: spec_fn(usize) -> Option<int>,
) -> bool {
    forall|i: int|
        0 <= i < atoms_of(s).len() ==> ((#[trigger] atoms_of(s)[i]).mobility
            == PredicateMobility::FreelyMovableWithinComponent ==> (
        atoms_of(s)[i].origin matches PredicateOrigin::On { join_index } ==> join_slots(
            s.join_tree,
        )[join_index as int] == slots ==> holds(w, s, atoms_of(s)[i], a)))
}

/// Whether the predicates that are not pinned and were placed at the join of the given slots are
/// `TRUE`.
spec fn moved_hold(
    w: World,
    s: SelectView,
    t: TreeView,
    placed: Seq<(PredicatePlacement, ExprView)>,
    slots: Set<usize>,
    a: spec_fn(usize) -> Option<int>,
) -> bool {
    forall|i: int|
        0 <= i < atoms_of(s).len() ==> (!((
        #[trigger] atoms_of(s)[i]).mobility is PinnedToJoin) ==> (
        placed[i].0 matches PredicatePlacement::Join(k) ==> k < joins(t) && join_slots(t)[k as int]
            == slots ==> holds(w, s, atoms_of(s)[i], a)))
}

/// Whether the predicates that are not pinned are `TRUE`.
spec fn loose_hold(w: World, s: SelectView, a: spec_fn(usize) -> Option<int>) -> bool {
    forall|i: int|
        0 <= i < atoms_of(s).len() ==> !((
        #[trigger] atoms_of(s)[i]).mobility is PinnedToJoin) ==> holds(w, s, atoms_of(s)[i], a)
}

/// The layout of the place at which a predicate is evaluated.
spec fn place_layout(s: SelectView, t: TreeView, p: PredicatePlacement) -> Seq<usize> {
    match p {
        PredicatePlacement::Join(k) => join_layouts(t)[k as int],
        _ => logical_layout(s.slots.len()),
    }
}

/// What is known of a predicate of a select block and of its placed term.
spec fn sound_placing(
    w: World,
    s: SelectView,
    t: TreeView,
    x: AtomView,
    y: (PredicatePlacement, ExprView),
) -> bool {
    &&& forall|a: spec_fn(usize) -> Option<int>| #[trigger]
        w.yes(y.1, place_layout(s, t, y.0), a) == holds(w, s, x, a)
    &&& x.mobility matches PredicateMobility::PinnedToJoin { join_id } ==> {
        &&& join_id < joins(s.join_tree)
        &&& y.0 matches PredicatePlacement::Join(k) && k < joins(t) && join_slots(t)[k as int]
            == join_slots(s.join_tree)[join_id as int]
    }
    &&& !(x.mobility is PinnedToJoin) ==> (y.0 matches PredicatePlacement::Join(k) ==> k < joins(t)
        && free_join(t, join_slots(t)[k as int]))
    &&& y.0 is Join ==> y.1 != always()
    &&& x.mobility == PredicateMobility::FreelyMovableWithinComponent ==> (
    x.origin matches PredicateOrigin::On { join_index } ==> join_index < joins(s.join_tree)
        && free_join(s.join_tree, join_slots(s.join_tree)[join_index as int]))
}

proof fn lemma_placed_terms(
    placements: Seq<(PredicateAtomId, PredicatePlacement)>,
    i: int,
    atoms: Seq<AtomView>,
    slots: Seq<SlotView>,
    layouts: Seq<Seq<usize>>,
    acc: Seq<(PredicatePlacement, ExprView)>,
)
    requires
        0 <= i <= placements.len(),
        acc.len() == i,
        placed_terms(placements, i, atoms, slots, layouts, acc) is Ok,
    ensures
        ({
            let r = placed_terms(placements, i, atoms, slots, layouts, acc)->Ok_0;
            &&& r.len() == placements.len()
            &&& forall|k: int| 0 <= k < i ==> r[k] == acc[k]
            &&& forall|k: int|
                i <= k < placements.len() ==> (#[trigger] r[k]).0 == placements[k].1 && placed_term(
                    placements[k].0,
                    placements[k].1,
                    atoms,
                    slots,
                    layouts,
                ) == Ok::<ExprView, ErrorView>(r[k].1)
        }),
    decreases placements.len() - i,
{
    if i < placements.len() {
        let x = placed_term(placements[i].0, placements[i].1, atoms, slots, layouts)->Ok_0;
        let more = acc.push((placements[i].1, x));
        lemma_placed_terms(placements, i + 1, atoms, slots, layouts, more);
        let r = placed_terms(placements, i, atoms, slots, layouts, acc)->Ok_0;
        assert(r[i] == more[i]);
        assert forall|k: int| 0 <= k < i implies r[k] == acc[k] by {
            assert(r[k] == more[k]);
        }
    }
}

proof fn lemma_atom_with(atoms: Seq<AtomView>, k: int, i: int)
    requires
        ids_of(atoms).no_duplicates(),
        0 <= i <= k < atoms.len(),
    ensures
        atom_with(atoms, atoms[k].id, i) == Some(atoms[k]),
    decreases k - i,
{
    if i < k {
        let ids = ids_of(atoms);
        assert(ids[i] != ids[k]);
        lemma_atom_with(atoms, k, i + 1);
    }
}

proof fn lemma_placement_for(atoms: Seq<AtomView>, original: TreeView, t: TreeView, k: int, i: int)
    requires
        ids_of(atoms).no_duplicates(),
        0 <= i <= k < atoms.len(),
    ensures
        placement_for(placements_of(atoms, original, t), atoms[k].id, i) == Some(
            placement_of(atoms[k], original, t),
        ),
    decreases k - i,
{
    if i < k {
        let ids = ids_of(atoms);
        assert(ids[i] != ids[k]);
        lemma_placement_for(atoms, original, t, k, i + 1);
    }
}

proof fn lemma_always(e: ExprView, slots: Seq<SlotView>, layout: Seq<usize>)
    requires
        remapped(e, slots, layout) == Ok::<ExprView, ErrorView>(always()),
    ensures
        e == always(),
        used_slots(e).len() == 0,
{
    assert(nodes(always()) =~= seq![always()]);
    assert(used_slots(always()) =~= Set::empty());
}

/// Every predicate is placed soundly.
proof fn lemma_sound_placing(
    w: World,
    s: SelectView,
    stats: StatsLookup,
    placed: Seq<(PredicatePlacement, ExprView)>,
    i: int,
)
    requires
        well_bound(s),
        w.slots == s.slots,
        w.fits(),
        ({
            let atoms = atoms_of(s);
            let r = reordering_of(Planning { select: s, stats, atoms });
            &&& conservation_check(s.join_tree, atoms, r) is Ok
            &&& placed_terms(
                r.placements,
                0,
                atoms,
                s.slots,
                join_layouts(r.tree),
                Seq::empty(),
            ) == Ok::<Seq<(PredicatePlacement, ExprView)>, ErrorView>(placed)
        }),
        0 <= i < atoms_of(s).len(),
    ensures
        placed.len() == atoms_of(s).len(),
        sound_placing(
            w,
            s,
            reordered(s.join_tree, Planning { select: s, stats, atoms: atoms_of(s) }),
            atoms_of(s)[i],
            placed[i],
        ),
{
    let atoms = atoms_of(s);
    let p = Planning { select: s, stats, atoms };
    let r = reordering_of(p);
    let original = s.join_tree;
    let t = r.tree;
    let x = atoms[i];
    let y = placed[i];
    let logical = logical_layout(s.slots.len());
    lemma_apart(original);
    lemma_reordered_slots(original, p);
    reordering_keeps_outer_joins(original, p);
    reordering_keeps_slots(original, p);
    lemma_join_slots(original);
    lemma_join_slots(t);
    leaf_order(original).to_multiset_ensures();
    leaf_order(t).to_multiset_ensures();
    assert(joins(t) == joins(original));
    lemma_placed_terms(r.placements, 0, atoms, s.slots, join_layouts(t), Seq::empty());
    lemma_atom_with(atoms, i, 0);
    lemma_placement_for(atoms, original, t, i, 0);
    lemma_atoms_check(atoms, 0, original, r);
    assert(atom_check(x, original, r) is Ok);
    assert(r.placements[i] == (x.id, placement_of(x, original, t)));
    assert(y.0 == placement_of(x, original, t));
    let layout = place_layout(s, t, y.0);
    assert(remapped(x.expr, s.slots, layout) == Ok::<ExprView, ErrorView>(y.1));
    assert(origin_check(x, y.0, original, t) is Ok);
    assert(mobility_check(x, y.0, original, t) is Ok);
    let before = where_atoms(original, s.filter);
    if i < before.len() {
        let f = s.filter->0;
        assert(x == before[i]);
        assert(x.expr == terms(f)[i]);
        terms_lie_where_the_whole_does(f, s.slots, logical);
        if x.mobility == PredicateMobility::FreelyMovableWithinComponent {
            match y.0 {
                PredicatePlacement::Join(k) => {
                    smallest_holders_are_free(original, t, x.slots, k);
                },
                _ => {},
            }
        } else {
            assert(y.0 == PredicatePlacement::PostJoin);
        }
    } else {
        let later = join_atoms(original, false, 0, before.len() as int);
        lemma_join_atoms(w, original, false, 0, before.len() as int);
        assert(x == later[i - before.len()]);
        assert(sound_atom(w.slots, original, false, 0, x));
        let from = join_slots(original)[x.origin->join_index as int];
        if x.mobility == PredicateMobility::FreelyMovableWithinComponent {
            match y.0 {
                PredicatePlacement::Join(k) => {
                    joins_beside_free_joins_are_free(original, t, from, k);
                },
                _ => {},
            }
        }
    }
    assert(remapped(x.expr, s.slots, home(s, x)) == Ok::<ExprView, ErrorView>(x.expr));
    if !holds_correlation(x.expr) {
        assert forall|i: int| 0 <= i < nodes(x.expr).len() implies !runs_on_row(
            #[trigger] nodes(x.expr)[i],
        ) by {
            assert(!depends_on_outer(nodes(x.expr)[i]));
        }
    }
    assert forall|a: spec_fn(usize) -> Option<int>| #[trigger]
        w.yes(y.1, layout, a) == holds(w, s, x, a) by {
        if !asks_for_row(x.expr) {
            moved_predicates_keep_their_values(w, x.expr, home(s, x), layout, a);
        } else {
            assert(layout == home(s, x));
        }
    }
    if y.0 is Join && y.1 == always() {
        lemma_always(x.expr, s.slots, layout);
        assert(i < before.len());
        assert(movable_placement(t, x.slots) == PredicatePlacement::PostJoin);
    }
}

/// The rows of a select block, told apart into what pinned and what other predicates let through.
proof fn lemma_rows_before(w: World, s: SelectView, a: spec_fn(usize) -> Option<int>)
    requires
        well_bound(s),
        w.slots == s.slots,
        w.fits(),
    ensures
        w.selects(s, a) == (given(
            w,
            s.join_tree,
            |x: Set<usize>, b: spec_fn(usize) -> Option<int>| pinned_hold(w, s, x, b),
            a,
        ) && loose_hold(w, s, a)),
{
    let t = s.join_tree;
    let atoms = atoms_of(s);
    let pinned = |x: Set<usize>, b: spec_fn(usize) -> Option<int>| pinned_hold(w, s, x, b);
    let more = |x: Set<usize>, b: spec_fn(usize) -> Option<int>| movable_hold(w, s, x, b);
    let on = |x: Set<usize>, b: spec_fn(usize) -> Option<int>|
        pinned_hold(w, s, x, b) && movable_hold(w, s, x, b);
    let before = where_atoms(t, s.filter);
    let later = join_atoms(t, false, 0, before.len() as int);
    let logical = logical_layout(s.slots.len());
    assert(atoms == before + later);
    lemma_apart(t);
    lemma_join_slots(t);
    lemma_join_atoms(w, t, false, 0, before.len() as int);
    assert forall|k: int| before.len() <= k < atoms.len() implies sound_atom(
        w.slots,
        t,
        false,
        0,
        #[trigger] atoms[k],
    ) by {
        assert(atoms[k] == later[k - before.len()]);
    }
    assert forall|x: Set<usize>, b: spec_fn(usize) -> Option<int>|
        has_join(t, x) implies #[trigger] on(x, b) == condition(w, t, x, b) by {
        assert(condition(w, t, x, b) == tested(w, t, 0, later, x, b));
        if tested(w, t, 0, later, x, b) {
            assert forall|i: int| 0 <= i < atoms.len() implies ((
            #[trigger] atoms[i]).mobility matches PredicateMobility::PinnedToJoin { join_id }
                ==> join_slots(t)[join_id as int] == x ==> holds(w, s, atoms[i], b)) by {
                if i >= before.len() {
                    assert(atoms[i] == later[i - before.len()]);
                }
            }
            assert forall|i: int| 0 <= i < atoms.len() implies ((#[trigger] atoms[i]).mobility
                == PredicateMobility::FreelyMovableWithinComponent ==> (
            atoms[i].origin matches PredicateOrigin::On { join_index } ==> join_slots(
                t,
            )[join_index as int] == x ==> holds(w, s, atoms[i], b))) by {
                if i >= before.len() {
                    assert(atoms[i] == later[i - before.len()]);
                }
            }
        }
        if on(x, b) {
            assert forall|k: int| 0 <= k < later.len() implies ((
            #[trigger] later[k]).origin matches PredicateOrigin::On { join_index: j } ==> join_slots(
                t,
            )[j - 0] == x ==> w.yes(later[k].expr, join_layouts(t)[j - 0], b)) by {
                let y = atoms[before.len() + k];
                assert(y == later[k]);
                assert(sound_atom(w.slots, t, false, 0, y));
                let j = y.origin->join_index;
                if join_slots(t)[j - 0] == x {
                    assert(holds(w, s, y, b));
                }
            }
        }
    }
    lemma_gives(w, t, on);
    assert forall|x: Set<usize>, b: spec_fn(usize) -> Option<int>|
        has_join(t, x) && !free_join(t, x) implies #[trigger] more(x, b) by {
        assert forall|i: int| 0 <= i < atoms.len() implies ((#[trigger] atoms[i]).mobility
            == PredicateMobility::FreelyMovableWithinComponent ==> (
        atoms[i].origin matches PredicateOrigin::On { join_index } ==> join_slots(
            t,
        )[join_index as int] == x ==> holds(w, s, atoms[i], b))) by {
            if i < before.len() {
                assert(atoms[i] == before[i]);
            } else {
                assert(sound_atom(w.slots, t, false, 0, atoms[i]));
            }
        }
    }
    assert forall|x: Set<usize>, b: spec_fn(usize) -> Option<int>| #[trigger]
        on(x, b) == (pinned(x, b) && more(x, b)) by {}
    conditions_of_free_joins_rise(w, t, pinned, more, on);
    assert(w.gives(t, a) == given(w, t, on, a));
    assert(given(w, t, on, a) == (given(w, t, pinned, a) && all_free(t, more, a)));
    match s.filter {
        Some(f) => {
            conjunction_holds_where_its_terms_do(f, w.at(logical, a));
        },
        None => {},
    }
    let filtered = s.filter matches Some(f) ==> w.yes(f, logical, a);
    if all_free(t, more, a) && filtered {
        assert forall|i: int| 0 <= i < atoms.len() implies !((
        #[trigger] atoms[i]).mobility is PinnedToJoin) ==> holds(w, s, atoms[i], a) by {
            if i < before.len() {
                assert(atoms[i] == before[i]);
                assert(atoms[i].expr == terms(s.filter->0)[i]);
            } else {
                assert(sound_atom(w.slots, t, false, 0, atoms[i]));
                let j = atoms[i].origin->join_index;
                if !(atoms[i].mobility is PinnedToJoin) {
                    let x = join_slots(t)[j as int];
                    assert(free_join(t, x));
                    assert(more(x, a));
                }
            }
        }
    }
    if loose_hold(w, s, a) {
        assert forall|x: Set<usize>| #[trigger] free_join(t, x) implies more(x, a) by {
            assert forall|i: int| 0 <= i < atoms.len() implies ((#[trigger] atoms[i]).mobility
                == PredicateMobility::FreelyMovableWithinComponent ==> (
            atoms[i].origin matches PredicateOrigin::On { join_index } ==> join_slots(
                t,
            )[join_index as int] == x ==> holds(w, s, atoms[i], a))) by {
                if atoms[i].mobility == PredicateMobility::FreelyMovableWithinComponent {
                    assert(holds(w, s, atoms[i], a));
                }
            }
        }
        match s.filter {
            Some(f) => {
                assert forall|i: int| 0 <= i < terms(f).len() implies crate::eval::eval_of(
                    #[trigger] terms(f)[i],
                    w.at(logical, a),
                ) == Ok::<ValueView, ErrorView>(ValueView::Bool(true)) by {
                    assert(atoms[i] == before[i]);
                    assert(before[i].expr == terms(f)[i]);
                    assert(holds(w, s, atoms[i], a));
                }
            },
            None => {},
        }
    }
}

/// The rows of an optimized select block, told apart in the same way.
proof fn lemma_rows_after(
    w: World,
    s: SelectView,
    t: TreeView,
    placed: Seq<(PredicatePlacement, ExprView)>,
    a: spec_fn(usize) -> Option<int>,
)
    requires
        apart(t),
        joins(t) <= usize::MAX,
        placed.len() == atoms_of(s).len(),
        forall|i: int|
            0 <= i < placed.len() ==> sound_placing(
                w,
                s,
                t,
                #[trigger] atoms_of(s)[i],
                placed[i],
            ),
    ensures
        w.selects(
            SelectView {
                join_tree: attached(t, placed, 0),
                filter: all_of(residual_terms(placed, placed.len() as int)),
                ..s
            },
            a,
        ) == (given(
            w,
            t,
            |x: Set<usize>, b: spec_fn(usize) -> Option<int>| pinned_hold(w, s, x, b),
            a,
        ) && loose_hold(w, s, a)),
{
    let atoms = atoms_of(s);
    let n = placed.len() as int;
    let logical = logical_layout(s.slots.len());
    let pinned = |x: Set<usize>, b: spec_fn(usize) -> Option<int>| pinned_hold(w, s, x, b);
    let more = |x: Set<usize>, b: spec_fn(usize) -> Option<int>|
        moved_hold(w, s, t, placed, x, b);
    let on = |x: Set<usize>, b: spec_fn(usize) -> Option<int>|
        placed_condition(w, t, placed, x, b);
    lemma_join_slots(t);
    assert forall|i: int| 0 <= i < placed.len() && (#[trigger] placed[i]).0 is Join implies placed[i].1
        != always() by {
        assert(sound_placing(w, s, t, atoms[i], placed[i]));
    }
    assert(side_at(t, t, 0));
    lemma_attached(w, t, placed, t, 0, on);
    assert forall|x: Set<usize>, b: spec_fn(usize) -> Option<int>| #[trigger]
        on(x, b) == (pinned(x, b) && more(x, b)) by {
        if on(x, b) {
            assert forall|i: int| 0 <= i < atoms.len() implies ((
            #[trigger] atoms[i]).mobility matches PredicateMobility::PinnedToJoin { join_id }
                ==> join_slots(s.join_tree)[join_id as int] == x ==> holds(w, s, atoms[i], b)) by {
                assert(sound_placing(w, s, t, atoms[i], placed[i]));
                assert(w.yes(placed[i].1, place_layout(s, t, placed[i].0), b) == holds(
                    w,
                    s,
                    atoms[i],
                    b,
                ));
            }
            assert forall|i: int| 0 <= i < atoms.len() implies (!((
            #[trigger] atoms[i]).mobility is PinnedToJoin) ==> (
            placed[i].0 matches PredicatePlacement::Join(k) ==> k < joins(t) && join_slots(
                t,
            )[k as int] == x ==> holds(w, s, atoms[i], b))) by {
                assert(sound_placing(w, s, t, atoms[i], placed[i]));
                assert(w.yes(placed[i].1, place_layout(s, t, placed[i].0), b) == holds(
                    w,
                    s,
                    atoms[i],
                    b,
                ));
            }
        }
        if pinned(x, b) && more(x, b) {
            assert forall|i: int| 0 <= i < placed.len() implies ((
            #[trigger] placed[i]).0 matches PredicatePlacement::Join(k) ==> k < joins(t)
                && join_slots(t)[k as int] == x ==> w.yes(
                placed[i].1,
                join_layouts(t)[k as int],
                b,
            )) by {
                assert(sound_placing(w, s, t, atoms[i], placed[i]));
                assert(w.yes(placed[i].1, place_layout(s, t, placed[i].0), b) == holds(
                    w,
                    s,
                    atoms[i],
                    b,
                ));
            }
        }
    }
    assert forall|x: Set<usize>, b: spec_fn(usize) -> Option<int>|
        has_join(t, x) && !free_join(t, x) implies #[trigger] more(x, b) by {
        assert forall|i: int| 0 <= i < atoms.len() implies (!((
        #[trigger] atoms[i]).mobility is PinnedToJoin) ==> (
        placed[i].0 matches PredicatePlacement::Join(k) ==> k < joins(t) && join_slots(t)[k as int]
            == x ==> holds(w, s, atoms[i], b))) by {
            assert(sound_placing(w, s, t, atoms[i], placed[i]));
        }
    }
    conditions_of_free_joins_rise(w, t, pinned, more, on);
    assert(w.gives(attached(t, placed, 0), a) == given(w, t, on, a));
    assert(given(w, t, on, a) == (given(w, t, pinned, a) && all_free(t, more, a)));
    let rest = residual_terms(placed, n);
    lemma_residual(w, placed, n, logical, a);
    lemma_all_of(w, rest, logical, a);
    if all_free(t, more, a) && all_yes(w, rest, logical, a) {
        assert forall|i: int| 0 <= i < atoms.len() implies !((
        #[trigger] atoms[i]).mobility is PinnedToJoin) ==> holds(w, s, atoms[i], a) by {
            assert(sound_placing(w, s, t, atoms[i], placed[i]));
            if !(atoms[i].mobility is PinnedToJoin) {
                match placed[i].0 {
                    PredicatePlacement::Join(k) => {
                        let x = join_slots(t)[k as int];
                        assert(free_join(t, x));
                        assert(more(x, a));
                    },
                    _ => {
                        assert(w.yes(placed[i].1, logical, a));
                        assert(place_layout(s, t, placed[i].0) == logical);
                    },
                }
            }
        }
    }
    if loose_hold(w, s, a) {
        assert forall|x: Set<usize>| #[trigger] free_join(t, x) implies more(x, a) by {
            assert forall|i: int| 0 <= i < atoms.len() implies (!((
            #[trigger] atoms[i]).mobility is PinnedToJoin) ==> (
            placed[i].0 matches PredicatePlacement::Join(k) ==> k < joins(t) && join_slots(
                t,
            )[k as int] == x ==> holds(w, s, atoms[i], a))) by {}
        }
        assert forall|i: int| 0 <= i < n && !((#[trigger] placed[i]).0 is Join) implies w.yes(
            placed[i].1,
            logical,
            a,
        ) by {
            assert(sound_placing(w, s, t, atoms[i], placed[i]));
            assert(place_layout(s, t, placed[i].0) == logical);
            assert(w.yes(placed[i].1, place_layout(s, t, placed[i].0), a) == holds(
                w,
                s,
                atoms[i],
                a,
            ));
        }
    }
}

/// Optimization does not change the rows of a select block: whatever the tables hold, the optimized
/// block lets a choice of their rows through exactly where the bound one does. A predicate that
/// fails to evaluate lets nothing through.
pub proof fn optimization_keeps_the_rows(
    s: SelectView,
    stats: StatsLookup,
    w: World,
    a: spec_fn(usize) -> Option<int>,
)
    requires
        well_bound(s),
        w.slots == s.slots,
        w.fits(),
    ensures
        optimized_select(s, stats).select matches Some(x) && w.selects(x, a) == w.selects(s, a),
{
    let atoms = atoms_of(s);
    let p = Planning { select: s, stats, atoms };
    let r = reordering_of(p);
    let t = r.tree;
    match conservation_check(s.join_tree, atoms, r) {
        Err(_) => {},
        Ok(_) => match placed_terms(
            r.placements,
            0,
            atoms,
            s.slots,
            join_layouts(t),
            Seq::empty(),
        ) {
            Err(_) => {},
            Ok(placed) => {
                lemma_apart(s.join_tree);
                lemma_reordered_slots(s.join_tree, p);
                reordering_keeps_slots(s.join_tree, p);
                lemma_join_slots(s.join_tree);
                lemma_join_slots(t);
                leaf_order(s.join_tree).to_multiset_ensures();
                leaf_order(t).to_multiset_ensures();
                lemma_placed_terms(r.placements, 0, atoms, s.slots, join_layouts(t), Seq::empty());
                assert forall|i: int| 0 <= i < placed.len() implies sound_placing(
                    w,
                    s,
                    t,
                    #[trigger] atoms_of(s)[i],
                    placed[i],
                ) by {
                    lemma_sound_placing(w, s, stats, placed, i);
                }
                let pinned = |x: Set<usize>, b: spec_fn(usize) -> Option<int>|
                    pinned_hold(w, s, x, b);
                lemma_rows_before(w, s, a);
                lemma_rows_after(w, s, t, placed, a);
                assert(keyed(s.join_tree, t, pinned)) by {
                    assert forall|x: Set<usize>, b: spec_fn(usize) -> Option<int>|
                        has_join(s.join_tree, x) != has_join(t, x) implies #[trigger] pinned(
                        x,
                        b,
                    ) by {
                        assert forall|i: int| 0 <= i < atoms.len() implies ((
                        #[trigger] atoms[i]).mobility matches PredicateMobility::PinnedToJoin {
                            join_id,
                        } ==> join_slots(s.join_tree)[join_id as int] == x ==> holds(
                            w,
                            s,
                            atoms[i],
                            b,
                        )) by {
                            assert(sound_placing(w, s, t, atoms[i], placed[i]));
                            match atoms[i].mobility {
                                PredicateMobility::PinnedToJoin { join_id } => {
                                    assert(has_join(
                                        s.join_tree,
                                        join_slots(s.join_tree)[join_id as int],
                                    ));
                                    let k = placed[i].0->Join_0;
                                    assert(has_join(t, join_slots(t)[k as int]));
                                },
                                _ => {},
                            }
                        }
                    }
                }
                reordering_keeps_rows(w, s.join_tree, p, pinned);
                assert(given(w, s.join_tree, pinned, a) == given(w, t, pinned, a));
            },
        },
    }
}

} // verus!
