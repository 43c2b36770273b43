//! Laws of estimates: how many rows a plan expects of its joins.

use crate::atoms::{atoms_of, slot_set, AtomView, PredicateMobility};
use crate::cardinality::{join_share, join_share_of, term_factor, evaluated_at, Planning};
use crate::double::{Double, INFINITY_BITS};
use crate::expr::{BinOp, ExprView};
use crate::laws_plan::optimization_keeps_the_query;
use crate::laws_rounding::{
    count_bound, lemma_near_chain, lemma_near_scale, near, one_has_its_units,
    products_with_one_are_near, reciprocals_of_counts_are_near, shares_of_products_are_near,
    units_grow,
};
use crate::optimize::{estimate_of, estimates_of, optimized_select, NodeEstimate};
use crate::query::{JoinKind, SelectView, TreeView};
use crate::rounding::{
    count_double, double_product, double_reciprocal, lemma_nearest, one_in_units, scale_is, units,
};
use crate::stats::{joined_rows, StatsLookup, ONE_BITS};
use vstd::arithmetic::div_mod::{lemma_fundamental_div_mod, lemma_mod_bound};
use vstd::arithmetic::power2::{lemma2_to64, lemma_pow2_pos};
use vstd::prelude::*;

verus! {

/// Whether a number of rows is that of `l` times `r` pairs of which one in `k` is kept: the whole
/// part of the quotient, at least one and at most what 64 bits hold, up to a few parts in two to the
/// power of 52.
pub open spec fn keeps_one_in(rows: u64, l: u64, r: u64, k: u64) -> bool {
    &&& rows >= 1
    &&& (rows == 1 || rows * k * 0x10_0000_0000_0000 <= (l * r) * (0x10_0000_0000_0000 + 40))
    &&& (rows == u64::MAX || (l * r) * (0x10_0000_0000_0000 - 40) < (rows + 1) * k
        * 0x10_0000_0000_0000)
}

/// The rows of a join whose share is near one over a count.
pub proof fn lemma_joined(l: u64, r: u64, k: u64, s: Double, j: int)
    requires
        k > 0,
        0 < s.bits < INFINITY_BITS,
        0 <= j <= 20,
        near((units(s) * k) as int, one_in_units() as int, j),
    ensures
        keeps_one_in(joined_rows(l, r, s, Double { bits: ONE_BITS }), l, r, k),
{
    let one = Double { bits: ONE_BITS };
    let c = 0x10_0000_0000_0000int;
    assert(s.absolute() == s && one.absolute() == one);
    let p = double_product(count_double(l as nat), count_double(r as nat));
    let u = one_in_units() as int;
    lemma_pow2_pos(1074);
    if l == 0 || r == 0 {
        lemma_zero();
        assert(p.bits == 0);
        assert(l * r == 0) by (nonlinear_arith)
            requires
                l == 0 || r == 0,
        ;
        assert(joined_rows(l, r, s, one) == 1) by {
            assert(units(Double { bits: 0 }) == 0) by (nonlinear_arith);
            vstd::arithmetic::div_mod::lemma_div_basics_1(u);
        }
        assert((1 + 1) * k * c > 0) by (nonlinear_arith)
            requires
                k > 0,
                c > 0,
        ;
    } else {
        shares_of_products_are_near(l as nat, r as nat, k as nat, s, j);
        let d = double_product(p, s);
        let n = (l * r * u) as int;
        let v = units(d) as int;
        lemma_moderate(v, n, k as int, l as int, r as int, j + 8);
        products_with_one_are_near(d, one);
        let e = double_product(d, one);
        let x = units(e) as int;
        lemma_near_scale(x, v, 1, k as int);
        assert(n >= 0) by (nonlinear_arith)
            requires
                n == l * r * u,
                l >= 0,
                r >= 0,
                u > 0,
        ;
        lemma_near_chain(x * k, v * k, n, 1, j + 8);
        lemma_whole(x, l as int, r as int, k as int, j + 10);
    }
}

proof fn lemma_zero()
    ensures
        count_double(0).bits == 0,
{
    lemma2_to64();
    assert(0 * one_in_units() == 0);
    vstd::arithmetic::power2::lemma_pow2_pos(53);
    assert(scale_is(0, 1, 0));
    lemma_nearest(0, 1, 0);
}

proof fn lemma_moderate(v: int, n: int, k: int, l: int, r: int, j: int)
    requires
        near(v * k, n, j),
        0 <= j <= 100,
        n == l * r * one_in_units(),
        0 < l < count_bound(),
        0 < r < count_bound(),
        0 < k < count_bound(),
        v >= 0,
    ensures
        0x10_0000_0000_0000 <= v,
        v <= 8 * count_bound() * count_bound() * one_in_units(),
{
    crate::laws_rounding::lemma_unit();
    let one = one_in_units() as int;
    let w = count_bound();
    let c = 0x10_0000_0000_0000int;
    assert(one <= n <= w * w * one) by (nonlinear_arith)
        requires
            n == l * r * one,
            1 <= l < w,
            1 <= r < w,
            one > 0,
    ;
    assert(n <= 2 * (v * k) && v * k <= 2 * n) by (nonlinear_arith)
        requires
            n * (c - j) <= (v * k) * c,
            (v * k) * c <= n * (c + j),
            0 <= j <= 100,
            n >= 0,
            c == 0x10_0000_0000_0000,
    ;
    assert(c <= v) by (nonlinear_arith)
        requires
            one <= 2 * (v * k),
            one >= 8 * w * c,
            0 < k < w,
            v >= 0,
            c == 0x10_0000_0000_0000,
    ;
    assert(v <= 8 * w * w * one) by (nonlinear_arith)
        requires
            v * k <= 2 * (w * w * one),
            k >= 1,
            v >= 0,
            w * w * one >= 0,
    ;
}

proof fn lemma_whole(x: int, l: int, r: int, k: int, j: int)
    requires
        near(x * k, l * r * one_in_units(), j),
        0 <= j <= 40,
        0 < l <= u64::MAX,
        0 < r <= u64::MAX,
        0 < k <= u64::MAX,
        x >= 0,
    ensures
        ({
            let n = x / one_in_units() as int;
            let rows = if n > u64::MAX {
                u64::MAX
            } else if n == 0 {
                1
            } else {
                n as u64
            };
            keeps_one_in(rows, l as u64, r as u64, k as u64)
        }),
{
    lemma_pow2_pos(1074);
    let one = one_in_units() as int;
    let c = 0x10_0000_0000_0000int;
    let n = x / one;
    lemma_fundamental_div_mod(x, one);
    lemma_mod_bound(x, one);
    let p = l * r;
    assert(p > 0) by (nonlinear_arith)
        requires
            p == l * r,
            l > 0,
            r > 0,
    ;
    assert(n >= 0) by (nonlinear_arith)
        requires
            x == one * n + x % one,
            x >= 0,
            0 <= x % one < one,
            one > 0,
    ;
    let nk = n * k;
    let n1k = (n + 1) * k;
    assert(nk * one <= x * k) by (nonlinear_arith)
        requires
            nk == n * k,
            one * n <= x,
            k > 0,
    ;
    assert(one * (n + 1) == one * n + one) by (nonlinear_arith);
    assert(x * k < n1k * one) by (nonlinear_arith)
        requires
            n1k == (n + 1) * k,
            x < one * (n + 1),
            k > 0,
    ;
    let xk = x * k;
    assert(nk * c <= p * (c + 40)) by (nonlinear_arith)
        requires
            nk * one <= xk,
            xk * c <= (p * one) * (c + j),
            0 <= j <= 40,
            p > 0,
            one > 0,
            c > 0,
    ;
    assert(p * (c - 40) < n1k * c) by (nonlinear_arith)
        requires
            xk < n1k * one,
            (p * one) * (c - j) <= xk * c,
            0 <= j <= 40,
            p > 0,
            one > 0,
            c > 0,
    ;
    if n > u64::MAX {
        assert(u64::MAX * k * c <= nk * c) by (nonlinear_arith)
            requires
                nk == n * k,
                n > u64::MAX,
                k > 0,
                c > 0,
        ;
    }
    if n == 0 {
        assert((1 + 1) * k * c >= n1k * c) by (nonlinear_arith)
            requires
                n1k == (n + 1) * k,
                n == 0,
                k > 0,
                c > 0,
        ;
    }
}

/// The distinct values of a column of a table, where statistics know them.
pub open spec fn distinct_values(e: ExprView, s: SelectView, stats: StatsLookup) -> Option<u64> {
    match e {
        ExprView::ColumnRef { slot, column, .. } => if slot < s.slots.len() {
            match s.slots[slot as int] {
                crate::query::SlotView::Base { table, .. } => match stats.of_table(table) {
                    Some(t) => if column < t.columns@.len() && t.columns@[column as int].distinct_count
                        != Some(0u64) {
                        t.columns@[column as int].distinct_count
                    } else {
                        None
                    },
                    None => None,
                },
                _ => None,
            }
        } else {
            None
        },
        _ => None,
    }
}

/// The rows of a slot, where statistics know them.
pub open spec fn known_rows(slot: usize, s: SelectView, stats: StatsLookup) -> Option<u64> {
    if slot < s.slots.len() {
        match s.slots[slot as int] {
            crate::query::SlotView::Base { table, .. } => match stats.of_table(table) {
                Some(t) => Some(t.row_count),
                None => None,
            },
            _ => None,
        }
    } else {
        None
    }
}

/// Whether a predicate takes part in a join of two inputs: it compares slots of both, or was written
/// for the join of just these slots and may not leave it.
pub open spec fn takes_part(a: AtomView, left: Set<usize>, right: Set<usize>, tree: TreeView) -> bool {
    match a.mobility {
        PredicateMobility::FreelyMovableWithinComponent => (exists|x: usize| #[trigger]
            a.slots.contains(x) && left.contains(x)) && (exists|y: usize| #[trigger]
            a.slots.contains(y) && right.contains(y)),
        PredicateMobility::PinnedToJoin { join_id } => join_id < crate::atoms::join_slots(tree).len()
            && crate::atoms::join_slots(tree)[join_id as int] == left.union(right),
        PredicateMobility::PostJoinOnly => false,
    }
}

/// The greater of two counts.
pub open spec fn greater(m: u64, n: u64) -> u64 {
    if m >= n {
        m
    } else {
        n
    }
}

/// Whether a join of `l` and `r` rows expects the right number of rows: all pairs where no predicate
/// takes part in it, and where one does, an equality of two columns with known numbers of distinct
/// values, one pair in as many as the greater number says.
pub open spec fn expects(
    rows: u64,
    l: u64,
    r: u64,
    left: Set<usize>,
    right: Set<usize>,
    s: SelectView,
    stats: StatsLookup,
    atoms: Seq<AtomView>,
) -> bool {
    &&& (forall|i: int|
        0 <= i < atoms.len() ==> !takes_part(#[trigger] atoms[i], left, right, s.join_tree))
        ==> keeps_one_in(rows, l, r, 1)
    &&& forall|i: int, a: ExprView, b: ExprView|
        {
            &&& 0 <= i < atoms.len()
            &&& #[trigger] atoms[i].expr == #[trigger] equality(a, b)
            &&& takes_part(atoms[i], left, right, s.join_tree)
            &&& forall|k: int|
                0 <= k < atoms.len() && k != i ==> !takes_part(
                    #[trigger] atoms[k],
                    left,
                    right,
                    s.join_tree,
                )
            &&& distinct_values(a, s, stats) is Some
            &&& distinct_values(b, s, stats) is Some
        } ==> keeps_one_in(
            rows,
            l,
            r,
            greater(distinct_values(a, s, stats)->0, distinct_values(b, s, stats)->0),
        )
}

/// An equality.
pub open spec fn equality(a: ExprView, b: ExprView) -> ExprView {
    ExprView::BinaryOp { op: BinOp::Eq, left: Box::new(a), right: Box::new(b) }
}

/// How many leaves and joins a tree has.
pub open spec fn node_count(t: TreeView) -> nat
    decreases t,
{
    match t {
        TreeView::Leaf(_) => 1,
        TreeView::Join { left, right, .. } => node_count(*left) + node_count(*right) + 1,
    }
}

/// Whether estimates are those of the leaves and joins of a tree, in post-order: a leaf has the rows
/// that statistics know of its table, or a thousand where they do not, and a join expects the right
/// number of rows.
pub open spec fn estimates_fit(
    t: TreeView,
    list: Seq<NodeEstimate>,
    s: SelectView,
    stats: StatsLookup,
    atoms: Seq<AtomView>,
) -> bool
    decreases t,
{
    &&& list.len() == node_count(t)
    &&& match t {
        TreeView::Leaf(slot) => list[0].row_count == (match known_rows(slot, s, stats) {
            Some(n) => n,
            None => 1000,
        }),
        TreeView::Join { left, right, .. } => {
            let m = node_count(*left) as int;
            let n = list.len() - 1;
            &&& estimates_fit(*left, list.subrange(0, m), s, stats, atoms)
            &&& estimates_fit(*right, list.subrange(m, n), s, stats, atoms)
            &&& expects(
                list[n].row_count,
                list[m - 1].row_count,
                list[n - 1].row_count,
                slot_set(*left),
                slot_set(*right),
                s,
                stats,
                atoms,
            )
        },
    }
}

proof fn lemma_part(a: AtomView, left: Set<usize>, right: Set<usize>, tree: TreeView)
    ensures
        evaluated_at(a, left, right, tree) == takes_part(a, left, right, tree),
{
}

proof fn lemma_no_part(p: Planning, left: Set<usize>, right: Set<usize>, n: int)
    requires
        0 <= n <= p.atoms.len(),
        forall|i: int|
            0 <= i < n ==> !takes_part(#[trigger] p.atoms[i], left, right, p.select.join_tree),
    ensures
        join_share_of(p, left, right, n) == (Double { bits: ONE_BITS }),
    decreases n,
{
    if n > 0 {
        lemma_part(p.atoms[n - 1], left, right, p.select.join_tree);
        assert(!takes_part(p.atoms[n - 1], left, right, p.select.join_tree));
        lemma_no_part(p, left, right, n - 1);
    }
}

proof fn lemma_one_part(p: Planning, left: Set<usize>, right: Set<usize>, i: int, n: int)
    requires
        0 <= i < n <= p.atoms.len(),
        takes_part(p.atoms[i], left, right, p.select.join_tree),
        forall|k: int|
            0 <= k < n && k != i ==> !takes_part(
                #[trigger] p.atoms[k],
                left,
                right,
                p.select.join_tree,
            ),
    ensures
        join_share_of(p, left, right, n) == double_product(
            Double { bits: ONE_BITS },
            term_factor(p.atoms[i].expr, p),
        ),
    decreases n,
{
    lemma_part(p.atoms[n - 1], left, right, p.select.join_tree);
    if i == n - 1 {
        lemma_no_part(p, left, right, n - 1);
    } else {
        assert(!takes_part(p.atoms[n - 1], left, right, p.select.join_tree));
        lemma_one_part(p, left, right, i, n - 1);
    }
}

/// The lesser of the reciprocals of two counts is near that of the greater count.
proof fn lemma_lesser_share(m: u64, n: u64, s: Double)
    requires
        m > 0,
        n > 0,
        ({
            let a = double_reciprocal(count_double(m as nat));
            let b = double_reciprocal(count_double(n as nat));
            s == (if a.bits <= b.bits {
                a
            } else {
                b
            })
        }),
    ensures
        0 < s.bits < INFINITY_BITS,
        near((units(s) * greater(m, n)) as int, one_in_units() as int, 10),
{
    let a = double_reciprocal(count_double(m as nat));
    let b = double_reciprocal(count_double(n as nat));
    reciprocals_of_counts_are_near(m as nat);
    reciprocals_of_counts_are_near(n as nat);
    if a.bits <= b.bits {
        units_grow(a, b);
        lemma_lesser(units(a) as int, units(b) as int, m as int, n as int);
    } else {
        units_grow(b, a);
        lemma_lesser(units(b) as int, units(a) as int, n as int, m as int);
    }
}

proof fn lemma_lesser(a: int, b: int, m: int, n: int)
    requires
        near(a * m, one_in_units() as int, 4),
        near(b * n, one_in_units() as int, 4),
        0 <= a <= b,
        m > 0,
        n > 0,
    ensures
        m >= n ==> near(a * m, one_in_units() as int, 10),
        m < n ==> near(a * n, one_in_units() as int, 10),
{
    let one = one_in_units() as int;
    let c = 0x10_0000_0000_0000int;
    let am = a * m;
    let bn = b * n;
    let an = a * n;
    assert(one * (c - 10) <= one * (c - 4) && one * (c + 4) <= one * (c + 10)) by (nonlinear_arith)
        requires
            one >= 0,
    ;
    if m < n {
        assert(am <= an <= bn) by (nonlinear_arith)
            requires
                am == a * m,
                an == a * n,
                bn == b * n,
                0 <= a <= b,
                0 < m < n,
        ;
    }
}

proof fn lemma_share_near(d: Double, k: u64, j: int)
    requires
        k > 0,
        0 < d.bits < INFINITY_BITS,
        0 <= j <= 15,
        near((units(d) * k) as int, one_in_units() as int, j),
    ensures
        ({
            let s = if d.bits > ONE_BITS {
                Double { bits: ONE_BITS }
            } else {
                d
            };
            0 < s.bits < INFINITY_BITS && near((units(s) * k) as int, one_in_units() as int, j)
        }),
{
    one_has_its_units();
    lemma_pow2_pos(1074);
    if d.bits > ONE_BITS {
        let one = one_in_units() as int;
        let c = 0x10_0000_0000_0000int;
        let u = units(d) as int;
        units_grow(Double { bits: ONE_BITS }, d);
        let uk = u * k;
        assert(k == 1) by (nonlinear_arith)
            requires
                uk == u * k,
                u >= one,
                uk * c <= one * (c + j),
                0 <= j <= 15,
                one > 0,
                k >= 1,
                c == 0x10_0000_0000_0000,
        ;
        assert(near(one * 1, one, j)) by (nonlinear_arith)
            requires
                one > 0,
                0 <= j <= 15,
        ;
    }
}

/// What a join is estimated at.
proof fn lemma_expects(p: Planning, l: u64, r: u64, left: Set<usize>, right: Set<usize>)
    ensures
        expects(
            joined_rows(l, r, join_share(p, left, right), Double { bits: ONE_BITS }),
            l,
            r,
            left,
            right,
            p.select,
            p.stats,
            p.atoms,
        ),
{
    let one = Double { bits: ONE_BITS };
    let atoms = p.atoms;
    let rows = joined_rows(l, r, join_share(p, left, right), one);
    let n = atoms.len() as int;
    one_has_its_units();
    crate::laws_rounding::lemma_unit();
    let u = one_in_units() as int;
    if forall|i: int|
        0 <= i < atoms.len() ==> !takes_part(#[trigger] atoms[i], left, right, p.select.join_tree) {
        lemma_no_part(p, left, right, n);
        assert(near(u * 1, u, 0));
        lemma_joined(l, r, 1, one, 0);
    }
    assert forall|i: int, a: ExprView, b: ExprView|
        {
            &&& 0 <= i < atoms.len()
            &&& #[trigger] atoms[i].expr == #[trigger] equality(a, b)
            &&& takes_part(atoms[i], left, right, p.select.join_tree)
            &&& forall|k: int|
                0 <= k < atoms.len() && k != i ==> !takes_part(
                    #[trigger] atoms[k],
                    left,
                    right,
                    p.select.join_tree,
                )
            &&& distinct_values(a, p.select, p.stats) is Some
            &&& distinct_values(b, p.select, p.stats) is Some
        } implies keeps_one_in(
        rows,
        l,
        r,
        greater(
            distinct_values(a, p.select, p.stats)->0,
            distinct_values(b, p.select, p.stats)->0,
        ),
    ) by {
        let x = distinct_values(a, p.select, p.stats)->0;
        let y = distinct_values(b, p.select, p.stats)->0;
        let k = greater(x, y);
        lemma_one_part(p, left, right, i, n);
        let s = term_factor(atoms[i].expr, p);
        lemma_lesser_share(x, y, s);
        let us = units(s) as int;
        lemma_share_size(us, k as int);
        products_with_one_are_near(s, one);
        let d = double_product(one, s);
        lemma_near_scale(units(d) as int, us, 1, k as int);
        lemma_near_chain((units(d) * k) as int, us * k, u, 1, 10);
        lemma_share_near(d, k, 12);
        lemma_joined(l, r, k, join_share(p, left, right), 12);
    }
}

proof fn lemma_share_size(us: int, k: int)
    requires
        near(us * k, one_in_units() as int, 10),
        0 < k <= u64::MAX,
        us >= 0,
    ensures
        0x10_0000_0000_0000 <= us,
        us <= 8 * count_bound() * count_bound() * one_in_units(),
{
    crate::laws_rounding::lemma_unit();
    let one = one_in_units() as int;
    let c = 0x10_0000_0000_0000int;
    let w = count_bound();
    let x = us * k;
    assert(one <= 2 * x && x <= 2 * one) by (nonlinear_arith)
        requires
            one * (c - 10) <= x * c,
            x * c <= one * (c + 10),
            one > 0,
            c == 0x10_0000_0000_0000,
    ;
    assert(c <= us) by (nonlinear_arith)
        requires
            one <= 2 * x,
            x == us * k,
            one >= 8 * w * c,
            0 < k < w,
            us >= 0,
            w == 0x1_0000_0000_0000_0000,
            c == 0x10_0000_0000_0000,
    ;
    assert(us <= 2 * one) by (nonlinear_arith)
        requires
            x == us * k,
            x <= 2 * one,
            k >= 1,
            us >= 0,
    ;
    assert(2 * one <= 8 * w * w * one) by (nonlinear_arith)
        requires
            w == 0x1_0000_0000_0000_0000,
            one > 0,
    ;
}

proof fn lemma_estimates(t: TreeView, p: Planning)
    ensures
        estimates_fit(t, estimates_of(t, p), p.select, p.stats, p.atoms),
        estimates_of(t, p).len() == node_count(t),
        estimates_of(t, p).last() == estimate_of(t, p),
        node_count(t) > 0,
    decreases t,
{
    match t {
        TreeView::Leaf(_) => {},
        TreeView::Join { left, right, .. } => {
            lemma_estimates(*left, p);
            lemma_estimates(*right, p);
            let a = estimates_of(*left, p);
            let b = estimates_of(*right, p);
            let list = estimates_of(t, p);
            let m = node_count(*left) as int;
            let n = list.len() - 1;
            assert(list.subrange(0, m) =~= a);
            assert(list.subrange(m, n) =~= b);
            assert(list[m - 1] == a[m - 1]);
            assert(list[n - 1] == b[b.len() - 1]);
            lemma_expects(
                p,
                estimate_of(*left, p).row_count,
                estimate_of(*right, p).row_count,
                slot_set(*left),
                slot_set(*right),
            );
        },
    }
}

/// The estimates of an optimized select block are those of its tree: tables have the rows that
/// statistics know of them, a join without predicates gives all pairs, and a join on the equality of
/// two columns with known numbers of distinct values gives one pair in as many as the greater number
/// says.
pub proof fn estimates_follow_the_statistics(s: SelectView, stats: StatsLookup)
    ensures
        optimized_select(s, stats).select matches Some(x) && estimates_fit(
            x.join_tree,
            optimized_select(s, stats).estimates,
            x,
            stats,
            atoms_of(s),
        ),
{
    optimization_keeps_the_query(s, stats);
    let o = optimized_select(s, stats);
    let x = o.select->0;
    let p = Planning { select: x, stats, atoms: atoms_of(s) };
    lemma_estimates(x.join_tree, p);
}

/// Whether an expression is a column of a slot.
pub open spec fn column_of_slot(e: ExprView, at: usize) -> bool {
    e matches ExprView::ColumnRef { slot, .. } && slot == at
}

proof fn lemma_uses(a: ExprView, b: ExprView, x: usize, y: usize)
    requires
        column_of_slot(a, x),
        column_of_slot(b, y),
    ensures
        crate::atoms::used_slots(equality(a, b)).contains(x),
        crate::atoms::used_slots(equality(a, b)).contains(y),
{
    let e = equality(a, b);
    assert(crate::expr::nodes(a) =~= seq![a]);
    assert(crate::expr::nodes(b) =~= seq![b]);
    let all = crate::expr::nodes(e);
    assert(all =~= seq![e, a, b]);
    assert(crate::expr::refers_to_slot(all[1], x as int));
    assert(crate::expr::refers_to_slot(all[2], y as int));
}

proof fn lemma_two_leaves(t: TreeView, x: usize, y: usize)
    requires
        crate::laws_plan::slot_bag(t) == seq![x, y].to_multiset(),
    ensures
        t matches TreeView::Join { left, right, .. } && {
            ||| *left == TreeView::Leaf(x) && *right == TreeView::Leaf(y)
            ||| *left == TreeView::Leaf(y) && *right == TreeView::Leaf(x)
        },
{
    let order = crate::atoms::leaf_order(t);
    let pair = seq![x, y];
    order.to_multiset_ensures();
    pair.to_multiset_ensures();
    assert(order.len() == 2);
    match t {
        TreeView::Leaf(_) => {},
        TreeView::Join { left, right, .. } => {
            lemma_leaves_of(*left);
            lemma_leaves_of(*right);
            let l = crate::atoms::leaf_order(*left);
            let r = crate::atoms::leaf_order(*right);
            assert(order =~= l + r);
            assert(l.len() == 1 && r.len() == 1);
            assert(order[0] == l[0] && order[1] == r[0]);
            assert(pair.to_multiset().count(order[0]) > 0) by {
                assert(order.contains(order[0]));
            }
            assert(pair.to_multiset().count(order[1]) > 0) by {
                assert(order.contains(order[1]));
            }
            assert(pair.contains(order[0]) && pair.contains(order[1]));
            if order[0] == order[1] && x != y {
                let other = if order[0] == x {
                    y
                } else {
                    x
                };
                assert(pair[0] == x && pair[1] == y);
                assert(pair.contains(other));
                assert(order.to_multiset().count(other) > 0);
                assert(order.contains(other));
            }
        },
    }
}

proof fn lemma_leaves_of(t: TreeView)
    ensures
        crate::atoms::leaf_order(t).len() >= 1,
        crate::atoms::leaf_order(t).len() == 1 ==> t == TreeView::Leaf(
            crate::atoms::leaf_order(t)[0],
        ),
    decreases t,
{
    match t {
        TreeView::Leaf(_) => {},
        TreeView::Join { left, right, .. } => {
            lemma_leaves_of(*left);
            lemma_leaves_of(*right);
        },
    }
}

/// Whether a select block is the join of two slots on the equality of a column of each.
#[verifier::opaque]
pub open spec fn joins_two_tables(
    s: SelectView,
    x: usize,
    y: usize,
    a: ExprView,
    b: ExprView,
) -> bool {
    &&& s.filter is None
    &&& s.join_tree == (TreeView::Join {
        kind: JoinKind::Inner,
        left: Box::new(TreeView::Leaf(x)),
        right: Box::new(TreeView::Leaf(y)),
        on: Some(equality(a, b)),
    })
    &&& column_of_slot(a, x)
    &&& column_of_slot(b, y)
}

/// A join of two tables on the equality of a column of each is estimated, whichever side the
/// optimizer puts first, at one pair of rows in as many as the greater number of distinct values says.
pub proof fn joined_tables_are_estimated_by_distinct_values(
    s: SelectView,
    stats: StatsLookup,
    x: usize,
    y: usize,
    a: ExprView,
    b: ExprView,
)
    requires
        x != y,
        joins_two_tables(s, x, y, a, b),
        known_rows(x, s, stats) is Some,
        known_rows(y, s, stats) is Some,
        distinct_values(a, s, stats) is Some,
        distinct_values(b, s, stats) is Some,
    ensures
        optimized_select(s, stats).estimates.len() == 3,
        keeps_one_in(
            optimized_select(s, stats).estimates[2].row_count,
            known_rows(x, s, stats)->0,
            known_rows(y, s, stats)->0,
            greater(distinct_values(a, s, stats)->0, distinct_values(b, s, stats)->0),
        ),
{
    estimates_follow_the_statistics(s, stats);
    optimization_keeps_the_query(s, stats);
    lemma_pair_plan(
        s,
        optimized_select(s, stats).select->0,
        stats,
        optimized_select(s, stats).estimates,
        x,
        y,
        a,
        b,
    );
}

proof fn lemma_pair_order(s: SelectView, x: usize, y: usize, a: ExprView, b: ExprView)
    requires
        joins_two_tables(s, x, y, a, b),
    ensures
        crate::atoms::leaf_order(s.join_tree) == seq![x, y],
{
    reveal(joins_two_tables);
    assert(crate::atoms::leaf_order(TreeView::Leaf(x)) =~= seq![x]);
    assert(crate::atoms::leaf_order(TreeView::Leaf(y)) =~= seq![y]);
    assert(crate::atoms::leaf_order(s.join_tree) =~= seq![x, y]);
}

proof fn lemma_pair_plan(
    s: SelectView,
    z: SelectView,
    stats: StatsLookup,
    e: Seq<NodeEstimate>,
    x: usize,
    y: usize,
    a: ExprView,
    b: ExprView,
)
    requires
        joins_two_tables(s, x, y, a, b),
        z.slots == s.slots,
        crate::laws_plan::slot_bag(z.join_tree) == crate::laws_plan::slot_bag(s.join_tree),
        estimates_fit(z.join_tree, e, z, stats, atoms_of(s)),
        known_rows(x, s, stats) is Some,
        known_rows(y, s, stats) is Some,
        distinct_values(a, s, stats) is Some,
        distinct_values(b, s, stats) is Some,
    ensures
        e.len() == 3,
        keeps_one_in(
            e[2].row_count,
            known_rows(x, s, stats)->0,
            known_rows(y, s, stats)->0,
            greater(distinct_values(a, s, stats)->0, distinct_values(b, s, stats)->0),
        ),
{
    lemma_one_atom(s, x, y, a, b);
    lemma_pair_order(s, x, y, a, b);
    lemma_two_leaves(z.join_tree, x, y);
    assert(known_rows(x, z, stats) == known_rows(x, s, stats));
    assert(known_rows(y, z, stats) == known_rows(y, s, stats));
    assert(distinct_values(a, z, stats) == distinct_values(a, s, stats));
    assert(distinct_values(b, z, stats) == distinct_values(b, s, stats));
    lemma_pair_estimates(z, stats, e, atoms_of(s), x, y, a, b);
}

proof fn lemma_one_atom(s: SelectView, x: usize, y: usize, a: ExprView, b: ExprView)
    requires
        joins_two_tables(s, x, y, a, b),
    ensures
        atoms_of(s).len() == 1,
        atoms_of(s)[0].expr == equality(a, b),
        atoms_of(s)[0].slots.contains(x),
        atoms_of(s)[0].slots.contains(y),
        atoms_of(s)[0].mobility == PredicateMobility::FreelyMovableWithinComponent,
{
    reveal(joins_two_tables);
    let on = equality(a, b);
    assert(crate::atoms::terms(on) =~= seq![on]);
    lemma_uses(a, b, x, y);
    let middle = crate::atoms::ahead(0, crate::atoms::joins(TreeView::Leaf(x)));
    let own = crate::atoms::ahead(middle, crate::atoms::joins(TreeView::Leaf(y)));
    let atom = crate::atoms::on_atom(on, JoinKind::Inner, false, own, 0);
    assert(crate::atoms::join_atoms(TreeView::Leaf(x), false, 0, 0) =~= Seq::empty());
    assert(crate::atoms::join_atoms(TreeView::Leaf(y), false, middle, 0) =~= Seq::empty());
    assert(crate::atoms::on_atoms(Some(on), JoinKind::Inner, false, own, 0) =~= seq![atom]);
    assert(crate::atoms::join_atoms(s.join_tree, false, 0, 0) =~= seq![atom]);
    assert(atoms_of(s) =~= seq![atom]);
}

proof fn lemma_pair_estimates(
    z: SelectView,
    stats: StatsLookup,
    e: Seq<NodeEstimate>,
    atoms: Seq<AtomView>,
    x: usize,
    y: usize,
    a: ExprView,
    b: ExprView,
)
    requires
        estimates_fit(z.join_tree, e, z, stats, atoms),
        atoms.len() == 1,
        atoms[0].expr == equality(a, b),
        atoms[0].slots.contains(x),
        atoms[0].slots.contains(y),
        atoms[0].mobility == PredicateMobility::FreelyMovableWithinComponent,
        z.join_tree matches TreeView::Join { left, right, .. } && {
            ||| *left == TreeView::Leaf(x) && *right == TreeView::Leaf(y)
            ||| *left == TreeView::Leaf(y) && *right == TreeView::Leaf(x)
        },
        known_rows(x, z, stats) is Some,
        known_rows(y, z, stats) is Some,
        distinct_values(a, z, stats) is Some,
        distinct_values(b, z, stats) is Some,
    ensures
        e.len() == 3,
        keeps_one_in(
            e[2].row_count,
            known_rows(x, z, stats)->0,
            known_rows(y, z, stats)->0,
            greater(distinct_values(a, z, stats)->0, distinct_values(b, z, stats)->0),
        ),
{
    match z.join_tree {
        TreeView::Join { left, right, .. } => {
            let l = slot_set(*left);
            let r = slot_set(*right);
            let i = (*left)->Leaf_0;
            let j = (*right)->Leaf_0;
            assert(node_count(*left) == 1 && node_count(*right) == 1);
            assert(crate::atoms::leaf_order(*left)[0] == i);
            assert(crate::atoms::leaf_order(*right)[0] == j);
            assert(l.contains(i) && r.contains(j));
            assert(atoms[0].slots.contains(i) && atoms[0].slots.contains(j));
            assert(takes_part(atoms[0], l, r, z.join_tree));
            assert(e.len() == 3);
            assert(estimates_fit(*left, e.subrange(0, 1), z, stats, atoms));
            assert(estimates_fit(*right, e.subrange(1, 2), z, stats, atoms));
            assert(e.subrange(0, 1)[0] == e[0]);
            assert(e.subrange(1, 2)[0] == e[1]);
            assert(e[0].row_count == known_rows(i, z, stats)->0);
            assert(e[1].row_count == known_rows(j, z, stats)->0);
            assert(expects(
                e[2].row_count,
                e[0].row_count,
                e[1].row_count,
                l,
                r,
                z,
                stats,
                atoms,
            ));
            let k = greater(distinct_values(a, z, stats)->0, distinct_values(b, z, stats)->0);
            assert(keeps_one_in(e[2].row_count, e[0].row_count, e[1].row_count, k));
            let m = e[0].row_count;
            let n = e[1].row_count;
            assert(m * n == n * m) by (nonlinear_arith);
        },
        TreeView::Leaf(_) => {},
    }
}

/// An equality on a column with more than one distinct value makes a join expect fewer rows than all
/// pairs, unless there are too few pairs to tell or too many to count.
pub proof fn equalities_thin_out_joins(all: u64, some: u64, l: u64, r: u64, k: u64)
    requires
        keeps_one_in(all, l, r, 1),
        keeps_one_in(some, l, r, k),
        k >= 2,
        l * r >= 8,
        some < u64::MAX,
    ensures
        some < all,
{
    let c = 0x10_0000_0000_0000int;
    let p = (l * r) as int;
    assert(all >= 5) by (nonlinear_arith)
        requires
            all == u64::MAX || p * (c - 40) < (all + 1) * 1 * c,
            p >= 8,
            c == 0x10_0000_0000_0000,
    ;
    if some > 1 && all < u64::MAX {
        assert(2 * some * c <= p * (c + 40)) by (nonlinear_arith)
            requires
                some * k * c <= p * (c + 40),
                k >= 2,
                some >= 0,
                c > 0,
        ;
        assert(some < all) by (nonlinear_arith)
            requires
                2 * some * c <= p * (c + 40),
                p * (c - 40) < (all + 1) * 1 * c,
                p >= 8,
                c == 0x10_0000_0000_0000,
        ;
    }
}

proof fn lemma_default_units()
    ensures
        near(
            (units(Double { bits: crate::stats::DEFAULT_RANGE_BITS }) * 10) as int,
            3 * one_in_units() as int,
            1,
        ),
        near(
            (units(Double { bits: crate::stats::DEFAULT_EQUALITY_BITS }) * 10) as int,
            one_in_units() as int,
            1,
        ),
{
    lemma2_to64();
    vstd::arithmetic::power2::lemma2_to64_rest();
    let range = Double { bits: crate::stats::DEFAULT_RANGE_BITS };
    let equal = Double { bits: crate::stats::DEFAULT_EQUALITY_BITS };
    assert(crate::rounding::mantissa(range) == 0x13_3333_3333_3333);
    assert(crate::rounding::exponent(range) == 1020);
    assert(crate::rounding::mantissa(equal) == 0x19_9999_9999_999a);
    assert(crate::rounding::exponent(equal) == 1018);
    vstd::arithmetic::power2::lemma_pow2_adds(54, 1020);
    vstd::arithmetic::power2::lemma_pow2_adds(56, 1018);
    lemma_pow2_pos(1020);
    lemma_pow2_pos(1018);
    let x = vstd::arithmetic::power2::pow2(1020) as int;
    let y = vstd::arithmetic::power2::pow2(1018) as int;
    let one = one_in_units() as int;
    assert(one == 0x40_0000_0000_0000 * x);
    assert(one == 0x100_0000_0000_0000 * y);
    let a = units(range) as int;
    let b = units(equal) as int;
    assert(a == 0x13_3333_3333_3333 * x);
    assert(b == 0x19_9999_9999_999a * y);
    assert(near(a * 10, 3 * one, 1)) by (nonlinear_arith)
        requires
            a == 0x13_3333_3333_3333 * x,
            one == 0x40_0000_0000_0000 * x,
            x > 0,
    ;
    assert(near(b * 10, one, 1)) by (nonlinear_arith)
        requires
            b == 0x19_9999_9999_999a * y,
            one == 0x100_0000_0000_0000 * y,
            y > 0,
    ;
}

/// Whether an expression is a column of a table.
pub open spec fn of_table(e: ExprView, s: SelectView) -> bool {
    e matches ExprView::ColumnRef { slot, .. } && slot < s.slots.len() && s.slots[slot as int] is Base
}

/// What is not an equality keeps three rows in ten; an equality one in as many as the column has
/// distinct values, where these are known and the other side is no column, and one in ten where
/// neither side is a column of a table. This holds of joins and of scans.
pub proof fn predicates_keep_their_shares(e: ExprView, a: ExprView, b: ExprView, p: Planning)
    ensures
        !(e matches ExprView::BinaryOp { op: BinOp::Eq, .. }) ==> near(
            (units(term_factor(e, p)) * 10) as int,
            3 * one_in_units() as int,
            1,
        ) && near(
            (units(crate::optimize::scan_share(e, p)) * 10) as int,
            3 * one_in_units() as int,
            1,
        ),
        !of_table(a, p.select) && !of_table(b, p.select) ==> near(
            (units(term_factor(equality(a, b), p)) * 10) as int,
            one_in_units() as int,
            1,
        ),
        distinct_values(a, p.select, p.stats) is Some && !of_table(b, p.select) ==> near(
            (units(term_factor(equality(a, b), p)) * distinct_values(a, p.select, p.stats)->0) as int,
            one_in_units() as int,
            4,
        ),
        distinct_values(b, p.select, p.stats) is Some && !of_table(a, p.select) ==> near(
            (units(term_factor(equality(a, b), p)) * distinct_values(b, p.select, p.stats)->0) as int,
            one_in_units() as int,
            4,
        ),
{
    lemma_default_units();
    match distinct_values(a, p.select, p.stats) {
        Some(n) => {
            reciprocals_of_counts_are_near(n as nat);
        },
        None => {},
    }
    match distinct_values(b, p.select, p.stats) {
        Some(n) => {
            reciprocals_of_counts_are_near(n as nat);
        },
        None => {},
    }
}

} // verus!
