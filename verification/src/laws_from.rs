//! Laws of `FROM`: how binding lays out the slots of a select block and the conditions of its joins.

use crate::atoms::leaf_order;
use crate::expr::ExprView;
use crate::laws_layout::asks_for_row;
use crate::laws_rebase::{
    lemma_bound_no_bare_number, lemma_rebased_no_bare_number, lemma_terms_no_bare_number, moves,
    no_bare_number, placed_expressions_stay, rebased_expressions_refer_alike,
};
use crate::laws_resolve::{
    bound_expressions_are_resolved, columns_of, lemma_refers_more, no_room, refers, room_of,
    roomier, sound_scope, sound_visible, Room,
};
use crate::laws_rows::laid_out;
use crate::lists::{lemma_place_of, place_of};
use crate::materialize::{always, logical_layout, remapped_offset, width_before};
use crate::model_query::{
    after_join, constraint_of, crossed, factor_of, from_of, join_kind, join_of, join_slots, joined,
    joins_of, leaf_of, natural_parts, on_scope, operator_parts_of, slot_added, tables_of, top_mode,
    total_width, using_parts, BoundTree, FromView, PartsView,
};
use crate::names::{
    first_at, joined_schema_from, lemma_first_at, merged_column, rebased, shared_names, slot_range,
    unmarked, using_column, using_from, visible_expr, visible_folds, visible_is, visible_named,
    Found, InfoView,
};
use crate::query::{JoinKind, QueryView, SlotView, TreeView, VisibleView};
use crate::scope::{Env, StateView};
use crate::sql::{Join, JoinConstraint, JoinOperator, SqlExpr, TableFactor, TableWithJoins};
use crate::value::ErrorView;
use vstd::prelude::*;

verus! {

/// How many columns the first `n` slots have.
pub open spec fn start(infos: Seq<InfoView>, n: int) -> nat
    decreases n,
{
    if n <= 0 || n > infos.len() {
        0
    } else {
        start(infos, n - 1) + infos[n - 1].columns.len()
    }
}

/// Whether everything that was collected can be counted.
pub open spec fn fits(fs: FromView) -> bool {
    &&& fs.slots.len() <= usize::MAX
    &&& fs.infos.len() == fs.slots.len()
    &&& fs.subqueries.len() <= usize::MAX
    &&& start(fs.infos, fs.infos.len() as int) <= usize::MAX
    &&& forall|i: int| 0 <= i < fs.schemas.len() ==> (#[trigger] fs.schemas[i]).len() <= usize::MAX
}

/// Whether the slots and what names see of them have the same widths.
spec fn aligned(fs: FromView) -> bool {
    &&& fs.infos.len() == fs.slots.len()
    &&& forall|i: int|
        0 <= i < fs.infos.len() ==> (#[trigger] fs.infos[i]).columns.len()
            == fs.slots[i].columns().len()
}

/// Whether the slots stand one behind the other.
spec fn in_line(fs: FromView) -> bool {
    &&& fs.infos.len() == fs.slots.len()
    &&& forall|i: int|
        0 <= i < fs.infos.len() ==> (#[trigger] fs.infos[i]).offset == start(fs.infos, i)
            && fs.infos[i].columns.len() == fs.slots[i].columns().len()
}

/// Whether the slots of a list have the places and widths of the first slots of another one.
spec fn same_shape(a: Seq<InfoView>, b: Seq<InfoView>) -> bool {
    &&& a.len() <= b.len()
    &&& forall|i: int|
        0 <= i < a.len() ==> (#[trigger] a[i]).offset == b[i].offset && a[i].columns.len()
            == b[i].columns.len()
}

/// Whether more was collected.
spec fn grown(a: FromView, b: FromView) -> bool {
    &&& same_shape(a.infos, b.infos)
    &&& a.subqueries.len() <= b.subqueries.len()
    &&& a.slots.len() <= b.slots.len()
    &&& a.schemas.len() <= b.schemas.len()
    &&& forall|i: int| 0 <= i < a.schemas.len() ==> #[trigger] a.schemas[i] == b.schemas[i]
    &&& aligned(a) ==> aligned(b)
}

proof fn lemma_start_same(a: Seq<InfoView>, b: Seq<InfoView>, n: int)
    requires
        same_shape(a, b),
        0 <= n <= a.len(),
    ensures
        start(a, n) == start(b, n),
    decreases n,
{
    if n > 0 {
        lemma_start_same(a, b, n - 1);
        assert(a[n - 1].columns.len() == b[n - 1].columns.len());
    }
}

proof fn lemma_start_grows(a: Seq<InfoView>, n: int, m: int)
    requires
        0 <= n <= m <= a.len(),
    ensures
        start(a, n) <= start(a, m),
        forall|i: int|
            n <= i < m ==> start(a, n) + (#[trigger] a[i]).columns.len() <= start(a, m),
    decreases m - n,
{
    if n < m {
        lemma_start_grows(a, n, m - 1);
    }
}

/// What can be counted in the end could be counted before.
proof fn lemma_fits(a: FromView, b: FromView)
    requires
        grown(a, b),
        fits(b),
        aligned(a),
    ensures
        fits(a),
{
    lemma_start_same(a.infos, b.infos, a.infos.len() as int);
    lemma_start_grows(b.infos, a.infos.len() as int, b.infos.len() as int);
    assert forall|i: int| 0 <= i < a.schemas.len() implies (#[trigger] a.schemas[i]).len()
        <= usize::MAX by {
        assert(a.schemas[i] == b.schemas[i]);
    }
}

proof fn lemma_grown_twice(a: FromView, b: FromView, c: FromView)
    requires
        grown(a, b),
        grown(b, c),
    ensures
        grown(a, c),
{
    assert forall|i: int| 0 <= i < a.infos.len() implies (#[trigger] a.infos[i]).offset
        == c.infos[i].offset && a.infos[i].columns.len() == c.infos[i].columns.len() by {
        assert(b.infos[i].offset == c.infos[i].offset);
    }
    assert forall|i: int| 0 <= i < a.schemas.len() implies #[trigger] a.schemas[i]
        == c.schemas[i] by {
        assert(b.schemas[i] == c.schemas[i]);
    }
}

/// The columns of the slots from `a` to `b`, with their offsets in the joined row.
spec fn between(infos: Seq<InfoView>, a: int, b: int) -> spec_fn(usize, usize, usize) -> bool {
    |s: usize, c: usize, o: usize|
        a <= s <= b && s < infos.len() && c < infos[s as int].columns.len() && o
            == infos[s as int].offset + c
}

/// The columns of the slots from `a` to `b`, with their offsets behind the first of them.
spec fn local(infos: Seq<InfoView>, a: int, b: int) -> spec_fn(usize, usize, usize) -> bool {
    |s: usize, c: usize, o: usize|
        0 <= a <= s <= b && s < infos.len() && c < infos[s as int].columns.len() && o
            + infos[a].offset == infos[s as int].offset + c
}

/// The slots from `a` to `b`.
spec fn run(a: int, b: int) -> Seq<usize> {
    Seq::new((b - a + 1) as nat, |i: int| (a + i) as usize)
}

/// Whether the conditions of a tree refer to the columns of their joins.
spec fn joined_soundly(t: TreeView, infos: Seq<InfoView>, n: Room) -> bool
    decreases t,
{
    match t {
        TreeView::Leaf(_) => true,
        TreeView::Join { kind, left, right, on } => {
            &&& joined_soundly(*left, infos, n)
            &&& joined_soundly(*right, infos, n)
            &&& kind == JoinKind::Cross ==> on is None
            &&& leaf_order(t) == run(slot_range(t).0 as int, slot_range(t).1 as int)
            &&& slot_range(t).0 <= slot_range(t).1 < infos.len()
            &&& on matches Some(e) ==> {
                &&& refers(e, local(infos, slot_range(t).0 as int, slot_range(t).1 as int), n)
                &&& e != always()
                &&& no_bare_number(e)
            }
        },
    }
}

/// Whether a visible column is one of the slots from `a` to `b`, or made of such.
spec fn seen(v: VisibleView, infos: Seq<InfoView>, a: int, b: int) -> bool {
    match v {
        VisibleView::Physical { slot, column } => a <= slot <= b && slot < infos.len() && column
            < infos[slot as int].columns.len(),
        VisibleView::Merged { expr, .. } => refers(expr, between(infos, a, b), no_room()),
    }
}

/// Whether all visible columns are made of the slots from `a` to `b`.
spec fn all_seen(v: Seq<VisibleView>, infos: Seq<InfoView>, a: int, b: int) -> bool {
    forall|i: int| 0 <= i < v.len() ==> seen(#[trigger] v[i], infos, a, b)
}

/// The results for references by index that a `FROM` clause offers.
spec fn from_room(fs: FromView) -> Room {
    Room { aggregates: 0, windows: 0, subqueries: fs.subqueries.len(), outputs: 0 }
}

/// Whether a tree joins the slots from `a` to `b` in order and soundly, and its visible columns are
/// theirs.
spec fn good(t: TreeView, v: Seq<VisibleView>, fs: FromView, a: int, b: int) -> bool {
    &&& 0 <= a <= b < fs.infos.len()
    &&& slot_range(t).0 == a
    &&& slot_range(t).1 == b
    &&& leaf_order(t) == run(a, b)
    &&& joined_soundly(t, fs.infos, from_room(fs))
    &&& all_seen(v, fs.infos, a, b)
}

proof fn lemma_local_same(a: Seq<InfoView>, b: Seq<InfoView>, x: int, y: int)
    requires
        same_shape(a, b),
    ensures
        forall|s: usize, c: usize, o: usize| #[trigger]
            local(a, x, y)(s, c, o) ==> local(b, x, y)(s, c, o),
        forall|s: usize, c: usize, o: usize| #[trigger]
            between(a, x, y)(s, c, o) ==> between(b, x, y)(s, c, o),
{
    assert forall|s: usize, c: usize, o: usize| #[trigger]
        local(a, x, y)(s, c, o) implies local(b, x, y)(s, c, o) by {
        assert(a[s as int].offset == b[s as int].offset);
        assert(a[x].offset == b[x].offset);
    }
    assert forall|s: usize, c: usize, o: usize| #[trigger]
        between(a, x, y)(s, c, o) implies between(b, x, y)(s, c, o) by {
        assert(a[s as int].offset == b[s as int].offset);
    }
}

proof fn lemma_joined_same(
    t: TreeView,
    a: Seq<InfoView>,
    b: Seq<InfoView>,
    n: Room,
    m: Room,
)
    requires
        same_shape(a, b),
        roomier(n, m),
        joined_soundly(t, a, n),
    ensures
        joined_soundly(t, b, m),
    decreases t,
{
    match t {
        TreeView::Leaf(_) => {},
        TreeView::Join { left, right, on, .. } => {
            lemma_joined_same(*left, a, b, n, m);
            lemma_joined_same(*right, a, b, n, m);
            let x = slot_range(t).0 as int;
            let y = slot_range(t).1 as int;
            match on {
                Some(e) => {
                    lemma_local_same(a, b, x, y);
                    lemma_refers_more(e, local(a, x, y), local(b, x, y), n, m);
                },
                None => {},
            }
        },
    }
}

proof fn lemma_seen_same(
    v: Seq<VisibleView>,
    a: Seq<InfoView>,
    b: Seq<InfoView>,
    x: int,
    y: int,
)
    requires
        same_shape(a, b),
        all_seen(v, a, x, y),
    ensures
        all_seen(v, b, x, y),
{
    lemma_local_same(a, b, x, y);
    assert forall|i: int| 0 <= i < v.len() implies seen(#[trigger] v[i], b, x, y) by {
        match v[i] {
            VisibleView::Physical { slot, column } => {
                assert(a[slot as int].columns.len() == b[slot as int].columns.len());
            },
            VisibleView::Merged { expr, .. } => {
                lemma_refers_more(expr, between(a, x, y), between(b, x, y), no_room(), no_room());
            },
        }
    }
}

/// A tree stays good while more is collected.
proof fn lemma_good_same(
    t: TreeView,
    v: Seq<VisibleView>,
    fs: FromView,
    fs2: FromView,
    a: int,
    b: int,
)
    requires
        good(t, v, fs, a, b),
        grown(fs, fs2),
    ensures
        good(t, v, fs2, a, b),
{
    lemma_joined_same(t, fs.infos, fs2.infos, from_room(fs), from_room(fs2));
    lemma_seen_same(v, fs.infos, fs2.infos, a, b);
}

/// What a visible column is bound to refers to the slots it is made of.
proof fn lemma_seen_expr(v: VisibleView, infos: Seq<InfoView>, a: int, b: int)
    requires
        seen(v, infos, a, b),
        in_row(infos),
    ensures
        refers(visible_expr(v, infos), between(infos, a, b), no_room()),
{
    match v {
        VisibleView::Physical { slot, column } => {
            lemma_start_grows(infos, slot as int, infos.len() as int);
            assert(infos[slot as int].offset + column <= usize::MAX);
        },
        VisibleView::Merged { .. } => {},
    }
}

/// Whether slots stand one behind the other in a row that can be counted.
spec fn in_row(infos: Seq<InfoView>) -> bool {
    &&& infos.len() <= usize::MAX
    &&& start(infos, infos.len() as int) <= usize::MAX
    &&& forall|i: int| 0 <= i < infos.len() ==> (#[trigger] infos[i]).offset == start(infos, i)
}

/// What is seen of a part is seen of the whole.
proof fn lemma_seen_wider(v: Seq<VisibleView>, infos: Seq<InfoView>, a: int, b: int, c: int, d: int)
    requires
        all_seen(v, infos, a, b),
        c <= a,
        b <= d,
    ensures
        all_seen(v, infos, c, d),
{
    assert forall|i: int| 0 <= i < v.len() implies seen(#[trigger] v[i], infos, c, d) by {
        match v[i] {
            VisibleView::Physical { .. } => {},
            VisibleView::Merged { expr, .. } => {
                lemma_refers_more(
                    expr,
                    between(infos, a, b),
                    between(infos, c, d),
                    no_room(),
                    no_room(),
                );
            },
        }
    }
}

proof fn lemma_run_add(a: int, b: int, c: int)
    requires
        a <= b < c,
    ensures
        run(a, b) + run(b + 1, c) == run(a, c),
{
    assert(run(a, b) + run(b + 1, c) =~= run(a, c));
}

proof fn lemma_total_width(infos: Seq<InfoView>, n: int)
    requires
        0 <= n <= infos.len(),
        start(infos, n) <= usize::MAX,
    ensures
        total_width(infos, n) == start(infos, n),
    decreases n,
{
    if n > 0 {
        lemma_total_width(infos, n - 1);
    }
}

/// A slot added stands behind the others.
proof fn lemma_slot_added(slot: SlotView, fs: FromView)
    requires
        fits(fs) ==> in_line(fs),
        aligned(fs),
    ensures
        slot_added(slot, fs) matches Ok((t, v, fs2)) ==> {
            &&& grown(fs, fs2)
            &&& fs2.slots.len() == fs.slots.len() + 1
            &&& fits(fs2) ==> in_line(fs2) && v.len() <= usize::MAX && good(
                t,
                v,
                fs2,
                fs.slots.len() as int,
                fs.slots.len() as int,
            )
        },
{
    match slot_added(slot, fs) {
        Ok((t, v, fs2)) => {
            let n = fs.slots.len() as int;
            assert forall|i: int| 0 <= i < fs2.infos.len() implies (
            #[trigger] fs2.infos[i]).columns.len() == fs2.slots[i].columns().len() by {
                if i < n {
                    assert(fs2.infos[i] == fs.infos[i]);
                    assert(fs2.slots[i] == fs.slots[i]);
                }
            }
            assert(grown(fs, fs2));
            if fits(fs2) {
                lemma_fits(fs, fs2);
                lemma_start_same(fs.infos, fs2.infos, n);
                assert(fs2.infos[n].columns == slot.columns());
                assert(start(fs2.infos, n + 1) == start(fs2.infos, n) + slot.columns().len());
                lemma_total_width(fs.infos, n);
                assert forall|i: int| 0 <= i < fs2.infos.len() implies (
                #[trigger] fs2.infos[i]).offset == start(fs2.infos, i)
                    && fs2.infos[i].columns.len() == fs2.slots[i].columns().len() by {
                    if i < n {
                        assert(fs2.infos[i] == fs.infos[i]);
                        assert(fs2.slots[i] == fs.slots[i]);
                        lemma_start_same(fs.infos, fs2.infos, i);
                    }
                }
                assert(fs2.schemas[fs.schemas.len() as int] == v);
                assert(v.len() <= usize::MAX);
                assert(leaf_order(t) =~= run(n, n));
                assert forall|i: int| 0 <= i < v.len() implies seen(
                    #[trigger] v[i],
                    fs2.infos,
                    n,
                    n,
                ) by {}
            }
        },
        Err(_) => {},
    }
}

/// Whether a join condition, if there is one, is made of the slots from `a` to `b`.
spec fn sound_on(on: Option<ExprView>, infos: Seq<InfoView>, a: int, b: int, n: Room) -> bool {
    on matches Some(e) ==> refers(e, between(infos, a, b), n) && e != always() && no_bare_number(e)
}

proof fn lemma_using_column(
    schema: Seq<VisibleView>,
    infos: Seq<InfoView>,
    name: Seq<char>,
    a: int,
    b: int,
)
    requires
        schema.len() <= usize::MAX,
        all_seen(schema, infos, a, b),
    ensures
        using_column(schema, infos, name) matches Ok(v) ==> seen(v, infos, a, b),
{
    lemma_first_at(schema, visible_is(infos, name), 0);
    lemma_first_at(schema, visible_folds(infos, name), 0);
    match visible_named(schema, infos, name) {
        Found::At(i) => {
            assert(i < schema.len());
            assert(seen(schema[i as int], infos, a, b));
        },
        _ => {},
    }
}

proof fn lemma_using(
    l: Seq<VisibleView>,
    r: Seq<VisibleView>,
    names: Seq<Seq<char>>,
    infos: Seq<InfoView>,
    i: int,
    acc: Option<ExprView>,
    a: int,
    b: int,
)
    requires
        l.len() <= usize::MAX,
        r.len() <= usize::MAX,
        all_seen(l, infos, a, b),
        all_seen(r, infos, a, b),
        in_row(infos),
        sound_on(acc, infos, a, b, no_room()),
    ensures
        using_from(l, r, names, infos, i, acc) matches Ok(on) ==> sound_on(
            on,
            infos,
            a,
            b,
            no_room(),
        ),
    decreases names.len() - i,
{
    if 0 <= i < names.len() {
        match (using_column(l, infos, names[i]), using_column(r, infos, names[i])) {
            (Ok(lc), Ok(rc)) => {
                lemma_using_column(l, infos, names[i], a, b);
                lemma_using_column(r, infos, names[i], a, b);
                lemma_seen_expr(lc, infos, a, b);
                lemma_seen_expr(rc, infos, a, b);
                let le = visible_expr(lc, infos);
                let re = visible_expr(rc, infos);
                let eq = ExprView::BinaryOp {
                    op: crate::expr::BinOp::Eq,
                    left: Box::new(le),
                    right: Box::new(re),
                };
                assert(refers(eq, between(infos, a, b), no_room()));
                let next = match acc {
                    Some(p) => ExprView::BinaryOp {
                        op: crate::expr::BinOp::And,
                        left: Box::new(p),
                        right: Box::new(eq),
                    },
                    None => eq,
                };
                assert(no_bare_number(eq) && eq != always());
                match acc {
                    Some(p) => {
                        assert(refers(next, between(infos, a, b), no_room()));
                        assert(no_bare_number(next));
                    },
                    None => {},
                }
                lemma_using(l, r, names, infos, i + 1, Some(next), a, b);
            },
            _ => {},
        }
    }
}

/// What is known of a join's condition and kind.
spec fn sound_parts(
    r: Result<PartsView, ErrorView>,
    fs: FromView,
    a: int,
    b: int,
) -> bool {
    r matches Ok(p) ==> {
        &&& fs.subqueries.len() <= p.subqueries.len()
        &&& p.subqueries.len() <= usize::MAX ==> sound_on(
            p.on,
            fs.infos,
            a,
            b,
            Room { aggregates: 0, windows: 0, subqueries: p.subqueries.len(), outputs: 0 },
        )
    }
}

proof fn lemma_on_more(on: Option<ExprView>, infos: Seq<InfoView>, a: int, b: int, m: Room)
    requires
        sound_on(on, infos, a, b, no_room()),
    ensures
        sound_on(on, infos, a, b, m),
{
    match on {
        Some(e) => {
            lemma_refers_more(e, between(infos, a, b), between(infos, a, b), no_room(), m);
        },
        None => {},
    }
}

/// A condition written with `ON` is made of the slots of its join.
proof fn lemma_on(
    cx: Env<'_>,
    ctes: Seq<crate::names::CteEntryView>,
    outer: Seq<InfoView>,
    kind: JoinKind,
    e: SqlExpr,
    first: usize,
    last: usize,
    l: Seq<VisibleView>,
    r: Seq<VisibleView>,
    fs: FromView,
)
    requires
        first <= last < fs.infos.len(),
        in_row(fs.infos),
    ensures
        sound_parts(
            constraint_of(
                cx,
                ctes,
                outer,
                kind,
                JoinConstraint::On(e),
                first,
                last,
                l,
                r,
                fs,
            ),
            fs,
            first as int,
            last as int,
        ),
{
    let sc = on_scope(ctes, outer, fs.infos, first, last);
    let infos = fs.infos;
    let sub = join_slots(infos, first, last);
    let st = StateView {
        aggregates: Seq::empty(),
        subqueries: fs.subqueries,
        windows: Seq::empty(),
    };
    assert(sub == infos.subrange(first as int, last + 1));
    assert forall|i: int| 0 <= i < sub.len() implies (#[trigger] sub[i]).columns.len()
        <= usize::MAX by {
        lemma_start_grows(infos, first as int, infos.len() as int);
        assert(sub[i] == infos[first + i]);
    }
    assert(sound_scope(sc));
    bound_expressions_are_resolved(cx, sc, st, top_mode(), e);
    lemma_bound_no_bare_number(cx, sc, st, top_mode(), e);
    match crate::model_expr::bind_of(cx, sc, st, top_mode(), e) {
        Ok((b, st2)) => {
            match rebased(b, 0, first) {
                Ok(on) => {
                    if st2.subqueries.len() <= usize::MAX && crate::typing::bool_check(
                        crate::expr::type_of(b),
                        "JOIN ON"@,
                    ) is Ok {
                        assert(st2.aggregates.len() == 0 && st2.windows.len() == 0);
                        assert(b != always()) by {
                            assert(crate::expr::type_of(always()).data_type
                                == crate::value::DataType::Int64);
                        }
                        let p = columns_of(sub);
                        let q = between(infos, first as int, last as int);
                        assert(moves(p, q, 0, first)) by {
                            assert forall|s: usize, c: usize, o: usize|
                                #[trigger] p(s, c, o) && s + first <= usize::MAX && o
                                    >= 0 implies q((s + first) as usize, c, (o - 0) as usize) by {
                                assert(sub[s as int] == infos[s + first]);
                                lemma_start_grows(infos, s + first, infos.len() as int);
                                assert(infos[s + first].offset + infos[s + first].columns.len()
                                    <= usize::MAX);
                            }
                        }
                        rebased_expressions_refer_alike(b, p, q, room_of(sc, st2), 0, first);
                        lemma_rebased_no_bare_number(b, 0, first);
                    }
                },
                Err(_) => {},
            }
        },
        Err(_) => {},
    }
}

proof fn lemma_constraint(
    cx: Env<'_>,
    ctes: Seq<crate::names::CteEntryView>,
    outer: Seq<InfoView>,
    kind: JoinKind,
    c: JoinConstraint,
    first: usize,
    last: usize,
    l: Seq<VisibleView>,
    r: Seq<VisibleView>,
    fs: FromView,
)
    requires
        first <= last < fs.infos.len(),
        in_row(fs.infos),
        l.len() <= usize::MAX,
        r.len() <= usize::MAX,
        all_seen(l, fs.infos, first as int, last as int),
        all_seen(r, fs.infos, first as int, last as int),
    ensures
        sound_parts(
            constraint_of(cx, ctes, outer, kind, c, first, last, l, r, fs),
            fs,
            first as int,
            last as int,
        ),
{
    let a = first as int;
    let b = last as int;
    match c {
        JoinConstraint::On(e) => lemma_on(cx, ctes, outer, kind, e, first, last, l, r, fs),
        JoinConstraint::Unspecified => {},
        JoinConstraint::Using(columns) => {
            match crate::model_query::using_names(columns@, 0, Seq::empty()) {
                Ok(names) => {
                    lemma_using(l, r, names, fs.infos, 0, None, a, b);
                },
                Err(_) => {},
            }
            match using_parts(kind, columns@, l, r, fs) {
                Ok(p) => {
                    lemma_on_more(
                        p.on,
                        fs.infos,
                        a,
                        b,
                        Room {
                            aggregates: 0,
                            windows: 0,
                            subqueries: p.subqueries.len(),
                            outputs: 0,
                        },
                    );
                },
                Err(_) => {},
            }
        },
        JoinConstraint::Natural => {
            let names = shared_names(l, r, fs.infos, 0, Seq::empty());
            lemma_using(l, r, names, fs.infos, 0, None, a, b);
            match natural_parts(kind, l, r, fs) {
                Ok(p) => {
                    assert(sound_on(p.on, fs.infos, a, b, no_room()));
                    lemma_on_more(
                        p.on,
                        fs.infos,
                        a,
                        b,
                        Room {
                            aggregates: 0,
                            windows: 0,
                            subqueries: p.subqueries.len(),
                            outputs: 0,
                        },
                    );
                },
                Err(_) => {},
            }
        },
    }
}

proof fn lemma_unmarked(
    schema: Seq<VisibleView>,
    marks: Seq<bool>,
    i: int,
    acc: Seq<VisibleView>,
    infos: Seq<InfoView>,
    a: int,
    b: int,
)
    requires
        0 <= i,
        all_seen(schema, infos, a, b),
        all_seen(acc, infos, a, b),
    ensures
        all_seen(unmarked(schema, marks, i, acc), infos, a, b),
    decreases schema.len() - i,
{
    if i < schema.len() {
        if i < marks.len() && marks[i] {
            lemma_unmarked(schema, marks, i + 1, acc, infos, a, b);
        } else {
            lemma_seen_push(acc, schema[i], infos, a, b);
            lemma_unmarked(schema, marks, i + 1, acc.push(schema[i]), infos, a, b);
        }
    }
}

proof fn lemma_seen_push(v: Seq<VisibleView>, x: VisibleView, infos: Seq<InfoView>, a: int, b: int)
    requires
        all_seen(v, infos, a, b),
        seen(x, infos, a, b),
    ensures
        all_seen(v.push(x), infos, a, b),
{
    let more = v.push(x);
    assert forall|i: int| 0 <= i < more.len() implies seen(#[trigger] more[i], infos, a, b) by {
        if i < v.len() {
            assert(more[i] == v[i]);
        }
    }
}

/// A merged column is made of what it merges.
proof fn lemma_merged(
    name: Seq<char>,
    l: VisibleView,
    r: VisibleView,
    infos: Seq<InfoView>,
    before: Seq<InfoView>,
    kind: JoinKind,
    a: int,
    b: int,
)
    requires
        in_row(infos),
        seen(l, infos, a, b),
        seen(r, infos, a, b),
    ensures
        merged_column(name, l, r, infos, before, kind) matches Ok(c) ==> seen(c, infos, a, b),
{
    lemma_seen_expr(l, infos, a, b);
    lemma_seen_expr(r, infos, a, b);
    let le = visible_expr(l, infos);
    let re = visible_expr(r, infos);
    let args = seq![le, re];
    assert forall|k: int| 0 <= k < args.len() implies refers(
        #[trigger] args[k],
        between(infos, a, b),
        no_room(),
    ) by {
        assert(args[0] == le && args[1] == re);
    }
}

proof fn lemma_joined_schema(
    l: Seq<VisibleView>,
    r: Seq<VisibleView>,
    names: Seq<Seq<char>>,
    infos: Seq<InfoView>,
    before: Seq<InfoView>,
    kind: JoinKind,
    i: int,
    lused: Seq<bool>,
    rused: Seq<bool>,
    acc: Seq<VisibleView>,
    a: int,
    b: int,
)
    requires
        0 <= i,
        in_row(infos),
        all_seen(l, infos, a, b),
        all_seen(r, infos, a, b),
        all_seen(acc, infos, a, b),
    ensures
        joined_schema_from(l, r, names, infos, before, kind, i, lused, rused, acc) matches Ok(v)
            ==> all_seen(v, infos, a, b),
    decreases names.len() - i,
{
    if i >= names.len() {
        lemma_unmarked(l, lused, 0, acc, infos, a, b);
        lemma_unmarked(r, rused, 0, unmarked(l, lused, 0, acc), infos, a, b);
    } else {
        lemma_first_at(l, visible_folds(infos, names[i]), 0);
        lemma_first_at(r, visible_folds(infos, names[i]), 0);
        match (
            first_at(l, visible_folds(infos, names[i]), 0),
            first_at(r, visible_folds(infos, names[i]), 0),
        ) {
            (Some(li), Some(ri)) => {
                let name = crate::names::visible_name(l[li], infos);
                lemma_merged(name, l[li], r[ri], infos, before, kind, a, b);
                match merged_column(name, l[li], r[ri], infos, before, kind) {
                    Ok(c) => {
                        lemma_seen_push(acc, c, infos, a, b);
                        lemma_joined_schema(
                            l,
                            r,
                            names,
                            infos,
                            before,
                            kind,
                            i + 1,
                            lused.update(li, true),
                            rused.update(ri, true),
                            acc.push(c),
                            a,
                            b,
                        );
                    },
                    Err(_) => {},
                }
            },
            _ => {},
        }
    }
}

proof fn lemma_after_join(
    infos: Seq<InfoView>,
    kind: JoinKind,
    l: (usize, usize),
    r: (usize, usize),
)
    ensures
        same_shape(infos, after_join(infos, kind, l, r)),
        after_join(infos, kind, l, r).len() == infos.len(),
{
    let out = after_join(infos, kind, l, r);
    assert forall|i: int| 0 <= i < infos.len() implies (#[trigger] infos[i]).offset == out[i].offset
        && infos[i].columns.len() == out[i].columns.len() by {}
}

proof fn lemma_in_row(fs: FromView)
    requires
        in_line(fs),
        fits(fs),
    ensures
        in_row(fs.infos),
{
}

/// A join of two trees side by side is good.
proof fn lemma_joined(
    parts: PartsView,
    tree: TreeView,
    right: TreeView,
    l: Seq<VisibleView>,
    r: Seq<VisibleView>,
    fs: FromView,
    a: int,
    b: int,
    c: int,
)
    requires
        aligned(fs),
        fs.subqueries.len() <= parts.subqueries.len(),
        fits(fs) ==> in_line(fs) && good(tree, l, fs, a, b) && good(right, r, fs, b + 1, c)
            && sound_parts(Ok(parts), fs, a, c),
    ensures
        joined(parts, tree, right, l, r, fs) matches Ok((t, v, fs2)) ==> {
            &&& grown(fs, fs2)
            &&& fs2.slots == fs.slots
            &&& fits(fs2) ==> in_line(fs2) && v.len() <= usize::MAX && good(t, v, fs2, a, c)
        },
{
    match joined(parts, tree, right, l, r, fs) {
        Ok((t, v, fs2)) => {
            let infos = fs2.infos;
            lemma_after_join(fs.infos, parts.kind, slot_range(tree), slot_range(right));
            assert forall|i: int| 0 <= i < infos.len() implies (#[trigger] infos[i]).columns.len()
                == fs2.slots[i].columns().len() by {
                assert(fs.infos[i].columns.len() == infos[i].columns.len());
            }
            assert(grown(fs, fs2));
            if fits(fs2) {
                lemma_fits(fs, fs2);
                assert(fs2.schemas[fs.schemas.len() as int] == v);
                assert forall|i: int| 0 <= i < infos.len() implies (#[trigger] infos[i]).offset
                    == start(infos, i) && infos[i].columns.len() == fs2.slots[i].columns().len() by {
                    assert(fs.infos[i].offset == infos[i].offset);
                    lemma_start_same(fs.infos, infos, i);
                }
                lemma_in_row(fs2);
                lemma_good_same(tree, l, fs, fs2, a, b);
                lemma_good_same(right, r, fs, fs2, b + 1, c);
                lemma_seen_wider(l, infos, a, b, a, c);
                lemma_seen_wider(r, infos, b + 1, c, a, c);
                match parts.names {
                    Some(names) => {
                        lemma_joined_schema(
                            l,
                            r,
                            names,
                            infos,
                            fs.infos,
                            parts.kind,
                            0,
                            Seq::new(l.len(), |i: int| false),
                            Seq::new(r.len(), |i: int| false),
                            Seq::empty(),
                            a,
                            c,
                        );
                    },
                    None => {
                        assert forall|i: int| 0 <= i < v.len() implies seen(
                            #[trigger] v[i],
                            infos,
                            a,
                            c,
                        ) by {
                            if i < l.len() {
                                assert(v[i] == l[i]);
                            } else {
                                assert(v[i] == r[i - l.len()]);
                            }
                        }
                    },
                }
                lemma_run_add(a, b, c);
                assert(leaf_order(t) == run(a, c));
                match parts.on {
                    Some(e) => {
                        let base = infos[a].offset;
                        let p = between(fs.infos, a, c);
                        let q = local(infos, a, c);
                        assert(moves(p, q, base, 0)) by {
                            assert forall|s: usize, k: usize, o: usize|
                                #[trigger] p(s, k, o) && s + 0 <= usize::MAX && o
                                    >= base implies q((s + 0) as usize, k, (o - base) as usize) by {
                                assert(fs.infos[s as int].offset == infos[s as int].offset);
                            }
                        }
                        rebased_expressions_refer_alike(e, p, q, from_room(fs2), base, 0);
                        lemma_rebased_no_bare_number(e, base, 0);
                    },
                    None => {},
                }
            }
        },
        Err(_) => {},
    }
}

/// What is known of the tree of a relation or of joins whose first slot is the next one.
spec fn sound_tree(r: BoundTree, fs: FromView) -> bool {
    r matches Ok((t, v, fs2)) ==> {
        &&& grown(fs, fs2)
        &&& fs.slots.len() < fs2.slots.len()
        &&& aligned(fs2)
        &&& fits(fs2) ==> in_line(fs2) && v.len() <= usize::MAX && good(
            t,
            v,
            fs2,
            fs.slots.len() as int,
            fs2.slots.len() - 1,
        )
    }
}

proof fn lemma_factor(
    cx: Env<'_>,
    ctes: Seq<crate::names::CteEntryView>,
    outer: Seq<InfoView>,
    f: TableFactor,
    fs: FromView,
)
    requires
        aligned(fs),
        fits(fs) ==> in_line(fs),
    ensures
        sound_tree(factor_of(cx, ctes, outer, f, fs), fs),
    decreases f, 1int, 0int,
{
    match f {
        TableFactor::NestedJoin { tables, alias } => {
            if !alias {
                lemma_tables(cx, ctes, outer, *tables, fs);
            }
        },
        _ => {
            match leaf_of(cx, ctes, outer, f) {
                Ok(slot) => lemma_slot_added(slot, fs),
                Err(_) => {},
            }
        },
    }
}

proof fn lemma_tables(
    cx: Env<'_>,
    ctes: Seq<crate::names::CteEntryView>,
    outer: Seq<InfoView>,
    t: TableWithJoins,
    fs: FromView,
)
    requires
        aligned(fs),
        fits(fs) ==> in_line(fs),
    ensures
        sound_tree(tables_of(cx, ctes, outer, t, fs), fs),
    decreases t, 0int, 0int,
{
    lemma_factor(cx, ctes, outer, t.relation, fs);
    match factor_of(cx, ctes, outer, t.relation, fs) {
        Ok((tree, visible, fs2)) => {
            lemma_joins(
                cx,
                ctes,
                outer,
                t.joins,
                0,
                tree,
                visible,
                fs2,
                fs.slots.len() as int,
            );
            match joins_of(cx, ctes, outer, t.joins, 0, tree, visible, fs2) {
                Ok((_, _, fs3)) => lemma_grown_twice(fs, fs2, fs3),
                Err(_) => {},
            }
        },
        Err(_) => {},
    }
}

/// What is known of a tree that begins at the slot `a` and ends at the last one.
spec fn sound_from(r: BoundTree, fs: FromView, a: int) -> bool {
    r matches Ok((t, v, fs2)) ==> {
        &&& grown(fs, fs2)
        &&& aligned(fs2)
        &&& fits(fs2) ==> in_line(fs2) && v.len() <= usize::MAX && good(
            t,
            v,
            fs2,
            a,
            fs2.slots.len() - 1,
        )
    }
}

proof fn lemma_join(
    cx: Env<'_>,
    ctes: Seq<crate::names::CteEntryView>,
    outer: Seq<InfoView>,
    j: Join,
    tree: TreeView,
    visible: Seq<VisibleView>,
    fs: FromView,
    a: int,
)
    requires
        aligned(fs),
        fits(fs) ==> in_line(fs) && visible.len() <= usize::MAX && good(
            tree,
            visible,
            fs,
            a,
            fs.slots.len() - 1,
        ),
    ensures
        sound_from(join_of(cx, ctes, outer, j, tree, visible, fs), fs, a),
    decreases j, 0int, 0int,
{
    if !j.global {
        lemma_factor(cx, ctes, outer, j.relation, fs);
        match (join_kind(j.operator), factor_of(cx, ctes, outer, j.relation, fs)) {
            (Ok(kind), Ok((right, rv, fs2))) => {
                let first = slot_range(tree).0;
                let last = slot_range(right).1;
                let b = fs.slots.len() - 1;
                let c = fs2.slots.len() - 1;
                match operator_parts_of(
                    cx,
                    ctes,
                    outer,
                    kind,
                    j.operator,
                    first,
                    last,
                    visible,
                    rv,
                    fs2,
                ) {
                    Ok(parts) => {
                        lemma_more_subqueries(
                            cx,
                            ctes,
                            outer,
                            kind,
                            j.operator,
                            first,
                            last,
                            visible,
                            rv,
                            fs2,
                        );
                        if fits(fs2) {
                            lemma_fits(fs, fs2);
                            lemma_in_row(fs2);
                            lemma_good_same(tree, visible, fs, fs2, a, b);
                            lemma_seen_wider(visible, fs2.infos, a, b, a, c);
                            lemma_seen_wider(rv, fs2.infos, b + 1, c, a, c);
                            lemma_operator(
                                cx,
                                ctes,
                                outer,
                                kind,
                                j.operator,
                                first,
                                last,
                                visible,
                                rv,
                                fs2,
                            );
                        }
                        lemma_joined(parts, tree, right, visible, rv, fs2, a, b, c);
                        match joined(parts, tree, right, visible, rv, fs2) {
                            Ok((_, _, fs3)) => lemma_grown_twice(fs, fs2, fs3),
                            Err(_) => {},
                        }
                    },
                    Err(_) => {},
                }
            },
            _ => {},
        }
    }
}

/// The constraint of a join operator.
spec fn constraint_in(op: JoinOperator) -> JoinConstraint {
    match op {
        JoinOperator::Inner(c) => c,
        JoinOperator::Left(c) => c,
        JoinOperator::Right(c) => c,
        JoinOperator::Full(c) => c,
        JoinOperator::Cross(c) => c,
        _ => JoinConstraint::Unspecified,
    }
}

proof fn lemma_operator(
    cx: Env<'_>,
    ctes: Seq<crate::names::CteEntryView>,
    outer: Seq<InfoView>,
    kind: JoinKind,
    op: JoinOperator,
    first: usize,
    last: usize,
    l: Seq<VisibleView>,
    r: Seq<VisibleView>,
    fs: FromView,
)
    requires
        join_kind(op) is Ok,
        first <= last < fs.infos.len(),
        in_row(fs.infos),
        l.len() <= usize::MAX,
        r.len() <= usize::MAX,
        all_seen(l, fs.infos, first as int, last as int),
        all_seen(r, fs.infos, first as int, last as int),
    ensures
        sound_parts(
            operator_parts_of(cx, ctes, outer, kind, op, first, last, l, r, fs),
            fs,
            first as int,
            last as int,
        ),
{
    let c = constraint_in(op);
    assert(operator_parts_of(cx, ctes, outer, kind, op, first, last, l, r, fs) == constraint_of(
        cx,
        ctes,
        outer,
        kind,
        c,
        first,
        last,
        l,
        r,
        fs,
    ));
    lemma_constraint(cx, ctes, outer, kind, c, first, last, l, r, fs);
}

/// The condition of a join only collects more subqueries.
proof fn lemma_more_subqueries(
    cx: Env<'_>,
    ctes: Seq<crate::names::CteEntryView>,
    outer: Seq<InfoView>,
    kind: JoinKind,
    op: JoinOperator,
    first: usize,
    last: usize,
    l: Seq<VisibleView>,
    r: Seq<VisibleView>,
    fs: FromView,
)
    requires
        join_kind(op) is Ok,
    ensures
        operator_parts_of(cx, ctes, outer, kind, op, first, last, l, r, fs) matches Ok(p)
            ==> fs.subqueries.len() <= p.subqueries.len(),
{
    let c = constraint_in(op);
    assert(operator_parts_of(cx, ctes, outer, kind, op, first, last, l, r, fs) == constraint_of(
        cx,
        ctes,
        outer,
        kind,
        c,
        first,
        last,
        l,
        r,
        fs,
    ));
    match c {
        JoinConstraint::On(e) => {
            bound_expressions_are_resolved(
                cx,
                on_scope(ctes, outer, fs.infos, first, last),
                StateView {
                    aggregates: Seq::empty(),
                    subqueries: fs.subqueries,
                    windows: Seq::empty(),
                },
                top_mode(),
                e,
            );
        },
        _ => {},
    }
}

proof fn lemma_joins(
    cx: Env<'_>,
    ctes: Seq<crate::names::CteEntryView>,
    outer: Seq<InfoView>,
    joins: Vec<Join>,
    i: int,
    tree: TreeView,
    visible: Seq<VisibleView>,
    fs: FromView,
    a: int,
)
    requires
        aligned(fs),
        fits(fs) ==> in_line(fs) && visible.len() <= usize::MAX && good(
            tree,
            visible,
            fs,
            a,
            fs.slots.len() - 1,
        ),
    ensures
        sound_from(joins_of(cx, ctes, outer, joins, i, tree, visible, fs), fs, a),
    decreases joins, 0int, joins@.len() - i,
{
    if 0 <= i < joins@.len() {
        lemma_join(cx, ctes, outer, joins@[i], tree, visible, fs, a);
        match join_of(cx, ctes, outer, joins@[i], tree, visible, fs) {
            Ok((tree2, visible2, fs2)) => {
                lemma_joins(cx, ctes, outer, joins, i + 1, tree2, visible2, fs2, a);
                match joins_of(cx, ctes, outer, joins, i + 1, tree2, visible2, fs2) {
                    Ok((_, _, fs3)) => lemma_grown_twice(fs, fs2, fs3),
                    Err(_) => {},
                }
            },
            Err(_) => {},
        }
    }
}

/// What is known of what stands before a FROM item.
spec fn sound_front(tree: Option<TreeView>, visible: Seq<VisibleView>, fs: FromView) -> bool {
    &&& aligned(fs)
    &&& tree is None ==> fs.slots.len() == 0 && visible.len() == 0
    &&& fits(fs) ==> {
        &&& in_line(fs)
        &&& visible.len() <= usize::MAX
        &&& tree matches Some(t) ==> good(t, visible, fs, 0, fs.slots.len() - 1)
    }
}

/// A FROM item crossed with what stands before it.
proof fn lemma_crossed(
    tree: Option<TreeView>,
    visible: Seq<VisibleView>,
    fs: FromView,
    t: TreeView,
    v: Seq<VisibleView>,
    fs2: FromView,
)
    requires
        sound_front(tree, visible, fs),
        sound_tree(Ok((t, v, fs2)), fs),
    ensures
        ({
            let (t3, v3, fs3) = crossed(tree, visible, t, v, fs2);
            &&& grown(fs, fs3)
            &&& sound_front(Some(t3), v3, fs3)
        }),
{
    let (t3, v3, fs3) = crossed(tree, visible, t, v, fs2);
    match tree {
        None => {},
        Some(left) => {
            let b = fs.slots.len() - 1;
            let c = fs2.slots.len() - 1;
            assert(grown(fs2, fs3));
            lemma_grown_twice(fs, fs2, fs3);
            if fits(fs3) {
                lemma_fits(fs2, fs3);
                lemma_fits(fs, fs3);
                assert(fs3.schemas[fs2.schemas.len() as int] == v3);
                lemma_good_same(left, visible, fs, fs3, 0, b);
                lemma_good_same(t, v, fs2, fs3, b + 1, c);
                lemma_run_add(0, b, c);
                lemma_seen_wider(visible, fs3.infos, 0, b, 0, c);
                lemma_seen_wider(v, fs3.infos, b + 1, c, 0, c);
                assert forall|i: int| 0 <= i < v3.len() implies seen(
                    #[trigger] v3[i],
                    fs3.infos,
                    0,
                    c,
                ) by {
                    if i < visible.len() {
                        assert(v3[i] == visible[i]);
                    } else {
                        assert(v3[i] == v[i - visible.len()]);
                    }
                }
            }
        },
    }
}

proof fn lemma_from(
    cx: Env<'_>,
    ctes: Seq<crate::names::CteEntryView>,
    outer: Seq<InfoView>,
    from: Vec<TableWithJoins>,
    i: int,
    tree: Option<TreeView>,
    visible: Seq<VisibleView>,
    fs: FromView,
)
    requires
        sound_front(tree, visible, fs),
    ensures
        from_of(cx, ctes, outer, from, i, tree, visible, fs) matches Ok((t, v, fs2)) ==> grown(
            fs,
            fs2,
        ) && sound_front(t, v, fs2),
    decreases from@.len() - i,
{
    if 0 <= i < from@.len() {
        lemma_tables(cx, ctes, outer, from@[i], fs);
        match tables_of(cx, ctes, outer, from@[i], fs) {
            Ok((t, v, fs2)) => {
                lemma_crossed(tree, visible, fs, t, v, fs2);
                let (t3, v3, fs3) = crossed(tree, visible, t, v, fs2);
                lemma_from(cx, ctes, outer, from, i + 1, Some(t3), v3, fs3);
                match from_of(cx, ctes, outer, from, i + 1, Some(t3), v3, fs3) {
                    Ok((_, _, fs4)) => lemma_grown_twice(fs, fs3, fs4),
                    Err(_) => {},
                }
            },
            Err(_) => {},
        }
    }
}

/// The slots of a run have the widths that lie between its ends.
proof fn lemma_width_run(fs: FromView, a: int, b: int, k: int)
    requires
        fits(fs),
        in_line(fs),
        0 <= a,
        0 <= k <= b - a + 1,
        b < fs.infos.len(),
    ensures
        width_before(fs.slots, run(a, b), k) == Ok::<usize, ErrorView>(
            (start(fs.infos, a + k) - start(fs.infos, a)) as usize,
        ),
        start(fs.infos, a) <= start(fs.infos, a + k) <= usize::MAX,
    decreases k,
{
    lemma_start_grows(fs.infos, a, a + k);
    lemma_start_grows(fs.infos, a + k, fs.infos.len() as int);
    if k > 0 {
        lemma_width_run(fs, a, b, k - 1);
        let slot = a + k - 1;
        assert(run(a, b)[k - 1] == slot as usize);
        assert(fs.infos[slot].columns.len() == fs.slots[slot].columns().len());
        assert(start(fs.infos, a + k) == start(fs.infos, slot) + fs.infos[slot].columns.len());
    }
}

proof fn lemma_place_run(a: int, b: int, s: usize)
    requires
        0 <= a <= s <= b <= usize::MAX,
    ensures
        place_of(run(a, b), s, 0) == Some(s - a),
{
    let layout = run(a, b);
    lemma_place_of(layout, s, 0);
    assert(layout[s - a] == s);
    match place_of(layout, s, 0) {
        Some(k) => {
            assert(layout[k] == (a + k) as usize);
        },
        None => {},
    }
}

/// The offsets that a run of slots gives columns.
proof fn lemma_run_offset(fs: FromView, a: int, b: int, s: usize, c: usize, o: usize)
    requires
        fits(fs),
        in_line(fs),
        0 <= a <= s <= b < fs.infos.len(),
        c < fs.infos[s as int].columns.len(),
        o + fs.infos[a].offset == fs.infos[s as int].offset + c,
    ensures
        remapped_offset(s, c, fs.slots, run(a, b)) == Ok::<usize, ErrorView>(o),
{
    let k = s - a;
    lemma_place_run(a, b, s);
    lemma_width_run(fs, a, b, k);
    assert(fs.infos[s as int].offset == start(fs.infos, s as int));
    assert(fs.infos[a].offset == start(fs.infos, a));
    assert(fs.infos[s as int].columns.len() == fs.slots[s as int].columns().len());
    let w = (start(fs.infos, a + k) - start(fs.infos, a)) as usize;
    assert(width_before(fs.slots, run(a, b), k) == Ok::<usize, ErrorView>(w));
    assert(w + c == o);
}

/// Whether no condition of a tree runs a subquery on the row.
pub open spec fn plain_conditions(t: TreeView) -> bool
    decreases t,
{
    match t {
        TreeView::Leaf(_) => true,
        TreeView::Join { left, right, on, .. } => plain_conditions(*left) && plain_conditions(
            *right,
        ) && (on matches Some(e) ==> !asks_for_row(e)),
    }
}

proof fn lemma_laid_out(t: TreeView, fs: FromView)
    requires
        fits(fs),
        in_line(fs),
        joined_soundly(t, fs.infos, from_room(fs)),
        plain_conditions(t),
    ensures
        laid_out(fs.slots, t),
    decreases t,
{
    match t {
        TreeView::Leaf(_) => {},
        TreeView::Join { kind, left, right, on } => {
            lemma_laid_out(*left, fs);
            lemma_laid_out(*right, fs);
            match on {
                Some(e) => {
                    let a = slot_range(t).0 as int;
                    let b = slot_range(t).1 as int;
                    let p = local(fs.infos, a, b);
                    assert forall|s: usize, c: usize, o: usize| #[trigger]
                        p(s, c, o) implies remapped_offset(s, c, fs.slots, run(a, b)) == Ok::<
                        usize,
                        ErrorView,
                    >(o) by {
                        lemma_run_offset(fs, a, b, s, c, o);
                    }
                    placed_expressions_stay(e, p, from_room(fs), fs.slots, run(a, b));
                    lemma_terms_no_bare_number(e);
                },
                None => {},
            }
        },
    }
}

/// What binding a FROM clause from the beginning gives.
pub proof fn lemma_bound_from(
    cx: Env<'_>,
    ctes: Seq<crate::names::CteEntryView>,
    outer: Seq<InfoView>,
    from: Vec<TableWithJoins>,
    subqueries: Seq<QueryView>,
)
    ensures
        from_of(
            cx,
            ctes,
            outer,
            from,
            0,
            None,
            Seq::empty(),
            FromView {
                slots: Seq::empty(),
                infos: Seq::empty(),
                subqueries,
                schemas: Seq::empty(),
            },
        ) matches Ok((t, v, fs)) ==> {
            &&& fs.infos.len() == fs.slots.len()
            &&& forall|i: int|
                0 <= i < fs.infos.len() ==> (#[trigger] fs.infos[i]).columns.len()
                    == fs.slots[i].columns().len()
            &&& fits(fs) ==> {
                &&& forall|i: int|
                    0 <= i < fs.infos.len() ==> (#[trigger] fs.infos[i]).offset == start(
                        fs.infos,
                        i,
                    )
                &&& sound_visible(v, fs.infos)
                &&& t matches Some(x) ==> {
                    &&& leaf_order(x) == logical_layout(fs.slots.len())
                    &&& plain_conditions(x) ==> laid_out(fs.slots, x)
                }
                &&& forall|s: usize, c: usize, o: usize| #[trigger]
                    columns_of(fs.infos)(s, c, o) ==> remapped_offset(
                        s,
                        c,
                        fs.slots,
                        logical_layout(fs.slots.len()),
                    ) == Ok::<usize, ErrorView>(o) && o == start(fs.infos, s as int) + c
            }
        },
{
    let empty = FromView {
        slots: Seq::empty(),
        infos: Seq::empty(),
        subqueries,
        schemas: Seq::empty(),
    };
    lemma_from(cx, ctes, outer, from, 0, None, Seq::empty(), empty);
    match from_of(cx, ctes, outer, from, 0, None, Seq::empty(), empty) {
        Ok((t, v, fs)) => {
            if fits(fs) {
                let n = fs.slots.len() as int;
                lemma_in_row(fs);
                assert(run(0, n - 1) =~= logical_layout(fs.slots.len()));
                match t {
                    Some(x) => {
                        if plain_conditions(x) {
                            lemma_laid_out(x, fs);
                        }
                    },
                    None => {},
                }
                assert forall|i: int| 0 <= i < v.len() implies refers(
                    visible_expr(#[trigger] v[i], fs.infos),
                    columns_of(fs.infos),
                    no_room(),
                ) by {
                    let p = between(fs.infos, 0, n - 1);
                    lemma_seen_expr(v[i], fs.infos, 0, n - 1);
                    lemma_refers_more(
                        visible_expr(v[i], fs.infos),
                        p,
                        columns_of(fs.infos),
                        no_room(),
                        no_room(),
                    );
                }
                assert forall|s: usize, c: usize, o: usize| #[trigger]
                    columns_of(fs.infos)(s, c, o) implies remapped_offset(
                    s,
                    c,
                    fs.slots,
                    logical_layout(fs.slots.len()),
                ) == Ok::<usize, ErrorView>(o) && o == start(fs.infos, s as int) + c by {
                    lemma_start_grows(fs.infos, s as int, fs.infos.len() as int);
                    assert(fs.infos[s as int].offset == start(fs.infos, s as int));
                    assert(fs.infos[0].offset == start(fs.infos, 0));
                    lemma_run_offset(fs, 0, n - 1, s, c, o);
                }
            }
        },
        Err(_) => {},
    }
}

} // verus!
