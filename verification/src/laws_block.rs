//! Laws of select blocks: what binding makes of a select block, and what optimization keeps of it.

use crate::expr::ExprView;
use crate::laws_from::{fits, lemma_bound_from, plain_conditions, start};
use crate::laws_resolve::{
    bound_expressions_are_resolved, columns_of, countable_state, grows, list_refers,
    lemma_refers_more, no_room, refers, refers_in, room_of, sound_scope, sound_visible, Room,
};
use crate::laws_rows::{optimization_keeps_the_rows, well_bound};
use crate::materialize::logical_layout;
use crate::meaning::World;
use crate::model_group::projection_columns;
use crate::model_query::{
    condition_of, from_of, group_items_of, group_of, having_scope, item_bound_of, item_of,
    items_of, list_scope, row_scope, select_check, select_clauses_of, select_of, top_mode,
    FromView,
};
use crate::names::{CteEntryView, InfoView};
use crate::optimize::optimized_select;
use crate::query::{ProjectionView, QueryView, SelectView, SlotView, TreeView, VisibleView};
use crate::scope::{Env, ScopeView, StateView};
use crate::sql::{GroupBy, Select, SelectItem, SqlExpr};
use crate::stats::StatsLookup;
use crate::typing::{integer_literal, ordinal_position};
use crate::value::ErrorView;
use vstd::prelude::*;

verus! {

/// How many columns the first `n` slots of a select block have.
pub open spec fn columns_before(slots: Seq<SlotView>, n: int) -> nat
    decreases n,
{
    if n <= 0 || n > slots.len() {
        0
    } else {
        columns_before(slots, n - 1) + slots[n - 1].columns().len()
    }
}

/// The columns of a select block, each with its slot and its offset in the joined row.
pub open spec fn block_columns(slots: Seq<SlotView>) -> spec_fn(usize, usize, usize) -> bool {
    |s: usize, c: usize, o: usize|
        s < slots.len() && c < slots[s as int].columns().len() && o == columns_before(
            slots,
            s as int,
        ) + c
}

/// The results that a select block has for references by index.
pub open spec fn block_room(s: SelectView, subqueries: Seq<QueryView>) -> Room {
    Room {
        aggregates: s.aggregates.len(),
        windows: s.windows.len(),
        subqueries: subqueries.len(),
        outputs: s.projection.len(),
    }
}

/// Whether the parts of a select block can be counted.
pub open spec fn countable_block(s: SelectView, subqueries: Seq<QueryView>) -> bool {
    &&& s.slots.len() <= usize::MAX
    &&& columns_before(s.slots, s.slots.len() as int) <= usize::MAX
    &&& forall|i: int|
        0 <= i < s.visible_schemas.len() ==> (#[trigger] s.visible_schemas[i]).len() <= usize::MAX
    &&& s.aggregates.len() <= usize::MAX
    &&& s.windows.len() <= usize::MAX
    &&& s.projection.len() <= usize::MAX
    &&& subqueries.len() <= usize::MAX
}

/// Whether the clauses of a select block refer to its columns by their offsets in the joined row,
/// and to results that it has.
pub open spec fn resolved_block(s: SelectView, subqueries: Seq<QueryView>) -> bool {
    let p = block_columns(s.slots);
    let n = block_room(s, subqueries);
    &&& s.filter matches Some(f) ==> refers(f, p, n)
    &&& list_refers(s.group_by, p, n)
    &&& s.having matches Some(h) ==> refers(h, p, n)
    &&& forall|i: int|
        0 <= i < s.projection.len() ==> refers((#[trigger] s.projection[i]).expr, p, n)
}

/// Whether the expressions of a select list refer soundly.
spec fn items_refer(sc: ScopeView, st: StateView, list: Seq<ProjectionView>) -> bool {
    forall|i: int| 0 <= i < list.len() ==> refers_in(sc, st, (#[trigger] list[i]).expr)
}

proof fn lemma_condition(
    cx: Env<'_>,
    sc: ScopeView,
    st: StateView,
    e: Option<SqlExpr>,
    clause: Seq<char>,
)
    ensures
        condition_of(cx, sc, st, e, clause) matches Ok((b, st2)) ==> {
            &&& grows(sc, st, st2)
            &&& sound_scope(sc) && countable_state(st2) ==> (b matches Some(x) ==> refers_in(
                sc,
                st2,
                x,
            ))
        },
{
    match e {
        Some(x) => bound_expressions_are_resolved(cx, sc, st, top_mode(), x),
        None => {},
    }
}

proof fn lemma_item_bound(cx: Env<'_>, sc: ScopeView, st: StateView, item: SelectItem, k: int)
    ensures
        item_bound_of(cx, sc, st, item, k) matches Ok((b, st2)) ==> {
            &&& grows(sc, st, st2)
            &&& sound_scope(sc) && countable_state(st2) ==> refers_in(sc, st2, b)
        },
{
    match item {
        SelectItem::UnnamedExpr(e) => bound_expressions_are_resolved(cx, sc, st, top_mode(), e),
        SelectItem::ExprWithAlias { expr, .. } => bound_expressions_are_resolved(
            cx,
            sc,
            st,
            top_mode(),
            expr,
        ),
        _ => {},
    }
}

proof fn lemma_list_more(sc: ScopeView, a: StateView, b: StateView, list: Seq<ExprView>)
    requires
        list_refers(list, columns_of(sc.slots), room_of(sc, a)),
        grows(sc, a, b),
    ensures
        list_refers(list, columns_of(sc.slots), room_of(sc, b)),
{
    assert forall|i: int| 0 <= i < list.len() implies refers(
        #[trigger] list[i],
        columns_of(sc.slots),
        room_of(sc, b),
    ) by {
        lemma_refers_more(
            list[i],
            columns_of(sc.slots),
            columns_of(sc.slots),
            room_of(sc, a),
            room_of(sc, b),
        );
    }
}

proof fn lemma_group_items(
    cx: Env<'_>,
    sc: ScopeView,
    st: StateView,
    s: Select,
    i: int,
    acc: Seq<ExprView>,
)
    requires
        s.group_by is Expressions,
        sound_scope(sc) && countable_state(st) ==> list_refers(
            acc,
            columns_of(sc.slots),
            room_of(sc, st),
        ),
    ensures
        group_items_of(cx, sc, st, s, i, acc) matches Ok((list, st2)) ==> {
            &&& grows(sc, st, st2)
            &&& sound_scope(sc) && countable_state(st2) ==> list_refers(
                list,
                columns_of(sc.slots),
                room_of(sc, st2),
            )
        },
    decreases crate::model_query::group_exprs(s.group_by)@.len() - i,
{
    match s.group_by {
        GroupBy::All => {},
        GroupBy::Expressions { exprs, .. } => {
            if 0 <= i < exprs@.len() {
                let bound = match integer_literal(exprs@[i]) {
                    Some(d) => match ordinal_position(d, s.projection@.len() as int) {
                        Some(k) => item_bound_of(cx, sc, st, s.projection@[k], k + 1),
                        None => Err(ErrorView::Internal(Seq::empty())),
                    },
                    None => crate::model_expr::bind_of(cx, sc, st, top_mode(), exprs@[i]),
                };
                match integer_literal(exprs@[i]) {
                    Some(d) => match ordinal_position(d, s.projection@.len() as int) {
                        Some(k) => lemma_item_bound(cx, sc, st, s.projection@[k], k + 1),
                        None => {},
                    },
                    None => bound_expressions_are_resolved(cx, sc, st, top_mode(), exprs@[i]),
                }
                match bound {
                    Ok((b, st2)) => {
                        let more = acc.push(b);
                        if sound_scope(sc) && countable_state(st2) {
                            lemma_list_more(sc, st, st2, acc);
                            assert forall|k: int| 0 <= k < more.len() implies refers(
                                #[trigger] more[k],
                                columns_of(sc.slots),
                                room_of(sc, st2),
                            ) by {
                                if k < acc.len() {
                                    assert(more[k] == acc[k]);
                                } else {
                                    assert(refers_in(sc, st2, more[k]));
                                }
                            }
                        }
                        lemma_group_items(cx, sc, st2, s, i + 1, more);
                    },
                    Err(_) => {},
                }
            }
        },
    }
}

proof fn lemma_group(cx: Env<'_>, sc: ScopeView, st: StateView, s: Select)
    ensures
        group_of(cx, sc, st, s) matches Ok((list, st2)) ==> {
            &&& grows(sc, st, st2)
            &&& sound_scope(sc) && countable_state(st2) ==> list_refers(
                list,
                columns_of(sc.slots),
                room_of(sc, st2),
            )
        },
{
    if s.group_by is Expressions {
        lemma_group_items(cx, sc, st, s, 0, Seq::empty());
    }
}

proof fn lemma_items_more(sc: ScopeView, a: StateView, b: StateView, list: Seq<ProjectionView>)
    requires
        items_refer(sc, a, list),
        grows(sc, a, b),
    ensures
        items_refer(sc, b, list),
{
    assert forall|i: int| 0 <= i < list.len() implies refers_in(sc, b, (#[trigger] list[i]).expr) by {
        lemma_refers_more(
            list[i].expr,
            columns_of(sc.slots),
            columns_of(sc.slots),
            room_of(sc, a),
            room_of(sc, b),
        );
    }
}

proof fn lemma_item(
    cx: Env<'_>,
    sc: ScopeView,
    st: StateView,
    item: SelectItem,
    visible: Seq<VisibleView>,
)
    requires
        sc.visible == Some(visible),
    ensures
        item_of(cx, sc, st, item, visible) matches Ok((list, st2)) ==> {
            &&& grows(sc, st, st2)
            &&& sound_scope(sc) && countable_state(st2) ==> items_refer(sc, st2, list)
        },
{
    match item {
        SelectItem::UnnamedExpr(e) => bound_expressions_are_resolved(cx, sc, st, top_mode(), e),
        SelectItem::ExprWithAlias { expr, .. } => bound_expressions_are_resolved(
            cx,
            sc,
            st,
            top_mode(),
            expr,
        ),
        SelectItem::Wildcard { .. } => {
            if sound_scope(sc) {
                let list = crate::model_query::star_items(visible, sc.slots);
                assert forall|i: int| 0 <= i < list.len() implies refers_in(
                    sc,
                    st,
                    (#[trigger] list[i]).expr,
                ) by {
                    let x = visible[i];
                    lemma_refers_more(
                        crate::names::visible_expr(x, sc.slots),
                        columns_of(sc.slots),
                        columns_of(sc.slots),
                        no_room(),
                        room_of(sc, st),
                    );
                }
            }
        },
        SelectItem::QualifiedWildcard(n) => {
            match crate::model_query::wildcard_slot(n, sc.slots) {
                Ok(slot) => {
                    if sound_scope(sc) {
                        let list = crate::model_query::slot_items(sc.slots, slot);
                        assert forall|i: int| 0 <= i < list.len() implies refers_in(
                            sc,
                            st,
                            (#[trigger] list[i]).expr,
                        ) by {
                            crate::laws_resolve::lemma_column_ref(sc, st, slot, i);
                        }
                    }
                },
                Err(_) => {},
            }
        },
        _ => {},
    }
}

proof fn lemma_items(
    cx: Env<'_>,
    sc: ScopeView,
    st: StateView,
    items: Vec<SelectItem>,
    visible: Seq<VisibleView>,
    i: int,
    acc: Seq<ProjectionView>,
)
    requires
        sc.visible == Some(visible),
        sound_scope(sc) && countable_state(st) ==> items_refer(sc, st, acc),
    ensures
        items_of(cx, sc, st, items, visible, i, acc) matches Ok((list, st2)) ==> {
            &&& grows(sc, st, st2)
            &&& sound_scope(sc) && countable_state(st2) ==> items_refer(sc, st2, list)
        },
    decreases items@.len() - i,
{
    if 0 <= i < items@.len() {
        lemma_item(cx, sc, st, items@[i], visible);
        match item_of(cx, sc, st, items@[i], visible) {
            Ok((more, st2)) => {
                let all = acc + more;
                if sound_scope(sc) && countable_state(st2) {
                    lemma_items_more(sc, st, st2, acc);
                    assert forall|k: int| 0 <= k < all.len() implies refers_in(
                        sc,
                        st2,
                        (#[trigger] all[k]).expr,
                    ) by {
                        if k < acc.len() {
                            assert(all[k] == acc[k]);
                        } else {
                            assert(all[k] == more[k - acc.len()]);
                        }
                    }
                }
                lemma_items(cx, sc, st2, items, visible, i + 1, all);
            },
            Err(_) => {},
        }
    }
}

/// The widths of the slots are those that names see.
proof fn lemma_columns_before(slots: Seq<SlotView>, infos: Seq<InfoView>, n: int)
    requires
        infos.len() == slots.len(),
        forall|i: int|
            0 <= i < infos.len() ==> (#[trigger] infos[i]).columns.len()
                == slots[i].columns().len(),
        0 <= n <= slots.len(),
    ensures
        columns_before(slots, n) == start(infos, n),
    decreases n,
{
    if n > 0 {
        lemma_columns_before(slots, infos, n - 1);
        assert(infos[n - 1].columns.len() == slots[n - 1].columns().len());
    }
}

/// The slots of a scope that can be counted make it sound.
proof fn lemma_sound_scope(sc: ScopeView, infos: Seq<InfoView>, v: Seq<VisibleView>)
    requires
        sc.slots == infos,
        infos.len() <= usize::MAX,
        start(infos, infos.len() as int) <= usize::MAX,
        sc.visible == Some(v),
        sound_visible(v, infos),
        sc.output matches Some(o) ==> o.len() <= usize::MAX,
    ensures
        sound_scope(sc),
{
    assert forall|i: int| 0 <= i < infos.len() implies (#[trigger] infos[i]).columns.len()
        <= usize::MAX by {
        lemma_width_within(infos, i, infos.len() as int);
    }
}

proof fn lemma_width_within(infos: Seq<InfoView>, i: int, n: int)
    requires
        0 <= i < n <= infos.len(),
    ensures
        infos[i].columns.len() <= start(infos, n),
    decreases n,
{
    if i < n - 1 {
        lemma_width_within(infos, i, n - 1);
    }
}

/// Binding resolves a select block: its clauses refer to every column by the offset it has in the
/// joined row, and to aggregates, window functions, subqueries and output columns that there are.
/// Where no join condition runs a subquery on the row, it lays out its joins so that their
/// conditions find their columns.
pub proof fn bound_blocks_are_resolved(
    cx: Env<'_>,
    ctes: Seq<CteEntryView>,
    outer: Seq<InfoView>,
    immediate: int,
    s: Select,
    subqueries: Seq<QueryView>,
)
    ensures
        select_of(cx, ctes, outer, immediate, s, subqueries) matches Ok((b, _, subs)) ==> {
            countable_block(b, subs) ==> resolved_block(b, subs) && (plain_conditions(b.join_tree)
                ==> well_bound(b))
        },
{
    let empty = FromView {
        slots: Seq::empty(),
        infos: Seq::empty(),
        subqueries,
        schemas: Seq::empty(),
    };
    match from_of(cx, ctes, outer, s.from, 0, None, Seq::empty(), empty) {
        Ok((tree, visible, fs)) => {
            lemma_bound_from(cx, ctes, outer, s.from, subqueries);
            match select_check(s) {
                Ok(distinct) => {
                    lemma_clauses(
                        cx,
                        ctes,
                        outer,
                        immediate,
                        s,
                        distinct,
                        tree,
                        visible,
                        fs,
                    );
                },
                Err(_) => {},
            }
        },
        Err(_) => {},
    }
}

/// What is known of a bound FROM clause.
spec fn sound_front(tree: Option<TreeView>, visible: Seq<VisibleView>, fs: FromView) -> bool {
    &&& fs.infos.len() == fs.slots.len()
    &&& forall|i: int|
        0 <= i < fs.infos.len() ==> (#[trigger] fs.infos[i]).columns.len()
            == fs.slots[i].columns().len()
    &&& fits(fs) ==> {
        &&& sound_visible(visible, fs.infos)
        &&& tree matches Some(x) ==> {
            &&& crate::atoms::leaf_order(x) == logical_layout(fs.slots.len())
            &&& plain_conditions(x) ==> crate::laws_rows::laid_out(fs.slots, x)
        }
        &&& forall|s: usize, c: usize, o: usize| #[trigger]
            columns_of(fs.infos)(s, c, o) ==> crate::materialize::remapped_offset(
                s,
                c,
                fs.slots,
                logical_layout(fs.slots.len()),
            ) == Ok::<usize, ErrorView>(o) && o == start(fs.infos, s as int) + c
    }
}

proof fn lemma_clauses(
    cx: Env<'_>,
    ctes: Seq<CteEntryView>,
    outer: Seq<InfoView>,
    immediate: int,
    s: Select,
    distinct: bool,
    tree: Option<TreeView>,
    visible: Seq<VisibleView>,
    fs: FromView,
)
    requires
        sound_front(tree, visible, fs),
    ensures
        select_clauses_of(cx, ctes, outer, immediate, s, distinct, tree, visible, fs) matches Ok(
            (b, _, subs),
        ) ==> {
            countable_block(b, subs) ==> resolved_block(b, subs) && (plain_conditions(b.join_tree)
                ==> well_bound(b))
        },
{
    let st0 = StateView {
        aggregates: Seq::empty(),
        subqueries: fs.subqueries,
        windows: Seq::empty(),
    };
    let where_scope = row_scope(fs.infos, ctes, outer, immediate, visible, "WHERE"@);
    let group_scope = row_scope(fs.infos, ctes, outer, immediate, visible, "GROUP BY"@);
    let items_scope = list_scope(fs.infos, ctes, outer, immediate, visible);
    lemma_condition(cx, where_scope, st0, s.selection, "WHERE"@);
    match condition_of(cx, where_scope, st0, s.selection, "WHERE"@) {
        Ok((filter, st1)) => {
            lemma_group(cx, group_scope, st1, s);
            match group_of(cx, group_scope, st1, s) {
                Ok((group_by, st2)) => {
                    lemma_items(cx, items_scope, st2, s.projection, visible, 0, Seq::empty());
                    match items_of(cx, items_scope, st2, s.projection, visible, 0, Seq::empty()) {
                        Ok((projection, st3)) => {
                            let last_scope = having_scope(
                                fs.infos,
                                ctes,
                                outer,
                                immediate,
                                visible,
                                projection_columns(projection),
                            );
                            lemma_condition(cx, last_scope, st3, s.having, "HAVING"@);
                            match condition_of(cx, last_scope, st3, s.having, "HAVING"@) {
                                Ok((having, st4)) => {
                                    let b = crate::model_query::select_block(
                                        fs,
                                        tree,
                                        filter,
                                        group_by,
                                        st4,
                                        having,
                                        projection,
                                        distinct,
                                    );
                                    if countable_block(b, st4.subqueries) {
                                        lemma_block(
                                            fs,
                                            tree,
                                            visible,
                                            b,
                                            where_scope,
                                            group_scope,
                                            items_scope,
                                            last_scope,
                                            st1,
                                            st2,
                                            st3,
                                            st4,
                                        );
                                    }
                                },
                                Err(_) => {},
                            }
                        },
                        Err(_) => {},
                    }
                },
                Err(_) => {},
            }
        },
        Err(_) => {},
    }
}

/// A block that was bound clause by clause is resolved.
proof fn lemma_block(
    fs: FromView,
    tree: Option<TreeView>,
    visible: Seq<VisibleView>,
    b: SelectView,
    where_scope: ScopeView,
    group_scope: ScopeView,
    items_scope: ScopeView,
    last_scope: ScopeView,
    st1: StateView,
    st2: StateView,
    st3: StateView,
    st4: StateView,
)
    requires
        sound_front(tree, visible, fs),
        countable_block(b, st4.subqueries),
        b.slots == fs.slots,
        b.visible_schemas == fs.schemas,
        b.aggregates == st4.aggregates,
        b.windows == st4.windows,
        b.join_tree == (match tree {
            Some(t) => t,
            None => TreeView::Leaf(0),
        }),
        fs.subqueries.len() <= st1.subqueries.len(),
        st1.subqueries.len() <= st2.subqueries.len() <= st3.subqueries.len(),
        st3.subqueries.len() <= st4.subqueries.len(),
        st1.aggregates.len() <= st2.aggregates.len() <= st3.aggregates.len(),
        st3.aggregates.len() <= st4.aggregates.len(),
        st1.windows.len() <= st2.windows.len() <= st3.windows.len(),
        st3.windows.len() <= st4.windows.len(),
        where_scope.slots == fs.infos && where_scope.visible == Some(visible)
            && where_scope.output is None,
        group_scope.slots == fs.infos && group_scope.visible == Some(visible)
            && group_scope.output is None,
        items_scope.slots == fs.infos && items_scope.visible == Some(visible)
            && items_scope.output is None,
        last_scope.slots == fs.infos && last_scope.visible == Some(visible),
        last_scope.output is Some && last_scope.output->0.len() == b.projection.len(),
        sound_scope(where_scope) && countable_state(st1) ==> (b.filter matches Some(x)
            ==> refers_in(where_scope, st1, x)),
        sound_scope(group_scope) && countable_state(st2) ==> list_refers(
            b.group_by,
            columns_of(fs.infos),
            room_of(group_scope, st2),
        ),
        sound_scope(items_scope) && countable_state(st3) ==> items_refer(
            items_scope,
            st3,
            b.projection,
        ),
        sound_scope(last_scope) && countable_state(st4) ==> (b.having matches Some(x)
            ==> refers_in(last_scope, st4, x)),
    ensures
        resolved_block(b, st4.subqueries),
        plain_conditions(b.join_tree) ==> well_bound(b),
{
    let n = fs.slots.len() as int;
    let infos = fs.infos;
    lemma_columns_before(fs.slots, infos, n);
    assert(fits(fs));
    lemma_sound_scope(where_scope, infos, visible);
    lemma_sound_scope(group_scope, infos, visible);
    lemma_sound_scope(items_scope, infos, visible);
    lemma_sound_scope(last_scope, infos, visible);
    let p = columns_of(infos);
    let q = block_columns(b.slots);
    let room = block_room(b, st4.subqueries);
    assert forall|x: usize, c: usize, o: usize| #[trigger] p(x, c, o) implies q(x, c, o) by {
        lemma_columns_before(fs.slots, infos, x as int);
        assert(infos[x as int].columns.len() == fs.slots[x as int].columns().len());
    }
    match b.filter {
        Some(f) => {
            lemma_refers_more(f, p, q, room_of(where_scope, st1), room);
            crate::laws_rebase::placed_expressions_stay(
                f,
                p,
                room_of(where_scope, st1),
                fs.slots,
                logical_layout(fs.slots.len()),
            );
        },
        None => {},
    }
    assert forall|i: int| 0 <= i < b.group_by.len() implies refers(
        #[trigger] b.group_by[i],
        q,
        room,
    ) by {
        lemma_refers_more(b.group_by[i], p, q, room_of(group_scope, st2), room);
    }
    assert forall|i: int| 0 <= i < b.projection.len() implies refers(
        (#[trigger] b.projection[i]).expr,
        q,
        room,
    ) by {
        assert(refers_in(items_scope, st3, b.projection[i].expr));
        lemma_refers_more(b.projection[i].expr, p, q, room_of(items_scope, st3), room);
    }
    match b.having {
        Some(h) => {
            lemma_refers_more(h, p, q, room_of(last_scope, st4), room);
        },
        None => {},
    }
    if plain_conditions(b.join_tree) {
        lemma_tree(fs, tree, visible, b);
    }
}

proof fn lemma_tree(
    fs: FromView,
    tree: Option<TreeView>,
    visible: Seq<VisibleView>,
    b: SelectView,
)
    requires
        sound_front(tree, visible, fs),
        fits(fs),
        b.slots == fs.slots,
        b.join_tree == (match tree {
            Some(t) => t,
            None => TreeView::Leaf(0),
        }),
        plain_conditions(b.join_tree),
        b.filter matches Some(f) ==> crate::materialize::remapped(
            f,
            b.slots,
            logical_layout(b.slots.len()),
        ) == Ok::<ExprView, ErrorView>(f),
    ensures
        well_bound(b),
{
    crate::laws_free::lemma_join_slots(b.join_tree);
    let order = crate::atoms::leaf_order(b.join_tree);
    match tree {
        Some(x) => {
            let layout = logical_layout(fs.slots.len());
            assert forall|i: int, j: int| 0 <= i < layout.len() && 0 <= j < layout.len() && i
                != j implies layout[i] != layout[j] by {
                assert(layout[i] == i as usize);
                assert(layout[j] == j as usize);
            }
            assert(order == layout);
        },
        None => {
            assert(order =~= seq![0usize]);
        },
    }
}

/// Optimization does not change the rows of a select block that binding made, whatever the tables
/// hold, where no join condition runs a subquery on the row.
pub proof fn bound_blocks_keep_their_rows(
    cx: Env<'_>,
    ctes: Seq<CteEntryView>,
    outer: Seq<InfoView>,
    immediate: int,
    s: Select,
    subqueries: Seq<QueryView>,
    stats: StatsLookup,
    w: World,
    a: spec_fn(usize) -> Option<int>,
)
    requires
        w.fits(),
    ensures
        select_of(cx, ctes, outer, immediate, s, subqueries) matches Ok((b, _, subs)) ==> {
            countable_block(b, subs) && plain_conditions(b.join_tree) && w.slots == b.slots ==> (
            optimized_select(b, stats).select matches Some(x) && w.selects(x, a) == w.selects(b, a))
        },
{
    bound_blocks_are_resolved(cx, ctes, outer, immediate, s, subqueries);
    match select_of(cx, ctes, outer, immediate, s, subqueries) {
        Ok((b, _, subs)) => {
            if countable_block(b, subs) && plain_conditions(b.join_tree) && w.slots == b.slots {
                optimization_keeps_the_rows(b, stats, w, a);
            }
        },
        Err(_) => {},
    }
}

} // verus!
