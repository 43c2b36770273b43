//! Laws of queries: what set operations, limits, orders, joins and conditions mean.

use crate::atoms::{leaf_order, slot_set};
use crate::meaning::{absent, agree, World};
use crate::model_expr::bind_of;
use crate::model_query::{
    body_of, branch_of, from_of, join_of, limits, order_items_of, order_key_of, query_of,
    recursive_cte_of, row_scope, select_of, top_mode, with_of, FromView, OrderScopeView,
};
use crate::names::{CteEntryView, InfoView};
use crate::query::{BodyView, OrderView, QueryView, SetOpKind, TreeView, VisibleView};
use crate::scope::{Env, StateView};
use crate::sql::{
    Distinct, Join, LimitClause, OrderByExpr, Query, Select, SetExpr, SetOperator, SqlExpr,
    SqlNode, SqlValue,
};
use crate::text::{all_digits, digit_text, digits_value, nat_text, unsigned_value};
use crate::value::{ErrorView, ValueView};
use vstd::multiset::Multiset;
use vstd::prelude::*;

verus! {

/// How often a set operation gives a row that its left input gives `a` times and its right input
/// `b` times.
pub open spec fn copies(kind: SetOpKind, a: nat, b: nat) -> nat {
    match kind {
        SetOpKind::UnionAll => a + b,
        SetOpKind::UnionDistinct => once(a + b > 0),
        SetOpKind::ExceptAll => if a > b {
            (a - b) as nat
        } else {
            0
        },
        SetOpKind::ExceptDistinct => once(a > 0 && b == 0),
        SetOpKind::IntersectAll => if a < b {
            a
        } else {
            b
        },
        SetOpKind::IntersectDistinct => once(a > 0 && b > 0),
    }
}

/// One where something holds, and else none.
pub open spec fn once(holds: bool) -> nat {
    if holds {
        1
    } else {
        0
    }
}

/// Whether the rows of a set operation are those that are written: `UNION` gives the rows of both
/// inputs, `EXCEPT` those of the left one without those of the right one, `INTERSECT` those that
/// both have. With `ALL` repeated rows count; without it every row comes once.
pub open spec fn combines(kind: SetOpKind, op: SetOperator, all: bool) -> bool {
    match op {
        SetOperator::Union => forall|a: nat, b: nat| #[trigger]
            copies(kind, a, b) == (if all {
                a + b
            } else {
                once(a > 0 || b > 0)
            }),
        SetOperator::Except => forall|a: nat, b: nat| #[trigger]
            copies(kind, a, b) == (if all {
                if a <= b {
                    0
                } else {
                    (a - b) as nat
                }
            } else {
                once(a > 0 && b == 0)
            }),
        SetOperator::Intersect => forall|a: nat, b: nat| #[trigger]
            copies(kind, a, b) == (if all {
                if a <= b {
                    a
                } else {
                    b
                }
            } else {
                once(a > 0 && b > 0)
            }),
        SetOperator::Other(_) => false,
    }
}

/// A bound set operation has the written inputs in the written order, and combines their rows as it
/// is written.
pub proof fn set_operations_combine_rows(
    cx: Env<'_>,
    ctes: Seq<CteEntryView>,
    outer: Seq<InfoView>,
    immediate: int,
    q: Query,
)
    requires
        *q.body is SetOperation,
        query_of(cx, ctes, outer, immediate, q) is Ok,
    ensures
        ({
            let local = with_of(cx, ctes, outer, immediate, q.with)->Ok_0;
            match (*q.body, query_of(cx, ctes, outer, immediate, q)->Ok_0.body) {
                (
                    SetExpr::SetOperation { op, quantifier, left, right },
                    BodyView::SetOp { kind, left: l, right: r },
                ) => {
                    &&& branch_of(cx, local, outer, immediate, *left) == Ok::<QueryView, ErrorView>(
                        *l,
                    )
                    &&& branch_of(cx, local, outer, immediate, *right) == Ok::<
                        QueryView,
                        ErrorView,
                    >(*r)
                    &&& combines(kind, op, quantifier is All)
                },
                _ => false,
            }
        }),
{
}

/// The rows of `UNION ALL` are the sum of those of its inputs, and without repeated rows every row
/// comes once at most.
pub proof fn all_keeps_repeated_rows(
    kind: SetOpKind,
    op: SetOperator,
    all: bool,
    left: Multiset<Seq<ValueView>>,
    right: Multiset<Seq<ValueView>>,
    rows: Multiset<Seq<ValueView>>,
)
    requires
        combines(kind, op, all),
        forall|row: Seq<ValueView>| #[trigger]
            rows.count(row) == copies(kind, left.count(row), right.count(row)),
    ensures
        op is Union && all ==> rows == left.add(right),
        op is Except && all ==> rows == left.sub(right),
        !all ==> forall|row: Seq<ValueView>| #[trigger] rows.count(row) <= 1,
{
    if op is Union && all {
        assert(rows =~= left.add(right));
    }
    if op is Except && all {
        assert(rows =~= left.sub(right));
    }
}

/// A query in brackets as the body of another stands for its own rows: nothing is added to them.
pub proof fn brackets_add_no_rows(
    cx: Env<'_>,
    ctes: Seq<CteEntryView>,
    outer: Seq<InfoView>,
    immediate: int,
    inner: Query,
    subqueries: Seq<QueryView>,
)
    requires
        body_of(
            cx,
            ctes,
            outer,
            immediate,
            SetExpr::Query(Box::new(inner)),
            subqueries,
        ) is Ok,
    ensures
        match body_of(
            cx,
            ctes,
            outer,
            immediate,
            SetExpr::Query(Box::new(inner)),
            subqueries,
        )->Ok_0.0 {
            BodyView::SetOp { kind, left, right } => {
                &&& query_of(cx, ctes, outer, immediate, inner) == Ok::<QueryView, ErrorView>(*left)
                &&& right.limit == Some(0u64)
                &&& forall|a: nat| #[trigger] copies(kind, a, 0) == a
            },
            _ => false,
        },
{
}

/// A recursive query drops repeated rows unless it is written with `ALL`; its first branch is the
/// anchor, and its second one the recursive term.
pub proof fn recursive_unions_drop_repeats(
    cx: Env<'_>,
    ctes: Seq<CteEntryView>,
    outer: Seq<InfoView>,
    immediate: int,
    cte: crate::sql::Cte,
)
    requires
        recursive_cte_of(cx, ctes, outer, immediate, cte) is Ok,
    ensures
        match (
            *cte.query.body,
            recursive_cte_of(cx, ctes, outer, immediate, cte)->Ok_0.body,
        ) {
            (
                SetExpr::SetOperation { op, quantifier, left, .. },
                BodyView::RecursiveQueryBody { anchor, distinct, .. },
            ) => {
                &&& op is Union
                &&& distinct == !(quantifier is All)
                &&& branch_of(cx, ctes, outer, immediate, *left) == Ok::<QueryView, ErrorView>(
                    *anchor,
                )
            },
            _ => false,
        },
{
}

/// `LIMIT offset, limit` is `LIMIT limit OFFSET offset`.
pub proof fn limits_are_written_either_way(limit: SqlExpr, offset: SqlExpr)
    ensures
        limits(Some(LimitClause::OffsetCommaLimit { offset, limit })) == limits(
            Some(
                LimitClause::LimitOffset {
                    limit: Some(limit),
                    offset: Some(offset),
                    limit_by: false,
                },
            ),
        ),
{
}

proof fn lemma_digit(d: int)
    requires
        0 <= d < 10,
    ensures
        digit_text(d).len() == 1,
        digit_text(d)[0] as int == '0' as int + d,
{
    reveal_strlit("0");
    reveal_strlit("1");
    reveal_strlit("2");
    reveal_strlit("3");
    reveal_strlit("4");
    reveal_strlit("5");
    reveal_strlit("6");
    reveal_strlit("7");
    reveal_strlit("8");
    reveal_strlit("9");
}

/// The numeral of a number denotes it.
pub proof fn numerals_denote_their_numbers(n: nat)
    ensures
        nat_text(n).len() > 0,
        all_digits(nat_text(n)),
        digits_value(nat_text(n)) == n,
        unsigned_value(nat_text(n)) == Some(n as int),
    decreases n,
{
    if n < 10 {
        lemma_digit(n as int);
        assert(nat_text(n).drop_last() =~= Seq::empty());
        assert(digits_value(nat_text(n).drop_last()) == 0);
    } else {
        numerals_denote_their_numbers(n / 10);
        lemma_digit((n % 10) as int);
        let front = nat_text(n / 10);
        let text = nat_text(n);
        assert(text =~= front.push(text.last()));
        assert(text.last() == digit_text((n % 10) as int)[0]);
        assert(text.drop_last() =~= front);
        assert forall|i: int| 0 <= i < text.len() implies '0' <= #[trigger] text[i] && text[i]
            <= '9' by {
            if i < front.len() {
                assert(text[i] == front[i]);
            }
        }
    }
    assert('0' <= nat_text(n)[0]);
}

/// Whether an expression is the numeral of a number.
pub open spec fn writes(e: SqlExpr, n: nat) -> bool {
    e.node matches SqlNode::Value(SqlValue::Number { digits, .. }) && digits@ == nat_text(n)
}

/// A query gives as many rows, and leaves out as many before them, as its numerals say; without
/// `LIMIT` it gives all of them.
pub proof fn limits_are_as_written(
    cx: Env<'_>,
    ctes: Seq<CteEntryView>,
    outer: Seq<InfoView>,
    immediate: int,
    q: Query,
    limit: u64,
    offset: u64,
)
    requires
        query_of(cx, ctes, outer, immediate, q) is Ok,
    ensures
        ({
            let b = query_of(cx, ctes, outer, immediate, q)->Ok_0;
            match q.limit {
                None => b.limit is None && b.offset is None,
                Some(LimitClause::LimitOffset { limit: l, offset: o, .. }) => {
                    &&& (l is None ==> b.limit is None)
                    &&& (l is Some && writes(l->0, limit as nat) ==> b.limit == Some(limit))
                    &&& (o is None ==> b.offset is None)
                    &&& (o is Some && writes(o->0, offset as nat) ==> b.offset == Some(offset))
                },
                Some(LimitClause::OffsetCommaLimit { offset: o, limit: l }) => {
                    &&& (writes(l, limit as nat) ==> b.limit == Some(limit))
                    &&& (writes(o, offset as nat) ==> b.offset == Some(offset))
                },
            }
        }),
{
    numerals_denote_their_numbers(limit as nat);
    numerals_denote_their_numbers(offset as nat);
    assert(limits(q.limit) is Ok);
}

/// Whether an order key sorts as it is written: from the lowest value up unless `DESC` is written,
/// and `NULL` where `NULLS FIRST` or `NULLS LAST` says, else as the lowest value.
pub open spec fn sorts_as_written(item: OrderView, o: OrderByExpr) -> bool {
    &&& item.asc == (o.asc != Some(false))
    &&& match o.nulls_first {
        Some(first) => item.nulls_first == first,
        None => item.nulls_first == item.asc,
    }
}

/// An order has a key for each written one, in the written order, and each sorts as it is written.
pub proof fn orders_sort_as_written(
    cx: Env<'_>,
    ctes: Seq<CteEntryView>,
    outer: Seq<InfoView>,
    list: Vec<OrderByExpr>,
    scope: OrderScopeView,
    output: Seq<crate::value::ColumnView>,
    i: int,
    acc: Seq<OrderView>,
    subqueries: Seq<QueryView>,
)
    requires
        0 <= i <= list@.len(),
        acc.len() == i,
        order_items_of(cx, ctes, outer, list, scope, output, i, acc, subqueries) is Ok,
    ensures
        ({
            let all = order_items_of(
                cx,
                ctes,
                outer,
                list,
                scope,
                output,
                i,
                acc,
                subqueries,
            )->Ok_0.0;
            &&& all.len() == list@.len()
            &&& forall|k: int| 0 <= k < i ==> all[k] == acc[k]
            &&& forall|k: int| i <= k < all.len() ==> sorts_as_written(#[trigger] all[k], list@[k])
            &&& i < list@.len() ==> (order_key_of(
                cx,
                ctes,
                outer,
                list@[i].expr,
                scope,
                output,
                subqueries,
            ) matches Ok((key, _)) && all[i].expr == key)
        }),
    decreases list@.len() - i,
{
    if i < list@.len() {
        let (key, more) = order_key_of(
            cx,
            ctes,
            outer,
            list@[i].expr,
            scope,
            output,
            subqueries,
        )->Ok_0;
        let item = crate::model_expr::order_item(list@[i], key);
        orders_sort_as_written(
            cx,
            ctes,
            outer,
            list,
            scope,
            output,
            i + 1,
            acc.push(item),
            more,
        );
        assert(acc.push(item)[i] == item);
    }
}

/// The order of a bound query is that of its `ORDER BY`, and a query without one has none.
pub proof fn queries_are_ordered_as_written(
    cx: Env<'_>,
    ctes: Seq<CteEntryView>,
    outer: Seq<InfoView>,
    immediate: int,
    q: Query,
)
    requires
        query_of(cx, ctes, outer, immediate, q) is Ok,
    ensures
        ({
            let order = query_of(cx, ctes, outer, immediate, q)->Ok_0.order_by;
            match q.order_by {
                None => order.len() == 0,
                Some(o) => order.len() == o.exprs@.len() && forall|k: int|
                    0 <= k < order.len() ==> sorts_as_written(#[trigger] order[k], o.exprs@[k]),
            }
        }),
{
    match q.order_by {
        None => {},
        Some(o) => {
            let local = with_of(cx, ctes, outer, immediate, q.with)->Ok_0;
            let (body, scope, subqueries) = body_of(
                cx,
                local,
                outer,
                immediate,
                *q.body,
                Seq::empty(),
            )->Ok_0;
            orders_sort_as_written(
                cx,
                local,
                outer,
                o.exprs,
                scope,
                crate::model_group::body_columns(body),
                0,
                Seq::empty(),
                subqueries,
            );
        },
    }
}

/// The from clause of a select block.
pub open spec fn from_clause(
    cx: Env<'_>,
    ctes: Seq<CteEntryView>,
    outer: Seq<InfoView>,
    s: Select,
    subqueries: Seq<QueryView>,
) -> Result<(Option<TreeView>, Seq<VisibleView>, FromView), ErrorView> {
    from_of(
        cx,
        ctes,
        outer,
        s.from,
        0,
        None,
        Seq::empty(),
        FromView { slots: Seq::empty(), infos: Seq::empty(), subqueries, schemas: Seq::empty() },
    )
}

/// A select block reads what its `FROM` says, and lets through the rows for which its `WHERE`, bound
/// over the columns of its `FROM`, is `TRUE`: without a `WHERE` it has no filter, and with one it has
/// that. Repeated rows are dropped where `DISTINCT` is written, and there alone.
pub proof fn select_blocks_filter_as_written(
    cx: Env<'_>,
    ctes: Seq<CteEntryView>,
    outer: Seq<InfoView>,
    immediate: int,
    s: Select,
    subqueries: Seq<QueryView>,
)
    requires
        select_of(cx, ctes, outer, immediate, s, subqueries) is Ok,
    ensures
        ({
            let block = select_of(cx, ctes, outer, immediate, s, subqueries)->Ok_0.0;
            let (tree, visible, fs) = from_clause(cx, ctes, outer, s, subqueries)->Ok_0;
            &&& from_clause(cx, ctes, outer, s, subqueries) is Ok
            &&& block.slots == fs.slots
            &&& (tree matches Some(t) ==> block.join_tree == t)
            &&& block.distinct == (s.distinct matches Some(d) && d is Distinct)
            &&& match s.selection {
                None => block.filter is None,
                Some(e) => block.filter is Some && (bind_of(
                    cx,
                    row_scope(fs.infos, ctes, outer, immediate, visible, "WHERE"@),
                    StateView {
                        aggregates: Seq::empty(),
                        subqueries: fs.subqueries,
                        windows: Seq::empty(),
                    },
                    top_mode(),
                    e,
                ) matches Ok((b, _)) && block.filter == Some(b)),
            }
            &&& (s.having is None <==> block.having is None)
        }),
{
}

proof fn lemma_given_rows_exist(w: World, t: TreeView, a: spec_fn(usize) -> Option<int>)
    requires
        w.gives(t, a),
    ensures
        !absent(slot_set(t), a),
    decreases t,
{
    match t {
        TreeView::Leaf(slot) => {
            assert(a(slot) is Some);
            lemma_leaf_slots(slot);
        },
        TreeView::Join { left, right, .. } => {
            lemma_join_slots(t);
            if w.gives(*left, a) {
                lemma_given_rows_exist(w, *left, a);
                let s = choose|s: usize| slot_set(*left).contains(s) && (#[trigger] a(s)) is Some;
                assert(slot_set(t).contains(s) && a(s) is Some);
            } else {
                lemma_given_rows_exist(w, *right, a);
                let s = choose|s: usize| slot_set(*right).contains(s) && (#[trigger] a(s)) is Some;
                assert(slot_set(t).contains(s) && a(s) is Some);
            }
        },
    }
}

proof fn lemma_leaf_slots(slot: usize)
    ensures
        slot_set(TreeView::Leaf(slot)).contains(slot),
{
    assert(leaf_order(TreeView::Leaf(slot))[0] == slot);
}

proof fn lemma_join_slots(t: TreeView)
    requires
        t is Join,
    ensures
        forall|s: usize|
            slot_set(*t->left).contains(s) || slot_set(*t->right).contains(s) ==> #[trigger] slot_set(
                t,
            ).contains(s),
{
    let l = leaf_order(*t->left);
    let r = leaf_order(*t->right);
    assert forall|s: usize|
        slot_set(*t->left).contains(s) || slot_set(*t->right).contains(s) implies #[trigger] slot_set(
        t,
    ).contains(s) by {
        if slot_set(*t->left).contains(s) {
            let k = choose|k: int| 0 <= k < l.len() && l[k] == s;
            assert((l + r)[k] == s);
        } else {
            let k = choose|k: int| 0 <= k < r.len() && r[k] == s;
            assert((l + r)[l.len() + k] == s);
        }
    }
}

/// Whether no row of the other input joins a row of the first one.
pub open spec fn alone(
    w: World,
    t: TreeView,
    mine: TreeView,
    other: TreeView,
    a: spec_fn(usize) -> Option<int>,
) -> bool {
    &&& w.gives(mine, a)
    &&& absent(slot_set(other), a)
    &&& forall|b: spec_fn(usize) -> Option<int>|
        agree(slot_set(mine), a, b) && w.gives(other, b) ==> !#[trigger] w.joins_on(
            t->on,
            leaf_order(t),
            b,
        )
}

/// A row of the left input that joins no row of the right one is kept by `LEFT` and `FULL` joins
/// alone, and one of the right input that joins no row of the left one by `RIGHT` and `FULL` joins
/// alone. The inputs of a join are what stands before it and what it joins.
pub proof fn joins_keep_rows_as_written(
    cx: Env<'_>,
    ctes: Seq<CteEntryView>,
    outer: Seq<InfoView>,
    j: Join,
    tree: TreeView,
    visible: Seq<VisibleView>,
    fs: FromView,
    w: World,
    a: spec_fn(usize) -> Option<int>,
)
    requires
        join_of(cx, ctes, outer, j, tree, visible, fs) is Ok,
    ensures
        ({
            let t = join_of(cx, ctes, outer, j, tree, visible, fs)->Ok_0.0;
            &&& t is Join
            &&& *t->left == tree
            &&& crate::model_query::factor_of(cx, ctes, outer, j.relation, fs) matches Ok((r, _, _))
                && *t->right == r
            &&& alone(w, t, tree, *t->right, a) ==> (w.gives(t, a) <==> (j.operator is Left
                || j.operator is Full))
            &&& alone(w, t, *t->right, tree, a) ==> (w.gives(t, a) <==> (j.operator is Right
                || j.operator is Full))
            &&& w.gives(tree, a) && w.gives(*t->right, a) && w.joins_on(t->on, leaf_order(t), a)
                ==> w.gives(t, a)
        }),
{
    let t = join_of(cx, ctes, outer, j, tree, visible, fs)->Ok_0.0;
    lemma_kept_kind(cx, ctes, outer, j, tree, visible, fs);
    if w.gives(*t->right, a) {
        lemma_given_rows_exist(w, *t->right, a);
    }
    if w.gives(tree, a) {
        lemma_given_rows_exist(w, tree, a);
    }
}

proof fn lemma_kept_kind(
    cx: Env<'_>,
    ctes: Seq<CteEntryView>,
    outer: Seq<InfoView>,
    j: Join,
    tree: TreeView,
    visible: Seq<VisibleView>,
    fs: FromView,
)
    requires
        join_of(cx, ctes, outer, j, tree, visible, fs) is Ok,
    ensures
        ({
            let t = join_of(cx, ctes, outer, j, tree, visible, fs)->Ok_0.0;
            &&& t is Join
            &&& *t->left == tree
            &&& crate::model_query::factor_of(cx, ctes, outer, j.relation, fs) matches Ok((r, _, _))
                && *t->right == r
            &&& (t->kind is Left) == (j.operator is Left)
            &&& (t->kind is Right) == (j.operator is Right)
            &&& (t->kind is Full) == (j.operator is Full)
        }),
{
}

} // verus!
