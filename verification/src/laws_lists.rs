//! Laws of select lists: what the output of a query is.

use crate::expr::{type_of, ExprView};
use crate::laws_queries::{from_clause, numerals_denote_their_numbers, writes};
use crate::model_expr::bind_of;
use crate::model_group::body_columns;
use crate::model_query::{
    having_scope, item_of, items_of, list_scope, order_key_of, select_of, top_mode, OrderScopeView,
};
use crate::names::{last_cte, CteEntryView, InfoView};
use crate::query::{BodyView, ProjectionView, QueryView, VisibleView};
use crate::scope::{Env, ScopeView, StateView};
use crate::sql::{Select, SelectItem, SqlExpr, SqlNode};
use crate::text::folds_to;
use crate::value::ColumnView;
use vstd::prelude::*;

verus! {

/// Whether an item of the select list is an expression, with or without an alias.
pub open spec fn is_expression(item: SelectItem) -> bool {
    item is UnnamedExpr || item is ExprWithAlias
}

/// Whether an output is that of a written expression: the expression, bound, under its alias, or
/// under the name of the column where it is one.
#[verifier::opaque]
pub open spec fn outputs(
    cx: Env<'_>,
    sc: ScopeView,
    st: StateView,
    item: SelectItem,
    x: ProjectionView,
) -> bool {
    match item {
        SelectItem::UnnamedExpr(e) => (bind_of(cx, sc, st, top_mode(), e) matches Ok((b, _))
            && x.expr == b) && match e.node {
            SqlNode::Identifier(s) => x.name == s@,
            SqlNode::CompoundIdentifier(parts) => parts@.len() > 0 ==> x.name == parts@.last()@,
            _ => x.name == e.text@,
        },
        SelectItem::ExprWithAlias { expr, alias } => bind_of(
            cx,
            sc,
            st,
            top_mode(),
            expr,
        ) matches Ok((b, _)) && x.expr == b && x.name == alias@,
        _ => false,
    }
}

proof fn lemma_output(
    cx: Env<'_>,
    sc: ScopeView,
    st: StateView,
    item: SelectItem,
    visible: Seq<VisibleView>,
)
    requires
        is_expression(item),
        item_of(cx, sc, st, item, visible) is Ok,
    ensures
        item_of(cx, sc, st, item, visible)->Ok_0.0.len() == 1,
        outputs(cx, sc, st, item, item_of(cx, sc, st, item, visible)->Ok_0.0[0]),
{
    reveal(outputs);
}

/// A select list of expressions has an output for each of them, in their order.
#[verifier::rlimit(60)]
pub proof fn outputs_are_those_written(
    cx: Env<'_>,
    sc: ScopeView,
    st: StateView,
    items: Vec<SelectItem>,
    visible: Seq<VisibleView>,
    i: int,
    acc: Seq<ProjectionView>,
)
    requires
        0 <= i <= items@.len(),
        acc.len() == i,
        forall|k: int| 0 <= k < items@.len() ==> is_expression(#[trigger] items@[k]),
        items_of(cx, sc, st, items, visible, i, acc) is Ok,
    ensures
        ({
            let all = items_of(cx, sc, st, items, visible, i, acc)->Ok_0.0;
            &&& all.len() == items@.len()
            &&& forall|k: int| 0 <= k < i ==> all[k] == acc[k]
            &&& i < items@.len() ==> outputs(cx, sc, st, items@[i], all[i])
        }),
    decreases items@.len() - i,
{
    if i < items@.len() {
        assert(is_expression(items@[i]));
        lemma_output(cx, sc, st, items@[i], visible);
        let (more, st2) = item_of(cx, sc, st, items@[i], visible)->Ok_0;
        outputs_are_those_written(cx, sc, st2, items, visible, i + 1, acc + more);
        assert((acc + more)[i] == more[0]);
        assert(outputs(cx, sc, st, items@[i], more[0]));
    }
}

/// The output columns of a select block have the names and types of its outputs, and can be `NULL`
/// where these can. Those of a set operation have the names of its left input and can be `NULL` where
/// those of either input can.
pub proof fn output_columns_are_those_of_the_outputs(b: BodyView, k: int)
    requires
        0 <= k < body_columns(b).len(),
    ensures
        match b {
            BodyView::Select(s) => {
                &&& body_columns(b).len() == s.projection.len()
                &&& body_columns(b)[k].name == s.projection[k].name
                &&& body_columns(b)[k].data_type == type_of(s.projection[k].expr).data_type
                &&& body_columns(b)[k].nullable == type_of(s.projection[k].expr).nullable
            },
            BodyView::SetOp { left, right, .. } => {
                let l = left.output_columns[k];
                let r = right.output_columns[k];
                &&& body_columns(b)[k].name == l.name
                &&& body_columns(b)[k].nullable == (l.nullable || r.nullable)
                &&& (l.data_type == r.data_type ==> body_columns(b)[k].data_type == l.data_type)
            },
            _ => true,
        },
{
}

/// `ORDER BY n` orders by the `n`-th output.
pub proof fn ordinals_count_outputs(
    cx: Env<'_>,
    ctes: Seq<CteEntryView>,
    outer: Seq<InfoView>,
    e: SqlExpr,
    scope: OrderScopeView,
    output: Seq<ColumnView>,
    subqueries: Seq<QueryView>,
    n: nat,
)
    requires
        writes(e, n),
        output.len() <= usize::MAX,
    ensures
        match order_key_of(cx, ctes, outer, e, scope, output, subqueries) {
            Ok((key, _)) => 1 <= n <= output.len() && (key matches ExprView::OutputColumn {
                index,
                data_type,
                nullable,
            } && index == n - 1 && data_type == output[n - 1].data_type && nullable
                == output[n - 1].nullable),
            Err(_) => n < 1 || n > output.len(),
        },
{
    numerals_denote_their_numbers(n);
}

/// Whether a condition is a written one, bound in a scope.
#[verifier::opaque]
pub open spec fn bound_in(
    cx: Env<'_>,
    sc: ScopeView,
    st: StateView,
    e: SqlExpr,
    b: ExprView,
) -> bool {
    bind_of(cx, sc, st, top_mode(), e) matches Ok((x, _)) && x == b
}

/// Groups are let through where the `HAVING` that is written is `TRUE`: it is bound over the columns
/// of the block and its outputs. Without one all are.
pub proof fn groups_are_filtered_as_written(
    cx: Env<'_>,
    ctes: Seq<CteEntryView>,
    outer: Seq<InfoView>,
    immediate: int,
    s: Select,
    subqueries: Seq<QueryView>,
)
    requires
        select_of(cx, ctes, outer, immediate, s, subqueries) is Ok,
    ensures
        ({
            let block = select_of(cx, ctes, outer, immediate, s, subqueries)->Ok_0.0;
            let (_, visible, fs) = from_clause(cx, ctes, outer, s, subqueries)->Ok_0;
            match s.having {
                None => block.having is None,
                Some(e) => block.having matches Some(h) && exists|st: StateView| #[trigger]
                    bound_in(
                        cx,
                        having_scope(
                            fs.infos,
                            ctes,
                            outer,
                            immediate,
                            visible,
                            crate::model_group::projection_columns(block.projection),
                        ),
                        st,
                        e,
                        h,
                    ),
            }
        }),
{
    let (tree, visible, fs) = from_clause(cx, ctes, outer, s, subqueries)->Ok_0;
    lemma_having(
        cx,
        ctes,
        outer,
        immediate,
        s,
        crate::model_query::select_check(s)->Ok_0,
        tree,
        visible,
        fs,
    );
}

#[verifier::rlimit(80)]
proof fn lemma_having(
    cx: Env<'_>,
    ctes: Seq<CteEntryView>,
    outer: Seq<InfoView>,
    immediate: int,
    s: Select,
    distinct: bool,
    tree: Option<crate::query::TreeView>,
    visible: Seq<VisibleView>,
    fs: crate::model_query::FromView,
)
    requires
        crate::model_query::select_clauses_of(
            cx,
            ctes,
            outer,
            immediate,
            s,
            distinct,
            tree,
            visible,
            fs,
        ) is Ok,
    ensures
        ({
            let block = crate::model_query::select_clauses_of(
                cx,
                ctes,
                outer,
                immediate,
                s,
                distinct,
                tree,
                visible,
                fs,
            )->Ok_0.0;
            match s.having {
                None => block.having is None,
                Some(e) => block.having matches Some(h) && exists|st: StateView| #[trigger]
                    bound_in(
                        cx,
                        having_scope(
                            fs.infos,
                            ctes,
                            outer,
                            immediate,
                            visible,
                            crate::model_group::projection_columns(block.projection),
                        ),
                        st,
                        e,
                        h,
                    ),
            }
        }),
{
    let st0 = StateView {
        aggregates: Seq::empty(),
        subqueries: fs.subqueries,
        windows: Seq::empty(),
    };
    let (_, st1) = crate::model_query::condition_of(
        cx,
        crate::model_query::row_scope(fs.infos, ctes, outer, immediate, visible, "WHERE"@),
        st0,
        s.selection,
        "WHERE"@,
    )->Ok_0;
    let (_, st2) = crate::model_query::group_of(
        cx,
        crate::model_query::row_scope(fs.infos, ctes, outer, immediate, visible, "GROUP BY"@),
        st1,
        s,
    )->Ok_0;
    let (projection, st3) = items_of(
        cx,
        list_scope(fs.infos, ctes, outer, immediate, visible),
        st2,
        s.projection,
        visible,
        0,
        Seq::empty(),
    )->Ok_0;
    let sc = having_scope(
        fs.infos,
        ctes,
        outer,
        immediate,
        visible,
        crate::model_group::projection_columns(projection),
    );
    lemma_condition(cx, sc, st3, s.having, "HAVING"@);
}

proof fn lemma_condition(
    cx: Env<'_>,
    sc: ScopeView,
    st: StateView,
    e: Option<SqlExpr>,
    clause: Seq<char>,
)
    requires
        crate::model_query::condition_of(cx, sc, st, e, clause) is Ok,
    ensures
        match (e, crate::model_query::condition_of(cx, sc, st, e, clause)->Ok_0.0) {
            (None, None) => true,
            (Some(x), Some(b)) => bound_in(cx, sc, st, x, b),
            _ => false,
        },
{
    reveal(bound_in);
}

/// A name stands for the last common table expression of that name, in any letter case.
pub proof fn the_last_definition_counts(ctes: Seq<CteEntryView>, name: Seq<char>, n: int)
    requires
        0 <= n <= ctes.len(),
    ensures
        match last_cte(ctes, name, n) {
            Some(b) => exists|k: int|
                0 <= k < n && folds_to((#[trigger] ctes[k]).name, name) && ctes[k].binding == b
                    && forall|j: int| k < j < n ==> !folds_to((#[trigger] ctes[j]).name, name),
            None => forall|k: int| 0 <= k < n ==> !folds_to((#[trigger] ctes[k]).name, name),
        },
    decreases n,
{
    if n > 0 {
        the_last_definition_counts(ctes, name, n - 1);
        if folds_to(ctes[n - 1].name, name) {
            assert(0 <= n - 1 < n && folds_to(ctes[n - 1].name, name));
        }
    }
}

} // verus!
