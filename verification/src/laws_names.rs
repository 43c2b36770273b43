//! Laws of names: a name refers to a column of that name.

use crate::expr::ExprView;
use crate::names::{
    alias_folds, alias_is, column_folds, column_is, column_named, column_ref_view, first_at,
    lemma_first_at, slot_named, visible_expr, visible_folds, visible_is, visible_named, Found,
    InfoView,
};
use crate::query::VisibleView;
use crate::scope::{
    candidates, correlated, exact_candidates, folded_candidates, output_alias, resolved,
    resolved_by_slots, unresolved, ScopeView,
};
use crate::text::folds_to;
use crate::value::ColumnView;
use vstd::prelude::*;

verus! {

/// Whether a reference is to a column of a slot, under its own position, name, type and nullability.
pub open spec fn is_column_of(e: ExprView, infos: Seq<InfoView>, i: int, k: int) -> bool {
    &&& 0 <= i < infos.len()
    &&& 0 <= k < infos[i].columns.len()
    &&& e matches ExprView::ColumnRef { slot, column, name, data_type, nullable, .. } && {
        &&& slot == i as usize
        &&& column == k as usize
        &&& name == infos[i].columns[k].name
        &&& data_type == infos[i].columns[k].data_type
        &&& nullable == infos[i].columns[k].nullable
    }
}

/// Whether a reference is to a column of the enclosing query.
pub open spec fn is_outer_column(e: ExprView, infos: Seq<InfoView>, i: int, k: int) -> bool {
    &&& 0 <= i < infos.len()
    &&& 0 <= k < infos[i].columns.len()
    &&& e matches ExprView::CorrelatedColumnRef { name, data_type, nullable, .. } && {
        &&& name == infos[i].columns[k].name
        &&& data_type == infos[i].columns[k].data_type
        &&& nullable == infos[i].columns[k].nullable
    }
}

/// Whether a qualified or unqualified name is that of a column of a slot, in any letter case.
pub open spec fn has_name(
    infos: Seq<InfoView>,
    i: int,
    k: int,
    qualifier: Option<Seq<char>>,
    name: Seq<char>,
) -> bool {
    folds_to(infos[i].columns[k].name, name) && (qualifier matches Some(q) ==> folds_to(
        infos[i].alias,
        q,
    ))
}

/// Whether an expression is what a name refers to: a column of the block of that name, a column of
/// the enclosing block of that name, or an output of that name.
pub open spec fn refers_by_name(
    e: ExprView,
    sc: ScopeView,
    qualifier: Option<Seq<char>>,
    name: Seq<char>,
) -> bool {
    ||| exists|i: int, k: int| #[trigger]
        is_column_of(e, sc.slots, i, k) && has_name(sc.slots, i, k, qualifier, name)
    ||| exists|i: int, k: int| #[trigger]
        is_outer_column(e, sc.enclosing(), i, k) && has_name(sc.enclosing(), i, k, qualifier, name)
    ||| (qualifier is None || sc.output_only) && (e matches ExprView::OutputColumn { index, .. } && (
    sc.output matches Some(out) && exists|k: int|
        0 <= k < out.len() && index == k as usize && folds_to((#[trigger] out[k]).name, name)))
}

proof fn lemma_column_named(columns: Seq<ColumnView>, name: Seq<char>)
    ensures
        column_named(columns, name) matches Some(k) ==> 0 <= k < columns.len() && folds_to(
            columns[k].name,
            name,
        ),
{
    lemma_first_at(columns, column_is(name), 0);
    lemma_first_at(columns, column_folds(name), 0);
}

/// Whether all pairs are columns with a name.
spec fn all_named(infos: Seq<InfoView>, list: Seq<(int, int)>, name: Seq<char>) -> bool {
    forall|j: int|
        0 <= j < list.len() ==> 0 <= (#[trigger] list[j]).0 < infos.len() && 0 <= list[j].1
            < infos[list[j].0].columns.len() && folds_to(
            infos[list[j].0].columns[list[j].1].name,
            name,
        )
}

proof fn lemma_exact(infos: Seq<InfoView>, name: Seq<char>, i: int, acc: Seq<(int, int)>)
    requires
        0 <= i,
        all_named(infos, acc, name),
    ensures
        all_named(infos, exact_candidates(infos, name, i, acc), name),
    decreases infos.len() - i,
{
    if i < infos.len() {
        lemma_first_at(infos[i].columns, column_is(name), 0);
        match first_at(infos[i].columns, column_is(name), 0) {
            Some(c) => lemma_exact(infos, name, i + 1, acc.push((i, c))),
            None => lemma_exact(infos, name, i + 1, acc),
        }
    }
}

proof fn lemma_folded(infos: Seq<InfoView>, name: Seq<char>, i: int, acc: Seq<(int, int)>)
    requires
        0 <= i,
        all_named(infos, acc, name),
    ensures
        all_named(infos, folded_candidates(infos, name, i, acc), name),
    decreases infos.len() - i,
{
    if i < infos.len() {
        lemma_first_at(infos[i].columns, column_folds(name), 0);
        match first_at(infos[i].columns, column_folds(name), 0) {
            Some(c) => lemma_folded(infos, name, i + 1, acc.push((i, c))),
            None => lemma_folded(infos, name, i + 1, acc),
        }
    }
}

proof fn lemma_candidates(infos: Seq<InfoView>, name: Seq<char>)
    ensures
        all_named(infos, candidates(infos, name), name),
{
    lemma_exact(infos, name, 0, Seq::empty());
    lemma_folded(infos, name, 0, Seq::empty());
}

proof fn lemma_alias(sc: ScopeView, name: Seq<char>)
    ensures
        output_alias(sc, name) matches Some(e) ==> refers_by_name(e, sc, None, name),
{
    match sc.output {
        Some(out) => {
            lemma_column_named(out, name);
        },
        None => {},
    }
}

proof fn lemma_correlated(sc: ScopeView, qualifier: Option<Seq<char>>, name: Seq<char>)
    ensures
        correlated(sc.enclosing(), qualifier, name) matches Ok(e) ==> refers_by_name(
            e,
            sc,
            qualifier,
            name,
        ),
{
    let infos = sc.enclosing();
    lemma_candidates(infos, name);
    match correlated(infos, qualifier, name) {
        Ok(e) => match qualifier {
            Some(q) => {
                lemma_first_at(infos, alias_folds(q), 0);
                let i = first_at(infos, alias_folds(q), 0)->0;
                lemma_column_named(infos[i].columns, name);
                let k = column_named(infos[i].columns, name)->0;
                assert(is_outer_column(e, infos, i, k));
                assert(has_name(infos, i, k, qualifier, name));
            },
            None => {
                let c = candidates(infos, name)[0];
                assert(is_outer_column(e, infos, c.0, c.1));
            },
        },
        Err(_) => {},
    }
}

proof fn lemma_unresolved(sc: ScopeView, qualifier: Option<Seq<char>>, name: Seq<char>)
    ensures
        unresolved(sc, qualifier, name) matches Ok(e) ==> refers_by_name(e, sc, qualifier, name),
{
    lemma_alias(sc, name);
    lemma_correlated(sc, qualifier, name);
}

proof fn lemma_by_slots(sc: ScopeView, qualifier: Option<Seq<char>>, name: Seq<char>)
    ensures
        resolved_by_slots(sc, qualifier, name) matches Ok(e) ==> refers_by_name(
            e,
            sc,
            qualifier,
            name,
        ),
{
    lemma_unresolved(sc, qualifier, name);
    lemma_correlated(sc, qualifier, name);
    lemma_candidates(sc.slots, name);
    match qualifier {
        Some(q) => {
            lemma_first_at(sc.slots, alias_is(q), 0);
            lemma_first_at(sc.slots, alias_folds(q), 0);
            match slot_named(sc.slots, q) {
                Some(i) => {
                    lemma_column_named(sc.slots[i].columns, name);
                    match column_named(sc.slots[i].columns, name) {
                        Some(k) => {
                            assert(is_column_of(column_ref_view(sc.slots, i, k), sc.slots, i, k));
                            assert(has_name(sc.slots, i, k, qualifier, name));
                        },
                        None => {},
                    }
                },
                None => {},
            }
        },
        None => {
            let c = candidates(sc.slots, name);
            if c.len() == 1 {
                assert(is_column_of(
                    column_ref_view(sc.slots, c[0].0, c[0].1),
                    sc.slots,
                    c[0].0,
                    c[0].1,
                ));
            }
        },
    }
}

/// Whether the visible columns are columns of the slots, none merged from both inputs of a join.
pub open spec fn none_merged(sc: ScopeView) -> bool {
    sc.visible matches Some(list) ==> forall|i: int|
        0 <= i < list.len() ==> ((#[trigger] list[i]) matches VisibleView::Physical { slot, column }
            && slot < sc.slots.len() && column < sc.slots[slot as int].columns.len())
}

/// A name refers to a column of that name, in any letter case: one of the block, of the slot that a
/// qualifier names; one of the enclosing block; or an output of the block.
pub proof fn names_refer_to_columns_of_that_name(
    sc: ScopeView,
    qualifier: Option<Seq<char>>,
    name: Seq<char>,
)
    requires
        none_merged(sc),
        sc.visible matches Some(list) ==> list.len() <= usize::MAX,
    ensures
        resolved(sc, qualifier, name) matches Ok(e) ==> refers_by_name(e, sc, qualifier, name),
{
    lemma_alias(sc, name);
    lemma_by_slots(sc, qualifier, name);
    match sc.visible {
        Some(list) => {
            lemma_first_at(list, visible_is(sc.slots, name), 0);
            lemma_first_at(list, visible_folds(sc.slots, name), 0);
            match visible_named(list, sc.slots, name) {
                Found::At(i) => {
                    let v = list[i as int];
                    match v {
                        VisibleView::Physical { slot, column } => {
                            assert(is_column_of(
                                visible_expr(v, sc.slots),
                                sc.slots,
                                slot as int,
                                column as int,
                            ));
                        },
                        _ => {},
                    }
                },
                _ => {},
            }
        },
        None => {},
    }
}

} // verus!
