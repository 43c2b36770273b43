//! Laws of types: what is inferred of an operation holds of its results.

use crate::answers::Answers;
use crate::arithmetic::arithmetic_view;
use crate::equi_keys::numeric_key_type;
use crate::expr::{arithmetic_type, BinOp};
use crate::model_group::{recursive_query, unique_names_check, working_slots};
use crate::model_query::query_of;
use crate::names::{common_of, CteEntryView, InfoView};
use crate::query::{BodyView, QueryView, SlotView};
use crate::scope::Env;
use crate::sql::Query;
use crate::text::lower;
use crate::value::{ColumnView, DataType, ErrorView, ValueView, MAX_DECIMAL_PRECISION};
use vstd::prelude::*;

verus! {

/// The result of arithmetic on values has the type that is inferred from their types. `DIV`, which is
/// for integers, is left out for decimals.
pub proof fn results_have_the_inferred_type(
    op: BinOp,
    l: ValueView,
    r: ValueView,
    answers: Answers,
)
    requires
        op.arithmetic(),
        l.data_type() is Some,
        r.data_type() is Some,
        op == BinOp::IntDiv ==> !(l is Decimal) && !(r is Decimal),
    ensures
        arithmetic_view(op, l, r, answers) matches Ok(v) ==> (v is Null || arithmetic_type(
            op,
            l.data_type()->0,
            r.data_type()->0,
        ) == Ok::<DataType, ErrorView>(v.data_type()->0)),
{
}

/// Whether a decimal type has room for the digits of another, before and behind the point.
pub open spec fn has_room(precision: u8, scale: u8, other: DataType) -> bool {
    match other {
        DataType::Decimal { precision: p, scale: s } => s <= p ==> scale >= s && precision - scale >= p
            - s,
        _ => true,
    }
}

/// A type common to two is each of them where they are the same; a double where one is and the other
/// is a number; the wider one of two integers; and a decimal with room for the digits of both, up to
/// the greatest precision.
pub proof fn common_types_hold_both(l: DataType, r: DataType)
    ensures
        common_of(l, l) == Some(l),
        common_of(DataType::Int32, DataType::Int64) == Some(DataType::Int64),
        common_of(l, r) matches Some(t) ==> l == r || match t {
            DataType::Float64 => l == DataType::Float64 || r == DataType::Float64,
            DataType::Int64 => (l == DataType::Int64 || r == DataType::Int64) ==> (l
                == DataType::Int32 || r == DataType::Int32 || l == DataType::Timestamp || r
                == DataType::Timestamp),
            DataType::Decimal { precision, scale } => {
                &&& l is Decimal || r is Decimal
                &&& precision == MAX_DECIMAL_PRECISION || has_room(precision, scale, l)
                &&& precision == MAX_DECIMAL_PRECISION || has_room(precision, scale, r)
            },
            _ => false,
        },
{
}

/// The type in which two keys are compared does not depend on their order, and has room for both.
pub proof fn key_types_hold_both(l: DataType, r: DataType)
    ensures
        !(l is Decimal && !(r is Decimal) && r != DataType::Float64) && !(r is Decimal && !(
        l is Decimal) && l != DataType::Float64) ==> numeric_key_type(l, r) == numeric_key_type(
            r,
            l,
        ),
        l == DataType::Float64 ==> numeric_key_type(l, r) == Some(DataType::Float64),
        numeric_key_type(l, r) matches Some(DataType::Decimal { precision, scale }) ==> {
            &&& has_room(precision, scale, l)
            &&& has_room(precision, scale, r)
        },
{
}

/// With `DISTINCT`, rows are ordered by outputs alone.
pub proof fn distinct_rows_are_ordered_by_outputs(
    cx: Env<'_>,
    ctes: Seq<CteEntryView>,
    outer: Seq<InfoView>,
    immediate: int,
    q: Query,
    k: int,
)
    requires
        query_of(cx, ctes, outer, immediate, q) is Ok,
    ensures
        ({
            let b = query_of(cx, ctes, outer, immediate, q)->Ok_0;
            (b.body matches BodyView::Select(s) && s.distinct) ==> 0 <= k < b.order_by.len()
                ==> b.order_by[k].expr is OutputColumn
        }),
{
    let b = query_of(cx, ctes, outer, immediate, q)->Ok_0;
    lemma_ordered(b.order_by, 0, k);
}

proof fn lemma_ordered(order_by: Seq<crate::query::OrderView>, i: int, k: int)
    requires
        0 <= i,
    ensures
        crate::model_group::ordered_by_output(order_by, i) && i <= k < order_by.len()
            ==> order_by[k].expr is OutputColumn,
    decreases order_by.len() - i,
{
    if i < order_by.len() {
        lemma_ordered(order_by, i + 1, k);
    }
}

/// How many of the first `n` slots are the working table.
pub open spec fn working_count(slots: Seq<SlotView>, n: int) -> nat
    decreases n,
{
    if n <= 0 || n > slots.len() {
        0
    } else {
        working_count(slots, n - 1) + (if slots[n - 1] is WorkingTableSlot {
            1nat
        } else {
            0nat
        })
    }
}

proof fn lemma_working(slots: Seq<SlotView>, n: int)
    ensures
        working_slots(slots, n).len() == working_count(slots, n),
    decreases n,
{
    if 0 < n <= slots.len() {
        lemma_working(slots, n - 1);
    }
}

/// The term that a recursive query repeats reads the working table once, in its `FROM`, and neither
/// groups, nor aggregates, nor drops repeated rows, nor orders, nor limits. The output has the names
/// of the working table and can be `NULL` where either branch can.
pub proof fn recursive_terms_are_plain(
    anchor: QueryView,
    term: QueryView,
    names: Seq<ColumnView>,
    distinct: bool,
)
    requires
        recursive_query(anchor, term, names, distinct) is Ok,
    ensures
        term.order_by.len() == 0,
        term.limit is None,
        term.offset is None,
        anchor.output_columns.len() == term.output_columns.len(),
        term.body matches BodyView::Select(s) && {
            &&& s.aggregates.len() == 0
            &&& s.group_by.len() == 0
            &&& !s.distinct
            &&& working_count(s.slots, s.slots.len() as int) == 1
        },
        recursive_query(anchor, term, names, distinct)->Ok_0.body
            matches BodyView::RecursiveQueryBody { anchor: a, recursive_term, distinct: d, .. } && *a
            == anchor && *recursive_term == term && d == distinct,
{
    match term.body {
        BodyView::Select(s) => {
            lemma_working(s.slots, s.slots.len() as int);
        },
        _ => {},
    }
}

proof fn lemma_taken(columns: Seq<ColumnView>, name: Seq<char>, n: int, j: int)
    requires
        0 <= j < n <= columns.len(),
        lower(columns[j].name) == lower(name),
    ensures
        crate::model_group::name_taken(columns, name, n),
    decreases n,
{
    if j < n - 1 {
        lemma_taken(columns, name, n - 1, j);
    }
}

/// The columns of a derived table have names that differ, in whatever letter case.
pub proof fn derived_columns_are_distinct(
    columns: Seq<ColumnView>,
    what: Seq<char>,
    i: int,
    j: int,
    k: int,
)
    requires
        0 <= i,
        unique_names_check(columns, what, i) is Ok,
        0 <= j < k < columns.len(),
        i <= k,
    ensures
        lower(columns[j].name) != lower(columns[k].name),
    decreases columns.len() - i,
{
    if i < k {
        derived_columns_are_distinct(columns, what, i + 1, j, k);
    } else if lower(columns[j].name) == lower(columns[k].name) {
        lemma_taken(columns, columns[k].name, k, j);
    }
}

} // verus!
