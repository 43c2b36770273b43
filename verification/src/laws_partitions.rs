//! Laws of partitions: they have the names and bounds that are written.

use crate::answers::Answers;
use crate::ast::{ListPartitionView, RangePartitionView};
use crate::convert::Rank;
use crate::literals::{column_literal, key_rank};
use crate::partitions::{list_partitions, list_values, range_partitions, PlaceView};
use crate::sql::SqlExpr;
use crate::statement::{LessThanBound, PartitionDef, PartitionValues};
use crate::value::{ColumnView, ErrorView, ValueView};
use vstd::prelude::*;

verus! {

/// Whether a range partition has the written name, and ends before the written value, or nowhere
/// where `MAXVALUE` is written.
pub open spec fn range_is_written(p: RangePartitionView, d: PartitionDef, key: ColumnView) -> bool {
    p.name == d.name@ && match d.values {
        PartitionValues::LessThan(LessThanBound::MaxValue) => p.upper is None,
        PartitionValues::LessThan(LessThanBound::Expr(e)) => match p.upper {
            Some(v) => !(v is Null) && column_literal(e, key) == Ok::<ValueView, ErrorView>(v),
            None => false,
        },
        PartitionValues::In(_) => false,
    }
}

/// Range partitions are those written, in their order.
pub proof fn ranges_are_those_written(
    defs: Seq<PartitionDef>,
    i: int,
    key: ColumnView,
    place: PlaceView,
    answers: Answers,
    names: Seq<Seq<char>>,
    lower: Option<ValueView>,
    closed: bool,
    acc: Seq<RangePartitionView>,
)
    requires
        0 <= i <= defs.len(),
        acc.len() == i,
        range_partitions(defs, i, key, place, answers, names, lower, closed, acc) is Ok,
    ensures
        ({
            let all = range_partitions(
                defs,
                i,
                key,
                place,
                answers,
                names,
                lower,
                closed,
                acc,
            )->Ok_0;
            &&& all.len() == defs.len()
            &&& forall|k: int| 0 <= k < i ==> all[k] == acc[k]
            &&& forall|k: int| i <= k < defs.len() ==> range_is_written(#[trigger] all[k], defs[k], key)
        }),
    decreases defs.len() - i,
{
    if i < defs.len() {
        let name = defs[i].name@;
        match defs[i].values {
            PartitionValues::LessThan(bound) => {
                let upper = crate::partitions::upper_bound(bound, name, key, lower, answers)->Ok_0;
                let part = RangePartitionView { name, lower, upper };
                ranges_are_those_written(
                    defs,
                    i + 1,
                    key,
                    place,
                    answers,
                    names.push(name),
                    upper,
                    upper is None,
                    acc.push(part),
                );
                assert(acc.push(part)[i] == part);
                assert(range_is_written(part, defs[i], key));
            },
            PartitionValues::In(_) => {},
        }
    }
}

proof fn lemma_values(
    exprs: Seq<SqlExpr>,
    i: int,
    key: ColumnView,
    name: Seq<char>,
    answers: Answers,
    seen: Seq<ValueView>,
    part: Seq<ValueView>,
)
    requires
        0 <= i <= exprs.len(),
        part.len() == i,
        list_values(exprs, i, key, name, answers, seen, part) is Ok,
    ensures
        ({
            let all = list_values(exprs, i, key, name, answers, seen, part)->Ok_0;
            &&& all.len() == exprs.len()
            &&& forall|k: int| 0 <= k < i ==> all[k] == part[k]
            &&& forall|k: int|
                i <= k < exprs.len() ==> column_literal(exprs[k], key) == Ok::<
                    ValueView,
                    ErrorView,
                >(#[trigger] all[k])
        }),
    decreases exprs.len() - i,
{
    if i < exprs.len() {
        let v = column_literal(exprs[i], key)->Ok_0;
        lemma_values(exprs, i + 1, key, name, answers, seen, part.push(v));
        assert(part.push(v)[i] == v);
    }
}

/// Whether a list partition has the written name and the written values.
pub open spec fn list_is_written(p: ListPartitionView, d: PartitionDef, key: ColumnView) -> bool {
    p.name == d.name@ && match d.values {
        PartitionValues::In(exprs) => p.values.len() == exprs@.len() && forall|k: int|
            0 <= k < p.values.len() ==> column_literal(exprs@[k], key) == Ok::<ValueView, ErrorView>(
                #[trigger] p.values[k],
            ),
        PartitionValues::LessThan(_) => false,
    }
}

/// List partitions are those written, in their order.
pub proof fn lists_are_those_written(
    defs: Seq<PartitionDef>,
    i: int,
    key: ColumnView,
    place: PlaceView,
    answers: Answers,
    names: Seq<Seq<char>>,
    seen: Seq<ValueView>,
    acc: Seq<ListPartitionView>,
)
    requires
        0 <= i <= defs.len(),
        acc.len() == i,
        list_partitions(defs, i, key, place, answers, names, seen, acc) is Ok,
    ensures
        ({
            let all = list_partitions(defs, i, key, place, answers, names, seen, acc)->Ok_0;
            &&& all.len() == defs.len()
            &&& forall|k: int| 0 <= k < i ==> all[k] == acc[k]
            &&& forall|k: int| i <= k < defs.len() ==> list_is_written(#[trigger] all[k], defs[k], key)
        }),
    decreases defs.len() - i,
{
    if i < defs.len() {
        let name = defs[i].name@;
        match defs[i].values {
            PartitionValues::In(exprs) => {
                lemma_values(exprs@, 0, key, name, answers, seen, Seq::empty());
                let values = list_values(exprs@, 0, key, name, answers, seen, Seq::empty())->Ok_0;
                let part = ListPartitionView { name, values };
                lists_are_those_written(
                    defs,
                    i + 1,
                    key,
                    place,
                    answers,
                    names.push(name),
                    seen + values,
                    acc.push(part),
                );
                assert(acc.push(part)[i] == part);
                assert(list_is_written(part, defs[i], key));
            },
            PartitionValues::LessThan(_) => {},
        }
    }
}

/// Integer keys of partitions are ordered as numbers.
pub proof fn integer_keys_are_ordered(a: i64, b: i64)
    ensures
        (key_rank(ValueView::Int64(a), ValueView::Int64(b)) == Rank::Greater) == (a > b),
        (key_rank(ValueView::Int64(a), ValueView::Int64(b)) == Rank::Less) == (a < b),
        (key_rank(ValueView::Timestamp(a), ValueView::Timestamp(b)) == Rank::Greater) == (a > b),
{
}

} // verus!
