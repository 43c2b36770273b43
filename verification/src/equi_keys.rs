//! The types in which the two sides of an equality between join inputs are compared.

use crate::atoms::{conjuncts, target_views, terms, used_slots};
use crate::expr::{type_of, uses_slot, BinOp, Expr, ExprView};
use crate::names::{whole_digits, whole_digits_of};
use crate::value::{DataType, MAX_DECIMAL_PRECISION};
use vstd::prelude::*;

verus! {

/// Whether an expression refers to slots, all of them before `first`.
pub open spec fn all_before(e: ExprView, first: usize) -> bool {
    (exists|s: usize| #[trigger] used_slots(e).contains(s)) && forall|s: usize| #[trigger]
        used_slots(e).contains(s) ==> s < first
}

/// Whether an expression refers to slots, all of them from `range.0` to `range.1`.
pub open spec fn all_within(e: ExprView, range: (usize, usize)) -> bool {
    (exists|s: usize| #[trigger] used_slots(e).contains(s)) && forall|s: usize| #[trigger]
        used_slots(e).contains(s) ==> range.0 <= s <= range.1
}

/// The greater of two numbers.
pub open spec fn greater(a: int, b: int) -> int {
    if a >= b {
        a
    } else {
        b
    }
}

/// The type in which numeric keys of two types are compared, `None` where no decimal type can hold
/// both.
pub open spec fn numeric_key_type(l: DataType, r: DataType) -> Option<DataType> {
    if l == DataType::Float64 || r == DataType::Float64 {
        Some(DataType::Float64)
    } else {
        match (l, r) {
            (
                DataType::Decimal { precision: p1, scale: s1 },
                DataType::Decimal { precision: p2, scale: s2 },
            ) => {
                let scale = greater(s1 as int, s2 as int);
                let precision = greater(whole_digits(p1, s1), whole_digits(p2, s2)) + scale;
                if precision > MAX_DECIMAL_PRECISION {
                    None
                } else {
                    Some(DataType::Decimal { precision: precision as u8, scale: scale as u8 })
                }
            },
            (DataType::Decimal { .. }, _) => Some(l),
            (_, DataType::Decimal { .. }) => Some(r),
            _ => Some(DataType::Int64),
        }
    }
}

/// What a term of a join condition contributes: for an equality between the inputs, the type in
/// which numeric keys are compared, or that the keys are not numeric.
pub open spec fn key_type(term: ExprView, range: (usize, usize)) -> Option<Option<DataType>> {
    match term {
        ExprView::BinaryOp { op: BinOp::Eq, left, right } => if (all_before(*left, range.0)
            && all_within(*right, range)) || (all_within(*left, range) && all_before(
            *right,
            range.0,
        )) {
            let swapped = !(all_before(*left, range.0) && all_within(*right, range));
            let l = if swapped {
                type_of(*right).data_type
            } else {
                type_of(*left).data_type
            };
            let r = if swapped {
                type_of(*left).data_type
            } else {
                type_of(*right).data_type
            };
            if l.numeric_key() && r.numeric_key() {
                match numeric_key_type(l, r) {
                    Some(t) => Some(Some(t)),
                    None => None,
                }
            } else {
                Some(None)
            }
        } else {
            None
        },
        _ => None,
    }
}

/// What the first `n` terms contribute.
pub open spec fn key_types(list: Seq<ExprView>, range: (usize, usize), n: int) -> Seq<
    Option<DataType>,
>
    decreases n,
{
    if n <= 0 || n > list.len() {
        Seq::empty()
    } else {
        match key_type(list[n - 1], range) {
            Some(t) => key_types(list, range, n - 1).push(t),
            None => key_types(list, range, n - 1),
        }
    }
}

impl DataType {
    /// Whether keys of the type are compared as numbers.
    pub open spec fn numeric_key(self) -> bool {
        match self {
            DataType::Int32 => true,
            DataType::Int64 => true,
            DataType::Float64 => true,
            DataType::Decimal { .. } => true,
            DataType::Timestamp => true,
            _ => false,
        }
    }
}

fn is_numeric_key(t: DataType) -> (r: bool)
    ensures
        r == t.numeric_key(),
{
    match t {
        DataType::Int32 | DataType::Int64 | DataType::Float64 | DataType::Timestamp => true,
        DataType::Decimal { .. } => true,
        _ => false,
    }
}

fn are_all_before(e: &Expr, first: usize) -> (r: bool)
    ensures
        r == all_before(e@, first),
{
    let slots = e.referenced_slots();
    if slots.len() == 0 {
        assert forall|s: usize| !used_slots(e@).contains(s) by {
            assert(slots@.contains(s) <==> uses_slot(e@, s as int));
        }
        return false;
    }
    assert(used_slots(e@).contains(slots@[0])) by {
        assert(slots@.contains(slots@[0]));
    }
    let mut i: usize = 0;
    while i < slots.len()
        invariant
            i <= slots.len(),
            forall|s: usize| #[trigger] slots@.contains(s) <==> uses_slot(e@, s as int),
            forall|k: int| 0 <= k < i ==> slots@[k] < first,
        decreases slots.len() - i,
    {
        if slots[i] >= first {
            assert(slots@.contains(slots@[i as int]));
            assert(used_slots(e@).contains(slots@[i as int]));
            return false;
        }
        i = i + 1;
    }
    assert forall|s: usize| #[trigger] used_slots(e@).contains(s) implies s < first by {
        assert(slots@.contains(s));
        let k = choose|k: int| 0 <= k < slots@.len() && slots@[k] == s;
        assert(slots@[k] < first);
    }
    true
}

fn are_all_within(e: &Expr, range: (usize, usize)) -> (r: bool)
    ensures
        r == all_within(e@, range),
{
    let slots = e.referenced_slots();
    if slots.len() == 0 {
        assert forall|s: usize| !used_slots(e@).contains(s) by {
            assert(slots@.contains(s) <==> uses_slot(e@, s as int));
        }
        return false;
    }
    assert(used_slots(e@).contains(slots@[0])) by {
        assert(slots@.contains(slots@[0]));
    }
    let mut i: usize = 0;
    while i < slots.len()
        invariant
            i <= slots.len(),
            forall|s: usize| #[trigger] slots@.contains(s) <==> uses_slot(e@, s as int),
            forall|k: int| 0 <= k < i ==> range.0 <= #[trigger] slots@[k] <= range.1,
        decreases slots.len() - i,
    {
        if slots[i] < range.0 || slots[i] > range.1 {
            assert(slots@.contains(slots@[i as int]));
            assert(used_slots(e@).contains(slots@[i as int]));
            return false;
        }
        i = i + 1;
    }
    assert forall|s: usize| #[trigger] used_slots(e@).contains(s) implies range.0 <= s
        <= range.1 by {
        assert(slots@.contains(s));
        let k = choose|k: int| 0 <= k < slots@.len() && slots@[k] == s;
        assert(range.0 <= slots@[k] <= range.1);
    }
    true
}

fn common_key_type(l: DataType, r: DataType) -> (t: Option<DataType>)
    ensures
        t == numeric_key_type(l, r),
{
    if l == DataType::Float64 || r == DataType::Float64 {
        return Some(DataType::Float64);
    }
    match (l, r) {
        (
            DataType::Decimal { precision: p1, scale: s1 },
            DataType::Decimal { precision: p2, scale: s2 },
        ) => {
            let scale: u8 = if s1 >= s2 {
                s1
            } else {
                s2
            };
            let w1: u8 = whole_digits_of(p1, s1);
            let w2: u8 = whole_digits_of(p2, s2);
            let whole: u8 = if w1 >= w2 {
                w1
            } else {
                w2
            };
            match whole.checked_add(scale) {
                None => None,
                Some(precision) => if precision > MAX_DECIMAL_PRECISION {
                    None
                } else {
                    Some(DataType::Decimal { precision, scale })
                },
            }
        },
        (DataType::Decimal { .. }, _) => Some(l),
        (_, DataType::Decimal { .. }) => Some(r),
        _ => Some(DataType::Int64),
    }
}

fn type_of_key(term: &Expr, range: (usize, usize)) -> (r: Option<Option<DataType>>)
    ensures
        r == key_type(term@, range),
{
    match term {
        Expr::BinaryOp { op: BinOp::Eq, left, right } => {
            let a = left.static_type().data_type;
            let b = right.static_type().data_type;
            let (l, r) = if are_all_before(left, range.0) && are_all_within(right, range) {
                (a, b)
            } else if are_all_within(left, range) && are_all_before(right, range.0) {
                (b, a)
            } else {
                return None;
            };
            if is_numeric_key(l) && is_numeric_key(r) {
                match common_key_type(l, r) {
                    Some(t) => Some(Some(t)),
                    None => None,
                }
            } else {
                Some(None)
            }
        },
        _ => None,
    }
}

/// For each equality between the inputs of a join, the type in which numeric keys are compared.
pub fn join_equi_key_types(on: Option<&Expr>, right_slot_range: (usize, usize)) -> (r: Vec<
    Option<DataType>,
>)
    ensures
        r@ == (match on {
            None => Seq::empty(),
            Some(c) => key_types(terms(c@), right_slot_range, terms(c@).len() as int),
        }),
{
    let mut out: Vec<Option<DataType>> = Vec::new();
    let c = match on {
        Some(c) => c,
        None => {
            return out;
        },
    };
    let list = conjuncts(c);
    let ghost all = target_views(list@);
    let mut i: usize = 0;
    while i < list.len()
        invariant
            i <= list.len(),
            all == target_views(list@),
            out@ == key_types(all, right_slot_range, i as int),
        decreases list.len() - i,
    {
        assert(all[i as int] == list@[i as int]@);
        match type_of_key(list[i], right_slot_range) {
            Some(t) => {
                out.push(t);
            },
            None => {},
        }
        i = i + 1;
    }
    out
}

} // verus!
