//! Predicates moved to the places that a reordering assigns them.

use crate::atoms::{
    ahead, as_layouts, collect_join_layouts, join_layouts, joins, AtomView, PredicateAtom,
    PredicateAtomId, PredicatePlacement,
};
use crate::expr::{view_branches, view_exprs, BinOp, Expr, ExprView};
use crate::lists::{find_place, place_of};
use crate::query::{JoinKind, JoinTree, SelectBody, SelectView, SlotView, TreeView};
use crate::reorder::{id_text, ReorderedSelect, ReorderedView};
use crate::text::{cat2, cat3, cat6, count_text, nat_text, owned, unsigned_text};
use crate::value::{
    lemma_views_push, option_view, outcome, views, ErrorView, HtapError, Value, ValueView,
};
use vstd::prelude::*;

verus! {

/// The refusal of an offset that cannot be counted.
pub open spec fn offset_overflow() -> ErrorView {
    ErrorView::Internal("predicate column offset overflow"@)
}

/// How many columns the first `n` slots of a layout have.
pub open spec fn width_before(slots: Seq<SlotView>, layout: Seq<usize>, n: int) -> Result<
    usize,
    ErrorView,
>
    decreases n,
{
    if n <= 0 || n > layout.len() {
        Ok(0)
    } else {
        match width_before(slots, layout, n - 1) {
            Err(e) => Err(e),
            Ok(w) => if layout[n - 1] >= slots.len() {
                Err(
                    ErrorView::Internal(
                        "predicate attachment layout references missing table slot "@ + nat_text(
                            layout[n - 1] as nat,
                        ),
                    ),
                )
            } else if w + slots[layout[n - 1] as int].columns().len() > usize::MAX {
                Err(offset_overflow())
            } else {
                Ok((w + slots[layout[n - 1] as int].columns().len()) as usize)
            },
        }
    }
}

/// The offset of a column in rows of a layout, or why it has none.
pub open spec fn remapped_offset(
    slot: usize,
    column: usize,
    slots: Seq<SlotView>,
    layout: Seq<usize>,
) -> Result<usize, ErrorView> {
    match place_of(layout, slot, 0) {
        None => Err(
            ErrorView::Internal(
                "predicate column references slot "@ + nat_text(slot as nat)
                    + ", which is unavailable at its attachment point"@,
            ),
        ),
        Some(k) => if slot >= slots.len() {
            Err(
                ErrorView::Internal(
                    "predicate column references missing table slot "@ + nat_text(slot as nat),
                ),
            )
        } else if column >= slots[slot as int].columns().len() {
            Err(
                ErrorView::Internal(
                    "predicate column "@ + nat_text(column as nat) + " is outside slot "@
                        + nat_text(slot as nat) + " width "@ + nat_text(
                        slots[slot as int].columns().len(),
                    ),
                ),
            )
        } else {
            match width_before(slots, layout, k) {
                Err(e) => Err(e),
                Ok(w) => if w + column > usize::MAX {
                    Err(offset_overflow())
                } else {
                    Ok((w + column) as usize)
                },
            }
        },
    }
}

fn remap_offset(slot: usize, column: usize, select: &SelectBody, layout: &Vec<usize>) -> (r: Result<
    usize,
    HtapError,
>)
    ensures
        match r {
            Ok(x) => remapped_offset(slot, column, select@.slots, layout@) == Ok::<
                usize,
                ErrorView,
            >(x),
            Err(e) => remapped_offset(slot, column, select@.slots, layout@) == Err::<
                usize,
                ErrorView,
            >(e@),
        },
{
    let k: usize = match find_place(layout, slot) {
        Some(k) => k,
        None => {
            let n = count_text(slot);
            return Err(
                HtapError::Internal(
                    cat3(
                        "predicate column references slot ",
                        n.as_str(),
                        ", which is unavailable at its attachment point",
                    ),
                ),
            );
        },
    };
    if slot >= select.slots.len() {
        let n = count_text(slot);
        return Err(
            HtapError::Internal(
                cat2("predicate column references missing table slot ", n.as_str()),
            ),
        );
    }
    assert(select@.slots[slot as int] == select.slots@[slot as int]@);
    if column >= select.slots[slot].width() {
        let c = count_text(column);
        let s = count_text(slot);
        let w = count_text(select.slots[slot].width());
        return Err(
            HtapError::Internal(
                cat6(
                    "predicate column ",
                    c.as_str(),
                    " is outside slot ",
                    s.as_str(),
                    " width ",
                    w.as_str(),
                ),
            ),
        );
    }
    let mut width: usize = 0;
    let mut i: usize = 0;
    while i < k
        invariant
            i <= k < layout.len(),
            width_before(select@.slots, layout@, i as int) == Ok::<usize, ErrorView>(width),
            remapped_offset(slot, column, select@.slots, layout@) == (match width_before(
                select@.slots,
                layout@,
                k as int,
            ) {
                Err(e) => Err(e),
                Ok(w) => if w + column > usize::MAX {
                    Err(offset_overflow())
                } else {
                    Ok((w + column) as usize)
                },
            }),
        decreases k - i,
    {
        let s: usize = layout[i];
        proof {
            lemma_width_error(select@.slots, layout@, i + 1, k as int);
        }
        if s >= select.slots.len() {
            let n = count_text(s);
            return Err(
                HtapError::Internal(
                    cat2(
                        "predicate attachment layout references missing table slot ",
                        n.as_str(),
                    ),
                ),
            );
        }
        assert(select@.slots[s as int] == select.slots@[s as int]@);
        match width.checked_add(select.slots[s].width()) {
            Some(w) => {
                width = w;
            },
            None => {
                return Err(HtapError::Internal(owned("predicate column offset overflow")));
            },
        }
        i = i + 1;
    }
    match width.checked_add(column) {
        Some(x) => Ok(x),
        None => Err(HtapError::Internal(owned("predicate column offset overflow"))),
    }
}

/// What stops the count of columns early stops it for good.
proof fn lemma_width_error(slots: Seq<SlotView>, layout: Seq<usize>, i: int, k: int)
    requires
        0 <= i <= k <= layout.len(),
    ensures
        width_before(slots, layout, i) is Err ==> width_before(slots, layout, k) == width_before(
            slots,
            layout,
            i,
        ),
    decreases k - i,
{
    if i < k {
        lemma_width_error(slots, layout, i, k - 1);
    }
}

/// An expression whose columns lie where a layout of slots puts them.
pub open spec fn remapped(e: ExprView, slots: Seq<SlotView>, layout: Seq<usize>) -> Result<ExprView, ErrorView>
    decreases e, 0int,
{
    match e {
        ExprView::ColumnRef { slot, column, offset, name, data_type, nullable } => match remapped_offset(
            slot,
            column,
            slots,
            layout,
        ) {
            Err(e) => Err(e),
            Ok(offset) => Ok(
                ExprView::ColumnRef { slot, column, offset, name, data_type, nullable },
            ),
        },
        ExprView::BinaryOp { op, left, right } => match remapped(*left, slots, layout) {
            Err(e) => Err(e),
            Ok(l) => match remapped(*right, slots, layout) {
                Err(e) => Err(e),
                Ok(r) => Ok(ExprView::BinaryOp { op, left: Box::new(l), right: Box::new(r) }),
            },
        },
        ExprView::Not(x) => match remapped(*x, slots, layout) {
            Err(e) => Err(e),
            Ok(x) => Ok(ExprView::Not(Box::new(x))),
        },
        ExprView::Negate(x) => match remapped(*x, slots, layout) {
            Err(e) => Err(e),
            Ok(x) => Ok(ExprView::Negate(Box::new(x))),
        },
        ExprView::IsNull(x) => match remapped(*x, slots, layout) {
            Err(e) => Err(e),
            Ok(x) => Ok(ExprView::IsNull(Box::new(x))),
        },
        ExprView::IsNotNull(x) => match remapped(*x, slots, layout) {
            Err(e) => Err(e),
            Ok(x) => Ok(ExprView::IsNotNull(Box::new(x))),
        },
        ExprView::Like { expr, pattern, negated } => match remapped(*expr, slots, layout) {
            Err(e) => Err(e),
            Ok(x) => match remapped(*pattern, slots, layout) {
                Err(e) => Err(e),
                Ok(p) => Ok(ExprView::Like { expr: Box::new(x), pattern: Box::new(p), negated }),
            },
        },
        ExprView::In { expr, list, negated } => match remapped(*expr, slots, layout) {
            Err(e) => Err(e),
            Ok(x) => match remapped_list(list, slots, layout, 0, Seq::empty()) {
                Err(e) => Err(e),
                Ok(l) => Ok(ExprView::In { expr: Box::new(x), list: l, negated }),
            },
        },
        ExprView::Between { expr, low, high, negated } => match remapped(*expr, slots, layout) {
            Err(e) => Err(e),
            Ok(x) => match remapped(*low, slots, layout) {
                Err(e) => Err(e),
                Ok(l) => match remapped(*high, slots, layout) {
                    Err(e) => Err(e),
                    Ok(h) => Ok(
                        ExprView::Between {
                            expr: Box::new(x),
                            low: Box::new(l),
                            high: Box::new(h),
                            negated,
                        },
                    ),
                },
            },
        },
        ExprView::Case { operand, branches, else_result, data_type, nullable } => {
            let first = match operand {
                Some(x) => match remapped(*x, slots, layout) {
                    Err(e) => Err(e),
                    Ok(x) => Ok(Some(Box::new(x))),
                },
                None => Ok(None),
            };
            match first {
                Err(e) => Err(e),
                Ok(operand2) => match remapped_branches(branches, slots, layout, 0, Seq::empty()) {
                    Err(e) => Err(e),
                    Ok(branches2) => {
                        let last = match else_result {
                            Some(x) => match remapped(*x, slots, layout) {
                                Err(e) => Err(e),
                                Ok(x) => Ok(Some(Box::new(x))),
                            },
                            None => Ok(None),
                        };
                        match last {
                            Err(e) => Err(e),
                            Ok(else2) => Ok(
                                ExprView::Case {
                                    operand: operand2,
                                    branches: branches2,
                                    else_result: else2,
                                    data_type,
                                    nullable,
                                },
                            ),
                        }
                    },
                },
            }
        },
        ExprView::Cast { expr, to } => match remapped(*expr, slots, layout) {
            Err(e) => Err(e),
            Ok(x) => Ok(ExprView::Cast { expr: Box::new(x), to }),
        },
        ExprView::CalendarInterval { expr, quantity, unit, negated } => match remapped(
            *expr,
            slots,
            layout,
        ) {
            Err(e) => Err(e),
            Ok(x) => match remapped(*quantity, slots, layout) {
                Err(e) => Err(e),
                Ok(q) => Ok(
                    ExprView::CalendarInterval {
                        expr: Box::new(x),
                        quantity: Box::new(q),
                        unit,
                        negated,
                    },
                ),
            },
        },
        ExprView::ScalarFunction { func, args, data_type, nullable } => match remapped_list(
            args,
            slots,
            layout,
            0,
            Seq::empty(),
        ) {
            Err(e) => Err(e),
            Ok(a) => Ok(ExprView::ScalarFunction { func, args: a, data_type, nullable }),
        },
        ExprView::InSubquery { expr, index, negated, correlated } => match remapped(
            *expr,
            slots,
            layout,
        ) {
            Err(e) => Err(e),
            Ok(x) => Ok(
                ExprView::InSubquery { expr: Box::new(x), index, negated, correlated },
            ),
        },
        _ => Ok(e),
    }
}

/// The remapped expressions of a list from the `i`-th on, behind those of `acc`.
pub open spec fn remapped_list(
    list: Seq<ExprView>,
    slots: Seq<SlotView>,
    layout: Seq<usize>,
    i: int,
    acc: Seq<ExprView>,
) -> Result<Seq<ExprView>, ErrorView>
    decreases list, list.len() - i,
{
    if i < 0 || i >= list.len() {
        Ok(acc)
    } else {
        match remapped(list[i], slots, layout) {
            Err(e) => Err(e),
            Ok(x) => remapped_list(list, slots, layout, i + 1, acc.push(x)),
        }
    }
}

/// The remapped branches of a `CASE` from the `i`-th on, behind those of `acc`.
pub open spec fn remapped_branches(
    list: Seq<(ExprView, ExprView)>,
    slots: Seq<SlotView>,
    layout: Seq<usize>,
    i: int,
    acc: Seq<(ExprView, ExprView)>,
) -> Result<Seq<(ExprView, ExprView)>, ErrorView>
    decreases list, list.len() - i,
{
    if i < 0 || i >= list.len() {
        Ok(acc)
    } else {
        match remapped(list[i].0, slots, layout) {
            Err(e) => Err(e),
            Ok(c) => match remapped(list[i].1, slots, layout) {
                Err(e) => Err(e),
                Ok(r) => remapped_branches(list, slots, layout, i + 1, acc.push((c, r))),
            },
        }
    }
}

/// Moves the columns of an expression to where a layout of slots puts them.
pub(crate) fn remap_expr(expr: &Expr, select: &SelectBody, layout: &Vec<usize>) -> (r: Result<Expr, HtapError>)
    ensures
        outcome(r) == remapped(expr@, select@.slots, layout@),
    decreases expr, 0int,
{
    match expr {
        Expr::ColumnRef { slot, column, name, data_type, nullable, .. } => {
            match remap_offset(*slot, *column, select, layout) {
                Ok(offset) => Ok(
                    Expr::ColumnRef {
                        slot: *slot,
                        column: *column,
                        offset,
                        name: name.clone(),
                        data_type: *data_type,
                        nullable: *nullable,
                    },
                ),
                Err(e) => Err(e),
            }
        },
        Expr::BinaryOp { op, left, right } => {
            let l = match remap_expr(left, select, layout) {
                Ok(x) => x,
                Err(e) => {
                    return Err(e);
                },
            };
            let r = match remap_expr(right, select, layout) {
                Ok(x) => x,
                Err(e) => {
                    return Err(e);
                },
            };
            Ok(Expr::BinaryOp { op: *op, left: Box::new(l), right: Box::new(r) })
        },
        Expr::Not(x) => match remap_expr(x, select, layout) {
            Ok(x) => Ok(Expr::Not(Box::new(x))),
            Err(e) => Err(e),
        },
        Expr::Negate(x) => match remap_expr(x, select, layout) {
            Ok(x) => Ok(Expr::Negate(Box::new(x))),
            Err(e) => Err(e),
        },
        Expr::IsNull(x) => match remap_expr(x, select, layout) {
            Ok(x) => Ok(Expr::IsNull(Box::new(x))),
            Err(e) => Err(e),
        },
        Expr::IsNotNull(x) => match remap_expr(x, select, layout) {
            Ok(x) => Ok(Expr::IsNotNull(Box::new(x))),
            Err(e) => Err(e),
        },
        Expr::Like { expr, pattern, negated } => {
            let x = match remap_expr(expr, select, layout) {
                Ok(x) => x,
                Err(e) => {
                    return Err(e);
                },
            };
            let p = match remap_expr(pattern, select, layout) {
                Ok(x) => x,
                Err(e) => {
                    return Err(e);
                },
            };
            Ok(Expr::Like { expr: Box::new(x), pattern: Box::new(p), negated: *negated })
        },
        Expr::In { expr, list, negated } => {
            let x = match remap_expr(expr, select, layout) {
                Ok(x) => x,
                Err(e) => {
                    return Err(e);
                },
            };
            let l = match remap_list(list, select, layout) {
                Ok(x) => x,
                Err(e) => {
                    return Err(e);
                },
            };
            Ok(Expr::In { expr: Box::new(x), list: l, negated: *negated })
        },
        Expr::Between { expr, low, high, negated } => {
            let x = match remap_expr(expr, select, layout) {
                Ok(x) => x,
                Err(e) => {
                    return Err(e);
                },
            };
            let l = match remap_expr(low, select, layout) {
                Ok(x) => x,
                Err(e) => {
                    return Err(e);
                },
            };
            let h = match remap_expr(high, select, layout) {
                Ok(x) => x,
                Err(e) => {
                    return Err(e);
                },
            };
            Ok(
                Expr::Between {
                    expr: Box::new(x),
                    low: Box::new(l),
                    high: Box::new(h),
                    negated: *negated,
                },
            )
        },
        Expr::Case { operand, branches, else_result, data_type, nullable } => {
            let operand2 = match operand {
                Some(x) => match remap_expr(x, select, layout) {
                    Ok(x) => Some(Box::new(x)),
                    Err(e) => {
                        return Err(e);
                    },
                },
                None => None,
            };
            let branches2 = match remap_branches(branches, select, layout) {
                Ok(x) => x,
                Err(e) => {
                    return Err(e);
                },
            };
            let else2 = match else_result {
                Some(x) => match remap_expr(x, select, layout) {
                    Ok(x) => Some(Box::new(x)),
                    Err(e) => {
                        return Err(e);
                    },
                },
                None => None,
            };
            Ok(
                Expr::Case {
                    operand: operand2,
                    branches: branches2,
                    else_result: else2,
                    data_type: *data_type,
                    nullable: *nullable,
                },
            )
        },
        Expr::Cast { expr, to } => match remap_expr(expr, select, layout) {
            Ok(x) => Ok(Expr::Cast { expr: Box::new(x), to: *to }),
            Err(e) => Err(e),
        },
        Expr::CalendarInterval { expr, quantity, unit, negated } => {
            let x = match remap_expr(expr, select, layout) {
                Ok(x) => x,
                Err(e) => {
                    return Err(e);
                },
            };
            let q = match remap_expr(quantity, select, layout) {
                Ok(x) => x,
                Err(e) => {
                    return Err(e);
                },
            };
            Ok(
                Expr::CalendarInterval {
                    expr: Box::new(x),
                    quantity: Box::new(q),
                    unit: *unit,
                    negated: *negated,
                },
            )
        },
        Expr::ScalarFunction { func, args, data_type, nullable } => match remap_list(
            args,
            select,
            layout,
        ) {
            Ok(a) => Ok(
                Expr::ScalarFunction {
                    func: *func,
                    args: a,
                    data_type: *data_type,
                    nullable: *nullable,
                },
            ),
            Err(e) => Err(e),
        },
        Expr::InSubquery { expr, index, negated, correlated } => match remap_expr(
            expr,
            select,
            layout,
        ) {
            Ok(x) => Ok(
                Expr::InSubquery {
                    expr: Box::new(x),
                    index: *index,
                    negated: *negated,
                    correlated: *correlated,
                },
            ),
            Err(e) => Err(e),
        },
        other => Ok(other.copy()),
    }
}

fn remap_list(list: &Vec<Expr>, select: &SelectBody, layout: &Vec<usize>) -> (r: Result<
    Vec<Expr>,
    HtapError,
>)
    ensures
        match r {
            Ok(v) => remapped_list(view_exprs(*list), select@.slots, layout@, 0, Seq::empty())
                == Ok::<Seq<ExprView>, ErrorView>(view_exprs(v)),
            Err(e) => remapped_list(view_exprs(*list), select@.slots, layout@, 0, Seq::empty())
                == Err::<Seq<ExprView>, ErrorView>(e@),
        },
    decreases list, 1int,
{
    let mut out: Vec<Expr> = Vec::new();
    let mut i: usize = 0;
    assert(views(out@) =~= Seq::empty());
    while i < list.len()
        invariant
            i <= list.len(),
            remapped_list(view_exprs(*list), select@.slots, layout@, 0, Seq::empty())
                == remapped_list(
                view_exprs(*list),
                select@.slots,
                layout@,
                i as int,
                views(out@),
            ),
        decreases list.len() - i,
    {
        match remap_expr(&list[i], select, layout) {
            Ok(x) => {
                proof {
                    lemma_views_push(out@, x);
                }
                out.push(x);
            },
            Err(e) => {
                return Err(e);
            },
        }
        i = i + 1;
    }
    proof {
        crate::expr::lemma_view_exprs(out);
    }
    Ok(out)
}

fn remap_branches(list: &Vec<(Expr, Expr)>, select: &SelectBody, layout: &Vec<usize>) -> (r: Result<
    Vec<(Expr, Expr)>,
    HtapError,
>)
    ensures
        match r {
            Ok(v) => remapped_branches(view_branches(*list), select@.slots, layout@, 0, Seq::empty())
                == Ok::<Seq<(ExprView, ExprView)>, ErrorView>(view_branches(v)),
            Err(e) => remapped_branches(
                view_branches(*list),
                select@.slots,
                layout@,
                0,
                Seq::empty(),
            ) == Err::<Seq<(ExprView, ExprView)>, ErrorView>(e@),
        },
    decreases list, 1int,
{
    let mut out: Vec<(Expr, Expr)> = Vec::new();
    let mut i: usize = 0;
    assert(view_branches(out) =~= Seq::empty());
    while i < list.len()
        invariant
            i <= list.len(),
            remapped_branches(view_branches(*list), select@.slots, layout@, 0, Seq::empty())
                == remapped_branches(
                view_branches(*list),
                select@.slots,
                layout@,
                i as int,
                view_branches(out),
            ),
        decreases list.len() - i,
    {
        let c = match remap_expr(&list[i].0, select, layout) {
            Ok(x) => x,
            Err(e) => {
                return Err(e);
            },
        };
        let r = match remap_expr(&list[i].1, select, layout) {
            Ok(x) => x,
            Err(e) => {
                return Err(e);
            },
        };
        let ghost before = view_branches(out);
        let ghost pair = (c@, r@);
        out.push((c, r));
        assert(view_branches(out) =~= before.push(pair));
        i = i + 1;
    }
    Ok(out)
}

/// The first `n` terms joined by `AND`, from left to right.
pub open spec fn conjunction_of(list: Seq<ExprView>, n: int) -> ExprView
    decreases n,
{
    if n <= 1 || n > list.len() {
        list[0]
    } else {
        ExprView::BinaryOp {
            op: BinOp::And,
            left: Box::new(conjunction_of(list, n - 1)),
            right: Box::new(list[n - 1]),
        }
    }
}

/// The terms joined by `AND`, from left to right; nothing where there are none.
pub open spec fn all_of(list: Seq<ExprView>) -> Option<ExprView> {
    if list.len() == 0 {
        None
    } else {
        Some(conjunction_of(list, list.len() as int))
    }
}

/// Joins terms by `AND`, from left to right.
pub(crate) fn and_exprs(list: &Vec<Expr>) -> (r: Option<Expr>)
    ensures
        option_view(r) == all_of(views(list@)),
{
    if list.len() == 0 {
        return None;
    }
    let mut out = list[0].copy();
    let mut i: usize = 1;
    while i < list.len()
        invariant
            1 <= i <= list.len(),
            out@ == conjunction_of(views(list@), i as int),
        decreases list.len() - i,
    {
        let right = list[i].copy();
        assert(views(list@)[i as int] == right@);
        let ghost l = out@;
        let next = Expr::BinaryOp { op: BinOp::And, left: Box::new(out), right: Box::new(right) };
        assert(next@ == (ExprView::BinaryOp {
            op: BinOp::And,
            left: Box::new(l),
            right: Box::new(right@),
        }));
        out = next;
        i = i + 1;
    }
    Some(out)
}

/// Those of the first `n` placed terms that are evaluated at a join.
pub open spec fn terms_at(placed: Seq<(PredicatePlacement, ExprView)>, id: usize, n: int) -> Seq<
    ExprView,
>
    decreases n,
{
    if n <= 0 || n > placed.len() {
        Seq::empty()
    } else if placed[n - 1].0 == PredicatePlacement::Join(id) {
        terms_at(placed, id, n - 1).push(placed[n - 1].1)
    } else {
        terms_at(placed, id, n - 1)
    }
}

/// Those of the first `n` placed terms that are evaluated at no join.
pub open spec fn residual_terms(placed: Seq<(PredicatePlacement, ExprView)>, n: int) -> Seq<
    ExprView,
>
    decreases n,
{
    if n <= 0 || n > placed.len() {
        Seq::empty()
    } else if placed[n - 1].0 is Join {
        residual_terms(placed, n - 1)
    } else {
        residual_terms(placed, n - 1).push(placed[n - 1].1)
    }
}

/// The condition that is always true.
pub open spec fn always() -> ExprView {
    ExprView::Literal(ValueView::Int64(1))
}

/// The kind and the condition of a join at which the given terms are evaluated: a cross join with
/// a condition is an inner join, and an inner join without one has a condition that is always
/// true.
pub open spec fn conditioned(kind: JoinKind, list: Seq<ExprView>) -> (JoinKind, Option<ExprView>) {
    if list.len() == 0 {
        if kind == JoinKind::Inner {
            (kind, Some(always()))
        } else {
            (kind, None)
        }
    } else if kind == JoinKind::Cross {
        (JoinKind::Inner, all_of(list))
    } else {
        (kind, all_of(list))
    }
}

/// A tree whose conditions are the terms placed at its joins; `first` is the index of its first
/// join in post-order.
pub open spec fn attached(t: TreeView, placed: Seq<(PredicatePlacement, ExprView)>, first: usize) -> TreeView
    decreases t,
{
    match t {
        TreeView::Leaf(_) => t,
        TreeView::Join { kind, left, right, .. } => {
            let middle = ahead(first, joins(*left));
            let own = ahead(middle, joins(*right));
            let c = conditioned(kind, terms_at(placed, own, placed.len() as int));
            TreeView::Join {
                kind: c.0,
                left: Box::new(attached(*left, placed, first)),
                right: Box::new(attached(*right, placed, middle)),
                on: c.1,
            }
        },
    }
}

/// The models of placed terms.
pub open spec fn view_placed(list: Seq<(PredicatePlacement, Expr)>) -> Seq<
    (PredicatePlacement, ExprView),
> {
    Seq::new(list.len(), |i: int| (list[i].0, list[i].1@))
}

fn collect_terms_at(placed: &Vec<(PredicatePlacement, Expr)>, id: usize) -> (r: Vec<Expr>)
    ensures
        views(r@) == terms_at(view_placed(placed@), id, placed@.len() as int),
{
    let mut out: Vec<Expr> = Vec::new();
    let mut i: usize = 0;
    assert(views(out@) =~= Seq::empty());
    while i < placed.len()
        invariant
            i <= placed.len(),
            views(out@) == terms_at(view_placed(placed@), id, i as int),
        decreases placed.len() - i,
    {
        assert(view_placed(placed@)[i as int] == (placed@[i as int].0, placed@[i as int].1@));
        match placed[i].0 {
            PredicatePlacement::Join(k) => {
                if k == id {
                    let x = placed[i].1.copy();
                    proof {
                        lemma_views_push(out@, x);
                    }
                    out.push(x);
                }
            },
            _ => {},
        }
        i = i + 1;
    }
    out
}

fn collect_residual(placed: &Vec<(PredicatePlacement, Expr)>) -> (r: Vec<Expr>)
    ensures
        views(r@) == residual_terms(view_placed(placed@), placed@.len() as int),
{
    let mut out: Vec<Expr> = Vec::new();
    let mut i: usize = 0;
    assert(views(out@) =~= Seq::empty());
    while i < placed.len()
        invariant
            i <= placed.len(),
            views(out@) == residual_terms(view_placed(placed@), i as int),
        decreases placed.len() - i,
    {
        assert(view_placed(placed@)[i as int] == (placed@[i as int].0, placed@[i as int].1@));
        match placed[i].0 {
            PredicatePlacement::Join(_) => {},
            _ => {
                let x = placed[i].1.copy();
                proof {
                    lemma_views_push(out@, x);
                }
                out.push(x);
            },
        }
        i = i + 1;
    }
    out
}

fn attach_join_predicates(
    t: &JoinTree,
    placed: &Vec<(PredicatePlacement, Expr)>,
    first: usize,
) -> (r: (JoinTree, usize))
    ensures
        r.0@ == attached(t@, view_placed(placed@), first),
        r.1 == ahead(first, joins(t@)),
    decreases *t,
{
    match t {
        JoinTree::Leaf(_) => (t.copy(), first),
        JoinTree::Join { kind, left, right, .. } => {
            let (a, middle): (JoinTree, usize) = attach_join_predicates(left, placed, first);
            let (b, own): (JoinTree, usize) = attach_join_predicates(right, placed, middle);
            let mut list = collect_terms_at(placed, own);
            let ghost terms = views(list@);
            let new_kind = if list.len() > 0 && *kind == JoinKind::Cross {
                JoinKind::Inner
            } else {
                *kind
            };
            if list.len() == 0 && *kind == JoinKind::Inner {
                list.push(Expr::Literal(Value::Int64(1)));
                assert(views(list@) =~= seq![always()]);
            }
            let on = and_exprs(&list);
            assert((new_kind, option_view(on)) == conditioned(*kind, terms));
            let ghost l = a@;
            let ghost m = b@;
            let tree = JoinTree::Join { kind: new_kind, left: Box::new(a), right: Box::new(b), on };
            assert(tree@ == (TreeView::Join {
                kind: new_kind,
                left: Box::new(l),
                right: Box::new(m),
                on: option_view(on),
            }));
            let next: usize = if own == usize::MAX {
                own
            } else {
                own + 1
            };
            (tree, next)
        },
    }
}

/// The first predicate from the `i`-th on with an identifier.
pub open spec fn atom_with(atoms: Seq<AtomView>, id: PredicateAtomId, i: int) -> Option<AtomView>
    decreases atoms.len() - i,
{
    if i < 0 || i >= atoms.len() {
        None
    } else if atoms[i].id == id {
        Some(atoms[i])
    } else {
        atom_with(atoms, id, i + 1)
    }
}

/// The slots in the order of the select block.
pub open spec fn logical_layout(n: nat) -> Seq<usize> {
    Seq::new(n, |i: int| i as usize)
}

/// The term of a placement, with its columns where they lie at that place; or why it has none.
pub open spec fn placed_term(
    id: PredicateAtomId,
    place: PredicatePlacement,
    atoms: Seq<AtomView>,
    slots: Seq<SlotView>,
    layouts: Seq<Seq<usize>>,
) -> Result<ExprView, ErrorView> {
    match atom_with(atoms, id, 0) {
        None => Err(
            ErrorView::Internal("predicate "@ + id_text(id) + " has no extracted atom"@),
        ),
        Some(a) => match place {
            PredicatePlacement::Join(k) => if k >= layouts.len() {
                Err(
                    ErrorView::Internal(
                        "predicate "@ + id_text(id) + " references missing join node "@ + nat_text(
                            k as nat,
                        ),
                    ),
                )
            } else {
                remapped(a.expr, slots, layouts[k as int])
            },
            _ => remapped(a.expr, slots, logical_layout(slots.len())),
        },
    }
}

/// The terms of the placements from the `i`-th on, behind `acc`.
pub open spec fn placed_terms(
    placements: Seq<(PredicateAtomId, PredicatePlacement)>,
    i: int,
    atoms: Seq<AtomView>,
    slots: Seq<SlotView>,
    layouts: Seq<Seq<usize>>,
    acc: Seq<(PredicatePlacement, ExprView)>,
) -> Result<Seq<(PredicatePlacement, ExprView)>, ErrorView>
    decreases placements.len() - i,
{
    if i < 0 || i >= placements.len() {
        Ok(acc)
    } else {
        match placed_term(placements[i].0, placements[i].1, atoms, slots, layouts) {
            Err(e) => Err(e),
            Ok(x) => placed_terms(
                placements,
                i + 1,
                atoms,
                slots,
                layouts,
                acc.push((placements[i].1, x)),
            ),
        }
    }
}

/// A select block with the reordered tree, whose conditions and filter are made of the placed
/// predicates; or why there is none.
pub open spec fn materialized(s: SelectView, atoms: Seq<AtomView>, r: ReorderedView) -> Result<
    SelectView,
    ErrorView,
> {
    match placed_terms(r.placements, 0, atoms, s.slots, join_layouts(r.tree), Seq::empty()) {
        Err(e) => Err(e),
        Ok(placed) => Ok(
            SelectView {
                join_tree: attached(r.tree, placed, 0),
                filter: all_of(residual_terms(placed, placed.len() as int)),
                ..s
            },
        ),
    }
}

fn find_atom<'a>(atoms: &'a Vec<PredicateAtom>, id: PredicateAtomId) -> (r: Option<
    &'a PredicateAtom,
>)
    ensures
        match r {
            Some(a) => atom_with(views(atoms@), id, 0) == Some(a@),
            None => atom_with(views(atoms@), id, 0) is None,
        },
{
    let mut i: usize = 0;
    while i < atoms.len()
        invariant
            i <= atoms.len(),
            atom_with(views(atoms@), id, 0) == atom_with(views(atoms@), id, i as int),
        decreases atoms.len() - i,
    {
        assert(views(atoms@)[i as int] == atoms@[i as int]@);
        if atoms[i].id == id {
            return Some(&atoms[i]);
        }
        i = i + 1;
    }
    None
}

fn count_up(n: usize) -> (r: Vec<usize>)
    ensures
        r@ == logical_layout(n as nat),
{
    let mut out: Vec<usize> = Vec::new();
    let mut i: usize = 0;
    while i < n
        invariant
            i <= n,
            out@.len() == i,
            forall|k: int| 0 <= k < i ==> #[trigger] out@[k] == k as usize,
        decreases n - i,
    {
        out.push(i);
        i = i + 1;
    }
    assert(out@ =~= logical_layout(n as nat));
    out
}

fn place_term(
    id: PredicateAtomId,
    place: PredicatePlacement,
    atoms: &Vec<PredicateAtom>,
    select: &SelectBody,
    layouts: &Vec<Vec<usize>>,
    logical: &Vec<usize>,
) -> (r: Result<Expr, HtapError>)
    requires
        logical@ == logical_layout(select@.slots.len()),
    ensures
        outcome(r) == placed_term(id, place, views(atoms@), select@.slots, as_layouts(layouts@)),
{
    let a = match find_atom(atoms, id) {
        Some(a) => a,
        None => {
            let n = unsigned_text(id.0 as u64);
            let shown = cat3("PredicateAtomId(", n.as_str(), ")");
            return Err(
                HtapError::Internal(cat3("predicate ", shown.as_str(), " has no extracted atom")),
            );
        },
    };
    match place {
        PredicatePlacement::Join(k) => {
            if k >= layouts.len() {
                let n = unsigned_text(id.0 as u64);
                let shown = cat3("PredicateAtomId(", n.as_str(), ")");
                let head = cat3("predicate ", shown.as_str(), " references missing join node ");
                let join = count_text(k);
                return Err(HtapError::Internal(cat2(head.as_str(), join.as_str())));
            }
            remap_expr(&a.expr, select, &layouts[k])
        },
        _ => remap_expr(&a.expr, select, logical),
    }
}

/// Moves the predicates of a select block to the places that a reordering assigns them.
pub(crate) fn materialize_predicate_placements(
    select: &SelectBody,
    atoms: &Vec<PredicateAtom>,
    reordered: &ReorderedSelect,
) -> (r: Result<SelectBody, HtapError>)
    ensures
        outcome(r) == materialized(select@, views(atoms@), reordered@),
{
    let ghost slots = select@.slots;
    let ghost tree = reordered.join_tree@;
    let mut layouts: Vec<Vec<usize>> = Vec::new();
    collect_join_layouts(&reordered.join_tree, &mut layouts);
    assert(as_layouts(layouts@) =~= join_layouts(tree));
    let logical = count_up(select.slots.len());
    let list = &reordered.predicate_placements;
    let ghost model = placed_terms(
        list@,
        0,
        views(atoms@),
        slots,
        join_layouts(tree),
        Seq::empty(),
    );
    let mut placed: Vec<(PredicatePlacement, Expr)> = Vec::new();
    let mut i: usize = 0;
    assert(view_placed(placed@) =~= Seq::empty());
    while i < list.len()
        invariant
            i <= list.len(),
            slots == select@.slots,
            tree == reordered.join_tree@,
            list@ == reordered.predicate_placements@,
            as_layouts(layouts@) == join_layouts(tree),
            logical@ == logical_layout(select@.slots.len()),
            model == placed_terms(
                list@,
                0,
                views(atoms@),
                slots,
                join_layouts(tree),
                Seq::empty(),
            ),
            model == placed_terms(
                list@,
                i as int,
                views(atoms@),
                slots,
                join_layouts(tree),
                view_placed(placed@),
            ),
        decreases list.len() - i,
    {
        let (id, place) = list[i];
        match place_term(id, place, atoms, select, &layouts, &logical) {
            Ok(x) => {
                let ghost before = placed@;
                placed.push((place, x));
                assert(view_placed(placed@) =~= view_placed(before).push((place, x@)));
            },
            Err(e) => {
                return Err(e);
            },
        }
        i = i + 1;
    }
    let mut out = select.copy();
    let (join_tree, _next): (JoinTree, usize) = attach_join_predicates(
        &reordered.join_tree,
        &placed,
        0,
    );
    let rest = collect_residual(&placed);
    out.filter = and_exprs(&rest);
    out.join_tree = join_tree;
    assert(out@ == (SelectView {
        join_tree: out.join_tree@,
        filter: option_view(out.filter),
        ..select@
    }));
    Ok(out)
}

} // verus!
