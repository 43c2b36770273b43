//! The rows of a select block: what its join tree and its filter let through.
//!
//! A row of a join is told apart by the rows it is made of, so a row is modelled by a choice: for
//! every slot the position of one of its rows, or nothing where the join fills the slot with
//! `NULL`. Two select blocks that let the same choices through give the same rows, each as often.

use crate::atoms::{leaf_order, slot_set};
use crate::eval::{eval_of, ContextView};
use crate::expr::ExprView;
use crate::materialize::{always, logical_layout};
use crate::query::{JoinKind, SelectView, SlotView, TreeView};
use crate::value::{ErrorView, ValueView};
use vstd::prelude::*;

verus! {

/// What a select block reads.
pub struct World {
    /// The slots of the select block.
    pub slots: Seq<SlotView>,
    /// The rows of every slot.
    pub tables: Seq<Seq<Seq<ValueView>>>,
    /// What predicates are evaluated with besides the row.
    pub context: ContextView,
}

impl World {
    /// Whether there are rows for every slot, each with a value for every column.
    pub open spec fn fits(self) -> bool {
        self.tables.len() == self.slots.len() && forall|s: int, i: int|
            0 <= s < self.tables.len() && 0 <= i < self.tables[s].len()
                ==> (#[trigger] self.tables[s][i]).len() == self.slots[s].columns().len()
    }

    /// Whether a slot has a row at a position.
    pub open spec fn has_row(self, slot: usize, i: int) -> bool {
        slot < self.tables.len() && 0 <= i < self.tables[slot as int].len()
    }

    /// The values of a slot in a choice: those of its row, or `NULL` for every column.
    pub open spec fn part(self, slot: usize, a: spec_fn(usize) -> Option<int>) -> Seq<ValueView> {
        match a(slot) {
            Some(i) if self.has_row(slot, i) => self.tables[slot as int][i],
            _ => Seq::new(self.slots[slot as int].columns().len(), |k: int| ValueView::Null),
        }
    }

    /// The values of the slots of a layout, one behind the other.
    pub open spec fn flat(self, layout: Seq<usize>, a: spec_fn(usize) -> Option<int>) -> Seq<
        ValueView,
    >
        decreases layout.len(),
    {
        if layout.len() == 0 {
            Seq::empty()
        } else {
            self.flat(layout.drop_last(), a) + self.part(layout.last(), a)
        }
    }

    /// What a predicate at a place with a layout is evaluated with.
    pub open spec fn at(self, layout: Seq<usize>, a: spec_fn(usize) -> Option<int>) -> ContextView {
        ContextView { row: self.flat(layout, a), ..self.context }
    }

    /// Whether a predicate is `TRUE` at a place with a layout.
    pub open spec fn yes(
        self,
        e: ExprView,
        layout: Seq<usize>,
        a: spec_fn(usize) -> Option<int>,
    ) -> bool {
        eval_of(e, self.at(layout, a)) == Ok::<ValueView, ErrorView>(ValueView::Bool(true))
    }

    /// Whether the condition of a join lets a choice through. The condition that stands for none is
    /// always true.
    pub open spec fn joins_on(
        self,
        on: Option<ExprView>,
        layout: Seq<usize>,
        a: spec_fn(usize) -> Option<int>,
    ) -> bool {
        match on {
            None => true,
            Some(e) => e == always() || self.yes(e, layout, a),
        }
    }

    /// Whether a choice, as far as it concerns the slots of a tree, is a row of the tree.
    pub open spec fn gives(self, t: TreeView, a: spec_fn(usize) -> Option<int>) -> bool
        decreases t,
    {
        match t {
            TreeView::Leaf(slot) => a(slot) matches Some(i) && self.has_row(slot, i),
            TreeView::Join { kind, left, right, on } => {
                let layout = leaf_order(t);
                let l = slot_set(*left);
                let r = slot_set(*right);
                let both = self.gives(*left, a) && self.gives(*right, a) && (kind
                    == JoinKind::Cross || self.joins_on(on, layout, a));
                let left_alone = self.gives(*left, a) && absent(r, a) && forall|b: spec_fn(
                    usize,
                ) -> Option<int>|
                    agree(l, a, b) && self.gives(*right, b) ==> !#[trigger] self.joins_on(
                        on,
                        layout,
                        b,
                    );
                let right_alone = self.gives(*right, a) && absent(l, a) && forall|b: spec_fn(
                    usize,
                ) -> Option<int>|
                    agree(r, a, b) && self.gives(*left, b) ==> !#[trigger] self.joins_on(
                        on,
                        layout,
                        b,
                    );
                match kind {
                    JoinKind::Inner | JoinKind::Cross => both,
                    JoinKind::Left => both || left_alone,
                    JoinKind::Right => both || right_alone,
                    JoinKind::Full => both || left_alone || right_alone,
                }
            },
        }
    }

    /// Whether a choice is a row of a select block before grouping: a row of its join tree for
    /// which its filter is `TRUE`.
    pub open spec fn selects(self, s: SelectView, a: spec_fn(usize) -> Option<int>) -> bool {
        self.gives(s.join_tree, a) && (s.filter matches Some(f) ==> self.yes(
            f,
            logical_layout(s.slots.len()),
            a,
        ))
    }
}

/// Whether a choice takes no row of the given slots.
pub open spec fn absent(slots: Set<usize>, a: spec_fn(usize) -> Option<int>) -> bool {
    forall|s: usize| slots.contains(s) ==> (#[trigger] a(s)) is None
}

/// Whether two choices take the same rows of the given slots.
pub open spec fn agree(
    slots: Set<usize>,
    a: spec_fn(usize) -> Option<int>,
    b: spec_fn(usize) -> Option<int>,
) -> bool {
    forall|s: usize| slots.contains(s) ==> (#[trigger] a(s)) == b(s)
}

} // verus!
