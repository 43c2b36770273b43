//! What is done about a request of an evaluation.
//!
//! A correlated subquery is accounted for before it runs, and again once it has ended, however it
//! ended. One that the limits do not admit is not run. The budget does not count any other request.

use crate::answers::{Reply, ReplyView};
use crate::double::{DoubleOp, DoubleOpView};
use crate::eval::SubqueryBudget;
use crate::value::{views, ErrorView, HtapError, Request, RequestView, Row, Value, ValueView};
use vstd::prelude::*;

verus! {

/// What a request is waiting for.
#[derive(Debug)]
pub enum Work {
    /// The result of an operation on doubles.
    Compute(DoubleOp),
    /// The value of a variable.
    Look {
        /// Name without its `@` or `@@` and without a scope.
        name: String,
        /// Whether a system variable is meant.
        is_system: bool,
    },
    /// The end of a subquery that has been accounted for.
    Run {
        /// Index in the query's subquery list.
        index: usize,
        /// The row that the subquery refers to.
        outer_row: Vec<Value>,
    },
    /// Nothing: this is the answer.
    Done(Reply),
}

/// The mathematical model of a [`Work`].
pub enum WorkView {
    /// See [`Work::Compute`].
    Compute(DoubleOpView),
    /// See [`Work::Look`].
    Look {
        /// Name without its `@` or `@@` and without a scope.
        name: Seq<char>,
        /// Whether a system variable is meant.
        is_system: bool,
    },
    /// See [`Work::Run`].
    Run {
        /// Index in the query's subquery list.
        index: usize,
        /// The row that the subquery refers to.
        outer_row: Seq<ValueView>,
    },
    /// See [`Work::Done`].
    Done(ReplyView),
}

impl View for Work {
    type V = WorkView;

    open spec fn view(&self) -> WorkView {
        match *self {
            Work::Compute(op) => WorkView::Compute(op@),
            Work::Look { name, is_system } => WorkView::Look { name: name@, is_system },
            Work::Run { index, outer_row } => WorkView::Run { index, outer_row: views(outer_row@) },
            Work::Done(reply) => WorkView::Done(reply@),
        }
    }
}

/// What there is to do about a request, with the budget before it.
pub open spec fn work_of(request: RequestView, budget: SubqueryBudget) -> WorkView {
    match request {
        RequestView::Double(op) => WorkView::Compute(op),
        RequestView::Variable { name, is_system } => WorkView::Look { name, is_system },
        RequestView::Subquery { index, outer_row } => match budget.refusal() {
            Some(e) => WorkView::Done(ReplyView::Refused(e)),
            None => WorkView::Run { index, outer_row },
        },
    }
}

/// The budget once the work on a request has begun.
pub open spec fn budget_begun(request: RequestView, budget: SubqueryBudget) -> SubqueryBudget {
    if request is Subquery && budget.refusal() is None {
        budget.entered()
    } else {
        budget
    }
}

/// The answer to a request for the rows of a subquery, by how the subquery ended.
pub open spec fn subquery_reply(result: Result<Seq<Seq<ValueView>>, ErrorView>) -> ReplyView {
    match result {
        Ok(rows) => ReplyView::Rows(rows),
        Err(e) => ReplyView::Refused(e),
    }
}

/// Begins the work on a request: a subquery is accounted for here, before it runs.
pub fn begin(request: Request, budget: &mut SubqueryBudget) -> (r: Work)
    requires
        old(budget).within(),
    ensures
        final(budget).within(),
        *final(budget) == budget_begun(request@, *old(budget)),
        r@ == work_of(request@, *old(budget)),
        r is Run ==> final(budget).depth > 0,
{
    match request {
        Request::Double(op) => Work::Compute(op),
        Request::Variable { name, is_system } => Work::Look { name, is_system },
        Request::Subquery { index, outer_row } => match budget.enter() {
            Ok(_) => Work::Run { index, outer_row },
            Err(e) => Work::Done(Reply::Refused(e)),
        },
    }
}

/// Ends the work on a subquery, whether it gave rows or failed: it no longer counts as running.
pub fn finish(result: Result<Vec<Row>, HtapError>, budget: &mut SubqueryBudget) -> (r: Reply)
    requires
        old(budget).depth > 0,
        old(budget).within(),
    ensures
        final(budget).within(),
        *final(budget) == old(budget).left(),
        r@ == subquery_reply(
            match result {
                Ok(rows) => Ok(views(rows@)),
                Err(e) => Err(e@),
            },
        ),
{
    budget.exit();
    match result {
        Ok(rows) => Reply::Rows(rows),
        Err(e) => Reply::Refused(e),
    }
}

/// A request for the rows of a subquery counts once: between its beginning and its end the
/// subquery runs one level deeper, with the row that was asked about, and after its end the budget
/// differs from what it was by one invocation.
pub proof fn a_subquery_counts_once(index: usize, outer_row: Seq<ValueView>, budget: SubqueryBudget)
    requires
        budget.within(),
        budget.refusal() is None,
    ensures
        ({
            let request = RequestView::Subquery { index, outer_row };
            let begun = budget_begun(request, budget);
            &&& work_of(request, budget) == (WorkView::Run { index, outer_row })
            &&& begun.depth == budget.depth + 1
            &&& begun.left() == (SubqueryBudget {
                invocations: (budget.invocations + 1) as usize,
                ..budget
            })
        }),
{
}

} // verus!
