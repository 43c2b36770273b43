//! Answers to the requests of evaluations.

use crate::double::{Double, DoubleOp, DoubleOpView};
use crate::text::same_text;
use crate::value::{
    copy_values, outcome, same_values, views, ErrorView, HtapError, Request, RequestView, Row,
    Value, ValueView,
};
use vstd::prelude::*;

verus! {

/// An answer to a [`Request`].
#[derive(Debug)]
pub enum Reply {
    /// The result of an operation on doubles.
    Double(Double),
    /// The result of [`DoubleOp::FromText`].
    Parsed(Option<Double>),
    /// The result of [`DoubleOp::ToText`].
    Text(String),
    /// The result of [`DoubleOp::ToInteger`] or [`DoubleOp::ToScaled`].
    Integer(Option<i64>),
    /// The value of a variable.
    Value(Value),
    /// The rows of a subquery.
    Rows(Vec<Row>),
    /// The request was refused.
    Refused(HtapError),
}

/// The mathematical model of a [`Reply`].
pub enum ReplyView {
    /// See [`Reply::Double`].
    Double(Double),
    /// See [`Reply::Parsed`].
    Parsed(Option<Double>),
    /// See [`Reply::Text`].
    Text(Seq<char>),
    /// See [`Reply::Integer`].
    Integer(Option<i64>),
    /// See [`Reply::Value`].
    Value(ValueView),
    /// See [`Reply::Rows`].
    Rows(Seq<Seq<ValueView>>),
    /// See [`Reply::Refused`].
    Refused(ErrorView),
}

impl View for Reply {
    type V = ReplyView;

    open spec fn view(&self) -> ReplyView {
        match *self {
            Reply::Double(d) => ReplyView::Double(d),
            Reply::Parsed(d) => ReplyView::Parsed(d),
            Reply::Text(t) => ReplyView::Text(t@),
            Reply::Integer(i) => ReplyView::Integer(i),
            Reply::Value(v) => ReplyView::Value(v@),
            Reply::Rows(rows) => ReplyView::Rows(views(rows@)),
            Reply::Refused(e) => ReplyView::Refused(e@),
        }
    }
}

/// The answers collected so far. The first answer to a request counts.
#[derive(Debug)]
pub struct Answers {
    /// Requests with their answers.
    pub entries: Vec<(Request, Reply)>,
}

/// The first answer to `request` among the entries from `i` on.
pub open spec fn first_reply(
    entries: Seq<(Request, Reply)>,
    request: RequestView,
    i: int,
) -> Option<ReplyView>
    decreases entries.len() - i,
{
    if i < 0 || i >= entries.len() {
        None
    } else if entries[i].0@ == request {
        Some(entries[i].1@)
    } else {
        first_reply(entries, request, i + 1)
    }
}

impl Answers {
    /// The answer to a request, if there is one.
    pub open spec fn reply(self, request: RequestView) -> Option<ReplyView> {
        first_reply(self.entries@, request, 0)
    }

    /// The double an operation results in, or the wait for it.
    pub open spec fn double(self, op: DoubleOpView) -> Result<Double, ErrorView> {
        match self.reply(RequestView::Double(op)) {
            Some(ReplyView::Double(d)) => Ok(d),
            _ => Err(ErrorView::Pending(RequestView::Double(op))),
        }
    }

    /// The double a text denotes, or the wait for it.
    pub open spec fn parsed(self, text: Seq<char>) -> Result<Option<Double>, ErrorView> {
        match self.reply(RequestView::Double(DoubleOpView::FromText(text))) {
            Some(ReplyView::Parsed(d)) => Ok(d),
            _ => Err(ErrorView::Pending(RequestView::Double(DoubleOpView::FromText(text)))),
        }
    }

    /// The text of a double, or the wait for it.
    pub open spec fn written(self, d: Double) -> Result<Seq<char>, ErrorView> {
        match self.reply(RequestView::Double(DoubleOpView::ToText(d))) {
            Some(ReplyView::Text(t)) => Ok(t),
            _ => Err(ErrorView::Pending(RequestView::Double(DoubleOpView::ToText(d)))),
        }
    }

    /// The integer an operation on doubles results in, or the wait for it.
    pub open spec fn integer(self, op: DoubleOpView) -> Result<Option<i64>, ErrorView> {
        match self.reply(RequestView::Double(op)) {
            Some(ReplyView::Integer(i)) => Ok(i),
            _ => Err(ErrorView::Pending(RequestView::Double(op))),
        }
    }

    /// The value of a variable, its refusal, or the wait for it.
    pub open spec fn variable(self, name: Seq<char>, is_system: bool) -> Result<
        ValueView,
        ErrorView,
    > {
        match self.reply(RequestView::Variable { name, is_system }) {
            Some(ReplyView::Value(v)) => Ok(v),
            Some(ReplyView::Refused(e)) => Err(e),
            _ => Err(ErrorView::Pending(RequestView::Variable { name, is_system })),
        }
    }

    /// The rows of a correlated subquery for a row, its refusal, or the wait for them.
    pub open spec fn subquery(self, index: usize, outer_row: Seq<ValueView>) -> Result<
        Seq<Seq<ValueView>>,
        ErrorView,
    > {
        match self.reply(RequestView::Subquery { index, outer_row }) {
            Some(ReplyView::Rows(rows)) => Ok(rows),
            Some(ReplyView::Refused(e)) => Err(e),
            _ => Err(ErrorView::Pending(RequestView::Subquery { index, outer_row })),
        }
    }

    /// No answers.
    pub fn new() -> (r: Answers)
        ensures
            r.entries@.len() == 0,
            forall|q: RequestView| (#[trigger] r.reply(q)) is None,
    {
        Answers { entries: Vec::new() }
    }

    /// Records an answer.
    pub fn add(&mut self, request: Request, reply: Reply)
        ensures
            final(self).entries@ == old(self).entries@.push((request, reply)),
    {
        self.entries.push((request, reply));
    }

    /// The answer to a request, if there is one.
    pub fn find(&self, request: &Request) -> (r: Option<&Reply>)
        ensures
            match r {
                Some(reply) => self.reply(request@) == Some(reply@),
                None => self.reply(request@) is None,
            },
    {
        let mut i: usize = 0;
        while i < self.entries.len()
            invariant
                i <= self.entries.len(),
                self.reply(request@) == first_reply(self.entries@, request@, i as int),
            decreases self.entries.len() - i,
        {
            if same_request(&self.entries[i].0, request) {
                return Some(&self.entries[i].1);
            }
            i = i + 1;
        }
        None
    }

    /// The double an operation results in, or the wait for it.
    pub fn get_double(&self, op: DoubleOp) -> (r: Result<Double, HtapError>)
        ensures
            match r {
                Ok(d) => self.double(op@) == Ok::<Double, ErrorView>(d),
                Err(e) => self.double(op@) == Err::<Double, ErrorView>(e@),
            },
    {
        let request = Request::Double(op);
        match self.find(&request) {
            Some(Reply::Double(d)) => Ok(*d),
            _ => Err(HtapError::Pending(request)),
        }
    }

    /// The double a text denotes, or the wait for it.
    pub fn get_parsed(&self, text: &str) -> (r: Result<Option<Double>, HtapError>)
        ensures
            match r {
                Ok(d) => self.parsed(text@) == Ok::<Option<Double>, ErrorView>(d),
                Err(e) => self.parsed(text@) == Err::<Option<Double>, ErrorView>(e@),
            },
    {
        let request = Request::Double(DoubleOp::FromText(crate::text::owned(text)));
        match self.find(&request) {
            Some(Reply::Parsed(d)) => Ok(*d),
            _ => Err(HtapError::Pending(request)),
        }
    }

    /// The text of a double, or the wait for it.
    pub fn get_written(&self, d: Double) -> (r: Result<String, HtapError>)
        ensures
            outcome(r) == self.written(d),
    {
        let request = Request::Double(DoubleOp::ToText(d));
        match self.find(&request) {
            Some(Reply::Text(t)) => Ok(t.clone()),
            _ => Err(HtapError::Pending(request)),
        }
    }

    /// The integer an operation on doubles results in, or the wait for it.
    pub fn get_integer(&self, op: DoubleOp) -> (r: Result<Option<i64>, HtapError>)
        ensures
            match r {
                Ok(i) => self.integer(op@) == Ok::<Option<i64>, ErrorView>(i),
                Err(e) => self.integer(op@) == Err::<Option<i64>, ErrorView>(e@),
            },
    {
        let request = Request::Double(op);
        match self.find(&request) {
            Some(Reply::Integer(i)) => Ok(*i),
            _ => Err(HtapError::Pending(request)),
        }
    }

    /// The value of a variable, its refusal, or the wait for it.
    pub fn get_variable(&self, name: &str, is_system: bool) -> (r: Result<Value, HtapError>)
        ensures
            outcome(r) == self.variable(name@, is_system),
    {
        let request = Request::Variable { name: crate::text::owned(name), is_system };
        match self.find(&request) {
            Some(Reply::Value(v)) => Ok(v.copy()),
            Some(Reply::Refused(e)) => Err(copy_error(e)),
            _ => Err(HtapError::Pending(request)),
        }
    }

    /// The rows of a correlated subquery for a row, its refusal, or the wait for them.
    pub fn get_subquery(&self, index: usize, outer_row: &[Value]) -> (r: Result<
        &Vec<Row>,
        HtapError,
    >)
        ensures
            match r {
                Ok(rows) => self.subquery(index, views(outer_row@)) == Ok::<
                    Seq<Seq<ValueView>>,
                    ErrorView,
                >(views(rows@)),
                Err(e) => self.subquery(index, views(outer_row@)) == Err::<
                    Seq<Seq<ValueView>>,
                    ErrorView,
                >(e@),
            },
    {
        let request = Request::Subquery { index, outer_row: copy_values(outer_row) };
        match self.find(&request) {
            Some(Reply::Rows(rows)) => Ok(rows),
            Some(Reply::Refused(e)) => Err(copy_error(e)),
            _ => Err(HtapError::Pending(request)),
        }
    }
}

fn same_op(a: &DoubleOp, b: &DoubleOp) -> (r: bool)
    ensures
        r == (a@ == b@),
{
    match (a, b) {
        (DoubleOp::Add(a1, a2), DoubleOp::Add(b1, b2)) => *a1 == *b1 && *a2 == *b2,
        (DoubleOp::Sub(a1, a2), DoubleOp::Sub(b1, b2)) => *a1 == *b1 && *a2 == *b2,
        (DoubleOp::Mul(a1, a2), DoubleOp::Mul(b1, b2)) => *a1 == *b1 && *a2 == *b2,
        (DoubleOp::Div(a1, a2), DoubleOp::Div(b1, b2)) => *a1 == *b1 && *a2 == *b2,
        (DoubleOp::Rem(a1, a2), DoubleOp::Rem(b1, b2)) => *a1 == *b1 && *a2 == *b2,
        (DoubleOp::FromInteger(a1), DoubleOp::FromInteger(b1)) => *a1 == *b1,
        (DoubleOp::FromDecimal(a1, a2), DoubleOp::FromDecimal(b1, b2)) => *a1 == *b1 && *a2 == *b2,
        (DoubleOp::FromText(a1), DoubleOp::FromText(b1)) => same_text(a1.as_str(), b1.as_str()),
        (DoubleOp::ToText(a1), DoubleOp::ToText(b1)) => *a1 == *b1,
        (DoubleOp::ToInteger(a1), DoubleOp::ToInteger(b1)) => *a1 == *b1,
        (DoubleOp::ToScaled(a1, a2), DoubleOp::ToScaled(b1, b2)) => *a1 == *b1 && *a2 == *b2,
        _ => false,
    }
}

fn same_request(a: &Request, b: &Request) -> (r: bool)
    ensures
        r == (a@ == b@),
{
    match (a, b) {
        (Request::Double(x), Request::Double(y)) => same_op(x, y),
        (
            Request::Variable { name, is_system },
            Request::Variable { name: name2, is_system: is_system2 },
        ) => same_text(name.as_str(), name2.as_str()) && *is_system == *is_system2,
        (
            Request::Subquery { index, outer_row },
            Request::Subquery { index: index2, outer_row: outer_row2 },
        ) => *index == *index2 && same_values(outer_row, outer_row2),
        _ => false,
    }
}

fn copy_op(op: &DoubleOp) -> (r: DoubleOp)
    ensures
        r == *op,
{
    match op {
        DoubleOp::Add(a, b) => DoubleOp::Add(*a, *b),
        DoubleOp::Sub(a, b) => DoubleOp::Sub(*a, *b),
        DoubleOp::Mul(a, b) => DoubleOp::Mul(*a, *b),
        DoubleOp::Div(a, b) => DoubleOp::Div(*a, *b),
        DoubleOp::Rem(a, b) => DoubleOp::Rem(*a, *b),
        DoubleOp::FromInteger(i) => DoubleOp::FromInteger(*i),
        DoubleOp::FromDecimal(v, s) => DoubleOp::FromDecimal(*v, *s),
        DoubleOp::FromText(t) => DoubleOp::FromText(t.clone()),
        DoubleOp::ToText(d) => DoubleOp::ToText(*d),
        DoubleOp::ToInteger(d) => DoubleOp::ToInteger(*d),
        DoubleOp::ToScaled(d, s) => DoubleOp::ToScaled(*d, *s),
    }
}

/// A copy of an error.
pub(crate) fn copy_error(e: &HtapError) -> (r: HtapError)
    ensures
        r@ == e@,
{
    match e {
        HtapError::InvalidArgument(s) => HtapError::InvalidArgument(s.clone()),
        HtapError::Unsupported(s) => HtapError::Unsupported(s.clone()),
        HtapError::NotFound(s) => HtapError::NotFound(s.clone()),
        HtapError::Internal(s) => HtapError::Internal(s.clone()),
        HtapError::Pending(Request::Double(op)) => HtapError::Pending(Request::Double(copy_op(op))),
        HtapError::Pending(Request::Variable { name, is_system }) => HtapError::Pending(
            Request::Variable { name: name.clone(), is_system: *is_system },
        ),
        HtapError::Pending(Request::Subquery { index, outer_row }) => HtapError::Pending(
            Request::Subquery { index: *index, outer_row: copy_values(outer_row) },
        ),
    }
}

} // verus!
