//! Evaluation of bound expressions.
//!
//! Comparisons with `NULL` yield `NULL`, `AND`, `OR` and `NOT` follow Kleene's tables, and `CASE`
//! evaluates the chosen branch only. What cannot be computed here (operations on doubles, session
//! variables, correlated subqueries) is asked for: an evaluation that needs an answer it does not
//! have stops with [`HtapError::Pending`], and is repeated once the answer is there.

use crate::answers::Answers;
use crate::arithmetic::{arithmetic, arithmetic_view, type_error, type_error_view};
use crate::calendar::{
    add_calendar_interval, date_of_timestamp, interval_view, timestamp_date,
};
use crate::convert::{
    cast_value, cast_view, compare_view, conform, conform_view, rank_values, text_of_value,
    value_text, Rank,
};
use crate::decimal::{overflow, overflow_view};
use crate::expr::{
    view_branches, view_exprs, BinOp, CalendarIntervalUnit, Expr, ExprView, ScalarFn,
};
use crate::text::{
    cat3, cat5, cat6, chars_of, count_text, nat_text, owned, text_of_bytes,
};
use crate::value::{
    lemma_views_push, option_view, outcome, views, DataType, ErrorView, HtapError, Row, Value, ValueView,
};
use vstd::prelude::*;

verus! {

/// Limits of correlated-subquery execution within one statement.
#[derive(Debug)]
pub struct SubqueryBudget {
    /// Subqueries run so far.
    pub invocations: usize,
    /// Subqueries running now, one inside the other.
    pub depth: usize,
    /// The most that may be run.
    pub invocation_cap: usize,
    /// The most that may run one inside the other.
    pub depth_cap: usize,
}

impl SubqueryBudget {
    /// Whether no limit has been passed.
    pub open spec fn within(self) -> bool {
        self.invocations <= self.invocation_cap && self.depth <= self.depth_cap
    }

    /// Creates a budget with explicit total-invocation and nesting-depth caps.
    pub fn new(invocation_cap: usize, depth_cap: usize) -> (r: SubqueryBudget)
        ensures
            r.invocations == 0,
            r.depth == 0,
            r.invocation_cap == invocation_cap,
            r.depth_cap == depth_cap,
            r.within(),
    {
        SubqueryBudget { invocations: 0, depth: 0, invocation_cap, depth_cap }
    }

    /// Why no further subquery may start, if that is so.
    pub open spec fn refusal(self) -> Option<ErrorView> {
        if self.invocations >= self.invocation_cap {
            Some(
                ErrorView::InvalidArgument(
                    "correlated subquery invocation cap ("@ + nat_text(self.invocation_cap as nat)
                        + ") exceeded"@,
                ),
            )
        } else if self.depth >= self.depth_cap {
            Some(
                ErrorView::InvalidArgument(
                    "correlated subquery nesting-depth cap ("@ + nat_text(self.depth_cap as nat)
                        + ") exceeded"@,
                ),
            )
        } else {
            None
        }
    }

    /// The budget once a further subquery has started.
    pub open spec fn entered(self) -> SubqueryBudget {
        SubqueryBudget {
            invocations: (self.invocations + 1) as usize,
            depth: (self.depth + 1) as usize,
            ..self
        }
    }

    /// The budget once the innermost subquery has ended.
    pub open spec fn left(self) -> SubqueryBudget {
        SubqueryBudget { depth: (self.depth - 1) as usize, ..self }
    }

    /// Accounts for the start of a subquery, or refuses it.
    pub fn enter(&mut self) -> (r: Result<(), HtapError>)
        requires
            old(self).within(),
        ensures
            final(self).within(),
            match r {
                Ok(_) => old(self).refusal() is None && *final(self) == old(self).entered(),
                Err(e) => old(self).refusal() == Some(e@) && *final(self) == *old(self),
            },
    {
        if self.invocations >= self.invocation_cap {
            let n = count_text(self.invocation_cap);
            return Err(
                HtapError::InvalidArgument(
                    cat3("correlated subquery invocation cap (", n.as_str(), ") exceeded"),
                ),
            );
        }
        if self.depth >= self.depth_cap {
            let n = count_text(self.depth_cap);
            return Err(
                HtapError::InvalidArgument(
                    cat3("correlated subquery nesting-depth cap (", n.as_str(), ") exceeded"),
                ),
            );
        }
        self.invocations = self.invocations + 1;
        self.depth = self.depth + 1;
        Ok(())
    }

    /// Accounts for the end of a subquery.
    pub fn exit(&mut self)
        requires
            old(self).depth > 0,
            old(self).within(),
        ensures
            final(self).within(),
            *final(self) == old(self).left(),
    {
        self.depth = self.depth - 1;
    }
}

/// Which outside services stand ready to answer requests.
#[derive(Clone, Copy, Debug, PartialEq, Eq, Structural)]
pub struct EvalServices {
    /// Session variables can be asked for.
    pub variables: bool,
    /// Correlated subqueries can be run.
    pub subquery_runner: bool,
    /// Correlated subqueries are accounted for.
    pub subquery_budget: bool,
}

impl EvalServices {
    /// No services.
    pub fn none() -> (r: EvalServices)
        ensures
            r == (EvalServices {
                variables: false,
                subquery_runner: false,
                subquery_budget: false,
            }),
    {
        EvalServices { variables: false, subquery_runner: false, subquery_budget: false }
    }
}

/// Values an expression may need while being evaluated.
#[derive(Clone, Copy, Debug)]
pub struct EvalContext<'a> {
    /// Flat joined input row.
    pub row: &'a [Value],
    /// Row of the immediately enclosing query.
    pub current_outer_row: Option<&'a [Value]>,
    /// Aggregate results of the current group.
    pub aggregates: &'a [Value],
    /// Projected output row, if already computed.
    pub output: Option<&'a [Value]>,
    /// Results of uncorrelated subqueries.
    pub subqueries: &'a [Vec<Row>],
    /// Outside services.
    pub services: EvalServices,
    /// Answers to requests.
    pub answers: &'a Answers,
}

/// The mathematical model of an [`EvalContext`].
pub struct ContextView {
    /// Flat joined input row.
    pub row: Seq<ValueView>,
    /// Row of the immediately enclosing query.
    pub outer: Option<Seq<ValueView>>,
    /// Aggregate results of the current group.
    pub aggregates: Seq<ValueView>,
    /// Projected output row.
    pub output: Option<Seq<ValueView>>,
    /// Results of uncorrelated subqueries.
    pub subqueries: Seq<Seq<Seq<ValueView>>>,
    /// Outside services.
    pub services: EvalServices,
    /// Answers to requests.
    pub answers: Answers,
}

impl<'a> View for EvalContext<'a> {
    type V = ContextView;

    open spec fn view(&self) -> ContextView {
        ContextView {
            row: views(self.row@),
            outer: match self.current_outer_row {
                Some(r) => Some(views(r@)),
                None => None,
            },
            aggregates: views(self.aggregates@),
            output: match self.output {
                Some(r) => Some(views(r@)),
                None => None,
            },
            subqueries: Seq::new(self.subqueries@.len(), |i: int| views(self.subqueries@[i]@)),
            services: self.services,
            answers: *self.answers,
        }
    }
}

impl<'a> EvalContext<'a> {
    /// A context of its parts.
    pub fn new(
        row: &'a [Value],
        current_outer_row: Option<&'a [Value]>,
        aggregates: &'a [Value],
        output: Option<&'a [Value]>,
        subqueries: &'a [Vec<Row>],
        services: EvalServices,
        answers: &'a Answers,
    ) -> (r: EvalContext<'a>)
        ensures
            r.row == row,
            r.current_outer_row == current_outer_row,
            r.aggregates == aggregates,
            r.output == output,
            r.subqueries == subqueries,
            r.services == services,
            r.answers == answers,
    {
        EvalContext {
            row,
            current_outer_row,
            aggregates,
            output,
            subqueries,
            services,
            answers,
        }
    }

    /// Context with only an input row.
    pub fn row_only(row: &'a [Value], answers: &'a Answers) -> (r: EvalContext<'a>)
        ensures
            r@ == row_context(views(row@), *answers),
    {
        let r = EvalContext {
            row,
            current_outer_row: None,
            aggregates: &[],
            output: None,
            subqueries: &[],
            services: EvalServices::none(),
            answers,
        };
        assert(r@.aggregates =~= Seq::empty());
        assert(r@.subqueries =~= Seq::empty());
        r
    }
}

/// The context with only an input row.
pub open spec fn row_context(row: Seq<ValueView>, answers: Answers) -> ContextView {
    ContextView {
        row,
        outer: None,
        aggregates: Seq::empty(),
        output: None,
        subqueries: Seq::empty(),
        services: EvalServices {
            variables: false,
            subquery_runner: false,
            subquery_budget: false,
        },
        answers,
    }
}

/// Kleene's conjunction.
pub open spec fn conjunction(a: Option<bool>, b: Option<bool>) -> Option<bool> {
    if a == Some(false) || b == Some(false) {
        Some(false)
    } else if a == Some(true) && b == Some(true) {
        Some(true)
    } else {
        None
    }
}

/// Kleene's disjunction.
pub open spec fn disjunction(a: Option<bool>, b: Option<bool>) -> Option<bool> {
    if a == Some(true) || b == Some(true) {
        Some(true)
    } else if a == Some(false) && b == Some(false) {
        Some(false)
    } else {
        None
    }
}

/// Kleene's conjunction.
pub fn and3(a: Option<bool>, b: Option<bool>) -> (r: Option<bool>)
    ensures
        r == conjunction(a, b),
{
    match (a, b) {
        (Some(false), _) => Some(false),
        (_, Some(false)) => Some(false),
        (Some(true), Some(true)) => Some(true),
        _ => None,
    }
}

/// Kleene's disjunction.
pub fn or3(a: Option<bool>, b: Option<bool>) -> (r: Option<bool>)
    ensures
        r == disjunction(a, b),
{
    match (a, b) {
        (Some(true), _) => Some(true),
        (_, Some(true)) => Some(true),
        (Some(false), Some(false)) => Some(false),
        _ => None,
    }
}

/// A value as a truth value; `NULL` is unknown.
pub open spec fn truth(v: ValueView, op: Seq<char>) -> Result<Option<bool>, ErrorView> {
    match v {
        ValueView::Null => Ok(None),
        ValueView::Bool(b) => Ok(Some(b)),
        _ => Err(type_error_view(op, v)),
    }
}

/// A truth value as a value.
pub open spec fn truth_value(b: Option<bool>) -> ValueView {
    match b {
        None => ValueView::Null,
        Some(b) => ValueView::Bool(b),
    }
}

fn to_bool3(v: &Value, op: &str) -> (r: Result<Option<bool>, HtapError>)
    ensures
        match r {
            Ok(b) => truth(v@, op@) == Ok::<Option<bool>, ErrorView>(b),
            Err(e) => truth(v@, op@) == Err::<Option<bool>, ErrorView>(e@),
        },
{
    match v {
        Value::Null => Ok(None),
        Value::Bool(b) => Ok(Some(*b)),
        _ => Err(type_error(op, v)),
    }
}

fn bool3_to_value(b: Option<bool>) -> (r: Value)
    ensures
        r@ == truth_value(b),
{
    match b {
        None => Value::Null,
        Some(b) => Value::Bool(b),
    }
}

/// A text in Unicode lower case.
pub uninterp spec fn unicode_lower(s: Seq<char>) -> Seq<char>;

/// A text in Unicode upper case.
pub uninterp spec fn unicode_upper(s: Seq<char>) -> Seq<char>;

/// `str::to_lowercase`: the text in Unicode lower case.
#[verifier::external_body]
fn lower_text(s: &str) -> (r: String)
    ensures
        r@ == unicode_lower(s@),
{
    s.to_lowercase()
}

/// `str::to_uppercase`: the text in Unicode upper case.
#[verifier::external_body]
fn upper_text(s: &str) -> (r: String)
    ensures
        r@ == unicode_upper(s@),
{
    s.to_uppercase()
}

/// Whether a text matches a pattern in which `%` stands for any characters and `_` for one.
pub open spec fn matches_pattern(v: Seq<char>, p: Seq<char>) -> bool
    decreases p.len(), v.len(),
{
    if p.len() == 0 {
        v.len() == 0
    } else if p[0] == '%' {
        matches_pattern(v, p.skip(1)) || (v.len() > 0 && matches_pattern(v.skip(1), p))
    } else {
        v.len() > 0 && (p[0] == '_' || v[0] == p[0]) && matches_pattern(v.skip(1), p.skip(1))
    }
}

/// Whether characters match a pattern.
pub fn like_rec(v: &[char], p: &[char]) -> (r: bool)
    ensures
        r == matches_pattern(v@, p@),
{
    assert(v@.skip(0) =~= v@);
    assert(p@.skip(0) =~= p@);
    like_from(v, 0, p, 0)
}

fn like_from(v: &[char], i: usize, p: &[char], j: usize) -> (r: bool)
    requires
        i <= v@.len(),
        j <= p@.len(),
    ensures
        r == matches_pattern(v@.skip(i as int), p@.skip(j as int)),
    decreases p@.len() - j, v@.len() - i,
{
    let ghost a = v@.skip(i as int);
    let ghost b = p@.skip(j as int);
    if j == p.len() {
        return i == v.len();
    }
    proof {
        assert(b[0] == p@[j as int]);
        assert(b.skip(1) =~= p@.skip(j + 1));
        if i < v@.len() {
            assert(a[0] == v@[i as int]);
            assert(a.skip(1) =~= v@.skip(i + 1));
        }
    }
    let c = p[j];
    if c == '%' {
        if like_from(v, i, p, j + 1) {
            return true;
        }
        if i < v.len() {
            return like_from(v, i + 1, p, j);
        }
        return false;
    }
    if i < v.len() && (c == '_' || v[i] == c) {
        return like_from(v, i + 1, p, j + 1);
    }
    false
}

/// `LIKE` matcher with `%` and `_`, case-insensitive.
pub fn like_match(value: &str, pattern: &str) -> (r: bool)
    ensures
        r == matches_pattern(unicode_lower(value@), unicode_lower(pattern@)),
{
    let a = lower_text(value);
    let b = lower_text(pattern);
    let v = chars_of(a.as_str());
    let p = chars_of(b.as_str());
    like_rec(v.as_slice(), p.as_slice())
}

/// The result of a comparison operator, given how its operands stand to each other.
pub open spec fn rank_satisfies(op: BinOp, r: Rank) -> bool {
    match op {
        BinOp::Eq => r == Rank::Equal,
        BinOp::NotEq => r != Rank::Equal,
        BinOp::Lt => r == Rank::Less,
        BinOp::Lte => r != Rank::Greater,
        BinOp::Gt => r == Rank::Greater,
        _ => r != Rank::Less,
    }
}

fn satisfies(op: BinOp, r: Rank) -> (b: bool)
    ensures
        b == rank_satisfies(op, r),
{
    match op {
        BinOp::Eq => r == Rank::Equal,
        BinOp::NotEq => r != Rank::Equal,
        BinOp::Lt => r == Rank::Less,
        BinOp::Lte => r != Rank::Greater,
        BinOp::Gt => r == Rank::Greater,
        _ => r != Rank::Less,
    }
}

/// A comparison or arithmetic operator on two values.
pub open spec fn strict_operation(op: BinOp, l: ValueView, r: ValueView, answers: Answers) -> Result<
    ValueView,
    ErrorView,
> {
    if l is Null || r is Null {
        Ok(ValueView::Null)
    } else if op.comparison() {
        match compare_view(l, r, answers) {
            Err(e) => Err(e),
            Ok(None) => Ok(ValueView::Null),
            Ok(Some(k)) => Ok(ValueView::Bool(rank_satisfies(op, k))),
        }
    } else {
        arithmetic_view(op, l, r, answers)
    }
}

fn operate_strictly(op: BinOp, l: &Value, r: &Value, answers: &Answers) -> (res: Result<
    Value,
    HtapError,
>)
    ensures
        outcome(res) == strict_operation(op, l@, r@, *answers),
{
    if l.is_null() || r.is_null() {
        return Ok(Value::Null);
    }
    if op.is_comparison() {
        return match rank_values(l, r, answers) {
            Err(e) => Err(e),
            Ok(None) => Ok(Value::Null),
            Ok(Some(k)) => Ok(Value::Bool(satisfies(op, k))),
        };
    }
    arithmetic(op, l, r, answers)
}

/// The negation of a value.
pub open spec fn negated_value(v: ValueView) -> Result<ValueView, ErrorView> {
    match v {
        ValueView::Null => Ok(ValueView::Null),
        ValueView::Int32(i) => Ok(ValueView::Int64((-i) as i64)),
        ValueView::Int64(i) => if i == i64::MIN {
            Err(overflow_view("-"@))
        } else {
            Ok(ValueView::Int64((-i) as i64))
        },
        ValueView::Timestamp(i) => if i == i64::MIN {
            Err(overflow_view("-"@))
        } else {
            Ok(ValueView::Int64((-i) as i64))
        },
        ValueView::Float64(d) => Ok(ValueView::Float64(d.negated())),
        ValueView::Decimal { value, precision, scale } => if value == i64::MIN {
            Err(overflow_view("-"@))
        } else {
            Ok(ValueView::Decimal { value: (-value) as i64, precision, scale })
        },
        _ => Err(type_error_view("unary -"@, v)),
    }
}

fn negate_value(v: &Value) -> (r: Result<Value, HtapError>)
    ensures
        outcome(r) == negated_value(v@),
{
    match v {
        Value::Null => Ok(Value::Null),
        Value::Int32(i) => Ok(Value::Int64(-(*i as i64))),
        Value::Int64(i) => if *i == i64::MIN {
            Err(overflow("-"))
        } else {
            Ok(Value::Int64(-*i))
        },
        Value::Timestamp(i) => if *i == i64::MIN {
            Err(overflow("-"))
        } else {
            Ok(Value::Int64(-*i))
        },
        Value::Float64(d) => Ok(Value::Float64(d.neg())),
        Value::Decimal { value, precision, scale } => if *value == i64::MIN {
            Err(overflow("-"))
        } else {
            Ok(Value::Decimal { value: -*value, precision: *precision, scale: *scale })
        },
        _ => Err(type_error("unary -", v)),
    }
}

/// The magnitude of a value.
pub open spec fn absolute_value(v: ValueView) -> Result<ValueView, ErrorView> {
    match v {
        ValueView::Null => Ok(ValueView::Null),
        ValueView::Int32(i) => if i == i32::MIN {
            Err(overflow_view("ABS"@))
        } else {
            Ok(
                ValueView::Int32(
                    if i < 0 {
                        (-i) as i32
                    } else {
                        i
                    },
                ),
            )
        },
        ValueView::Int64(i) => if i == i64::MIN {
            Err(overflow_view("ABS"@))
        } else {
            Ok(
                ValueView::Int64(
                    if i < 0 {
                        (-i) as i64
                    } else {
                        i
                    },
                ),
            )
        },
        ValueView::Float64(d) => Ok(ValueView::Float64(d.absolute())),
        ValueView::Decimal { value, precision, scale } => if value == i64::MIN {
            Err(overflow_view("ABS"@))
        } else {
            Ok(
                ValueView::Decimal {
                    value: if value < 0 {
                        (-value) as i64
                    } else {
                        value
                    },
                    precision,
                    scale,
                },
            )
        },
        _ => Err(type_error_view("ABS"@, v)),
    }
}

fn absolute(v: &Value) -> (r: Result<Value, HtapError>)
    ensures
        outcome(r) == absolute_value(v@),
{
    match v {
        Value::Null => Ok(Value::Null),
        Value::Int32(i) => if *i == i32::MIN {
            Err(overflow("ABS"))
        } else if *i < 0 {
            Ok(Value::Int32(-*i))
        } else {
            Ok(Value::Int32(*i))
        },
        Value::Int64(i) => if *i == i64::MIN {
            Err(overflow("ABS"))
        } else if *i < 0 {
            Ok(Value::Int64(-*i))
        } else {
            Ok(Value::Int64(*i))
        },
        Value::Float64(d) => Ok(Value::Float64(d.abs())),
        Value::Decimal { value, precision, scale } => if *value == i64::MIN {
            Err(overflow("ABS"))
        } else if *value < 0 {
            Ok(Value::Decimal { value: -*value, precision: *precision, scale: *scale })
        } else {
            Ok(Value::Decimal { value: *value, precision: *precision, scale: *scale })
        },
        _ => Err(type_error("ABS", v)),
    }
}

/// The result of `LIKE` on two values.
pub open spec fn like_value(v: ValueView, p: ValueView, negated: bool) -> Result<
    ValueView,
    ErrorView,
> {
    match (v, p) {
        (ValueView::Null, _) => Ok(ValueView::Null),
        (_, ValueView::Null) => Ok(ValueView::Null),
        (ValueView::String(s), ValueView::String(t)) => Ok(
            ValueView::Bool(matches_pattern(unicode_lower(s), unicode_lower(t)) != negated),
        ),
        _ => Err(type_error_view("LIKE"@, v)),
    }
}

fn like(v: &Value, p: &Value, negated: bool) -> (r: Result<Value, HtapError>)
    ensures
        outcome(r) == like_value(v@, p@, negated),
{
    match (v, p) {
        (Value::Null, _) => Ok(Value::Null),
        (_, Value::Null) => Ok(Value::Null),
        (Value::String(s), Value::String(t)) => Ok(
            Value::Bool(like_match(s.as_str(), t.as_str()) != negated),
        ),
        _ => Err(type_error("LIKE", v)),
    }
}

/// The result of `BETWEEN` on three values.
pub open spec fn between_value(
    v: ValueView,
    lo: ValueView,
    hi: ValueView,
    negated: bool,
    answers: Answers,
) -> Result<ValueView, ErrorView> {
    match compare_view(v, lo, answers) {
        Err(e) => Err(e),
        Ok(a) => match compare_view(v, hi, answers) {
            Err(e) => Err(e),
            Ok(b) => {
                let ge = match a {
                    Some(k) => Some(k != Rank::Less),
                    None => None,
                };
                let le = match b {
                    Some(k) => Some(k != Rank::Greater),
                    None => None,
                };
                match conjunction(ge, le) {
                    None => Ok(ValueView::Null),
                    Some(x) => Ok(ValueView::Bool(x != negated)),
                }
            },
        },
    }
}

fn between(v: &Value, lo: &Value, hi: &Value, negated: bool, answers: &Answers) -> (r: Result<
    Value,
    HtapError,
>)
    ensures
        outcome(r) == between_value(v@, lo@, hi@, negated, *answers),
{
    let a = match rank_values(v, lo, answers) {
        Ok(k) => k,
        Err(e) => {
            return Err(e);
        },
    };
    let b = match rank_values(v, hi, answers) {
        Ok(k) => k,
        Err(e) => {
            return Err(e);
        },
    };
    let ge = match a {
        Some(k) => Some(k != Rank::Less),
        None => None,
    };
    let le = match b {
        Some(k) => Some(k != Rank::Greater),
        None => None,
    };
    match and3(ge, le) {
        None => Ok(Value::Null),
        Some(x) => Ok(Value::Bool(x != negated)),
    }
}

/// The result of adding an interval value to a timestamp value.
pub open spec fn interval_value(
    t: ValueView,
    q: ValueView,
    unit: CalendarIntervalUnit,
    negated: bool,
) -> Result<ValueView, ErrorView> {
    match (t, q) {
        (ValueView::Null, _) => Ok(ValueView::Null),
        (_, ValueView::Null) => Ok(ValueView::Null),
        (ValueView::Timestamp(micros), ValueView::Int32(n)) => interval_view(
            micros,
            n as i64,
            unit,
            negated,
        ),
        (ValueView::Timestamp(micros), ValueView::Int64(n)) => interval_view(
            micros,
            n,
            unit,
            negated,
        ),
        (ValueView::Timestamp(_), _) => Err(type_error_view("calendar interval"@, q)),
        _ => Err(type_error_view("calendar interval"@, t)),
    }
}

fn add_interval(t: &Value, q: &Value, unit: CalendarIntervalUnit, negated: bool) -> (r: Result<
    Value,
    HtapError,
>)
    ensures
        outcome(r) == interval_value(t@, q@, unit, negated),
{
    match (t, q) {
        (Value::Null, _) => Ok(Value::Null),
        (_, Value::Null) => Ok(Value::Null),
        (Value::Timestamp(micros), Value::Int32(n)) => add_calendar_interval(
            *micros,
            *n as i64,
            unit,
            negated,
        ),
        (Value::Timestamp(micros), Value::Int64(n)) => add_calendar_interval(
            *micros,
            *n,
            unit,
            negated,
        ),
        (Value::Timestamp(_), _) => Err(type_error("calendar interval", q)),
        _ => Err(type_error("calendar interval", t)),
    }
}

/// The field of a timestamp's date.
pub open spec fn extracted(unit: CalendarIntervalUnit, v: ValueView) -> Result<
    ValueView,
    ErrorView,
> {
    match v {
        ValueView::Null => Ok(ValueView::Null),
        ValueView::Timestamp(micros) => match date_of_timestamp(micros) {
            Err(e) => Err(e),
            Ok(t) => Ok(
                ValueView::Int64(
                    match unit {
                        CalendarIntervalUnit::Year => t.0,
                        CalendarIntervalUnit::Month => t.1,
                        CalendarIntervalUnit::Day => t.2,
                    } as i64,
                ),
            ),
        },
        _ => Err(type_error_view("EXTRACT"@, v)),
    }
}

fn extract_field(unit: CalendarIntervalUnit, v: &Value) -> (r: Result<Value, HtapError>)
    ensures
        outcome(r) == extracted(unit, v@),
{
    match v {
        Value::Null => Ok(Value::Null),
        Value::Timestamp(micros) => match timestamp_date(*micros) {
            Err(e) => Err(e),
            Ok(t) => {
                let n: i64 = match unit {
                    CalendarIntervalUnit::Year => t.0 as i64,
                    CalendarIntervalUnit::Month => t.1 as i64,
                    CalendarIntervalUnit::Day => t.2 as i64,
                };
                Ok(Value::Int64(n))
            },
        },
        _ => Err(type_error("EXTRACT", v)),
    }
}

/// The refusal of a call without an argument it needs.
pub open spec fn missing_argument() -> ErrorView {
    ErrorView::Internal("function argument is missing"@)
}

fn missing_argument_error() -> (r: HtapError)
    ensures
        r@ == missing_argument(),
{
    HtapError::Internal(owned("function argument is missing"))
}

/// Whether any value is `NULL`.
pub open spec fn any_null(vals: Seq<ValueView>, i: int) -> bool
    decreases vals.len() - i,
{
    0 <= i < vals.len() && (vals[i] is Null || any_null(vals, i + 1))
}

/// The integer of an argument, or the refusal of the argument.
pub open spec fn integer_argument(v: ValueView) -> Result<int, ErrorView> {
    match v {
        ValueView::Int32(i) => Ok(i as int),
        ValueView::Int64(i) => Ok(i as int),
        _ => Err(type_error_view("SUBSTRING"@, v)),
    }
}

/// The characters from `start` (from the end where it is negative) on, at most `length`.
pub open spec fn substring_of(s: Seq<char>, start: int, length: Option<int>) -> Seq<char> {
    if start == 0 || (length is Some && length->0 <= 0) {
        Seq::empty()
    } else {
        let n = s.len() as int;
        let from = if start > 0 {
            start - 1
        } else if n + start > 0 {
            n + start
        } else {
            0
        };
        let to = match length {
            Some(l) => if from + l < n {
                from + l
            } else {
                n
            },
            None => n,
        };
        if from <= to {
            s.subrange(from, to)
        } else {
            Seq::empty()
        }
    }
}

/// The result of `SUBSTRING` on values.
pub open spec fn substring_value(vals: Seq<ValueView>) -> Result<ValueView, ErrorView> {
    if any_null(vals, 0) {
        Ok(ValueView::Null)
    } else if vals.len() < 2 {
        Err(missing_argument())
    } else {
        match vals[0] {
            ValueView::String(s) => match integer_argument(vals[1]) {
                Err(e) => Err(e),
                Ok(start) => if vals.len() > 2 {
                    match integer_argument(vals[2]) {
                        Err(e) => Err(e),
                        Ok(l) => Ok(ValueView::String(substring_of(s, start, Some(l)))),
                    }
                } else {
                    Ok(ValueView::String(substring_of(s, start, None)))
                },
            },
            _ => Err(type_error_view("SUBSTRING"@, vals[0])),
        }
    }
}

fn has_null(vals: &Vec<Value>) -> (r: bool)
    ensures
        r == any_null(views(vals@), 0),
{
    let mut i: usize = 0;
    while i < vals.len()
        invariant
            i <= vals.len(),
            any_null(views(vals@), 0) == any_null(views(vals@), i as int),
        decreases vals.len() - i,
    {
        if vals[i].is_null() {
            return true;
        }
        i = i + 1;
    }
    false
}

fn integer_arg(v: &Value) -> (r: Result<i64, HtapError>)
    ensures
        match r {
            Ok(i) => integer_argument(v@) == Ok::<int, ErrorView>(i as int),
            Err(e) => integer_argument(v@) == Err::<int, ErrorView>(e@),
        },
{
    match v {
        Value::Int32(i) => Ok(*i as i64),
        Value::Int64(i) => Ok(*i),
        _ => Err(type_error("SUBSTRING", v)),
    }
}

fn cut(s: &str, start: i64, length: Option<i64>) -> (r: String)
    ensures
        r@ == substring_of(
            s@,
            start as int,
            match length {
                Some(l) => Some(l as int),
                None => None,
            },
        ),
{
    let none_wanted = match length {
        Some(l) => l <= 0,
        None => false,
    };
    if start == 0 || none_wanted {
        return String::new();
    }
    let n: i128 = s.unicode_len() as i128;
    let from: i128 = if start > 0 {
        start as i128 - 1
    } else if n + start as i128 > 0 {
        n + start as i128
    } else {
        0
    };
    let to: i128 = match length {
        Some(l) => if from + (l as i128) < n {
            from + l as i128
        } else {
            n
        },
        None => n,
    };
    if from <= to {
        owned(s.substring_char(from as usize, to as usize))
    } else {
        String::new()
    }
}

fn substring_values(vals: &Vec<Value>) -> (r: Result<Value, HtapError>)
    ensures
        outcome(r) == substring_value(views(vals@)),
{
    if has_null(vals) {
        return Ok(Value::Null);
    }
    if vals.len() < 2 {
        return Err(missing_argument_error());
    }
    match &vals[0] {
        Value::String(s) => {
            let start: i64 = match integer_arg(&vals[1]) {
                Ok(i) => i,
                Err(e) => {
                    return Err(e);
                },
            };
            if vals.len() > 2 {
                match integer_arg(&vals[2]) {
                    Err(e) => Err(e),
                    Ok(l) => Ok(Value::String(cut(s.as_str(), start, Some(l)))),
                }
            } else {
                Ok(Value::String(cut(s.as_str(), start, None)))
            }
        },
        other => Err(type_error("SUBSTRING", other)),
    }
}

/// The text of a value in `CONCAT`.
pub open spec fn concat_text(v: ValueView, answers: Answers) -> Result<Seq<char>, ErrorView> {
    match v {
        ValueView::Bytes(b) => if vstd::utf8::valid_utf8(b) {
            Ok(vstd::utf8::decode_utf8(b))
        } else {
            Err(type_error_view("CONCAT"@, v))
        },
        ValueView::Bool(b) => Ok(
            if b {
                "1"@
            } else {
                "0"@
            },
        ),
        _ => value_text(v, answers),
    }
}

/// The texts of values from the `i`-th on behind `acc`; the first `NULL` or refusal ends them.
pub open spec fn concat_value(
    vals: Seq<ValueView>,
    i: int,
    acc: Seq<char>,
    answers: Answers,
) -> Result<ValueView, ErrorView>
    decreases vals.len() - i,
{
    if i < 0 || i >= vals.len() {
        Ok(ValueView::String(acc))
    } else if vals[i] is Null {
        Ok(ValueView::Null)
    } else {
        match concat_text(vals[i], answers) {
            Err(e) => Err(e),
            Ok(t) => concat_value(vals, i + 1, acc + t, answers),
        }
    }
}

fn text_for_concat(v: &Value, answers: &Answers) -> (r: Result<String, HtapError>)
    ensures
        outcome(r) == concat_text(v@, *answers),
{
    match v {
        Value::Bytes(b) => match text_of_bytes(b) {
            Some(t) => Ok(t),
            None => Err(type_error("CONCAT", v)),
        },
        Value::Bool(b) => Ok(
            if *b {
                owned("1")
            } else {
                owned("0")
            },
        ),
        _ => text_of_value(v, answers),
    }
}

fn concat_values(vals: &Vec<Value>, answers: &Answers) -> (r: Result<Value, HtapError>)
    ensures
        outcome(r) == concat_value(views(vals@), 0, Seq::empty(), *answers),
{
    let ghost model = concat_value(views(vals@), 0, Seq::empty(), *answers);
    let mut out = String::new();
    let mut i: usize = 0;
    while i < vals.len()
        invariant
            i <= vals.len(),
            model == concat_value(views(vals@), 0, Seq::empty(), *answers),
            model == concat_value(views(vals@), i as int, out@, *answers),
        decreases vals.len() - i,
    {
        if vals[i].is_null() {
            return Ok(Value::Null);
        }
        match text_for_concat(&vals[i], answers) {
            Err(e) => {
                return Err(e);
            },
            Ok(t) => {
                out.append(t.as_str());
            },
        }
        i = i + 1;
    }
    Ok(Value::String(out))
}

/// The first value from the `i`-th on that is not `NULL`.
pub open spec fn first_present(vals: Seq<ValueView>, i: int) -> ValueView
    decreases vals.len() - i,
{
    if i < 0 || i >= vals.len() {
        ValueView::Null
    } else if vals[i] is Null {
        first_present(vals, i + 1)
    } else {
        vals[i]
    }
}

fn coalesce(vals: &Vec<Value>) -> (r: Value)
    ensures
        r@ == first_present(views(vals@), 0),
{
    let mut i: usize = 0;
    while i < vals.len()
        invariant
            i <= vals.len(),
            first_present(views(vals@), 0) == first_present(views(vals@), i as int),
        decreases vals.len() - i,
    {
        if !vals[i].is_null() {
            return vals[i].copy();
        }
        i = i + 1;
    }
    Value::Null
}

/// A function of one text, or of bytes where it counts them.
pub open spec fn text_function_value(func: ScalarFn, v: ValueView) -> Result<ValueView, ErrorView> {
    match v {
        ValueView::Null => Ok(ValueView::Null),
        ValueView::String(s) => Ok(
            match func {
                ScalarFn::Upper => ValueView::String(unicode_upper(s)),
                ScalarFn::Lower => ValueView::String(unicode_lower(s)),
                ScalarFn::Length => ValueView::Int64(vstd::utf8::encode_utf8(s).len() as usize as i64),
                _ => ValueView::Int64(s.len() as i64),
            },
        ),
        ValueView::Bytes(b) => if func == ScalarFn::Length {
            Ok(ValueView::Int64(b.len() as i64))
        } else {
            Err(type_error_view("string function"@, v))
        },
        _ => Err(type_error_view("string function"@, v)),
    }
}

fn call_text_function(func: ScalarFn, v: &Value) -> (r: Result<Value, HtapError>)
    ensures
        outcome(r) == text_function_value(func, v@),
{
    match v {
        Value::Null => Ok(Value::Null),
        Value::String(s) => Ok(
            match func {
                ScalarFn::Upper => Value::String(upper_text(s.as_str())),
                ScalarFn::Lower => Value::String(lower_text(s.as_str())),
                ScalarFn::Length => {
                    Value::Int64(s.as_str().len() as i64)
                },
                _ => Value::Int64(s.as_str().unicode_len() as i64),
            },
        ),
        Value::Bytes(b) => if func == ScalarFn::Length {
            Ok(Value::Int64(b.len() as i64))
        } else {
            Err(type_error("string function", v))
        },
        _ => Err(type_error("string function", v)),
    }
}

/// The result of a scalar function on values.
pub open spec fn call_value(func: ScalarFn, vals: Seq<ValueView>, answers: Answers) -> Result<
    ValueView,
    ErrorView,
> {
    match func {
        ScalarFn::Concat => concat_value(vals, 0, Seq::empty(), answers),
        ScalarFn::Coalesce => Ok(first_present(vals, 0)),
        ScalarFn::Substring => substring_value(vals),
        ScalarFn::IfNull => if vals.len() < 2 {
            Err(missing_argument())
        } else if vals[0] is Null {
            Ok(vals[1])
        } else {
            Ok(vals[0])
        },
        ScalarFn::NullIf => if vals.len() < 2 {
            Err(missing_argument())
        } else {
            match compare_view(vals[0], vals[1], answers) {
                Err(e) => Err(e),
                Ok(Some(Rank::Equal)) => Ok(ValueView::Null),
                Ok(_) => Ok(vals[0]),
            }
        },
        _ => if vals.len() < 1 {
            Err(missing_argument())
        } else {
            match func {
                ScalarFn::Abs => absolute_value(vals[0]),
                ScalarFn::Extract(unit) => extracted(unit, vals[0]),
                _ => text_function_value(func, vals[0]),
            }
        },
    }
}

fn call_function(func: ScalarFn, vals: &Vec<Value>, answers: &Answers) -> (r: Result<
    Value,
    HtapError,
>)
    ensures
        outcome(r) == call_value(func, views(vals@), *answers),
{
    match func {
        ScalarFn::Concat => concat_values(vals, answers),
        ScalarFn::Coalesce => Ok(coalesce(vals)),
        ScalarFn::Substring => substring_values(vals),
        ScalarFn::IfNull => {
            if vals.len() < 2 {
                return Err(missing_argument_error());
            }
            if vals[0].is_null() {
                Ok(vals[1].copy())
            } else {
                Ok(vals[0].copy())
            }
        },
        ScalarFn::NullIf => {
            if vals.len() < 2 {
                return Err(missing_argument_error());
            }
            match rank_values(&vals[0], &vals[1], answers) {
                Err(e) => Err(e),
                Ok(Some(Rank::Equal)) => Ok(Value::Null),
                Ok(_) => Ok(vals[0].copy()),
            }
        },
        _ => {
            if vals.len() < 1 {
                return Err(missing_argument_error());
            }
            match func {
                ScalarFn::Abs => absolute(&vals[0]),
                ScalarFn::Extract(unit) => extract_field(unit, &vals[0]),
                _ => call_text_function(func, &vals[0]),
            }
        },
    }
}

/// The rows of a subquery, or why there are none.
pub open spec fn subquery_rows(c: ContextView, index: usize, correlated: bool) -> Result<
    Seq<Seq<ValueView>>,
    ErrorView,
> {
    if !correlated {
        if index < c.subqueries.len() {
            Ok(c.subqueries[index as int])
        } else {
            Err(
                ErrorView::Internal(
                    "subquery "@ + nat_text(index as nat) + " not available"@,
                ),
            )
        }
    } else if !c.services.subquery_runner {
        Err(
            ErrorView::Internal(
                "correlated subquery "@ + nat_text(index as nat)
                    + " evaluated without a subquery runner"@,
            ),
        )
    } else if !c.services.subquery_budget {
        Err(
            ErrorView::Internal(
                "correlated subquery "@ + nat_text(index as nat)
                    + " evaluated without a subquery budget"@,
            ),
        )
    } else {
        c.answers.subquery(index, c.row)
    }
}

fn subquery_result_rows<'a>(ctx: &EvalContext<'a>, index: usize, correlated: bool) -> (r: Result<
    &'a Vec<Row>,
    HtapError,
>)
    ensures
        match r {
            Ok(rows) => subquery_rows(ctx@, index, correlated) == Ok::<
                Seq<Seq<ValueView>>,
                ErrorView,
            >(views(rows@)),
            Err(e) => subquery_rows(ctx@, index, correlated) == Err::<
                Seq<Seq<ValueView>>,
                ErrorView,
            >(e@),
        },
{
    if !correlated {
        if index < ctx.subqueries.len() {
            return Ok(&ctx.subqueries[index]);
        }
        let n = count_text(index);
        return Err(HtapError::Internal(cat3("subquery ", n.as_str(), " not available")));
    }
    if !ctx.services.subquery_runner {
        let n = count_text(index);
        return Err(
            HtapError::Internal(
                cat3("correlated subquery ", n.as_str(), " evaluated without a subquery runner"),
            ),
        );
    }
    if !ctx.services.subquery_budget {
        let n = count_text(index);
        return Err(
            HtapError::Internal(
                cat3("correlated subquery ", n.as_str(), " evaluated without a subquery budget"),
            ),
        );
    }
    ctx.answers.get_subquery(index, ctx.row)
}

/// The value of a scalar subquery with the given rows.
pub open spec fn scalar_rows_value(rows: Seq<Seq<ValueView>>) -> Result<ValueView, ErrorView> {
    if rows.len() == 0 {
        Ok(ValueView::Null)
    } else if rows.len() > 1 {
        Err(
            ErrorView::InvalidArgument(
                "scalar subquery returned "@ + nat_text(rows.len())
                    + " rows, expected at most 1"@,
            ),
        )
    } else if rows[0].len() == 0 {
        Err(ErrorView::Internal("empty subquery row"@))
    } else {
        Ok(rows[0][0])
    }
}

fn value_of_rows(rows: &Vec<Row>) -> (r: Result<Value, HtapError>)
    ensures
        outcome(r) == scalar_rows_value(views(rows@)),
{
    if rows.len() == 0 {
        return Ok(Value::Null);
    }
    if rows.len() > 1 {
        let n = count_text(rows.len());
        return Err(
            HtapError::InvalidArgument(
                cat3("scalar subquery returned ", n.as_str(), " rows, expected at most 1"),
            ),
        );
    }
    match rows[0].get(0) {
        Some(v) => Ok(v.copy()),
        None => Err(HtapError::Internal(owned("empty subquery row"))),
    }
}

/// The first value of a row; `NULL` where there is none.
pub open spec fn first_value(row: Seq<ValueView>) -> ValueView {
    if row.len() > 0 {
        row[0]
    } else {
        ValueView::Null
    }
}

/// The result of `IN` over the rows from the `i`-th on, knowing whether a `NULL` was met.
pub open spec fn in_rows_value(
    v: ValueView,
    rows: Seq<Seq<ValueView>>,
    negated: bool,
    answers: Answers,
    i: int,
    saw_null: bool,
) -> Result<ValueView, ErrorView>
    decreases rows.len() - i,
{
    if i < 0 || i >= rows.len() {
        Ok(
            if saw_null {
                ValueView::Null
            } else {
                ValueView::Bool(negated)
            },
        )
    } else {
        match compare_view(v, first_value(rows[i]), answers) {
            Err(e) => Err(e),
            Ok(None) => in_rows_value(v, rows, negated, answers, i + 1, true),
            Ok(Some(Rank::Equal)) => Ok(ValueView::Bool(!negated)),
            Ok(Some(_)) => in_rows_value(v, rows, negated, answers, i + 1, saw_null),
        }
    }
}

fn in_rows(v: &Value, rows: &Vec<Row>, negated: bool, answers: &Answers) -> (r: Result<
    Value,
    HtapError,
>)
    ensures
        outcome(r) == in_rows_value(v@, views(rows@), negated, *answers, 0, false),
{
    let ghost model = in_rows_value(v@, views(rows@), negated, *answers, 0, false);
    let mut saw_null = false;
    let mut i: usize = 0;
    while i < rows.len()
        invariant
            i <= rows.len(),
            model == in_rows_value(v@, views(rows@), negated, *answers, 0, false),
            model == in_rows_value(v@, views(rows@), negated, *answers, i as int, saw_null),
        decreases rows.len() - i,
    {
        assert(views(rows@)[i as int] == rows@[i as int]@);
        let candidate = match rows[i].get(0) {
            Some(x) => x.copy(),
            None => Value::Null,
        };
        match rank_values(v, &candidate, answers) {
            Err(e) => {
                return Err(e);
            },
            Ok(None) => {
                saw_null = true;
            },
            Ok(Some(Rank::Equal)) => {
                return Ok(Value::Bool(!negated));
            },
            Ok(Some(_)) => {},
        }
        i = i + 1;
    }
    Ok(
        if saw_null {
            Value::Null
        } else {
            Value::Bool(negated)
        },
    )
}

/// The value at a position of a row that may be missing, or the given refusal.
pub open spec fn at_or<T>(row: Seq<T>, i: usize, e: ErrorView) -> Result<T, ErrorView> {
    if i < row.len() {
        Ok(row[i as int])
    } else {
        Err(e)
    }
}

/// The value of a session variable, or why there is none.
pub open spec fn variable_value(c: ContextView, name: Seq<char>, is_system: bool) -> Result<
    ValueView,
    ErrorView,
> {
    if c.services.variables {
        c.answers.variable(name, is_system)
    } else if !is_system {
        Ok(ValueView::Null)
    } else {
        Err(
            ErrorView::Unsupported(
                "system variable '@@"@ + name + "' cannot be evaluated without a session"@,
            ),
        )
    }
}

/// The value of an expression in a context, or why it has none.
pub open spec fn eval_of(e: ExprView, c: ContextView) -> Result<ValueView, ErrorView>
    decreases e, 0int, 0int,
{
    match e {
        ExprView::ColumnRef { offset, name, .. } => at_or(
            c.row,
            offset,
            ErrorView::Internal(
                "column '"@ + name + "' offset "@ + nat_text(offset as nat)
                    + " out of bounds for row of width "@ + nat_text(c.row.len()),
            ),
        ),
        ExprView::CorrelatedColumnRef { offset, name, .. } => match c.outer {
            None => Err(
                ErrorView::Internal(
                    "correlated column '"@ + name + "' evaluated without an outer row"@,
                ),
            ),
            Some(row) => at_or(
                row,
                offset,
                ErrorView::Internal(
                    "correlated column '"@ + name + "' offset "@ + nat_text(offset as nat)
                        + " out of bounds for outer row"@,
                ),
            ),
        },
        ExprView::OutputColumn { index, .. } => at_or(
            match c.output {
                Some(o) => o,
                None => Seq::empty(),
            },
            index,
            ErrorView::Internal("output column "@ + nat_text(index as nat) + " not available"@),
        ),
        ExprView::Literal(v) => Ok(v),
        ExprView::BinaryOp { op, left, right } => if op == BinOp::And || op == BinOp::Or {
            match eval_of(*left, c) {
                Err(e) => Err(e),
                Ok(a) => match truth(a, op.symbol()) {
                    Err(e) => Err(e),
                    Ok(x) => if x == Some(op == BinOp::Or) {
                        Ok(ValueView::Bool(op == BinOp::Or))
                    } else {
                        match eval_of(*right, c) {
                            Err(e) => Err(e),
                            Ok(b) => match truth(b, op.symbol()) {
                                Err(e) => Err(e),
                                Ok(y) => Ok(
                                    truth_value(
                                        if op == BinOp::And {
                                            conjunction(x, y)
                                        } else {
                                            disjunction(x, y)
                                        },
                                    ),
                                ),
                            },
                        }
                    },
                },
            }
        } else {
            match eval_of(*left, c) {
                Err(e) => Err(e),
                Ok(a) => match eval_of(*right, c) {
                    Err(e) => Err(e),
                    Ok(b) => strict_operation(op, a, b, c.answers),
                },
            }
        },
        ExprView::Not(x) => match eval_of(*x, c) {
            Err(e) => Err(e),
            Ok(v) => match v {
                ValueView::Null => Ok(ValueView::Null),
                ValueView::Bool(b) => Ok(ValueView::Bool(!b)),
                _ => Err(type_error_view("NOT"@, v)),
            },
        },
        ExprView::Negate(x) => match eval_of(*x, c) {
            Err(e) => Err(e),
            Ok(v) => negated_value(v),
        },
        ExprView::IsNull(x) => match eval_of(*x, c) {
            Err(e) => Err(e),
            Ok(v) => Ok(ValueView::Bool(v is Null)),
        },
        ExprView::IsNotNull(x) => match eval_of(*x, c) {
            Err(e) => Err(e),
            Ok(v) => Ok(ValueView::Bool(!(v is Null))),
        },
        ExprView::Like { expr, pattern, negated } => match eval_of(*expr, c) {
            Err(e) => Err(e),
            Ok(v) => match eval_of(*pattern, c) {
                Err(e) => Err(e),
                Ok(p) => like_value(v, p, negated),
            },
        },
        ExprView::In { expr, list, negated } => match eval_of(*expr, c) {
            Err(e) => Err(e),
            Ok(v) => if v is Null {
                Ok(ValueView::Null)
            } else {
                in_list_of(v, list, negated, c, 0, false)
            },
        },
        ExprView::Between { expr, low, high, negated } => match eval_of(*expr, c) {
            Err(e) => Err(e),
            Ok(v) => match eval_of(*low, c) {
                Err(e) => Err(e),
                Ok(lo) => match eval_of(*high, c) {
                    Err(e) => Err(e),
                    Ok(hi) => between_value(v, lo, hi, negated, c.answers),
                },
            },
        },
        ExprView::Case { operand, branches, else_result, data_type, .. } => {
            let chosen = match operand {
                None => case_of(None, branches, data_type, c, 0),
                Some(o) => match eval_of(*o, c) {
                    Err(e) => Err(e),
                    Ok(v) => case_of(Some(v), branches, data_type, c, 0),
                },
            };
            match chosen {
                Err(e) => Err(e),
                Ok(Some(v)) => Ok(v),
                Ok(None) => match else_result {
                    None => Ok(ValueView::Null),
                    Some(x) => match eval_of(*x, c) {
                        Err(e) => Err(e),
                        Ok(v) => conform_view(v, data_type, c.answers),
                    },
                },
            }
        },
        ExprView::Cast { expr, to } => match eval_of(*expr, c) {
            Err(e) => Err(e),
            Ok(v) => cast_view(v, to, c.answers),
        },
        ExprView::CalendarInterval { expr, quantity, unit, negated } => match eval_of(*expr, c) {
            Err(e) => Err(e),
            Ok(t) => match eval_of(*quantity, c) {
                Err(e) => Err(e),
                Ok(q) => interval_value(t, q, unit, negated),
            },
        },
        ExprView::ScalarFunction { func, args, data_type, .. } => match eval_list_of(
            args,
            c,
            0,
            Seq::empty(),
        ) {
            Err(e) => Err(e),
            Ok(vals) => match call_value(func, vals, c.answers) {
                Err(e) => Err(e),
                Ok(v) => conform_view(v, data_type, c.answers),
            },
        },
        ExprView::AggregateRef { index, .. } => at_or(
            c.aggregates,
            index,
            ErrorView::Internal("aggregate "@ + nat_text(index as nat) + " not available"@),
        ),
        ExprView::WindowRef { index, .. } => at_or(
            match c.output {
                Some(o) => o,
                None => Seq::empty(),
            },
            index,
            ErrorView::Internal("window result "@ + nat_text(index as nat) + " not available"@),
        ),
        ExprView::ScalarSubquery { index, correlated, .. } => match subquery_rows(
            c,
            index,
            correlated,
        ) {
            Err(e) => Err(e),
            Ok(rows) => scalar_rows_value(rows),
        },
        ExprView::InSubquery { expr, index, negated, correlated } => match eval_of(*expr, c) {
            Err(e) => Err(e),
            Ok(v) => if v is Null {
                Ok(ValueView::Null)
            } else {
                match subquery_rows(c, index, correlated) {
                    Err(e) => Err(e),
                    Ok(rows) => in_rows_value(v, rows, negated, c.answers, 0, false),
                }
            },
        },
        ExprView::Exists { index, negated, correlated } => match subquery_rows(
            c,
            index,
            correlated,
        ) {
            Err(e) => Err(e),
            Ok(rows) => Ok(ValueView::Bool((rows.len() == 0) == negated)),
        },
        ExprView::Variable { name, is_system } => variable_value(c, name, is_system),
    }
}

/// The result of `IN` over the candidates from the `i`-th on, knowing whether a `NULL` was met.
pub open spec fn in_list_of(
    v: ValueView,
    list: Seq<ExprView>,
    negated: bool,
    c: ContextView,
    i: int,
    saw_null: bool,
) -> Result<ValueView, ErrorView>
    decreases list, 0int, list.len() - i,
{
    if i < 0 || i >= list.len() {
        Ok(
            if saw_null {
                ValueView::Null
            } else {
                ValueView::Bool(negated)
            },
        )
    } else {
        match eval_of(list[i], c) {
            Err(e) => Err(e),
            Ok(x) => match compare_view(v, x, c.answers) {
                Err(e) => Err(e),
                Ok(None) => in_list_of(v, list, negated, c, i + 1, true),
                Ok(Some(Rank::Equal)) => Ok(ValueView::Bool(!negated)),
                Ok(Some(_)) => in_list_of(v, list, negated, c, i + 1, saw_null),
            },
        }
    }
}

/// The value of the first branch of a `CASE`, from the `i`-th on, whose condition holds.
pub open spec fn case_of(
    operand: Option<ValueView>,
    branches: Seq<(ExprView, ExprView)>,
    data_type: DataType,
    c: ContextView,
    i: int,
) -> Result<Option<ValueView>, ErrorView>
    decreases branches, 0int, branches.len() - i,
{
    if i < 0 || i >= branches.len() {
        Ok(None)
    } else {
        let hit = match eval_of(branches[i].0, c) {
            Err(e) => Err(e),
            Ok(x) => match operand {
                None => Ok(x == ValueView::Bool(true)),
                Some(v) => match compare_view(v, x, c.answers) {
                    Err(e) => Err(e),
                    Ok(k) => Ok(k == Some(Rank::Equal)),
                },
            },
        };
        match hit {
            Err(e) => Err(e),
            Ok(true) => match eval_of(branches[i].1, c) {
                Err(e) => Err(e),
                Ok(v) => match conform_view(v, data_type, c.answers) {
                    Err(e) => Err(e),
                    Ok(w) => Ok(Some(w)),
                },
            },
            Ok(false) => case_of(operand, branches, data_type, c, i + 1),
        }
    }
}

/// The values of expressions, from the `i`-th on, behind `acc`.
pub open spec fn eval_list_of(
    list: Seq<ExprView>,
    c: ContextView,
    i: int,
    acc: Seq<ValueView>,
) -> Result<Seq<ValueView>, ErrorView>
    decreases list, 0int, list.len() - i,
{
    if i < 0 || i >= list.len() {
        Ok(acc)
    } else {
        match eval_of(list[i], c) {
            Err(e) => Err(e),
            Ok(v) => eval_list_of(list, c, i + 1, acc.push(v)),
        }
    }
}

fn value_at(row: &[Value], i: usize) -> (r: Option<Value>)
    ensures
        match r {
            Some(v) => i < row@.len() && v@ == views(row@)[i as int],
            None => i >= row@.len(),
        },
{
    if i < row.len() {
        Some(row[i].copy())
    } else {
        None
    }
}

fn output_at(ctx: &EvalContext<'_>, index: usize, what: &str) -> (r: Result<Value, HtapError>)
    ensures
        outcome(r) == at_or(
            match ctx@.output {
                Some(o) => o,
                None => Seq::empty(),
            },
            index,
            ErrorView::Internal(what@ + nat_text(index as nat) + " not available"@),
        ),
{
    let found = match ctx.output {
        Some(o) => value_at(o, index),
        None => None,
    };
    match found {
        Some(v) => Ok(v),
        None => {
            let n = count_text(index);
            Err(HtapError::Internal(cat3(what, n.as_str(), " not available")))
        },
    }
}

fn column_value(ctx: &EvalContext<'_>, offset: usize, name: &str) -> (r: Result<Value, HtapError>)
    ensures
        outcome(r) == at_or(
            ctx@.row,
            offset,
            ErrorView::Internal(
                "column '"@ + name@ + "' offset "@ + nat_text(offset as nat)
                    + " out of bounds for row of width "@ + nat_text(ctx@.row.len()),
            ),
        ),
{
    match value_at(ctx.row, offset) {
        Some(v) => Ok(v),
        None => {
            let n = count_text(offset);
            let w = count_text(ctx.row.len());
            Err(
                HtapError::Internal(
                    cat6(
                        "column '",
                        name,
                        "' offset ",
                        n.as_str(),
                        " out of bounds for row of width ",
                        w.as_str(),
                    ),
                ),
            )
        },
    }
}

fn outer_column_value(ctx: &EvalContext<'_>, offset: usize, name: &str) -> (r: Result<
    Value,
    HtapError,
>)
    ensures
        outcome(r) == (match ctx@.outer {
            None => Err(
                ErrorView::Internal(
                    "correlated column '"@ + name@ + "' evaluated without an outer row"@,
                ),
            ),
            Some(row) => at_or(
                row,
                offset,
                ErrorView::Internal(
                    "correlated column '"@ + name@ + "' offset "@ + nat_text(offset as nat)
                        + " out of bounds for outer row"@,
                ),
            ),
        }),
{
    match ctx.current_outer_row {
        None => Err(
            HtapError::Internal(
                cat3("correlated column '", name, "' evaluated without an outer row"),
            ),
        ),
        Some(row) => match value_at(row, offset) {
            Some(v) => Ok(v),
            None => {
                let n = count_text(offset);
                Err(
                    HtapError::Internal(
                        cat5(
                            "correlated column '",
                            name,
                            "' offset ",
                            n.as_str(),
                            " out of bounds for outer row",
                        ),
                    ),
                )
            },
        },
    }
}

fn aggregate_value(ctx: &EvalContext<'_>, index: usize) -> (r: Result<Value, HtapError>)
    ensures
        outcome(r) == at_or(
            ctx@.aggregates,
            index,
            ErrorView::Internal("aggregate "@ + nat_text(index as nat) + " not available"@),
        ),
{
    match value_at(ctx.aggregates, index) {
        Some(v) => Ok(v),
        None => {
            let n = count_text(index);
            Err(HtapError::Internal(cat3("aggregate ", n.as_str(), " not available")))
        },
    }
}

fn variable(ctx: &EvalContext<'_>, name: &str, is_system: bool) -> (r: Result<Value, HtapError>)
    ensures
        outcome(r) == variable_value(ctx@, name@, is_system),
{
    if ctx.services.variables {
        return ctx.answers.get_variable(name, is_system);
    }
    if !is_system {
        return Ok(Value::Null);
    }
    Err(
        HtapError::Unsupported(
            cat3("system variable '@@", name, "' cannot be evaluated without a session"),
        ),
    )
}

impl Expr {
    /// The value of the expression in a context.
    pub fn eval(&self, ctx: &EvalContext<'_>) -> (r: Result<Value, HtapError>)
        ensures
            outcome(r) == eval_of(self@, ctx@),
        decreases *self, 0int, 0int,
    {
        match self {
            Expr::ColumnRef { offset, name, .. } => column_value(ctx, *offset, name.as_str()),
            Expr::CorrelatedColumnRef { offset, name, .. } => outer_column_value(
                ctx,
                *offset,
                name.as_str(),
            ),
            Expr::OutputColumn { index, .. } => output_at(ctx, *index, "output column "),
            Expr::Literal(v) => Ok(v.copy()),
            Expr::BinaryOp { op, left, right } => {
                let a = match left.eval(ctx) {
                    Ok(v) => v,
                    Err(e) => {
                        return Err(e);
                    },
                };
                if *op == BinOp::And || *op == BinOp::Or {
                    let x = match to_bool3(&a, op.text()) {
                        Ok(x) => x,
                        Err(e) => {
                            return Err(e);
                        },
                    };
                    let decisive = match x {
                        Some(t) => t == (*op == BinOp::Or),
                        None => false,
                    };
                    if decisive {
                        return Ok(Value::Bool(*op == BinOp::Or));
                    }
                    let b = match right.eval(ctx) {
                        Ok(v) => v,
                        Err(e) => {
                            return Err(e);
                        },
                    };
                    return match to_bool3(&b, op.text()) {
                        Err(e) => Err(e),
                        Ok(y) => if *op == BinOp::And {
                            Ok(bool3_to_value(and3(x, y)))
                        } else {
                            Ok(bool3_to_value(or3(x, y)))
                        },
                    };
                }
                match right.eval(ctx) {
                    Ok(b) => operate_strictly(*op, &a, &b, ctx.answers),
                    Err(e) => Err(e),
                }
            },
            Expr::Not(x) => match x.eval(ctx) {
                Err(e) => Err(e),
                Ok(Value::Null) => Ok(Value::Null),
                Ok(Value::Bool(b)) => Ok(Value::Bool(!b)),
                Ok(other) => Err(type_error("NOT", &other)),
            },
            Expr::Negate(x) => match x.eval(ctx) {
                Err(e) => Err(e),
                Ok(v) => negate_value(&v),
            },
            Expr::IsNull(x) => match x.eval(ctx) {
                Err(e) => Err(e),
                Ok(v) => Ok(Value::Bool(v.is_null())),
            },
            Expr::IsNotNull(x) => match x.eval(ctx) {
                Err(e) => Err(e),
                Ok(v) => Ok(Value::Bool(!v.is_null())),
            },
            Expr::Like { expr, pattern, negated } => match expr.eval(ctx) {
                Err(e) => Err(e),
                Ok(v) => match pattern.eval(ctx) {
                    Err(e) => Err(e),
                    Ok(p) => like(&v, &p, *negated),
                },
            },
            Expr::In { expr, list, negated } => match expr.eval(ctx) {
                Err(e) => Err(e),
                Ok(v) => if v.is_null() {
                    Ok(Value::Null)
                } else {
                    eval_in_list(&v, list, *negated, ctx)
                },
            },
            Expr::Between { expr, low, high, negated } => match expr.eval(ctx) {
                Err(e) => Err(e),
                Ok(v) => match low.eval(ctx) {
                    Err(e) => Err(e),
                    Ok(lo) => match high.eval(ctx) {
                        Err(e) => Err(e),
                        Ok(hi) => between(&v, &lo, &hi, *negated, ctx.answers),
                    },
                },
            },
            Expr::Case { operand, branches, else_result, data_type, .. } => {
                let value = match operand {
                    None => None,
                    Some(o) => match o.eval(ctx) {
                        Ok(v) => Some(v),
                        Err(e) => {
                            return Err(e);
                        },
                    },
                };
                match eval_case(&value, branches, *data_type, ctx) {
                    Err(e) => Err(e),
                    Ok(Some(v)) => Ok(v),
                    Ok(None) => match else_result {
                        None => Ok(Value::Null),
                        Some(x) => match x.eval(ctx) {
                            Err(e) => Err(e),
                            Ok(v) => conform(v, *data_type, ctx.answers),
                        },
                    },
                }
            },
            Expr::Cast { expr, to } => match expr.eval(ctx) {
                Err(e) => Err(e),
                Ok(v) => cast_value(&v, *to, ctx.answers),
            },
            Expr::CalendarInterval { expr, quantity, unit, negated } => match expr.eval(ctx) {
                Err(e) => Err(e),
                Ok(t) => match quantity.eval(ctx) {
                    Err(e) => Err(e),
                    Ok(q) => add_interval(&t, &q, *unit, *negated),
                },
            },
            Expr::ScalarFunction { func, args, data_type, .. } => match eval_scalar_fn(
                *func,
                args,
                ctx,
            ) {
                Err(e) => Err(e),
                Ok(v) => conform(v, *data_type, ctx.answers),
            },
            Expr::AggregateRef { index, .. } => aggregate_value(ctx, *index),
            Expr::WindowRef { index, .. } => output_at(ctx, *index, "window result "),
            Expr::ScalarSubquery { index, correlated, .. } => match subquery_result_rows(
                ctx,
                *index,
                *correlated,
            ) {
                Err(e) => Err(e),
                Ok(rows) => value_of_rows(rows),
            },
            Expr::InSubquery { expr, index, negated, correlated } => match expr.eval(ctx) {
                Err(e) => Err(e),
                Ok(v) => if v.is_null() {
                    Ok(Value::Null)
                } else {
                    match subquery_result_rows(ctx, *index, *correlated) {
                        Err(e) => Err(e),
                        Ok(rows) => in_rows(&v, rows, *negated, ctx.answers),
                    }
                },
            },
            Expr::Exists { index, negated, correlated } => match subquery_result_rows(
                ctx,
                *index,
                *correlated,
            ) {
                Err(e) => Err(e),
                Ok(rows) => Ok(Value::Bool((rows.len() == 0) == *negated)),
            },
            Expr::Variable { name, is_system } => variable(ctx, name.as_str(), *is_system),
        }
    }

    /// Whether the expression is `TRUE` in a context; `NULL` counts as false.
    pub fn eval_predicate(&self, ctx: &EvalContext<'_>) -> (r: Result<bool, HtapError>)
        ensures
            match r {
                Ok(b) => eval_of(self@, ctx@) is Ok && b == (eval_of(self@, ctx@)->Ok_0
                    == ValueView::Bool(true)),
                Err(e) => eval_of(self@, ctx@) == Err::<ValueView, ErrorView>(e@),
            },
    {
        match self.eval(ctx) {
            Err(e) => Err(e),
            Ok(Value::Bool(b)) => Ok(b),
            Ok(_) => Ok(false),
        }
    }

    /// The value of an expression without columns, aggregates or subqueries.
    pub fn eval_constant(&self, answers: &Answers) -> (r: Result<Value, HtapError>)
        ensures
            outcome(r) == eval_of(self@, row_context(Seq::empty(), *answers)),
    {
        let row: [Value; 0] = [];
        let ctx = EvalContext::row_only(&row, answers);
        assert(views(row@) =~= Seq::empty());
        self.eval(&ctx)
    }
}

fn eval_in_list(v: &Value, list: &Vec<Expr>, negated: bool, ctx: &EvalContext<'_>) -> (r: Result<
    Value,
    HtapError,
>)
    ensures
        outcome(r) == in_list_of(v@, view_exprs(*list), negated, ctx@, 0, false),
    decreases *list, 0int, 0int,
{
    let ghost model = in_list_of(v@, view_exprs(*list), negated, ctx@, 0, false);
    let mut saw_null = false;
    let mut i: usize = 0;
    while i < list.len()
        invariant
            i <= list.len(),
            model == in_list_of(v@, view_exprs(*list), negated, ctx@, 0, false),
            model == in_list_of(v@, view_exprs(*list), negated, ctx@, i as int, saw_null),
        decreases list.len() - i,
    {
        assert(view_exprs(*list)[i as int] == list@[i as int]@);
        let candidate = match list[i].eval(ctx) {
            Ok(x) => x,
            Err(e) => {
                return Err(e);
            },
        };
        match rank_values(v, &candidate, ctx.answers) {
            Err(e) => {
                return Err(e);
            },
            Ok(None) => {
                saw_null = true;
            },
            Ok(Some(Rank::Equal)) => {
                return Ok(Value::Bool(!negated));
            },
            Ok(Some(_)) => {},
        }
        i = i + 1;
    }
    Ok(
        if saw_null {
            Value::Null
        } else {
            Value::Bool(negated)
        },
    )
}

fn eval_case(
    operand: &Option<Value>,
    branches: &Vec<(Expr, Expr)>,
    data_type: DataType,
    ctx: &EvalContext<'_>,
) -> (r: Result<Option<Value>, HtapError>)
    ensures
        match r {
            Ok(v) => case_of(option_view(*operand), view_branches(*branches), data_type, ctx@, 0)
                == Ok::<Option<ValueView>, ErrorView>(option_view(v)),
            Err(e) => case_of(option_view(*operand), view_branches(*branches), data_type, ctx@, 0)
                == Err::<Option<ValueView>, ErrorView>(e@),
        },
    decreases *branches, 0int, 0int,
{
    let ghost model = case_of(
        option_view(*operand),
        view_branches(*branches),
        data_type,
        ctx@,
        0,
    );
    let mut i: usize = 0;
    while i < branches.len()
        invariant
            i <= branches.len(),
            model == case_of(option_view(*operand), view_branches(*branches), data_type, ctx@, 0),
            model == case_of(
                option_view(*operand),
                view_branches(*branches),
                data_type,
                ctx@,
                i as int,
            ),
        decreases branches.len() - i,
    {
        assert(view_branches(*branches)[i as int] == (
            branches@[i as int].0@,
            branches@[i as int].1@,
        ));
        let cond = match branches[i].0.eval(ctx) {
            Ok(x) => x,
            Err(e) => {
                return Err(e);
            },
        };
        let hit = match operand {
            None => match cond {
                Value::Bool(b) => b,
                _ => false,
            },
            Some(v) => match rank_values(v, &cond, ctx.answers) {
                Err(e) => {
                    return Err(e);
                },
                Ok(Some(Rank::Equal)) => true,
                Ok(_) => false,
            },
        };
        if hit {
            return match branches[i].1.eval(ctx) {
                Err(e) => Err(e),
                Ok(v) => match conform(v, data_type, ctx.answers) {
                    Err(e) => Err(e),
                    Ok(w) => Ok(Some(w)),
                },
            };
        }
        i = i + 1;
    }
    Ok(None)
}

fn eval_scalar_fn(func: ScalarFn, args: &Vec<Expr>, ctx: &EvalContext<'_>) -> (r: Result<
    Value,
    HtapError,
>)
    ensures
        outcome(r) == (match eval_list_of(view_exprs(*args), ctx@, 0, Seq::empty()) {
            Err(e) => Err(e),
            Ok(vals) => call_value(func, vals, ctx@.answers),
        }),
    decreases *args, 0int, 0int,
{
    let ghost model = eval_list_of(view_exprs(*args), ctx@, 0, Seq::empty());
    let mut vals: Vec<Value> = Vec::new();
    let mut i: usize = 0;
    assert(views(vals@) =~= Seq::empty());
    while i < args.len()
        invariant
            i <= args.len(),
            model == eval_list_of(view_exprs(*args), ctx@, 0, Seq::empty()),
            model == eval_list_of(view_exprs(*args), ctx@, i as int, views(vals@)),
        decreases args.len() - i,
    {
        assert(view_exprs(*args)[i as int] == args@[i as int]@);
        match args[i].eval(ctx) {
            Err(e) => {
                return Err(e);
            },
            Ok(v) => {
                proof {
                    lemma_views_push(vals@, v);
                }
                vals.push(v);
            },
        }
        i = i + 1;
    }
    call_function(func, &vals, ctx.answers)
}

} // verus!
