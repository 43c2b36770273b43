//! Values, column types, rows, errors, and the requests an evaluation can leave open.

use crate::double::{Double, DoubleOp, DoubleOpView};
use crate::text::{cat2, cat5, nat_text, owned, same_text, unsigned_text};
use vstd::prelude::*;

verus! {

/// The greatest number of digits of a `DECIMAL`.
pub const MAX_DECIMAL_PRECISION: u8 = 18;

/// The type of a column or an expression.
#[derive(Clone, Copy, Debug, PartialEq, Eq, Hash, Structural)]
pub enum DataType {
    /// Boolean.
    Bool,
    /// 32-bit signed integer.
    Int32,
    /// 64-bit signed integer.
    Int64,
    /// Double-precision number.
    Float64,
    /// Fixed-point decimal.
    Decimal {
        /// Total number of digits.
        precision: u8,
        /// Number of digits behind the point.
        scale: u8,
    },
    /// Unicode text.
    String,
    /// Bytes.
    Bytes,
    /// Microseconds since the Unix epoch.
    Timestamp,
}

impl View for DataType {
    type V = DataType;

    open spec fn view(&self) -> DataType {
        *self
    }
}

impl DataType {
    /// The keyword of the type.
    pub open spec fn keyword(self) -> Seq<char> {
        match self {
            DataType::Bool => "BOOL"@,
            DataType::Int32 => "INT32"@,
            DataType::Int64 => "INT64"@,
            DataType::Float64 => "FLOAT64"@,
            DataType::Decimal { .. } => "DECIMAL"@,
            DataType::String => "STRING"@,
            DataType::Bytes => "BYTES"@,
            DataType::Timestamp => "TIMESTAMP"@,
        }
    }

    /// The type as it is written: a decimal shows its digits.
    pub open spec fn shown(self) -> Seq<char> {
        match self {
            DataType::Decimal { precision, scale } => "DECIMAL("@ + nat_text(precision as nat) + ","@
                + nat_text(scale as nat) + ")"@,
            _ => self.keyword(),
        }
    }

    /// Whether the type can hold a value: a decimal has 1 to 18 digits, and no more behind the
    /// point than in all.
    pub open spec fn valid(self) -> bool {
        match self {
            DataType::Decimal { precision, scale } => 1 <= precision && precision
                <= MAX_DECIMAL_PRECISION && scale <= precision,
            _ => true,
        }
    }

    /// Whether the type is an integer, a double or a decimal.
    pub open spec fn number(self) -> bool {
        match self {
            DataType::Int32 => true,
            DataType::Int64 => true,
            DataType::Float64 => true,
            DataType::Decimal { .. } => true,
            _ => false,
        }
    }

    /// Whether the type takes part in arithmetic: a number or a timestamp.
    pub open spec fn numeric(self) -> bool {
        self.number() || self == DataType::Timestamp
    }

    /// The keyword of the type.
    pub fn name(&self) -> (r: &'static str)
        ensures
            r@ == self.keyword(),
    {
        match self {
            DataType::Bool => "BOOL",
            DataType::Int32 => "INT32",
            DataType::Int64 => "INT64",
            DataType::Float64 => "FLOAT64",
            DataType::Decimal { .. } => "DECIMAL",
            DataType::String => "STRING",
            DataType::Bytes => "BYTES",
            DataType::Timestamp => "TIMESTAMP",
        }
    }

    /// The type as it is written.
    pub fn text(&self) -> (r: String)
        ensures
            r@ == self.shown(),
    {
        match self {
            DataType::Decimal { precision, scale } => {
                let p = unsigned_text(*precision as u64);
                let s = unsigned_text(*scale as u64);
                cat5("DECIMAL(", p.as_str(), ",", s.as_str(), ")")
            },
            _ => owned(self.name()),
        }
    }

    /// Whether the type is an integer, a double or a decimal.
    pub fn is_number(&self) -> (r: bool)
        ensures
            r == self.number(),
    {
        match self {
            DataType::Int32 | DataType::Int64 | DataType::Float64 | DataType::Decimal { .. } => true,
            _ => false,
        }
    }

    /// Whether the type takes part in arithmetic.
    pub fn is_numeric(&self) -> (r: bool)
        ensures
            r == self.numeric(),
    {
        match self {
            DataType::Timestamp => true,
            _ => self.is_number(),
        }
    }

    /// What [`DataType::validate`] answers.
    pub open spec fn check(self) -> Result<(), ErrorView> {
        match self {
            DataType::Decimal { precision, scale } => if precision == 0 || precision
                > MAX_DECIMAL_PRECISION {
                Err(ErrorView::InvalidArgument("invalid DECIMAL precision in "@ + self.shown()))
            } else if scale > precision {
                Err(ErrorView::InvalidArgument("invalid DECIMAL scale in "@ + self.shown()))
            } else {
                Ok(())
            },
            _ => Ok(()),
        }
    }

    /// Refuses a decimal type without digits, with too many, or with more behind the point than
    /// in all.
    pub fn validate(&self) -> (r: Result<(), HtapError>)
        ensures
            outcome(r) == self.check(),
            r is Ok <==> self.valid(),
    {
        match self {
            DataType::Decimal { precision, scale } => {
                if *precision == 0 || *precision > MAX_DECIMAL_PRECISION {
                    let t = self.text();
                    return Err(
                        HtapError::InvalidArgument(
                            cat2("invalid DECIMAL precision in ", t.as_str()),
                        ),
                    );
                }
                if *scale > *precision {
                    let t = self.text();
                    return Err(
                        HtapError::InvalidArgument(cat2("invalid DECIMAL scale in ", t.as_str())),
                    );
                }
                Ok(())
            },
            _ => Ok(()),
        }
    }
}

/// A value of a column or an expression.
#[derive(Clone, Debug, PartialEq, Eq, Hash)]
pub enum Value {
    /// SQL `NULL`.
    Null,
    /// Boolean.
    Bool(bool),
    /// 32-bit integer.
    Int32(i32),
    /// 64-bit integer.
    Int64(i64),
    /// Microseconds since the Unix epoch.
    Timestamp(i64),
    /// Double-precision number.
    Float64(Double),
    /// `value / 10^scale`, of a type with `precision` digits.
    Decimal {
        /// Unscaled value.
        value: i64,
        /// Total number of digits.
        precision: u8,
        /// Digits behind the point.
        scale: u8,
    },
    /// Text.
    String(String),
    /// Bytes.
    Bytes(Vec<u8>),
}

/// The mathematical model of a [`Value`].
pub enum ValueView {
    /// SQL `NULL`.
    Null,
    /// Boolean.
    Bool(bool),
    /// 32-bit integer.
    Int32(i32),
    /// 64-bit integer.
    Int64(i64),
    /// Microseconds since the Unix epoch.
    Timestamp(i64),
    /// Double-precision number.
    Float64(Double),
    /// Fixed-point decimal.
    Decimal {
        /// Unscaled value.
        value: i64,
        /// Total number of digits.
        precision: u8,
        /// Digits behind the point.
        scale: u8,
    },
    /// Text.
    String(Seq<char>),
    /// Bytes.
    Bytes(Seq<u8>),
}

impl View for Value {
    type V = ValueView;

    open spec fn view(&self) -> ValueView {
        match *self {
            Value::Null => ValueView::Null,
            Value::Bool(b) => ValueView::Bool(b),
            Value::Int32(i) => ValueView::Int32(i),
            Value::Int64(i) => ValueView::Int64(i),
            Value::Timestamp(i) => ValueView::Timestamp(i),
            Value::Float64(d) => ValueView::Float64(d),
            Value::Decimal { value, precision, scale } => ValueView::Decimal {
                value,
                precision,
                scale,
            },
            Value::String(s) => ValueView::String(s@),
            Value::Bytes(b) => ValueView::Bytes(b@),
        }
    }
}

impl ValueView {
    /// The type of the value; `NULL` has none.
    pub open spec fn data_type(self) -> Option<DataType> {
        match self {
            ValueView::Null => None,
            ValueView::Bool(_) => Some(DataType::Bool),
            ValueView::Int32(_) => Some(DataType::Int32),
            ValueView::Int64(_) => Some(DataType::Int64),
            ValueView::Timestamp(_) => Some(DataType::Timestamp),
            ValueView::Float64(_) => Some(DataType::Float64),
            ValueView::Decimal { precision, scale, .. } => Some(
                DataType::Decimal { precision, scale },
            ),
            ValueView::String(_) => Some(DataType::String),
            ValueView::Bytes(_) => Some(DataType::Bytes),
        }
    }

    /// The keyword of the value's type, or `NULL`.
    pub open spec fn kind_name(self) -> Seq<char> {
        match self.data_type() {
            Some(t) => t.keyword(),
            None => "NULL"@,
        }
    }
}

/// A copy of a byte vector.
pub(crate) fn copy_bytes(b: &Vec<u8>) -> (r: Vec<u8>)
    ensures
        r@ == b@,
{
    let mut r: Vec<u8> = Vec::new();
    let mut i: usize = 0;
    while i < b.len()
        invariant
            i <= b.len(),
            r@ == b@.take(i as int),
        decreases b.len() - i,
    {
        r.push(b[i]);
        i = i + 1;
        assert(r@ =~= b@.take(i as int));
    }
    assert(b@.take(b.len() as int) =~= b@);
    r
}

/// Whether two byte vectors hold the same bytes.
pub(crate) fn same_bytes(a: &Vec<u8>, b: &Vec<u8>) -> (r: bool)
    ensures
        r == (a@ == b@),
{
    if a.len() != b.len() {
        return false;
    }
    let mut i: usize = 0;
    while i < a.len()
        invariant
            i <= a.len(),
            a.len() == b.len(),
            forall|j: int| 0 <= j < i ==> a@[j] == b@[j],
        decreases a.len() - i,
    {
        if a[i] != b[i] {
            return false;
        }
        i = i + 1;
    }
    assert(a@ =~= b@);
    true
}

impl Value {
    /// Whether the value is `NULL`.
    pub fn is_null(&self) -> (r: bool)
        ensures
            r == (self@ is Null),
    {
        match self {
            Value::Null => true,
            _ => false,
        }
    }

    /// The type of the value; `NULL` has none.
    pub fn data_type(&self) -> (r: Option<DataType>)
        ensures
            r == self@.data_type(),
    {
        match self {
            Value::Null => None,
            Value::Bool(_) => Some(DataType::Bool),
            Value::Int32(_) => Some(DataType::Int32),
            Value::Int64(_) => Some(DataType::Int64),
            Value::Timestamp(_) => Some(DataType::Timestamp),
            Value::Float64(_) => Some(DataType::Float64),
            Value::Decimal { precision, scale, .. } => Some(
                DataType::Decimal { precision: *precision, scale: *scale },
            ),
            Value::String(_) => Some(DataType::String),
            Value::Bytes(_) => Some(DataType::Bytes),
        }
    }

    /// The keyword of the value's type, or `NULL`.
    pub fn kind_name(&self) -> (r: &'static str)
        ensures
            r@ == self@.kind_name(),
    {
        match self.data_type() {
            Some(t) => t.name(),
            None => "NULL",
        }
    }

    /// A copy of the value.
    pub fn copy(&self) -> (r: Value)
        ensures
            r@ == self@,
    {
        match self {
            Value::Null => Value::Null,
            Value::Bool(b) => Value::Bool(*b),
            Value::Int32(i) => Value::Int32(*i),
            Value::Int64(i) => Value::Int64(*i),
            Value::Timestamp(i) => Value::Timestamp(*i),
            Value::Float64(d) => Value::Float64(*d),
            Value::Decimal { value, precision, scale } => Value::Decimal {
                value: *value,
                precision: *precision,
                scale: *scale,
            },
            Value::String(s) => Value::String(s.clone()),
            Value::Bytes(b) => Value::Bytes(copy_bytes(b)),
        }
    }

    /// Whether two values are the same value of the same type.
    pub fn same(&self, other: &Value) -> (r: bool)
        ensures
            r == (self@ == other@),
    {
        match (self, other) {
            (Value::Null, Value::Null) => true,
            (Value::Bool(a), Value::Bool(b)) => *a == *b,
            (Value::Int32(a), Value::Int32(b)) => *a == *b,
            (Value::Int64(a), Value::Int64(b)) => *a == *b,
            (Value::Timestamp(a), Value::Timestamp(b)) => *a == *b,
            (Value::Float64(a), Value::Float64(b)) => a.bits == b.bits,
            (
                Value::Decimal { value: v1, precision: p1, scale: s1 },
                Value::Decimal { value: v2, precision: p2, scale: s2 },
            ) => *v1 == *v2 && *p1 == *p2 && *s1 == *s2,
            (Value::String(a), Value::String(b)) => same_text(a.as_str(), b.as_str()),
            (Value::Bytes(a), Value::Bytes(b)) => same_bytes(a, b),
            _ => false,
        }
    }
}

/// A copy of values.
pub(crate) fn copy_values(values: &[Value]) -> (r: Vec<Value>)
    ensures
        views(r@) == views(values@),
{
    let mut r: Vec<Value> = Vec::new();
    let mut i: usize = 0;
    while i < values.len()
        invariant
            i <= values@.len(),
            views(r@) == views(values@).take(i as int),
        decreases values@.len() - i,
    {
        let v = values[i].copy();
        proof {
            lemma_views_push(r@, v);
        }
        r.push(v);
        i = i + 1;
        assert(views(r@) =~= views(values@).take(i as int));
    }
    assert(views(values@).take(i as int) =~= views(values@));
    r
}

/// Whether two lists hold the same values.
pub(crate) fn same_values(a: &Vec<Value>, b: &Vec<Value>) -> (r: bool)
    ensures
        r == (views(a@) == views(b@)),
{
    if a.len() != b.len() {
        assert(views(a@).len() != views(b@).len());
        return false;
    }
    let mut i: usize = 0;
    while i < a.len()
        invariant
            i <= a@.len(),
            a@.len() == b@.len(),
            forall|k: int| 0 <= k < i ==> views(a@)[k] == views(b@)[k],
        decreases a@.len() - i,
    {
        if !a[i].same(&b[i]) {
            assert(views(a@)[i as int] != views(b@)[i as int]);
            return false;
        }
        i = i + 1;
    }
    assert(views(a@) =~= views(b@));
    true
}

/// A row of values.
#[derive(Clone, Debug, PartialEq, Eq, Hash)]
pub struct Row {
    /// The values, in column order.
    pub values: Vec<Value>,
}

/// The models of a sequence of items.
pub open spec fn views<T: View>(items: Seq<T>) -> Seq<T::V> {
    Seq::new(items.len(), |i: int| items[i]@)
}

/// Appending an item appends its model.
pub proof fn lemma_views_push<T: View>(items: Seq<T>, item: T)
    ensures
        views(items.push(item)) == views(items).push(item@),
{
    assert(views(items.push(item)) =~= views(items).push(item@));
}

/// The model of a missing or present item.
pub open spec fn option_view<T: View>(item: Option<T>) -> Option<T::V> {
    match item {
        Some(x) => Some(x@),
        None => None,
    }
}

impl View for Row {
    type V = Seq<ValueView>;

    open spec fn view(&self) -> Seq<ValueView> {
        views(self.values@)
    }
}

impl Row {
    /// A row of the given values.
    pub fn new(values: Vec<Value>) -> (r: Row)
        ensures
            r.values == values,
            r@ == views(values@),
    {
        Row { values }
    }

    /// The value at a position, if the row is that wide.
    pub fn get(&self, index: usize) -> (r: Option<&Value>)
        ensures
            index < self@.len() ==> r is Some && r->0@ == self@[index as int],
            index >= self@.len() ==> r is None,
    {
        if index < self.values.len() {
            Some(&self.values[index])
        } else {
            None
        }
    }
}

/// A column of a table or of a query's result.
#[derive(Clone, Debug, PartialEq, Eq)]
pub struct ColumnDef {
    /// Column name.
    pub name: String,
    /// Column type.
    pub data_type: DataType,
    /// Whether the column can hold `NULL`.
    pub nullable: bool,
    /// Whether the column belongs to the primary key.
    pub primary_key: bool,
}

/// The mathematical model of a [`ColumnDef`].
pub struct ColumnView {
    /// Column name.
    pub name: Seq<char>,
    /// Column type.
    pub data_type: DataType,
    /// Whether the column can hold `NULL`.
    pub nullable: bool,
    /// Whether the column belongs to the primary key.
    pub primary_key: bool,
}

impl View for ColumnDef {
    type V = ColumnView;

    open spec fn view(&self) -> ColumnView {
        ColumnView {
            name: self.name@,
            data_type: self.data_type,
            nullable: self.nullable,
            primary_key: self.primary_key,
        }
    }
}

impl ColumnDef {
    /// A copy of the column.
    pub fn copy(&self) -> (r: ColumnDef)
        ensures
            r == *self,
    {
        ColumnDef {
            name: self.name.clone(),
            data_type: self.data_type,
            nullable: self.nullable,
            primary_key: self.primary_key,
        }
    }
}

/// A copy of a list of columns.
pub(crate) fn copy_columns(columns: &Vec<ColumnDef>) -> (r: Vec<ColumnDef>)
    ensures
        r@ == columns@,
{
    let mut r: Vec<ColumnDef> = Vec::new();
    let mut i: usize = 0;
    while i < columns.len()
        invariant
            i <= columns.len(),
            r@ == columns@.take(i as int),
        decreases columns.len() - i,
    {
        r.push(columns[i].copy());
        i = i + 1;
        assert(r@ =~= columns@.take(i as int));
    }
    assert(columns@.take(columns.len() as int) =~= columns@);
    r
}

/// What an evaluation needs from outside before it can go on.
#[derive(Clone, Debug, PartialEq, Eq)]
pub enum Request {
    /// A computation on doubles.
    Double(DoubleOp),
    /// The value of a session variable.
    Variable {
        /// Name without sigil and scope.
        name: String,
        /// `true` for a system variable.
        is_system: bool,
    },
    /// The rows of a correlated subquery for a row of the query it stands in.
    Subquery {
        /// Index in the query's subquery list.
        index: usize,
        /// The row that the subquery refers to.
        outer_row: Vec<Value>,
    },
}

/// The mathematical model of a [`Request`].
pub enum RequestView {
    /// See [`Request::Double`].
    Double(DoubleOpView),
    /// See [`Request::Variable`].
    Variable {
        /// Name without sigil and scope.
        name: Seq<char>,
        /// `true` for a system variable.
        is_system: bool,
    },
    /// See [`Request::Subquery`].
    Subquery {
        /// Index in the query's subquery list.
        index: usize,
        /// The row that the subquery refers to.
        outer_row: Seq<ValueView>,
    },
}

impl View for Request {
    type V = RequestView;

    open spec fn view(&self) -> RequestView {
        match *self {
            Request::Double(op) => RequestView::Double(op@),
            Request::Variable { name, is_system } => RequestView::Variable {
                name: name@,
                is_system,
            },
            Request::Subquery { index, outer_row } => RequestView::Subquery {
                index,
                outer_row: views(outer_row@),
            },
        }
    }
}

/// Why a statement was refused, or what it waits for.
#[derive(Clone, Debug, PartialEq, Eq)]
pub enum HtapError {
    /// The statement or a value is not valid.
    InvalidArgument(String),
    /// The statement uses something that is not supported.
    Unsupported(String),
    /// A named object does not exist.
    NotFound(String),
    /// An internal rule was broken.
    Internal(String),
    /// The answer to a request is missing; with it, the call can be made again.
    Pending(Request),
}

/// The mathematical model of an [`HtapError`].
pub enum ErrorView {
    /// See [`HtapError::InvalidArgument`].
    InvalidArgument(Seq<char>),
    /// See [`HtapError::Unsupported`].
    Unsupported(Seq<char>),
    /// See [`HtapError::NotFound`].
    NotFound(Seq<char>),
    /// See [`HtapError::Internal`].
    Internal(Seq<char>),
    /// See [`HtapError::Pending`].
    Pending(RequestView),
}

impl View for HtapError {
    type V = ErrorView;

    open spec fn view(&self) -> ErrorView {
        match *self {
            HtapError::InvalidArgument(s) => ErrorView::InvalidArgument(s@),
            HtapError::Unsupported(s) => ErrorView::Unsupported(s@),
            HtapError::NotFound(s) => ErrorView::NotFound(s@),
            HtapError::Internal(s) => ErrorView::Internal(s@),
            HtapError::Pending(r) => ErrorView::Pending(r@),
        }
    }
}

impl ErrorView {
    /// The text of the error.
    pub open spec fn message(self) -> Seq<char> {
        match self {
            ErrorView::InvalidArgument(s) => "invalid argument: "@ + s,
            ErrorView::Unsupported(s) => "unsupported: "@ + s,
            ErrorView::NotFound(s) => "not found: "@ + s,
            ErrorView::Internal(s) => "internal error: "@ + s,
            ErrorView::Pending(_) => "an outside result is pending"@,
        }
    }
}

impl HtapError {
    /// The text of the error.
    pub fn message(&self) -> (r: String)
        ensures
            r@ == self@.message(),
    {
        match self {
            HtapError::InvalidArgument(s) => cat2("invalid argument: ", s.as_str()),
            HtapError::Unsupported(s) => cat2("unsupported: ", s.as_str()),
            HtapError::NotFound(s) => cat2("not found: ", s.as_str()),
            HtapError::Internal(s) => cat2("internal error: ", s.as_str()),
            HtapError::Pending(_) => owned("an outside result is pending"),
        }
    }
}

/// The model of a fallible result.
pub open spec fn outcome<T: View>(r: Result<T, HtapError>) -> Result<T::V, ErrorView> {
    match r {
        Ok(x) => Ok(x@),
        Err(e) => Err(e@),
    }
}

/// The model of a refusal with an invalid argument.
pub open spec fn invalid_view<T>(text: Seq<char>) -> Result<T, ErrorView> {
    Err(ErrorView::InvalidArgument(text))
}

/// The model of a refusal of something unsupported.
pub open spec fn unsupported_view<T>(text: Seq<char>) -> Result<T, ErrorView> {
    Err(ErrorView::Unsupported(text))
}

/// An invalid-argument error.
pub(crate) fn invalid(text: String) -> (r: HtapError)
    ensures
        r@ == ErrorView::InvalidArgument(text@),
{
    HtapError::InvalidArgument(text)
}

/// An unsupported error.
pub(crate) fn unsupported(text: String) -> (r: HtapError)
    ensures
        r@ == ErrorView::Unsupported(text@),
{
    HtapError::Unsupported(text)
}

} // verus!
