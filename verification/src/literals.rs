//! Literals of statements, read for the type of a column.

use crate::arithmetic::fits_i64;
use crate::convert::{
    bytes_rank, int_rank, rank_bytes, rank_doubles, rank_i128, rank_text, text_rank, Rank,
};
use crate::decimal::{
    check_decimal_precision, decimal_parse, overflow, overflow_view, parse_decimal_text,
    precision_check,
};
use crate::double::Double;
use crate::sql::{SqlExpr, SqlNode, SqlValue, UnaryOperator};
use crate::text::{
    all_digits, cat2, cat3, cat4, cat6, contains_char, digits_value, is_all_digits, owned,
    parse_i64, same_text, signed_value,
};
use crate::typing::{hex_literal, parse_hex_bytes};
use crate::value::{
    invalid, invalid_view, outcome, ColumnDef, ColumnView, DataType, ErrorView, HtapError, Value,
    ValueView,
};
use vstd::prelude::*;

verus! {

/// An expression without the parentheses around it.
pub open spec fn unnested(e: SqlExpr) -> SqlExpr
    decreases e,
{
    match e.node {
        SqlNode::Nested(inner) => unnested(*inner),
        _ => e,
    }
}

/// An expression without the parentheses around it.
pub(crate) fn unnest(e: &SqlExpr) -> (r: &SqlExpr)
    ensures
        *r == unnested(*e),
    decreases *e,
{
    match &e.node {
        SqlNode::Nested(inner) => unnest(inner),
        _ => e,
    }
}

/// How a unary operator is written.
pub open spec fn unary_text(op: UnaryOperator) -> Seq<char> {
    match op {
        UnaryOperator::Not => "NOT"@,
        UnaryOperator::Minus => "-"@,
        UnaryOperator::Plus => "+"@,
        UnaryOperator::Other(s) => s@,
    }
}

fn text_of_unary(op: &UnaryOperator) -> (r: &str)
    ensures
        r@ == unary_text(*op),
{
    match op {
        UnaryOperator::Not => "NOT",
        UnaryOperator::Minus => "-",
        UnaryOperator::Plus => "+",
        UnaryOperator::Other(s) => s.as_str(),
    }
}

/// A numeral: its sign as written, its digits, and the double that the digits denote.
pub struct Numeral {
    /// `+`, `-` or nothing.
    pub sign: Seq<char>,
    /// Digits, with point and exponent.
    pub digits: Seq<char>,
    /// The double that the digits denote, if they denote one.
    pub double: Option<Double>,
}

/// The numeral that an expression is, or why it is none.
pub open spec fn numeral_of(e: SqlExpr, column: Seq<char>) -> Result<Numeral, ErrorView> {
    match e.node {
        SqlNode::Value(SqlValue::Number { digits, double }) => Ok(
            Numeral { sign: ""@, digits: digits@, double },
        ),
        SqlNode::Value(SqlValue::Placeholder) => invalid_view("placeholders not supported"@),
        SqlNode::Value(_) => invalid_view(
            "type mismatch for column '"@ + column + "': expected number"@,
        ),
        SqlNode::UnaryOp { op, expr } => match op {
            UnaryOperator::Plus => signed_numeral("+"@, *expr, column),
            UnaryOperator::Minus => signed_numeral("-"@, *expr, column),
            _ => invalid_view(
                "unsupported unary operator '"@ + unary_text(op) + "' in numeric literal"@,
            ),
        },
        _ => invalid_view("expressions not supported in values for column '"@ + column + "'"@),
    }
}

/// The numeral that a sign makes of the expression behind it, or why it makes none.
pub open spec fn signed_numeral(sign: Seq<char>, e: SqlExpr, column: Seq<char>) -> Result<
    Numeral,
    ErrorView,
> {
    match e.node {
        SqlNode::Value(SqlValue::Number { digits, double }) => Ok(
            Numeral { sign, digits: digits@, double },
        ),
        _ => invalid_view(
            "type mismatch or expression in numeric literal for column '"@ + column + "'"@,
        ),
    }
}

/// A [`Numeral`] in a statement.
pub struct Parts<'a> {
    /// `+`, `-` or nothing.
    pub sign: &'static str,
    /// Digits, with point and exponent.
    pub digits: &'a str,
    /// The double that the digits denote, if they denote one.
    pub double: Option<Double>,
}

impl<'a> View for Parts<'a> {
    type V = Numeral;

    open spec fn view(&self) -> Numeral {
        Numeral { sign: self.sign@, digits: self.digits@, double: self.double }
    }
}

fn extract_number_parts<'a>(e: &'a SqlExpr, column: &str) -> (r: Result<Parts<'a>, HtapError>)
    ensures
        outcome(r) == numeral_of(*e, column@),
        r is Ok ==> (r->Ok_0.sign == "" || r->Ok_0.sign == "+" || r->Ok_0.sign == "-"),
{
    match &e.node {
        SqlNode::Value(SqlValue::Number { digits, double }) => Ok(
            Parts { sign: "", digits: digits.as_str(), double: *double },
        ),
        SqlNode::Value(SqlValue::Placeholder) => Err(invalid(owned("placeholders not supported"))),
        SqlNode::Value(_) => Err(
            invalid(cat3("type mismatch for column '", column, "': expected number")),
        ),
        SqlNode::UnaryOp { op, expr } => {
            let sign = match op {
                UnaryOperator::Plus => "+",
                UnaryOperator::Minus => "-",
                _ => {
                    return Err(
                        invalid(
                            cat3(
                                "unsupported unary operator '",
                                text_of_unary(op),
                                "' in numeric literal",
                            ),
                        ),
                    );
                },
            };
            match &expr.node {
                SqlNode::Value(SqlValue::Number { digits, double }) => Ok(
                    Parts { sign, digits: digits.as_str(), double: *double },
                ),
                _ => Err(
                    invalid(
                        cat3(
                            "type mismatch or expression in numeric literal for column '",
                            column,
                            "'",
                        ),
                    ),
                ),
            }
        },
        _ => Err(
            invalid(cat3("expressions not supported in values for column '", column, "'")),
        ),
    }
}

/// The written integer of a numeral, or why it is none.
pub open spec fn integer_text(n: Numeral, column: Seq<char>) -> Result<Seq<char>, ErrorView> {
    if n.digits.contains('.') || n.digits.contains('e') || n.digits.contains('E') {
        invalid_view(
            "cannot convert fractional or exponent number '"@ + n.sign + n.digits
                + "' to integer for column '"@ + column + "'"@,
        )
    } else if !all_digits(n.digits) {
        invalid_view(
            "invalid integer literal with suffix or non-digit characters for column '"@ + column
                + "': '"@ + n.sign + n.digits + "'"@,
        )
    } else {
        Ok(n.sign + n.digits)
    }
}

fn parse_integer_string(n: &Parts<'_>, column: &str) -> (r: Result<String, HtapError>)
    ensures
        outcome(r) == integer_text(n@, column@),
{
    if contains_char(n.digits, '.') || contains_char(n.digits, 'e') || contains_char(
        n.digits,
        'E',
    ) {
        return Err(
            invalid(
                cat6(
                    "cannot convert fractional or exponent number '",
                    n.sign,
                    n.digits,
                    "' to integer for column '",
                    column,
                    "'",
                ),
            ),
        );
    }
    if !is_all_digits(n.digits) {
        return Err(
            invalid(
                cat6(
                    "invalid integer literal with suffix or non-digit characters for column '",
                    column,
                    "': '",
                    n.sign,
                    n.digits,
                    "'",
                ),
            ),
        );
    }
    Ok(cat2(n.sign, n.digits))
}

/// Why a written integer is not one of those from `low` to `high`.
pub open spec fn integer_fault(text: Seq<char>, low: int, high: int) -> Option<Seq<char>> {
    if text.len() == 0 {
        Some("cannot parse integer from empty string"@)
    } else {
        match signed_value(text) {
            None => Some("invalid digit found in string"@),
            Some(v) => if v > high {
                Some("number too large to fit in target type"@)
            } else if v < low {
                Some("number too small to fit in target type"@)
            } else {
                None
            },
        }
    }
}

/// The integer of a numeral within bounds, or why there is none.
pub open spec fn bounded_integer(
    n: Numeral,
    column: Seq<char>,
    kind: Seq<char>,
    low: int,
    high: int,
) -> Result<int, ErrorView> {
    match integer_text(n, column) {
        Err(e) => Err(e),
        Ok(text) => match integer_fault(text, low, high) {
            Some(fault) => invalid_view(
                "integer overflow or error for column '"@ + column + "' ("@ + kind + "): "@ + fault,
            ),
            None => Ok(signed_value(text)->0),
        },
    }
}

proof fn lemma_digits_value(s: Seq<char>)
    requires
        all_digits(s),
    ensures
        digits_value(s) >= 0,
    decreases s.len(),
{
    if s.len() > 0 {
        assert('0' <= s[s.len() - 1]);
        lemma_digits_value(s.drop_last());
    }
}

fn parse_bounded(n: &Parts<'_>, column: &str, kind: &str, low: i64, high: i64) -> (r: Result<
    i64,
    HtapError,
>)
    requires
        n.sign == "" || n.sign == "+" || n.sign == "-",
        low <= 0 <= high,
    ensures
        match r {
            Ok(i) => bounded_integer(n@, column@, kind@, low as int, high as int) == Ok::<
                int,
                ErrorView,
            >(i as int) && low <= i <= high,
            Err(e) => bounded_integer(n@, column@, kind@, low as int, high as int) == Err::<
                int,
                ErrorView,
            >(e@),
        },
{
    let text = match parse_integer_string(n, column) {
        Ok(t) => t,
        Err(e) => {
            return Err(e);
        },
    };
    proof {
        reveal_strlit("");
        reveal_strlit("+");
        reveal_strlit("-");
        lemma_digits_value(n.digits@);
        assert(n.sign@.len() <= 1);
        if n.sign@.len() == 0 {
            assert(text@ =~= n.digits@);
        } else {
            assert(text@.skip(1) =~= n.digits@);
            assert(text@[0] == n.sign@[0]);
        }
    }
    let fault = if text.as_str().unicode_len() == 0 {
        "cannot parse integer from empty string"
    } else if n.digits.unicode_len() == 0 {
        "invalid digit found in string"
    } else {
        match parse_i64(text.as_str()) {
            Some(v) => {
                if v > high {
                    "number too large to fit in target type"
                } else if v < low {
                    "number too small to fit in target type"
                } else {
                    return Ok(v);
                }
            },
            None => {
                if same_text(n.sign, "-") {
                    "number too small to fit in target type"
                } else {
                    "number too large to fit in target type"
                }
            },
        }
    };
    Err(
        invalid(
            cat6("integer overflow or error for column '", column, "' (", kind, "): ", fault),
        ),
    )
}

/// The position of the first `e` or `E` from the `i`-th character on; the length if there is none.
pub open spec fn exponent_at(s: Seq<char>, i: int) -> int
    decreases s.len() - i,
{
    if i < 0 || i >= s.len() {
        s.len() as int
    } else if s[i] == 'e' || s[i] == 'E' {
        i
    } else {
        exponent_at(s, i + 1)
    }
}

/// How many of the first `n` characters are points.
pub open spec fn points(s: Seq<char>, n: int) -> nat
    decreases n,
{
    if n <= 0 || n > s.len() {
        0
    } else if s[n - 1] == '.' {
        points(s, n - 1) + 1
    } else {
        points(s, n - 1)
    }
}

/// Whether a text is a mantissa: digits with at most one point.
pub open spec fn is_mantissa(s: Seq<char>) -> bool {
    s.len() > 0 && points(s, s.len() as int) <= 1 && forall|i: int|
        0 <= i < s.len() ==> #[trigger] s[i] == '.' || ('0' <= s[i] && s[i] <= '9')
}

/// Whether a text is an exponent: digits, optionally behind a sign.
pub open spec fn is_exponent(s: Seq<char>) -> bool {
    let body = if s.len() > 0 && (s[0] == '+' || s[0] == '-') {
        s.skip(1)
    } else {
        s
    };
    body.len() > 0 && all_digits(body)
}

/// The double of a numeral, or why there is none.
pub open spec fn float_of(n: Numeral, column: Seq<char>) -> Result<Double, ErrorView> {
    let at = exponent_at(n.digits, 0);
    let mantissa = n.digits.take(at);
    let tail = n.digits.skip(at + 1);
    if (at < n.digits.len() && (tail.contains('e') || tail.contains('E'))) || !is_mantissa(
        mantissa,
    ) {
        invalid_view(
            "invalid float literal for column '"@ + column + "': '"@ + n.sign + n.digits + "'"@,
        )
    } else if at < n.digits.len() && !is_exponent(tail) {
        invalid_view(
            "invalid float exponent for column '"@ + column + "': '"@ + n.sign + n.digits + "'"@,
        )
    } else {
        match n.double {
            None => invalid_view(
                "invalid float literal for column '"@ + column + "': "@ + "invalid float literal"@,
            ),
            Some(d) => if !d.finite() {
                invalid_view("float overflow or NaN for column '"@ + column + "'"@)
            } else if n.sign == "-"@ {
                Ok(d.negated())
            } else {
                Ok(d)
            },
        }
    }
}

fn check_mantissa(s: &str) -> (r: bool)
    ensures
        r == is_mantissa(s@),
{
    let n: usize = s.unicode_len();
    if n == 0 {
        return false;
    }
    let mut seen: usize = 0;
    let mut i: usize = 0;
    while i < n
        invariant
            n == s@.len(),
            i <= n,
            seen <= i,
            seen == points(s@, i as int),
            forall|j: int|
                0 <= j < i ==> #[trigger] s@[j] == '.' || ('0' <= s@[j] && s@[j] <= '9'),
        decreases n - i,
    {
        let c = s.get_char(i);
        if c == '.' {
            seen = seen + 1;
        } else if c < '0' || c > '9' {
            return false;
        }
        i = i + 1;
    }
    seen <= 1
}

fn check_exponent(s: &str) -> (r: bool)
    ensures
        r == is_exponent(s@),
{
    let n: usize = s.unicode_len();
    if n == 0 {
        return false;
    }
    let c = s.get_char(0);
    if c == '+' || c == '-' {
        let body = s.substring_char(1, n);
        assert(body@ =~= s@.skip(1));
        n > 1 && is_all_digits(body)
    } else {
        is_all_digits(s)
    }
}

fn parse_float_string(n: &Parts<'_>, column: &str) -> (r: Result<Double, HtapError>)
    requires
        n.sign == "" || n.sign == "+" || n.sign == "-",
    ensures
        match r {
            Ok(d) => float_of(n@, column@) == Ok::<Double, ErrorView>(d),
            Err(e) => float_of(n@, column@) == Err::<Double, ErrorView>(e@),
        },
{
    let len: usize = n.digits.unicode_len();
    let mut at: usize = 0;
    while at < len && n.digits.get_char(at) != 'e' && n.digits.get_char(at) != 'E'
        invariant
            len == n.digits@.len(),
            at <= len,
            exponent_at(n.digits@, 0) == exponent_at(n.digits@, at as int),
        decreases len - at,
    {
        at = at + 1;
    }
    let mantissa = n.digits.substring_char(0, at);
    assert(mantissa@ =~= n.digits@.take(at as int));
    if at < len {
        let tail = n.digits.substring_char(at + 1, len);
        assert(tail@ =~= n.digits@.skip(at + 1));
        if contains_char(tail, 'e') || contains_char(tail, 'E') || !check_mantissa(mantissa) {
            return Err(
                invalid(
                    cat6(
                        "invalid float literal for column '",
                        column,
                        "': '",
                        n.sign,
                        n.digits,
                        "'",
                    ),
                ),
            );
        }
        if !check_exponent(tail) {
            return Err(
                invalid(
                    cat6(
                        "invalid float exponent for column '",
                        column,
                        "': '",
                        n.sign,
                        n.digits,
                        "'",
                    ),
                ),
            );
        }
    } else if !check_mantissa(mantissa) {
        return Err(
            invalid(
                cat6("invalid float literal for column '", column, "': '", n.sign, n.digits, "'"),
            ),
        );
    }
    match n.double {
        None => Err(
            invalid(
                cat4("invalid float literal for column '", column, "': ", "invalid float literal"),
            ),
        ),
        Some(d) => if !d.is_finite() {
            Err(invalid(cat3("float overflow or NaN for column '", column, "'")))
        } else if same_text(n.sign, "-") {
            Ok(d.neg())
        } else {
            Ok(d)
        },
    }
}

/// The decimal of a numeral for a type, or why there is none.
pub open spec fn decimal_of_numeral(n: Numeral, precision: u8, scale: u8) -> Result<
    ValueView,
    ErrorView,
> {
    match decimal_parse(n.sign + n.digits, scale as nat) {
        Err(e) => Err(e),
        Ok(v) => if !fits_i64(v) {
            Err(overflow_view("DECIMAL"@))
        } else {
            match precision_check(v as i64, precision, scale) {
                Err(e) => Err(e),
                Ok(x) => Ok(ValueView::Decimal { value: x, precision, scale }),
            }
        },
    }
}

fn parse_decimal_numeral(n: &Parts<'_>, precision: u8, scale: u8) -> (r: Result<Value, HtapError>)
    ensures
        outcome(r) == decimal_of_numeral(n@, precision, scale),
{
    let text = cat2(n.sign, n.digits);
    let v: i128 = match parse_decimal_text(text.as_str(), scale) {
        Ok(v) => v,
        Err(e) => {
            return Err(e);
        },
    };
    if v < i64::MIN as i128 || v > i64::MAX as i128 {
        return Err(overflow("DECIMAL"));
    }
    match check_decimal_precision(v as i64, precision, scale) {
        Ok(value) => Ok(Value::Decimal { value, precision, scale }),
        Err(e) => Err(e),
    }
}

/// The refusal of a literal that does not fit the type of a column.
pub open spec fn mismatch(column: Seq<char>, expected: Seq<char>) -> Result<ValueView, ErrorView> {
    invalid_view("type mismatch for column '"@ + column + "': expected "@ + expected)
}

fn mismatch_error(column: &str, expected: &str) -> (r: HtapError)
    ensures
        mismatch(column@, expected@) == Err::<ValueView, ErrorView>(r@),
{
    invalid(cat4("type mismatch for column '", column, "': expected ", expected))
}

/// The value of a literal for a column, or its refusal.
pub open spec fn column_literal(expr: SqlExpr, col: ColumnView) -> Result<ValueView, ErrorView> {
    let e = unnested(expr);
    match e.node {
        SqlNode::Value(SqlValue::Null) => if col.primary_key {
            invalid_view("NULL value not allowed for primary key column '"@ + col.name + "'"@)
        } else if !col.nullable {
            invalid_view("column '"@ + col.name + "' is NOT NULL"@)
        } else {
            Ok(ValueView::Null)
        },
        SqlNode::Value(SqlValue::Placeholder) => invalid_view("placeholders not supported"@),
        _ => typed_literal(e, col),
    }
}

/// The value of a literal that is neither `NULL` nor a placeholder, or its refusal.
pub open spec fn typed_literal(e: SqlExpr, col: ColumnView) -> Result<ValueView, ErrorView> {
    match col.data_type {
        DataType::Bool => match e.node {
            SqlNode::Value(SqlValue::Boolean(b)) => Ok(ValueView::Bool(b)),
            SqlNode::Value(SqlValue::Number { digits, .. }) => if digits@ == "0"@ {
                Ok(ValueView::Bool(false))
            } else if digits@ == "1"@ {
                Ok(ValueView::Bool(true))
            } else {
                mismatch(col.name, "boolean"@)
            },
            _ => mismatch(col.name, "boolean"@),
        },
        DataType::String => match e.node {
            SqlNode::Value(SqlValue::SingleQuoted(s)) => Ok(ValueView::String(s@)),
            SqlNode::Value(SqlValue::DoubleQuoted(s)) => Ok(ValueView::String(s@)),
            _ => mismatch(col.name, "quoted string"@),
        },
        DataType::Bytes => match e.node {
            SqlNode::Value(SqlValue::Hex(s)) => match hex_literal(s@, col.name) {
                Ok(b) => Ok(ValueView::Bytes(b)),
                Err(x) => Err(x),
            },
            SqlNode::Value(SqlValue::SingleQuoted(s)) => Ok(
                ValueView::Bytes(vstd::utf8::encode_utf8(s@)),
            ),
            SqlNode::Value(SqlValue::DoubleQuoted(s)) => Ok(
                ValueView::Bytes(vstd::utf8::encode_utf8(s@)),
            ),
            _ => mismatch(col.name, "hex byte literal"@),
        },
        _ => match numeral_of(e, col.name) {
            Err(x) => Err(x),
            Ok(n) => match col.data_type {
                DataType::Int32 => match bounded_integer(
                    n,
                    col.name,
                    "INT32"@,
                    i32::MIN as int,
                    i32::MAX as int,
                ) {
                    Ok(i) => Ok(ValueView::Int32(i as i32)),
                    Err(x) => Err(x),
                },
                DataType::Int64 => match bounded_integer(
                    n,
                    col.name,
                    "INT64"@,
                    i64::MIN as int,
                    i64::MAX as int,
                ) {
                    Ok(i) => Ok(ValueView::Int64(i as i64)),
                    Err(x) => Err(x),
                },
                DataType::Timestamp => match bounded_integer(
                    n,
                    col.name,
                    "TIMESTAMP"@,
                    i64::MIN as int,
                    i64::MAX as int,
                ) {
                    Ok(i) => Ok(ValueView::Timestamp(i as i64)),
                    Err(x) => Err(x),
                },
                DataType::Decimal { precision, scale } => decimal_of_numeral(n, precision, scale),
                _ => match float_of(n, col.name) {
                    Ok(d) => Ok(ValueView::Float64(d)),
                    Err(x) => Err(x),
                },
            },
        },
    }
}

/// Reads a literal for a column.
pub(crate) fn parse_literal_value(expr: &SqlExpr, col: &ColumnDef) -> (r: Result<Value, HtapError>)
    ensures
        outcome(r) == column_literal(*expr, col@),
{
    let e = unnest(expr);
    let name = col.name.as_str();
    match &e.node {
        SqlNode::Value(SqlValue::Null) => {
            if col.primary_key {
                return Err(
                    invalid(cat3("NULL value not allowed for primary key column '", name, "'")),
                );
            }
            if !col.nullable {
                return Err(invalid(cat3("column '", name, "' is NOT NULL")));
            }
            return Ok(Value::Null);
        },
        SqlNode::Value(SqlValue::Placeholder) => {
            return Err(invalid(owned("placeholders not supported")));
        },
        _ => {},
    }
    match col.data_type {
        DataType::Bool => match &e.node {
            SqlNode::Value(SqlValue::Boolean(b)) => Ok(Value::Bool(*b)),
            SqlNode::Value(SqlValue::Number { digits, .. }) => {
                if same_text(digits.as_str(), "0") {
                    Ok(Value::Bool(false))
                } else if same_text(digits.as_str(), "1") {
                    Ok(Value::Bool(true))
                } else {
                    Err(mismatch_error(name, "boolean"))
                }
            },
            _ => Err(mismatch_error(name, "boolean")),
        },
        DataType::String => match &e.node {
            SqlNode::Value(SqlValue::SingleQuoted(s)) => Ok(Value::String(s.clone())),
            SqlNode::Value(SqlValue::DoubleQuoted(s)) => Ok(Value::String(s.clone())),
            _ => Err(mismatch_error(name, "quoted string")),
        },
        DataType::Bytes => match &e.node {
            SqlNode::Value(SqlValue::Hex(s)) => match parse_hex_bytes(s.as_str(), name) {
                Ok(b) => Ok(Value::Bytes(b)),
                Err(x) => Err(x),
            },
            SqlNode::Value(SqlValue::SingleQuoted(s)) => Ok(
                Value::Bytes(s.as_str().as_bytes_vec()),
            ),
            SqlNode::Value(SqlValue::DoubleQuoted(s)) => Ok(
                Value::Bytes(s.as_str().as_bytes_vec()),
            ),
            _ => Err(mismatch_error(name, "hex byte literal")),
        },
        _ => {
            let n = match extract_number_parts(e, name) {
                Ok(n) => n,
                Err(x) => {
                    return Err(x);
                },
            };
            match col.data_type {
                DataType::Int32 => match parse_bounded(
                    &n,
                    name,
                    "INT32",
                    i32::MIN as i64,
                    i32::MAX as i64,
                ) {
                    Ok(i) => Ok(Value::Int32(i as i32)),
                    Err(x) => Err(x),
                },
                DataType::Int64 => match parse_bounded(&n, name, "INT64", i64::MIN, i64::MAX) {
                    Ok(i) => Ok(Value::Int64(i)),
                    Err(x) => Err(x),
                },
                DataType::Timestamp => match parse_bounded(
                    &n,
                    name,
                    "TIMESTAMP",
                    i64::MIN,
                    i64::MAX,
                ) {
                    Ok(i) => Ok(Value::Timestamp(i)),
                    Err(x) => Err(x),
                },
                DataType::Decimal { precision, scale } => parse_decimal_numeral(
                    &n,
                    precision,
                    scale,
                ),
                _ => match parse_float_string(&n, name) {
                    Ok(d) => Ok(Value::Float64(d)),
                    Err(x) => Err(x),
                },
            }
        },
    }
}

/// The place of a kind of value among the kinds.
pub open spec fn kind_place(v: ValueView) -> int {
    match v {
        ValueView::Null => 0,
        ValueView::Bool(_) => 1,
        ValueView::Int32(_) => 2,
        ValueView::Int64(_) => 3,
        ValueView::Float64(_) => 4,
        ValueView::String(_) => 5,
        ValueView::Bytes(_) => 6,
        ValueView::Timestamp(_) => 7,
        ValueView::Decimal { .. } => 8,
    }
}

/// How partition keys stand to each other: values of one column by their own order, values of
/// different kinds by their kinds.
pub open spec fn key_rank(a: ValueView, b: ValueView) -> Rank {
    match (a, b) {
        (ValueView::Bool(x), ValueView::Bool(y)) => if x == y {
            Rank::Equal
        } else if y {
            Rank::Less
        } else {
            Rank::Greater
        },
        (ValueView::Int32(x), ValueView::Int32(y)) => int_rank(x as int, y as int),
        (ValueView::Int64(x), ValueView::Int64(y)) => int_rank(x as int, y as int),
        (ValueView::Timestamp(x), ValueView::Timestamp(y)) => int_rank(x as int, y as int),
        (ValueView::Float64(x), ValueView::Float64(y)) => int_rank(x.rank(), y.rank()),
        (ValueView::String(x), ValueView::String(y)) => text_rank(x, y, 0),
        (ValueView::Bytes(x), ValueView::Bytes(y)) => bytes_rank(x, y, 0),
        (
            ValueView::Decimal { value: x, .. },
            ValueView::Decimal { value: y, .. },
        ) => int_rank(x as int, y as int),
        _ => int_rank(kind_place(a), kind_place(b)),
    }
}

fn place_of_kind(v: &Value) -> (r: u8)
    ensures
        r == kind_place(v@),
{
    match v {
        Value::Null => 0,
        Value::Bool(_) => 1,
        Value::Int32(_) => 2,
        Value::Int64(_) => 3,
        Value::Float64(_) => 4,
        Value::String(_) => 5,
        Value::Bytes(_) => 6,
        Value::Timestamp(_) => 7,
        Value::Decimal { .. } => 8,
    }
}

/// How partition keys stand to each other.
pub(crate) fn rank_keys(a: &Value, b: &Value) -> (r: Rank)
    ensures
        r == key_rank(a@, b@),
{
    match (a, b) {
        (Value::Bool(x), Value::Bool(y)) => if *x == *y {
            Rank::Equal
        } else if *y {
            Rank::Less
        } else {
            Rank::Greater
        },
        (Value::Int32(x), Value::Int32(y)) => rank_i128(*x as i128, *y as i128),
        (Value::Int64(x), Value::Int64(y)) => rank_i128(*x as i128, *y as i128),
        (Value::Timestamp(x), Value::Timestamp(y)) => rank_i128(*x as i128, *y as i128),
        (Value::Float64(x), Value::Float64(y)) => rank_doubles(*x, *y),
        (Value::String(x), Value::String(y)) => rank_text(x.as_str(), y.as_str()),
        (Value::Bytes(x), Value::Bytes(y)) => rank_bytes(x, y),
        (Value::Decimal { value: x, .. }, Value::Decimal { value: y, .. }) => rank_i128(
            *x as i128,
            *y as i128,
        ),
        _ => rank_i128(place_of_kind(a) as i128, place_of_kind(b) as i128),
    }
}

} // verus!
