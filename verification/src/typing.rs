//! Literals, static type checks, and narrow coercions.

use crate::answers::Answers;
use crate::convert::{cast_value, cast_view};
use crate::decimal::point_from;
use crate::double::{Double, DoubleOp, DoubleOpView, INFINITY_BITS, SIGN_BIT};
use crate::expr::{
    arithmetic_result_type, arithmetic_type, type_of, BinOp, CalendarIntervalUnit, Expr, ExprType,
    ExprView,
};
use crate::names::{check_comparable, common_of, comparable_check, union_type};
use crate::query::{
    PeerFrameBound, RowFrameBound, ValueBoundView, ValueFrameBound, WindowFrameDirection,
};
use crate::sql::{
    DateTimeField, ExactNumberInfo, FrameBound, SqlDataType, SqlExpr, SqlNode, SqlTypeKind,
    SqlValue,
};
use crate::text::{
    all_digits, cat2, cat3, cat4, cat5, cat6, contains_char, count_text, folds_to, hex_bytes,
    int_text, is_all_digits, nat_text, owned, parse_hex, parse_i64, parse_u64, same_folded,
    signed_text, signed_value, unsigned_text, unsigned_value,
};
use crate::value::{
    invalid, invalid_view, outcome, unsupported, unsupported_view, views, ColumnDef, ColumnView,
    DataType, ErrorView, HtapError, Value, ValueView, MAX_DECIMAL_PRECISION,
};
use vstd::prelude::*;

verus! {

/// Whether a condition is boolean, and if not, why it is refused.
pub open spec fn bool_check(t: ExprType, clause: Seq<char>) -> Result<(), ErrorView> {
    if t.data_type != DataType::Bool && !t.permissive() {
        invalid_view(clause + " condition must be boolean, found "@ + t.data_type.keyword())
    } else {
        Ok(())
    }
}

/// Whether an operand is a timestamp, and if not, why it is refused.
pub open spec fn timestamp_check(t: ExprType, what: Seq<char>) -> Result<(), ErrorView> {
    if t.data_type != DataType::Timestamp && !t.permissive() {
        invalid_view(what + " requires a timestamp operand, found "@ + t.data_type.keyword())
    } else {
        Ok(())
    }
}

/// Whether an operand is numeric, and if not, why it is refused.
pub open spec fn numeric_check(t: ExprType, what: Seq<char>) -> Result<(), ErrorView> {
    if !t.data_type.numeric() && !t.permissive() {
        invalid_view(what + " requires a numeric operand, found "@ + t.data_type.keyword())
    } else {
        Ok(())
    }
}

/// Whether an argument is text, and if not, why it is refused.
pub open spec fn string_check(t: ExprType, what: Seq<char>) -> Result<(), ErrorView> {
    if t.data_type != DataType::String && !t.permissive() {
        invalid_view(what + " requires a string argument, found "@ + t.data_type.keyword())
    } else {
        Ok(())
    }
}

/// Whether an operand of `LIKE` is text, and if not, why it is refused.
pub open spec fn like_check(t: ExprType, what: Seq<char>) -> Result<(), ErrorView> {
    if t.data_type != DataType::String && !t.permissive() {
        invalid_view(what + " must be a string, found "@ + t.data_type.keyword())
    } else {
        Ok(())
    }
}

pub(crate) fn require_bool(e: &Expr, clause: &str) -> (r: Result<(), HtapError>)
    ensures
        outcome(r) == bool_check(type_of(e@), clause@),
{
    let t = e.static_type();
    if t.data_type != DataType::Bool && !t.is_permissive() {
        return Err(invalid(cat3(clause, " condition must be boolean, found ", t.data_type.name())));
    }
    Ok(())
}

pub(crate) fn require_timestamp(e: &Expr, what: &str) -> (r: Result<(), HtapError>)
    ensures
        outcome(r) == timestamp_check(type_of(e@), what@),
{
    let t = e.static_type();
    if t.data_type != DataType::Timestamp && !t.is_permissive() {
        return Err(
            invalid(cat3(what, " requires a timestamp operand, found ", t.data_type.name())),
        );
    }
    Ok(())
}

pub(crate) fn require_numeric(e: &Expr, what: &str) -> (r: Result<(), HtapError>)
    ensures
        outcome(r) == numeric_check(type_of(e@), what@),
{
    let t = e.static_type();
    if !t.data_type.is_numeric() && !t.is_permissive() {
        return Err(invalid(cat3(what, " requires a numeric operand, found ", t.data_type.name())));
    }
    Ok(())
}

pub(crate) fn require_string(e: &Expr, what: &str) -> (r: Result<(), HtapError>)
    ensures
        outcome(r) == string_check(type_of(e@), what@),
{
    let t = e.static_type();
    if t.data_type != DataType::String && !t.is_permissive() {
        return Err(invalid(cat3(what, " requires a string argument, found ", t.data_type.name())));
    }
    Ok(())
}

pub(crate) fn require_like(e: &Expr, what: &str) -> (r: Result<(), HtapError>)
    ensures
        outcome(r) == like_check(type_of(e@), what@),
{
    let t = e.static_type();
    if t.data_type != DataType::String && !t.is_permissive() {
        return Err(invalid(cat3(what, " must be a string, found ", t.data_type.name())));
    }
    Ok(())
}

/// An integer literal 0 or 1 as a boolean literal; anything else unchanged.
pub open spec fn int_as_bool(e: ExprView) -> ExprView {
    match e {
        ExprView::Literal(ValueView::Int32(i)) => if i == 0 {
            ExprView::Literal(ValueView::Bool(false))
        } else if i == 1 {
            ExprView::Literal(ValueView::Bool(true))
        } else {
            e
        },
        ExprView::Literal(ValueView::Int64(i)) => if i == 0 {
            ExprView::Literal(ValueView::Bool(false))
        } else if i == 1 {
            ExprView::Literal(ValueView::Bool(true))
        } else {
            e
        },
        _ => e,
    }
}

/// A text literal as a byte literal; anything else unchanged.
pub open spec fn text_as_bytes(e: ExprView) -> ExprView {
    match e {
        ExprView::Literal(ValueView::String(s)) => ExprView::Literal(
            ValueView::Bytes(vstd::utf8::encode_utf8(s)),
        ),
        _ => e,
    }
}

/// The operands of a comparison: 0 and 1 become booleans beside a boolean, and text becomes bytes
/// beside bytes.
pub open spec fn coerced_pair(l: ExprView, r: ExprView) -> (ExprView, ExprView) {
    let l1 = if type_of(r).data_type == DataType::Bool {
        int_as_bool(l)
    } else {
        l
    };
    let r1 = if type_of(l).data_type == DataType::Bool {
        int_as_bool(r)
    } else {
        r
    };
    (
        if type_of(r1).data_type == DataType::Bytes {
            text_as_bytes(l1)
        } else {
            l1
        },
        if type_of(l1).data_type == DataType::Bytes {
            text_as_bytes(r1)
        } else {
            r1
        },
    )
}

fn coerce_int_literal_to_bool(e: Expr) -> (r: Expr)
    ensures
        r@ == int_as_bool(e@),
{
    match &e {
        Expr::Literal(Value::Int32(i)) => if *i == 0 {
            Expr::Literal(Value::Bool(false))
        } else if *i == 1 {
            Expr::Literal(Value::Bool(true))
        } else {
            e
        },
        Expr::Literal(Value::Int64(i)) => if *i == 0 {
            Expr::Literal(Value::Bool(false))
        } else if *i == 1 {
            Expr::Literal(Value::Bool(true))
        } else {
            e
        },
        _ => e,
    }
}

fn coerce_string_literal_to_bytes(e: Expr) -> (r: Expr)
    ensures
        r@ == text_as_bytes(e@),
{
    match &e {
        Expr::Literal(Value::String(s)) => Expr::Literal(Value::Bytes(s.as_str().as_bytes_vec())),
        _ => e,
    }
}

/// Coerces the operands of a comparison.
pub(crate) fn coerce_pair(l: Expr, r: Expr) -> (res: (Expr, Expr))
    ensures
        (res.0@, res.1@) == coerced_pair(l@, r@),
{
    let l_bool = l.static_type().data_type == DataType::Bool;
    let r_bool = r.static_type().data_type == DataType::Bool;
    let l1 = if r_bool {
        coerce_int_literal_to_bool(l)
    } else {
        l
    };
    let r1 = if l_bool {
        coerce_int_literal_to_bool(r)
    } else {
        r
    };
    let l_bytes = l1.static_type().data_type == DataType::Bytes;
    let r_bytes = r1.static_type().data_type == DataType::Bytes;
    let l2 = if r_bytes {
        coerce_string_literal_to_bytes(l1)
    } else {
        l1
    };
    let r2 = if l_bytes {
        coerce_string_literal_to_bytes(r1)
    } else {
        r1
    };
    (l2, r2)
}

/// Whether an operator accepts operands of two types, and if not, why.
pub open spec fn operand_check(op: BinOp, l: ExprType, r: ExprType) -> Result<(), ErrorView> {
    if op == BinOp::And || op == BinOp::Or {
        match bool_check(l, op.symbol()) {
            Err(e) => Err(e),
            Ok(_) => bool_check(r, op.symbol()),
        }
    } else if op == BinOp::IntDiv {
        if (l.data_type == DataType::Int32 || l.data_type == DataType::Int64) && (r.data_type
            == DataType::Int32 || r.data_type == DataType::Int64) {
            Ok(())
        } else {
            invalid_view("DIV requires both operands to be integers"@)
        }
    } else if op.comparison() {
        comparable_check(l, r, op.symbol())
    } else {
        match numeric_check(l, op.symbol()) {
            Err(e) => Err(e),
            Ok(_) => match numeric_check(r, op.symbol()) {
                Err(e) => Err(e),
                Ok(_) => match arithmetic_type(op, l.data_type, r.data_type) {
                    Err(e) => Err(e),
                    Ok(_) => Ok(()),
                },
            },
        }
    }
}

/// Checks the operand types of a binary operator.
pub(crate) fn check_binary_types(op: BinOp, l: &Expr, r: &Expr) -> (res: Result<(), HtapError>)
    ensures
        outcome(res) == operand_check(op, type_of(l@), type_of(r@)),
{
    if op == BinOp::And || op == BinOp::Or {
        return match require_bool(l, op.text()) {
            Err(e) => Err(e),
            Ok(_) => require_bool(r, op.text()),
        };
    }
    let lt = l.static_type().data_type;
    let rt = r.static_type().data_type;
    if op == BinOp::IntDiv {
        if (lt == DataType::Int32 || lt == DataType::Int64) && (rt == DataType::Int32 || rt
            == DataType::Int64) {
            return Ok(());
        }
        return Err(invalid(owned("DIV requires both operands to be integers")));
    }
    if op.is_comparison() {
        return check_comparable(l, r, op.text());
    }
    match require_numeric(l, op.text()) {
        Err(e) => {
            return Err(e);
        },
        Ok(_) => {},
    }
    match require_numeric(r, op.text()) {
        Err(e) => {
            return Err(e);
        },
        Ok(_) => {},
    }
    match arithmetic_result_type(op, lt, rt) {
        Err(e) => Err(e),
        Ok(_) => Ok(()),
    }
}

/// The common type of branches from the `i`-th on, given the type and nullability so far.
pub open spec fn branches_type(
    exprs: Seq<ExprView>,
    what: Seq<char>,
    i: int,
    so_far: Option<DataType>,
    nullable: bool,
) -> Result<(DataType, bool), ErrorView>
    decreases exprs.len() - i,
{
    if i < 0 || i >= exprs.len() {
        Ok(
            (
                match so_far {
                    Some(t) => t,
                    None => DataType::String,
                },
                nullable,
            ),
        )
    } else {
        let t = type_of(exprs[i]);
        if t.permissive() {
            branches_type(exprs, what, i + 1, so_far, nullable || t.nullable)
        } else {
            match so_far {
                None => branches_type(
                    exprs,
                    what,
                    i + 1,
                    Some(t.data_type),
                    nullable || t.nullable,
                ),
                Some(cur) => match common_of(cur, t.data_type) {
                    Some(u) => branches_type(exprs, what, i + 1, Some(u), nullable || t.nullable),
                    None => invalid_view(
                        what + " branches have incompatible types "@ + cur.keyword() + " and "@
                            + t.data_type.keyword(),
                    ),
                },
            }
        }
    }
}

/// Common result type of several branch expressions.
pub(crate) fn common_type(exprs: &Vec<Expr>, what: &str) -> (r: Result<
    (DataType, bool),
    HtapError,
>)
    ensures
        outcome(r) == branches_type(views(exprs@), what@, 0, None, false),
{
    let mut so_far: Option<DataType> = None;
    let mut nullable = false;
    let mut i: usize = 0;
    while i < exprs.len()
        invariant
            i <= exprs.len(),
            branches_type(views(exprs@), what@, 0, None, false) == branches_type(
                views(exprs@),
                what@,
                i as int,
                so_far,
                nullable,
            ),
        decreases exprs.len() - i,
    {
        let t = exprs[i].static_type();
        assert(views(exprs@)[i as int] == exprs@[i as int]@);
        nullable = nullable || t.nullable;
        if !t.is_permissive() {
            match so_far {
                None => {
                    so_far = Some(t.data_type);
                },
                Some(cur) => match union_type(cur, t.data_type) {
                    Some(u) => {
                        so_far = Some(u);
                    },
                    None => {
                        return Err(
                            invalid(
                                cat5(
                                    what,
                                    " branches have incompatible types ",
                                    cur.name(),
                                    " and ",
                                    t.data_type.name(),
                                ),
                            ),
                        );
                    },
                },
            }
        }
        i = i + 1;
    }
    Ok(
        (
            match so_far {
                Some(t) => t,
                None => DataType::String,
            },
            nullable,
        ),
    )
}

/// What a numeral denotes: with a point and no exponent it is a decimal of its own digits,
/// without either an integer, and else a double.
pub open spec fn number_literal(digits: Seq<char>, double: Option<Double>) -> Result<
    ValueView,
    ErrorView,
> {
    if digits.contains('.') && !digits.contains('e') && !digits.contains('E') {
        let p = point_from(digits, 0);
        let whole = digits.take(p);
        let fraction = digits.skip(p + 1);
        if !all_digits(whole) || !all_digits(fraction) {
            invalid_view("invalid numeric literal "@ + digits)
        } else if whole.len() + fraction.len() == 0 || whole.len() + fraction.len()
            > MAX_DECIMAL_PRECISION {
            invalid_view(
                "DECIMAL literal "@ + digits + " exceeds maximum precision "@ + nat_text(
                    MAX_DECIMAL_PRECISION as nat,
                ),
            )
        } else {
            match signed_value(whole + fraction) {
                Some(v) if i64::MIN <= v <= i64::MAX => Ok(
                    ValueView::Decimal {
                        value: v as i64,
                        precision: (whole.len() + fraction.len()) as u8,
                        scale: fraction.len() as u8,
                    },
                ),
                _ => invalid_view("invalid numeric literal "@ + digits),
            }
        }
    } else {
        match signed_value(digits) {
            Some(v) if i64::MIN <= v <= i64::MAX => Ok(ValueView::Int64(v as i64)),
            _ => match double {
                None => invalid_view("invalid numeric literal "@ + digits),
                Some(d) => if d.finite() {
                    Ok(ValueView::Float64(d))
                } else {
                    invalid_view("DOUBLE value is out of range in literal"@)
                },
            },
        }
    }
}

fn bind_number(digits: &str, double: Option<Double>) -> (r: Result<Value, HtapError>)
    ensures
        outcome(r) == number_literal(digits@, double),
{
    if contains_char(digits, '.') && !contains_char(digits, 'e') && !contains_char(digits, 'E') {
        let n: usize = digits.unicode_len();
        let mut p: usize = 0;
        while p < n && digits.get_char(p) != '.'
            invariant
                n == digits@.len(),
                p <= n,
                point_from(digits@, 0) == point_from(digits@, p as int),
                forall|j: int| 0 <= j < p ==> digits@[j] != '.',
            decreases n - p,
        {
            p = p + 1;
        }
        assert(p < n) by {
            if p >= n {
                let k = choose|k: int| 0 <= k < digits@.len() && digits@[k] == '.';
                assert(digits@[k] != '.');
            }
        }
        let whole = digits.substring_char(0, p);
        let fraction = digits.substring_char(p + 1, n);
        assert(whole@ =~= digits@.take(p as int));
        assert(fraction@ =~= digits@.skip(p + 1));
        if !is_all_digits(whole) || !is_all_digits(fraction) {
            return Err(invalid(cat2("invalid numeric literal ", digits)));
        }
        let precision: usize = n - 1;
        let scale: usize = n - p - 1;
        assert(whole@.len() + fraction@.len() == precision);
        if precision == 0 || precision > MAX_DECIMAL_PRECISION as usize {
            let max = unsigned_text(MAX_DECIMAL_PRECISION as u64);
            return Err(
                invalid(
                    cat4("DECIMAL literal ", digits, " exceeds maximum precision ", max.as_str()),
                ),
            );
        }
        let joined = cat2(whole, fraction);
        match parse_i64(joined.as_str()) {
            Some(value) => Ok(
                Value::Decimal { value, precision: precision as u8, scale: scale as u8 },
            ),
            None => Err(invalid(cat2("invalid numeric literal ", digits))),
        }
    } else {
        match parse_i64(digits) {
            Some(i) => Ok(Value::Int64(i)),
            None => match double {
                None => Err(invalid(cat2("invalid numeric literal ", digits))),
                Some(d) => if d.is_finite() {
                    Ok(Value::Float64(d))
                } else {
                    Err(invalid(owned("DOUBLE value is out of range in literal")))
                },
            },
        }
    }
}

/// The bytes of a base-sixteen literal, or its refusal.
pub open spec fn hex_literal(s: Seq<char>, column: Seq<char>) -> Result<Seq<u8>, ErrorView> {
    let b = vstd::utf8::encode_utf8(s);
    if b.len() % 2 != 0 {
        invalid_view(
            "hex literal for column '"@ + column
                + "' must have an even number of digits, got length "@ + nat_text(b.len()),
        )
    } else {
        match hex_bytes(b, 0, Seq::empty()) {
            Some(v) => Ok(v),
            None => invalid_view(
                "invalid hex character in literal for column '"@ + column + "'"@,
            ),
        }
    }
}

/// Parses a base-sixteen literal.
pub(crate) fn parse_hex_bytes(s: &str, column: &str) -> (r: Result<Vec<u8>, HtapError>)
    ensures
        outcome(r) == hex_literal(s@, column@),
{
    let b = s.as_bytes_vec();
    if b.len() % 2 != 0 {
        let n = count_text(b.len());
        return Err(
            invalid(
                cat4(
                    "hex literal for column '",
                    column,
                    "' must have an even number of digits, got length ",
                    n.as_str(),
                ),
            ),
        );
    }
    match parse_hex(&b) {
        Some(v) => Ok(v),
        None => Err(invalid(cat3("invalid hex character in literal for column '", column, "'"))),
    }
}

/// The value of a literal, or its refusal.
pub open spec fn literal_view(v: SqlValue, text: Seq<char>) -> Result<ExprView, ErrorView> {
    match v {
        SqlValue::Null => Ok(ExprView::Literal(ValueView::Null)),
        SqlValue::Boolean(b) => Ok(ExprView::Literal(ValueView::Bool(b))),
        SqlValue::Number { digits, double } => match number_literal(digits@, double) {
            Ok(x) => Ok(ExprView::Literal(x)),
            Err(e) => Err(e),
        },
        SqlValue::SingleQuoted(s) => Ok(ExprView::Literal(ValueView::String(s@))),
        SqlValue::DoubleQuoted(s) => Ok(ExprView::Literal(ValueView::String(s@))),
        SqlValue::National(s) => Ok(ExprView::Literal(ValueView::String(s@))),
        SqlValue::Escaped(s) => Ok(ExprView::Literal(ValueView::String(s@))),
        SqlValue::Hex(s) => match hex_literal(s@, "literal"@) {
            Ok(b) => Ok(ExprView::Literal(ValueView::Bytes(b))),
            Err(e) => Err(e),
        },
        SqlValue::Placeholder => invalid_view("placeholders not supported"@),
        SqlValue::Other => unsupported_view("literal not supported: "@ + text),
    }
}

/// Binds a literal.
pub(crate) fn bind_literal(v: &SqlValue, text: &str) -> (r: Result<Expr, HtapError>)
    ensures
        outcome(r) == literal_view(*v, text@),
{
    match v {
        SqlValue::Null => Ok(Expr::Literal(Value::Null)),
        SqlValue::Boolean(b) => Ok(Expr::Literal(Value::Bool(*b))),
        SqlValue::Number { digits, double } => match bind_number(digits.as_str(), *double) {
            Ok(x) => Ok(Expr::Literal(x)),
            Err(e) => Err(e),
        },
        SqlValue::SingleQuoted(s) => Ok(Expr::Literal(Value::String(s.clone()))),
        SqlValue::DoubleQuoted(s) => Ok(Expr::Literal(Value::String(s.clone()))),
        SqlValue::National(s) => Ok(Expr::Literal(Value::String(s.clone()))),
        SqlValue::Escaped(s) => Ok(Expr::Literal(Value::String(s.clone()))),
        SqlValue::Hex(s) => match parse_hex_bytes(s.as_str(), "literal") {
            Ok(b) => Ok(Expr::Literal(Value::Bytes(b))),
            Err(e) => Err(e),
        },
        SqlValue::Placeholder => Err(invalid(owned("placeholders not supported"))),
        SqlValue::Other => Err(unsupported(cat2("literal not supported: ", text))),
    }
}

/// The decimal type with the given digits, or its refusal.
pub open spec fn decimal_target(info: ExactNumberInfo) -> Result<DataType, ErrorView> {
    let (precision, scale): (int, int) = match info {
        ExactNumberInfo::Unspecified => (10, 0),
        ExactNumberInfo::Precision(p) => (p as int, 0),
        ExactNumberInfo::PrecisionAndScale(p, s) => (p as int, s as int),
    };
    if precision > u8::MAX {
        invalid_view("invalid DECIMAL precision: "@ + int_text(precision))
    } else if scale < 0 || scale > u8::MAX {
        invalid_view("invalid DECIMAL scale: "@ + int_text(scale))
    } else {
        let t = DataType::Decimal { precision: precision as u8, scale: scale as u8 };
        match t.check() {
            Ok(_) => Ok(t),
            Err(e) => Err(e),
        }
    }
}

/// The type with the given digits.
pub(crate) fn bind_decimal_type(info: ExactNumberInfo) -> (r: Result<DataType, HtapError>)
    ensures
        outcome(r) == decimal_target(info),
{
    let (precision, scale): (u64, i64) = match info {
        ExactNumberInfo::Unspecified => (10, 0),
        ExactNumberInfo::Precision(p) => (p, 0),
        ExactNumberInfo::PrecisionAndScale(p, s) => (p, s),
    };
    if precision > 255 {
        let t = unsigned_text(precision);
        return Err(invalid(cat2("invalid DECIMAL precision: ", t.as_str())));
    }
    if scale < 0 || scale > 255 {
        let t = signed_text(scale);
        return Err(invalid(cat2("invalid DECIMAL scale: ", t.as_str())));
    }
    let t = DataType::Decimal { precision: precision as u8, scale: scale as u8 };
    match t.validate() {
        Ok(_) => Ok(t),
        Err(e) => Err(e),
    }
}

/// The type a cast names, or its refusal.
pub open spec fn cast_target(t: SqlDataType) -> Result<DataType, ErrorView> {
    match t.kind {
        SqlTypeKind::Boolean | SqlTypeKind::Bool => Ok(DataType::Bool),
        SqlTypeKind::TinyInt(_) | SqlTypeKind::SmallInt | SqlTypeKind::Int | SqlTypeKind::Integer
        | SqlTypeKind::MediumInt | SqlTypeKind::Int4 => Ok(DataType::Int32),
        SqlTypeKind::BigInt | SqlTypeKind::Int8 | SqlTypeKind::Signed | SqlTypeKind::SignedInteger
        | SqlTypeKind::Unsigned | SqlTypeKind::UnsignedInteger => Ok(DataType::Int64),
        SqlTypeKind::Float | SqlTypeKind::Float4 | SqlTypeKind::Float8 | SqlTypeKind::Real
        | SqlTypeKind::Double | SqlTypeKind::DoublePrecision => Ok(DataType::Float64),
        SqlTypeKind::Decimal(info) | SqlTypeKind::Numeric(info) | SqlTypeKind::Dec(info) => {
            decimal_target(info)
        },
        SqlTypeKind::Char | SqlTypeKind::Character | SqlTypeKind::Varchar | SqlTypeKind::CharVarying
        | SqlTypeKind::CharacterVarying | SqlTypeKind::Text | SqlTypeKind::Str
        | SqlTypeKind::Nvarchar => Ok(DataType::String),
        SqlTypeKind::Binary | SqlTypeKind::Varbinary | SqlTypeKind::Blob | SqlTypeKind::Bytes => {
            Ok(DataType::Bytes)
        },
        SqlTypeKind::Timestamp | SqlTypeKind::Datetime => Ok(DataType::Timestamp),
        SqlTypeKind::Date | SqlTypeKind::Other => unsupported_view(
            "CAST target type not supported: "@ + t.text@,
        ),
    }
}

/// Maps the type of a cast.
pub(crate) fn map_cast_type(t: &SqlDataType) -> (r: Result<DataType, HtapError>)
    ensures
        outcome(r) == cast_target(*t),
{
    match t.kind {
        SqlTypeKind::Boolean | SqlTypeKind::Bool => Ok(DataType::Bool),
        SqlTypeKind::TinyInt(_) | SqlTypeKind::SmallInt | SqlTypeKind::Int | SqlTypeKind::Integer
        | SqlTypeKind::MediumInt | SqlTypeKind::Int4 => Ok(DataType::Int32),
        SqlTypeKind::BigInt | SqlTypeKind::Int8 | SqlTypeKind::Signed | SqlTypeKind::SignedInteger
        | SqlTypeKind::Unsigned | SqlTypeKind::UnsignedInteger => Ok(DataType::Int64),
        SqlTypeKind::Float | SqlTypeKind::Float4 | SqlTypeKind::Float8 | SqlTypeKind::Real
        | SqlTypeKind::Double | SqlTypeKind::DoublePrecision => Ok(DataType::Float64),
        SqlTypeKind::Decimal(info) | SqlTypeKind::Numeric(info) | SqlTypeKind::Dec(info) => {
            bind_decimal_type(info)
        },
        SqlTypeKind::Char | SqlTypeKind::Character | SqlTypeKind::Varchar | SqlTypeKind::CharVarying
        | SqlTypeKind::CharacterVarying | SqlTypeKind::Text | SqlTypeKind::Str
        | SqlTypeKind::Nvarchar => Ok(DataType::String),
        SqlTypeKind::Binary | SqlTypeKind::Varbinary | SqlTypeKind::Blob | SqlTypeKind::Bytes => {
            Ok(DataType::Bytes)
        },
        SqlTypeKind::Timestamp | SqlTypeKind::Datetime => Ok(DataType::Timestamp),
        SqlTypeKind::Date | SqlTypeKind::Other => Err(
            unsupported(cat2("CAST target type not supported: ", t.text.as_str())),
        ),
    }
}

/// The variable an identifier with a sigil names; `None` for an ordinary identifier.
pub open spec fn variable_ident(raw: Seq<char>) -> Result<Option<ExprView>, ErrorView> {
    if raw.len() > 0 && raw[0] == '@' {
        let is_system = raw.len() > 1 && raw[1] == '@';
        let rest = if is_system {
            raw.skip(2)
        } else {
            raw.skip(1)
        };
        if rest.len() == 0 {
            invalid_view("empty variable name"@)
        } else {
            Ok(Some(ExprView::Variable { name: rest, is_system }))
        }
    } else {
        Ok(None)
    }
}

/// Parses `@name` and `@@name`.
pub(crate) fn parse_variable_ident(raw: &str) -> (r: Result<Option<Expr>, HtapError>)
    ensures
        match r {
            Ok(v) => variable_ident(raw@) == Ok::<Option<ExprView>, ErrorView>(
                crate::value::option_view(v),
            ),
            Err(e) => variable_ident(raw@) == Err::<Option<ExprView>, ErrorView>(e@),
        },
{
    let n: usize = raw.unicode_len();
    if n == 0 || raw.get_char(0) != '@' {
        return Ok(None);
    }
    let is_system = n > 1 && raw.get_char(1) == '@';
    let from: usize = if is_system {
        2
    } else {
        1
    };
    if from == n {
        return Err(invalid(owned("empty variable name")));
    }
    let rest = raw.substring_char(from, n);
    assert(rest@ =~= raw@.skip(from as int));
    Ok(Some(Expr::Variable { name: owned(rest), is_system }))
}

/// The system variable that a scope and a name denote; `None` for an ordinary qualifier.
pub open spec fn scoped_variable(qualifier: Seq<char>, name: Seq<char>) -> Result<
    Option<ExprView>,
    ErrorView,
> {
    if qualifier.len() > 1 && qualifier[0] == '@' && qualifier[1] == '@' {
        let scope = qualifier.skip(2);
        if folds_to(scope, "global"@) {
            unsupported_view(
                "SET/SELECT @@GLOBAL is not supported; this engine only exposes SESSION-scoped system variables"@,
            )
        } else if !folds_to(scope, "session"@) {
            unsupported_view("unsupported system variable scope '"@ + scope + "'"@)
        } else if name.len() == 0 {
            invalid_view("empty system variable name"@)
        } else {
            Ok(Some(ExprView::Variable { name, is_system: true }))
        }
    } else {
        Ok(None)
    }
}

/// Parses `@@session.name` and `@@global.name`.
pub(crate) fn parse_scoped_system_variable(qualifier: &str, name: &str) -> (r: Result<
    Option<Expr>,
    HtapError,
>)
    ensures
        match r {
            Ok(v) => scoped_variable(qualifier@, name@) == Ok::<Option<ExprView>, ErrorView>(
                crate::value::option_view(v),
            ),
            Err(e) => scoped_variable(qualifier@, name@) == Err::<Option<ExprView>, ErrorView>(e@),
        },
{
    let n: usize = qualifier.unicode_len();
    if n < 2 || qualifier.get_char(0) != '@' || qualifier.get_char(1) != '@' {
        return Ok(None);
    }
    let scope = qualifier.substring_char(2, n);
    assert(scope@ =~= qualifier@.skip(2));
    if same_folded(scope, "global") {
        return Err(
            unsupported(
                owned(
                    "SET/SELECT @@GLOBAL is not supported; this engine only exposes SESSION-scoped system variables",
                ),
            ),
        );
    }
    if !same_folded(scope, "session") {
        return Err(unsupported(cat3("unsupported system variable scope '", scope, "'")));
    }
    if name.unicode_len() == 0 {
        return Err(invalid(owned("empty system variable name")));
    }
    Ok(Some(Expr::Variable { name: owned(name), is_system: true }))
}

/// The unit of an interval, or its refusal.
pub open spec fn interval_unit(unit: Option<DateTimeField>) -> Result<
    CalendarIntervalUnit,
    ErrorView,
> {
    match unit {
        Some(DateTimeField::Year) => Ok(CalendarIntervalUnit::Year),
        Some(DateTimeField::Month) => Ok(CalendarIntervalUnit::Month),
        Some(DateTimeField::Day) => Ok(CalendarIntervalUnit::Day),
        Some(DateTimeField::Other(t)) => unsupported_view(
            "INTERVAL unit "@ + t@ + " not supported"@,
        ),
        None => invalid_view("INTERVAL requires a YEAR, MONTH, or DAY unit"@),
    }
}

/// The magnitude of an interval, if it is written as a literal that can hold one.
pub open spec fn interval_digits(e: SqlExpr) -> Option<Seq<char>> {
    match e.node {
        SqlNode::Value(SqlValue::Number { digits, .. }) => Some(digits@),
        SqlNode::Value(SqlValue::SingleQuoted(s)) => Some(s@),
        SqlNode::Value(SqlValue::DoubleQuoted(s)) => Some(s@),
        _ => None,
    }
}

/// The quantity and unit of an interval, or its refusal.
pub open spec fn interval_parts(value: SqlExpr, unit: Option<DateTimeField>) -> Result<
    (ExprView, CalendarIntervalUnit),
    ErrorView,
> {
    match interval_unit(unit) {
        Err(e) => Err(e),
        Ok(u) => match interval_digits(value) {
            Some(d) => match signed_value(d) {
                Some(i) if i64::MIN <= i <= i64::MAX => Ok(
                    (ExprView::Literal(ValueView::Int64(i as i64)), u),
                ),
                _ => invalid_view("INTERVAL magnitude must be an integer literal"@),
            },
            None => invalid_view("INTERVAL magnitude must be an integer literal"@),
        },
    }
}

/// Binds the quantity and unit of an interval.
pub(crate) fn bind_calendar_interval(value: &SqlExpr, unit: &Option<DateTimeField>) -> (r: Result<
    (Expr, CalendarIntervalUnit),
    HtapError,
>)
    ensures
        match r {
            Ok(p) => interval_parts(*value, *unit) == Ok::<
                (ExprView, CalendarIntervalUnit),
                ErrorView,
            >((p.0@, p.1)),
            Err(e) => interval_parts(*value, *unit) == Err::<
                (ExprView, CalendarIntervalUnit),
                ErrorView,
            >(e@),
        },
{
    let u = match unit {
        Some(DateTimeField::Year) => CalendarIntervalUnit::Year,
        Some(DateTimeField::Month) => CalendarIntervalUnit::Month,
        Some(DateTimeField::Day) => CalendarIntervalUnit::Day,
        Some(DateTimeField::Other(t)) => {
            return Err(unsupported(cat3("INTERVAL unit ", t.as_str(), " not supported")));
        },
        None => {
            return Err(invalid(owned("INTERVAL requires a YEAR, MONTH, or DAY unit")));
        },
    };
    let digits = match &value.node {
        SqlNode::Value(SqlValue::Number { digits, .. }) => digits,
        SqlNode::Value(SqlValue::SingleQuoted(s)) => s,
        SqlNode::Value(SqlValue::DoubleQuoted(s)) => s,
        _ => {
            return Err(invalid(owned("INTERVAL magnitude must be an integer literal")));
        },
    };
    match parse_i64(digits.as_str()) {
        Some(i) => Ok((Expr::Literal(Value::Int64(i)), u)),
        None => Err(invalid(owned("INTERVAL magnitude must be an integer literal"))),
    }
}

/// The numeral of an expression that is a plain unsigned integer literal.
pub open spec fn integer_literal(e: SqlExpr) -> Option<Seq<char>> {
    match e.node {
        SqlNode::Value(SqlValue::Number { digits, .. }) => if all_digits(digits@) {
            Some(digits@)
        } else {
            None
        },
        _ => None,
    }
}

/// The numeral of an expression that is a plain unsigned integer literal.
pub(crate) fn integer_literal_of(e: &SqlExpr) -> (r: Option<&String>)
    ensures
        match r {
            Some(s) => integer_literal(*e) == Some(s@),
            None => integer_literal(*e) is None,
        },
{
    match &e.node {
        SqlNode::Value(SqlValue::Number { digits, .. }) => if is_all_digits(digits.as_str()) {
            Some(digits)
        } else {
            None
        },
        _ => None,
    }
}

/// The position that an ordinal names in a list of `n` items; `None` where there is none.
pub open spec fn ordinal_position(digits: Seq<char>, n: int) -> Option<int> {
    match unsigned_value(digits) {
        Some(k) if 1 <= k <= n => Some(k - 1),
        _ => None,
    }
}

/// The position that an ordinal names in a list of `n` items.
pub(crate) fn parse_ordinal(digits: &str, n: usize) -> (r: Option<usize>)
    ensures
        match r {
            Some(k) => k < n && ordinal_position(digits@, n as int) == Some(k as int),
            None => ordinal_position(digits@, n as int) is None,
        },
{
    match parse_u64(digits) {
        Some(k) => if 1 <= k && k <= n as u64 {
            Some((k - 1) as usize)
        } else {
            None
        },
        None => None,
    }
}

/// The number of a `LIMIT` or `OFFSET`, or its refusal.
pub open spec fn limit_number(e: SqlExpr, what: Seq<char>) -> Result<u64, ErrorView> {
    match e.node {
        SqlNode::Value(SqlValue::Number { digits, .. }) => match unsigned_value(digits@) {
            Some(n) if n <= u64::MAX => Ok(n as u64),
            _ => invalid_view(what + " must be a non-negative integer, found "@ + digits@),
        },
        _ => invalid_view(what + " must be a non-negative integer literal, found "@ + e.text@),
    }
}

/// Binds the number of a `LIMIT` or `OFFSET`.
pub(crate) fn limit_literal(e: &SqlExpr, what: &str) -> (r: Result<u64, HtapError>)
    ensures
        outcome(r) == limit_number(*e, what@),
{
    match &e.node {
        SqlNode::Value(SqlValue::Number { digits, .. }) => match parse_u64(digits.as_str()) {
            Some(n) => {
                assert(unsigned_value(digits@) == Some(n as int));
                Ok(n)
            },
            None => Err(
                invalid(cat3(what, " must be a non-negative integer, found ", digits.as_str())),
            ),
        },
        _ => Err(
            invalid(cat3(what, " must be a non-negative integer literal, found ", e.text.as_str())),
        ),
    }
}

/// The offset of a `ROWS` frame, or its refusal.
pub open spec fn frame_number(e: SqlExpr, what: Seq<char>) -> Result<u64, ErrorView> {
    match integer_literal(e) {
        Some(d) => match unsigned_value(d) {
            Some(n) if n <= u64::MAX => Ok(n as u64),
            _ => invalid_view(what + " is too large: "@ + d),
        },
        None => invalid_view(what + " must be a non-negative integer literal"@),
    }
}

/// Binds the offset of a `ROWS` frame.
pub(crate) fn window_frame_u64(e: &SqlExpr, what: &str) -> (r: Result<u64, HtapError>)
    ensures
        outcome(r) == frame_number(*e, what@),
{
    match integer_literal_of(e) {
        Some(d) => match parse_u64(d.as_str()) {
            Some(n) => {
                assert(unsigned_value(d@) == Some(n as int));
                Ok(n)
            },
            None => Err(invalid(cat3(what, " is too large: ", d.as_str()))),
        },
        None => Err(invalid(cat2(what, " must be a non-negative integer literal"))),
    }
}

/// A bound of a `ROWS` frame, or its refusal.
pub open spec fn row_bound(b: FrameBound) -> Result<RowFrameBound, ErrorView> {
    match b {
        FrameBound::CurrentRow => Ok(RowFrameBound::CurrentRow),
        FrameBound::Preceding(None) => Ok(RowFrameBound::Unbounded(WindowFrameDirection::Preceding)),
        FrameBound::Following(None) => Ok(RowFrameBound::Unbounded(WindowFrameDirection::Following)),
        FrameBound::Preceding(Some(e)) => match frame_number(*e, "ROWS frame offset"@) {
            Ok(value) => Ok(
                RowFrameBound::Offset { value, direction: WindowFrameDirection::Preceding },
            ),
            Err(e) => Err(e),
        },
        FrameBound::Following(Some(e)) => match frame_number(*e, "ROWS frame offset"@) {
            Ok(value) => Ok(
                RowFrameBound::Offset { value, direction: WindowFrameDirection::Following },
            ),
            Err(e) => Err(e),
        },
    }
}

/// Binds a bound of a `ROWS` frame.
pub(crate) fn bind_row_frame_bound(b: &FrameBound) -> (r: Result<RowFrameBound, HtapError>)
    ensures
        outcome(r) == row_bound(*b),
{
    match b {
        FrameBound::CurrentRow => Ok(RowFrameBound::CurrentRow),
        FrameBound::Preceding(None) => Ok(RowFrameBound::Unbounded(WindowFrameDirection::Preceding)),
        FrameBound::Following(None) => Ok(RowFrameBound::Unbounded(WindowFrameDirection::Following)),
        FrameBound::Preceding(Some(e)) => match window_frame_u64(e, "ROWS frame offset") {
            Ok(value) => Ok(
                RowFrameBound::Offset { value, direction: WindowFrameDirection::Preceding },
            ),
            Err(e) => Err(e),
        },
        FrameBound::Following(Some(e)) => match window_frame_u64(e, "ROWS frame offset") {
            Ok(value) => Ok(
                RowFrameBound::Offset { value, direction: WindowFrameDirection::Following },
            ),
            Err(e) => Err(e),
        },
    }
}

/// A bound of a `RANGE` frame without offsets, or its refusal.
pub open spec fn peer_bound(b: FrameBound) -> Result<PeerFrameBound, ErrorView> {
    match b {
        FrameBound::CurrentRow => Ok(PeerFrameBound::CurrentRow),
        FrameBound::Preceding(None) => Ok(
            PeerFrameBound::Unbounded(WindowFrameDirection::Preceding),
        ),
        FrameBound::Following(None) => Ok(
            PeerFrameBound::Unbounded(WindowFrameDirection::Following),
        ),
        _ => invalid_view("RANGE frame offsets require a value-based frame"@),
    }
}

/// Binds a bound of a `RANGE` frame without offsets.
pub(crate) fn bind_peer_frame_bound(b: &FrameBound) -> (r: Result<PeerFrameBound, HtapError>)
    ensures
        outcome(r) == peer_bound(*b),
{
    match b {
        FrameBound::CurrentRow => Ok(PeerFrameBound::CurrentRow),
        FrameBound::Preceding(None) => Ok(
            PeerFrameBound::Unbounded(WindowFrameDirection::Preceding),
        ),
        FrameBound::Following(None) => Ok(
            PeerFrameBound::Unbounded(WindowFrameDirection::Following),
        ),
        _ => Err(invalid(owned("RANGE frame offsets require a value-based frame"))),
    }
}

/// Where a bound of a `ROWS` frame lies relative to the current row.
pub open spec fn row_position(b: RowFrameBound) -> int {
    match b {
        RowFrameBound::Unbounded(WindowFrameDirection::Preceding) => i128::MIN as int,
        RowFrameBound::Offset { value, direction: WindowFrameDirection::Preceding } => -value,
        RowFrameBound::CurrentRow => 0,
        RowFrameBound::Offset { value, direction: WindowFrameDirection::Following } => value as int,
        RowFrameBound::Unbounded(WindowFrameDirection::Following) => i128::MAX as int,
    }
}

/// Where a bound of a `ROWS` frame lies relative to the current row.
pub fn row_frame_bound_position(b: &RowFrameBound) -> (r: i128)
    ensures
        r == row_position(*b),
{
    match b {
        RowFrameBound::Unbounded(WindowFrameDirection::Preceding) => i128::MIN,
        RowFrameBound::Offset { value, direction: WindowFrameDirection::Preceding } => -(
        *value as i128),
        RowFrameBound::CurrentRow => 0,
        RowFrameBound::Offset { value, direction: WindowFrameDirection::Following } => {
            *value as i128
        },
        RowFrameBound::Unbounded(WindowFrameDirection::Following) => i128::MAX,
    }
}

/// Where a bound of a `RANGE` frame without offsets lies relative to the current row.
pub open spec fn peer_position(b: PeerFrameBound) -> int {
    match b {
        PeerFrameBound::Unbounded(WindowFrameDirection::Preceding) => -1,
        PeerFrameBound::CurrentRow => 0,
        PeerFrameBound::Unbounded(WindowFrameDirection::Following) => 1,
    }
}

/// Where a bound of a `RANGE` frame without offsets lies relative to the current row.
pub fn peer_frame_bound_position(b: PeerFrameBound) -> (r: i8)
    ensures
        r == peer_position(b),
{
    match b {
        PeerFrameBound::Unbounded(WindowFrameDirection::Preceding) => -1,
        PeerFrameBound::CurrentRow => 0,
        PeerFrameBound::Unbounded(WindowFrameDirection::Following) => 1,
    }
}

/// Whether a frame is in order, given which edges its bounds name and whether its start comes
/// after its end.
pub open spec fn frame_check(start_last: bool, end_first: bool, crossed: bool) -> Result<
    (),
    ErrorView,
> {
    if start_last {
        invalid_view("window frame start cannot be UNBOUNDED FOLLOWING"@)
    } else if end_first {
        invalid_view("window frame end cannot be UNBOUNDED PRECEDING"@)
    } else if crossed {
        invalid_view("window frame start cannot be after window frame end"@)
    } else {
        Ok(())
    }
}

fn check_frame(start_last: bool, end_first: bool, crossed: bool) -> (r: Result<(), HtapError>)
    ensures
        outcome(r) == frame_check(start_last, end_first, crossed),
{
    if start_last {
        return Err(invalid(owned("window frame start cannot be UNBOUNDED FOLLOWING")));
    }
    if end_first {
        return Err(invalid(owned("window frame end cannot be UNBOUNDED PRECEDING")));
    }
    if crossed {
        return Err(invalid(owned("window frame start cannot be after window frame end")));
    }
    Ok(())
}

/// Whether the bounds of a `ROWS` frame are in order.
pub open spec fn row_frame_check(start: RowFrameBound, end: RowFrameBound) -> Result<
    (),
    ErrorView,
> {
    frame_check(
        start == RowFrameBound::Unbounded(WindowFrameDirection::Following),
        end == RowFrameBound::Unbounded(WindowFrameDirection::Preceding),
        row_position(start) > row_position(end),
    )
}

/// Checks the bounds of a `ROWS` frame.
pub fn validate_row_frame_bounds(start: &RowFrameBound, end: &RowFrameBound) -> (r: Result<
    (),
    HtapError,
>)
    ensures
        outcome(r) == row_frame_check(*start, *end),
{
    check_frame(
        *start == RowFrameBound::Unbounded(WindowFrameDirection::Following),
        *end == RowFrameBound::Unbounded(WindowFrameDirection::Preceding),
        row_frame_bound_position(start) > row_frame_bound_position(end),
    )
}

/// Whether the bounds of a `RANGE` frame without offsets are in order.
pub open spec fn peer_frame_check(start: PeerFrameBound, end: PeerFrameBound) -> Result<
    (),
    ErrorView,
> {
    frame_check(
        start == PeerFrameBound::Unbounded(WindowFrameDirection::Following),
        end == PeerFrameBound::Unbounded(WindowFrameDirection::Preceding),
        peer_position(start) > peer_position(end),
    )
}

/// Checks the bounds of a `RANGE` frame without offsets.
pub fn validate_peer_frame_bounds(start: PeerFrameBound, end: PeerFrameBound) -> (r: Result<
    (),
    HtapError,
>)
    ensures
        outcome(r) == peer_frame_check(start, end),
{
    check_frame(
        start == PeerFrameBound::Unbounded(WindowFrameDirection::Following),
        end == PeerFrameBound::Unbounded(WindowFrameDirection::Preceding),
        peer_frame_bound_position(start) > peer_frame_bound_position(end),
    )
}

/// The refusal of a frame offset.
pub open spec fn bad_offset() -> ErrorView {
    ErrorView::InvalidArgument("RANGE frame offset must be a non-negative numeric literal"@)
}

pub(crate) fn bad_offset_error() -> (r: HtapError)
    ensures
        r@ == bad_offset(),
{
    invalid(owned("RANGE frame offset must be a non-negative numeric literal"))
}

/// Whether an expression is a non-negative numeric literal that a frame offset can be.
pub open spec fn is_frame_offset(e: ExprView) -> bool {
    match e {
        ExprView::Literal(ValueView::Int32(i)) => i >= 0,
        ExprView::Literal(ValueView::Int64(i)) => i >= 0,
        ExprView::Literal(ValueView::Float64(d)) => d.finite() && (!d.negative() || d.zero()),
        _ => false,
    }
}

/// Whether an expression is a non-negative numeric literal that a frame offset can be.
pub(crate) fn is_offset_literal(e: &Expr) -> (r: bool)
    ensures
        r == is_frame_offset(e@),
{
    match e {
        Expr::Literal(Value::Int32(i)) => *i >= 0,
        Expr::Literal(Value::Int64(i)) => *i >= 0,
        Expr::Literal(Value::Float64(d)) => d.is_non_negative(),
        _ => false,
    }
}

/// A frame offset as a double, or its refusal.
pub open spec fn offset_double(e: ExprView, answers: Answers) -> Result<Double, ErrorView> {
    if !is_frame_offset(e) {
        Err(bad_offset())
    } else {
        match e {
            ExprView::Literal(ValueView::Int32(i)) => answers.double(
                DoubleOpView::FromInteger(i as i64),
            ),
            ExprView::Literal(ValueView::Int64(i)) => answers.double(DoubleOpView::FromInteger(i)),
            ExprView::Literal(ValueView::Float64(d)) => Ok(d),
            _ => Err(bad_offset()),
        }
    }
}

fn numeric_frame_offset(e: &Expr, answers: &Answers) -> (r: Result<Double, HtapError>)
    ensures
        match r {
            Ok(d) => offset_double(e@, *answers) == Ok::<Double, ErrorView>(d),
            Err(x) => offset_double(e@, *answers) == Err::<Double, ErrorView>(x@),
        },
{
    if !is_offset_literal(e) {
        return Err(bad_offset_error());
    }
    match e {
        Expr::Literal(Value::Int32(i)) => answers.get_double(DoubleOp::FromInteger(*i as i64)),
        Expr::Literal(Value::Int64(i)) => answers.get_double(DoubleOp::FromInteger(*i)),
        Expr::Literal(Value::Float64(d)) => Ok(*d),
        _ => Err(bad_offset_error()),
    }
}

/// Where a bound of a `RANGE` frame with offsets lies relative to the current row.
pub open spec fn value_position(b: ValueBoundView, answers: Answers) -> Result<Double, ErrorView> {
    match b {
        ValueBoundView::Unbounded(WindowFrameDirection::Preceding) => Ok(
            Double { bits: (INFINITY_BITS + SIGN_BIT) as u64 },
        ),
        ValueBoundView::Unbounded(WindowFrameDirection::Following) => Ok(
            Double { bits: INFINITY_BITS },
        ),
        ValueBoundView::CurrentRow => Ok(Double { bits: 0 }),
        ValueBoundView::Offset { value, direction: WindowFrameDirection::Preceding } => {
            match offset_double(value, answers) {
                Ok(d) => Ok(d.negated()),
                Err(e) => Err(e),
            }
        },
        ValueBoundView::Offset { value, direction: WindowFrameDirection::Following } => {
            offset_double(value, answers)
        },
    }
}

fn value_frame_bound_position(b: &ValueFrameBound, answers: &Answers) -> (r: Result<
    Double,
    HtapError,
>)
    ensures
        match r {
            Ok(d) => value_position(b@, *answers) == Ok::<Double, ErrorView>(d),
            Err(x) => value_position(b@, *answers) == Err::<Double, ErrorView>(x@),
        },
{
    match b {
        ValueFrameBound::Unbounded(WindowFrameDirection::Preceding) => Ok(
            Double { bits: INFINITY_BITS + SIGN_BIT },
        ),
        ValueFrameBound::Unbounded(WindowFrameDirection::Following) => Ok(
            Double { bits: INFINITY_BITS },
        ),
        ValueFrameBound::CurrentRow => Ok(Double { bits: 0 }),
        ValueFrameBound::Offset { value, direction } => match numeric_frame_offset(value, answers) {
            Err(e) => Err(e),
            Ok(d) => match direction {
                WindowFrameDirection::Preceding => Ok(d.neg()),
                WindowFrameDirection::Following => Ok(d),
            },
        },
    }
}

/// Whether the bounds of a `RANGE` frame with offsets are in order.
pub open spec fn value_frame_check(
    start: ValueBoundView,
    end: ValueBoundView,
    answers: Answers,
) -> Result<(), ErrorView> {
    if start == ValueBoundView::Unbounded(WindowFrameDirection::Following) || end
        == ValueBoundView::Unbounded(WindowFrameDirection::Preceding) {
        frame_check(
            start == ValueBoundView::Unbounded(WindowFrameDirection::Following),
            true,
            false,
        )
    } else {
        match value_position(start, answers) {
            Err(e) => Err(e),
            Ok(a) => match value_position(end, answers) {
                Err(e) => Err(e),
                Ok(b) => frame_check(false, false, a.key() > b.key()),
            },
        }
    }
}

/// Checks the bounds of a `RANGE` frame with offsets.
pub fn validate_value_frame_bounds(
    start: &ValueFrameBound,
    end: &ValueFrameBound,
    answers: &Answers,
) -> (r: Result<(), HtapError>)
    ensures
        outcome(r) == value_frame_check(start@, end@, *answers),
{
    let start_last = match start {
        ValueFrameBound::Unbounded(WindowFrameDirection::Following) => true,
        _ => false,
    };
    let end_first = match end {
        ValueFrameBound::Unbounded(WindowFrameDirection::Preceding) => true,
        _ => false,
    };
    if start_last || end_first {
        return check_frame(start_last, true, false);
    }
    let a = match value_frame_bound_position(start, answers) {
        Ok(d) => d,
        Err(e) => {
            return Err(e);
        },
    };
    let b = match value_frame_bound_position(end, answers) {
        Ok(d) => d,
        Err(e) => {
            return Err(e);
        },
    };
    check_frame(false, false, a.exceeds(&b))
}

/// What an assigned expression becomes for a column, or its refusal.
pub open spec fn assigned(e: ExprView, col: ColumnView, answers: Answers) -> Result<
    ExprView,
    ErrorView,
> {
    let t = type_of(e);
    if t.is_null_literal {
        if !col.nullable {
            invalid_view("column '"@ + col.name + "' is NOT NULL"@)
        } else {
            Ok(e)
        }
    } else if t.is_dynamic || t.data_type == col.data_type {
        Ok(e)
    } else if col.data_type == DataType::Bytes && t.data_type == DataType::String && e is Literal {
        Ok(text_as_bytes(e))
    } else if col.data_type == DataType::Bool && int_as_bool(e) != e {
        Ok(int_as_bool(e))
    } else if t.data_type.numeric() && col.data_type.numeric() {
        match e {
            ExprView::Literal(v) => match cast_view(v, col.data_type, answers) {
                Ok(x) => Ok(ExprView::Literal(x)),
                Err(ErrorView::Pending(r)) => Err(ErrorView::Pending(r)),
                Err(x) => invalid_view(
                    "value for column '"@ + col.name + "': "@ + x.message(),
                ),
            },
            _ => Ok(ExprView::Cast { expr: Box::new(e), to: col.data_type }),
        }
    } else {
        invalid_view(
            "type mismatch for column '"@ + col.name + "': expected "@ + col.data_type.keyword()
                + ", found "@ + t.data_type.keyword(),
        )
    }
}

/// Coerces a bound expression to a column type for assignment.
pub(crate) fn coerce_to_column(expr: Expr, col: &ColumnDef, answers: &Answers) -> (r: Result<
    Expr,
    HtapError,
>)
    ensures
        outcome(r) == assigned(expr@, col@, *answers),
{
    let t = expr.static_type();
    if t.is_null_literal {
        if !col.nullable {
            return Err(invalid(cat3("column '", col.name.as_str(), "' is NOT NULL")));
        }
        return Ok(expr);
    }
    if t.is_dynamic || t.data_type == col.data_type {
        return Ok(expr);
    }
    if col.data_type == DataType::Bytes && t.data_type == DataType::String {
        match &expr {
            Expr::Literal(_) => {
                return Ok(coerce_string_literal_to_bytes(expr));
            },
            _ => {},
        }
    }
    if col.data_type == DataType::Bool {
        let small = match &expr {
            Expr::Literal(Value::Int32(i)) => *i == 0 || *i == 1,
            Expr::Literal(Value::Int64(i)) => *i == 0 || *i == 1,
            _ => false,
        };
        if small {
            return Ok(coerce_int_literal_to_bool(expr));
        }
    }
    if t.data_type.is_numeric() && col.data_type.is_numeric() {
        match &expr {
            Expr::Literal(v) => {
                return match cast_value(v, col.data_type, answers) {
                    Ok(x) => Ok(Expr::Literal(x)),
                    Err(HtapError::Pending(r)) => Err(HtapError::Pending(r)),
                    Err(e) => {
                        let m = e.message();
                        Err(
                            invalid(
                                cat4("value for column '", col.name.as_str(), "': ", m.as_str()),
                            ),
                        )
                    },
                };
            },
            _ => {},
        }
        return Ok(Expr::Cast { expr: Box::new(expr), to: col.data_type });
    }
    Err(
        invalid(
            cat6(
                "type mismatch for column '",
                col.name.as_str(),
                "': expected ",
                col.data_type.name(),
                ", found ",
                t.data_type.name(),
            ),
        ),
    )
}

} // verus!
