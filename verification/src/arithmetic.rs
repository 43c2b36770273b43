//! Arithmetic on values.

use crate::answers::Answers;
use crate::convert::{as_num, double_view, num_to_double, Number};
use crate::decimal::{
    check_decimal_precision, decimal_div_round_half_away, decimal_rescale, fits_i128, magnitude,
    overflow, overflow_view, precision_check, quotient_view, rescale_view,
};
use crate::double::{Double, DoubleOp, DoubleOpView};
use crate::expr::{arithmetic_result_type, arithmetic_type, BinOp};
use crate::text::cat3;
use crate::value::{outcome, DataType, ErrorView, HtapError, Value, ValueView};
use vstd::prelude::*;

verus! {

/// The refusal of an operand of the wrong type.
pub open spec fn type_error_view(what: Seq<char>, v: ValueView) -> ErrorView {
    ErrorView::InvalidArgument(
        "operator "@ + what + " cannot be applied to a "@ + v.kind_name() + " value"@,
    )
}

/// The refusal of an operand of the wrong type.
pub(crate) fn type_error(what: &str, v: &Value) -> (r: HtapError)
    ensures
        r@ == type_error_view(what@, v@),
{
    HtapError::InvalidArgument(
        crate::text::cat5("operator ", what, " cannot be applied to a ", v.kind_name(), " value"),
    )
}

/// The quotient of two integers, the fraction dropped.
pub open spec fn whole_quotient(a: int, b: int) -> int {
    let m = magnitude(a) / magnitude(b);
    if (a < 0) != (b < 0) {
        -m
    } else {
        m
    }
}

/// What is left of `a` after its whole quotient by `b`; it has the sign of `a`.
pub open spec fn whole_remainder(a: int, b: int) -> int {
    let m = magnitude(a) % magnitude(b);
    if a < 0 {
        -m
    } else {
        m
    }
}

/// Whether a number fits in 64 bits.
pub open spec fn fits_i64(i: int) -> bool {
    i64::MIN <= i <= i64::MAX
}

/// An integer result, or the refusal of one that does not fit.
pub open spec fn integer_result(i: int, op: Seq<char>) -> Result<ValueView, ErrorView> {
    if fits_i64(i) {
        Ok(ValueView::Int64(i as i64))
    } else {
        Err(overflow_view(op))
    }
}

/// The integer an operand of `DIV` is, if it is one.
pub open spec fn plain_integer(v: ValueView) -> Option<int> {
    match v {
        ValueView::Int32(i) => Some(i as int),
        ValueView::Int64(i) => Some(i as int),
        _ => None,
    }
}

/// The result of `DIV`.
pub open spec fn int_division(l: ValueView, r: ValueView) -> Result<ValueView, ErrorView> {
    match (plain_integer(l), plain_integer(r)) {
        (Some(a), Some(b)) => if b == 0 {
            Ok(ValueView::Null)
        } else {
            integer_result(whole_quotient(a, b), "DIV"@)
        },
        (Some(_), None) => Err(type_error_view("DIV"@, r)),
        _ => Err(type_error_view("DIV"@, l)),
    }
}

/// Integer arithmetic.
pub open spec fn int_arithmetic(op: BinOp, a: int, b: int) -> Result<ValueView, ErrorView> {
    match op {
        BinOp::Add => integer_result(a + b, op.symbol()),
        BinOp::Sub => integer_result(a - b, op.symbol()),
        BinOp::Mul => integer_result(a * b, op.symbol()),
        _ => if b == 0 {
            Ok(ValueView::Null)
        } else if a == i64::MIN && b == -1 {
            Err(overflow_view(op.symbol()))
        } else {
            Ok(ValueView::Int64(whole_remainder(a, b) as i64))
        },
    }
}

/// A double result, or the refusal of one that is not finite.
pub open spec fn double_result(r: Result<Double, ErrorView>, op: Seq<char>) -> Result<
    ValueView,
    ErrorView,
> {
    match r {
        Err(e) => Err(e),
        Ok(d) => if d.finite() {
            Ok(ValueView::Float64(d))
        } else {
            Err(ErrorView::InvalidArgument("DOUBLE value is out of range in '"@ + op + "'"@))
        },
    }
}

/// The question that an operation on doubles asks.
pub open spec fn double_op(op: BinOp, x: Double, y: Double) -> DoubleOpView {
    match op {
        BinOp::Add => DoubleOpView::Add(x, y),
        BinOp::Sub => DoubleOpView::Sub(x, y),
        BinOp::Mul => DoubleOpView::Mul(x, y),
        BinOp::Div => DoubleOpView::Div(x, y),
        _ => DoubleOpView::Rem(x, y),
    }
}

/// Arithmetic on doubles: dividing by zero yields `NULL`.
pub open spec fn double_arithmetic(op: BinOp, a: Number, b: Number, answers: Answers) -> Result<
    ValueView,
    ErrorView,
> {
    match double_view(a, answers) {
        Err(e) => Err(e),
        Ok(x) => match double_view(b, answers) {
            Err(e) => Err(e),
            Ok(y) => if (op == BinOp::Div || op == BinOp::Mod) && y.zero() {
                Ok(ValueView::Null)
            } else {
                double_result(answers.double(double_op(op, x, y)), op.symbol())
            },
        },
    }
}

/// A value as decimal arithmetic sees it: unscaled value, digits, and digits behind the point.
pub open spec fn decimal_parts(v: ValueView) -> Option<(int, u8, u8)> {
    match v {
        ValueView::Decimal { value, precision, scale } => Some((value as int, precision, scale)),
        ValueView::Int32(i) => Some((i as int, 10, 0)),
        ValueView::Int64(i) => Some((i as int, 19, 0)),
        ValueView::Timestamp(i) => Some((i as int, 19, 0)),
        _ => None,
    }
}

/// Both operands carried to the greater number of digits behind the point.
pub open spec fn aligned(a: int, s1: u8, b: int, s2: u8) -> Result<(int, int, u8), ErrorView> {
    let s = if s1 >= s2 {
        s1
    } else {
        s2
    };
    match rescale_view(a, s1 as int, s as int) {
        Err(e) => Err(e),
        Ok(x) => match rescale_view(b, s2 as int, s as int) {
            Err(e) => Err(e),
            Ok(y) => Ok((x, y, s)),
        },
    }
}

/// The exact result of decimal addition, subtraction or remainder with its digits behind the
/// point; nothing where the divisor is zero.
pub open spec fn aligned_result(op: BinOp, a: int, s1: u8, b: int, s2: u8) -> Result<
    Option<(int, u8)>,
    ErrorView,
> {
    match aligned(a, s1, b, s2) {
        Err(e) => Err(e),
        Ok((x, y, s)) => if op == BinOp::Mod && y == 0 {
            Ok(None)
        } else if op == BinOp::Mod {
            if x == i128::MIN && y == -1 {
                Err(overflow_view(op.symbol()))
            } else {
                Ok(Some((whole_remainder(x, y), s)))
            }
        } else {
            let z = if op == BinOp::Add {
                x + y
            } else {
                x - y
            };
            if fits_i128(z) {
                Ok(Some((z, s)))
            } else {
                Err(overflow_view(op.symbol()))
            }
        },
    }
}

/// The quotient of two decimals with `scale` digits behind the point.
pub open spec fn decimal_quotient(a: int, s1: u8, b: int, s2: u8, scale: u8) -> Result<
    int,
    ErrorView,
> {
    let exponent = scale + s2 - s1;
    if scale + s2 > u8::MAX || exponent < 0 {
        Err(overflow_view("/"@))
    } else {
        match rescale_view(a, 0, exponent) {
            Err(e) => Err(e),
            Ok(x) => quotient_view(x, b),
        }
    }
}

/// The whole quotient of two decimals.
pub open spec fn decimal_int_division(a: int, s1: u8, b: int, s2: u8) -> Result<
    ValueView,
    ErrorView,
> {
    match aligned(a, s1, b, s2) {
        Err(e) => Err(e),
        Ok((x, y, _)) => if y == 0 {
            Err(overflow_view("DIV"@))
        } else {
            integer_result(whole_quotient(x, y), "DIV"@)
        },
    }
}

/// A decimal result carried to the digits of its type, or its refusal.
pub open spec fn decimal_result_view(op: BinOp, v: int, from: u8, precision: u8, scale: u8) -> Result<
    ValueView,
    ErrorView,
> {
    match rescale_view(v, from as int, scale as int) {
        Err(e) => Err(e),
        Ok(x) => if !fits_i64(x) {
            Err(overflow_view(op.symbol()))
        } else {
            match precision_check(x as i64, precision, scale) {
                Err(e) => Err(e),
                Ok(value) => Ok(ValueView::Decimal { value, precision, scale }),
            }
        },
    }
}

/// Decimal arithmetic on operands with the given parts.
pub open spec fn decimal_operation(
    op: BinOp,
    a: int,
    p1: u8,
    s1: u8,
    b: int,
    p2: u8,
    s2: u8,
) -> Result<ValueView, ErrorView> {
    match arithmetic_type(
        op,
        DataType::Decimal { precision: p1, scale: s1 },
        DataType::Decimal { precision: p2, scale: s2 },
    ) {
        Err(e) => Err(e),
        Ok(DataType::Decimal { precision, scale }) => match op {
            BinOp::Mul => if !fits_i128(a * b) || s1 + s2 > u8::MAX {
                Err(overflow_view("*"@))
            } else {
                decimal_result_view(op, a * b, (s1 + s2) as u8, precision, scale)
            },
            BinOp::Div => if b == 0 {
                Ok(ValueView::Null)
            } else {
                match decimal_quotient(a, s1, b, s2, scale) {
                    Err(e) => Err(e),
                    Ok(q) => decimal_result_view(op, q, scale, precision, scale),
                }
            },
            BinOp::IntDiv => if b == 0 {
                Ok(ValueView::Null)
            } else {
                decimal_int_division(a, s1, b, s2)
            },
            _ => match aligned_result(op, a, s1, b, s2) {
                Err(e) => Err(e),
                Ok(None) => Ok(ValueView::Null),
                Ok(Some((v, s))) => decimal_result_view(op, v, s, precision, scale),
            },
        },
        Ok(_) => Err(
            ErrorView::InvalidArgument(
                "operator '"@ + op.symbol() + "' does not produce a DECIMAL result"@,
            ),
        ),
    }
}

/// Decimal arithmetic on values.
pub open spec fn decimal_arithmetic_view(op: BinOp, l: ValueView, r: ValueView) -> Result<
    ValueView,
    ErrorView,
> {
    match decimal_parts(l) {
        None => Err(type_error_view(op.symbol(), l)),
        Some((a, p1, s1)) => match decimal_parts(r) {
            None => Err(type_error_view(op.symbol(), r)),
            Some((b, p2, s2)) => decimal_operation(op, a, p1, s1, b, p2, s2),
        },
    }
}

/// Whether decimal arithmetic applies: a decimal is involved and no double.
pub open spec fn takes_decimal(l: ValueView, r: ValueView) -> bool {
    !(l is Float64) && !(r is Float64) && (l is Decimal || r is Decimal)
}

/// The result of an arithmetic operator on values that are not `NULL`.
pub open spec fn arithmetic_view(op: BinOp, l: ValueView, r: ValueView, answers: Answers) -> Result<
    ValueView,
    ErrorView,
> {
    if takes_decimal(l, r) {
        decimal_arithmetic_view(op, l, r)
    } else if op == BinOp::IntDiv {
        int_division(l, r)
    } else {
        match (l.number(), r.number()) {
            (Some(a), Some(b)) => match (a, b) {
                (Number::Int(x), Number::Int(y)) => if op == BinOp::Div {
                    double_arithmetic(op, a, b, answers)
                } else {
                    int_arithmetic(op, x as int, y as int)
                },
                _ => double_arithmetic(op, a, b, answers),
            },
            (None, _) => Err(type_error_view(op.symbol(), l)),
            _ => Err(type_error_view(op.symbol(), r)),
        }
    }
}

fn magnitude_i128(v: i128) -> (r: u128)
    ensures
        r == magnitude(v as int),
{
    if v < 0 {
        (-(v + 1)) as u128 + 1
    } else {
        v as u128
    }
}

fn signed_i128(m: u128, negative: bool) -> (r: Option<i128>)
    ensures
        match r {
            Some(v) => v == (if negative {
                -(m as int)
            } else {
                m as int
            }),
            None => !fits_i128(
                if negative {
                    -(m as int)
                } else {
                    m as int
                },
            ),
        },
{
    if negative {
        if m > 0x8000_0000_0000_0000_0000_0000_0000_0000u128 {
            None
        } else if m == 0x8000_0000_0000_0000_0000_0000_0000_0000u128 {
            Some(i128::MIN)
        } else {
            Some(-(m as i128))
        }
    } else {
        if m > 0x7fff_ffff_ffff_ffff_ffff_ffff_ffff_ffffu128 {
            None
        } else {
            Some(m as i128)
        }
    }
}

fn divide(a: i128, b: i128) -> (r: Option<i128>)
    requires
        b != 0,
    ensures
        match r {
            Some(q) => q == whole_quotient(a as int, b as int),
            None => !fits_i128(whole_quotient(a as int, b as int)),
        },
{
    let x: u128 = magnitude_i128(a);
    let y: u128 = magnitude_i128(b);
    signed_i128(x / y, (a < 0) != (b < 0))
}

fn remainder(a: i128, b: i128) -> (r: i128)
    requires
        b != 0,
    ensures
        r == whole_remainder(a as int, b as int),
        magnitude(r as int) < magnitude(b as int),
{
    let x: u128 = magnitude_i128(a);
    let y: u128 = magnitude_i128(b);
    let m: u128 = x % y;
    assert(m < y);
    if a < 0 {
        -(m as i128)
    } else {
        m as i128
    }
}

fn integer_value(i: i128, op: &str) -> (r: Result<Value, HtapError>)
    ensures
        outcome(r) == integer_result(i as int, op@),
{
    if i64::MIN as i128 <= i && i <= i64::MAX as i128 {
        Ok(Value::Int64(i as i64))
    } else {
        Err(overflow(op))
    }
}

fn integer_of(v: &Value) -> (r: Option<i64>)
    ensures
        match r {
            Some(i) => plain_integer(v@) == Some(i as int),
            None => plain_integer(v@) is None,
        },
{
    match v {
        Value::Int32(i) => Some(*i as i64),
        Value::Int64(i) => Some(*i),
        _ => None,
    }
}

/// A whole quotient of small numbers is small.
proof fn lemma_quotient_small(a: int, b: int)
    requires
        fits_i64(a),
        b != 0,
    ensures
        fits_i128(whole_quotient(a, b)),
{
    let (x, y) = (magnitude(a), magnitude(b));
    assert(0 <= x / y <= x) by (nonlinear_arith)
        requires
            x >= 0,
            y >= 1,
    ;
}

fn divide_values(l: &Value, r: &Value) -> (res: Result<Value, HtapError>)
    ensures
        outcome(res) == int_division(l@, r@),
{
    match (integer_of(l), integer_of(r)) {
        (Some(a), Some(b)) => {
            if b == 0 {
                return Ok(Value::Null);
            }
            proof {
                lemma_quotient_small(a as int, b as int);
            }
            match divide(a as i128, b as i128) {
                Some(q) => integer_value(q, "DIV"),
                None => Err(overflow("DIV")),
            }
        },
        (Some(_), None) => Err(type_error("DIV", r)),
        _ => Err(type_error("DIV", l)),
    }
}

fn compute_integers(op: BinOp, a: i64, b: i64) -> (r: Result<Value, HtapError>)
    ensures
        outcome(r) == int_arithmetic(op, a as int, b as int),
{
    match op {
        BinOp::Add => integer_value(a as i128 + b as i128, op.text()),
        BinOp::Sub => integer_value(a as i128 - b as i128, op.text()),
        BinOp::Mul => match a.checked_mul(b) {
            Some(i) => Ok(Value::Int64(i)),
            None => Err(overflow(op.text())),
        },
        _ => {
            if b == 0 {
                return Ok(Value::Null);
            }
            if a == i64::MIN && b == -1 {
                return Err(overflow(op.text()));
            }
            let rest: i128 = remainder(a as i128, b as i128);
            Ok(Value::Int64(rest as i64))
        },
    }
}

fn compute_doubles(op: BinOp, a: Number, b: Number, answers: &Answers) -> (r: Result<
    Value,
    HtapError,
>)
    ensures
        outcome(r) == double_arithmetic(op, a, b, *answers),
{
    let x = match num_to_double(a, answers) {
        Ok(d) => d,
        Err(e) => {
            return Err(e);
        },
    };
    let y = match num_to_double(b, answers) {
        Ok(d) => d,
        Err(e) => {
            return Err(e);
        },
    };
    if (op == BinOp::Div || op == BinOp::Mod) && y.is_zero() {
        return Ok(Value::Null);
    }
    let question = match op {
        BinOp::Add => DoubleOp::Add(x, y),
        BinOp::Sub => DoubleOp::Sub(x, y),
        BinOp::Mul => DoubleOp::Mul(x, y),
        BinOp::Div => DoubleOp::Div(x, y),
        _ => DoubleOp::Rem(x, y),
    };
    match answers.get_double(question) {
        Err(e) => Err(e),
        Ok(d) => if d.is_finite() {
            Ok(Value::Float64(d))
        } else {
            Err(
                HtapError::InvalidArgument(
                    cat3("DOUBLE value is out of range in '", op.text(), "'"),
                ),
            )
        },
    }
}

fn parts_of(v: &Value) -> (r: Option<(i64, u8, u8)>)
    ensures
        match r {
            Some((i, p, s)) => decimal_parts(v@) == Some((i as int, p, s)),
            None => decimal_parts(v@) is None,
        },
{
    match v {
        Value::Decimal { value, precision, scale } => Some((*value, *precision, *scale)),
        Value::Int32(i) => Some((*i as i64, 10, 0)),
        Value::Int64(i) => Some((*i, 19, 0)),
        Value::Timestamp(i) => Some((*i, 19, 0)),
        _ => None,
    }
}

fn align(a: i64, s1: u8, b: i64, s2: u8) -> (r: Result<(i128, i128, u8), HtapError>)
    ensures
        match r {
            Ok((x, y, s)) => aligned(a as int, s1, b as int, s2) == Ok::<
                (int, int, u8),
                ErrorView,
            >((x as int, y as int, s)),
            Err(e) => aligned(a as int, s1, b as int, s2) == Err::<(int, int, u8), ErrorView>(e@),
        },
{
    let s: u8 = if s1 >= s2 {
        s1
    } else {
        s2
    };
    let x: i128 = match decimal_rescale(a as i128, s1, s) {
        Ok(x) => x,
        Err(e) => {
            return Err(e);
        },
    };
    let y: i128 = match decimal_rescale(b as i128, s2, s) {
        Ok(y) => y,
        Err(e) => {
            return Err(e);
        },
    };
    Ok((x, y, s))
}

fn compute_aligned(op: BinOp, a: i64, s1: u8, b: i64, s2: u8) -> (r: Result<
    Option<(i128, u8)>,
    HtapError,
>)
    ensures
        match r {
            Ok(Some((v, s))) => aligned_result(op, a as int, s1, b as int, s2) == Ok::<
                Option<(int, u8)>,
                ErrorView,
            >(Some((v as int, s))),
            Ok(None) => aligned_result(op, a as int, s1, b as int, s2) == Ok::<
                Option<(int, u8)>,
                ErrorView,
            >(None),
            Err(e) => aligned_result(op, a as int, s1, b as int, s2) == Err::<
                Option<(int, u8)>,
                ErrorView,
            >(e@),
        },
{
    let (x, y, s): (i128, i128, u8) = match align(a, s1, b, s2) {
        Ok(t) => t,
        Err(e) => {
            return Err(e);
        },
    };
    if op == BinOp::Mod {
        if y == 0 {
            return Ok(None);
        }
        if x == i128::MIN && y == -1 {
            return Err(overflow(op.text()));
        }
        return Ok(Some((remainder(x, y), s)));
    }
    let z = if op == BinOp::Add {
        x.checked_add(y)
    } else {
        x.checked_sub(y)
    };
    match z {
        Some(v) => Ok(Some((v, s))),
        None => Err(overflow(op.text())),
    }
}

fn compute_quotient(a: i64, s1: u8, b: i64, s2: u8, scale: u8) -> (r: Result<i128, HtapError>)
    ensures
        match r {
            Ok(q) => decimal_quotient(a as int, s1, b as int, s2, scale) == Ok::<int, ErrorView>(
                q as int,
            ),
            Err(e) => decimal_quotient(a as int, s1, b as int, s2, scale) == Err::<int, ErrorView>(
                e@,
            ),
        },
{
    let sum: u8 = match scale.checked_add(s2) {
        Some(n) => n,
        None => {
            return Err(overflow("/"));
        },
    };
    let exponent: u8 = match sum.checked_sub(s1) {
        Some(n) => n,
        None => {
            return Err(overflow("/"));
        },
    };
    match decimal_rescale(a as i128, 0, exponent) {
        Err(e) => Err(e),
        Ok(x) => decimal_div_round_half_away(x, b as i128),
    }
}

fn divide_decimals(a: i64, s1: u8, b: i64, s2: u8) -> (r: Result<Value, HtapError>)
    ensures
        outcome(r) == decimal_int_division(a as int, s1, b as int, s2),
{
    let (x, y, _): (i128, i128, u8) = match align(a, s1, b, s2) {
        Ok(t) => t,
        Err(e) => {
            return Err(e);
        },
    };
    if y == 0 {
        return Err(overflow("DIV"));
    }
    match divide(x, y) {
        Some(q) => integer_value(q, "DIV"),
        None => Err(overflow("DIV")),
    }
}

fn finish_decimal(op: BinOp, v: i128, from: u8, precision: u8, scale: u8) -> (r: Result<
    Value,
    HtapError,
>)
    ensures
        outcome(r) == decimal_result_view(op, v as int, from, precision, scale),
{
    match decimal_rescale(v, from, scale) {
        Err(e) => Err(e),
        Ok(x) => {
            if x < i64::MIN as i128 || x > i64::MAX as i128 {
                return Err(overflow(op.text()));
            }
            match check_decimal_precision(x as i64, precision, scale) {
                Err(e) => Err(e),
                Ok(value) => Ok(Value::Decimal { value, precision, scale }),
            }
        },
    }
}

fn compute_decimals(op: BinOp, a: i64, p1: u8, s1: u8, b: i64, p2: u8, s2: u8) -> (r: Result<
    Value,
    HtapError,
>)
    ensures
        outcome(r) == decimal_operation(op, a as int, p1, s1, b as int, p2, s2),
{
    let t = match arithmetic_result_type(
        op,
        DataType::Decimal { precision: p1, scale: s1 },
        DataType::Decimal { precision: p2, scale: s2 },
    ) {
        Ok(t) => t,
        Err(e) => {
            return Err(e);
        },
    };
    match t {
        DataType::Decimal { precision, scale } => match op {
            BinOp::Mul => {
                let sum: u8 = match s1.checked_add(s2) {
                    Some(n) => n,
                    None => {
                        return Err(overflow("*"));
                    },
                };
                match (a as i128).checked_mul(b as i128) {
                    Some(v) => finish_decimal(op, v, sum, precision, scale),
                    None => Err(overflow("*")),
                }
            },
            BinOp::Div => {
                if b == 0 {
                    return Ok(Value::Null);
                }
                match compute_quotient(a, s1, b, s2, scale) {
                    Err(e) => Err(e),
                    Ok(q) => finish_decimal(op, q, scale, precision, scale),
                }
            },
            BinOp::IntDiv => {
                if b == 0 {
                    return Ok(Value::Null);
                }
                divide_decimals(a, s1, b, s2)
            },
            _ => match compute_aligned(op, a, s1, b, s2) {
                Err(e) => Err(e),
                Ok(None) => Ok(Value::Null),
                Ok(Some((v, s))) => finish_decimal(op, v, s, precision, scale),
            },
        },
        _ => Err(
            HtapError::InvalidArgument(
                cat3("operator '", op.text(), "' does not produce a DECIMAL result"),
            ),
        ),
    }
}

fn decimal_arithmetic(op: BinOp, l: &Value, r: &Value) -> (res: Result<Value, HtapError>)
    ensures
        outcome(res) == decimal_arithmetic_view(op, l@, r@),
{
    match parts_of(l) {
        None => Err(type_error(op.text(), l)),
        Some((a, p1, s1)) => match parts_of(r) {
            None => Err(type_error(op.text(), r)),
            Some((b, p2, s2)) => compute_decimals(op, a, p1, s1, b, p2, s2),
        },
    }
}

/// Applies an arithmetic operator to two values that are not `NULL`.
pub fn arithmetic(op: BinOp, l: &Value, r: &Value, answers: &Answers) -> (res: Result<
    Value,
    HtapError,
>)
    ensures
        outcome(res) == arithmetic_view(op, l@, r@, *answers),
{
    let (l_float, l_decimal) = match l {
        Value::Float64(_) => (true, false),
        Value::Decimal { .. } => (false, true),
        _ => (false, false),
    };
    let (r_float, r_decimal) = match r {
        Value::Float64(_) => (true, false),
        Value::Decimal { .. } => (false, true),
        _ => (false, false),
    };
    if !l_float && !r_float && (l_decimal || r_decimal) {
        return decimal_arithmetic(op, l, r);
    }
    if op == BinOp::IntDiv {
        return divide_values(l, r);
    }
    match (as_num(l), as_num(r)) {
        (Some(a), Some(b)) => match (a, b) {
            (Number::Int(x), Number::Int(y)) => if op == BinOp::Div {
                compute_doubles(op, a, b, answers)
            } else {
                compute_integers(op, x, y)
            },
            _ => compute_doubles(op, a, b, answers),
        },
        (None, _) => Err(type_error(op.text(), l)),
        _ => Err(type_error(op.text(), r)),
    }
}

} // verus!
