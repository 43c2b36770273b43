//! Conversions and comparisons of values.

use crate::answers::Answers;
use crate::decimal::{
    check_decimal_precision, decimal_parse, decimal_rescale, decimal_text, decimal_to_text,
    magnitude, overflow, overflow_view, parse_decimal_text, pow10, power_of_ten, precision_check,
    rescale_view,
};
use crate::double::{Double, DoubleOp, DoubleOpView};
use crate::text::{
    bytes_hex, cat2, cat4, cat6, chars_of, hex_text, int_text, lower, owned, parse_i64, same_text,
    signed_text, signed_value, text_of_bytes, to_lower, trim, trimmed,
};
use crate::value::{copy_bytes, outcome, DataType, ErrorView, HtapError, Value, ValueView};
use vstd::prelude::*;

verus! {

/// How one value stands to another.
#[derive(Clone, Copy, Debug, PartialEq, Eq, Hash, Structural)]
pub enum Rank {
    /// Below.
    Less,
    /// Equal.
    Equal,
    /// Above.
    Greater,
}

impl View for Rank {
    type V = Rank;

    open spec fn view(&self) -> Rank {
        *self
    }
}

/// A value as it is written.
pub open spec fn value_text(v: ValueView, answers: Answers) -> Result<Seq<char>, ErrorView> {
    match v {
        ValueView::Null => Ok("NULL"@),
        ValueView::Bool(b) => if b {
            Ok("true"@)
        } else {
            Ok("false"@)
        },
        ValueView::Int32(i) => Ok(int_text(i as int)),
        ValueView::Int64(i) => Ok(int_text(i as int)),
        ValueView::Timestamp(i) => Ok(int_text(i as int)),
        ValueView::Float64(d) => answers.written(d),
        ValueView::Decimal { value, scale, .. } => Ok(decimal_text(value as int, scale as nat)),
        ValueView::String(s) => Ok(s),
        ValueView::Bytes(b) => Ok("0x"@ + hex_text(b, b.len() as int)),
    }
}

/// A value as it is written.
pub fn text_of_value(v: &Value, answers: &Answers) -> (r: Result<String, HtapError>)
    ensures
        outcome(r) == value_text(v@, *answers),
{
    match v {
        Value::Null => Ok(owned("NULL")),
        Value::Bool(b) => if *b {
            Ok(owned("true"))
        } else {
            Ok(owned("false"))
        },
        Value::Int32(i) => Ok(signed_text(*i as i64)),
        Value::Int64(i) => Ok(signed_text(*i)),
        Value::Timestamp(i) => Ok(signed_text(*i)),
        Value::Float64(d) => answers.get_written(*d),
        Value::Decimal { value, scale, .. } => Ok(decimal_to_text(*value, *scale)),
        Value::String(s) => Ok(s.clone()),
        Value::Bytes(b) => {
            let h = bytes_hex(b);
            Ok(cat2("0x", h.as_str()))
        },
    }
}

/// The refusal of a cast.
pub open spec fn bad_cast_view(v: ValueView, to: DataType, answers: Answers) -> ErrorView {
    match value_text(v, answers) {
        Ok(t) => ErrorView::InvalidArgument(
            "cannot cast "@ + v.kind_name() + " '"@ + t + "' to "@ + to.keyword(),
        ),
        Err(e) => e,
    }
}

fn bad_cast(v: &Value, to: DataType, answers: &Answers) -> (r: HtapError)
    ensures
        r@ == bad_cast_view(v@, to, *answers),
{
    match text_of_value(v, answers) {
        Ok(t) => HtapError::InvalidArgument(
            cat6("cannot cast ", v.kind_name(), " '", t.as_str(), "' to ", to.name()),
        ),
        Err(e) => e,
    }
}

/// A value as a 64-bit integer, if it has one.
pub open spec fn integer_view(v: ValueView, answers: Answers) -> Result<Option<int>, ErrorView> {
    match v {
        ValueView::Bool(b) => Ok(
            Some(
                if b {
                    1int
                } else {
                    0int
                },
            ),
        ),
        ValueView::Int32(i) => Ok(Some(i as int)),
        ValueView::Int64(i) => Ok(Some(i as int)),
        ValueView::Timestamp(i) => Ok(Some(i as int)),
        ValueView::Float64(d) => match answers.integer(DoubleOpView::ToInteger(d)) {
            Ok(Some(i)) => Ok(Some(i as int)),
            Ok(None) => Ok(None),
            Err(e) => Err(e),
        },
        ValueView::Decimal { value, scale, .. } => match rescale_view(
            value as int,
            scale as int,
            0,
        ) {
            Ok(i) if i64::MIN <= i <= i64::MAX => Ok(Some(i)),
            _ => Ok(None),
        },
        ValueView::String(s) => match signed_value(trimmed(s)) {
            Some(i) if i64::MIN <= i <= i64::MAX => Ok(Some(i)),
            _ => Ok(None),
        },
        _ => Ok(None),
    }
}

fn cast_to_i64(v: &Value, answers: &Answers) -> (r: Result<Option<i64>, HtapError>)
    ensures
        match r {
            Ok(Some(i)) => integer_view(v@, *answers) == Ok::<Option<int>, ErrorView>(
                Some(i as int),
            ),
            Ok(None) => integer_view(v@, *answers) == Ok::<Option<int>, ErrorView>(None),
            Err(e) => integer_view(v@, *answers) == Err::<Option<int>, ErrorView>(e@),
        },
{
    match v {
        Value::Bool(b) => Ok(
            Some(
                if *b {
                    1
                } else {
                    0
                },
            ),
        ),
        Value::Int32(i) => Ok(Some(*i as i64)),
        Value::Int64(i) => Ok(Some(*i)),
        Value::Timestamp(i) => Ok(Some(*i)),
        Value::Float64(d) => answers.get_integer(DoubleOp::ToInteger(*d)),
        Value::Decimal { value, scale, .. } => match decimal_rescale(*value as i128, *scale, 0) {
            Ok(i) => if i64::MIN as i128 <= i && i <= i64::MAX as i128 {
                Ok(Some(i as i64))
            } else {
                Ok(None)
            },
            Err(_) => Ok(None),
        },
        Value::String(s) => Ok(parse_i64(trim(s.as_str()))),
        _ => Ok(None),
    }
}

/// A value as an unscaled decimal, if it has one.
pub open spec fn unscaled_view(v: ValueView, to: DataType, scale: u8, answers: Answers) -> Result<
    int,
    ErrorView,
> {
    match v {
        ValueView::Bool(b) => rescale_view(
            if b {
                1
            } else {
                0
            },
            0,
            scale as int,
        ),
        ValueView::Int32(i) => rescale_view(i as int, 0, scale as int),
        ValueView::Int64(i) => rescale_view(i as int, 0, scale as int),
        ValueView::Timestamp(i) => rescale_view(i as int, 0, scale as int),
        ValueView::Float64(d) => if !d.finite() {
            Err(bad_cast_view(v, to, answers))
        } else {
            match answers.integer(DoubleOpView::ToScaled(d, scale)) {
                Ok(Some(i)) => Ok(i as int),
                Ok(None) => Err(bad_cast_view(v, to, answers)),
                Err(e) => Err(e),
            }
        },
        ValueView::Decimal { value, scale: from, .. } => rescale_view(
            value as int,
            from as int,
            scale as int,
        ),
        ValueView::String(s) => match decimal_parse(s, scale as nat) {
            Ok(i) => Ok(i),
            Err(_) => Err(bad_cast_view(v, to, answers)),
        },
        _ => Err(bad_cast_view(v, to, answers)),
    }
}

fn unscaled(v: &Value, to: DataType, scale: u8, answers: &Answers) -> (r: Result<i128, HtapError>)
    ensures
        match r {
            Ok(i) => unscaled_view(v@, to, scale, *answers) == Ok::<int, ErrorView>(i as int),
            Err(e) => unscaled_view(v@, to, scale, *answers) == Err::<int, ErrorView>(e@),
        },
{
    match v {
        Value::Bool(b) => {
            let i: i128 = if *b {
                1
            } else {
                0
            };
            decimal_rescale(i, 0, scale)
        },
        Value::Int32(i) => decimal_rescale(*i as i128, 0, scale),
        Value::Int64(i) => decimal_rescale(*i as i128, 0, scale),
        Value::Timestamp(i) => decimal_rescale(*i as i128, 0, scale),
        Value::Float64(d) => {
            if !d.is_finite() {
                return Err(bad_cast(v, to, answers));
            }
            match answers.get_integer(DoubleOp::ToScaled(*d, scale)) {
                Ok(Some(i)) => Ok(i as i128),
                Ok(None) => Err(bad_cast(v, to, answers)),
                Err(e) => Err(e),
            }
        },
        Value::Decimal { value, scale: from, .. } => decimal_rescale(*value as i128, *from, scale),
        Value::String(s) => match parse_decimal_text(s.as_str(), scale) {
            Ok(i) => Ok(i),
            Err(_) => Err(bad_cast(v, to, answers)),
        },
        _ => Err(bad_cast(v, to, answers)),
    }
}

/// A value as a boolean.
pub open spec fn cast_bool_view(v: ValueView, answers: Answers) -> Result<ValueView, ErrorView> {
    match v {
        ValueView::Bool(b) => Ok(ValueView::Bool(b)),
        ValueView::Int32(i) => Ok(ValueView::Bool(i != 0)),
        ValueView::Int64(i) => Ok(ValueView::Bool(i != 0)),
        ValueView::Timestamp(i) => Ok(ValueView::Bool(i != 0)),
        ValueView::Float64(d) => Ok(ValueView::Bool(!d.zero())),
        ValueView::String(s) => {
            let t = lower(trimmed(s));
            if t == "1"@ || t == "true"@ {
                Ok(ValueView::Bool(true))
            } else if t == "0"@ || t == "false"@ {
                Ok(ValueView::Bool(false))
            } else {
                Err(bad_cast_view(v, DataType::Bool, answers))
            }
        },
        _ => Err(bad_cast_view(v, DataType::Bool, answers)),
    }
}

fn cast_bool(v: &Value, answers: &Answers) -> (r: Result<Value, HtapError>)
    ensures
        outcome(r) == cast_bool_view(v@, *answers),
{
    match v {
        Value::Bool(b) => Ok(Value::Bool(*b)),
        Value::Int32(i) => Ok(Value::Bool(*i != 0)),
        Value::Int64(i) => Ok(Value::Bool(*i != 0)),
        Value::Timestamp(i) => Ok(Value::Bool(*i != 0)),
        Value::Float64(d) => Ok(Value::Bool(!d.is_zero())),
        Value::String(s) => {
            let t = to_lower(trim(s.as_str()));
            if same_text(t.as_str(), "1") || same_text(t.as_str(), "true") {
                Ok(Value::Bool(true))
            } else if same_text(t.as_str(), "0") || same_text(t.as_str(), "false") {
                Ok(Value::Bool(false))
            } else {
                Err(bad_cast(v, DataType::Bool, answers))
            }
        },
        _ => Err(bad_cast(v, DataType::Bool, answers)),
    }
}

/// A value as a double.
pub open spec fn cast_double_view(v: ValueView, answers: Answers) -> Result<ValueView, ErrorView> {
    match v {
        ValueView::Bool(b) => Ok(
            ValueView::Float64(
                Double {
                    bits: if b {
                        0x3ff0_0000_0000_0000
                    } else {
                        0
                    },
                },
            ),
        ),
        ValueView::Int32(i) => match answers.double(DoubleOpView::FromInteger(i as i64)) {
            Ok(d) => Ok(ValueView::Float64(d)),
            Err(e) => Err(e),
        },
        ValueView::Int64(i) => match answers.double(DoubleOpView::FromInteger(i)) {
            Ok(d) => Ok(ValueView::Float64(d)),
            Err(e) => Err(e),
        },
        ValueView::Timestamp(i) => match answers.double(DoubleOpView::FromInteger(i)) {
            Ok(d) => Ok(ValueView::Float64(d)),
            Err(e) => Err(e),
        },
        ValueView::Float64(d) => Ok(ValueView::Float64(d)),
        ValueView::Decimal { value, scale, .. } => match answers.double(
            DoubleOpView::FromDecimal(value, scale),
        ) {
            Ok(d) => Ok(ValueView::Float64(d)),
            Err(e) => Err(e),
        },
        ValueView::String(s) => match answers.parsed(trimmed(s)) {
            Ok(Some(d)) => if d.finite() {
                Ok(ValueView::Float64(d))
            } else {
                Err(ErrorView::InvalidArgument("DOUBLE value is out of range in 'CAST'"@))
            },
            Ok(None) => Err(bad_cast_view(v, DataType::Float64, answers)),
            Err(e) => Err(e),
        },
        _ => Err(bad_cast_view(v, DataType::Float64, answers)),
    }
}

fn cast_double(v: &Value, answers: &Answers) -> (r: Result<Value, HtapError>)
    ensures
        outcome(r) == cast_double_view(v@, *answers),
{
    match v {
        Value::Bool(b) => Ok(
            Value::Float64(
                if *b {
                    Double::one()
                } else {
                    Double::positive_zero()
                },
            ),
        ),
        Value::Int32(i) => match answers.get_double(DoubleOp::FromInteger(*i as i64)) {
            Ok(d) => Ok(Value::Float64(d)),
            Err(e) => Err(e),
        },
        Value::Int64(i) => match answers.get_double(DoubleOp::FromInteger(*i)) {
            Ok(d) => Ok(Value::Float64(d)),
            Err(e) => Err(e),
        },
        Value::Timestamp(i) => match answers.get_double(DoubleOp::FromInteger(*i)) {
            Ok(d) => Ok(Value::Float64(d)),
            Err(e) => Err(e),
        },
        Value::Float64(d) => Ok(Value::Float64(*d)),
        Value::Decimal { value, scale, .. } => match answers.get_double(
            DoubleOp::FromDecimal(*value, *scale),
        ) {
            Ok(d) => Ok(Value::Float64(d)),
            Err(e) => Err(e),
        },
        Value::String(s) => match answers.get_parsed(trim(s.as_str())) {
            Ok(Some(d)) => if d.is_finite() {
                Ok(Value::Float64(d))
            } else {
                Err(HtapError::InvalidArgument(owned("DOUBLE value is out of range in 'CAST'")))
            },
            Ok(None) => Err(bad_cast(v, DataType::Float64, answers)),
            Err(e) => Err(e),
        },
        _ => Err(bad_cast(v, DataType::Float64, answers)),
    }
}

/// A value as text.
pub open spec fn cast_text_view(v: ValueView, answers: Answers) -> Result<ValueView, ErrorView> {
    match v {
        ValueView::Bool(b) => Ok(
            ValueView::String(
                if b {
                    "1"@
                } else {
                    "0"@
                },
            ),
        ),
        ValueView::Bytes(b) => if vstd::utf8::valid_utf8(b) {
            Ok(ValueView::String(vstd::utf8::decode_utf8(b)))
        } else {
            Err(bad_cast_view(v, DataType::String, answers))
        },
        _ => match value_text(v, answers) {
            Ok(t) => Ok(ValueView::String(t)),
            Err(e) => Err(e),
        },
    }
}

fn cast_text(v: &Value, answers: &Answers) -> (r: Result<Value, HtapError>)
    ensures
        outcome(r) == cast_text_view(v@, *answers),
{
    match v {
        Value::Bool(b) => Ok(
            Value::String(
                if *b {
                    owned("1")
                } else {
                    owned("0")
                },
            ),
        ),
        Value::Bytes(b) => match text_of_bytes(b) {
            Some(t) => Ok(Value::String(t)),
            None => Err(bad_cast(v, DataType::String, answers)),
        },
        _ => match text_of_value(v, answers) {
            Ok(t) => Ok(Value::String(t)),
            Err(e) => Err(e),
        },
    }
}

/// What a cast of a value results in.
pub open spec fn cast_view(v: ValueView, to: DataType, answers: Answers) -> Result<
    ValueView,
    ErrorView,
> {
    if v is Null {
        Ok(ValueView::Null)
    } else {
        match to {
            DataType::Bool => cast_bool_view(v, answers),
            DataType::Int32 => match integer_view(v, answers) {
                Ok(Some(i)) if i32::MIN <= i <= i32::MAX => Ok(ValueView::Int32(i as i32)),
                Ok(_) => Err(bad_cast_view(v, to, answers)),
                Err(e) => Err(e),
            },
            DataType::Int64 => match integer_view(v, answers) {
                Ok(Some(i)) => Ok(ValueView::Int64(i as i64)),
                Ok(None) => Err(bad_cast_view(v, to, answers)),
                Err(e) => Err(e),
            },
            DataType::Timestamp => match integer_view(v, answers) {
                Ok(Some(i)) => Ok(ValueView::Timestamp(i as i64)),
                Ok(None) => Err(bad_cast_view(v, to, answers)),
                Err(e) => Err(e),
            },
            DataType::Float64 => cast_double_view(v, answers),
            DataType::Decimal { precision, scale } => match unscaled_view(v, to, scale, answers) {
                Ok(i) => if i64::MIN <= i <= i64::MAX && precision_check(
                    i as i64,
                    precision,
                    scale,
                ) is Ok {
                    Ok(ValueView::Decimal { value: i as i64, precision, scale })
                } else {
                    Err(bad_cast_view(v, to, answers))
                },
                Err(e) => Err(e),
            },
            DataType::String => cast_text_view(v, answers),
            DataType::Bytes => match v {
                ValueView::Bytes(b) => Ok(ValueView::Bytes(b)),
                ValueView::String(s) => Ok(ValueView::Bytes(vstd::utf8::encode_utf8(s))),
                _ => Err(bad_cast_view(v, to, answers)),
            },
        }
    }
}

/// Casts a value to `to`, following MySQL-like conversions for the supported types.
pub fn cast_value(v: &Value, to: DataType, answers: &Answers) -> (r: Result<Value, HtapError>)
    ensures
        outcome(r) == cast_view(v@, to, *answers),
{
    if v.is_null() {
        return Ok(Value::Null);
    }
    match to {
        DataType::Bool => cast_bool(v, answers),
        DataType::Int32 => match cast_to_i64(v, answers) {
            Ok(Some(i)) => if i32::MIN as i64 <= i && i <= i32::MAX as i64 {
                Ok(Value::Int32(i as i32))
            } else {
                Err(bad_cast(v, to, answers))
            },
            Ok(None) => Err(bad_cast(v, to, answers)),
            Err(e) => Err(e),
        },
        DataType::Int64 => match cast_to_i64(v, answers) {
            Ok(Some(i)) => Ok(Value::Int64(i)),
            Ok(None) => Err(bad_cast(v, to, answers)),
            Err(e) => Err(e),
        },
        DataType::Timestamp => match cast_to_i64(v, answers) {
            Ok(Some(i)) => Ok(Value::Timestamp(i)),
            Ok(None) => Err(bad_cast(v, to, answers)),
            Err(e) => Err(e),
        },
        DataType::Float64 => cast_double(v, answers),
        DataType::Decimal { precision, scale } => match unscaled(v, to, scale, answers) {
            Ok(i) => {
                if i < i64::MIN as i128 || i > i64::MAX as i128 {
                    return Err(bad_cast(v, to, answers));
                }
                match check_decimal_precision(i as i64, precision, scale) {
                    Ok(value) => Ok(Value::Decimal { value, precision, scale }),
                    Err(_) => Err(bad_cast(v, to, answers)),
                }
            },
            Err(e) => Err(e),
        },
        DataType::String => cast_text(v, answers),
        DataType::Bytes => match v {
            Value::Bytes(b) => Ok(Value::Bytes(copy_bytes(b))),
            Value::String(s) => Ok(Value::Bytes(s.as_str().as_bytes_vec())),
            _ => Err(bad_cast(v, to, answers)),
        },
    }
}

/// What a value becomes in a place of the given static type.
pub open spec fn conform_view(v: ValueView, t: DataType, answers: Answers) -> Result<
    ValueView,
    ErrorView,
> {
    match (v, t) {
        (ValueView::Null, _) => Ok(v),
        (ValueView::Int32(_), DataType::Int64) => cast_view(v, t, answers),
        (ValueView::Int32(_), DataType::Float64) => cast_view(v, t, answers),
        (ValueView::Int64(_), DataType::Float64) => cast_view(v, t, answers),
        (ValueView::Decimal { value, scale: from, .. }, DataType::Decimal { scale, .. }) => {
            if from > scale {
                let factor = pow10((from - scale) as nat);
                if factor > i64::MAX {
                    Err(overflow_view("DECIMAL"@))
                } else if magnitude(value as int) % factor != 0 {
                    Err(
                        ErrorView::InvalidArgument(
                            "cannot exactly conform DECIMAL value "@ + decimal_text(
                                value as int,
                                from as nat,
                            ) + " to "@ + t.shown(),
                        ),
                    )
                } else {
                    cast_view(v, t, answers)
                }
            } else {
                cast_view(v, t, answers)
            }
        },
        (_, DataType::Decimal { .. }) => cast_view(v, t, answers),
        _ => Ok(v),
    }
}

/// Widens a numeric value to the static type of a multi-branch expression.
pub(crate) fn conform(v: Value, t: DataType, answers: &Answers) -> (r: Result<Value, HtapError>)
    ensures
        outcome(r) == conform_view(v@, t, *answers),
{
    match (&v, t) {
        (Value::Null, _) => Ok(v),
        (Value::Int32(_), DataType::Int64) => cast_value(&v, t, answers),
        (Value::Int32(_), DataType::Float64) => cast_value(&v, t, answers),
        (Value::Int64(_), DataType::Float64) => cast_value(&v, t, answers),
        (Value::Decimal { value, scale: from, .. }, DataType::Decimal { scale, .. }) => {
            if *from > scale {
                let factor: i128 = match power_of_ten(*from - scale) {
                    None => {
                        return Err(overflow("DECIMAL"));
                    },
                    Some(f) => f,
                };
                if factor > i64::MAX as i128 {
                    return Err(overflow("DECIMAL"));
                }
                proof {
                    crate::decimal::lemma_pow10_positive((from - scale) as nat);
                }
                let m: i128 = if *value < 0 {
                    -(*value as i128)
                } else {
                    *value as i128
                };
                if m % factor != 0 {
                    let shown = decimal_to_text(*value, *from);
                    let kind = t.text();
                    return Err(
                        HtapError::InvalidArgument(
                            cat4(
                                "cannot exactly conform DECIMAL value ",
                                shown.as_str(),
                                " to ",
                                kind.as_str(),
                            ),
                        ),
                    );
                }
                cast_value(&v, t, answers)
            } else {
                cast_value(&v, t, answers)
            }
        },
        (_, DataType::Decimal { .. }) => cast_value(&v, t, answers),
        _ => Ok(v),
    }
}

/// How two integers stand to each other.
pub open spec fn int_rank(a: int, b: int) -> Rank {
    if a < b {
        Rank::Less
    } else if a == b {
        Rank::Equal
    } else {
        Rank::Greater
    }
}

/// How two texts stand to each other by their characters from `i` on.
pub open spec fn text_rank(a: Seq<char>, b: Seq<char>, i: int) -> Rank
    decreases a.len() - i,
{
    if i >= a.len() || i >= b.len() || i < 0 {
        int_rank(a.len() as int, b.len() as int)
    } else if a[i] != b[i] {
        int_rank(a[i] as int, b[i] as int)
    } else {
        text_rank(a, b, i + 1)
    }
}

/// How two byte strings stand to each other from `i` on.
pub open spec fn bytes_rank(a: Seq<u8>, b: Seq<u8>, i: int) -> Rank
    decreases a.len() - i,
{
    if i >= a.len() || i >= b.len() || i < 0 {
        int_rank(a.len() as int, b.len() as int)
    } else if a[i] != b[i] {
        int_rank(a[i] as int, b[i] as int)
    } else {
        bytes_rank(a, b, i + 1)
    }
}

pub(crate) fn rank_i128(a: i128, b: i128) -> (r: Rank)
    ensures
        r == int_rank(a as int, b as int),
{
    if a < b {
        Rank::Less
    } else if a == b {
        Rank::Equal
    } else {
        Rank::Greater
    }
}

pub(crate) fn rank_text(a: &str, b: &str) -> (r: Rank)
    ensures
        r == text_rank(a@, b@, 0),
{
    let x = chars_of(a);
    let y = chars_of(b);
    let mut i: usize = 0;
    while i < x.len() && i < y.len()
        invariant
            x@ == a@,
            y@ == b@,
            i <= x.len(),
            i <= y.len(),
            text_rank(a@, b@, 0) == text_rank(a@, b@, i as int),
        decreases x.len() - i,
    {
        if x[i] != y[i] {
            return if x[i] < y[i] {
                Rank::Less
            } else {
                Rank::Greater
            };
        }
        i = i + 1;
    }
    rank_i128(x.len() as i128, y.len() as i128)
}

pub(crate) fn rank_bytes(a: &Vec<u8>, b: &Vec<u8>) -> (r: Rank)
    ensures
        r == bytes_rank(a@, b@, 0),
{
    let mut i: usize = 0;
    while i < a.len() && i < b.len()
        invariant
            i <= a.len(),
            i <= b.len(),
            bytes_rank(a@, b@, 0) == bytes_rank(a@, b@, i as int),
        decreases a.len() - i,
    {
        if a[i] != b[i] {
            return if a[i] < b[i] {
                Rank::Less
            } else {
                Rank::Greater
            };
        }
        i = i + 1;
    }
    rank_i128(a.len() as i128, b.len() as i128)
}

/// A value as arithmetic sees it.
#[derive(Clone, Copy, Debug, PartialEq, Eq, Structural)]
pub enum Number {
    /// An integer or a timestamp.
    Int(i64),
    /// A double.
    Float(Double),
    /// A decimal, to be taken as a double.
    Scaled(i64, u8),
}

impl ValueView {
    /// The number a value is, if it is one.
    pub open spec fn number(self) -> Option<Number> {
        match self {
            ValueView::Int32(i) => Some(Number::Int(i as i64)),
            ValueView::Int64(i) => Some(Number::Int(i)),
            ValueView::Timestamp(i) => Some(Number::Int(i)),
            ValueView::Float64(d) => Some(Number::Float(d)),
            ValueView::Decimal { value, scale, .. } => Some(Number::Scaled(value, scale)),
            _ => None,
        }
    }
}

/// The number a value is, if it is one.
pub(crate) fn as_num(v: &Value) -> (r: Option<Number>)
    ensures
        r == v@.number(),
{
    match v {
        Value::Int32(i) => Some(Number::Int(*i as i64)),
        Value::Int64(i) => Some(Number::Int(*i)),
        Value::Timestamp(i) => Some(Number::Int(*i)),
        Value::Float64(d) => Some(Number::Float(*d)),
        Value::Decimal { value, scale, .. } => Some(Number::Scaled(*value, *scale)),
        _ => None,
    }
}

/// A number as a double.
pub open spec fn double_view(n: Number, answers: Answers) -> Result<Double, ErrorView> {
    match n {
        Number::Int(i) => answers.double(DoubleOpView::FromInteger(i)),
        Number::Float(d) => Ok(d),
        Number::Scaled(v, s) => answers.double(DoubleOpView::FromDecimal(v, s)),
    }
}

/// A number as a double.
pub(crate) fn num_to_double(n: Number, answers: &Answers) -> (r: Result<Double, HtapError>)
    ensures
        match r {
            Ok(d) => double_view(n, *answers) == Ok::<Double, ErrorView>(d),
            Err(e) => double_view(n, *answers) == Err::<Double, ErrorView>(e@),
        },
{
    match n {
        Number::Int(i) => answers.get_double(DoubleOp::FromInteger(i)),
        Number::Float(d) => Ok(d),
        Number::Scaled(v, s) => answers.get_double(DoubleOp::FromDecimal(v, s)),
    }
}

/// How a decimal stands to an integer.
pub open spec fn decimal_integer_rank(value: i64, scale: u8, i: int) -> Result<
    Option<Rank>,
    ErrorView,
> {
    match rescale_view(i, 0, scale as int) {
        Ok(x) => Ok(Some(int_rank(value as int, x))),
        Err(e) => Err(e),
    }
}

/// How an integer stands to a decimal.
pub open spec fn integer_decimal_rank(i: int, value: i64, scale: u8) -> Result<
    Option<Rank>,
    ErrorView,
> {
    match rescale_view(i, 0, scale as int) {
        Ok(x) => Ok(Some(int_rank(x, value as int))),
        Err(e) => Err(e),
    }
}

/// How two decimals stand to each other.
pub open spec fn decimal_rank(v1: i64, s1: u8, v2: i64, s2: u8) -> Result<Option<Rank>, ErrorView> {
    let scale = if s1 >= s2 {
        s1
    } else {
        s2
    };
    match rescale_view(v1 as int, s1 as int, scale as int) {
        Err(e) => Err(e),
        Ok(x) => match rescale_view(v2 as int, s2 as int, scale as int) {
            Err(e) => Err(e),
            Ok(y) => Ok(Some(int_rank(x, y))),
        },
    }
}

/// How two values that are not both decimals or decimal and integer stand to each other.
pub open spec fn plain_rank(l: ValueView, r: ValueView, answers: Answers) -> Result<
    Option<Rank>,
    ErrorView,
> {
    match (l.number(), r.number()) {
        (Some(Number::Int(a)), Some(Number::Int(b))) => Ok(Some(int_rank(a as int, b as int))),
        (Some(a), Some(b)) => match double_view(a, answers) {
            Err(e) => Err(e),
            Ok(x) => match double_view(b, answers) {
                Err(e) => Err(e),
                Ok(y) => Ok(Some(int_rank(x.rank(), y.rank()))),
            },
        },
        _ => match (l, r) {
            (ValueView::Bool(a), ValueView::Bool(b)) => Ok(
                Some(
                    if a == b {
                        Rank::Equal
                    } else if b {
                        Rank::Less
                    } else {
                        Rank::Greater
                    },
                ),
            ),
            (ValueView::String(a), ValueView::String(b)) => Ok(Some(text_rank(a, b, 0))),
            (ValueView::Bytes(a), ValueView::Bytes(b)) => Ok(Some(bytes_rank(a, b, 0))),
            _ => Err(
                ErrorView::InvalidArgument(
                    "cannot compare "@ + l.kind_name() + " with "@ + r.kind_name(),
                ),
            ),
        },
    }
}

/// What a comparison of two values answers: nothing where one is `NULL`.
pub open spec fn compare_view(l: ValueView, r: ValueView, answers: Answers) -> Result<
    Option<Rank>,
    ErrorView,
> {
    match (l, r) {
        (ValueView::Null, _) => Ok(None),
        (_, ValueView::Null) => Ok(None),
        (
            ValueView::Decimal { value: v1, scale: s1, .. },
            ValueView::Decimal { value: v2, scale: s2, .. },
        ) => decimal_rank(v1, s1, v2, s2),
        (ValueView::Decimal { value, scale, .. }, ValueView::Int32(i)) => decimal_integer_rank(
            value,
            scale,
            i as int,
        ),
        (ValueView::Decimal { value, scale, .. }, ValueView::Int64(i)) => decimal_integer_rank(
            value,
            scale,
            i as int,
        ),
        (ValueView::Int32(i), ValueView::Decimal { value, scale, .. }) => integer_decimal_rank(
            i as int,
            value,
            scale,
        ),
        (ValueView::Int64(i), ValueView::Decimal { value, scale, .. }) => integer_decimal_rank(
            i as int,
            value,
            scale,
        ),
        _ => plain_rank(l, r, answers),
    }
}

fn rank_decimal_integer(value: i64, scale: u8, i: i64) -> (r: Result<Rank, HtapError>)
    ensures
        match r {
            Ok(x) => decimal_integer_rank(value, scale, i as int) == Ok::<Option<Rank>, ErrorView>(
                Some(x),
            ) && integer_decimal_rank(i as int, value, scale) == Ok::<Option<Rank>, ErrorView>(
                Some(
                    match x {
                        Rank::Less => Rank::Greater,
                        Rank::Equal => Rank::Equal,
                        Rank::Greater => Rank::Less,
                    },
                ),
            ),
            Err(e) => decimal_integer_rank(value, scale, i as int) == Err::<
                Option<Rank>,
                ErrorView,
            >(e@) && integer_decimal_rank(i as int, value, scale) == Err::<Option<Rank>, ErrorView>(
                e@,
            ),
        },
{
    match decimal_rescale(i as i128, 0, scale) {
        Ok(x) => Ok(rank_i128(value as i128, x)),
        Err(e) => Err(e),
    }
}

fn turned(x: Rank) -> (r: Rank)
    ensures
        r == match x {
            Rank::Less => Rank::Greater,
            Rank::Equal => Rank::Equal,
            Rank::Greater => Rank::Less,
        },
{
    match x {
        Rank::Less => Rank::Greater,
        Rank::Equal => Rank::Equal,
        Rank::Greater => Rank::Less,
    }
}

fn rank_decimals(v1: i64, s1: u8, v2: i64, s2: u8) -> (r: Result<Option<Rank>, HtapError>)
    ensures
        match r {
            Ok(x) => decimal_rank(v1, s1, v2, s2) == Ok::<Option<Rank>, ErrorView>(x),
            Err(e) => decimal_rank(v1, s1, v2, s2) == Err::<Option<Rank>, ErrorView>(e@),
        },
{
    let scale: u8 = if s1 >= s2 {
        s1
    } else {
        s2
    };
    let x: i128 = match decimal_rescale(v1 as i128, s1, scale) {
        Ok(x) => x,
        Err(e) => {
            return Err(e);
        },
    };
    let y: i128 = match decimal_rescale(v2 as i128, s2, scale) {
        Ok(y) => y,
        Err(e) => {
            return Err(e);
        },
    };
    Ok(Some(rank_i128(x, y)))
}

pub(crate) fn rank_doubles(x: Double, y: Double) -> (r: Rank)
    ensures
        r == int_rank(x.rank(), y.rank()),
{
    if x.ranks_below(&y) {
        Rank::Less
    } else if y.ranks_below(&x) {
        Rank::Greater
    } else {
        Rank::Equal
    }
}

fn rank_plain(l: &Value, r: &Value, answers: &Answers) -> (res: Result<Option<Rank>, HtapError>)
    ensures
        match res {
            Ok(x) => plain_rank(l@, r@, *answers) == Ok::<Option<Rank>, ErrorView>(x),
            Err(e) => plain_rank(l@, r@, *answers) == Err::<Option<Rank>, ErrorView>(e@),
        },
{
    match (as_num(l), as_num(r)) {
        (Some(Number::Int(a)), Some(Number::Int(b))) => Ok(Some(rank_i128(a as i128, b as i128))),
        (Some(a), Some(b)) => {
            let x = match num_to_double(a, answers) {
                Ok(x) => x,
                Err(e) => {
                    return Err(e);
                },
            };
            let y = match num_to_double(b, answers) {
                Ok(y) => y,
                Err(e) => {
                    return Err(e);
                },
            };
            Ok(Some(rank_doubles(x, y)))
        },
        _ => match (l, r) {
            (Value::Bool(a), Value::Bool(b)) => Ok(
                Some(
                    if *a == *b {
                        Rank::Equal
                    } else if *b {
                        Rank::Less
                    } else {
                        Rank::Greater
                    },
                ),
            ),
            (Value::String(a), Value::String(b)) => Ok(Some(rank_text(a.as_str(), b.as_str()))),
            (Value::Bytes(a), Value::Bytes(b)) => Ok(Some(rank_bytes(a, b))),
            _ => Err(
                HtapError::InvalidArgument(
                    cat4("cannot compare ", l.kind_name(), " with ", r.kind_name()),
                ),
            ),
        },
    }
}

/// Compares two values. `None` where either side is `NULL`.
///
/// Numeric values compare after promotion; other values must have the same type.
pub fn rank_values(l: &Value, r: &Value, answers: &Answers) -> (res: Result<
    Option<Rank>,
    HtapError,
>)
    ensures
        match res {
            Ok(x) => compare_view(l@, r@, *answers) == Ok::<Option<Rank>, ErrorView>(x),
            Err(e) => compare_view(l@, r@, *answers) == Err::<Option<Rank>, ErrorView>(e@),
        },
{
    match (l, r) {
        (Value::Null, _) => Ok(None),
        (_, Value::Null) => Ok(None),
        (
            Value::Decimal { value: v1, scale: s1, .. },
            Value::Decimal { value: v2, scale: s2, .. },
        ) => rank_decimals(*v1, *s1, *v2, *s2),
        (Value::Decimal { value, scale, .. }, Value::Int32(i)) => match rank_decimal_integer(
            *value,
            *scale,
            *i as i64,
        ) {
            Ok(x) => Ok(Some(x)),
            Err(e) => Err(e),
        },
        (Value::Decimal { value, scale, .. }, Value::Int64(i)) => match rank_decimal_integer(
            *value,
            *scale,
            *i,
        ) {
            Ok(x) => Ok(Some(x)),
            Err(e) => Err(e),
        },
        (Value::Int32(i), Value::Decimal { value, scale, .. }) => match rank_decimal_integer(
            *value,
            *scale,
            *i as i64,
        ) {
            Ok(x) => Ok(Some(turned(x))),
            Err(e) => Err(e),
        },
        (Value::Int64(i), Value::Decimal { value, scale, .. }) => match rank_decimal_integer(
            *value,
            *scale,
            *i,
        ) {
            Ok(x) => Ok(Some(turned(x))),
            Err(e) => Err(e),
        },
        _ => rank_plain(l, r, answers),
    }
}

/// The order that a rank stands for.
pub open spec fn order_of(k: Rank) -> std::cmp::Ordering {
    match k {
        Rank::Less => std::cmp::Ordering::Less,
        Rank::Equal => std::cmp::Ordering::Equal,
        Rank::Greater => std::cmp::Ordering::Greater,
    }
}

/// Compares two values. `None` where either side is `NULL`.
pub fn compare(l: &Value, r: &Value, answers: &Answers) -> (res: Result<
    Option<std::cmp::Ordering>,
    HtapError,
>)
    ensures
        match compare_view(l@, r@, *answers) {
            Ok(None) => res is Ok && res->Ok_0 is None,
            Ok(Some(k)) => res is Ok && res->Ok_0 == Some(order_of(k)),
            Err(e) => res is Err && res->Err_0@ == e,
        },
{
    match rank_values(l, r, answers) {
        Err(e) => Err(e),
        Ok(None) => Ok(None),
        Ok(Some(Rank::Less)) => Ok(Some(std::cmp::Ordering::Less)),
        Ok(Some(Rank::Equal)) => Ok(Some(std::cmp::Ordering::Equal)),
        Ok(Some(Rank::Greater)) => Ok(Some(std::cmp::Ordering::Greater)),
    }
}

} // verus!
