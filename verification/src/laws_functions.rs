//! Laws of functions, casts, decimals and calendar intervals.

use crate::answers::Answers;
use crate::calendar::{
    date_of_timestamp, day_number, day_of_timestamp, days_in_month, interval_view, is_date,
    timestamp_of_day, DAY_MICROS, EPOCH_DAY,
};
use crate::convert::{cast_view, compare_view, int_rank, Rank};
use crate::decimal::{lemma_pow10_positive, pow10};
use crate::eval::{call_value, concat_value, first_present, substring_of};
use crate::expr::{CalendarIntervalUnit, ScalarFn};
use crate::laws_queries::numerals_denote_their_numbers;
use crate::laws_values::whole;
use crate::text::{first_solid, int_text, is_space, last_solid, nat_text, signed_value, trimmed};
use crate::value::{DataType, ErrorView, ValueView};
use vstd::prelude::*;

verus! {

/// The characters of a substring are those of the text from the start on, counted from one, and as
/// many as asked for, if there are as many. A start below zero counts from the end.
pub proof fn substrings_are_counted_from_one(s: Seq<char>, start: int, length: int)
    ensures
        1 <= start <= s.len() && length >= 0 ==> {
            let r = substring_of(s, start, Some(length));
            &&& r.len() == (if start - 1 + length <= s.len() {
                length
            } else {
                s.len() - (start - 1)
            })
            &&& forall|k: int| 0 <= k < r.len() ==> #[trigger] r[k] == s[start - 1 + k]
        },
        1 <= start <= s.len() ==> substring_of(s, start, None) == s.skip(start - 1),
        start > s.len() ==> substring_of(s, start, Some(length)).len() == 0,
        1 <= start <= s.len() ==> substring_of(s, -start, Some(length)) == substring_of(
            s,
            s.len() - start + 1,
            Some(length),
        ),
        1 <= start <= s.len() ==> substring_of(s, -start, None).len() == start,
        substring_of(s, 0, Some(length)).len() == 0,
{
    if 1 <= start <= s.len() {
        assert(substring_of(s, start, None) =~= s.skip(start - 1));
    }
}

/// `IFNULL` of two values is `COALESCE` of them: the first unless it is `NULL`. `NULLIF` is `NULL`
/// where its values are equal, and else the first.
pub proof fn null_functions_choose(a: ValueView, b: ValueView, answers: Answers)
    ensures
        call_value(ScalarFn::IfNull, seq![a, b], answers) == call_value(
            ScalarFn::Coalesce,
            seq![a, b],
            answers,
        ),
        !(a is Null) ==> call_value(ScalarFn::Coalesce, seq![a, b], answers) == Ok::<
            ValueView,
            ErrorView,
        >(a),
        a is Null ==> call_value(ScalarFn::Coalesce, seq![a, b], answers) == Ok::<
            ValueView,
            ErrorView,
        >(b),
        compare_view(a, b, answers) == Ok::<Option<Rank>, ErrorView>(Some(Rank::Equal))
            ==> call_value(ScalarFn::NullIf, seq![a, b], answers) == Ok::<ValueView, ErrorView>(
            ValueView::Null,
        ),
        compare_view(a, b, answers) is Ok && compare_view(a, b, answers) != Ok::<
            Option<Rank>,
            ErrorView,
        >(Some(Rank::Equal)) ==> call_value(ScalarFn::NullIf, seq![a, b], answers) == Ok::<
            ValueView,
            ErrorView,
        >(a),
{
    reveal_with_fuel(first_present, 3);
}

/// `CONCAT` of texts is one behind the other, and `NULL` where one is `NULL`.
pub proof fn texts_are_concatenated(a: Seq<char>, b: Seq<char>, v: ValueView, answers: Answers)
    ensures
        call_value(
            ScalarFn::Concat,
            seq![ValueView::String(a), ValueView::String(b)],
            answers,
        ) == Ok::<ValueView, ErrorView>(ValueView::String(a + b)),
        call_value(ScalarFn::Concat, seq![ValueView::String(a), ValueView::Null], answers) == Ok::<
            ValueView,
            ErrorView,
        >(ValueView::Null),
        call_value(ScalarFn::Concat, seq![ValueView::Null, v], answers) == Ok::<
            ValueView,
            ErrorView,
        >(ValueView::Null),
{
    reveal_with_fuel(concat_value, 4);
    assert(Seq::<char>::empty() + a =~= a);
}

/// `CHAR_LENGTH` counts characters, and `LENGTH` the bytes that encode them.
pub proof fn lengths_count(s: Seq<char>, answers: Answers)
    requires
        vstd::utf8::encode_utf8(s).len() <= i64::MAX,
        vstd::utf8::encode_utf8(s).len() <= usize::MAX,
        s.len() <= i64::MAX,
    ensures
        call_value(ScalarFn::CharLength, seq![ValueView::String(s)], answers) == Ok::<
            ValueView,
            ErrorView,
        >(ValueView::Int64(s.len() as i64)),
        call_value(ScalarFn::Length, seq![ValueView::String(s)], answers) matches Ok(
            ValueView::Int64(n),
        ) && n == vstd::utf8::encode_utf8(s).len(),
{
}

/// `ABS` of an integer is its distance from zero, or is refused where the type cannot hold it.
pub proof fn magnitudes_are_distances(v: ValueView, a: int, answers: Answers)
    requires
        whole(v) == Some(a),
    ensures
        call_value(ScalarFn::Abs, seq![v], answers) matches Ok(w) ==> whole(w) == Some(
            if a < 0 {
                -a
            } else {
                a
            },
        ) && w.data_type() == v.data_type(),
        a > i32::MIN ==> call_value(ScalarFn::Abs, seq![v], answers) is Ok,
{
}

/// The numeral of an integer denotes it.
pub proof fn signed_numerals_denote_their_numbers(i: int)
    ensures
        signed_value(int_text(i)) == Some(i),
        trimmed(int_text(i)) == int_text(i),
{
    let n = (if i < 0 {
        -i
    } else {
        i
    }) as nat;
    numerals_denote_their_numbers(n);
    reveal_strlit("-");
    let t = nat_text(n);
    assert('0' <= t[0] && t[0] <= '9');
    assert('0' <= t[t.len() - 1] && t[t.len() - 1] <= '9');
    let s = int_text(i);
    if i < 0 {
        assert(s.skip(1) =~= t);
        assert(s[0] == '-');
        assert(s[s.len() - 1] == t[t.len() - 1]);
    }
    assert(!is_space(s[0]));
    assert(!is_space(s[s.len() - 1]));
    assert(first_solid(s, 0) == 0);
    assert(last_solid(s, 0, s.len() as int) == s.len());
    assert(s.subrange(0, s.len() as int) =~= s);
}

/// An integer cast to text and back is what it was, and so are integers cast to the wider type and
/// back, and truth values cast to an integer and back.
pub proof fn casts_can_be_undone(i: i64, j: i32, b: bool, answers: Answers)
    ensures
        cast_view(ValueView::Int64(i), DataType::String, answers) matches Ok(t) && cast_view(
            t,
            DataType::Int64,
            answers,
        ) == Ok::<ValueView, ErrorView>(ValueView::Int64(i)),
        cast_view(ValueView::Int32(j), DataType::Int64, answers) == Ok::<ValueView, ErrorView>(
            ValueView::Int64(j as i64),
        ),
        cast_view(ValueView::Int64(j as i64), DataType::Int32, answers) == Ok::<
            ValueView,
            ErrorView,
        >(ValueView::Int32(j)),
        cast_view(ValueView::Bool(b), DataType::Int64, answers) == Ok::<ValueView, ErrorView>(
            ValueView::Int64(
                if b {
                    1
                } else {
                    0
                },
            ),
        ),
        cast_view(ValueView::Int64(i), DataType::Bool, answers) == Ok::<ValueView, ErrorView>(
            ValueView::Bool(i != 0),
        ),
{
    signed_numerals_denote_their_numbers(i as int);
}

proof fn lemma_pow10_adds(a: nat, b: nat)
    ensures
        pow10(a + b) == pow10(a) * pow10(b),
    decreases a,
{
    if a > 0 {
        lemma_pow10_adds((a - 1) as nat, b);
        let x = pow10((a - 1) as nat);
        let y = pow10(b);
        assert(10 * (x * y) == (10 * x) * y) by (nonlinear_arith);
    } else {
        assert(1 * pow10(b) == pow10(b));
    }
}

proof fn lemma_scaled(a: int, b: int, d: nat, s: nat)
    ensures
        int_rank(a, b * pow10(d)) == int_rank(a * pow10(s), b * pow10(d + s)),
        int_rank(b * pow10(d), a) == int_rank(b * pow10(d + s), a * pow10(s)),
{
    lemma_pow10_adds(d, s);
    lemma_pow10_positive(s);
    let p = pow10(s);
    let c = b * pow10(d);
    assert(b * (pow10(d) * p) == c * p) by (nonlinear_arith)
        requires
            c == b * pow10(d),
    ;
    assert((a < c) == (a * p < c * p) && (a == c) == (a * p == c * p)) by (nonlinear_arith)
        requires
            p >= 1,
    ;
}

/// Decimals compare as the numbers they are: `v` with `s` digits behind the point is `v` over ten to
/// the power of `s`.
pub proof fn decimals_compare_as_numbers(
    v1: i64,
    p1: u8,
    s1: u8,
    v2: i64,
    p2: u8,
    s2: u8,
    answers: Answers,
)
    ensures
        compare_view(
            ValueView::Decimal { value: v1, precision: p1, scale: s1 },
            ValueView::Decimal { value: v2, precision: p2, scale: s2 },
            answers,
        ) matches Ok(k) ==> k == Some(
            if v1 * pow10(s2 as nat) < v2 * pow10(s1 as nat) {
                Rank::Less
            } else if v1 * pow10(s2 as nat) == v2 * pow10(s1 as nat) {
                Rank::Equal
            } else {
                Rank::Greater
            },
        ),
{
    if s1 >= s2 {
        lemma_scaled(v1 as int, v2 as int, (s1 - s2) as nat, s2 as nat);
        if s1 == s2 {
            assert(v2 * pow10(0) == v2);
        }
    } else {
        lemma_scaled(v2 as int, v1 as int, (s2 - s1) as nat, s1 as nat);
    }
}

proof fn lemma_day(n: int)
    ensures
        day_of_timestamp(timestamp_of_day(n)) == n,
{
    let x = n - EPOCH_DAY;
    vstd::arithmetic::div_mod::lemma_div_multiples_vanish(x, DAY_MICROS as int);
    assert(x * DAY_MICROS == DAY_MICROS * x) by (nonlinear_arith);
}

/// Taking an interval off is adding it with the other sign, and a year is twelve months.
pub proof fn intervals_relate(micros: i64, q: i64, unit: CalendarIntervalUnit)
    ensures
        q != i64::MIN ==> interval_view(micros, q, unit, true) == interval_view(
            micros,
            (-q) as i64,
            unit,
            false,
        ),
        i64::MIN <= q * 12 <= i64::MAX ==> interval_view(
            micros,
            q,
            CalendarIntervalUnit::Year,
            false,
        ) == interval_view(micros, (q * 12) as i64, CalendarIntervalUnit::Month, false),
{
}

/// The day of a month that a date falls on when it comes to another month: the same day, or the last
/// of the month where that is shorter.
pub open spec fn day_within(d: int, y: int, m: int) -> int {
    if d <= days_in_month(y, m) {
        d
    } else {
        days_in_month(y, m)
    }
}

/// Adding months moves the month, and the year with it, by so many; the day stays, or becomes the
/// last of the month where that is shorter.
pub proof fn months_move_dates(micros: i64, q: i64, y: int, m: int, d: int)
    requires
        date_of_timestamp(micros) == Ok::<(int, int, int), ErrorView>((y, m, d)),
        1 <= m <= 12,
        d >= 1,
    ensures
        interval_view(micros, q, CalendarIntervalUnit::Month, false) matches Ok(v) ==> exists|
            y2: int,
            m2: int,
        |
            {
                &&& 1 <= m2 <= 12
                &&& y2 * 12 + m2 == y * 12 + m + q
                &&& v matches ValueView::Timestamp(t) && day_of_timestamp(t as int)
                    == #[trigger] day_number(y2, m2, day_within(d, y2, m2))
            },
{
    match crate::calendar::months_later(y, m, d, q as int) {
        Ok(n) => {
            let index = y * 12 + (m - 1) + q;
            let y2 = index / 12;
            let m2 = index % 12 + 1;
            vstd::arithmetic::div_mod::lemma_fundamental_div_mod(index, 12);
            let d2 = day_within(d, y2, m2);
            assert(n == day_number(y2, m2, d2));
            assert(is_date(y2, m2, d2));
            crate::calendar::lemma_day_bounds(y2, m2, d2);
            lemma_day(n);
            assert(i64::MIN <= timestamp_of_day(n) <= i64::MAX);
            assert(day_of_timestamp((timestamp_of_day(n) as i64) as int) == day_number(y2, m2, d2));
        },
        Err(_) => {},
    }
}

/// Adding days moves the day by so many.
pub proof fn days_move_dates(micros: i64, q: i64, y: int, m: int, d: int)
    requires
        date_of_timestamp(micros) == Ok::<(int, int, int), ErrorView>((y, m, d)),
        day_number(y, m, d) == day_of_timestamp(micros as int),
    ensures
        interval_view(micros, q, CalendarIntervalUnit::Day, false) matches Ok(v) ==> (
        v matches ValueView::Timestamp(t) && day_of_timestamp(t as int) == day_of_timestamp(
            micros as int,
        ) + q),
{
    match crate::calendar::moved_day((y, m, d), q as int, CalendarIntervalUnit::Day) {
        Ok(n) => {
            lemma_day(n);
            assert(is_date(crate::calendar::FIRST_YEAR as int, 1, 1));
            assert(is_date(crate::calendar::LAST_YEAR as int, 12, 31));
            crate::calendar::lemma_day_bounds(crate::calendar::FIRST_YEAR as int, 1, 1);
            crate::calendar::lemma_day_bounds(crate::calendar::LAST_YEAR as int, 12, 31);
            assert(i64::MIN <= timestamp_of_day(n) <= i64::MAX);
        },
        Err(_) => {},
    }
}

} // verus!
