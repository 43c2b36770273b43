//! Calendar dates of timestamps, and calendar intervals.

use chrono::Datelike;
use crate::decimal::{overflow, overflow_view};
use crate::expr::CalendarIntervalUnit;
use crate::text::{cat3, owned};
use crate::value::{outcome, ErrorView, HtapError, Value, ValueView};
use vstd::prelude::*;

verus! {

/// Microseconds of a day.
pub const DAY_MICROS: i64 = 86_400_000_000;

/// The day number of the Unix epoch, counted from January 1 of year 1 as day 1.
pub const EPOCH_DAY: i64 = 719_163;

/// The first year of the calendar.
pub const FIRST_YEAR: i32 = -262_143;

/// The last year of the calendar.
pub const LAST_YEAR: i32 = 262_142;

/// How dates are written.
pub const DATE_FORMAT: &'static str = "%Y-%m-%d";

/// Whether a year has a leap day.
pub open spec fn leap(y: int) -> bool {
    y % 4 == 0 && (y % 100 != 0 || y % 400 == 0)
}

/// The number of days of a month.
pub open spec fn days_in_month(y: int, m: int) -> int {
    if m == 2 {
        if leap(y) {
            29
        } else {
            28
        }
    } else if m == 4 || m == 6 || m == 9 || m == 11 {
        30
    } else {
        31
    }
}

/// The number of days of a year before a month.
pub open spec fn days_before_month(y: int, m: int) -> int
    decreases m,
{
    if m <= 1 {
        0
    } else {
        days_before_month(y, m - 1) + days_in_month(y, m - 1)
    }
}

/// The number of days before a year, counted from year 1.
pub open spec fn days_before_year(y: int) -> int {
    365 * (y - 1) + (y - 1) / 4 - (y - 1) / 100 + (y - 1) / 400
}

/// The day number of a date in the proleptic Gregorian calendar.
pub open spec fn day_number(y: int, m: int, d: int) -> int {
    days_before_year(y) + days_before_month(y, m) + d
}

/// Whether a day exists.
pub open spec fn is_date(y: int, m: int, d: int) -> bool {
    1 <= m <= 12 && 1 <= d <= days_in_month(y, m)
}

/// Whether a year belongs to the calendar.
pub open spec fn in_calendar(y: int) -> bool {
    FIRST_YEAR <= y <= LAST_YEAR
}

/// The date of a day number.
pub open spec fn date_of_day(n: int) -> (int, int, int) {
    choose|t: (int, int, int)| is_date(t.0, t.1, t.2) && #[trigger] day_number(t.0, t.1, t.2) == n
}

/// Whether a day number belongs to the calendar.
pub open spec fn day_in_calendar(n: int) -> bool {
    day_number(FIRST_YEAR as int, 1, 1) <= n <= day_number(LAST_YEAR as int, 12, 31)
}

/// The day that a text names in the given format.
pub uninterp spec fn parsed_date(text: Seq<char>, format: Seq<char>) -> Option<(i32, u32, u32)>;

/// `NaiveDate::from_ymd_opt` with `Datelike::num_days_from_ce`: the day number of an existing
/// date within the calendar.
#[verifier::external_body]
fn days_from_ymd(year: i32, month: u32, day: u32) -> (r: Option<i32>)
    ensures
        match r {
            Some(n) => in_calendar(year as int) && is_date(year as int, month as int, day as int)
                && n == day_number(year as int, month as int, day as int),
            None => !(in_calendar(year as int) && is_date(year as int, month as int, day as int)),
        },
{
    chrono::NaiveDate::from_ymd_opt(year, month, day).map(|d| d.num_days_from_ce())
}

/// `NaiveDate::from_num_days_from_ce_opt`: the date of a day number within the calendar.
#[verifier::external_body]
fn ymd_from_days(days: i32) -> (r: Option<(i32, u32, u32)>)
    ensures
        match r {
            Some(t) => day_in_calendar(days as int) && in_calendar(t.0 as int) && is_date(
                t.0 as int,
                t.1 as int,
                t.2 as int,
            ) && day_number(t.0 as int, t.1 as int, t.2 as int) == days,
            None => !day_in_calendar(days as int),
        },
{
    chrono::NaiveDate::from_num_days_from_ce_opt(days).map(|d| (d.year(), d.month(), d.day()))
}

/// `NaiveDate::parse_from_str`: the date that a text names in a format, an existing date within
/// the calendar. Which texts name a date is chrono's grammar of the format.
#[verifier::external_body]
fn ymd_from_text(text: &str, format: &str) -> (r: Option<(i32, u32, u32)>)
    ensures
        r == parsed_date(text@, format@),
        match r {
            Some(t) => in_calendar(t.0 as int) && is_date(t.0 as int, t.1 as int, t.2 as int),
            None => true,
        },
{
    chrono::NaiveDate::parse_from_str(text, format).ok().map(|d| (d.year(), d.month(), d.day()))
}

/// The months of a year cover it.
proof fn lemma_months(y: int, m: int)
    requires
        1 <= m <= 13,
    ensures
        0 <= days_before_month(y, m),
        days_before_month(y, m) <= if m <= 12 {
            335int
        } else {
            366int
        },
        days_before_month(y, 13) == if leap(y) {
            366int
        } else {
            365int
        },
{
    reveal_with_fuel(days_before_month, 14);
}

/// Months follow each other.
proof fn lemma_months_grow(y: int, m1: int, m2: int)
    requires
        1 <= m1 < m2 <= 13,
    ensures
        days_before_month(y, m1) + days_in_month(y, m1) <= days_before_month(y, m2),
    decreases m2,
{
    if m1 + 1 < m2 {
        lemma_months_grow(y, m1, m2 - 1);
    }
}

/// A quotient grows by one where the next number is a multiple of the divisor.
proof fn lemma_next_quotient(z: int, k: int)
    requires
        k == 4 || k == 100 || k == 400,
    ensures
        (z + 1) / k == z / k + (if (z + 1) % k == 0 {
            1int
        } else {
            0int
        }),
{
    if k == 4 {
    } else if k == 100 {
    } else {
    }
}

/// A year begins where the one before it ends.
proof fn lemma_next_year(y: int)
    ensures
        days_before_year(y) + days_before_month(y, 13) == days_before_year(y + 1),
{
    lemma_months(y, 13);
    lemma_next_quotient(y - 1, 4);
    lemma_next_quotient(y - 1, 100);
    lemma_next_quotient(y - 1, 400);
    assert(y % 100 == 0 ==> y % 4 == 0);
    assert(y % 400 == 0 ==> y % 100 == 0);
}

/// Years follow each other.
proof fn lemma_years_grow(y1: int, y2: int)
    requires
        y1 < y2,
    ensures
        days_before_year(y1) + days_before_month(y1, 13) <= days_before_year(y2),
    decreases y2 - y1,
{
    lemma_next_year(y2 - 1);
    if y1 + 1 < y2 {
        lemma_years_grow(y1, y2 - 1);
    }
}

/// A later date has a greater day number.
proof fn lemma_dates_ordered(a: (int, int, int), b: (int, int, int))
    requires
        is_date(a.0, a.1, a.2),
        is_date(b.0, b.1, b.2),
        a.0 < b.0 || (a.0 == b.0 && (a.1 < b.1 || (a.1 == b.1 && a.2 < b.2))),
    ensures
        day_number(a.0, a.1, a.2) < day_number(b.0, b.1, b.2),
{
    lemma_months(b.0, b.1);
    lemma_months_grow(a.0, a.1, 13);
    if a.0 < b.0 {
        lemma_years_grow(a.0, b.0);
    } else if a.1 < b.1 {
        lemma_months_grow(a.0, a.1, b.1);
    }
}

/// A day number belongs to one date.
pub proof fn date_of_day_is_unique(y: int, m: int, d: int)
    requires
        is_date(y, m, d),
    ensures
        date_of_day(day_number(y, m, d)) == (y, m, d),
{
    let n = day_number(y, m, d);
    let a = (y, m, d);
    assert(is_date(a.0, a.1, a.2) && day_number(a.0, a.1, a.2) == n);
    let t = date_of_day(n);
    assert(is_date(t.0, t.1, t.2) && day_number(t.0, t.1, t.2) == n);
    if t != a {
        if t.0 < a.0 || (t.0 == a.0 && (t.1 < a.1 || (t.1 == a.1 && t.2 < a.2))) {
            lemma_dates_ordered(t, a);
        } else {
            lemma_dates_ordered(a, t);
        }
    }
}

/// Day numbers of the calendar are small.
pub proof fn lemma_day_bounds(y: int, m: int, d: int)
    requires
        in_calendar(y),
        is_date(y, m, d),
    ensures
        -96_000_000 < day_number(y, m, d) < 96_000_000,
        day_in_calendar(day_number(y, m, d)),
{
    lemma_months(y, m);
    lemma_months_grow(y, m, 13);
    let first = (FIRST_YEAR as int, 1int, 1int);
    let last = (LAST_YEAR as int, 12int, 31int);
    let t = (y, m, d);
    if t != first {
        lemma_dates_ordered(first, t);
    }
    if t != last {
        lemma_dates_ordered(t, last);
    }
}

/// The day number of a timestamp.
pub open spec fn day_of_timestamp(micros: int) -> int {
    micros / (DAY_MICROS as int) + EPOCH_DAY
}

/// The midnight of a day, as a timestamp.
pub open spec fn timestamp_of_day(n: int) -> int {
    (n - EPOCH_DAY) * DAY_MICROS
}

/// The date of a timestamp, or its refusal.
pub open spec fn date_of_timestamp(micros: i64) -> Result<(int, int, int), ErrorView> {
    let n = day_of_timestamp(micros as int);
    if day_in_calendar(n) {
        Ok(date_of_day(n))
    } else {
        Err(ErrorView::InvalidArgument("timestamp is out of range"@))
    }
}

fn floor_div(x: i128, d: i128) -> (r: i128)
    requires
        0 < d <= 86_400_000_000,
        -0x1_0000_0000_0000_0000 < x < 0x1_0000_0000_0000_0000,
    ensures
        r == x as int / d as int,
        -0x1_0000_0000_0000_0000 <= r <= 0x1_0000_0000_0000_0000,
{
    if x >= 0 {
        let q: i128 = x / d;
        proof {
            vstd::arithmetic::div_mod::lemma_div_is_ordered_by_denominator(x as int, 1, d as int);
            vstd::arithmetic::div_mod::lemma_div_pos_is_pos(x as int, d as int);
        }
        q
    } else {
        let m: i128 = -x + (d - 1);
        let q: i128 = m / d;
        proof {
            let (xi, di, mi, qi) = (x as int, d as int, m as int, q as int);
            vstd::arithmetic::div_mod::lemma_fundamental_div_mod(mi, di);
            let rest = mi % di;
            vstd::arithmetic::div_mod::lemma_mod_bound(mi, di);
            assert(mi == di * qi + rest);
            assert(xi == di * (-qi) + (di - 1 - rest)) by (nonlinear_arith)
                requires
                    mi == di * qi + rest,
                    mi == -xi + (di - 1),
            ;
            vstd::arithmetic::div_mod::lemma_fundamental_div_mod_converse(
                xi,
                di,
                -qi,
                di - 1 - rest,
            );
            vstd::arithmetic::div_mod::lemma_div_is_ordered_by_denominator(mi, 1, di);
            vstd::arithmetic::div_mod::lemma_div_pos_is_pos(mi, di);
            assert(qi <= -xi) by (nonlinear_arith)
                requires
                    mi == di * qi + rest,
                    mi == -xi + (di - 1),
                    0 <= rest,
                    di >= 1,
                    -xi >= 1,
            ;
        }
        -q
    }
}

/// The year, month and day of a timestamp.
pub fn timestamp_date(micros: i64) -> (r: Result<(i32, u32, u32), HtapError>)
    ensures
        match r {
            Ok(t) => date_of_timestamp(micros) == Ok::<(int, int, int), ErrorView>(
                (t.0 as int, t.1 as int, t.2 as int),
            ) && in_calendar(t.0 as int) && is_date(t.0 as int, t.1 as int, t.2 as int)
                && day_number(t.0 as int, t.1 as int, t.2 as int) == day_of_timestamp(
                micros as int,
            ),
            Err(e) => date_of_timestamp(micros) == Err::<(int, int, int), ErrorView>(e@),
        },
{
    let n: i128 = floor_div(micros as i128, DAY_MICROS as i128) + EPOCH_DAY as i128;
    assert(DAY_MICROS as i128 as int == DAY_MICROS as int);
    proof {
        lemma_day_bounds(FIRST_YEAR as int, 1, 1);
        lemma_day_bounds(LAST_YEAR as int, 12, 31);
    }
    if n < -96_000_000 || n > 96_000_000 {
        return Err(HtapError::InvalidArgument(owned("timestamp is out of range")));
    }
    match ymd_from_days(n as i32) {
        Some(t) => {
            proof {
                date_of_day_is_unique(t.0 as int, t.1 as int, t.2 as int);
            }
            Ok(t)
        },
        None => Err(HtapError::InvalidArgument(owned("timestamp is out of range"))),
    }
}

/// The timestamp of a written date, or its refusal.
pub open spec fn timestamp_of_text(text: Seq<char>) -> Result<i64, ErrorView> {
    match parsed_date(text, DATE_FORMAT@) {
        Some(t) => Ok(
            timestamp_of_day(day_number(t.0 as int, t.1 as int, t.2 as int)) as i64,
        ),
        None => Err(ErrorView::InvalidArgument("invalid date '"@ + text + "'"@)),
    }
}

fn midnight(n: i32) -> (r: i64)
    requires
        -96_000_000 <= n <= 96_000_000,
    ensures
        r == timestamp_of_day(n as int),
{
    (n as i64 - EPOCH_DAY) * DAY_MICROS
}

/// The midnight of a date written as year, month and day.
pub fn parse_date_to_timestamp_micros(text: &str) -> (r: Result<i64, HtapError>)
    ensures
        outcome(r) == timestamp_of_text(text@),
{
    match ymd_from_text(text, DATE_FORMAT) {
        Some(t) => match days_from_ymd(t.0, t.1, t.2) {
            Some(n) => {
                proof {
                    lemma_day_bounds(t.0 as int, t.1 as int, t.2 as int);
                }
                Ok(midnight(n))
            },
            None => Err(HtapError::InvalidArgument(cat3("invalid date '", text, "'"))),
        },
        None => Err(HtapError::InvalidArgument(cat3("invalid date '", text, "'"))),
    }
}

/// The refusal of a date outside the calendar.
pub open spec fn out_of_range() -> ErrorView {
    ErrorView::InvalidArgument("calendar interval result is out of range"@)
}

fn out_of_range_error() -> (r: HtapError)
    ensures
        r@ == out_of_range(),
{
    HtapError::InvalidArgument(owned("calendar interval result is out of range"))
}

/// The day number of a date moved by a number of months; the day is held to the length of the
/// month it comes to.
pub open spec fn months_later(y: int, m: int, d: int, months: int) -> Result<int, ErrorView> {
    let index = y * 12 + (m - 1) + months;
    let year = index / 12;
    let month = index % 12 + 1;
    if index < i64::MIN || index > i64::MAX || year < FIRST_YEAR || year > LAST_YEAR || (month == 12
        && year == LAST_YEAR) {
        Err(out_of_range())
    } else {
        let last = days_in_month(year, month);
        Ok(
            day_number(
                year,
                month,
                if d <= last {
                    d
                } else {
                    last
                },
            ),
        )
    }
}

/// The day number of a date moved by a calendar interval.
pub open spec fn moved_day(
    date: (int, int, int),
    quantity: int,
    unit: CalendarIntervalUnit,
) -> Result<int, ErrorView> {
    match unit {
        CalendarIntervalUnit::Day => {
            let n = day_number(date.0, date.1, date.2) + quantity;
            if day_in_calendar(n) {
                Ok(n)
            } else {
                Err(out_of_range())
            }
        },
        CalendarIntervalUnit::Month => months_later(date.0, date.1, date.2, quantity),
        CalendarIntervalUnit::Year => if i64::MIN <= quantity * 12 <= i64::MAX {
            months_later(date.0, date.1, date.2, quantity * 12)
        } else {
            Err(overflow_view("INTERVAL"@))
        },
    }
}

/// What a timestamp becomes when a calendar interval is added to it or, if `negated`, taken off:
/// the midnight of the moved date.
pub open spec fn interval_view(
    micros: i64,
    quantity: i64,
    unit: CalendarIntervalUnit,
    negated: bool,
) -> Result<ValueView, ErrorView> {
    if negated && quantity == i64::MIN {
        Err(overflow_view("INTERVAL"@))
    } else {
        let q: int = if negated {
            -quantity
        } else {
            quantity as int
        };
        match date_of_timestamp(micros) {
            Err(e) => Err(e),
            Ok(date) => match moved_day(date, q, unit) {
                Err(e) => Err(e),
                Ok(n) => Ok(ValueView::Timestamp(timestamp_of_day(n) as i64)),
            },
        }
    }
}

/// The first day after a month is one past its last day.
proof fn lemma_next_month(y: int, m: int)
    requires
        1 <= m <= 12,
    ensures
        m < 12 ==> day_number(y, m + 1, 1) == day_number(y, m, days_in_month(y, m)) + 1,
        m == 12 ==> day_number(y + 1, 1, 1) == day_number(y, 12, 31) + 1,
{
    if m == 12 {
        lemma_next_year(y);
        assert(days_before_month(y, 13) == days_before_month(y, 12) + days_in_month(y, 12));
        assert(days_before_month(y + 1, 1) == 0);
    }
}

fn add_months(date: (i32, u32, u32), months: i64) -> (r: Result<i32, HtapError>)
    requires
        in_calendar(date.0 as int),
        is_date(date.0 as int, date.1 as int, date.2 as int),
    ensures
        match r {
            Ok(n) => months_later(
                date.0 as int,
                date.1 as int,
                date.2 as int,
                months as int,
            ) == Ok::<int, ErrorView>(n as int) && -96_000_000 <= n <= 96_000_000,
            Err(e) => months_later(
                date.0 as int,
                date.1 as int,
                date.2 as int,
                months as int,
            ) == Err::<int, ErrorView>(e@),
        },
{
    let index: i128 = date.0 as i128 * 12 + (date.1 as i128 - 1) + months as i128;
    if index < i64::MIN as i128 || index > i64::MAX as i128 {
        return Err(out_of_range_error());
    }
    let year: i128 = floor_div(index, 12);
    assert(index - 12 * year == index as int % 12) by {
        vstd::arithmetic::div_mod::lemma_fundamental_div_mod(index as int, 12);
    }
    if year < FIRST_YEAR as i128 || year > LAST_YEAR as i128 {
        return Err(out_of_range_error());
    }
    let month: u32 = (index - 12 * year + 1) as u32;
    let y: i32 = year as i32;
    let next = if month == 12 {
        days_from_ymd(y + 1, 1, 1)
    } else {
        days_from_ymd(y, month + 1, 1)
    };
    proof {
        lemma_next_month(y as int, month as int);
        date_of_day_is_unique(y as int, month as int, days_in_month(y as int, month as int));
        lemma_day_bounds(y as int, month as int, days_in_month(y as int, month as int));
    }
    match next {
        None => Err(out_of_range_error()),
        Some(n) => match ymd_from_days(n - 1) {
            None => Err(out_of_range_error()),
            Some(t) => {
                proof {
                    date_of_day_is_unique(t.0 as int, t.1 as int, t.2 as int);
                }
                let day: u32 = if date.2 <= t.2 {
                    date.2
                } else {
                    t.2
                };
                proof {
                    lemma_day_bounds(y as int, month as int, day as int);
                }
                match days_from_ymd(y, month, day) {
                    Some(n) => Ok(n),
                    None => Err(out_of_range_error()),
                }
            },
        },
    }
}

/// Adds a calendar interval to a timestamp, or takes it off.
pub fn add_calendar_interval(
    micros: i64,
    quantity: i64,
    unit: CalendarIntervalUnit,
    negated: bool,
) -> (r: Result<Value, HtapError>)
    ensures
        outcome(r) == interval_view(micros, quantity, unit, negated),
{
    if negated && quantity == i64::MIN {
        return Err(overflow("INTERVAL"));
    }
    let q: i64 = if negated {
        -quantity
    } else {
        quantity
    };
    let date = match timestamp_date(micros) {
        Ok(t) => t,
        Err(e) => {
            return Err(e);
        },
    };
    proof {
        date_of_day_is_unique(date.0 as int, date.1 as int, date.2 as int);
        lemma_day_bounds(date.0 as int, date.1 as int, date.2 as int);
        lemma_day_bounds(FIRST_YEAR as int, 1, 1);
        lemma_day_bounds(LAST_YEAR as int, 12, 31);
    }
    match unit {
        CalendarIntervalUnit::Day => {
            let start: i32 = match days_from_ymd(date.0, date.1, date.2) {
                Some(n) => n,
                None => {
                    return Err(out_of_range_error());
                },
            };
            let n: i128 = start as i128 + q as i128;
            if n < -96_000_000 || n > 96_000_000 {
                return Err(out_of_range_error());
            }
            match ymd_from_days(n as i32) {
                Some(_) => Ok(Value::Timestamp(midnight(n as i32))),
                None => Err(out_of_range_error()),
            }
        },
        CalendarIntervalUnit::Month => match add_months(date, q) {
            Ok(n) => Ok(Value::Timestamp(midnight(n))),
            Err(e) => Err(e),
        },
        CalendarIntervalUnit::Year => match q.checked_mul(12) {
            None => Err(overflow("INTERVAL")),
            Some(months) => match add_months(date, months) {
                Ok(n) => Ok(Value::Timestamp(midnight(n))),
                Err(e) => Err(e),
            },
        },
    }
}

} // verus!
