//! Fixed-point decimal arithmetic on unscaled integers.

use crate::text::{cat3, cat4, digit_text, digits_value, nat_text, unsigned_text};
use crate::value::{outcome, DataType, ErrorView, HtapError};
use vstd::arithmetic::div_mod::{
    lemma_fundamental_div_mod, lemma_fundamental_div_mod_converse,
};
use vstd::prelude::*;

verus! {

/// Ten to the power `n`.
pub open spec fn pow10(n: nat) -> int
    decreases n,
{
    if n == 0 {
        1
    } else {
        10 * pow10((n - 1) as nat)
    }
}

/// The magnitude of a number.
pub open spec fn magnitude(i: int) -> int {
    if i < 0 {
        -i
    } else {
        i
    }
}

/// The integer nearest to `v / d`; halves go away from zero.
pub open spec fn rounded_quotient(v: int, d: int) -> int {
    let m = (2 * magnitude(v) + magnitude(d)) / (2 * magnitude(d));
    if (v < 0) != (d < 0) {
        -m
    } else {
        m
    }
}

/// The refusal of a result that does not fit.
pub open spec fn overflow_view(op: Seq<char>) -> ErrorView {
    ErrorView::InvalidArgument("integer overflow in '"@ + op + "'"@)
}

/// The refusal of a result that does not fit.
pub(crate) fn overflow(op: &str) -> (r: HtapError)
    ensures
        r@ == overflow_view(op@),
{
    HtapError::InvalidArgument(cat3("integer overflow in '", op, "'"))
}

/// Whether a number fits in 128 bits.
pub open spec fn fits_i128(i: int) -> bool {
    i128::MIN <= i <= i128::MAX
}

/// What [`decimal_div_round_half_away`] answers.
pub open spec fn quotient_view(v: int, d: int) -> Result<int, ErrorView> {
    if d == 0 || (v == i128::MIN && d == -1) {
        Err(overflow_view("DECIMAL"@))
    } else {
        Ok(rounded_quotient(v, d))
    }
}

/// An unscaled value with `from` digits behind the point, carried to `to` digits.
pub open spec fn rescale_view(v: int, from: int, to: int) -> Result<int, ErrorView> {
    if from == to {
        Ok(v)
    } else if from < to {
        let scaled = v * pow10((to - from) as nat);
        if pow10((to - from) as nat) > i128::MAX || !fits_i128(scaled) {
            Err(overflow_view("DECIMAL"@))
        } else {
            Ok(scaled)
        }
    } else {
        let factor = pow10((from - to) as nat);
        if factor > i128::MAX {
            Err(overflow_view("DECIMAL"@))
        } else {
            Ok(rounded_quotient(v, factor))
        }
    }
}

/// A power of ten is positive.
pub proof fn lemma_pow10_positive(n: nat)
    ensures
        pow10(n) >= 1,
    decreases n,
{
    if n > 0 {
        lemma_pow10_positive((n - 1) as nat);
    }
}

/// Powers of ten grow.
pub proof fn lemma_pow10_grows(m: nat, n: nat)
    requires
        m <= n,
    ensures
        pow10(m) <= pow10(n),
    decreases n - m,
{
    lemma_pow10_positive(m);
    if m < n {
        lemma_pow10_positive((n - 1) as nat);
        lemma_pow10_grows(m, (n - 1) as nat);
    }
}

/// Rounding by doubling agrees with rounding by comparing the remainder.
proof fn lemma_half_away(a: int, b: int)
    requires
        a >= 0,
        b > 0,
    ensures
        2 * (a % b) < b ==> (2 * a + b) / (2 * b) == a / b,
        2 * (a % b) >= b ==> (2 * a + b) / (2 * b) == a / b + 1,
{
    lemma_fundamental_div_mod(a, b);
    let q = a / b;
    let r = a % b;
    assert(a == b * q + r);
    assert(0 <= r < b) by {
        vstd::arithmetic::div_mod::lemma_mod_bound(a, b);
    }
    if 2 * r < b {
        assert(2 * a + b == (2 * b) * q + (2 * r + b)) by (nonlinear_arith)
            requires
                a == b * q + r,
        ;
        lemma_fundamental_div_mod_converse(2 * a + b, 2 * b, q, 2 * r + b);
    } else {
        assert(2 * a + b == (2 * b) * (q + 1) + (2 * r - b)) by (nonlinear_arith)
            requires
                a == b * q + r,
        ;
        lemma_fundamental_div_mod_converse(2 * a + b, 2 * b, q + 1, 2 * r - b);
    }
}

fn magnitude_of(v: i128) -> (r: u128)
    ensures
        r == magnitude(v as int),
{
    if v < 0 {
        (-(v + 1)) as u128 + 1
    } else {
        v as u128
    }
}

/// Divides, rounding halves away from zero.
pub fn decimal_div_round_half_away(value: i128, divisor: i128) -> (r: Result<i128, HtapError>)
    ensures
        match r {
            Ok(q) => quotient_view(value as int, divisor as int) == Ok::<int, ErrorView>(q as int),
            Err(e) => quotient_view(value as int, divisor as int) == Err::<int, ErrorView>(e@),
        },
{
    if divisor == 0 || (value == i128::MIN && divisor == -1) {
        return Err(overflow("DECIMAL"));
    }
    let a: u128 = magnitude_of(value);
    let b: u128 = magnitude_of(divisor);
    let q: u128 = a / b;
    let rest: u128 = a % b;
    proof {
        lemma_half_away(a as int, b as int);
        vstd::arithmetic::div_mod::lemma_mod_bound(a as int, b as int);
        lemma_fundamental_div_mod(a as int, b as int);
        let (ai, bi, qi, ri) = (a as int, b as int, q as int, rest as int);
        assert(ai == bi * qi + ri);
        assert(b >= 2 ==> 2 * qi <= ai) by (nonlinear_arith)
            requires
                ai == bi * qi + ri,
                ri >= 0,
                bi >= 1,
                qi >= 0,
                b == bi,
        ;
        assert(b == 1 ==> ri == 0 && qi == ai) by (nonlinear_arith)
            requires
                ai == bi * qi + ri,
                0 <= ri < bi,
                b == bi,
        ;
    }
    let m: u128 = if rest < b - rest {
        q
    } else {
        q + 1
    };
    if (value < 0) != (divisor < 0) {
        if m == 0x8000_0000_0000_0000_0000_0000_0000_0000u128 {
            Ok(i128::MIN)
        } else {
            Ok(-(m as i128))
        }
    } else {
        Ok(m as i128)
    }
}

/// Ten to the power `n`, if it fits.
pub(crate) fn power_of_ten(n: u8) -> (r: Option<i128>)
    ensures
        match r {
            Some(f) => f == pow10(n as nat),
            None => pow10(n as nat) > i128::MAX,
        },
{
    let mut f: i128 = 1;
    let mut i: u8 = 0;
    while i < n
        invariant
            i <= n,
            f == pow10(i as nat),
            f >= 1,
        decreases n - i,
    {
        match f.checked_mul(10) {
            Some(g) => {
                f = g;
            },
            None => {
                proof {
                    lemma_pow10_grows((i + 1) as nat, n as nat);
                }
                return None;
            },
        }
        i = i + 1;
    }
    Some(f)
}

/// Carries an unscaled value from one number of digits behind the point to another.
pub fn decimal_rescale(value: i128, from_scale: u8, to_scale: u8) -> (r: Result<i128, HtapError>)
    ensures
        match r {
            Ok(v) => rescale_view(value as int, from_scale as int, to_scale as int) == Ok::<
                int,
                ErrorView,
            >(v as int),
            Err(e) => rescale_view(value as int, from_scale as int, to_scale as int) == Err::<
                int,
                ErrorView,
            >(e@),
        },
{
    if from_scale == to_scale {
        return Ok(value);
    }
    if from_scale < to_scale {
        match power_of_ten(to_scale - from_scale) {
            None => Err(overflow("DECIMAL")),
            Some(f) => match value.checked_mul(f) {
                Some(v) => Ok(v),
                None => Err(overflow("DECIMAL")),
            },
        }
    } else {
        match power_of_ten(from_scale - to_scale) {
            None => Err(overflow("DECIMAL")),
            Some(f) => {
                proof {
                    lemma_pow10_positive((from_scale - to_scale) as nat);
                }
                decimal_div_round_half_away(value, f)
            },
        }
    }
}

/// `n` without its last `k` digits.
pub open spec fn leading_digits(n: nat, k: nat) -> nat
    decreases k,
{
    if k == 0 {
        n
    } else {
        leading_digits(n / 10, (k - 1) as nat)
    }
}

/// The last `k` digits of `n`.
pub open spec fn trailing_digits(n: nat, k: nat) -> Seq<char>
    decreases k,
{
    if k == 0 {
        Seq::empty()
    } else {
        trailing_digits(n / 10, (k - 1) as nat) + digit_text((n % 10) as int)
    }
}

/// A decimal as it is written: all digits behind the point are shown.
pub open spec fn decimal_text(value: int, scale: nat) -> Seq<char> {
    let m = magnitude(value) as nat;
    let front = if value < 0 {
        "-"@ + nat_text(leading_digits(m, scale))
    } else {
        nat_text(leading_digits(m, scale))
    };
    if scale == 0 {
        front
    } else {
        front + "."@ + trailing_digits(m, scale)
    }
}

fn split_digits(n: u64, k: u8) -> (r: (u64, String))
    ensures
        r.0 == leading_digits(n as nat, k as nat),
        r.1@ == trailing_digits(n as nat, k as nat),
    decreases k,
{
    if k == 0 {
        (n, String::new())
    } else {
        let (front, back) = split_digits(n / 10, k - 1);
        let last = unsigned_text(n % 10);
        (front, back.concat(last.as_str()))
    }
}

/// A decimal as it is written.
pub fn decimal_to_text(value: i64, scale: u8) -> (r: String)
    ensures
        r@ == decimal_text(value as int, scale as nat),
{
    let m: u64 = if value < 0 {
        (-(value as i128)) as u64
    } else {
        value as u64
    };
    let (front, back) = split_digits(m, scale);
    let shown = unsigned_text(front);
    let whole = if value < 0 {
        crate::text::cat2("-", shown.as_str())
    } else {
        shown
    };
    if scale == 0 {
        whole
    } else {
        cat3(whole.as_str(), ".", back.as_str())
    }
}

/// What [`check_decimal_precision`] answers.
pub open spec fn precision_check(value: i64, precision: u8, scale: u8) -> Result<i64, ErrorView> {
    if magnitude(value as int) < pow10(precision as nat) {
        Ok(value)
    } else {
        Err(
            ErrorView::InvalidArgument(
                "value "@ + decimal_text(value as int, scale as nat) + " is out of range for "@
                    + (DataType::Decimal { precision, scale }).shown(),
            ),
        )
    }
}

/// Refuses an unscaled value with more than `precision` digits.
pub fn check_decimal_precision(value: i64, precision: u8, scale: u8) -> (r: Result<i64, HtapError>)
    ensures
        outcome(r) == precision_check(value, precision, scale),
{
    let fits = match power_of_ten(precision) {
        Some(f) => {
            let m: i128 = if value < 0 {
                -(value as i128)
            } else {
                value as i128
            };
            m < f
        },
        None => true,
    };
    if fits {
        Ok(value)
    } else {
        let shown = decimal_to_text(value, scale);
        let kind = DataType::Decimal { precision, scale }.text();
        Err(
            HtapError::InvalidArgument(
                cat4("value ", shown.as_str(), " is out of range for ", kind.as_str()),
            ),
        )
    }
}

/// The point in a numeral: the first `.`, if there is one, from `i` on.
pub open spec fn point_from(s: Seq<char>, i: int) -> int
    decreases s.len() - i,
{
    if i < 0 || i >= s.len() {
        s.len() as int
    } else if s[i] == '.' {
        i
    } else {
        point_from(s, i + 1)
    }
}

/// The digits of a numeral up to `scale` digits behind the point, missing ones taken as zero.
pub open spec fn kept_value(whole: Seq<char>, fraction: Seq<char>, scale: nat) -> int
    decreases scale,
{
    if fraction.len() >= scale {
        digits_value(whole + fraction.take(scale as int))
    } else {
        10 * kept_value(whole, fraction, (scale - 1) as nat)
    }
}

/// The magnitude a numeral without sign denotes in units of `10^-scale`; the first dropped digit
/// decides the rounding.
pub open spec fn scaled_magnitude(body: Seq<char>, scale: nat) -> Option<int> {
    let p = point_from(body, 0);
    let whole = body.take(p);
    let fraction = if p < body.len() {
        body.skip(p + 1)
    } else {
        Seq::empty()
    };
    if whole.len() + fraction.len() == 0 || !crate::text::all_digits(whole)
        || !crate::text::all_digits(fraction) {
        None
    } else {
        let up: int = if fraction.len() > scale && fraction[scale as int] >= '5' {
            1
        } else {
            0
        };
        Some(kept_value(whole, fraction, scale) + up)
    }
}

/// The number a numeral denotes in units of `10^-scale`, rounded half away from zero.
pub open spec fn scaled_value(text: Seq<char>, scale: nat) -> Option<int> {
    if text.len() > 0 && text[0] == '-' {
        match scaled_magnitude(text.skip(1), scale) {
            Some(m) => Some(-m),
            None => None,
        }
    } else if text.len() > 0 && text[0] == '+' {
        scaled_magnitude(text.skip(1), scale)
    } else {
        scaled_magnitude(text, scale)
    }
}

/// What [`parse_decimal_text`] answers.
pub open spec fn decimal_parse(text: Seq<char>, scale: nat) -> Result<int, ErrorView> {
    match scaled_value(text, scale) {
        Some(v) if -i128::MAX <= v <= i128::MAX => Ok(v),
        _ => Err(ErrorView::InvalidArgument("invalid DECIMAL value '"@ + text + "'"@)),
    }
}

fn find_point(s: &str, n: usize, start: usize) -> (r: usize)
    requires
        n == s@.len(),
        start <= n,
    ensures
        start <= r <= n,
        r - start == point_from(s@.skip(start as int), 0),
{
    let ghost body = s@.skip(start as int);
    let mut i: usize = start;
    while i < n
        invariant
            n == s@.len(),
            start <= i <= n,
            body == s@.skip(start as int),
            point_from(body, 0) == point_from(body, i - start),
        decreases n - i,
    {
        assert(body[i - start] == s@[i as int]);
        if s.get_char(i) == '.' {
            return i;
        }
        i = i + 1;
    }
    n
}

/// Appends the digits `from..to` of a text to an accumulated number.
fn accumulate(s: &str, from: usize, to: usize, start: i128, Ghost(prefix): Ghost<Seq<char>>) -> (r:
    Option<i128>)
    requires
        from <= to <= s@.len(),
        start >= 0,
        start == digits_value(prefix),
        crate::text::all_digits(s@.subrange(from as int, to as int)),
    ensures
        match r {
            Some(v) => v >= 0 && v == digits_value(prefix + s@.subrange(from as int, to as int)),
            None => digits_value(prefix + s@.subrange(from as int, to as int)) > i128::MAX,
        },
{
    let mut v: i128 = start;
    let mut i: usize = from;
    let ghost all = s@.subrange(from as int, to as int);
    assert(prefix + all.take(0) =~= prefix);
    while i < to
        invariant
            from <= i <= to <= s@.len(),
            all == s@.subrange(from as int, to as int),
            crate::text::all_digits(all),
            v >= 0,
            v == digits_value(prefix + all.take(i - from)),
        decreases to - i,
    {
        let c = s.get_char(i);
        let ghost now = prefix + all.take(i - from);
        let ghost next = prefix + all.take(i + 1 - from);
        proof {
            assert(all[i - from] == c);
            assert(next.drop_last() =~= now);
            assert(next.last() == c);
        }
        let d: i128 = (c as u32 - 48) as i128;
        let wider = match v.checked_mul(10) {
            Some(w) => w.checked_add(d),
            None => None,
        };
        match wider {
            Some(w) => {
                v = w;
            },
            None => {
                proof {
                    assert(digits_value(next) > i128::MAX);
                    lemma_more_digits(prefix, all, i + 1 - from);
                }
                return None;
            },
        }
        i = i + 1;
    }
    assert(all.take(to - from) =~= all);
    Some(v)
}

/// More digits never make a number smaller.
proof fn lemma_more_digits(prefix: Seq<char>, all: Seq<char>, k: int)
    requires
        0 <= k <= all.len(),
        crate::text::all_digits(all),
        digits_value(prefix + all.take(k)) >= 0,
    ensures
        digits_value(prefix + all) >= digits_value(prefix + all.take(k)),
    decreases all.len() - k,
{
    if k == all.len() {
        assert(all.take(k) =~= all);
    } else {
        let now = prefix + all.take(k);
        let next = prefix + all.take(k + 1);
        assert(next.drop_last() =~= now);
        assert(next.last() == all[k]);
        lemma_more_digits(prefix, all, k + 1);
    }
}

/// Multiplies by ten as often as digits are missing.
fn pad(v: i128, have: usize, scale: u8, Ghost(whole): Ghost<Seq<char>>, Ghost(fraction): Ghost<
    Seq<char>,
>) -> (r: Option<i128>)
    requires
        v >= 0,
        have == fraction.len(),
        have <= scale,
        v == digits_value(whole + fraction),
    ensures
        match r {
            Some(w) => w >= 0 && w == kept_value(whole, fraction, scale as nat),
            None => kept_value(whole, fraction, scale as nat) > i128::MAX,
        },
{
    let mut w: i128 = v;
    let mut k: usize = have;
    assert(fraction.take(have as int) =~= fraction);
    while k < scale as usize
        invariant
            have <= k <= scale,
            have == fraction.len(),
            w >= 0,
            w == kept_value(whole, fraction, k as nat),
        decreases scale - k,
    {
        match w.checked_mul(10) {
            Some(x) => {
                w = x;
            },
            None => {
                proof {
                    assert(kept_value(whole, fraction, (k + 1) as nat) > i128::MAX);
                    lemma_kept_grows(whole, fraction, (k + 1) as nat, scale as nat);
                }
                return None;
            },
        }
        k = k + 1;
    }
    Some(w)
}

proof fn lemma_kept_grows(whole: Seq<char>, fraction: Seq<char>, a: nat, b: nat)
    requires
        fraction.len() < a <= b,
        kept_value(whole, fraction, a) >= 0,
    ensures
        kept_value(whole, fraction, b) >= kept_value(whole, fraction, a),
    decreases b,
{
    if a < b {
        lemma_kept_grows(whole, fraction, a, (b - 1) as nat);
    }
}

/// Digits denote no negative number.
proof fn lemma_digits_nonneg(s: Seq<char>)
    requires
        crate::text::all_digits(s),
    ensures
        digits_value(s) >= 0,
    decreases s.len(),
{
    if s.len() > 0 {
        assert(crate::text::all_digits(s.drop_last())) by {
            assert forall|i: int| 0 <= i < s.drop_last().len() implies '0' <= #[trigger] s.drop_last()[i]
                && s.drop_last()[i] <= '9' by {
                assert(s.drop_last()[i] == s[i]);
            }
        }
        assert('0' <= s[s.len() - 1]);
        lemma_digits_nonneg(s.drop_last());
    }
}

/// Whether the characters `from..to` of a text are digits.
fn digits_between(s: &str, from: usize, to: usize) -> (r: bool)
    requires
        from <= to <= s@.len(),
    ensures
        r == crate::text::all_digits(s@.subrange(from as int, to as int)),
{
    let ghost part = s@.subrange(from as int, to as int);
    let mut i: usize = from;
    while i < to
        invariant
            from <= i <= to <= s@.len(),
            part == s@.subrange(from as int, to as int),
            forall|j: int| 0 <= j < i - from ==> '0' <= #[trigger] part[j] && part[j] <= '9',
        decreases to - i,
    {
        let c = s.get_char(i);
        assert(part[i - from] == c);
        if c < '0' || c > '9' {
            return false;
        }
        i = i + 1;
    }
    true
}

/// The magnitude of the numeral that starts at `start`.
fn parse_magnitude(s: &str, n: usize, start: usize, scale: u8) -> (r: Option<i128>)
    requires
        n == s@.len(),
        start <= n,
    ensures
        match r {
            Some(v) => v >= 0 && scaled_magnitude(s@.skip(start as int), scale as nat) == Some(
                v as int,
            ),
            None => match scaled_magnitude(s@.skip(start as int), scale as nat) {
                Some(m) => m > i128::MAX,
                None => true,
            },
        },
{
    let ghost body = s@.skip(start as int);
    let p: usize = find_point(s, n, start);
    let from: usize = if p < n {
        p + 1
    } else {
        n
    };
    let ghost whole = body.take(p - start);
    let ghost fraction = if p < n {
        body.skip(p - start + 1)
    } else {
        Seq::empty()
    };
    proof {
        assert(whole =~= s@.subrange(start as int, p as int));
        assert(fraction =~= s@.subrange(from as int, n as int));
        assert(body.len() == n - start);
    }
    if p == start && from == n {
        return None;
    }
    if !digits_between(s, start, p) || !digits_between(s, from, n) {
        return None;
    }
    let have: usize = n - from;
    let kept: usize = if have > scale as usize {
        scale as usize
    } else {
        have
    };
    let ghost part = s@.subrange(from as int, from + kept);
    proof {
        assert(Seq::<char>::empty() + whole =~= whole);
        assert(part =~= fraction.take(kept as int));
        assert(crate::text::all_digits(part)) by {
            assert forall|i: int| 0 <= i < part.len() implies '0' <= #[trigger] part[i] && part[i]
                <= '9' by {
                assert(part[i] == fraction[i]);
            }
        }
        lemma_digits_nonneg(whole);
        lemma_digits_nonneg(part);
    }
    let front = accumulate(s, start, p, 0, Ghost(Seq::empty()));
    match front {
        None => {
            proof {
                lemma_more_digits(whole, part, 0);
                assert(whole + part.take(0) =~= whole);
                assert(digits_value(whole + part) > i128::MAX);
                if have >= scale {
                    assert(kept_value(whole, fraction, scale as nat) == digits_value(whole + part));
                } else {
                    assert(part =~= fraction);
                    assert(fraction.take(have as int) =~= fraction);
                    assert(kept_value(whole, fraction, have as nat) == digits_value(
                        whole + fraction,
                    ));
                    lemma_kept_from(whole, fraction, scale as nat);
                }
            }
            None
        },
        Some(v) => {
            let more = accumulate(s, from, from + kept, v, Ghost(whole));
            match more {
                None => {
                    proof {
                        if have >= scale {
                            assert(kept_value(whole, fraction, scale as nat) == digits_value(
                                whole + part,
                            ));
                        } else {
                            assert(part =~= fraction);
                            lemma_kept_from(whole, fraction, scale as nat);
                        }
                    }
                    None
                },
                Some(w) => {
                    if have > scale as usize {
                        let c = s.get_char(from + scale as usize);
                        assert(c == fraction[scale as int]);
                        assert(kept_value(whole, fraction, scale as nat) == digits_value(
                            whole + part,
                        ));
                        if c >= '5' {
                            w.checked_add(1)
                        } else {
                            Some(w)
                        }
                    } else {
                        assert(part =~= fraction);
                        pad(w, have, scale, Ghost(whole), Ghost(fraction))
                    }
                },
            }
        },
    }
}

proof fn lemma_kept_from(whole: Seq<char>, fraction: Seq<char>, scale: nat)
    requires
        fraction.len() <= scale,
        digits_value(whole + fraction) >= 0,
    ensures
        kept_value(whole, fraction, scale) >= digits_value(whole + fraction),
    decreases scale,
{
    if fraction.len() == scale {
        assert(fraction.take(scale as int) =~= fraction);
    } else {
        lemma_kept_from(whole, fraction, (scale - 1) as nat);
    }
}

/// Reads a numeral in units of `10^-scale`, rounding half away from zero. Exponents are refused.
pub fn parse_decimal_text(text: &str, scale: u8) -> (r: Result<i128, HtapError>)
    ensures
        match r {
            Ok(v) => decimal_parse(text@, scale as nat) == Ok::<int, ErrorView>(v as int),
            Err(e) => decimal_parse(text@, scale as nat) == Err::<int, ErrorView>(e@),
        },
{
    let n: usize = text.unicode_len();
    let mut start: usize = 0;
    let mut negative = false;
    if n > 0 {
        let c = text.get_char(0);
        if c == '-' {
            start = 1;
            negative = true;
        } else if c == '+' {
            start = 1;
        }
    }
    assert(text@.skip(0) =~= text@);
    match parse_magnitude(text, n, start, scale) {
        Some(v) => if negative {
            Ok(-v)
        } else {
            Ok(v)
        },
        None => Err(HtapError::InvalidArgument(cat3("invalid DECIMAL value '", text, "'"))),
    }
}

} // verus!
