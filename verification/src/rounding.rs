//! Arithmetic of non-negative doubles, for estimates of cardinality and cost.
//!
//! A finite non-negative double is a multiple of the smallest positive one, its unit. Sums,
//! products and quotients are the doubles nearest to the exact results, and of two that are
//! equally near the even one.

use crate::double::{Double, INFINITY_BITS};
use vstd::arithmetic::div_mod::{
    lemma_fundamental_div_mod, lemma_fundamental_div_mod_converse, lemma_mod_bound,
};
use vstd::arithmetic::mul::{
    lemma_mul_inequality, lemma_mul_is_associative, lemma_mul_is_commutative,
    lemma_mul_is_distributive_add, lemma_mul_is_distributive_sub, lemma_mul_strict_inequality,
};
use vstd::arithmetic::power2::{
    lemma2_to64, lemma2_to64_rest, lemma_pow2_adds, lemma_pow2_pos, lemma_pow2_strictly_increases,
    lemma_pow2_unfold, pow2,
};
use vstd::prelude::*;

verus! {

/// The number of doubles between two powers of two.
pub const FRACTION: u64 = 0x10_0000_0000_0000;

/// How many halvings lead from one to the unit.
pub const UNIT_EXPONENT: u64 = 1074;

/// Whether a double is neither negative nor a NaN. In sums infinity counts as the power of two
/// behind the greatest finite double.
pub open spec fn countable(d: Double) -> bool {
    d.bits <= INFINITY_BITS
}

/// The digits of a double.
pub open spec fn mantissa(d: Double) -> int {
    if d.bits < FRACTION {
        d.bits as int
    } else {
        d.bits % FRACTION + FRACTION
    }
}

/// How often the digits of a double are doubled.
pub open spec fn exponent(d: Double) -> nat {
    if d.bits < FRACTION {
        0
    } else {
        (d.bits / FRACTION - 1) as nat
    }
}

/// How many units a double is.
pub open spec fn units(d: Double) -> nat {
    (mantissa(d) * pow2(exponent(d))) as nat
}

/// The integer nearest to a quotient; of two that are equally near the even one.
pub open spec fn nearest_integer(a: nat, b: nat) -> nat {
    let q = a / b;
    let r = a % b;
    if 2 * r > b || (2 * r == b && q % 2 == 1) {
        q + 1
    } else {
        q
    }
}

/// Whether `k` is the number of doublings of a double near `num / den` units.
pub open spec fn scale_is(num: nat, den: nat, k: nat) -> bool {
    num < den * pow2(53 + k) && (k == 0 || den * pow2((52 + k) as nat) <= num)
}

/// The double nearest to `num / den` units.
pub open spec fn nearest(num: nat, den: nat) -> Double {
    let k = choose|k: nat| scale_is(num, den, k);
    let bits = k * FRACTION + nearest_integer(num, den * pow2(k));
    Double {
        bits: if bits >= INFINITY_BITS {
            INFINITY_BITS
        } else {
            bits as u64
        },
    }
}

/// The number of units of one.
pub open spec fn one_in_units() -> nat {
    pow2(UNIT_EXPONENT as nat)
}

/// The double nearest to a count.
pub open spec fn count_double(n: nat) -> Double {
    nearest(n * one_in_units(), 1)
}

/// The sum of two doubles.
pub open spec fn double_sum(a: Double, b: Double) -> Double {
    nearest(units(a) + units(b), 1)
}

/// The product of two doubles. Infinity times zero, which is no number, counts as zero.
pub open spec fn double_product(a: Double, b: Double) -> Double {
    if a.bits == 0 || b.bits == 0 {
        Double { bits: 0 }
    } else if a.bits == INFINITY_BITS || b.bits == INFINITY_BITS {
        Double { bits: INFINITY_BITS }
    } else {
        nearest(units(a) * units(b), one_in_units())
    }
}

/// One divided by a double.
pub open spec fn double_reciprocal(d: Double) -> Double {
    nearest(one_in_units() * one_in_units(), units(d))
}

/// The whole part of a double, held to what `u64` can hold.
pub open spec fn whole_part(d: Double) -> u64 {
    let n = units(d) / one_in_units();
    if n > u64::MAX {
        u64::MAX
    } else {
        n as u64
    }
}

pub proof fn lemma_pow2_le(a: nat, b: nat)
    requires
        a <= b,
    ensures
        pow2(a) <= pow2(b),
{
    if a < b {
        lemma_pow2_strictly_increases(a, b);
    }
}

pub proof fn lemma_nearest(num: nat, den: nat, k: nat)
    requires
        den > 0,
        scale_is(num, den, k),
    ensures
        nearest(num, den) == (Double {
            bits: if k * FRACTION + nearest_integer(num, den * pow2(k)) >= INFINITY_BITS {
                INFINITY_BITS
            } else {
                (k * FRACTION + nearest_integer(num, den * pow2(k))) as u64
            },
        }),
{
    let c = choose|c: nat| scale_is(num, den, c);
    assert(scale_is(num, den, c));
    if c < k {
        lemma_pow2_le(53 + c, (52 + k) as nat);
        lemma_mul_inequality(pow2(53 + c) as int, pow2((52 + k) as nat) as int, den as int);
        lemma_mul_is_commutative(den as int, pow2(53 + c) as int);
        lemma_mul_is_commutative(den as int, pow2((52 + k) as nat) as int);
    }
    if k < c {
        lemma_pow2_le(53 + k, (52 + c) as nat);
        lemma_mul_inequality(pow2(53 + k) as int, pow2((52 + c) as nat) as int, den as int);
        lemma_mul_is_commutative(den as int, pow2(53 + k) as int);
        lemma_mul_is_commutative(den as int, pow2((52 + c) as nat) as int);
    }
}

/// Quotient and remainder, from an equation.
proof fn lemma_quotient(a: nat, b: nat, q: nat, r: nat)
    requires
        a == q * b + r,
        r < b,
    ensures
        a / b == q,
        a % b == r,
{
    lemma_fundamental_div_mod_converse(a as int, b as int, q as int, r as int);
}

proof fn lemma_nearest_integer_scaled(a: nat, b: nat, c: nat)
    requires
        b > 0,
        c > 0,
    ensures
        nearest_integer(a * c, b * c) == nearest_integer(a, b),
{
    let q = a / b;
    let r = a % b;
    lemma_fundamental_div_mod(a as int, b as int);
    lemma_mod_bound(a as int, b as int);
    assert(a * c == q * (b * c) + r * c) by (nonlinear_arith)
        requires
            a == b * q + r,
    ;
    assert(r * c < b * c) by (nonlinear_arith)
        requires
            r < b,
            c > 0,
    ;
    lemma_quotient((a * c) as nat, (b * c) as nat, q, (r * c) as nat);
    assert((2 * (r * c) > b * c) == (2 * r > b)) by (nonlinear_arith)
        requires
            c > 0,
    ;
    assert((2 * (r * c) == b * c) == (2 * r == b)) by (nonlinear_arith)
        requires
            c > 0,
    ;
}

/// An exact quotient is its own nearest integer.
proof fn lemma_nearest_integer_exact(q: nat, b: nat)
    requires
        b > 0,
    ensures
        nearest_integer(q * b, b) == q,
{
    lemma_quotient((q * b) as nat, b, q, 0);
}

pub proof fn lemma_scale_exists(num: nat, den: nat, j: nat) -> (k: nat)
    requires
        den > 0,
        num < den * pow2(53 + j),
    ensures
        scale_is(num, den, k),
    decreases j,
{
    if j == 0 || den * pow2((52 + j) as nat) <= num {
        j
    } else {
        lemma_scale_exists(num, den, (j - 1) as nat)
    }
}

proof fn lemma_below_power(n: nat)
    ensures
        n < pow2(n),
    decreases n,
{
    if n == 0 {
        lemma2_to64();
    } else {
        lemma_below_power((n - 1) as nat);
        lemma_pow2_unfold(n);
    }
}

/// The nearest double depends on the ratio alone.
proof fn lemma_nearest_ratio(num: nat, den: nat, c: nat)
    requires
        den > 0,
        c > 0,
    ensures
        nearest(num * c, den * c) == nearest(num, den),
{
    lemma_below_power(num);
    lemma_pow2_le(num, 53 + num);
    assert(num < den * pow2(53 + num)) by (nonlinear_arith)
        requires
            num < pow2(53 + num),
            den > 0,
    ;
    let k = lemma_scale_exists(num, den, num);
    lemma_nearest(num, den, k);
    let p = pow2(53 + k);
    assert(num * c < (den * c) * p) by (nonlinear_arith)
        requires
            num < den * p,
            c > 0,
    ;
    if k > 0 {
        let h = pow2((52 + k) as nat);
        assert((den * c) * h <= num * c) by (nonlinear_arith)
            requires
                den * h <= num,
                c > 0,
        ;
    }
    assert(scale_is((num * c) as nat, (den * c) as nat, k));
    assert(den * c > 0) by (nonlinear_arith)
        requires
            den > 0,
            c > 0,
    ;
    lemma_nearest((num * c) as nat, (den * c) as nat, k);
    lemma_pow2_pos(k);
    let w = pow2(k);
    assert(den * w > 0) by (nonlinear_arith)
        requires
            den > 0,
            w > 0,
    ;
    lemma_nearest_integer_scaled(num, (den * w) as nat, c);
    assert((den * c) * w == (den * w) * c) by (nonlinear_arith);
}

/// The double nearest to `m * 2^x` units.
pub open spec fn nearest_scaled(m: nat, x: int) -> Double {
    if x >= 0 {
        nearest(m * pow2(x as nat), 1)
    } else {
        nearest(m, pow2((-x) as nat))
    }
}

fn power_of_two(n: u32) -> (r: u128)
    requires
        n <= 127,
    ensures
        r == pow2(n as nat),
        r > 0,
{
    let mut r: u128 = 1;
    let mut i: u32 = 0;
    proof {
        lemma2_to64();
    }
    while i < n
        invariant
            i <= n <= 127,
            r == pow2(i as nat),
        decreases n - i,
    {
        proof {
            lemma_pow2_unfold((i + 1) as nat);
            lemma_pow2_le((i + 1) as nat, 127);
            lemma_power_bound();
        }
        r = r * 2;
        i = i + 1;
    }
    proof {
        lemma_pow2_pos(n as nat);
    }
    r
}

proof fn lemma_power_bound()
    ensures
        pow2(127) == 0x8000_0000_0000_0000_0000_0000_0000_0000,
        pow2(128) == 0x1_0000_0000_0000_0000_0000_0000_0000_0000,
{
    lemma2_to64();
    lemma2_to64_rest();
    lemma_pow2_adds(64, 63);
    lemma_pow2_adds(64, 64);
    assert(pow2(64) * pow2(63) == 0x8000_0000_0000_0000_0000_0000_0000_0000) by (nonlinear_arith)
        requires
            pow2(64) == 0x1_0000_0000_0000_0000,
            pow2(63) == 0x8000_0000_0000_0000,
    ;
    assert(pow2(64) * pow2(64) == 0x1_0000_0000_0000_0000_0000_0000_0000_0000) by (nonlinear_arith)
        requires
            pow2(64) == 0x1_0000_0000_0000_0000,
    ;
}

/// The number of binary digits.
fn bit_length(m: u128) -> (r: u32)
    requires
        m > 0,
    ensures
        1 <= r <= 128,
        pow2((r - 1) as nat) <= m < pow2(r as nat),
{
    let mut rest: u128 = m;
    let mut l: u32 = 0;
    proof {
        lemma2_to64();
    }
    while rest > 0
        invariant
            m > 0,
            l <= 128,
            pow2(l as nat) * rest <= m,
            m < pow2(l as nat) * (rest + 1),
            l > 0 ==> pow2((l - 1) as nat) <= m,
            l == 0 ==> rest == m,
        decreases rest,
    {
        let ghost p = pow2(l as nat);
        proof {
            lemma_power_bound();
            if l >= 128 {
                lemma_pow2_le(128, l as nat);
                assert(p * rest >= p) by (nonlinear_arith)
                    requires
                        rest >= 1,
                ;
            }
            lemma_pow2_unfold((l + 1) as nat);
            assert(pow2((l + 1) as nat) == 2 * p);
            let h = (rest / 2) as nat;
            assert(2 * p * h <= p * rest) by (nonlinear_arith)
                requires
                    2 * h <= rest,
                    p >= 0,
            ;
            assert(p * (rest + 1) <= 2 * p * (h + 1)) by (nonlinear_arith)
                requires
                    rest + 1 <= 2 * h + 2,
                    p >= 0,
            ;
            assert(p <= p * rest) by (nonlinear_arith)
                requires
                    rest >= 1,
                    p >= 0,
            ;
        }
        rest = rest / 2;
        l = l + 1;
    }
    proof {
        let p = pow2(l as nat);
        assert(p * (rest + 1) == p) by (nonlinear_arith)
            requires
                rest == 0,
        ;
    }
    l
}

/// The nearest integer to `m / 2^s`.
fn round_shifted(m: u128, s: i64) -> (r: u128)
    requires
        s >= 0,
    ensures
        r == nearest_integer(m as nat, pow2(s as nat)),
{
    if s <= 127 {
        let b: u128 = power_of_two(s as u32);
        let q: u128 = m / b;
        let r: u128 = m % b;
        proof {
            lemma_power_bound();
            lemma_pow2_le(s as nat, 127);
            lemma_fundamental_div_mod(m as int, b as int);
        }
        if r > b - r || (r == b - r && q % 2 == 1) {
            proof {
                if q == u128::MAX {
                    assert(b == 1) by (nonlinear_arith)
                        requires
                            m == b * q + r,
                            q == u128::MAX,
                            m <= u128::MAX,
                            b >= 1,
                            r >= 0,
                    ;
                }
            }
            q + 1
        } else {
            q
        }
    } else {
        proof {
            lemma_power_bound();
            lemma_pow2_le(128, s as nat);
            lemma_quotient(m as nat, pow2(s as nat), 0, m as nat);
            if s > 128 {
                lemma_pow2_unfold(129);
                lemma_pow2_le(129, s as nat);
            }
        }
        if s == 128 && m > 0x8000_0000_0000_0000_0000_0000_0000_0000u128 {
            1
        } else {
            0
        }
    }
}

/// The double nearest to `m * 2^x` units.
fn pack(m: u128, x: i64) -> (r: Double)
    requires
        -100_000 <= x <= 100_000,
    ensures
        r == nearest_scaled(m as nat, x as int),
{
    if m == 0 {
        proof {
            lemma2_to64();
            lemma_pow2_pos(53);
            if x >= 0 {
                lemma_nearest(0, 1, 0);
            } else {
                let d = pow2((-x) as nat);
                lemma_pow2_pos((-x) as nat);
                assert(0 < d * pow2(53)) by (nonlinear_arith)
                    requires
                        d > 0,
                        pow2(53) > 0,
                ;
                lemma_nearest(0, d, 0);
                assert(d * pow2(0) == d);
            }
        }
        return Double { bits: 0 };
    }
    let l: i64 = bit_length(m) as i64;
    let k: i64 = if l + x > 53 {
        l + x - 53
    } else {
        0
    };
    let q: u128 = if x >= k {
        proof {
            lemma_pow2_pos((x - k) as nat);
            lemma_exact_bound(m as nat, l as nat, (x - k) as nat);
            lemma_exact_shift(m as nat, x as nat, k as nat);
        }
        m * power_of_two((x - k) as u32)
    } else {
        round_shifted(m, k - x)
    };
    proof {
        lemma_packed(m as nat, x as int, l as nat, k as nat, q as nat);
        lemma_small_quotient(m as nat, x as int, l as nat, k as nat, q as nat);
    }
    if k >= 2047 {
        Double { bits: INFINITY_BITS }
    } else {
        let bits: u128 = (k as u128) * (FRACTION as u128) + q;
        if bits >= INFINITY_BITS as u128 {
            Double { bits: INFINITY_BITS }
        } else {
            Double { bits: bits as u64 }
        }
    }
}

proof fn lemma_exact_bound(m: nat, l: nat, s: nat)
    requires
        1 <= l,
        pow2((l - 1) as nat) <= m < pow2(l),
        l + s <= 53,
    ensures
        s <= 52,
        m * pow2(s) < 0x20_0000_0000_0000,
{
    lemma2_to64_rest();
    lemma_pow2_adds(l, s);
    lemma_pow2_le(l + s, 53);
    lemma_pow2_pos(s);
    let a = pow2(l);
    let b = pow2(s);
    assert(m * b < a * b) by (nonlinear_arith)
        requires
            m < a,
            b > 0,
    ;
}

/// Without digits to drop, nothing is rounded.
proof fn lemma_exact_shift(m: nat, x: nat, k: nat)
    requires
        k <= x,
    ensures
        nearest_integer(m * pow2(x), pow2(k)) == m * pow2((x - k) as nat),
{
    lemma_pow2_adds((x - k) as nat, k);
    lemma_pow2_pos(k);
    let a = pow2((x - k) as nat);
    let b = pow2(k);
    assert(m * (a * b) == (m * a) * b) by (nonlinear_arith);
    lemma_nearest_integer_exact((m * a) as nat, b);
}

proof fn lemma_packed(m: nat, x: int, l: nat, k: nat, q: nat)
    requires
        1 <= l,
        pow2((l - 1) as nat) <= m < pow2(l),
        k == if l + x > 53 {
            l + x - 53
        } else {
            0
        },
        x >= k ==> q == m * pow2((x - k) as nat),
        x < k ==> q == nearest_integer(m, pow2((k - x) as nat)),
    ensures
        nearest_scaled(m, x) == (Double {
            bits: if k * FRACTION + q >= INFINITY_BITS {
                INFINITY_BITS
            } else {
                (k * FRACTION + q) as u64
            },
        }),
{
    if x >= 0 {
        let n = x as nat;
        let num = (m * pow2(n)) as nat;
        lemma_pow2_adds(l, n);
        lemma_pow2_pos(n);
        let a = pow2(l);
        let b = pow2(n);
        assert(m * b < a * b) by (nonlinear_arith)
            requires
                m < a,
                b > 0,
        ;
        lemma_pow2_le(l + n, 53 + k);
        if k > 0 {
            lemma_pow2_adds((l - 1) as nat, n);
            let c = pow2((l - 1) as nat);
            assert(c * b <= m * b) by (nonlinear_arith)
                requires
                    c <= m,
                    b > 0,
            ;
            assert(l - 1 + n == 52 + k);
        }
        assert(scale_is(num, 1, k));
        lemma_nearest(num, 1, k);
        assert(1 * pow2(k) == pow2(k));
        if x >= k {
            lemma_exact_shift(m, n, k);
        } else {
            let s = (k - x) as nat;
            lemma_pow2_adds(s, n);
            lemma_pow2_pos(s);
            lemma_nearest_integer_scaled(m, pow2(s), b);
            assert(pow2(k) == pow2(s) * b);
        }
    } else {
        let n = (-x) as nat;
        let d = pow2(n);
        lemma_pow2_pos(n);
        lemma_pow2_adds(n, 53 + k);
        lemma_pow2_le(l, n + 53 + k);
        if k > 0 {
            lemma_pow2_adds(n, (52 + k) as nat);
            assert(n + 52 + k == l - 1);
        }
        assert(scale_is(m, d, k));
        lemma_nearest(m, d, k);
        lemma_pow2_adds(n, k);
        assert((k - x) as nat == n + k);
    }
}

proof fn lemma_small_quotient(m: nat, x: int, l: nat, k: nat, q: nat)
    requires
        1 <= l,
        pow2((l - 1) as nat) <= m < pow2(l),
        k == if l + x > 53 {
            l + x - 53
        } else {
            0
        },
        x >= k ==> q == m * pow2((x - k) as nat),
        x < k ==> q == nearest_integer(m, pow2((k - x) as nat)),
    ensures
        q <= 0x20_0000_0000_0000,
{
    lemma2_to64_rest();
    if x >= k {
        lemma_exact_bound(m, l, (x - k) as nat);
    } else {
        let s = (k - x) as nat;
        let b = pow2(s);
        lemma_pow2_pos(s);
        lemma_pow2_le(l, 53 + s);
        lemma_pow2_adds(53, s);
        let t = pow2(53);
        lemma_fundamental_div_mod(m as int, b as int);
        lemma_mod_bound(m as int, b as int);
        let f = m / b;
        assert(f < t) by (nonlinear_arith)
            requires
                m == b * f + m % b,
                0 <= m % b,
                m < t * b,
                b > 0,
        ;
    }
}

proof fn lemma_parts(d: Double)
    requires
        countable(d),
    ensures
        0 <= mantissa(d) < 0x20_0000_0000_0000,
        exponent(d) <= 2046,
        exponent(d) > 0 ==> mantissa(d) >= FRACTION,
        d.bits == exponent(d) * FRACTION + mantissa(d),
        units(d) == mantissa(d) * pow2(exponent(d)),
{
    lemma_pow2_pos(exponent(d));
    let m = mantissa(d);
    let p = pow2(exponent(d));
    if d.bits >= FRACTION {
        lemma_fundamental_div_mod(d.bits as int, FRACTION as int);
    }
    assert(m * p >= 0) by (nonlinear_arith)
        requires
            m >= 0,
            p >= 0,
    ;
}

fn parts(d: Double) -> (r: (u64, i64))
    requires
        countable(d),
    ensures
        r.0 == mantissa(d),
        r.1 == exponent(d),
{
    if d.bits < FRACTION {
        (d.bits, 0)
    } else {
        (d.bits % FRACTION + FRACTION, (d.bits / FRACTION) as i64 - 1)
    }
}

/// The double nearest to a count.
pub fn double_of_count(n: u64) -> (r: Double)
    ensures
        r == count_double(n as nat),
        countable(r),
        n > 0 ==> 0x3ff0_0000_0000_0000 <= r.bits <= 0x43f0_0000_0000_0000,
{
    proof {
        if n > 0 {
            lemma_count_bounds(n as nat);
        }
    }
    pack(n as u128, UNIT_EXPONENT as i64)
}

/// The double of a positive count lies between one and `2^64`.
proof fn lemma_count_bounds(n: nat)
    requires
        0 < n <= u64::MAX,
    ensures
        0x3ff0_0000_0000_0000 <= count_double(n).bits <= 0x43f0_0000_0000_0000,
{
    let u = one_in_units();
    lemma2_to64();
    lemma2_to64_rest();
    lemma_pow2_adds(64, 1074);
    lemma_pow2_pos(1074);
    let num = (n * u) as nat;
    assert(num < pow2(64) * u) by (nonlinear_arith)
        requires
            num == n * u,
            n < pow2(64),
            u > 0,
    ;
    assert(u <= num) by (nonlinear_arith)
        requires
            num == n * u,
            n >= 1,
            u > 0,
    ;
    let k = lemma_scale_exists(num, 1, 1085);
    lemma_nearest(num, 1, k);
    if k > 1085 {
        lemma_pow2_le(53 + 1085, (52 + k) as nat);
    }
    if k < 1022 {
        lemma_pow2_le(53 + k, 1074);
    }
    let w = pow2(k);
    lemma_pow2_pos(k);
    lemma_pow2_adds(53, k);
    lemma_pow2_adds(52, k);
    lemma_fundamental_div_mod(num as int, w as int);
    lemma_mod_bound(num as int, w as int);
    let f = num / w;
    let t = pow2(53);
    let o = pow2(52);
    assert(f < t) by (nonlinear_arith)
        requires
            num == w * f + num % w,
            0 <= num % w,
            num < t * w,
            w > 0,
    ;
    assert(f >= o) by (nonlinear_arith)
        requires
            num == w * f + num % w,
            num % w < w,
            num >= o * w,
            w > 0,
    ;
    assert(1 * w == w);
    assert(1022 * FRACTION <= k * FRACTION <= 1085 * FRACTION) by (nonlinear_arith)
        requires
            1022 <= k <= 1085,
    ;
}

/// The product of two doubles.
pub fn multiply(a: Double, b: Double) -> (r: Double)
    requires
        countable(a),
        countable(b),
    ensures
        r == double_product(a, b),
        countable(r),
{
    if a.bits == 0 || b.bits == 0 {
        return Double { bits: 0 };
    }
    if a.bits == INFINITY_BITS || b.bits == INFINITY_BITS {
        return Double { bits: INFINITY_BITS };
    }
    let (m1, x1): (u64, i64) = parts(a);
    let (m2, x2): (u64, i64) = parts(b);
    proof {
        lemma_parts(a);
        lemma_parts(b);
        lemma_product_bound(m1 as nat, m2 as nat);
        lemma_product_units(a, b);
    }
    pack((m1 as u128) * (m2 as u128), x1 + x2 - UNIT_EXPONENT as i64)
}

proof fn lemma_product_bound(a: nat, b: nat)
    requires
        a < 0x20_0000_0000_0000,
        b < 0x20_0000_0000_0000,
    ensures
        a * b < 0x400_0000_0000_0000_0000_0000_0000,
{
    assert(a * b < 0x20_0000_0000_0000 * 0x20_0000_0000_0000) by (nonlinear_arith)
        requires
            a < 0x20_0000_0000_0000,
            b < 0x20_0000_0000_0000,
    ;
}

proof fn lemma_product_units(a: Double, b: Double)
    requires
        0 < a.bits < INFINITY_BITS,
        0 < b.bits < INFINITY_BITS,
    ensures
        double_product(a, b) == nearest_scaled(
            (mantissa(a) * mantissa(b)) as nat,
            exponent(a) + exponent(b) - 1074,
        ),
{
    lemma_parts(a);
    lemma_parts(b);
    let m1 = mantissa(a);
    let m2 = mantissa(b);
    let e = exponent(a) + exponent(b);
    let p1 = pow2(exponent(a));
    let p2 = pow2(exponent(b));
    lemma_pow2_adds(exponent(a), exponent(b));
    let m = (m1 * m2) as nat;
    assert(m1 * m2 >= 0) by (nonlinear_arith)
        requires
            m1 >= 0,
            m2 >= 0,
    ;
    assert(units(a) * units(b) == m * pow2(e)) by (nonlinear_arith)
        requires
            units(a) == m1 * p1,
            units(b) == m2 * p2,
            m == m1 * m2,
            pow2(e) == p1 * p2,
    ;
    let u = one_in_units();
    lemma_pow2_pos(1074);
    if e >= 1074 {
        let s = (e - 1074) as nat;
        lemma_pow2_adds(s, 1074);
        let w = pow2(s);
        assert(m * (w * u) == (m * w) * u) by (nonlinear_arith);
        lemma_nearest_ratio((m * w) as nat, 1, u);
        assert(1 * u == u);
    } else {
        let s = (1074 - e) as nat;
        lemma_pow2_adds(s, e);
        lemma_pow2_pos(s);
        lemma_pow2_pos(e);
        lemma_nearest_ratio(m, pow2(s), pow2(e));
    }
}

/// The sum of two doubles.
pub fn sum(a: Double, b: Double) -> (r: Double)
    requires
        countable(a),
        countable(b),
    ensures
        r == double_sum(a, b),
        countable(r),
{
    let (m1, x1): (u64, i64) = parts(a);
    let (m2, x2): (u64, i64) = parts(b);
    proof {
        lemma_parts(a);
        lemma_parts(b);
    }
    if x1 >= x2 {
        sum_ordered(a, b, m1, x1, m2, x2)
    } else {
        proof {
            assert(units(a) + units(b) == units(b) + units(a));
        }
        sum_ordered(b, a, m2, x2, m1, x1)
    }
}

fn sum_ordered(a: Double, b: Double, m1: u64, x1: i64, m2: u64, x2: i64) -> (r: Double)
    requires
        countable(a),
        countable(b),
        m1 == mantissa(a),
        x1 == exponent(a),
        m2 == mantissa(b),
        x2 == exponent(b),
        x1 >= x2,
    ensures
        r == double_sum(a, b),
        countable(r),
{
    proof {
        lemma_parts(a);
        lemma_parts(b);
    }
    if x1 - x2 <= 64 {
        let p: u128 = power_of_two((x1 - x2) as u32);
        proof {
            lemma2_to64();
            lemma2_to64_rest();
            lemma_pow2_le((x1 - x2) as nat, 64);
            assert(m1 * p < 0x20_0000_0000_0000 * 0x1_0000_0000_0000_0001) by (nonlinear_arith)
                requires
                    m1 < 0x20_0000_0000_0000,
                    p <= 0x1_0000_0000_0000_0000,
            ;
            lemma_aligned_sum(a, b);
        }
        pack((m1 as u128) * p + m2 as u128, x2)
    } else {
        proof {
            lemma_negligible(a, b);
        }
        a
    }
}

proof fn lemma_aligned_sum(a: Double, b: Double)
    requires
        countable(a),
        countable(b),
        exponent(a) >= exponent(b),
    ensures
        double_sum(a, b) == nearest_scaled(
            (mantissa(a) * pow2((exponent(a) - exponent(b)) as nat) + mantissa(b)) as nat,
            exponent(b) as int,
        ),
{
    lemma_parts(a);
    lemma_parts(b);
    let s = (exponent(a) - exponent(b)) as nat;
    lemma_pow2_adds(s, exponent(b));
    lemma_pow2_pos(s);
    let m1 = mantissa(a);
    let m2 = mantissa(b);
    let p = pow2(s);
    let w = pow2(exponent(b));
    assert(m1 * (p * w) + m2 * w == (m1 * p + m2) * w) by (nonlinear_arith);
    assert(m1 * p >= 0) by (nonlinear_arith)
        requires
            m1 >= 0,
            p >= 0,
    ;
}

/// A far smaller addend is lost.
proof fn lemma_negligible(a: Double, b: Double)
    requires
        countable(a),
        countable(b),
        exponent(a) > exponent(b) + 64,
    ensures
        double_sum(a, b) == a,
{
    lemma_parts(a);
    lemma_parts(b);
    lemma2_to64();
    lemma2_to64_rest();
    let k = exponent(a);
    let m = mantissa(a);
    let w = pow2(k);
    let e = units(b);
    let wb = pow2(exponent(b));
    lemma_pow2_adds(54, exponent(b));
    lemma_pow2_le(54 + exponent(b), k);
    lemma_pow2_pos(exponent(b));
    assert(2 * e < w) by (nonlinear_arith)
        requires
            e == mantissa(b) * wb,
            mantissa(b) < 0x20_0000_0000_0000,
            pow2(54) == 0x40_0000_0000_0000,
            pow2(54 + exponent(b)) == pow2(54) * wb,
            pow2(54 + exponent(b)) <= w,
            wb > 0,
    ;
    let num = (m * w + e) as nat;
    assert(units(a) + units(b) == num);
    lemma_pow2_adds(53, k);
    lemma_pow2_adds(52, k);
    assert(m * w + e < pow2(53) * w) by (nonlinear_arith)
        requires
            m < pow2(53),
            2 * e < w,
    ;
    assert(pow2(52) * w <= m * w) by (nonlinear_arith)
        requires
            pow2(52) <= m,
            w >= 0,
    ;
    assert(scale_is(num, 1, k));
    lemma_nearest(num, 1, k);
    assert(1 * pow2(k) == w);
    lemma_quotient(num, w, m as nat, e);
}

/// One divided by a double that is at least one.
pub fn reciprocal(d: Double) -> (r: Double)
    requires
        countable(d),
        0x3ff0_0000_0000_0000 <= d.bits <= 0x43f0_0000_0000_0000,
    ensures
        r == double_reciprocal(d),
        countable(r),
{
    let (m, x): (u64, i64) = parts(d);
    proof {
        lemma_parts(d);
        lemma_power_bound();
        lemma_pow2_le(119, 127);
    }
    let a: u128 = power_of_two(119);
    let q: u128 = a / (m as u128);
    let r: u128 = a % (m as u128);
    proof {
        lemma_reciprocal(d, q as nat, r as nat);
    }
    if r == 0 {
        pack(q * 2, 2028 - x)
    } else {
        pack(q * 2 + 1, 2028 - x)
    }
}

/// Digits far behind the last one that is kept matter only by whether there are any.
proof fn lemma_sticky(a: nat, b: nat, s: nat)
    requires
        b > 0,
        s >= 1,
    ensures
        nearest_integer(a, b * pow2(s)) == nearest_integer(
            2 * (a / b) + (if a % b > 0 {
                1nat
            } else {
                0nat
            }),
            pow2(s + 1),
        ),
{
    let big = a / b;
    let rest = a % b;
    let t = pow2(s);
    lemma_pow2_pos(s);
    lemma_pow2_unfold(s);
    lemma_pow2_unfold(s + 1);
    lemma_fundamental_div_mod(a as int, b as int);
    lemma_mod_bound(a as int, b as int);
    lemma_fundamental_div_mod(big as int, t as int);
    lemma_mod_bound(big as int, t as int);
    let q = big / t;
    let r = big % t;
    let rho = (b * r + rest) as nat;
    assert(a == q * (b * t) + rho) by (nonlinear_arith)
        requires
            a == b * big + rest,
            big == t * q + r,
            rho == b * r + rest,
    ;
    assert(rho < b * t) by (nonlinear_arith)
        requires
            rho == b * r + rest,
            r <= t - 1,
            rest < b,
            b > 0,
    ;
    lemma_quotient(a, (b * t) as nat, q, rho);
    let sigma: nat = if rest > 0 {
        1
    } else {
        0
    };
    let m = (2 * big + sigma) as nat;
    assert(m == q * (2 * t) + (2 * r + sigma)) by (nonlinear_arith)
        requires
            m == 2 * big + sigma,
            big == t * q + r,
    ;
    lemma_quotient(m, (2 * t) as nat, q, (2 * r + sigma) as nat);
    if rest == 0 {
        assert((2 * rho > b * t) == (2 * r > t)) by (nonlinear_arith)
            requires
                rho == b * r,
                b > 0,
        ;
        assert((2 * rho == b * t) == (2 * r == t)) by (nonlinear_arith)
            requires
                rho == b * r,
                b > 0,
        ;
    } else if 2 * r >= t {
        assert(2 * rho > b * t) by (nonlinear_arith)
            requires
                rho == b * r + rest,
                2 * r >= t,
                rest > 0,
                b > 0,
        ;
    } else {
        assert(2 * r <= t - 2);
        assert(2 * rho < b * t) by (nonlinear_arith)
            requires
                rho == b * r + rest,
                2 * r <= t - 2,
                rest < b,
                b > 0,
        ;
    }
}

proof fn lemma_reciprocal(d: Double, q: nat, r: nat)
    requires
        countable(d),
        0x3ff0_0000_0000_0000 <= d.bits <= 0x43f0_0000_0000_0000,
        q == pow2(119) / mantissa(d) as nat,
        r == pow2(119) % mantissa(d) as nat,
    ensures
        q < 0x100_0000_0000_0000_0000,
        double_reciprocal(d) == nearest_scaled(
            2 * q + (if r > 0 {
                1nat
            } else {
                0nat
            }),
            2028 - exponent(d),
        ),
{
    lemma_parts(d);
    lemma2_to64();
    lemma2_to64_rest();
    let m = mantissa(d) as nat;
    let e = exponent(d);
    assert(1022 <= e <= 1086) by {
        lemma_fundamental_div_mod(d.bits as int, FRACTION as int);
    }
    let a = pow2(119);
    let big = (2 * q + (if r > 0 {
        1nat
    } else {
        0nat
    })) as nat;
    lemma_fundamental_div_mod(a as int, m as int);
    lemma_mod_bound(a as int, m as int);
    lemma_pow2_adds(66, 53);
    lemma_pow2_adds(67, 52);
    lemma_pow2_adds(64, 2);
    lemma_pow2_adds(64, 3);
    assert(pow2(66) == 0x4_0000_0000_0000_0000) by (nonlinear_arith)
        requires
            pow2(66) == pow2(64) * pow2(2),
            pow2(64) == 0x1_0000_0000_0000_0000,
            pow2(2) == 4,
    ;
    assert(pow2(67) == 0x8_0000_0000_0000_0000) by (nonlinear_arith)
        requires
            pow2(67) == pow2(64) * pow2(3),
            pow2(64) == 0x1_0000_0000_0000_0000,
            pow2(3) == 8,
    ;
    assert(q >= pow2(66)) by (nonlinear_arith)
        requires
            a == m * q + r,
            r < m,
            a == pow2(66) * 0x20_0000_0000_0000,
            m < 0x20_0000_0000_0000,
    ;
    assert(q <= pow2(67)) by (nonlinear_arith)
        requires
            a == m * q + r,
            r >= 0,
            a == pow2(67) * 0x10_0000_0000_0000,
            m >= 0x10_0000_0000_0000,
    ;
    // The ratio in lowest terms: 2^119 over the digits, doubled 2029 - e times.
    let u = one_in_units();
    lemma_pow2_adds(1074, 1074);
    lemma_pow2_pos(e);
    lemma_pow2_pos(1074);
    let num = (u * u) as nat;
    let den = units(d);
    let w = pow2(e);
    assert(den > 0) by (nonlinear_arith)
        requires
            den == m * w,
            m > 0,
            w > 0,
    ;
    // The number of digits of `big` decides the scale.
    let l: nat = if big < pow2(67) {
        67
    } else if big < 2 * pow2(67) {
        68
    } else {
        69
    };
    lemma_pow2_unfold(67);
    lemma_pow2_unfold(68);
    lemma_pow2_unfold(69);
    assert(pow2((l - 1) as nat) <= big < pow2(l));
    let x = 2028 - e;
    let k = (l + x - 53) as nat;
    let s = (l - 54) as nat;
    // a * 2^(2029 - e) / m units, with the scale of `big`.
    lemma_pow2_adds(119, 2029);
    let h = pow2((2029 - e) as nat);
    lemma_pow2_pos((2029 - e) as nat);
    lemma_pow2_adds((2029 - e) as nat, e);
    assert(num == (a * h) * w) by (nonlinear_arith)
        requires
            num == pow2(2148),
            pow2(2148) == a * pow2(2029),
            pow2(2029) == h * w,
    ;
    lemma_nearest_ratio((a * h) as nat, m, w);
    assert(nearest(num, den) == nearest((a * h) as nat, m));
    lemma_reciprocal_scale(a, m, q, r, big, l, (2029 - e) as nat, k, s);
    let qq = nearest_integer(big, pow2((k - x) as nat));
    lemma_packed(big, x as int, l, k, qq);
}

/// The scale of a ratio and that of its quotient with one more digit are the same.
proof fn lemma_reciprocal_scale(
    a: nat,
    m: nat,
    q: nat,
    r: nat,
    big: nat,
    l: nat,
    y: nat,
    k: nat,
    s: nat,
)
    requires
        m > 0,
        q == a / m,
        r == a % m,
        big == 2 * q + (if r > 0 {
            1nat
        } else {
            0nat
        }),
        l >= 60,
        pow2((l - 1) as nat) <= big < pow2(l),
        l + y >= 55,
        k == l + y - 54,
        k > 0,
        s == l - 54,
    ensures
        nearest(a * pow2(y), m) == (Double {
            bits: if k * FRACTION + nearest_integer(big, pow2((k - y + 1) as nat))
                >= INFINITY_BITS {
                INFINITY_BITS
            } else {
                (k * FRACTION + nearest_integer(big, pow2((k - y + 1) as nat))) as u64
            },
        }),
{
    lemma_fundamental_div_mod(a as int, m as int);
    lemma_mod_bound(a as int, m as int);
    lemma_pow2_unfold(l);
    lemma_pow2_unfold((l - 1) as nat);
    let half = pow2((l - 1) as nat);
    let quarter = pow2((l - 2) as nat);
    let h = pow2(y);
    lemma_pow2_pos(y);
    assert(quarter <= q < half);
    assert(a < m * half) by (nonlinear_arith)
        requires
            a == m * q + r,
            r < m,
            q + 1 <= half,
    ;
    assert(m * quarter <= a) by (nonlinear_arith)
        requires
            a == m * q + r,
            r >= 0,
            quarter <= q,
    ;
    lemma_pow2_adds((l - 1) as nat, y);
    lemma_pow2_adds((l - 2) as nat, y);
    assert(a * h < m * (half * h)) by (nonlinear_arith)
        requires
            a < m * half,
            h > 0,
    ;
    assert(m * (quarter * h) <= a * h) by (nonlinear_arith)
        requires
            m * quarter <= a,
            h > 0,
    ;
    assert(53 + k == l - 1 + y);
    assert((52 + k) as nat == (l - 2 + y) as nat);
    assert(scale_is((a * h) as nat, m, k));
    lemma_nearest((a * h) as nat, m, k);
    lemma_pow2_adds(s, y);
    assert(k == s + y);
    let t = pow2(s);
    assert(m * pow2(k) == (m * t) * h) by (nonlinear_arith)
        requires
            pow2(k) == t * h,
    ;
    lemma_pow2_pos(s);
    assert(m * t > 0) by (nonlinear_arith)
        requires
            m > 0,
            t > 0,
    ;
    lemma_nearest_integer_scaled(a, (m * t) as nat, h);
    lemma_sticky(a, m, s);
    assert((k - y + 1) as nat == s + 1);
}

/// The whole part of a double, held to what `u64` can hold.
pub fn truncate(d: Double) -> (r: u64)
    requires
        countable(d),
    ensures
        r == whole_part(d),
{
    let (m, x): (u64, i64) = parts(d);
    proof {
        lemma_parts(d);
    }
    let ghost u = one_in_units();
    let ghost w = pow2(exponent(d));
    proof {
        lemma_pow2_pos(1074);
        lemma_pow2_pos(exponent(d));
    }
    if x >= 1074 {
        if x > 1074 + 63 {
            proof {
                lemma2_to64();
                lemma2_to64_rest();
                let s = (x - 1074) as nat;
                lemma_pow2_adds(s, 1074);
                lemma_pow2_le(64, s);
                let p = pow2(s);
                assert(m * (p * u) == (m * p) * u) by (nonlinear_arith);
                assert(m * p > u64::MAX) by (nonlinear_arith)
                    requires
                        m >= 1,
                        p > u64::MAX,
                ;
                lemma_quotient(units(d), u, (m * p) as nat, 0);
            }
            return u64::MAX;
        }
        let p: u128 = power_of_two((x - 1074) as u32);
        proof {
            lemma2_to64();
            lemma2_to64_rest();
            lemma_pow2_le((x - 1074) as nat, 63);
            assert(m * p < 0x20_0000_0000_0000 * 0x8000_0000_0000_0001) by (nonlinear_arith)
                requires
                    m < 0x20_0000_0000_0000,
                    p <= 0x8000_0000_0000_0000,
            ;
            lemma_pow2_adds((x - 1074) as nat, 1074);
            assert(m * (p * u) == (m * p) * u) by (nonlinear_arith);
            lemma_quotient(units(d), u, (m * p) as nat, 0);
        }
        let n: u128 = (m as u128) * p;
        if n > u64::MAX as u128 {
            u64::MAX
        } else {
            n as u64
        }
    } else {
        if x < 1074 - 63 {
            proof {
                lemma2_to64();
                lemma2_to64_rest();
                let s = (1074 - x) as nat;
                lemma_pow2_adds(s, exponent(d));
                lemma_pow2_le(64, s);
                let p = pow2(s);
                assert(m * w < p * w) by (nonlinear_arith)
                    requires
                        m < p,
                        w > 0,
                ;
                lemma_quotient(units(d), u, 0, units(d));
            }
            return 0;
        }
        let p: u128 = power_of_two((1074 - x) as u32);
        let n: u128 = (m as u128) / p;
        proof {
            let r = m as int % p as int;
            lemma_fundamental_div_mod(m as int, p as int);
            lemma_mod_bound(m as int, p as int);
            lemma_pow2_adds((1074 - x) as nat, exponent(d));
            assert(m * w == n * (p * w) + r * w) by (nonlinear_arith)
                requires
                    m == p * n + r,
            ;
            assert(r * w < p * w) by (nonlinear_arith)
                requires
                    r < p,
                    w > 0,
            ;
            assert(r * w >= 0) by (nonlinear_arith)
                requires
                    r >= 0,
                    w > 0,
            ;
            lemma_quotient(units(d), u, n as nat, (r * w) as nat);
            assert(n <= m) by (nonlinear_arith)
                requires
                    m == p * n + r,
                    p >= 1,
                    r >= 0,
                    n >= 0,
            ;
        }
        n as u64
    }
}

} // verus!
