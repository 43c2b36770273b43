//! Laws of rounding: how near the operations on doubles come to exact arithmetic.

use crate::double::{Double, INFINITY_BITS};
use crate::rounding::{
    count_double, double_product, double_reciprocal, double_sum, exponent, lemma_nearest,
    lemma_pow2_le, lemma_scale_exists, mantissa, nearest, nearest_integer, one_in_units, units,
    FRACTION,
};
use vstd::arithmetic::div_mod::{lemma_fundamental_div_mod, lemma_mod_bound};
use vstd::arithmetic::power2::{
    lemma2_to64, lemma2_to64_rest, lemma_pow2_adds, lemma_pow2_pos, lemma_pow2_strictly_increases,
    pow2,
};
use vstd::prelude::*;

verus! {

/// Whether two numbers differ by no more than `j` parts in two to the power of 52.
pub open spec fn near(a: int, b: int, j: int) -> bool {
    b * (0x10_0000_0000_0000 - j) <= a * 0x10_0000_0000_0000 <= b * (0x10_0000_0000_0000 + j)
}

/// Nearness adds up.
pub proof fn lemma_near_chain(a: int, b: int, d: int, i: int, j: int)
    requires
        near(a, b, i),
        near(b, d, j),
        0 <= i <= 1000,
        0 <= j <= 1000,
        d >= 0,
    ensures
        near(a, d, i + j + 1),
{
    let c = 0x10_0000_0000_0000int;
    assert(a * c <= d * (c + (i + j + 1))) by (nonlinear_arith)
        requires
            a * c <= b * (c + i),
            b * c <= d * (c + j),
            0 <= i <= 1000,
            0 <= j <= 1000,
            d >= 0,
            c == 0x10_0000_0000_0000,
    ;
    assert(d * (c - (i + j + 1)) <= a * c) by (nonlinear_arith)
        requires
            b * (c - i) <= a * c,
            d * (c - j) <= b * c,
            0 <= i <= 1000,
            0 <= j <= 1000,
            d >= 0,
            c == 0x10_0000_0000_0000,
    ;
}

/// Nearness does not depend on the unit.
pub proof fn lemma_near_scale(a: int, b: int, j: int, x: int)
    requires
        x > 0,
    ensures
        near(a, b, j) == near(a * x, b * x, j),
{
    let c = 0x10_0000_0000_0000int;
    assert((a * x) * c == (a * c) * x) by (nonlinear_arith);
    assert((b * x) * (c - j) == (b * (c - j)) * x) by (nonlinear_arith);
    assert((b * x) * (c + j) == (b * (c + j)) * x) by (nonlinear_arith);
    let p = a * c;
    let q = b * (c - j);
    let r = b * (c + j);
    assert((q <= p) == (q * x <= p * x)) by (nonlinear_arith)
        requires
            x > 0,
    ;
    assert((p <= r) == (p * x <= r * x)) by (nonlinear_arith)
        requires
            x > 0,
    ;
}

/// Nearness from the other side.
pub proof fn lemma_near_flip(a: int, b: int)
    requires
        near(a, b, 1),
        a >= 0,
        b >= 0,
    ensures
        near(b, a, 2),
{
    let c = 0x10_0000_0000_0000int;
    assert(b * c <= a * (c + 2)) by (nonlinear_arith)
        requires
            b * (c - 1) <= a * c,
            a >= 0,
            b >= 0,
            c == 0x10_0000_0000_0000,
    ;
    assert(a * (c - 2) <= b * c) by (nonlinear_arith)
        requires
            a * c <= b * (c + 1),
            a >= 0,
            b >= 0,
            c == 0x10_0000_0000_0000,
    ;
}

proof fn lemma_powers()
    ensures
        pow2(52) == 0x10_0000_0000_0000,
        pow2(53) == 0x20_0000_0000_0000,
        pow2(0) == 1,
        pow2(1) == 2,
        pow2(64) == 0x1_0000_0000_0000_0000,
{
    lemma2_to64();
    lemma2_to64_rest();
}

/// The double that bits made of a number of doublings and digits stand for.
proof fn lemma_units(k: nat, q: nat)
    requires
        k <= 2044,
        0x10_0000_0000_0000 <= q <= 0x20_0000_0000_0000,
    ensures
        k * FRACTION + q < INFINITY_BITS,
        units(Double { bits: (k * FRACTION + q) as u64 }) == q * pow2(k),
{
    let bits = k * FRACTION + q;
    let d = Double { bits: bits as u64 };
    let f = 0x10_0000_0000_0000int;
    lemma_powers();
    if q < 0x20_0000_0000_0000 {
        let r = q - f;
        assert(bits == f * (k + 1) + r);
        vstd::arithmetic::div_mod::lemma_fundamental_div_mod_converse(bits as int, f, (k + 1) as int, r);
        assert(mantissa(d) == q);
        assert(exponent(d) == k);
    } else {
        assert(bits == f * (k + 2) + 0);
        vstd::arithmetic::div_mod::lemma_fundamental_div_mod_converse(bits as int, f, (k + 2) as int, 0);
        assert(mantissa(d) == f);
        assert(exponent(d) == k + 1);
        lemma_pow2_adds(1, k);
        assert(f * (2 * pow2(k)) == q * pow2(k)) by (nonlinear_arith)
            requires
                q == 2 * f,
        ;
    }
}

/// The integer nearest to a quotient differs from it by a half at most.
proof fn lemma_half(a: nat, b: nat)
    requires
        b > 0,
    ensures
        ({
            let q = nearest_integer(a, b);
            2 * (q * b) - b <= 2 * a <= 2 * (q * b) + b
        }),
        nearest_integer(a, b) == a / b || nearest_integer(a, b) == a / b + 1,
{
    lemma_fundamental_div_mod(a as int, b as int);
    lemma_mod_bound(a as int, b as int);
    let q = a / b;
    assert((q + 1) * b == q * b + b) by (nonlinear_arith);
    assert(b * q == q * b) by (nonlinear_arith);
}

/// The double nearest to a quotient of units is near it, unless it is among the very smallest or the
/// very greatest.
pub proof fn nearest_is_near(num: nat, den: nat)
    requires
        den > 0,
        den * pow2(52) <= num,
        num < den * pow2(2097),
    ensures
        0 < nearest(num, den).bits < INFINITY_BITS,
        near((units(nearest(num, den)) * den) as int, num as int, 1),
{
    lemma_powers();
    let k = lemma_scale_exists(num, den, 2044);
    if k > 2044 {
        lemma_pow2_le(2097, (52 + k) as nat);
        let x = pow2(2097);
        let y = pow2((52 + k) as nat);
        assert(den * x <= den * y) by (nonlinear_arith)
            requires
                x <= y,
        ;
    }
    lemma_nearest(num, den, k);
    lemma_pow2_pos(k);
    let p = pow2(k);
    let d = (den * p) as nat;
    assert(d > 0) by (nonlinear_arith)
        requires
            d == den * p,
            den > 0,
            p > 0,
    ;
    let c = 0x10_0000_0000_0000int;
    assert(d * c <= num) by {
        if k == 0 {
            assert(d == den) by (nonlinear_arith)
                requires
                    d == den * p,
                    p == 1,
            ;
        } else {
            lemma_pow2_adds(52, k);
            assert(den * (c * p) == (den * p) * c) by (nonlinear_arith);
        }
    }
    assert(num < d * (2 * c)) by {
        lemma_pow2_adds(53, k);
        assert(den * ((2 * c) * p) == (den * p) * (2 * c)) by (nonlinear_arith);
    }
    lemma_fundamental_div_mod(num as int, d as int);
    lemma_mod_bound(num as int, d as int);
    let w = num as int / d as int;
    assert(c <= w < 2 * c) by (nonlinear_arith)
        requires
            num == d * w + num as int % d as int,
            0 <= num as int % d as int,
            num as int % (d as int) < d,
            d * c <= num,
            num < d * (2 * c),
            d > 0,
    ;
    lemma_half(num, d);
    let q = nearest_integer(num, d);
    lemma_units(k, q);
    let u = units(nearest(num, den));
    assert(u == q * p);
    assert(u * den == q * d) by (nonlinear_arith)
        requires
            u == q * p,
            d == den * p,
    ;
    let e = q * d;
    assert(num * (c - 1) <= e * c <= num * (c + 1)) by (nonlinear_arith)
        requires
            2 * e - d <= 2 * num <= 2 * e + d,
            d * c <= num,
            num >= 0,
            c > 0,
    ;
}

/// The greatest count and one more.
pub open spec fn count_bound() -> int {
    0x1_0000_0000_0000_0000
}

pub proof fn lemma_unit()
    ensures
        one_in_units() > 0,
        one_in_units() >= 8 * count_bound() * 0x10_0000_0000_0000,
        pow2(2097) == pow2(1023) * one_in_units(),
        pow2(1023) > 8 * count_bound() * count_bound(),
        pow2(52) == 0x10_0000_0000_0000,
{
    lemma_powers();
    lemma_pow2_pos(1074);
    lemma_pow2_adds(1023, 1074);
    lemma_pow2_adds(64, 64);
    lemma_pow2_adds(128, 3);
    lemma2_to64();
    lemma_pow2_strictly_increases(131, 1023);
    lemma_pow2_adds(64, 52);
    lemma_pow2_adds(116, 3);
    lemma_pow2_le(119, 1074);
}

/// A count as a double is near the count.
pub proof fn counts_are_near(n: nat)
    requires
        0 < n < count_bound(),
    ensures
        0 < count_double(n).bits < INFINITY_BITS,
        near(units(count_double(n)) as int, (n * one_in_units()) as int, 1),
{
    lemma_unit();
    let one = one_in_units() as int;
    let h = pow2(1023) as int;
    let num = (n * one_in_units()) as nat;
    assert(0x10_0000_0000_0000 <= num < h * one) by (nonlinear_arith)
        requires
            num == n * one,
            1 <= n < 0x1_0000_0000_0000_0000,
            one >= 0x10_0000_0000_0000,
            h > 0x1_0000_0000_0000_0000,
    ;
    nearest_is_near(num, 1);
    assert(units(count_double(n)) * 1 == units(count_double(n)));
}

/// A product of doubles is near the exact product, if it is neither too small nor too great.
pub proof fn products_are_near(a: Double, b: Double)
    requires
        0 < a.bits < INFINITY_BITS,
        0 < b.bits < INFINITY_BITS,
        one_in_units() * 0x10_0000_0000_0000 <= units(a) * units(b),
        units(a) * units(b) <= 8 * count_bound() * count_bound() * (one_in_units()
            * one_in_units()),
    ensures
        0 < double_product(a, b).bits < INFINITY_BITS,
        near(
            (units(double_product(a, b)) * one_in_units()) as int,
            (units(a) * units(b)) as int,
            1,
        ),
{
    lemma_unit();
    let one = one_in_units() as int;
    let h = pow2(1023) as int;
    let num = (units(a) * units(b)) as int;
    assert(num < one * (h * one)) by (nonlinear_arith)
        requires
            num <= 8 * count_bound() * count_bound() * (one * one),
            h > 8 * count_bound() * count_bound(),
            one > 0,
    ;
    nearest_is_near((units(a) * units(b)) as nat, one_in_units());
}

/// The reciprocal of a double is near the exact one, if the double is neither too small nor too
/// great.
pub proof fn reciprocals_are_near(d: Double)
    requires
        2 * units(d) >= one_in_units(),
        units(d) <= 2 * count_bound() * one_in_units(),
    ensures
        0 < double_reciprocal(d).bits < INFINITY_BITS,
        near(
            (units(double_reciprocal(d)) * units(d)) as int,
            (one_in_units() * one_in_units()) as int,
            1,
        ),
{
    lemma_unit();
    let one = one_in_units() as int;
    let h = pow2(1023) as int;
    let u = units(d) as int;
    assert(u * 0x10_0000_0000_0000 <= one * one) by (nonlinear_arith)
        requires
            u <= 2 * count_bound() * one,
            one >= 8 * count_bound() * 0x10_0000_0000_0000,
            one > 0,
    ;
    assert(one * one < u * (h * one)) by (nonlinear_arith)
        requires
            2 * u >= one,
            h > 2,
            one > 0,
    ;
    nearest_is_near((one_in_units() * one_in_units()) as nat, units(d));
}

pub proof fn lemma_bounds(u: int, v: int, j: int)
    requires
        near(u, v, j),
        0 <= j <= 1000,
        v >= 0,
    ensures
        v <= 2 * u,
        u <= 2 * v,
{
    let c = 0x10_0000_0000_0000int;
    assert(v <= 2 * u && u <= 2 * v) by (nonlinear_arith)
        requires
            v * (c - j) <= u * c,
            u * c <= v * (c + j),
            0 <= j <= 1000,
            v >= 0,
            c == 0x10_0000_0000_0000,
    ;
}

/// The product of two counts.
proof fn lemma_count_product(l: nat, r: nat)
    requires
        0 < l < count_bound(),
        0 < r < count_bound(),
    ensures
        ({
            let p = double_product(count_double(l), count_double(r));
            0 < p.bits < INFINITY_BITS && near(
                units(p) as int,
                (l * r * one_in_units()) as int,
                5,
            )
        }),
{
    lemma_unit();
    counts_are_near(l);
    counts_are_near(r);
    let one = one_in_units() as int;
    let a = count_double(l);
    let b = count_double(r);
    let ua = units(a) as int;
    let ub = units(b) as int;
    let la = (l * one) as int;
    let rb = (r * one) as int;
    assert(la >= 0 && rb >= 0) by (nonlinear_arith)
        requires
            la == l * one,
            rb == r * one,
            one > 0,
    ;
    lemma_bounds(ua, la, 1);
    lemma_bounds(ub, rb, 1);
    let w = count_bound();
    assert(one <= la <= w * one && one <= rb <= w * one) by (nonlinear_arith)
        requires
            la == l * one,
            rb == r * one,
            1 <= l < w,
            1 <= r < w,
            one > 0,
    ;
    assert(one * 0x10_0000_0000_0000 <= ua * ub <= 8 * w * w * (one * one)) by {
        assert(one * one <= 4 * (ua * ub)) by (nonlinear_arith)
            requires
                one <= 2 * ua,
                one <= 2 * ub,
                one > 0,
        ;
        assert(4 * (one * 0x10_0000_0000_0000) <= one * one) by (nonlinear_arith)
            requires
                one >= 8 * w * 0x10_0000_0000_0000,
                w == 0x1_0000_0000_0000_0000,
                one > 0,
        ;
        let m = 2 * (w * one);
        assert(ua * ub <= m * m) by (nonlinear_arith)
            requires
                0 <= ua <= m,
                0 <= ub <= m,
        ;
        assert(m * m <= 8 * w * w * (one * one)) by (nonlinear_arith)
            requires
                m == 2 * (w * one),
                w > 0,
                one > 0,
        ;
    }
    products_are_near(a, b);
    let p = units(double_product(a, b)) as int;
    // ua * ub is near la * ub, which is near la * rb
    assert(ua > 0 && ub > 0);
    lemma_near_scale(ua, la, 1, ub);
    lemma_near_scale(ub, rb, 1, la);
    assert(ub * la == la * ub && rb * la == la * rb) by (nonlinear_arith);
    assert(la * rb >= 0) by (nonlinear_arith)
        requires
            la >= 0,
            rb >= 0,
    ;
    lemma_near_chain(ua * ub, la * ub, la * rb, 1, 1);
    lemma_near_chain(p * one, ua * ub, la * rb, 1, 3);
    let n = (l * r * one) as int;
    assert(la * rb == n * one) by (nonlinear_arith)
        requires
            la == l * one,
            rb == r * one,
            n == l * r * one,
    ;
    lemma_near_scale(p, n, 5, one);
}

/// The reciprocal of a count, times the count, is near one.
pub proof fn reciprocals_of_counts_are_near(k: nat)
    requires
        0 < k < count_bound(),
    ensures
        ({
            let s = double_reciprocal(count_double(k));
            0 < s.bits < INFINITY_BITS && near((units(s) * k) as int, one_in_units() as int, 4)
        }),
{
    lemma_unit();
    counts_are_near(k);
    let one = one_in_units() as int;
    let w = count_bound();
    let d = count_double(k);
    let u = units(d) as int;
    let v = (k * one) as int;
    assert(one <= v <= w * one) by (nonlinear_arith)
        requires
            v == k * one,
            1 <= k < w,
            one > 0,
    ;
    lemma_bounds(u, v, 1);
    assert(u <= 2 * w * one) by (nonlinear_arith)
        requires
            u <= 2 * v,
            v <= w * one,
    ;
    reciprocals_are_near(d);
    let s = units(double_reciprocal(d)) as int;
    lemma_near_flip(u, v);
    if s == 0 {
        lemma_bounds((s * u) as int, (one * one) as int, 1);
        assert(s * u == 0) by (nonlinear_arith)
            requires
                s == 0,
        ;
        assert(one * one > 0) by (nonlinear_arith)
            requires
                one > 0,
        ;
    }
    lemma_near_scale(v, u, 2, s);
    assert(v * s == s * v && u * s == s * u) by (nonlinear_arith);
    assert(one * one >= 0) by (nonlinear_arith)
        requires
            one > 0,
    ;
    lemma_near_chain(s * v, s * u, one * one, 2, 1);
    assert(s * v == (s * k) * one) by (nonlinear_arith)
        requires
            v == k * one,
    ;
    lemma_near_scale(s * k, one, 4, one);
}

/// A product of two counts and of a share, in doubles, is near the exact quotient where the share is
/// near one over a third count.
pub proof fn shares_of_products_are_near(l: nat, r: nat, k: nat, s: Double, j: int)
    requires
        0 < l < count_bound(),
        0 < r < count_bound(),
        0 < k < count_bound(),
        0 < s.bits < INFINITY_BITS,
        0 <= j <= 100,
        near((units(s) * k) as int, one_in_units() as int, j),
    ensures
        ({
            let d = double_product(double_product(count_double(l), count_double(r)), s);
            0 < d.bits < INFINITY_BITS && near(
                (units(d) * k) as int,
                (l * r * one_in_units()) as int,
                j + 8,
            )
        }),
{
    lemma_unit();
    lemma_count_product(l, r);
    let one = one_in_units() as int;
    let w = count_bound();
    let p = double_product(count_double(l), count_double(r));
    let up = units(p) as int;
    let us = units(s) as int;
    let n = (l * r * one) as int;
    assert(one <= n <= w * w * one) by (nonlinear_arith)
        requires
            n == l * r * one,
            1 <= l < w,
            1 <= r < w,
            one > 0,
    ;
    lemma_bounds(up, n, 5);
    lemma_bounds((us * k) as int, one, j);
    assert(one <= 2 * w * us && us <= 2 * one) by (nonlinear_arith)
        requires
            one <= 2 * (us * k),
            us * k <= 2 * one,
            1 <= k < w,
            us >= 0,
    ;
    assert(one * 0x10_0000_0000_0000 <= up * us <= 8 * w * w * (one * one)) by {
        assert(one * one <= 4 * w * (up * us)) by (nonlinear_arith)
            requires
                one <= 2 * up,
                one <= 2 * w * us,
                one > 0,
                w > 0,
        ;
        assert(4 * w * (one * 0x10_0000_0000_0000) <= one * one) by (nonlinear_arith)
            requires
                one >= 8 * w * 0x10_0000_0000_0000,
                w > 0,
                one > 0,
        ;
        assert(one * 0x10_0000_0000_0000 <= up * us) by (nonlinear_arith)
            requires
                4 * w * (one * 0x10_0000_0000_0000) <= 4 * w * (up * us),
                w > 0,
        ;
        let m = 2 * (w * w * one);
        assert(up <= m);
        assert(up * us <= m * (2 * one)) by (nonlinear_arith)
            requires
                0 <= up <= m,
                0 <= us <= 2 * one,
        ;
        assert(m * (2 * one) <= 8 * w * w * (one * one)) by (nonlinear_arith)
            requires
                m == 2 * (w * w * one),
                w > 0,
                one > 0,
        ;
    }
    products_are_near(p, s);
    let u = units(double_product(p, s)) as int;
    // u * one * k is near up * us * k, which is near up * one, which is near n * one
    lemma_near_scale(u * one, up * us, 1, k as int);
    assert(up > 0);
    lemma_near_scale((us * k) as int, one, j, up);
    assert((us * k) * up == (up * us) * k) by (nonlinear_arith);
    lemma_near_scale(up, n, 5, one);
    assert(up * one == one * up) by (nonlinear_arith);
    assert(n * one >= 0) by (nonlinear_arith)
        requires
            n >= 0,
            one > 0,
    ;
    lemma_near_chain((up * us) * k, one * up, n * one, j, 5);
    lemma_near_chain((u * one) * k, (up * us) * k, n * one, 1, j + 6);
    assert((u * one) * k == (u * k) * one) by (nonlinear_arith);
    lemma_near_scale(u * k, n, j + 8, one);
}

/// Greater bits are no fewer units.
pub proof fn units_grow(a: Double, b: Double)
    requires
        a.bits <= b.bits,
    ensures
        units(a) <= units(b),
{
    lemma_powers();
    let f = 0x10_0000_0000_0000int;
    lemma_fundamental_div_mod(a.bits as int, f);
    lemma_fundamental_div_mod(b.bits as int, f);
    lemma_mod_bound(a.bits as int, f);
    lemma_mod_bound(b.bits as int, f);
    let ea = exponent(a);
    let eb = exponent(b);
    lemma_pow2_pos(ea);
    lemma_pow2_pos(eb);
    let pa = pow2(ea) as int;
    let pb = pow2(eb) as int;
    assert(ea <= eb) by {
        vstd::arithmetic::div_mod::lemma_div_is_ordered(a.bits as int, b.bits as int, f);
    }
    let ma = mantissa(a);
    let mb = mantissa(b);
    if ea == eb {
        assert(ma <= mb);
        assert(ma * pa <= mb * pa) by (nonlinear_arith)
            requires
                ma <= mb,
                pa > 0,
        ;
    } else {
        lemma_pow2_adds(1, ea);
        lemma_pow2_le(ea + 1, eb);
        assert(ma < 2 * f && f <= mb);
        assert(ma * pa <= mb * pb) by (nonlinear_arith)
            requires
                0 <= ma < 2 * f,
                f <= mb,
                2 * pa <= pb,
                pa > 0,
        ;
    }
}

/// One has as many units as it is said to have.
pub proof fn one_has_its_units()
    ensures
        units(Double { bits: 0x3ff0_0000_0000_0000 }) == one_in_units(),
{
    lemma_powers();
    let d = Double { bits: 0x3ff0_0000_0000_0000 };
    assert(mantissa(d) == 0x10_0000_0000_0000);
    assert(exponent(d) == 1022);
    lemma_pow2_adds(52, 1022);
}

/// A product with one is near the other factor.
pub proof fn products_with_one_are_near(a: Double, b: Double)
    requires
        0 < a.bits < INFINITY_BITS,
        b.bits == 0x3ff0_0000_0000_0000,
        0x10_0000_0000_0000 <= units(a),
        units(a) <= 8 * count_bound() * count_bound() * one_in_units(),
    ensures
        0 < double_product(a, b).bits < INFINITY_BITS,
        near(units(double_product(a, b)) as int, units(a) as int, 1),
        double_product(b, a) == double_product(a, b),
{
    lemma_unit();
    one_has_its_units();
    let one = one_in_units() as int;
    let u = units(a) as int;
    let w = count_bound();
    assert(one * 0x10_0000_0000_0000 <= u * one <= 8 * w * w * (one * one)) by (nonlinear_arith)
        requires
            0x10_0000_0000_0000 <= u <= 8 * w * w * one,
            one > 0,
    ;
    products_are_near(a, b);
    let v = units(double_product(a, b)) as int;
    lemma_near_scale(v, u, 1, one);
    assert(units(a) * units(b) == units(b) * units(a)) by (nonlinear_arith);
}

/// A sum of doubles is near the exact sum, if it is neither too small nor too great.
pub proof fn sums_are_near(a: Double, b: Double)
    requires
        units(a) + units(b) >= 0x10_0000_0000_0000,
        units(a) + units(b) <= 4 * count_bound() * count_bound() * one_in_units(),
    ensures
        0 < double_sum(a, b).bits < INFINITY_BITS,
        near(units(double_sum(a, b)) as int, (units(a) + units(b)) as int, 1),
{
    lemma_unit();
    let one = one_in_units() as int;
    let h = pow2(1023) as int;
    let w = count_bound();
    let num = units(a) + units(b);
    assert(num < 1 * (h * one)) by (nonlinear_arith)
        requires
            num <= 4 * w * w * one,
            h > 8 * w * w,
            one > 0,
            w > 0,
    ;
    nearest_is_near(num, 1);
    assert(units(double_sum(a, b)) * 1 == units(double_sum(a, b)));
}

/// Sums of near numbers are near.
pub proof fn lemma_near_add(a: int, x: int, b: int, y: int, j: int)
    requires
        near(a, x, j),
        near(b, y, j),
    ensures
        near(a + b, x + y, j),
{
    let c = 0x10_0000_0000_0000int;
    assert((a + b) * c == a * c + b * c) by (nonlinear_arith);
    assert((x + y) * (c - j) == x * (c - j) + y * (c - j)) by (nonlinear_arith);
    assert((x + y) * (c + j) == x * (c + j) + y * (c + j)) by (nonlinear_arith);
}

/// What is near is near by a wider measure too.
pub proof fn lemma_near_more(a: int, b: int, i: int, j: int)
    requires
        near(a, b, i),
        i <= j,
        b >= 0,
    ensures
        near(a, b, j),
{
    let c = 0x10_0000_0000_0000int;
    assert(b * (c - j) <= b * (c - i) && b * (c + i) <= b * (c + j)) by (nonlinear_arith)
        requires
            i <= j,
            b >= 0,
    ;
}

} // verus!
