//! Quotients as binary floating point computes them, in integers.
//!
//! A binary floating-point number keeps a fixed number of significant bits.
//! What does not fit is rounded to the nearest number that does, and to the
//! one with an even significand where two are equally near. Progress and
//! sample rates are computed that way; here the same results come from whole
//! numbers alone, counted in units so fine that no quotient that occurs is
//! too small for them.

use vstd::arithmetic::div_mod::{
    lemma_div_multiples_vanish_quotient, lemma_fundamental_div_mod,
    lemma_fundamental_div_mod_converse,
};
use vstd::arithmetic::power2::{
    lemma_pow2_adds, lemma_pow2_pos, lemma_pow2_strictly_increases, lemma_pow2_unfold, pow2,
};
use vstd::prelude::*;

verus! {

/// The significands of single precision lie below this: they have 24 bits.
pub const SINGLE: u128 = 0x100_0000;

/// The significands of double precision lie below this: they have 53 bits.
pub const DOUBLE: u128 = 0x20_0000_0000_0000;

/// How many units make one.
pub open spec fn one() -> nat {
    pow2(128)
}

/// `n` divided by `d`, rounded to the nearest whole number, and to the even
/// one where two are equally near.
pub open spec fn nearest(n: nat, d: nat) -> nat {
    if 2 * (n % d) < d || (2 * (n % d) == d && (n / d) % 2 == 0) {
        n / d
    } else {
        n / d + 1
    }
}

/// `n` divided by `d`, rounded to a number whose significand does not exceed
/// `limit`: whole numbers as long as they are small enough, then the multiples
/// of two, of four, and so on.
pub open spec fn rounded(n: nat, d: nat, limit: nat) -> nat
    decreases n - d,
{
    if d == 0 || limit < 2 || n < limit * d {
        nearest(n, d)
    } else {
        proof {
            assert(limit * d >= 2 * d) by (nonlinear_arith)
                requires
                    limit >= 2,
            ;
        }
        2 * rounded(n, 2 * d, limit)
    }
}

/// The quotient of `a` by `b`, in units, both converted and the result rounded
/// in the given precision.
pub open spec fn float_quotient(a: nat, b: nat, limit: nat) -> nat {
    rounded(rounded(a, 1, limit) * one(), rounded(b, 1, limit), limit)
}

/// The whole part of the quotient of `a` by `b` in single precision.
pub open spec fn single_quotient(a: nat, b: nat) -> nat {
    float_quotient(a, b, SINGLE as nat) / one()
}

/// The whole part of `done` divided by `total`, times `factor`, in double
/// precision.
pub open spec fn double_share(done: nat, total: nat, factor: nat) -> nat {
    rounded(float_quotient(done, total, DOUBLE as nat) * factor, 1, DOUBLE as nat) / one()
}

/// Rounding to the nearest keeps the order.
proof fn lemma_nearest_grows(n: nat, m: nat, d: nat)
    requires
        n <= m,
        d > 0,
    ensures
        nearest(n, d) <= nearest(m, d),
        n / d <= nearest(n, d) <= n / d + 1,
{
    lemma_fundamental_div_mod(n as int, d as int);
    lemma_fundamental_div_mod(m as int, d as int);
    let (p, q) = ((n / d) as int, (m / d) as int);
    assert(p <= q) by (nonlinear_arith)
        requires
            n == d * p + n % d,
            m == d * q + m % d,
            0 <= n % d < d,
            0 <= m % d < d,
            n <= m,
            d > 0,
    ;
    if p == q {
        assert(n % d <= m % d);
    }
}

/// What lies below `k` times the divisor is rounded to `k` at most, and what
/// reaches it to `k` at least.
proof fn lemma_nearest_bound(n: nat, d: nat, k: nat)
    requires
        d > 0,
    ensures
        n <= k * d ==> nearest(n, d) <= k,
        n >= k * d ==> nearest(n, d) >= k,
        nearest(k * d, d) == k,
{
    assert(k * d == d * k) by (nonlinear_arith);
    lemma_fundamental_div_mod_converse((k * d) as int, d as int, k as int, 0);
    if n <= k * d {
        lemma_nearest_grows(n, k * d, d);
    }
    if n >= k * d {
        lemma_nearest_grows(k * d, n, d);
    }
}

/// Rounding a fraction does not depend on a common factor of two.
proof fn lemma_rounded_halves(n: nat, d: nat, limit: nat)
    requires
        d > 0,
        limit >= 2,
    ensures
        rounded(2 * n, 2 * d, limit) == rounded(n, d, limit),
    decreases n - d,
{
    assert(limit * (2 * d) == 2 * (limit * d)) by (nonlinear_arith);
    if n < limit * d {
        lemma_fundamental_div_mod(n as int, d as int);
        let q = (n / d) as int;
        let r = (n % d) as int;
        assert(2 * n == q * (2 * d) + 2 * r) by (nonlinear_arith)
            requires
                n == d * q + r,
        ;
        lemma_fundamental_div_mod_converse((2 * n) as int, (2 * d) as int, q, 2 * r);
    } else {
        assert(limit * d >= 2 * d) by (nonlinear_arith)
            requires
                limit >= 2,
        ;
        lemma_rounded_halves(n, 2 * d, limit);
    }
}

/// Once a number has all its significant bits, finer units do not change how
/// it is rounded.
proof fn lemma_rounded_scales(n: nat, d: nat, t: nat, limit: nat)
    requires
        d > 0,
        limit >= 2,
        2 * n >= limit * d,
    ensures
        rounded(n * pow2(t), d, limit) == rounded(n, d, limit) * pow2(t),
    decreases t,
{
    if t == 0 {
        vstd::arithmetic::power2::lemma2_to64();
        assert(n * 1 == n);
        assert(rounded(n, d, limit) * 1 == rounded(n, d, limit));
    } else {
        let s = (t - 1) as nat;
        lemma_rounded_scales(n, d, s, limit);
        lemma_pow2_unfold(t);
        lemma_pow2_pos(s);
        let m = n * pow2(s);
        assert(m >= n) by (nonlinear_arith)
            requires
                m == n * pow2(s),
                pow2(s) > 0,
        ;
        assert(n * pow2(t) == 2 * m) by (nonlinear_arith)
            requires
                pow2(t) == 2 * pow2(s),
                m == n * pow2(s),
        ;
        lemma_rounded_halves(m, d, limit);
        assert(rounded(n, d, limit) * pow2(t) == 2 * (rounded(n, d, limit) * pow2(s)))
            by (nonlinear_arith)
            requires
                pow2(t) == 2 * pow2(s),
        ;
    }
}

/// What reaches the limit is not rounded below it.
proof fn lemma_rounded_reaches(n: nat, d: nat, limit: nat)
    requires
        d > 0,
        limit >= 2,
        limit % 2 == 0,
        n >= limit * d,
    ensures
        rounded(n, d, limit) >= limit,
    decreases n - d,
{
    assert(limit * d >= 2 * d) by (nonlinear_arith)
        requires
            limit >= 2,
    ;
    if n >= limit * (2 * d) {
        lemma_rounded_reaches(n, 2 * d, limit);
    } else {
        let half = limit / 2;
        assert(half * (2 * d) == limit * d) by (nonlinear_arith)
            requires
                2 * half == limit,
        ;
        lemma_nearest_bound(n, 2 * d, half);
        assert(rounded(n, 2 * d, limit) == nearest(n, 2 * d));
    }
}

/// Rounding keeps the order.
proof fn lemma_rounded_grows(n: nat, m: nat, d: nat, limit: nat)
    requires
        n <= m,
        d > 0,
        limit >= 2,
        limit % 2 == 0,
    ensures
        rounded(n, d, limit) <= rounded(m, d, limit),
    decreases m - d,
{
    if m < limit * d {
        lemma_nearest_grows(n, m, d);
    } else {
        assert(limit * d >= 2 * d) by (nonlinear_arith)
            requires
                limit >= 2,
        ;
        if n < limit * d {
            lemma_nearest_bound(n, d, limit);
            lemma_rounded_reaches(m, d, limit);
        } else {
            lemma_rounded_grows(n, m, 2 * d, limit);
        }
    }
}

/// A number that has few enough significant bits is not changed.
proof fn lemma_rounded_exact(c: nat, t: nat, d: nat, limit: nat)
    requires
        d > 0,
        limit >= 2,
        c < limit,
    ensures
        rounded(c * pow2(t) * d, d, limit) == c * pow2(t),
    decreases t,
{
    let k = c * pow2(t);
    lemma_nearest_bound(k * d, d, k);
    if k * d < limit * d {
    } else if t == 0 {
        vstd::arithmetic::power2::lemma2_to64();
        assert(c * 1 == c);
        assert(c * d < limit * d) by (nonlinear_arith)
            requires
                c < limit,
                d > 0,
        ;
    } else {
        let s = (t - 1) as nat;
        lemma_pow2_unfold(t);
        let h = c * pow2(s);
        assert(k == 2 * h) by (nonlinear_arith)
            requires
                k == c * pow2(t),
                h == c * pow2(s),
                pow2(t) == 2 * pow2(s),
        ;
        assert(k * d == h * (2 * d)) by (nonlinear_arith)
            requires
                k == 2 * h,
        ;
        lemma_rounded_exact(c, s, 2 * d, limit);
    }
}

/// A whole number below the limit converts to itself, and one that is not zero
/// never converts to zero.
proof fn lemma_conversion(n: nat, limit: nat)
    requires
        limit >= 2,
        limit % 2 == 0,
    ensures
        n < limit ==> rounded(n, 1, limit) == n,
        n > 0 ==> rounded(n, 1, limit) > 0,
{
    lemma_nearest_bound(n, 1, n);
    if n > 0 {
        lemma_nearest_bound(1, 1, 1);
        lemma_rounded_grows(1, n, 1, limit);
    }
}

/// A share grows with what is done, is nothing at the start, and is exactly
/// the factor at the end.
pub proof fn law_share_grows_to_its_factor(earlier: nat, later: nat, total: nat, factor: nat)
    requires
        earlier <= later <= total,
        0 < total,
        factor < DOUBLE,
    ensures
        double_share(earlier, total, factor) <= double_share(later, total, factor) <= factor,
        double_share(0, total, factor) == 0,
        double_share(total, total, factor) == factor,
{
    lemma_share_grows(earlier, later, total, factor);
    lemma_share_grows(later, total, total, factor);
    let limit = DOUBLE as nat;
    let b = rounded(total, 1, limit);
    lemma_conversion(total, limit);
    lemma_pow2_pos(128);
    lemma_rounded_exact(1, 128, b, limit);
    assert(1 * pow2(128) * b == b * one()) by (nonlinear_arith);
    assert(float_quotient(total, total, limit) == one());
    lemma_rounded_exact(factor, 128, 1, limit);
    assert(factor * pow2(128) * 1 == one() * factor) by (nonlinear_arith);
    lemma_fundamental_div_mod_converse(
        (factor * one()) as int,
        one() as int,
        factor as int,
        0,
    );
    lemma_conversion(0, limit);
    assert(0 * one() == 0) by (nonlinear_arith);
    lemma_nearest_bound(0, b, 0);
    assert(0 < limit * b) by (nonlinear_arith)
        requires
            limit > 0,
            b > 0,
    ;
    assert(0 * b == 0) by (nonlinear_arith);
    assert(float_quotient(0, total, limit) == 0);
    assert(0 * factor == 0) by (nonlinear_arith);
    assert(0int / (one() as int) == 0) by {
        lemma_fundamental_div_mod_converse(0, one() as int, 0, 0);
    }
}

/// A share grows with what is done.
proof fn lemma_share_grows(earlier: nat, later: nat, total: nat, factor: nat)
    requires
        earlier <= later,
        0 < total,
    ensures
        double_share(earlier, total, factor) <= double_share(later, total, factor),
{
    let limit = DOUBLE as nat;
    let b = rounded(total, 1, limit);
    lemma_conversion(total, limit);
    lemma_pow2_pos(128);
    lemma_rounded_grows(earlier, later, 1, limit);
    let (a, c) = (rounded(earlier, 1, limit), rounded(later, 1, limit));
    assert(a * one() <= c * one()) by (nonlinear_arith)
        requires
            a <= c,
    ;
    lemma_rounded_grows(a * one(), c * one(), b, limit);
    let (v, w) = (rounded(a * one(), b, limit), rounded(c * one(), b, limit));
    assert(v * factor <= w * factor) by (nonlinear_arith)
        requires
            v <= w,
    ;
    lemma_rounded_grows(v * factor, w * factor, 1, limit);
    vstd::arithmetic::div_mod::lemma_div_is_ordered(
        rounded(v * factor, 1, limit) as int,
        rounded(w * factor, 1, limit) as int,
        one() as int,
    );
}

/// `n` divided by `d`, rounded to the nearest whole number.
fn nearest_of(n: u128, d: u128) -> (q: u128)
    requires
        0 < d,
        n < 0x100_0000_0000_0000_0000_0000_0000_0000,
    ensures
        q == nearest(n as nat, d as nat),
{
    let q: u128 = n / d;
    let r: u128 = n % d;
    assert(q <= n) by (nonlinear_arith)
        requires
            q == n / d,
            d > 0,
    ;
    if r < d - r || (r == d - r && q % 2 == 0) {
        q
    } else {
        q + 1
    }
}

/// `n` rounded to a number whose significand does not exceed `limit`.
fn round_whole(n: u128, limit: u128) -> (v: u128)
    requires
        n < 0x100_0000_0000_0000_0000,
        2 <= limit <= DOUBLE,
    ensures
        v == rounded(n as nat, 1, limit as nat),
        v <= 2 * n + 1,
{
    let mut unit: u128 = 1;
    let mut bound: u128 = limit;
    assert(1 * rounded(n as nat, 1, limit as nat) == rounded(n as nat, 1, limit as nat));
    while n >= bound
        invariant
            n < 0x100_0000_0000_0000_0000,
            2 <= limit <= DOUBLE,
            0 < unit,
            bound == limit * unit,
            bound <= limit || bound <= 2 * n,
            unit == 1 || unit <= n,
            rounded(n as nat, 1, limit as nat) == unit * rounded(
                n as nat,
                unit as nat,
                limit as nat,
            ),
        decreases n + 1 - unit,
    {
        assert(bound >= 2 * unit) by (nonlinear_arith)
            requires
                bound == limit * unit,
                limit >= 2,
        ;
        assert(limit * (2 * unit) == 2 * bound) by (nonlinear_arith)
            requires
                bound == limit * unit,
        ;
        let ghost rest = rounded(n as nat, (2 * unit) as nat, limit as nat);
        assert(unit * (2 * rest) == (2 * unit) * rest) by (nonlinear_arith);
        unit = 2 * unit;
        bound = 2 * bound;
    }
    let q = nearest_of(n, unit);
    proof {
        lemma_nearest_grows(n as nat, n as nat, unit as nat);
        lemma_fundamental_div_mod(n as int, unit as int);
        assert(unit * q <= n + unit) by (nonlinear_arith)
            requires
                q <= n / unit + 1,
                n == unit * (n / unit) + n % unit,
                0 <= n % unit,
        ;
    }
    unit * q
}

/// The quotient of `a` by `b` with all its significant bits: the significand,
/// and how many of its units make one.
fn quotient_of(a: u128, b: u128, limit: u128) -> (result: (u128, u128, Ghost<nat>))
    requires
        0 < a,
        0 < b <= 0x2_0000_0000_0000_0000,
        2 * a < limit * b,
        2 <= limit <= DOUBLE,
        limit % 2 == 0,
    ensures
        result.2@ <= 128,
        result.1 == pow2(result.2@),
        2 * result.0 >= limit,
        result.0 <= limit,
        rounded(a as nat * one(), b as nat, limit as nat) == result.0 * pow2(
            (128 - result.2@) as nat,
        ),
{
    let half: u128 = limit / 2;
    let mut n: u128 = a;
    let mut units: u128 = 1;
    let ghost mut t: nat = 0;
    assert(half * b <= 0x40_0000_0000_0000_0000_0000_0000_0000 && half * b >= 0)
        by (nonlinear_arith)
        requires
            half <= 0x10_0000_0000_0000,
            b <= 0x2_0000_0000_0000_0000,
    ;
    assert(2 * (half * b) == limit * b) by (nonlinear_arith)
        requires
            2 * half == limit,
    ;
    proof {
        vstd::arithmetic::power2::lemma2_to64();
    }
    let target: u128 = half * b;
    while n < target
        invariant
            0 < a,
            target == half * b,
            target <= 0x40_0000_0000_0000_0000_0000_0000_0000,
            n < 2 * target,
            units == pow2(t),
            n == a * units,
            0 < units <= n,
        decreases 2 * target - n,
    {
        proof {
            lemma_pow2_unfold(t + 1);
            assert(2 * n == a * (2 * units)) by (nonlinear_arith)
                requires
                    n == a * units,
            ;
            t = t + 1;
        }
        n = 2 * n;
        units = 2 * units;
    }
    proof {
        // The units are fewer than those of `one`.
        lemma_one();
        if t > 128 {
            lemma_pow2_strictly_increases(128, t);
        }
        let rest = (128 - t) as nat;
        lemma_pow2_adds(t, rest);
        assert(a * one() == n * pow2(rest)) by (nonlinear_arith)
            requires
                n == a * units,
                units == pow2(t),
                one() == pow2(t) * pow2(rest),
        ;
        lemma_rounded_scales(n as nat, b as nat, rest, limit as nat);
        lemma_nearest_bound(n as nat, b as nat, half as nat);
        lemma_nearest_bound(n as nat, b as nat, limit as nat);
    }
    let significand = nearest_of(n, b);
    (significand, units, Ghost(t))
}

/// How many units make one, written out.
proof fn lemma_one()
    ensures
        one() == 0x1_0000_0000_0000_0000_0000_0000_0000_0000int,
{
    vstd::arithmetic::power2::lemma2_to64();
    lemma_pow2_adds(64, 64);
    assert(0x1_0000_0000_0000_0000int * 0x1_0000_0000_0000_0000int
        == 0x1_0000_0000_0000_0000_0000_0000_0000_0000int) by (nonlinear_arith);
}

/// A count of units, brought back to whole numbers.
proof fn lemma_whole(r: nat, t: nat)
    requires
        t <= 128,
    ensures
        (r * pow2((128 - t) as nat)) / one() == r / pow2(t),
{
    let rest = (128 - t) as nat;
    lemma_pow2_adds(t, rest);
    lemma_pow2_pos(rest);
    lemma_pow2_pos(t);
    lemma_div_multiples_vanish_quotient(pow2(rest) as int, r as int, pow2(t) as int);
    assert(pow2(rest) * r == r * pow2(rest)) by (nonlinear_arith);
    assert(pow2(rest) * pow2(t) == one()) by (nonlinear_arith)
        requires
            one() == pow2(t) * pow2(rest),
    ;
}

/// What is a small multiple of the divisor at most has a quotient of as much
/// at most, and what reaches it has one of as much at least.
proof fn lemma_quotient_bound(a: nat, b: nat, k: nat, limit: nat)
    requires
        b > 0,
        limit >= 2,
        limit % 2 == 0,
        k < limit,
    ensures
        a <= k * b ==> rounded(a * one(), b, limit) <= k * one(),
        a >= k * b ==> rounded(a * one(), b, limit) >= k * one(),
{
    lemma_pow2_pos(128);
    lemma_rounded_exact(k, 128, b, limit);
    assert(k * pow2(128) * b == (k * b) * one()) by (nonlinear_arith);
    if a <= k * b {
        assert(a * one() <= (k * b) * one()) by (nonlinear_arith)
            requires
                a <= k * b,
        ;
        lemma_rounded_grows(a * one(), (k * b) * one(), b, limit);
    }
    if a >= k * b {
        assert(a * one() >= (k * b) * one()) by (nonlinear_arith)
            requires
                a >= k * b,
        ;
        lemma_rounded_grows((k * b) * one(), a * one(), b, limit);
    }
}

/// The quotient of any rate by `b` in single precision is at most `k`, where
/// `k` times `b` exceeds all rates.
pub proof fn lemma_single_quotient_bound(a: u32, b: nat, k: nat)
    requires
        0 < b < SINGLE,
        k < SINGLE,
        k * b >= 0x1_0000_0000,
    ensures
        single_quotient(a as nat, b) <= k,
{
    let limit = SINGLE as nat;
    vstd::arithmetic::power2::lemma2_to64();
    lemma_rounded_exact(1, 32, 1, limit);
    lemma_rounded_grows(a as nat, 0x1_0000_0000, 1, limit);
    lemma_conversion(b, limit);
    lemma_quotient_bound(rounded(a as nat, 1, limit), b, k, limit);
    lemma_pow2_pos(128);
    vstd::arithmetic::div_mod::lemma_div_is_ordered(
        float_quotient(a as nat, b, limit) as int,
        (k * one()) as int,
        one() as int,
    );
    lemma_fundamental_div_mod_converse((k * one()) as int, one() as int, k as int, 0);
}

/// The whole part of the quotient of two rates in single precision.
pub fn quotient_of_rates(a: u32, b: u32) -> (q: u32)
    requires
        0x1000 <= b < SINGLE,
    ensures
        q == single_quotient(a as nat, b as nat),
{
    let limit: u128 = SINGLE;
    let n = round_whole(a as u128, limit);
    proof {
        lemma_conversion(b as nat, limit as nat);
        lemma_pow2_pos(128);
        lemma_one();
    }
    if n == 0 {
        proof {
            lemma_quotient_bound(0, b as nat, 0, limit as nat);
            assert(0 * one() == 0) by (nonlinear_arith);
            lemma_fundamental_div_mod_converse(0, one() as int, 0, 0);
        }
        return 0;
    }
    let (significand, units, Ghost(t)) = quotient_of(n, b as u128, limit);
    proof {
        lemma_whole(significand as nat, t);
        lemma_pow2_pos(t);
        assert(significand / units <= significand) by (nonlinear_arith)
            requires
                units > 0,
        ;
    }
    (significand / units) as u32
}

/// The whole part of `done` divided by `total`, times `factor`, in double
/// precision; 255 where it is more.
pub fn share(done: u64, total: u64, factor: u8) -> (percent: u8)
    requires
        0 < total,
        0 < factor,
    ensures
        percent == (if double_share(done as nat, total as nat, factor as nat) > 255 {
            255
        } else {
            double_share(done as nat, total as nat, factor as nat)
        }),
{
    let limit: u128 = DOUBLE;
    let n = round_whole(done as u128, limit);
    let d = round_whole(total as u128, limit);
    let ghost v = float_quotient(done as nat, total as nat, limit as nat);
    proof {
        lemma_conversion(total as nat, limit as nat);
        lemma_pow2_pos(128);
        lemma_one();
    }
    if n == 0 {
        proof {
            lemma_quotient_bound(0, d as nat, 0, limit as nat);
            assert(0 * one() == 0) by (nonlinear_arith);
            assert(0 * factor as nat == 0) by (nonlinear_arith);
            lemma_conversion(0, limit as nat);
            lemma_fundamental_div_mod_converse(0, one() as int, 0, 0);
        }
        return 0;
    }
    if n >= 256 * d {
        proof {
            lemma_quotient_bound(n as nat, d as nat, 256, limit as nat);
            assert(v * factor as nat >= 256 * one()) by (nonlinear_arith)
                requires
                    v >= 256 * one(),
                    factor >= 1,
            ;
            lemma_rounded_exact(256, 128, 1, limit as nat);
            assert(256 * pow2(128) * 1 == 256 * one());
            let r = rounded(v * factor as nat, 1, limit as nat);
            lemma_rounded_grows(256 * one(), v * factor as nat, 1, limit as nat);
            vstd::arithmetic::div_mod::lemma_div_is_ordered(
                (256 * one()) as int,
                r as int,
                one() as int,
            );
            lemma_fundamental_div_mod_converse((256 * one()) as int, one() as int, 256, 0);
        }
        return 255;
    }
    let (significand, units, Ghost(t)) = quotient_of(n, d, limit);
    assert(significand * factor as u128 <= DOUBLE * 255 && significand * factor as u128
        >= significand) by (nonlinear_arith)
        requires
            significand <= DOUBLE,
            1 <= factor <= 255,
            DOUBLE == 0x20_0000_0000_0000,
    ;
    let product: u128 = significand * factor as u128;
    let result = round_whole(product, limit);
    proof {
        let rest = (128 - t) as nat;
        assert(v * factor as nat == product as nat * pow2(rest)) by (nonlinear_arith)
            requires
                v == significand * pow2(rest),
                product == significand * factor,
        ;
        lemma_rounded_scales(product as nat, 1, rest, limit as nat);
        lemma_whole(result as nat, t);
        lemma_pow2_pos(t);
    }
    let whole: u128 = result / units;
    if whole > 255 {
        255
    } else {
        whole as u8
    }
}

/// Rounding to the nearest is off by half at most, and by half only where the
/// result is even.
pub proof fn law_nearest_is_nearest(n: nat, d: nat)
    requires
        d > 0,
    ensures
        -(d as int) <= 2 * (nearest(n, d) * d - n) <= d,
        2 * (nearest(n, d) * d - n) == d || 2 * (n - nearest(n, d) * d) == d ==> nearest(n, d) % 2
            == 0,
{
    lemma_fundamental_div_mod(n as int, d as int);
    let q = (n / d) as int;
    assert(q * d == d * q) by (nonlinear_arith);
    assert((q + 1) * d == d * q + d) by (nonlinear_arith);
}

/// A rounded quotient is off by half a unit at most while it is small, and by
/// less than one part in `limit` beyond.
pub proof fn law_rounding_error_is_small(n: nat, d: nat, limit: nat)
    requires
        d > 0,
        limit >= 2,
    ensures
        ({
            let off = rounded(n, d, limit) * d - n;
            n < limit * d ==> -(d as int) <= 2 * off <= d
        }),
        ({
            let off = rounded(n, d, limit) * d - n;
            n >= limit * d ==> -(n as int) <= limit * off <= n
        }),
    decreases n - d,
{
    if n < limit * d {
        law_nearest_is_nearest(n, d);
    } else {
        assert(limit * d >= 2 * d) by (nonlinear_arith)
            requires
                limit >= 2,
        ;
        law_rounding_error_is_small(n, 2 * d, limit);
        let half = rounded(n, 2 * d, limit);
        let off = half * (2 * d) - n;
        assert((2 * half) * d == half * (2 * d)) by (nonlinear_arith);
        if n < limit * (2 * d) {
            assert(-(n as int) <= limit * off <= n) by (nonlinear_arith)
                requires
                    -(2 * d) <= 2 * off <= 2 * d,
                    n >= limit * d,
                    limit >= 2,
            ;
        }
    }
}

/// A whole number that is small enough stays as it is.
pub proof fn law_small_numbers_are_exact(n: nat, limit: nat)
    requires
        limit >= 2,
        limit % 2 == 0,
        n < limit,
    ensures
        rounded(n, 1, limit) == n,
{
    lemma_conversion(n, limit);
}

/// A whole number is off by less than one part in `limit` once converted.
proof fn lemma_conversion_error(n: nat, limit: nat)
    requires
        limit >= 2,
        limit % 2 == 0,
    ensures
        (limit - 1) * n <= limit * rounded(n, 1, limit) <= (limit + 1) * n,
{
    let v = rounded(n, 1, limit);
    assert((limit - 1) * n == limit * n - n) by (nonlinear_arith);
    assert((limit + 1) * n == limit * n + n) by (nonlinear_arith);
    assert(limit * (v - n) == limit * v - limit * n) by (nonlinear_arith);
    lemma_conversion(n, limit);
    law_rounding_error_is_small(n, 1, limit);
    assert(v * 1 == v);
    assert(limit * 1 == limit);
}

/// A quotient in units is off by less than one part in `limit`.
proof fn lemma_division_error(a: nat, b: nat, limit: nat)
    requires
        0 < b,
        2 <= limit,
        limit % 2 == 0,
        limit * b <= 2 * one(),
    ensures
        (limit - 1) * (a * one()) <= limit * (rounded(a * one(), b, limit) * b) <= (limit + 1) * (a
            * one()),
{
    let n = a * one();
    let x = rounded(n, b, limit) * b;
    assert((limit - 1) * n == limit * n - n) by (nonlinear_arith);
    assert((limit + 1) * n == limit * n + n) by (nonlinear_arith);
    assert(limit * (x - n) == limit * x - limit * n) by (nonlinear_arith);
    law_rounding_error_is_small(n, b, limit);
    if n < limit * b {
        if a == 0 {
            assert(n == 0) by (nonlinear_arith)
                requires
                    n == a * one(),
                    a == 0,
            ;
            lemma_nearest_bound(0, b, 0);
            assert(0 * b == 0) by (nonlinear_arith);
            assert(limit * 0 == 0) by (nonlinear_arith);
        } else {
            assert(n >= one()) by (nonlinear_arith)
                requires
                    n == a * one(),
                    a >= 1,
            ;
            assert(-(limit * b) <= 2 * (limit * (x - n)) <= limit * b) by (nonlinear_arith)
                requires
                    -(b as int) <= 2 * (x - n) <= b,
                    limit >= 0,
            ;
        }
    }
}

/// The quotient of two whole numbers, in units, is off by little more than
/// three parts in `limit`: one for each rounding.
proof fn lemma_float_quotient_error(a: nat, b: nat, limit: nat)
    requires
        0 < b,
        2 <= limit,
        limit % 2 == 0,
        (limit + 1) * b <= 2 * one(),
    ensures
        ({
            let x = float_quotient(a, b, limit) * b;
            let y = a * one();
            &&& (limit - 1) * (limit * x) <= (limit + 1) * ((limit + 1) * y)
            &&& (limit - 1) * ((limit - 1) * y) <= (limit + 1) * (limit * x)
        }),
{
    let (c, d) = (rounded(a, 1, limit), rounded(b, 1, limit));
    let q = float_quotient(a, b, limit);
    let x = q * b;
    let y = a * one();
    lemma_conversion(b, limit);
    lemma_conversion_error(a, limit);
    lemma_conversion_error(b, limit);
    lemma_pow2_pos(128);
    lemma_division_error(c, d, limit);
    let z = q * d;
    let w = c * one();
    // From the divisor to the one it was converted to.
    assert((limit - 1) * x <= limit * z <= (limit + 1) * x) by (nonlinear_arith)
        requires
            x == q * b,
            z == q * d,
            (limit - 1) * b <= limit * d <= (limit + 1) * b,
            q >= 0,
    ;
    // From the dividend to the one it was converted to.
    assert((limit - 1) * y <= limit * w <= (limit + 1) * y) by (nonlinear_arith)
        requires
            y == a * one(),
            w == c * one(),
            (limit - 1) * a <= limit * c <= (limit + 1) * a,
            one() >= 0,
    ;
    assert((limit - 1) * (limit * x) <= limit * (limit * z)) by (nonlinear_arith)
        requires
            (limit - 1) * x <= limit * z,
            limit >= 0,
    ;
    assert(limit * (limit * z) <= limit * ((limit + 1) * w)) by (nonlinear_arith)
        requires
            limit * z <= (limit + 1) * w,
            limit >= 0,
    ;
    assert(limit * ((limit + 1) * w) <= (limit + 1) * ((limit + 1) * y)) by (nonlinear_arith)
        requires
            limit * w <= (limit + 1) * y,
            limit >= 0,
    ;
    assert((limit - 1) * ((limit - 1) * y) <= (limit - 1) * (limit * w)) by (nonlinear_arith)
        requires
            (limit - 1) * y <= limit * w,
            limit >= 1,
    ;
    assert((limit - 1) * (limit * w) <= limit * (limit * z)) by (nonlinear_arith)
        requires
            (limit - 1) * w <= limit * z,
            limit >= 0,
    ;
    assert(limit * (limit * z) <= (limit + 1) * (limit * x)) by (nonlinear_arith)
        requires
            limit * z <= (limit + 1) * x,
            limit >= 0,
    ;
}

/// What holds of two numbers of units holds of the whole numbers.
proof fn lemma_cancel_one(m: int, n: int)
    ensures
        m * one() <= n * one() ==> m <= n,
        m * one() < n * one() ==> m < n,
{
    lemma_pow2_pos(128);
    assert(m * one() <= n * one() ==> m <= n) by (nonlinear_arith)
        requires
            one() > 0,
    ;
    assert(m * one() < n * one() ==> m < n) by (nonlinear_arith)
        requires
            one() > 0,
    ;
}

/// The quotient of two rates in single precision is the whole part of the true
/// quotient, as far as six parts in two to the twenty-fourth can tell.
pub proof fn law_quotient_of_rates_is_nearly_exact(a: nat, b: nat)
    requires
        0 < b <= u64::MAX,
    ensures
        single_quotient(a, b) * b * 16_777_216 <= 16_777_222 * a,
        a > 0 ==> 16_777_210 * a < (single_quotient(a, b) + 1) * b * 16_777_216,
{
    let limit = SINGLE as nat;
    lemma_one();
    lemma_float_quotient_error(a, b, limit);
    let q = float_quotient(a, b, limit);
    let s = single_quotient(a, b);
    let x = q * b;
    let y = a * one();
    lemma_fundamental_div_mod(q as int, one() as int);
    assert(one() * s == s * one()) by (nonlinear_arith);
    assert(s * b * one() <= x) by (nonlinear_arith)
        requires
            x == q * b,
            s * one() <= q,
    ;
    assert(x < (s + 1) * b * one()) by (nonlinear_arith)
        requires
            x == q * b,
            q < (s + 1) * one(),
            b > 0,
    ;
    assert(limit == 16_777_216);
    assert(16_777_215 * (16_777_216 * x) <= 16_777_217 * (16_777_217 * y));
    assert(16_777_216 * x <= 16_777_222 * y) by (nonlinear_arith)
        requires
            16_777_215 * (16_777_216 * x) <= 16_777_217 * (16_777_217 * y),
            y >= 0,
    ;
    assert(16_777_215 * (16_777_215 * y) <= 16_777_217 * (16_777_216 * x));
    assert(16_777_210 * y <= 16_777_216 * x) by (nonlinear_arith)
        requires
            16_777_215 * (16_777_215 * y) <= 16_777_217 * (16_777_216 * x),
            y >= 0,
    ;
    let t = s * b;
    assert((t * 16_777_216) * one() == 16_777_216 * (t * one())) by (nonlinear_arith);
    assert((16_777_222 * a) * one() == 16_777_222 * y) by (nonlinear_arith)
        requires
            y == a * one(),
    ;
    lemma_cancel_one((t * 16_777_216) as int, (16_777_222 * a) as int);
    let u = (s + 1) * b;
    assert((u * 16_777_216) * one() == 16_777_216 * (u * one())) by (nonlinear_arith);
    assert((16_777_210 * a) * one() == 16_777_210 * y) by (nonlinear_arith)
        requires
            y == a * one(),
    ;
    lemma_cancel_one((16_777_210 * a) as int, (u * 16_777_216) as int);
}

/// A share in double precision is the whole part of the true share, as far as
/// six parts in two to the fifty-third can tell.
pub proof fn law_share_is_nearly_exact(done: nat, total: nat, factor: nat)
    requires
        0 < total <= u64::MAX,
    ensures
        double_share(done, total, factor) * total * 9_007_199_254_740_992
            <= 9_007_199_254_740_998 * (factor * done),
        done > 0 && factor > 0 ==> 9_007_199_254_740_986 * (factor * done) < (double_share(
            done,
            total,
            factor,
        ) + 1) * total * 9_007_199_254_740_992,
{
    let limit = DOUBLE as nat;
    lemma_one();
    lemma_float_quotient_error(done, total, limit);
    let q = float_quotient(done, total, limit);
    lemma_conversion_error(q * factor, limit);
    let r = rounded(q * factor, 1, limit);
    let s = double_share(done, total, factor);
    let x = q * total;
    let y = done * one();
    // The product of the quotient and the factor, and what it stands for.
    let fx = factor * x;
    let fy = factor * y;
    assert((limit - 1) * (limit * fx) <= (limit + 1) * ((limit + 1) * fy)) by (nonlinear_arith)
        requires
            fx == factor * x,
            fy == factor * y,
            (limit - 1) * (limit * x) <= (limit + 1) * ((limit + 1) * y),
            factor >= 0,
    ;
    assert((limit - 1) * ((limit - 1) * fy) <= (limit + 1) * (limit * fx)) by (nonlinear_arith)
        requires
            fx == factor * x,
            fy == factor * y,
            (limit - 1) * ((limit - 1) * y) <= (limit + 1) * (limit * x),
            factor >= 0,
    ;
    let rt = r * total;
    assert((limit - 1) * fx <= limit * rt <= (limit + 1) * fx) by (nonlinear_arith)
        requires
            fx == factor * x,
            x == q * total,
            rt == r * total,
            (limit - 1) * (q * factor) <= limit * r <= (limit + 1) * (q * factor),
            total >= 0,
    ;
    lemma_fundamental_div_mod(r as int, one() as int);
    assert(one() * s == s * one()) by (nonlinear_arith);
    assert(s * total * one() <= rt) by (nonlinear_arith)
        requires
            rt == r * total,
            s * one() <= r,
    ;
    assert(rt < (s + 1) * total * one()) by (nonlinear_arith)
        requires
            rt == r * total,
            r < (s + 1) * one(),
            total > 0,
    ;
    assert(9_007_199_254_740_992 * rt <= 9_007_199_254_740_998 * fy);
    assert(9_007_199_254_740_986 * fy <= 9_007_199_254_740_992 * rt);
    let n = factor * done;
    assert(fy == n * one()) by (nonlinear_arith)
        requires
            fy == factor * y,
            y == done * one(),
            n == factor * done,
    ;
    let t = s * total;
    assert((t * 9_007_199_254_740_992) * one() == 9_007_199_254_740_992 * (t * one()))
        by (nonlinear_arith);
    assert((9_007_199_254_740_998 * n) * one() == 9_007_199_254_740_998 * (n * one()))
        by (nonlinear_arith);
    lemma_cancel_one((t * 9_007_199_254_740_992) as int, (9_007_199_254_740_998 * n) as int);
    let u = (s + 1) * total;
    assert((u * 9_007_199_254_740_992) * one() == 9_007_199_254_740_992 * (u * one()))
        by (nonlinear_arith);
    assert((9_007_199_254_740_986 * n) * one() == 9_007_199_254_740_986 * (n * one()))
        by (nonlinear_arith);
    lemma_cancel_one((9_007_199_254_740_986 * n) as int, (u * 9_007_199_254_740_992) as int);
}

} // verus!
