//! Fixed-point scalar arithmetic for the signal engine.
//!
//! Every continuous quantity in this crate (parameter values, samples,
//! gains, phases) is an integer number of *units*, where `SCALE` units
//! make 1.0.  All operations are exact integer arithmetic, so every
//! result is pinned down by the contracts below; there is no rounding
//! mode to guess at.

use vstd::prelude::*;

verus! {

/// Number of units in 1.0.
pub const SCALE: i64 = 1_000_000;

/// Largest magnitude a signal value (a sample, or an intermediate mix)
/// may take: one million full-scale units.  Saturating at this cap is
/// the integer analogue of clipping.
pub const SIGNAL_CAP: i64 = 1_000_000_000_000;

/// Clamp `x` into `[lo, hi]`.
pub open spec fn clamp_int(x: int, lo: int, hi: int) -> int {
    if x < lo {
        lo
    } else if x > hi {
        hi
    } else {
        x
    }
}

/// Scaled product `a * f / SCALE`, truncated toward zero, for `f >= 0`.
/// This is the meaning of "multiply a signal by a fraction".
pub open spec fn mul_frac_int(a: int, f: int) -> int {
    if a >= 0 {
        (a * f) / (SCALE as int)
    } else {
        -((-a * f) / (SCALE as int))
    }
}

/// Saturating addition of two signal values.
pub open spec fn sat_add_int(a: int, b: int) -> int {
    clamp_int(a + b, -(SIGNAL_CAP as int), SIGNAL_CAP as int)
}

pub fn clamp_i64(x: i64, lo: i64, hi: i64) -> (r: i64)
    requires
        lo <= hi,
    ensures
        r == clamp_int(x as int, lo as int, hi as int),
        lo <= r <= hi,
{
    if x < lo {
        lo
    } else if x > hi {
        hi
    } else {
        x
    }
}

/// A fraction never grows what it scales: `|a * f / SCALE| <= |a| * k`
/// whenever `f <= k * SCALE`.
pub proof fn lemma_mul_frac_bound(a: int, f: int, cap: int, k: int)
    requires
        -cap <= a <= cap,
        0 <= f <= k * SCALE,
        0 <= cap,
        0 <= k,
    ensures
        -(cap * k) <= mul_frac_int(a, f) <= cap * k,
{
    let s = SCALE as int;
    if a >= 0 {
        assert(a * f <= cap * (k * s)) by (nonlinear_arith)
            requires
                0 <= a <= cap,
                0 <= f <= k * s,
                0 < s,
        ;
        assert(cap * (k * s) == (cap * k) * s) by (nonlinear_arith);
        assert(a * f / s <= (cap * k) * s / s) by {
            vstd::arithmetic::div_mod::lemma_div_is_ordered(a * f, (cap * k) * s, s);
        }
        assert((cap * k) * s / s == cap * k) by {
            vstd::arithmetic::div_mod::lemma_div_multiples_vanish(cap * k, s);
        }
        assert(a * f >= 0) by (nonlinear_arith)
            requires
                0 <= a,
                0 <= f,
        ;
        assert(a * f / s >= 0) by {
            vstd::arithmetic::div_mod::lemma_div_pos_is_pos(a * f, s);
        }
    } else {
        let m = -a;
        assert(m * f <= cap * (k * s)) by (nonlinear_arith)
            requires
                0 <= m <= cap,
                0 <= f <= k * s,
                0 < s,
        ;
        assert(cap * (k * s) == (cap * k) * s) by (nonlinear_arith);
        assert(m * f / s <= (cap * k) * s / s) by {
            vstd::arithmetic::div_mod::lemma_div_is_ordered(m * f, (cap * k) * s, s);
        }
        assert((cap * k) * s / s == cap * k) by {
            vstd::arithmetic::div_mod::lemma_div_multiples_vanish(cap * k, s);
        }
        assert(m * f >= 0) by (nonlinear_arith)
            requires
                0 <= m,
                0 <= f,
        ;
        assert(m * f / s >= 0) by {
            vstd::arithmetic::div_mod::lemma_div_pos_is_pos(m * f, s);
        }
    }
}

/// Scaling by the whole of `SCALE` is the identity.
pub proof fn lemma_mul_frac_one(a: int)
    ensures
        mul_frac_int(a, SCALE as int) == a,
{
    let s = SCALE as int;
    if a >= 0 {
        vstd::arithmetic::div_mod::lemma_div_multiples_vanish(a, s);
    } else {
        vstd::arithmetic::div_mod::lemma_div_multiples_vanish(-a, s);
    }
}

/// Scaling by zero gives zero.
pub proof fn lemma_mul_frac_zero(a: int)
    ensures
        mul_frac_int(a, 0) == 0,
{
    let s = SCALE as int;
    if a >= 0 {
        assert(a * 0 == 0) by (nonlinear_arith);
        vstd::arithmetic::div_mod::lemma_div_multiples_vanish(0, s);
    } else {
        assert(-a * 0 == 0) by (nonlinear_arith);
        vstd::arithmetic::div_mod::lemma_div_multiples_vanish(0, s);
    }
}

/// `a * f / SCALE`, truncated toward zero.  `f` is a non-negative
/// fraction of at most `10 * SCALE`; `a` is a signal value.
pub fn mul_frac(a: i64, f: i64) -> (r: i64)
    requires
        -SIGNAL_CAP <= a <= SIGNAL_CAP,
        0 <= f <= 10 * SCALE,
    ensures
        r == mul_frac_int(a as int, f as int),
        -10 * SIGNAL_CAP <= r <= 10 * SIGNAL_CAP,
{
    proof {
        lemma_mul_frac_bound(a as int, f as int, SIGNAL_CAP as int, 10);
    }
    let neg: bool = a < 0;
    let mag: u64 = if neg {
        (-a) as u64
    } else {
        a as u64
    };
    let prod: u128 = (mag as u128) * (f as u128);
    let q: u128 = prod / (SCALE as u128);
    assert(q == (mag as int) * (f as int) / (SCALE as int));
    assert(q <= 10 * SIGNAL_CAP) by {
        lemma_mul_frac_bound(mag as int, f as int, SIGNAL_CAP as int, 10);
    }
    if neg {
        -(q as i64)
    } else {
        q as i64
    }
}

/// Saturating addition of two signal values; the result is always a
/// valid signal value in `[-SIGNAL_CAP, SIGNAL_CAP]`.
pub fn sat_add(a: i64, b: i64) -> (r: i64)
    requires
        -100 * SIGNAL_CAP <= a <= 100 * SIGNAL_CAP,
        -100 * SIGNAL_CAP <= b <= 100 * SIGNAL_CAP,
    ensures
        r == sat_add_int(a as int, b as int),
        -SIGNAL_CAP <= r <= SIGNAL_CAP,
{
    clamp_i64(a + b, -SIGNAL_CAP, SIGNAL_CAP)
}

/// Euclidean division of a negative value by a positive divisor is
/// negative.
pub proof fn lemma_neg_div_neg(v: int, d: int)
    requires
        v < 0,
        0 < d,
    ensures
        v / d < 0,
{
    if v / d >= 0 {
        assert(d * (v / d) >= 0) by (nonlinear_arith)
            requires
                d > 0,
                v / d >= 0,
        ;
        vstd::arithmetic::div_mod::lemma_fundamental_div_mod(v, d);
        assert(false);
    }
}

/// Division truncated toward zero, for a positive divisor.
pub open spec fn tdiv_int(a: int, d: int) -> int {
    if a >= 0 {
        a / d
    } else {
        -((-a) / d)
    }
}

/// Division of a signal value by a positive count, truncated toward
/// zero.
pub fn tdiv_i64(a: i64, d: i64) -> (r: i64)
    requires
        0 < d,
        -100 * SIGNAL_CAP <= a <= 100 * SIGNAL_CAP,
    ensures
        r == tdiv_int(a as int, d as int),
        -100 * SIGNAL_CAP <= r <= 100 * SIGNAL_CAP,
{
    let neg: bool = a < 0;
    let mag: u64 = if neg {
        (-a) as u64
    } else {
        a as u64
    };
    let q: u64 = mag / (d as u64);
    proof {
        vstd::arithmetic::div_mod::lemma_div_pos_is_pos(mag as int, d as int);
        vstd::arithmetic::div_mod::lemma_div_nonincreasing(mag as int, d as int);
    }
    if neg {
        -(q as i64)
    } else {
        q as i64
    }
}

/// The integer square root of a non-negative value: the unique `r`
/// with `r * r <= x < (r + 1) * (r + 1)`.
pub open spec fn sqrt_int(x: int) -> int {
    choose|r: int| 0 <= r && #[trigger] (r * r) <= x && (r + 1) * (r + 1) > x
}

/// A witness with the square-root property is the square root.
pub proof fn lemma_sqrt_int_is(x: int, r: int)
    requires
        0 <= r,
        r * r <= x,
        (r + 1) * (r + 1) > x,
    ensures
        sqrt_int(x) == r,
{
    assert(exists|q: int| 0 <= q && #[trigger] (q * q) <= x && (q + 1) * (q + 1) > x) by {
        assert(0 <= r && r * r <= x && (r + 1) * (r + 1) > x);
    }
    let c = choose|q: int| 0 <= q && #[trigger] (q * q) <= x && (q + 1) * (q + 1) > x;
    if c < r {
        assert((c + 1) * (c + 1) <= r * r) by (nonlinear_arith)
            requires
                0 <= c,
                c + 1 <= r,
        ;
        assert(false);
    }
    if c > r {
        assert((r + 1) * (r + 1) <= c * c) by (nonlinear_arith)
            requires
                0 <= r,
                r + 1 <= c,
        ;
        assert(false);
    }
}

/// Integer square root: the greatest `r` with `r * r <= x`.
pub fn isqrt_u64(x: u64) -> (r: u64)
    ensures
        (r as int) * (r as int) <= x as int,
        (r as int + 1) * (r as int + 1) > x as int,
        r == sqrt_int(x as int),
{
    let mut lo: u64 = 0;
    let mut hi: u64 = 4_294_967_296;
    assert((hi as int) * (hi as int) > x as int) by (nonlinear_arith)
        requires
            hi == 4_294_967_296u64,
            x <= u64::MAX,
    ;
    while lo + 1 < hi
        invariant
            lo < hi,
            hi <= 4_294_967_296,
            (lo as int) * (lo as int) <= x as int,
            (hi as int) * (hi as int) > x as int,
        decreases hi - lo,
    {
        let mid: u64 = lo + (hi - lo) / 2;
        assert(lo < mid < hi);
        assert((mid as int) * (mid as int) <= 0x1_0000_0000_0000_0000) by (nonlinear_arith)
            requires
                mid <= 0x1_0000_0000u64,
        ;
        let sq: u128 = (mid as u128) * (mid as u128);
        if sq <= x as u128 {
            lo = mid;
        } else {
            hi = mid;
        }
    }
    proof {
        lemma_sqrt_int_is(x as int, lo as int);
    }
    lo
}

/// Square root of a fraction: for `a` in `[0, SCALE]` units, returns
/// `sqrt(a / SCALE)` in units, i.e. the greatest `r` with
/// `r * r <= a * SCALE`.
pub fn sqrt_frac(a: i64) -> (r: i64)
    requires
        0 <= a <= SCALE,
    ensures
        r == sqrt_int((a as int) * (SCALE as int)),
        0 <= r <= SCALE,
{
    assert((a as int) * (SCALE as int) <= 1_000_000_000_000) by (nonlinear_arith)
        requires
            0 <= a <= SCALE,
            SCALE == 1_000_000i64,
    ;
    let prod: u64 = (a as u64) * (SCALE as u64);
    let r: u64 = isqrt_u64(prod);
    assert(r <= SCALE) by (nonlinear_arith)
        requires
            (r as int) * (r as int) <= (a as int) * (SCALE as int),
            0 <= a <= SCALE,
            SCALE == 1_000_000i64,
    ;
    r as i64
}

} // verus!
