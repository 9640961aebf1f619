//! Bounded, normalizable scalar parameters.
//!
//! A parameter holds a value in `[min, max]`, in fixed-point units of
//! [`crate::fixed::SCALE`].  Adjusting scales the delta by the width of
//! the range, so one keystroke moves a wider range further; setting and
//! adjusting always clamp, never fail.

use crate::fixed::{clamp_i64, clamp_int, mul_frac_int, SCALE};
use vstd::prelude::*;

verus! {

/// Bound on the magnitude of parameter range endpoints: 20000.0 in
/// units, the highest frequency the factory tables use.
pub const PARAM_CAP: i64 = 20_000_000_000;

pub struct ModuleParameter {
    pub name: String,
    pub value: i64,
    pub min: i64,
    pub max: i64,
    pub step: i64,
}

/// The value `adjust` leaves behind: the delta is scaled by the width
/// of the range, then the sum is clamped back into the range.
pub open spec fn adjust_result(value: int, min: int, max: int, delta: int) -> int {
    clamp_int(value + mul_frac_int(delta, max - min), min, max)
}

impl ModuleParameter {
    /// Well-formed: a genuine range within the global cap, holding its
    /// value.
    pub open spec fn wf(self) -> bool {
        &&& -PARAM_CAP <= self.min < self.max <= PARAM_CAP
        &&& self.min <= self.value <= self.max
        &&& 0 <= self.step
    }

    pub fn new(name: &str, value: i64, min: i64, max: i64) -> (r: ModuleParameter)
        requires
            -PARAM_CAP <= min < max <= PARAM_CAP,
        ensures
            r.wf(),
            r.name@ == name@,
            r.value == clamp_int(value as int, min as int, max as int),
            r.min == min,
            r.max == max,
            r.step == (max - min) / 100,
    {
        let width: u64 = (max - min) as u64;
        ModuleParameter {
            name: name.to_owned(),
            value: clamp_i64(value, min, max),
            min,
            max,
            step: (width / 100) as i64,
        }
    }

    pub fn clone_param(&self) -> (r: ModuleParameter)
        ensures
            r == *self,
    {
        ModuleParameter {
            name: self.name.clone(),
            value: self.value,
            min: self.min,
            max: self.max,
            step: self.step,
        }
    }

    /// Nudge the value by `delta` (a fraction of the range width) and
    /// clamp.  Total: any delta is accepted, the value stays in range.
    pub fn adjust(&mut self, delta: i64)
        requires
            old(self).wf(),
        ensures
            final(self).wf(),
            final(self).value == adjust_result(
                old(self).value as int,
                old(self).min as int,
                old(self).max as int,
                delta as int,
            ),
            final(self).name == old(self).name,
            final(self).min == old(self).min,
            final(self).max == old(self).max,
            final(self).step == old(self).step,
    {
        let range: i64 = self.max - self.min;
        let neg: bool = delta < 0;
        let dmag: u128 = if neg {
            (-(delta as i128)) as u128
        } else {
            delta as u128
        };
        assert(dmag * (range as u128) <= 0x10000000000000000u128 * 0x10000000000u128)
            by (nonlinear_arith)
            requires
                dmag <= 0x10000000000000000u128,
                range as u128 <= 0x10000000000u128,
        ;
        let prod: u128 = dmag * (range as u128);
        let q: u128 = prod / (SCALE as u128);
        let dcap: u128 = 100_000_000_000;
        let d: i64 = if q > dcap {
            100_000_000_000
        } else {
            q as i64
        };
        proof {
            let dm = dmag as int;
            let rg = range as int;
            let s = SCALE as int;
            assert(q == dm * rg / s);
            assert(dm * rg >= 0) by (nonlinear_arith)
                requires
                    dm >= 0,
                    rg >= 0,
            ;
            vstd::arithmetic::div_mod::lemma_div_pos_is_pos(dm * rg, s);
            if q > dcap {
                assert(d <= q);
            }
        }
        let newv: i64 = if neg {
            clamp_i64(self.value - d, self.min, self.max)
        } else {
            clamp_i64(self.value + d, self.min, self.max)
        };
        proof {
            let dm = dmag as int;
            let rg = range as int;
            let s = SCALE as int;
            let exact = mul_frac_int(delta as int, rg);
            let v = self.value as int;
            let lo = self.min as int;
            let hi = self.max as int;
            if neg {
                assert(exact == -(dm * rg / s));
                if q > dcap as int {
                    // the true step is at least the cap, which already
                    // overshoots the whole range: both clamp to min
                    assert(v - d <= lo);
                    assert(v + exact <= v - d);
                    assert(clamp_int(v - d, lo, hi) == lo);
                    assert(clamp_int(v + exact, lo, hi) == lo);
                } else {
                    assert(d == q);
                }
            } else {
                assert(exact == dm * rg / s);
                if q > dcap as int {
                    assert(v + d >= hi);
                    assert(v + exact >= v + d);
                    assert(clamp_int(v + d, lo, hi) == hi);
                    assert(clamp_int(v + exact, lo, hi) == hi);
                } else {
                    assert(d == q);
                }
            }
        }
        self.value = newv;
    }

    /// Set the value, clamping into the range.
    pub fn set(&mut self, value: i64)
        requires
            old(self).wf(),
        ensures
            final(self).wf(),
            final(self).value == clamp_int(
                value as int,
                old(self).min as int,
                old(self).max as int,
            ),
            final(self).name == old(self).name,
            final(self).min == old(self).min,
            final(self).max == old(self).max,
            final(self).step == old(self).step,
    {
        self.value = clamp_i64(value, self.min, self.max);
    }

    pub fn get(&self) -> (r: i64)
        ensures
            r == self.value,
    {
        self.value
    }

    /// Where the value sits in its range, as a fraction of `SCALE`:
    /// `(value - min) * SCALE / (max - min)`, always in `[0, SCALE]`.
    pub fn normalized(&self) -> (r: i64)
        requires
            self.wf(),
        ensures
            r == (self.value - self.min) * (SCALE as int) / (self.max - self.min),
            0 <= r <= SCALE,
    {
        let num: u128 = ((self.value - self.min) as u128) * (SCALE as u128);
        let den: u128 = (self.max - self.min) as u128;
        let r: u128 = num / den;
        proof {
            let v = self.value as int;
            let lo = self.min as int;
            let hi = self.max as int;
            let s = SCALE as int;
            assert((v - lo) * s <= (hi - lo) * s) by (nonlinear_arith)
                requires
                    v <= hi,
                    lo <= v,
                    s > 0,
            ;
            assert((v - lo) * s >= 0) by (nonlinear_arith)
                requires
                    v >= lo,
                    s > 0,
            ;
            vstd::arithmetic::div_mod::lemma_div_pos_is_pos((v - lo) * s, hi - lo);
            vstd::arithmetic::div_mod::lemma_div_is_ordered((v - lo) * s, (hi - lo) * s, hi - lo);
            assert((hi - lo) * s / (hi - lo) == s) by {
                vstd::arithmetic::div_mod::lemma_div_multiples_vanish(s, hi - lo);
                assert((hi - lo) * s == s * (hi - lo)) by (nonlinear_arith);
            }
        }
        r as i64
    }
}

} // verus!
