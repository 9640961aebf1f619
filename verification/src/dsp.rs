//! Per-sample DSP units in fixed-point arithmetic.
//!
//! Each unit's `tick` is specified exactly by a spec-level twin over
//! the unit's mathematical model, so every sample the engine produces
//! is pinned down by the contracts.  The sine is a fixed-point
//! rational approximation; everything else (phase accumulation, the
//! state-variable filter recurrence, delay lines, panning) is exact.

use crate::filter::{filter_type_of_units, FilterType};
use crate::fixed::{
    clamp_i64, clamp_int, mul_frac, mul_frac_int, sat_add, sat_add_int, sqrt_frac, tdiv_i64,
    tdiv_int, SCALE, SIGNAL_CAP,
};
use crate::module::{spec_param_value, AudioModule, ModuleType};
use crate::oscillator::{waveform_of_units, OscillatorWaveform};
use crate::output::{left_gain_spec, right_gain_spec};
use vstd::prelude::*;

verus! {

/// Pi in units.
pub const PI_UNITS: i64 = 3_141_593;

/// The fixed-point half-wave sine: for `w` in `[0, SCALE]` standing
/// for an angle in `[0, pi]`, a rational approximation of
/// `sin(pi * w / SCALE)` in units.
pub open spec fn sine_half_spec(w: int) -> int {
    let s = SCALE as int;
    let p = w * (s - w) / s;
    16 * p * s / (5 * s - 4 * p)
}

/// One full sine cycle: `u` in `[0, SCALE)` is the position within the
/// cycle; the second half is the mirrored negative arch.
pub open spec fn sine_cycle_spec(u: int) -> int {
    let s = SCALE as int;
    if u < s / 2 {
        sine_half_spec(2 * u)
    } else {
        -sine_half_spec(2 * (u - s / 2))
    }
}

/// The half-wave product `w * (SCALE - w) / SCALE` stays within
/// `[0, SCALE / 4]`.
proof fn lemma_half_product_bounds(w: int)
    requires
        0 <= w <= SCALE,
    ensures
        0 <= w * (SCALE as int - w) / (SCALE as int) <= (SCALE as int) / 4,
{
    let s = SCALE as int;
    assert(w * (s - w) >= 0) by (nonlinear_arith)
        requires
            0 <= w <= s,
    ;
    assert(4 * (w * (s - w)) <= s * s) by (nonlinear_arith)
        requires
            0 <= w <= s,
    ;
    vstd::arithmetic::div_mod::lemma_div_pos_is_pos(w * (s - w), s);
    assert(w * (s - w) <= 250_000 * s) by (nonlinear_arith)
        requires
            4 * (w * (s - w)) <= s * s,
            s == 1_000_000,
    ;
    assert(w * (s - w) / s <= 250_000 * s / s) by {
        vstd::arithmetic::div_mod::lemma_div_is_ordered(w * (s - w), 250_000 * s, s);
    }
    assert(250_000 * s / s == 250_000) by {
        vstd::arithmetic::div_mod::lemma_div_multiples_vanish(250_000, s);
    }
}

/// The half-wave sine stays within `[0, SCALE]`.
pub proof fn lemma_sine_half_bounds(w: int)
    requires
        0 <= w <= SCALE,
    ensures
        0 <= sine_half_spec(w) <= SCALE,
{
    let s = SCALE as int;
    let p = w * (s - w) / s;
    lemma_half_product_bounds(w);
    let num = 16 * p * s;
    let den = 5 * s - 4 * p;
    assert(num >= 0) by (nonlinear_arith)
        requires
            p >= 0,
            s > 0,
            num == 16 * p * s,
    ;
    assert(den >= 4 * s) by (nonlinear_arith)
        requires
            0 <= p <= 250_000,
            s == 1_000_000,
            den == 5 * s - 4 * p,
    ;
    vstd::arithmetic::div_mod::lemma_div_pos_is_pos(num, den);
    // 16 * p * s <= s * (5 * s - 4 * p) because 20 * p <= 5 * s
    assert(num <= s * den) by (nonlinear_arith)
        requires
            0 <= p <= s / 4,
            s == 1_000_000,
            num == 16 * p * s,
            den == 5 * s - 4 * p,
    ;
    assert(num / den <= s * den / den) by {
        vstd::arithmetic::div_mod::lemma_div_is_ordered(num, s * den, den);
    }
    assert(s * den / den == s) by {
        vstd::arithmetic::div_mod::lemma_div_multiples_vanish(s, den);
    }
}

/// Evaluate the half-wave sine.
fn sine_half(w: i64) -> (r: i64)
    requires
        0 <= w <= SCALE,
    ensures
        r == sine_half_spec(w as int),
        0 <= r <= SCALE,
{
    proof {
        lemma_half_product_bounds(w as int);
        lemma_sine_half_bounds(w as int);
    }
    let prod: u64 = (w as u64) * ((SCALE - w) as u64);
    assert((w as int) * (SCALE - w) <= 1_000_000_000_000) by (nonlinear_arith)
        requires
            0 <= w <= 1_000_000i64,
    ;
    let p: u64 = prod / (SCALE as u64);
    let num: u64 = 16 * p * (SCALE as u64);
    assert(16 * (p as int) * (SCALE as int) <= 4_000_000_000_000) by (nonlinear_arith)
        requires
            0 <= p <= 250_000u64,
            SCALE == 1_000_000i64,
    ;
    let den: u64 = 5 * (SCALE as u64) - 4 * p;
    (num / den) as i64
}

/// Evaluate one full sine cycle at position `u`.
pub fn sine_cycle(u: i64) -> (r: i64)
    requires
        0 <= u < SCALE,
    ensures
        r == sine_cycle_spec(u as int),
        -SCALE <= r <= SCALE,
{
    proof {
        if u < SCALE / 2 {
            lemma_sine_half_bounds(2 * u as int);
        } else {
            lemma_sine_half_bounds(2 * (u as int - (SCALE as int) / 2));
        }
    }
    if u < SCALE / 2 {
        sine_half(2 * u)
    } else {
        -sine_half(2 * (u - SCALE / 2))
    }
}

/// The wave shapes at cycle position `u` (in `[0, SCALE)`), in units.
pub open spec fn wave_value_spec(w: OscillatorWaveform, u: int) -> int {
    let s = SCALE as int;
    match w {
        OscillatorWaveform::Sine => sine_cycle_spec(u),
        OscillatorWaveform::Sawtooth => 2 * u - s,
        OscillatorWaveform::Square => if u < s / 2 {
            s
        } else {
            -s
        },
        OscillatorWaveform::Triangle => if u < s / 2 {
            4 * u - s
        } else {
            3 * s - 4 * u
        },
    }
}

/// Every wave shape stays within one full-scale unit.
pub proof fn lemma_wave_value_bounds(w: OscillatorWaveform, u: int)
    requires
        0 <= u < SCALE,
    ensures
        -SCALE <= wave_value_spec(w, u) <= SCALE,
{
    match w {
        OscillatorWaveform::Sine => {
            let s = SCALE as int;
            if u < s / 2 {
                lemma_sine_half_bounds(2 * u);
            } else {
                lemma_sine_half_bounds(2 * (u - s / 2));
            }
        },
        _ => {},
    }
}

/// A phase-accumulator oscillator.  The phase is kept in fine units of
/// `1 / (sample_rate * SCALE)` of a cycle, so each tick advances it by
/// exactly the frequency value and the accumulated phase after `n`
/// ticks is exactly `n * frequency` modulo one cycle.
pub struct OscillatorUnit {
    pub frequency: i64,
    pub waveform: OscillatorWaveform,
    pub amplitude: i64,
    pub phase: u64,
    pub sample_rate: u32,
}

/// Fine phase units per cycle.
pub open spec fn phase_modulus(sample_rate: u32) -> int {
    (sample_rate as int) * (SCALE as int)
}

/// The oscillator's output for a given phase: the wave shape at the
/// coarse cycle position, scaled by the amplitude.
pub open spec fn osc_out_spec(u: OscillatorUnit) -> int {
    mul_frac_int(
        wave_value_spec(u.waveform, u.phase as int / (u.sample_rate as int)),
        u.amplitude as int,
    )
}

impl OscillatorUnit {
    pub open spec fn wf(self) -> bool {
        &&& 8_000 <= self.sample_rate <= 192_000
        &&& 0 <= self.frequency <= 20_000_000_000
        &&& 0 <= self.amplitude <= SCALE
        &&& (self.phase as int) < phase_modulus(self.sample_rate)
    }

    pub fn new(frequency: i64, waveform: OscillatorWaveform, amplitude: i64, sample_rate: u32) -> (r:
        OscillatorUnit)
        requires
            8_000 <= sample_rate <= 192_000,
        ensures
            r.wf(),
            r.frequency == clamp_int(frequency as int, 0, 20_000_000_000),
            r.waveform == waveform,
            r.amplitude == clamp_int(amplitude as int, 0, SCALE as int),
            r.phase == 0,
            r.sample_rate == sample_rate,
    {
        OscillatorUnit {
            frequency: clamp_i64(frequency, 0, 20_000_000_000),
            waveform,
            amplitude: clamp_i64(amplitude, 0, SCALE),
            phase: 0,
            sample_rate,
        }
    }

    /// Produce the sample at the current phase, then advance the phase
    /// by one tick's worth of frequency, wrapping at a full cycle.
    pub fn tick(&mut self) -> (out: i64)
        requires
            old(self).wf(),
        ensures
            final(self).wf(),
            out == osc_out_spec(*old(self)),
            final(self).phase == (old(self).phase + old(self).frequency) % phase_modulus(
                old(self).sample_rate,
            ),
            final(self).frequency == old(self).frequency,
            final(self).waveform == old(self).waveform,
            final(self).amplitude == old(self).amplitude,
            final(self).sample_rate == old(self).sample_rate,
            -SCALE <= out <= SCALE,
    {
        let sr: u32 = self.sample_rate;
        let u: u64 = self.phase / (sr as u64);
        proof {
            vstd::arithmetic::div_mod::lemma_multiply_divide_lt(
                self.phase as int,
                sr as int,
                SCALE as int,
            );
            assert((sr as int) * (SCALE as int) == phase_modulus(sr));
            lemma_wave_value_bounds(self.waveform, u as int);
        }
        let wave: i64 = match self.waveform {
            OscillatorWaveform::Sine => sine_cycle(u as i64),
            OscillatorWaveform::Sawtooth => 2 * (u as i64) - SCALE,
            OscillatorWaveform::Square => if (u as i64) < SCALE / 2 {
                SCALE
            } else {
                -SCALE
            },
            OscillatorWaveform::Triangle => if (u as i64) < SCALE / 2 {
                4 * (u as i64) - SCALE
            } else {
                3 * SCALE - 4 * (u as i64)
            },
        };
        let out: i64 = mul_frac(wave, self.amplitude);
        proof {
            crate::fixed::lemma_mul_frac_bound(
                wave as int,
                self.amplitude as int,
                SCALE as int,
                1,
            );
        }
        let modulus: u64 = (sr as u64) * (SCALE as u64);
        assert((sr as int) * (SCALE as int) <= 192_000_000_000) by (nonlinear_arith)
            requires
                sr <= 192_000u32,
                SCALE == 1_000_000i64,
        ;
        self.phase = (self.phase + (self.frequency as u64)) % modulus;
        proof {
            assert(modulus > 0) by (nonlinear_arith)
                requires
                    modulus == (sr as int) * (SCALE as int),
                    sr >= 8_000u32,
                    SCALE == 1_000_000i64,
            ;
            vstd::arithmetic::div_mod::lemma_mod_division_less_than_divisor(
                old(self).phase + old(self).frequency,
                modulus as int,
            );
        }
        out
    }

    pub fn set_frequency(&mut self, frequency: i64)
        requires
            old(self).wf(),
        ensures
            final(self).wf(),
            *final(self) == (OscillatorUnit {
                frequency: clamp_int(frequency as int, 0, 20_000_000_000) as i64,
                ..*old(self)
            }),
    {
        self.frequency = clamp_i64(frequency, 0, 20_000_000_000);
    }

    pub fn set_waveform(&mut self, waveform: OscillatorWaveform)
        requires
            old(self).wf(),
        ensures
            final(self).wf(),
            *final(self) == (OscillatorUnit { waveform, ..*old(self) }),
    {
        self.waveform = waveform;
    }

    pub fn set_amplitude(&mut self, amplitude: i64)
        requires
            old(self).wf(),
        ensures
            final(self).wf(),
            *final(self) == (OscillatorUnit {
                amplitude: clamp_int(amplitude as int, 0, SCALE as int) as i64,
                ..*old(self)
            }),
    {
        self.amplitude = clamp_i64(amplitude, 0, SCALE);
    }

    /// Move to a new device rate; the phase wraps into the new cycle
    /// length.
    pub fn set_sample_rate(&mut self, sample_rate: u32)
        requires
            old(self).wf(),
            8_000 <= sample_rate <= 192_000,
        ensures
            final(self).wf(),
            final(self).sample_rate == sample_rate,
            final(self).phase == old(self).phase as int % phase_modulus(sample_rate),
            final(self).frequency == old(self).frequency,
            final(self).waveform == old(self).waveform,
            final(self).amplitude == old(self).amplitude,
    {
        let modulus: u64 = (sample_rate as u64) * (SCALE as u64);
        assert((sample_rate as int) * (SCALE as int) <= 192_000_000_000) by (nonlinear_arith)
            requires
                sample_rate <= 192_000u32,
                SCALE == 1_000_000i64,
        ;
        assert(modulus > 0) by (nonlinear_arith)
            requires
                modulus == (sample_rate as int) * (SCALE as int),
                sample_rate >= 8_000u32,
                SCALE == 1_000_000i64,
        ;
        self.sample_rate = sample_rate;
        self.phase = self.phase % modulus;
        proof {
            vstd::arithmetic::div_mod::lemma_mod_division_less_than_divisor(
                old(self).phase as int,
                modulus as int,
            );
        }
    }

    pub fn reset(&mut self)
        ensures
            *final(self) == (OscillatorUnit { phase: 0u64, ..*old(self) }),
    {
        self.phase = 0;
    }
}

/// A state-variable filter: state `(low, band)`, coefficient
/// `f = 2 sin(cutoff / sample_rate)` through the fixed-point sine.
pub struct FilterUnit {
    pub filter_type: FilterType,
    pub cutoff: i64,
    pub resonance: i64,
    pub sample_rate: u32,
    pub low: i64,
    pub band: i64,
    pub high: i64,
}

/// The filter coefficient: the angle `cutoff / sample_rate` (in
/// micro-radians, capped at pi) through the half-wave sine, doubled.
pub open spec fn filter_coeff_spec(cutoff: int, sample_rate: int) -> int {
    let x = cutoff / sample_rate;
    let w = if x >= PI_UNITS {
        SCALE as int
    } else {
        x * (SCALE as int) / (PI_UNITS as int)
    };
    2 * sine_half_spec(w)
}

/// The filter state after one sample.
pub open spec fn filter_next_spec(f: FilterUnit, input: int) -> FilterUnit {
    let coeff = filter_coeff_spec(f.cutoff as int, f.sample_rate as int);
    let q = if f.resonance < 10_000 {
        10_000
    } else {
        f.resonance as int
    };
    let low1 = sat_add_int(f.low as int, mul_frac_int(f.band as int, coeff));
    let high1 = sat_add_int(sat_add_int(input, -low1), -mul_frac_int(f.band as int, q));
    let band1 = sat_add_int(f.band as int, mul_frac_int(high1, coeff));
    FilterUnit { low: low1 as i64, band: band1 as i64, high: high1 as i64, ..f }
}

/// The filter's output sample: low, high or band, by type; the types
/// outside the state-variable core fall back to the low output.
pub open spec fn filter_out_spec(f: FilterUnit, input: int) -> int {
    let next = filter_next_spec(f, input);
    match f.filter_type {
        FilterType::Lowpass => next.low as int,
        FilterType::Highpass => next.high as int,
        FilterType::Bandpass => next.band as int,
        FilterType::Notch => next.low as int,
        FilterType::Allpass => next.low as int,
    }
}

/// The coefficient is a fraction in `[0, 2]`.
pub proof fn lemma_filter_coeff_bounds(cutoff: int, sample_rate: int)
    requires
        0 <= cutoff,
        0 < sample_rate,
    ensures
        0 <= filter_coeff_spec(cutoff, sample_rate) <= 2 * SCALE,
{
    let x = cutoff / sample_rate;
    vstd::arithmetic::div_mod::lemma_div_pos_is_pos(cutoff, sample_rate);
    let w = if x >= PI_UNITS {
        SCALE as int
    } else {
        x * (SCALE as int) / (PI_UNITS as int)
    };
    if x < PI_UNITS {
        assert(x * (SCALE as int) >= 0) by (nonlinear_arith)
            requires
                x >= 0,
        ;
        vstd::arithmetic::div_mod::lemma_div_pos_is_pos(x * (SCALE as int), PI_UNITS as int);
        assert(x * (SCALE as int) <= (PI_UNITS as int) * (SCALE as int)) by (nonlinear_arith)
            requires
                0 <= x <= PI_UNITS,
        ;
        assert(w <= SCALE) by {
            vstd::arithmetic::div_mod::lemma_multiply_divide_lt(
                x * (SCALE as int),
                PI_UNITS as int,
                SCALE as int + 1,
            );
            assert(x * (SCALE as int) < (PI_UNITS as int) * ((SCALE as int) + 1))
                by (nonlinear_arith)
                requires
                    0 <= x < PI_UNITS,
                    SCALE == 1_000_000i64,
                    PI_UNITS == 3_141_593i64,
            ;
        }
    }
    lemma_sine_half_bounds(w);
}

impl FilterUnit {
    pub open spec fn wf(self) -> bool {
        &&& 8_000 <= self.sample_rate <= 192_000
        &&& 0 <= self.cutoff <= 20_000_000_000
        &&& 0 <= self.resonance <= SCALE
        &&& -SIGNAL_CAP <= self.low <= SIGNAL_CAP
        &&& -SIGNAL_CAP <= self.band <= SIGNAL_CAP
        &&& -SIGNAL_CAP <= self.high <= SIGNAL_CAP
    }

    pub fn new(filter_type: FilterType, cutoff: i64, resonance: i64, sample_rate: u32) -> (r:
        FilterUnit)
        requires
            8_000 <= sample_rate <= 192_000,
        ensures
            r.wf(),
            r.filter_type == filter_type,
            r.cutoff == clamp_int(cutoff as int, 0, 20_000_000_000),
            r.resonance == clamp_int(resonance as int, 0, SCALE as int),
            r.sample_rate == sample_rate,
            r.low == 0,
            r.band == 0,
            r.high == 0,
    {
        FilterUnit {
            filter_type,
            cutoff: clamp_i64(cutoff, 0, 20_000_000_000),
            resonance: clamp_i64(resonance, 0, SCALE),
            sample_rate,
            low: 0,
            band: 0,
            high: 0,
        }
    }

    /// Run the state-variable recurrence for one sample.
    pub fn tick(&mut self, input: i64) -> (out: i64)
        requires
            old(self).wf(),
            -SIGNAL_CAP <= input <= SIGNAL_CAP,
        ensures
            final(self).wf(),
            *final(self) == filter_next_spec(*old(self), input as int),
            out == filter_out_spec(*old(self), input as int),
            -SIGNAL_CAP <= out <= SIGNAL_CAP,
    {
        let coeff: i64 = self.coeff();
        let q: i64 = if self.resonance < 10_000 {
            10_000
        } else {
            self.resonance
        };
        let fb: i64 = mul_frac(self.band, coeff);
        proof {
            crate::fixed::lemma_mul_frac_bound(self.band as int, coeff as int, SIGNAL_CAP as int, 2);
        }
        let low1: i64 = sat_add(self.low, fb);
        let qb: i64 = mul_frac(self.band, q);
        proof {
            crate::fixed::lemma_mul_frac_bound(self.band as int, q as int, SIGNAL_CAP as int, 1);
        }
        let high1: i64 = sat_add(sat_add(input, -low1), -qb);
        let fh: i64 = mul_frac(high1, coeff);
        proof {
            crate::fixed::lemma_mul_frac_bound(high1 as int, coeff as int, SIGNAL_CAP as int, 2);
        }
        let band1: i64 = sat_add(self.band, fh);
        self.low = low1;
        self.band = band1;
        self.high = high1;
        match self.filter_type {
            FilterType::Lowpass => low1,
            FilterType::Highpass => high1,
            FilterType::Bandpass => band1,
            FilterType::Notch => low1,
            FilterType::Allpass => low1,
        }
    }

    /// The coefficient `2 sin(cutoff / sample_rate)` in units.
    fn coeff(&self) -> (r: i64)
        requires
            self.wf(),
        ensures
            r == filter_coeff_spec(self.cutoff as int, self.sample_rate as int),
            0 <= r <= 2 * SCALE,
    {
        proof {
            lemma_filter_coeff_bounds(self.cutoff as int, self.sample_rate as int);
        }
        let x: u64 = (self.cutoff as u64) / (self.sample_rate as u64);
        let w: i64 = if x >= PI_UNITS as u64 {
            SCALE
        } else {
            assert((x as int) * (SCALE as int) <= 3_141_593_000_000) by (nonlinear_arith)
                requires
                    x < 3_141_593u64,
                    SCALE == 1_000_000i64,
            ;
            let scaled: u64 = (x * (SCALE as u64)) / (PI_UNITS as u64);
            proof {
                assert((x as int) * (SCALE as int) >= 0) by (nonlinear_arith)
                    requires
                        x >= 0,
                ;
                vstd::arithmetic::div_mod::lemma_div_pos_is_pos(
                    (x as int) * (SCALE as int),
                    PI_UNITS as int,
                );
                vstd::arithmetic::div_mod::lemma_multiply_divide_lt(
                    (x as int) * (SCALE as int),
                    PI_UNITS as int,
                    SCALE as int + 1,
                );
                assert((x as int) * (SCALE as int) < (PI_UNITS as int) * ((SCALE as int) + 1))
                    by (nonlinear_arith)
                    requires
                        0 <= x < PI_UNITS as int,
                        SCALE == 1_000_000i64,
                        PI_UNITS == 3_141_593i64,
                ;
            }
            scaled as i64
        };
        let half: i64 = sine_half(w);
        2 * half
    }

    pub fn set_cutoff(&mut self, cutoff: i64)
        requires
            old(self).wf(),
        ensures
            final(self).wf(),
            *final(self) == (FilterUnit {
                cutoff: clamp_int(cutoff as int, 0, 20_000_000_000) as i64,
                ..*old(self)
            }),
    {
        self.cutoff = clamp_i64(cutoff, 0, 20_000_000_000);
    }

    pub fn set_resonance(&mut self, resonance: i64)
        requires
            old(self).wf(),
        ensures
            final(self).wf(),
            *final(self) == (FilterUnit {
                resonance: clamp_int(resonance as int, 0, SCALE as int) as i64,
                ..*old(self)
            }),
    {
        self.resonance = clamp_i64(resonance, 0, SCALE);
    }

    pub fn set_type(&mut self, filter_type: FilterType)
        requires
            old(self).wf(),
        ensures
            final(self).wf(),
            *final(self) == (FilterUnit { filter_type, ..*old(self) }),
    {
        self.filter_type = filter_type;
    }

    pub fn set_sample_rate(&mut self, sample_rate: u32)
        requires
            old(self).wf(),
            8_000 <= sample_rate <= 192_000,
        ensures
            final(self).wf(),
            *final(self) == (FilterUnit { sample_rate, ..*old(self) }),
    {
        self.sample_rate = sample_rate;
    }

    pub fn reset(&mut self)
        ensures
            *final(self) == (FilterUnit { low: 0i64, band: 0i64, high: 0i64, ..*old(self) }),
    {
        self.low = 0;
        self.band = 0;
        self.high = 0;
    }
}

/// The mathematical model of a delay line.
pub struct DelayModel {
    pub buffer: Seq<i64>,
    pub write_pos: int,
    pub delay_samples: int,
    pub feedback: int,
    pub wet: int,
}

/// Where the delayed sample sits: `delay_samples` behind the write
/// position, wrapping around the buffer.
pub open spec fn delay_read_pos(m: DelayModel) -> int {
    if m.write_pos >= m.delay_samples {
        m.write_pos - m.delay_samples
    } else {
        m.buffer.len() + m.write_pos - m.delay_samples
    }
}

/// The delay state after one sample: the input plus scaled feedback is
/// written, and the write position advances.
pub open spec fn delay_next_spec(m: DelayModel, input: int) -> DelayModel {
    let delayed = m.buffer[delay_read_pos(m)] as int;
    let written = sat_add_int(input, mul_frac_int(delayed, m.feedback));
    DelayModel {
        buffer: m.buffer.update(m.write_pos, written as i64),
        write_pos: (m.write_pos + 1) % (m.buffer.len() as int),
        ..m
    }
}

/// The delay's output sample: the dry/wet mix of input and delayed
/// signal.
pub open spec fn delay_out_spec(m: DelayModel, input: int) -> int {
    let delayed = m.buffer[delay_read_pos(m)] as int;
    sat_add_int(
        mul_frac_int(input, (SCALE as int) - m.wet),
        mul_frac_int(delayed, m.wet),
    )
}

/// The number of whole samples in `time` seconds-units at this rate,
/// rounded to nearest.
pub open spec fn delay_len_spec(time: int, sample_rate: int) -> int {
    (time * sample_rate + (SCALE as int) / 2) / (SCALE as int)
}

/// A circular-buffer delay line with feedback.
pub struct DelayUnit {
    pub buffer: Vec<i64>,
    pub write_pos: usize,
    pub delay_samples: usize,
    pub feedback: i64,
    pub wet: i64,
}

impl DelayUnit {
    pub open spec fn model(self) -> DelayModel {
        DelayModel {
            buffer: self.buffer@,
            write_pos: self.write_pos as int,
            delay_samples: self.delay_samples as int,
            feedback: self.feedback as int,
            wet: self.wet as int,
        }
    }

    pub open spec fn wf(self) -> bool {
        &&& 1 <= self.buffer@.len() <= 1_000_000
        &&& self.write_pos < self.buffer@.len()
        &&& self.delay_samples <= self.buffer@.len()
        &&& 0 <= self.feedback <= 950_000
        &&& 0 <= self.wet <= SCALE
        &&& forall|i: int|
            0 <= i < self.buffer@.len() ==> -SIGNAL_CAP <= #[trigger] self.buffer@[i] <= SIGNAL_CAP
    }

    /// Build a delay of `time` seconds-units: the line length is the
    /// rounded number of samples, at least one slot.
    pub fn new(time: i64, feedback: i64, wet: i64, sample_rate: u32) -> (r: DelayUnit)
        requires
            8_000 <= sample_rate <= 192_000,
        ensures
            r.wf(),
            r.delay_samples == delay_len_spec(
                clamp_int(time as int, 0, 2 * SCALE as int),
                sample_rate as int,
            ),
            r.buffer@.len() == if r.delay_samples >= 1 {
                r.delay_samples as int
            } else {
                1int
            },
            r.write_pos == 0,
            r.feedback == clamp_int(feedback as int, 0, 950_000),
            r.wet == clamp_int(wet as int, 0, SCALE as int),
            forall|i: int| 0 <= i < r.buffer@.len() ==> r.buffer@[i] == 0,
    {
        let time: i64 = clamp_i64(time, 0, 2 * SCALE);
        proof {
            let t = time as int;
            let sr = sample_rate as int;
            let s = SCALE as int;
            assert(t * sr <= 2_000_000 * 192_000) by (nonlinear_arith)
                requires
                    0 <= t <= 2_000_000,
                    0 < sr <= 192_000,
            ;
            assert(t * sr >= 0) by (nonlinear_arith)
                requires
                    t >= 0,
                    sr >= 0,
            ;
            vstd::arithmetic::div_mod::lemma_div_pos_is_pos(t * sr + s / 2, s);
            assert((t * sr + s / 2) / s <= 500_000) by {
                vstd::arithmetic::div_mod::lemma_div_is_ordered(
                    t * sr + s / 2,
                    500_000 * s,
                    s,
                );
                vstd::arithmetic::div_mod::lemma_div_multiples_vanish(500_000, s);
            }
        }
        let ds: u64 = ((time as u64) * (sample_rate as u64) + (SCALE as u64) / 2) / (SCALE as u64);
        let len: usize = if ds >= 1 {
            ds as usize
        } else {
            1
        };
        DelayUnit {
            buffer: zero_signal_vec(len),
            write_pos: 0,
            delay_samples: ds as usize,
            feedback: clamp_i64(feedback, 0, 950_000),
            wet: clamp_i64(wet, 0, SCALE),
        }
    }

    /// Process one sample through the delay line.
    pub fn tick(&mut self, input: i64) -> (out: i64)
        requires
            old(self).wf(),
            -SIGNAL_CAP <= input <= SIGNAL_CAP,
        ensures
            final(self).wf(),
            final(self).model() == delay_next_spec(old(self).model(), input as int),
            out == delay_out_spec(old(self).model(), input as int),
            -SIGNAL_CAP <= out <= SIGNAL_CAP,
    {
        let len: usize = self.buffer.len();
        let read_pos: usize = if self.write_pos >= self.delay_samples {
            self.write_pos - self.delay_samples
        } else {
            len + self.write_pos - self.delay_samples
        };
        let delayed: i64 = self.buffer[read_pos];
        let scaled_fb: i64 = mul_frac(delayed, self.feedback);
        proof {
            crate::fixed::lemma_mul_frac_bound(
                delayed as int,
                self.feedback as int,
                SIGNAL_CAP as int,
                1,
            );
        }
        let written: i64 = sat_add(input, scaled_fb);
        let wp: usize = self.write_pos;
        self.buffer[wp] = written;
        self.write_pos = (wp + 1) % len;
        let dry: i64 = mul_frac(input, SCALE - self.wet);
        let wet_part: i64 = mul_frac(delayed, self.wet);
        proof {
            crate::fixed::lemma_mul_frac_bound(
                input as int,
                (SCALE - self.wet) as int,
                SIGNAL_CAP as int,
                1,
            );
            crate::fixed::lemma_mul_frac_bound(delayed as int, self.wet as int, SIGNAL_CAP as int, 1);
            assert(final(self).model().buffer =~= delay_next_spec(
                old(self).model(),
                input as int,
            ).buffer);
        }
        sat_add(dry, wet_part)
    }

    /// Change the delay time; the buffer grows only when the new
    /// length exceeds its capacity, and the line's contents survive.
    pub fn set_delay_time(&mut self, time: i64, sample_rate: u32)
        requires
            old(self).wf(),
            8_000 <= sample_rate <= 192_000,
        ensures
            final(self).wf(),
            final(self).delay_samples == delay_len_spec(
                clamp_int(time as int, 0, 2 * SCALE as int),
                sample_rate as int,
            ),
            final(self).feedback == old(self).feedback,
            final(self).wet == old(self).wet,
            old(self).buffer@.is_prefix_of(final(self).buffer@),
            final(self).write_pos == old(self).write_pos,
    {
        let time: i64 = clamp_i64(time, 0, 2 * SCALE);
        proof {
            let t = time as int;
            let sr = sample_rate as int;
            let s = SCALE as int;
            assert(t * sr <= 2_000_000 * 192_000) by (nonlinear_arith)
                requires
                    0 <= t <= 2_000_000,
                    0 < sr <= 192_000,
            ;
            assert(t * sr >= 0) by (nonlinear_arith)
                requires
                    t >= 0,
                    sr >= 0,
            ;
            vstd::arithmetic::div_mod::lemma_div_pos_is_pos(t * sr + s / 2, s);
            assert((t * sr + s / 2) / s <= 500_000) by {
                vstd::arithmetic::div_mod::lemma_div_is_ordered(
                    t * sr + s / 2,
                    500_000 * s,
                    s,
                );
                vstd::arithmetic::div_mod::lemma_div_multiples_vanish(500_000, s);
            }
        }
        let nds: u64 = ((time as u64) * (sample_rate as u64) + (SCALE as u64) / 2) / (
        SCALE as u64);
        let new_ds: usize = nds as usize;
        if new_ds != self.delay_samples {
            self.delay_samples = new_ds;
            while self.buffer.len() < new_ds + 1
                invariant
                    new_ds <= 500_000,
                    old(self).buffer@.is_prefix_of(self.buffer@),
                    1 <= self.buffer@.len() <= 1_000_000,
                    self.write_pos < self.buffer@.len(),
                    self.write_pos == old(self).write_pos,
                    self.delay_samples == new_ds,
                    self.feedback == old(self).feedback,
                    self.wet == old(self).wet,
                    forall|i: int|
                        0 <= i < self.buffer@.len() ==> -SIGNAL_CAP <= #[trigger] self.buffer@[i]
                            <= SIGNAL_CAP,
                decreases new_ds + 1 - self.buffer@.len(),
            {
                self.buffer.push(0);
            }
        }
    }

    pub fn set_feedback(&mut self, feedback: i64)
        requires
            old(self).wf(),
        ensures
            final(self).wf(),
            final(self).feedback == clamp_int(feedback as int, 0, 950_000),
            final(self).buffer@ == old(self).buffer@,
            final(self).write_pos == old(self).write_pos,
            final(self).delay_samples == old(self).delay_samples,
            final(self).wet == old(self).wet,
    {
        self.feedback = clamp_i64(feedback, 0, 950_000);
    }

    pub fn set_wet(&mut self, wet: i64)
        requires
            old(self).wf(),
        ensures
            final(self).wf(),
            final(self).wet == clamp_int(wet as int, 0, SCALE as int),
            final(self).buffer@ == old(self).buffer@,
            final(self).write_pos == old(self).write_pos,
            final(self).delay_samples == old(self).delay_samples,
            final(self).feedback == old(self).feedback,
    {
        self.wet = clamp_i64(wet, 0, SCALE);
    }

    pub fn reset(&mut self)
        requires
            old(self).wf(),
        ensures
            final(self).wf(),
            final(self).buffer@.len() == old(self).buffer@.len(),
            forall|i: int| 0 <= i < final(self).buffer@.len() ==> final(self).buffer@[i] == 0,
            final(self).write_pos == 0,
            final(self).delay_samples == old(self).delay_samples,
            final(self).feedback == old(self).feedback,
            final(self).wet == old(self).wet,
    {
        let n: usize = self.buffer.len();
        self.buffer = zero_signal_vec(n);
        self.write_pos = 0;
    }
}

/// A vector of `n` zero samples.
fn zero_signal_vec(n: usize) -> (r: Vec<i64>)
    requires
        n >= 1,
    ensures
        r@.len() == n,
        forall|i: int| 0 <= i < n ==> r@[i] == 0,
{
    let mut v: Vec<i64> = Vec::new();
    let mut i: usize = 0;
    while i < n
        invariant
            i <= n,
            v@.len() == i,
            forall|j: int| 0 <= j < i ==> v@[j] == 0,
        decreases n - i,
    {
        v.push(0);
        i = i + 1;
    }
    v
}

/// The reverb's fixed delay-time coefficients: room size is scaled by
/// 0.03, 0.05, 0.07 and 0.11 seconds.
pub open spec fn reverb_coeff(k: int) -> int {
    if k == 0 {
        30_000
    } else if k == 1 {
        50_000
    } else if k == 2 {
        70_000
    } else {
        110_000
    }
}

/// Delay time of the `k`-th reverb line for a room size.
pub open spec fn reverb_time_spec(room: int, k: int) -> int {
    mul_frac_int(clamp_int(room, 0, SCALE as int), reverb_coeff(k))
}

/// The saturating sum of the first `n` delay-line outputs.
pub open spec fn reverb_sum_spec(delays: Seq<DelayModel>, input: int, n: int) -> int
    decreases n,
{
    if n <= 0 {
        0
    } else {
        sat_add_int(reverb_sum_spec(delays, input, n - 1), delay_out_spec(delays[n - 1], input))
    }
}

/// All delay lines advanced by one sample.
pub open spec fn reverb_delays_next(delays: Seq<DelayModel>, input: int) -> Seq<DelayModel> {
    Seq::new(delays.len(), |i: int| delay_next_spec(delays[i], input))
}

/// The reverb's output: the averaged sum of the delay lines, dry/wet
/// mixed with the input.
pub open spec fn reverb_out_spec(delays: Seq<DelayModel>, wet: int, input: int) -> int {
    let sum = reverb_sum_spec(delays, input, delays.len() as int);
    let avg = tdiv_int(sum, delays.len() as int);
    sat_add_int(mul_frac_int(input, (SCALE as int) - wet), mul_frac_int(avg, wet))
}

/// Four parallel delay lines, summed, averaged and mixed.
pub struct ReverbUnit {
    pub delays: Vec<DelayUnit>,
    pub wet: i64,
}

impl ReverbUnit {
    pub open spec fn models(self) -> Seq<DelayModel> {
        Seq::new(self.delays@.len(), |i: int| self.delays@[i].model())
    }

    pub open spec fn wf(self) -> bool {
        &&& self.delays@.len() == 4
        &&& forall|i: int| 0 <= i < 4 ==> (#[trigger] self.delays@[i]).wf()
        &&& 0 <= self.wet <= SCALE
    }

    /// Build the four delay lines from room size and damping: each
    /// line is fully wet with feedback `damping * 0.7`.
    pub fn new(room_size: i64, damping: i64, wet: i64, sample_rate: u32) -> (r: ReverbUnit)
        requires
            8_000 <= sample_rate <= 192_000,
        ensures
            r.wf(),
            r.wet == clamp_int(wet as int, 0, SCALE as int),
            forall|k: int|
                0 <= k < 4 ==> (#[trigger] r.delays@[k]).delay_samples == delay_len_spec(
                    reverb_time_spec(room_size as int, k),
                    sample_rate as int,
                ),
            forall|k: int|
                0 <= k < 4 ==> (#[trigger] r.delays@[k]).feedback == mul_frac_int(
                    clamp_int(damping as int, 0, SCALE as int),
                    700_000,
                ),
            forall|k: int| 0 <= k < 4 ==> (#[trigger] r.delays@[k]).wet == SCALE,
            forall|k: int| 0 <= k < 4 ==> (#[trigger] r.delays@[k]).write_pos == 0,
            forall|k: int, i: int|
                #![all_triggers]
                0 <= k < 4 && 0 <= i < r.delays@[k].buffer@.len() ==> r.delays@[k].buffer@[i]
                    == 0,
    {
        let room: i64 = clamp_i64(room_size, 0, SCALE);
        let damp: i64 = clamp_i64(damping, 0, SCALE);
        let fb: i64 = mul_frac(damp, 700_000);
        proof {
            crate::fixed::lemma_mul_frac_bound(room as int, 30_000, SCALE as int, 1);
            crate::fixed::lemma_mul_frac_bound(room as int, 50_000, SCALE as int, 1);
            crate::fixed::lemma_mul_frac_bound(room as int, 70_000, SCALE as int, 1);
            crate::fixed::lemma_mul_frac_bound(room as int, 110_000, SCALE as int, 1);
            crate::fixed::lemma_mul_frac_bound(damp as int, 700_000, SCALE as int, 1);
            lemma_frac_of_frac_nonneg(room as int, 30_000);
            lemma_frac_of_frac_nonneg(room as int, 50_000);
            lemma_frac_of_frac_nonneg(room as int, 70_000);
            lemma_frac_of_frac_nonneg(room as int, 110_000);
            lemma_frac_of_frac_nonneg(damp as int, 700_000);
        }
        let t0: i64 = mul_frac(room, 30_000);
        let t1: i64 = mul_frac(room, 50_000);
        let t2: i64 = mul_frac(room, 70_000);
        let t3: i64 = mul_frac(room, 110_000);
        let mut delays: Vec<DelayUnit> = Vec::new();
        delays.push(DelayUnit::new(t0, fb, SCALE, sample_rate));
        delays.push(DelayUnit::new(t1, fb, SCALE, sample_rate));
        delays.push(DelayUnit::new(t2, fb, SCALE, sample_rate));
        delays.push(DelayUnit::new(t3, fb, SCALE, sample_rate));
        ReverbUnit { delays, wet: clamp_i64(wet, 0, SCALE) }
    }

    /// Process one sample: every line advances, their outputs are
    /// summed and averaged, and the result is mixed with the input.
    pub fn tick(&mut self, input: i64) -> (out: i64)
        requires
            old(self).wf(),
            -SIGNAL_CAP <= input <= SIGNAL_CAP,
        ensures
            final(self).wf(),
            final(self).models() == reverb_delays_next(old(self).models(), input as int),
            final(self).wet == old(self).wet,
            out == reverb_out_spec(old(self).models(), old(self).wet as int, input as int),
            -SIGNAL_CAP <= out <= SIGNAL_CAP,
    {
        let n: usize = self.delays.len();
        let mut sum: i64 = 0;
        let mut i: usize = 0;
        while i < n
            invariant
                i <= n,
                n == 4,
                self.delays@.len() == 4,
                old(self).delays@.len() == 4,
                forall|j: int| 0 <= j < 4 ==> (#[trigger] old(self).delays@[j]).wf(),
                -SIGNAL_CAP <= input <= SIGNAL_CAP,
                forall|j: int| 0 <= j < 4 ==> (#[trigger] self.delays@[j]).wf(),
                forall|j: int|
                    i <= j < 4 ==> (#[trigger] self.delays@[j]) == old(self).delays@[j],
                forall|j: int|
                    0 <= j < i ==> (#[trigger] self.delays@[j]).model() == delay_next_spec(
                        old(self).delays@[j].model(),
                        input as int,
                    ),
                self.wet == old(self).wet,
                -SIGNAL_CAP <= sum <= SIGNAL_CAP,
                sum == reverb_sum_spec(old(self).models(), input as int, i as int),
            decreases n - i,
        {
            let d = &mut self.delays[i];
            let o: i64 = d.tick(input);
            proof {
                assert(old(self).models()[i as int] == old(self).delays@[i as int].model());
            }
            sum = sat_add(sum, o);
            i = i + 1;
        }
        let avg: i64 = tdiv_i64(sum, 4);
        let dry: i64 = mul_frac(input, SCALE - self.wet);
        let wet_part: i64 = mul_frac(avg, self.wet);
        proof {
            crate::fixed::lemma_mul_frac_bound(
                input as int,
                (SCALE - self.wet) as int,
                SIGNAL_CAP as int,
                1,
            );
            crate::fixed::lemma_mul_frac_bound(avg as int, self.wet as int, SIGNAL_CAP as int, 1);
            assert(final(self).models() =~= reverb_delays_next(old(self).models(), input as int));
        }
        sat_add(dry, wet_part)
    }

    /// Retarget the delay lines for a new room size; their contents
    /// survive.
    pub fn set_room_size(&mut self, room_size: i64, sample_rate: u32)
        requires
            old(self).wf(),
            8_000 <= sample_rate <= 192_000,
        ensures
            final(self).wf(),
            final(self).wet == old(self).wet,
            forall|k: int|
                0 <= k < 4 ==> (#[trigger] final(self).delays@[k]).delay_samples
                    == delay_len_spec(
                    reverb_time_spec(room_size as int, k),
                    sample_rate as int,
                ),
            forall|k: int|
                0 <= k < 4 ==> (#[trigger] final(self).delays@[k]).feedback == old(
                    self,
                ).delays@[k].feedback,
            forall|k: int|
                0 <= k < 4 ==> (#[trigger] old(self).delays@[k]).buffer@.is_prefix_of(
                    final(self).delays@[k].buffer@,
                ) && final(self).delays@[k].write_pos == old(self).delays@[k].write_pos,
    {
        let room: i64 = clamp_i64(room_size, 0, SCALE);
        proof {
            crate::fixed::lemma_mul_frac_bound(room as int, 30_000, SCALE as int, 1);
            crate::fixed::lemma_mul_frac_bound(room as int, 50_000, SCALE as int, 1);
            crate::fixed::lemma_mul_frac_bound(room as int, 70_000, SCALE as int, 1);
            crate::fixed::lemma_mul_frac_bound(room as int, 110_000, SCALE as int, 1);
            lemma_frac_of_frac_nonneg(room as int, 30_000);
            lemma_frac_of_frac_nonneg(room as int, 50_000);
            lemma_frac_of_frac_nonneg(room as int, 70_000);
            lemma_frac_of_frac_nonneg(room as int, 110_000);
        }
        let t0: i64 = mul_frac(room, 30_000);
        let t1: i64 = mul_frac(room, 50_000);
        let t2: i64 = mul_frac(room, 70_000);
        let t3: i64 = mul_frac(room, 110_000);
        let d0 = &mut self.delays[0];
        d0.set_delay_time(t0, sample_rate);
        let d1 = &mut self.delays[1];
        d1.set_delay_time(t1, sample_rate);
        let d2 = &mut self.delays[2];
        d2.set_delay_time(t2, sample_rate);
        let d3 = &mut self.delays[3];
        d3.set_delay_time(t3, sample_rate);
        proof {
            assert(clamp_int(t0 as int, 0, 2 * SCALE as int) == t0 as int);
            assert(clamp_int(t1 as int, 0, 2 * SCALE as int) == t1 as int);
            assert(clamp_int(t2 as int, 0, 2 * SCALE as int) == t2 as int);
            assert(clamp_int(t3 as int, 0, 2 * SCALE as int) == t3 as int);
        }
    }

    /// Set the lines' feedback from the damping amount.
    pub fn set_damping(&mut self, damping: i64)
        requires
            old(self).wf(),
        ensures
            final(self).wf(),
            final(self).wet == old(self).wet,
            forall|k: int|
                0 <= k < 4 ==> (#[trigger] final(self).delays@[k]).feedback == mul_frac_int(
                    clamp_int(damping as int, 0, SCALE as int),
                    700_000,
                ),
            forall|k: int|
                0 <= k < 4 ==> (#[trigger] final(self).delays@[k]).buffer@ == old(
                    self,
                ).delays@[k].buffer@ && final(self).delays@[k].write_pos == old(
                    self,
                ).delays@[k].write_pos && final(self).delays@[k].delay_samples == old(
                    self,
                ).delays@[k].delay_samples && final(self).delays@[k].wet == old(
                    self,
                ).delays@[k].wet,
    {
        let damp: i64 = clamp_i64(damping, 0, SCALE);
        let fb: i64 = mul_frac(damp, 700_000);
        proof {
            crate::fixed::lemma_mul_frac_bound(damp as int, 700_000, SCALE as int, 1);
            lemma_frac_of_frac_nonneg(damp as int, 700_000);
        }
        let d0 = &mut self.delays[0];
        d0.set_feedback(fb);
        let d1 = &mut self.delays[1];
        d1.set_feedback(fb);
        let d2 = &mut self.delays[2];
        d2.set_feedback(fb);
        let d3 = &mut self.delays[3];
        d3.set_feedback(fb);
        proof {
            assert(clamp_int(fb as int, 0, 950_000) == fb as int);
        }
    }

    pub fn set_wet(&mut self, wet: i64)
        requires
            old(self).wf(),
        ensures
            final(self).wf(),
            final(self).wet == clamp_int(wet as int, 0, SCALE as int),
            final(self).delays@ == old(self).delays@,
    {
        self.wet = clamp_i64(wet, 0, SCALE);
    }

    pub fn reset(&mut self)
        requires
            old(self).wf(),
        ensures
            final(self).wf(),
            final(self).wet == old(self).wet,
            forall|k: int, i: int|
                0 <= k < 4 && 0 <= i < final(self).delays@[k].buffer@.len() ==> (
                #[trigger] final(self).delays@[k].buffer@[i]) == 0,
    {
        let d0 = &mut self.delays[0];
        d0.reset();
        let d1 = &mut self.delays[1];
        d1.reset();
        let d2 = &mut self.delays[2];
        d2.reset();
        let d3 = &mut self.delays[3];
        d3.reset();
    }
}

/// A fraction of a non-negative value is non-negative.
proof fn lemma_frac_of_frac_nonneg(a: int, f: int)
    requires
        0 <= a,
        0 <= f,
    ensures
        0 <= mul_frac_int(a, f),
{
    let s = SCALE as int;
    assert(a * f >= 0) by (nonlinear_arith)
        requires
            a >= 0,
            f >= 0,
    ;
    vstd::arithmetic::div_mod::lemma_div_pos_is_pos(a * f, s);
}

/// The stereo output stage: both inputs are mixed to mono, then spread
/// by volume and equal-power pan.
pub struct OutputUnit {
    pub volume: i64,
    pub pan: i64,
    pub enabled: bool,
}

/// The output unit's stereo result for a mono mix.
pub open spec fn output_tick_spec(u: OutputUnit, in0: int, in1: int) -> (int, int) {
    if u.enabled {
        let mono = sat_add_int(in0, in1);
        (
            mul_frac_int(mono, left_gain_spec(u.volume as int, u.pan as int)),
            mul_frac_int(mono, right_gain_spec(u.volume as int, u.pan as int)),
        )
    } else {
        (0, 0)
    }
}

impl OutputUnit {
    pub open spec fn wf(self) -> bool {
        &&& 0 <= self.volume <= SCALE
        &&& 0 <= self.pan <= SCALE
    }

    pub fn new(volume: i64, pan: i64) -> (r: OutputUnit)
        ensures
            r.wf(),
            r.volume == clamp_int(volume as int, 0, SCALE as int),
            r.pan == clamp_int(pan as int, 0, SCALE as int),
            r.enabled,
    {
        OutputUnit { volume: clamp_i64(volume, 0, SCALE), pan: clamp_i64(pan, 0, SCALE), enabled: true }
    }

    /// Mix the two inputs and spread them over the stereo pair.
    pub fn tick(&self, in0: i64, in1: i64) -> (r: (i64, i64))
        requires
            self.wf(),
            -SIGNAL_CAP <= in0 <= SIGNAL_CAP,
            -SIGNAL_CAP <= in1 <= SIGNAL_CAP,
        ensures
            (r.0 as int, r.1 as int) == output_tick_spec(*self, in0 as int, in1 as int),
            -SIGNAL_CAP <= r.0 <= SIGNAL_CAP,
            -SIGNAL_CAP <= r.1 <= SIGNAL_CAP,
    {
        if !self.enabled {
            return (0, 0);
        }
        let mono: i64 = sat_add(in0, in1);
        let left_root: i64 = sqrt_frac(SCALE - self.pan);
        let right_root: i64 = sqrt_frac(self.pan);
        let lg: i64 = mul_frac(self.volume, left_root);
        let rg: i64 = mul_frac(self.volume, right_root);
        proof {
            crate::output::lemma_gain_in_range(self.volume as int, self.pan as int);
            assert(clamp_int(self.volume as int, 0, SCALE as int) == self.volume as int);
            assert(clamp_int(self.pan as int, 0, SCALE as int) == self.pan as int);
            crate::fixed::lemma_mul_frac_bound(mono as int, lg as int, SIGNAL_CAP as int, 1);
            crate::fixed::lemma_mul_frac_bound(mono as int, rg as int, SIGNAL_CAP as int, 1);
        }
        (mul_frac(mono, lg), mul_frac(mono, rg))
    }

    pub fn set_volume(&mut self, volume: i64)
        ensures
            *final(self) == (OutputUnit {
                volume: clamp_int(volume as int, 0, SCALE as int) as i64,
                ..*old(self)
            }),
    {
        self.volume = clamp_i64(volume, 0, SCALE);
    }

    pub fn set_pan(&mut self, pan: i64)
        ensures
            *final(self) == (OutputUnit {
                pan: clamp_int(pan as int, 0, SCALE as int) as i64,
                ..*old(self)
            }),
    {
        self.pan = clamp_i64(pan, 0, SCALE);
    }

    pub fn set_enabled(&mut self, enabled: bool)
        ensures
            *final(self) == (OutputUnit { enabled, ..*old(self) }),
    {
        self.enabled = enabled;
    }
}

/// The closed set of per-sample processors, dispatched by a single
/// match on the hot path.  A sequencer node carries no audio; it
/// contributes silence to the graph.
pub enum DspUnit {
    Oscillator(OscillatorUnit),
    Filter(FilterUnit),
    Delay(DelayUnit),
    Reverb(ReverbUnit),
    Output(OutputUnit),
    Trigger,
}


/// The oscillator after one tick: the phase advances by one sample's
/// worth of frequency, wrapping at a full cycle.
pub open spec fn osc_next_spec(o: OscillatorUnit) -> OscillatorUnit {
    OscillatorUnit {
        phase: ((o.phase + o.frequency) % phase_modulus(o.sample_rate)) as u64,
        ..o
    }
}

/// The mathematical state of one DSP unit, with vectors replaced by
/// sequences.
pub enum DspModel {
    Osc(OscillatorUnit),
    Filt(FilterUnit),
    Del(DelayModel),
    Rev(Seq<DelayModel>, int),
    Out(OutputUnit),
    Trig,
}

impl DspUnit {
    /// This unit's mathematical state.
    pub open spec fn model(self) -> DspModel {
        match self {
            DspUnit::Oscillator(o) => DspModel::Osc(o),
            DspUnit::Filter(f) => DspModel::Filt(f),
            DspUnit::Delay(d) => DspModel::Del(d.model()),
            DspUnit::Reverb(rv) => DspModel::Rev(rv.models(), rv.wet as int),
            DspUnit::Output(o) => DspModel::Out(o),
            DspUnit::Trigger => DspModel::Trig,
        }
    }
}

/// One sample of one unit: the state after the tick, the mono sample
/// it produces, and (for the output stage) its stereo pair.
pub open spec fn model_tick(m: DspModel, in0: int, in1: int) -> (DspModel, int, (int, int)) {
    match m {
        DspModel::Osc(o) => (DspModel::Osc(osc_next_spec(o)), osc_out_spec(o), (0int, 0int)),
        DspModel::Filt(f) => (
            DspModel::Filt(filter_next_spec(f, in0)),
            filter_out_spec(f, in0),
            (0int, 0int),
        ),
        DspModel::Del(d) => (
            DspModel::Del(delay_next_spec(d, in0)),
            delay_out_spec(d, in0),
            (0int, 0int),
        ),
        DspModel::Rev(ds, wet) => (
            DspModel::Rev(reverb_delays_next(ds, in0), wet),
            reverb_out_spec(ds, wet, in0),
            (0int, 0int),
        ),
        DspModel::Out(o) => (DspModel::Out(o), 0int, output_tick_spec(o, in0, in1)),
        DspModel::Trig => (DspModel::Trig, 0int, (0int, 0int)),
    }
}

/// The unit's internal state is untouched: zero phase, cleared
/// filter memory, silent delay lines.
pub open spec fn fresh_state(u: DspUnit) -> bool {
    match u {
        DspUnit::Oscillator(o) => o.phase == 0,
        DspUnit::Filter(f) => f.low == 0 && f.band == 0 && f.high == 0,
        DspUnit::Delay(d) => d.write_pos == 0 && forall|i: int|
            0 <= i < d.buffer@.len() ==> #[trigger] d.buffer@[i] == 0,
        DspUnit::Reverb(rv) => forall|k: int|
            #![all_triggers]
            0 <= k < rv.delays@.len() ==> rv.delays@[k].write_pos == 0 && forall|i: int|
                0 <= i < rv.delays@[k].buffer@.len() ==> rv.delays@[k].buffer@[i] == 0,
        DspUnit::Output(_) => true,
        DspUnit::Trigger => true,
    }
}

/// The unit realizes this module's current parameter values.
pub open spec fn dsp_matches(u: DspUnit, m: AudioModule, sample_rate: u32) -> bool {
    match u {
        DspUnit::Oscillator(o) => {
            &&& m.module_type == ModuleType::Oscillator
            &&& o.frequency == clamp_int(
                spec_param_value(m.parameters@, "Frequency"@),
                0,
                20_000_000_000,
            )
            &&& o.waveform == waveform_of_units(spec_param_value(m.parameters@, "Waveform"@))
            &&& o.amplitude == clamp_int(
                spec_param_value(m.parameters@, "Amplitude"@),
                0,
                SCALE as int,
            )
            &&& o.sample_rate == sample_rate
        },
        DspUnit::Filter(f) => {
            &&& m.module_type == ModuleType::Filter
            &&& f.filter_type == filter_type_of_units(spec_param_value(m.parameters@, "Type"@))
            &&& f.cutoff == clamp_int(
                spec_param_value(m.parameters@, "Cutoff"@),
                0,
                20_000_000_000,
            )
            &&& f.resonance == clamp_int(
                spec_param_value(m.parameters@, "Resonance"@),
                0,
                SCALE as int,
            )
            &&& f.sample_rate == sample_rate
        },
        DspUnit::Delay(d) => {
            &&& m.module_type == ModuleType::Delay
            &&& d.delay_samples == delay_len_spec(
                clamp_int(spec_param_value(m.parameters@, "Time"@), 0, 2 * SCALE as int),
                sample_rate as int,
            )
            &&& d.feedback == clamp_int(spec_param_value(m.parameters@, "Feedback"@), 0, 950_000)
            &&& d.wet == clamp_int(spec_param_value(m.parameters@, "Wet"@), 0, SCALE as int)
        },
        DspUnit::Reverb(rv) => {
            &&& m.module_type == ModuleType::Reverb
            &&& rv.wet == clamp_int(spec_param_value(m.parameters@, "Wet"@), 0, SCALE as int)
            &&& forall|k: int|
                0 <= k < 4 ==> (#[trigger] rv.delays@[k]).delay_samples == delay_len_spec(
                    reverb_time_spec(spec_param_value(m.parameters@, "Room Size"@), k),
                    sample_rate as int,
                )
            &&& forall|k: int|
                0 <= k < 4 ==> (#[trigger] rv.delays@[k]).feedback == mul_frac_int(
                    clamp_int(spec_param_value(m.parameters@, "Damping"@), 0, SCALE as int),
                    700_000,
                )
        },
        DspUnit::Output(o) => {
            &&& m.module_type == ModuleType::Output
            &&& o.volume == clamp_int(spec_param_value(m.parameters@, "Volume"@), 0, SCALE as int)
            &&& o.pan == clamp_int(spec_param_value(m.parameters@, "Pan"@), 0, SCALE as int)
            &&& o.enabled == m.enabled
        },
        DspUnit::Trigger => m.module_type == ModuleType::Sequencer,
    }
}

impl DspUnit {
    pub open spec fn wf(self) -> bool {
        match self {
            DspUnit::Oscillator(o) => o.wf(),
            DspUnit::Filter(f) => f.wf(),
            DspUnit::Delay(d) => d.wf(),
            DspUnit::Reverb(rv) => rv.wf(),
            DspUnit::Output(o) => o.wf(),
            DspUnit::Trigger => true,
        }
    }

    /// Realize a module descriptor as a DSP unit with fresh state.
    pub fn from_module(m: &AudioModule, sample_rate: u32) -> (r: DspUnit)
        requires
            m.wf(),
            8_000 <= sample_rate <= 192_000,
        ensures
            r.wf(),
            dsp_matches(r, *m, sample_rate),
            fresh_state(r),
    {
        match m.module_type {
            ModuleType::Oscillator => {
                let freq: i64 = m.get_parameter_value("Frequency");
                let amp: i64 = m.get_parameter_value("Amplitude");
                let wf_units: i64 = m.get_parameter_value("Waveform");
                let wf: OscillatorWaveform = waveform_from_units(wf_units);
                DspUnit::Oscillator(OscillatorUnit::new(freq, wf, amp, sample_rate))
            },
            ModuleType::Filter => {
                let cutoff: i64 = m.get_parameter_value("Cutoff");
                let reso: i64 = m.get_parameter_value("Resonance");
                let ty_units: i64 = m.get_parameter_value("Type");
                let ty: FilterType = filter_type_from_units(ty_units);
                DspUnit::Filter(FilterUnit::new(ty, cutoff, reso, sample_rate))
            },
            ModuleType::Delay => {
                let time: i64 = m.get_parameter_value("Time");
                let fb: i64 = m.get_parameter_value("Feedback");
                let wet: i64 = m.get_parameter_value("Wet");
                DspUnit::Delay(DelayUnit::new(time, fb, wet, sample_rate))
            },
            ModuleType::Reverb => {
                let room: i64 = m.get_parameter_value("Room Size");
                let damp: i64 = m.get_parameter_value("Damping");
                let wet: i64 = m.get_parameter_value("Wet");
                DspUnit::Reverb(ReverbUnit::new(room, damp, wet, sample_rate))
            },
            ModuleType::Output => {
                let vol: i64 = m.get_parameter_value("Volume");
                let pan: i64 = m.get_parameter_value("Pan");
                let mut o = OutputUnit::new(vol, pan);
                o.set_enabled(m.enabled);
                DspUnit::Output(o)
            },
            ModuleType::Sequencer => DspUnit::Trigger,
        }
    }

    /// Apply a module's current parameter values to this unit without
    /// touching its internal state (phase, filter memory, delay
    /// contents); a unit of the wrong shape is rebuilt instead.
    pub fn update_from_module(&mut self, m: &AudioModule, sample_rate: u32)
        requires
            old(self).wf(),
            m.wf(),
            8_000 <= sample_rate <= 192_000,
        ensures
            final(self).wf(),
            dsp_matches(*final(self), *m, sample_rate),
            matching_shape(*old(self), *m) ==> state_preserved(*old(self), *final(self)),
    {
        match (self, m.module_type) {
            (DspUnit::Oscillator(o), ModuleType::Oscillator) => {
                o.set_frequency(m.get_parameter_value("Frequency"));
                o.set_amplitude(m.get_parameter_value("Amplitude"));
                o.set_waveform(waveform_from_units(m.get_parameter_value("Waveform")));
                o.set_sample_rate(sample_rate);
            },
            (DspUnit::Filter(f), ModuleType::Filter) => {
                f.set_cutoff(m.get_parameter_value("Cutoff"));
                f.set_resonance(m.get_parameter_value("Resonance"));
                f.set_type(filter_type_from_units(m.get_parameter_value("Type")));
                f.set_sample_rate(sample_rate);
            },
            (DspUnit::Delay(d), ModuleType::Delay) => {
                d.set_delay_time(m.get_parameter_value("Time"), sample_rate);
                d.set_feedback(m.get_parameter_value("Feedback"));
                d.set_wet(m.get_parameter_value("Wet"));
            },
            (DspUnit::Reverb(rv), ModuleType::Reverb) => {
                rv.set_room_size(m.get_parameter_value("Room Size"), sample_rate);
                rv.set_damping(m.get_parameter_value("Damping"));
                rv.set_wet(m.get_parameter_value("Wet"));
            },
            (DspUnit::Output(o), ModuleType::Output) => {
                o.set_volume(m.get_parameter_value("Volume"));
                o.set_pan(m.get_parameter_value("Pan"));
                o.set_enabled(m.enabled);
            },
            (DspUnit::Trigger, ModuleType::Sequencer) => {},
            (u, _) => {
                *u = DspUnit::from_module(m, sample_rate);
            },
        }
    }

    /// Clear all internal state.
    pub fn reset(&mut self)
        requires
            old(self).wf(),
        ensures
            final(self).wf(),
    {
        match self {
            DspUnit::Oscillator(o) => o.reset(),
            DspUnit::Filter(f) => f.reset(),
            DspUnit::Delay(d) => d.reset(),
            DspUnit::Reverb(rv) => rv.reset(),
            DspUnit::Output(_) => {},
            DspUnit::Trigger => {},
        }
    }
}

/// A parameter update left the unit's internal state alone: the
/// oscillator keeps its phase (wrapped into the possibly new cycle),
/// the filter keeps its memory, the delay lines keep their contents.
pub open spec fn state_preserved(u0: DspUnit, u1: DspUnit) -> bool {
    match (u0, u1) {
        (DspUnit::Oscillator(a), DspUnit::Oscillator(b)) => b.phase == a.phase as int
            % phase_modulus(b.sample_rate),
        (DspUnit::Filter(a), DspUnit::Filter(b)) => b.low == a.low && b.band == a.band && b.high
            == a.high,
        (DspUnit::Delay(a), DspUnit::Delay(b)) => a.buffer@.is_prefix_of(b.buffer@)
            && b.write_pos == a.write_pos,
        (DspUnit::Reverb(a), DspUnit::Reverb(b)) => forall|k: int|
            0 <= k < 4 && k < a.delays@.len() && k < b.delays@.len() ==> (
            #[trigger] a.delays@[k]).buffer@.is_prefix_of(b.delays@[k].buffer@)
                && b.delays@[k].write_pos == a.delays@[k].write_pos,
        (DspUnit::Output(_), DspUnit::Output(_)) => true,
        (DspUnit::Trigger, DspUnit::Trigger) => true,
        _ => false,
    }
}

/// A unit realizing a module has its shape.
pub proof fn lemma_dsp_matches_shape(u: DspUnit, m: AudioModule, sample_rate: u32)
    requires
        dsp_matches(u, m, sample_rate),
    ensures
        matching_shape(u, m),
{
    match u {
        DspUnit::Oscillator(_) => {},
        DspUnit::Filter(_) => {},
        DspUnit::Delay(_) => {},
        DspUnit::Reverb(_) => {},
        DspUnit::Output(_) => {},
        DspUnit::Trigger => {},
    }
}

/// The unit's shape agrees with the module's type, so a parameter
/// update can preserve its state.
pub open spec fn matching_shape(u: DspUnit, m: AudioModule) -> bool {
    match u {
        DspUnit::Oscillator(_) => m.module_type == ModuleType::Oscillator,
        DspUnit::Filter(_) => m.module_type == ModuleType::Filter,
        DspUnit::Delay(_) => m.module_type == ModuleType::Delay,
        DspUnit::Reverb(_) => m.module_type == ModuleType::Reverb,
        DspUnit::Output(_) => m.module_type == ModuleType::Output,
        DspUnit::Trigger => m.module_type == ModuleType::Sequencer,
    }
}

/// Decode a `Waveform` parameter value.
fn waveform_from_units(v: i64) -> (r: OscillatorWaveform)
    ensures
        r == waveform_of_units(v as int),
{
    let idx: u64 = if v >= 0 {
        (v as u64) / (SCALE as u64)
    } else {
        0
    };
    proof {
        if v < 0 {
            crate::fixed::lemma_neg_div_neg(v as int, SCALE as int);
        }
    }
    if idx == 1 {
        OscillatorWaveform::Sawtooth
    } else if idx == 2 {
        OscillatorWaveform::Square
    } else if idx == 3 {
        OscillatorWaveform::Triangle
    } else {
        OscillatorWaveform::Sine
    }
}

/// Decode a `Type` parameter value.
fn filter_type_from_units(v: i64) -> (r: FilterType)
    ensures
        r == filter_type_of_units(v as int),
{
    let idx: u64 = if v >= 0 {
        (v as u64) / (SCALE as u64)
    } else {
        0
    };
    proof {
        if v < 0 {
            crate::fixed::lemma_neg_div_neg(v as int, SCALE as int);
        }
    }
    if idx == 1 {
        FilterType::Highpass
    } else if idx == 2 {
        FilterType::Bandpass
    } else if idx == 3 {
        FilterType::Notch
    } else if idx == 4 {
        FilterType::Allpass
    } else {
        FilterType::Lowpass
    }
}

} // verus!

