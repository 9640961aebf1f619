//! The ADSR envelope: sample-counted attack, decay, sustain and
//! release ramps, exact in fixed point.

use crate::fixed::SCALE;
use vstd::prelude::*;

verus! {

#[derive(Clone, Copy, PartialEq, Eq, Structural, Debug)]
pub enum EnvelopeState {
    Idle,
    Attack,
    Decay,
    Sustain,
    Release,
}

/// A sample-counted ADSR envelope.  Times are seconds-units, levels
/// fractions of `SCALE`; transitions are counted in samples, never
/// wall clock.
#[derive(Clone, Copy, PartialEq, Eq, Structural, Debug)]
pub struct ADSREnvelope {
    pub attack_time: i64,
    pub decay_time: i64,
    pub sustain_level: i64,
    pub release_time: i64,
    pub state: EnvelopeState,
    pub current_level: i64,
    pub sample_rate: u32,
    pub samples_in_state: u64,
    pub release_start_level: i64,
}

/// How many whole samples a seconds-units time spans at this rate.
pub open spec fn time_samples(time: int, sample_rate: int) -> int {
    time * sample_rate / (SCALE as int)
}

/// The envelope after one sample, and the level it reports.
pub open spec fn adsr_tick_spec(e: ADSREnvelope) -> (ADSREnvelope, int) {
    let sr = e.sample_rate as int;
    let next = match e.state {
        EnvelopeState::Idle => ADSREnvelope { current_level: 0i64, ..e },
        EnvelopeState::Attack => {
            let n = time_samples(e.attack_time as int, sr);
            if n == 0 || e.samples_in_state >= n {
                ADSREnvelope {
                    current_level: SCALE as i64,
                    state: EnvelopeState::Decay,
                    samples_in_state: 0u64,
                    ..e
                }
            } else {
                ADSREnvelope {
                    current_level: ((e.samples_in_state as int) * (SCALE as int) / n) as i64,
                    ..e
                }
            }
        },
        EnvelopeState::Decay => {
            let n = time_samples(e.decay_time as int, sr);
            if n == 0 || e.samples_in_state >= n {
                ADSREnvelope {
                    current_level: e.sustain_level,
                    state: EnvelopeState::Sustain,
                    samples_in_state: 0u64,
                    ..e
                }
            } else {
                ADSREnvelope {
                    current_level: (SCALE - (e.samples_in_state as int) * (SCALE
                        - e.sustain_level) / n) as i64,
                    ..e
                }
            }
        },
        EnvelopeState::Sustain => ADSREnvelope { current_level: e.sustain_level, ..e },
        EnvelopeState::Release => {
            let n = time_samples(e.release_time as int, sr);
            if n == 0 || e.samples_in_state >= n {
                ADSREnvelope {
                    current_level: 0i64,
                    state: EnvelopeState::Idle,
                    samples_in_state: 0u64,
                    ..e
                }
            } else {
                ADSREnvelope {
                    current_level: ((e.release_start_level as int) * (n
                        - e.samples_in_state as int) / n) as i64,
                    ..e
                }
            }
        },
    };
    let stepped = if next.samples_in_state < 0xFFFF_FFFF_FFFFu64 {
        ADSREnvelope { samples_in_state: (next.samples_in_state + 1) as u64, ..next }
    } else {
        next
    };
    (stepped, stepped.current_level as int)
}

impl ADSREnvelope {
    pub open spec fn wf(self) -> bool {
        &&& 8_000 <= self.sample_rate <= 192_000
        &&& 0 <= self.attack_time <= 60_000_000
        &&& 0 <= self.decay_time <= 60_000_000
        &&& 0 <= self.release_time <= 60_000_000
        &&& 0 <= self.sustain_level <= SCALE
        &&& 0 <= self.current_level <= SCALE
        &&& 0 <= self.release_start_level <= SCALE
        &&& self.samples_in_state <= 0xFFFF_FFFF_FFFF
    }

    pub fn new(attack: i64, decay: i64, sustain: i64, release: i64, sample_rate: u32) -> (r:
        ADSREnvelope)
        requires
            8_000 <= sample_rate <= 192_000,
            0 <= attack <= 60_000_000,
            0 <= decay <= 60_000_000,
            0 <= release <= 60_000_000,
        ensures
            r.wf(),
            r.attack_time == attack,
            r.decay_time == decay,
            r.sustain_level == crate::fixed::clamp_int(sustain as int, 0, SCALE as int),
            r.release_time == release,
            r.state == EnvelopeState::Idle,
            r.current_level == 0,
            r.samples_in_state == 0,
    {
        ADSREnvelope {
            attack_time: attack,
            decay_time: decay,
            sustain_level: crate::fixed::clamp_i64(sustain, 0, SCALE),
            release_time: release,
            state: EnvelopeState::Idle,
            current_level: 0,
            sample_rate,
            samples_in_state: 0,
            release_start_level: 0,
        }
    }

    /// Start the attack ramp.
    pub fn note_on(&mut self)
        ensures
            *final(self) == (ADSREnvelope {
                state: EnvelopeState::Attack,
                samples_in_state: 0u64,
                ..*old(self)
            }),
    {
        self.state = EnvelopeState::Attack;
        self.samples_in_state = 0;
    }

    /// Start the release ramp from the level reached so far.
    pub fn note_off(&mut self)
        ensures
            *final(self) == (ADSREnvelope {
                state: EnvelopeState::Release,
                samples_in_state: 0u64,
                release_start_level: old(self).current_level,
                ..*old(self)
            }),
    {
        self.state = EnvelopeState::Release;
        self.samples_in_state = 0;
        self.release_start_level = self.current_level;
    }

    /// Advance one sample and report the envelope level.
    pub fn tick(&mut self) -> (r: i64)
        requires
            old(self).wf(),
        ensures
            final(self).wf(),
            *final(self) == adsr_tick_spec(*old(self)).0,
            r as int == adsr_tick_spec(*old(self)).1,
            0 <= r <= SCALE,
    {
        let sr: u32 = self.sample_rate;
        match self.state {
            EnvelopeState::Idle => {
                self.current_level = 0;
            },
            EnvelopeState::Attack => {
                let n: u64 = ramp_samples(self.attack_time, sr);
                if n == 0 || self.samples_in_state >= n {
                    self.current_level = SCALE;
                    self.state = EnvelopeState::Decay;
                    self.samples_in_state = 0;
                } else {
                    self.current_level = ramp_up(self.samples_in_state, n);
                }
            },
            EnvelopeState::Decay => {
                let n: u64 = ramp_samples(self.decay_time, sr);
                if n == 0 || self.samples_in_state >= n {
                    self.current_level = self.sustain_level;
                    self.state = EnvelopeState::Sustain;
                    self.samples_in_state = 0;
                } else {
                    let drop: i64 = ramp_scaled(self.samples_in_state, SCALE - self.sustain_level, n);
                    self.current_level = SCALE - drop;
                }
            },
            EnvelopeState::Sustain => {
                self.current_level = self.sustain_level;
            },
            EnvelopeState::Release => {
                let n: u64 = ramp_samples(self.release_time, sr);
                if n == 0 || self.samples_in_state >= n {
                    self.current_level = 0;
                    self.state = EnvelopeState::Idle;
                    self.samples_in_state = 0;
                } else {
                    let remaining: u64 = n - self.samples_in_state;
                    self.current_level = ramp_scaled(remaining, self.release_start_level, n);
                    proof {
                        let e = *old(self);
                        let nn = time_samples(e.release_time as int, sr as int);
                        assert((remaining as int) * (e.release_start_level as int) == (
                        e.release_start_level as int) * (nn - e.samples_in_state as int))
                            by (nonlinear_arith)
                            requires
                                remaining as int == nn - e.samples_in_state as int,
                        ;
                    }
                }
            },
        }
        if self.samples_in_state < 0xFFFF_FFFF_FFFF {
            self.samples_in_state = self.samples_in_state + 1;
        }
        self.current_level
    }

    pub fn is_active(&self) -> (r: bool)
        ensures
            r == (self.state != EnvelopeState::Idle),
    {
        match self.state {
            EnvelopeState::Idle => false,
            _ => true,
        }
    }

    pub fn get_state(&self) -> (r: EnvelopeState)
        ensures
            r == self.state,
    {
        self.state
    }
}

/// The whole number of samples a ramp time spans.
fn ramp_samples(time: i64, sample_rate: u32) -> (r: u64)
    requires
        0 <= time <= 60_000_000,
        8_000 <= sample_rate <= 192_000,
    ensures
        r == time_samples(time as int, sample_rate as int),
        r <= 11_520_000_000,
{
    proof {
        let t = time as int;
        let sr = sample_rate as int;
        let s = SCALE as int;
        assert(t * sr <= 60_000_000 * 192_000) by (nonlinear_arith)
            requires
                0 <= t <= 60_000_000,
                0 < sr <= 192_000,
        ;
        assert(t * sr >= 0) by (nonlinear_arith)
            requires
                t >= 0,
                sr >= 0,
        ;
        vstd::arithmetic::div_mod::lemma_div_pos_is_pos(t * sr, s);
        assert(t * sr / s <= 11_520_000_000_000int / s) by {
            vstd::arithmetic::div_mod::lemma_div_is_ordered(t * sr, 11_520_000_000_000int, s);
        }
        assert(11_520_000_000_000int / s == 11_520_000) by {
            vstd::arithmetic::div_mod::lemma_div_multiples_vanish(11_520_000, s);
        }
    }
    ((time as u64) * (sample_rate as u64)) / (SCALE as u64)
}

/// Position `k` of `n` along a rising ramp to full scale.
fn ramp_up(k: u64, n: u64) -> (r: i64)
    requires
        0 < n <= 11_520_000_000,
        k < n,
    ensures
        r == (k as int) * (SCALE as int) / (n as int),
        0 <= r <= SCALE,
{
    proof {
        let ki = k as int;
        let ni = n as int;
        let s = SCALE as int;
        assert(ki * s <= 11_520_000_000_000_000_000) by (nonlinear_arith)
            requires
                0 <= ki < 11_520_000_000,
                s == 1_000_000,
        ;
        assert(ki * s >= 0) by (nonlinear_arith)
            requires
                ki >= 0,
                s >= 0,
        ;
        vstd::arithmetic::div_mod::lemma_div_pos_is_pos(ki * s, ni);
        assert(ki * s <= ni * s) by (nonlinear_arith)
            requires
                ki <= ni,
                s >= 0,
        ;
        assert(ki * s / ni <= s) by {
            vstd::arithmetic::div_mod::lemma_div_is_ordered(ki * s, ni * s, ni);
            vstd::arithmetic::div_mod::lemma_div_multiples_vanish(s, ni);
            assert(ni * s == s * ni) by (nonlinear_arith);
        }
    }
    (((k as u128) * (SCALE as u128)) / (n as u128)) as i64
}

/// Position `k` of `n` along a ramp scaled to `span`.
fn ramp_scaled(k: u64, span: i64, n: u64) -> (r: i64)
    requires
        0 < n <= 11_520_000_000,
        k <= n,
        0 <= span <= SCALE,
    ensures
        r == (k as int) * (span as int) / (n as int),
        0 <= r <= span,
{
    proof {
        let ki = k as int;
        let ni = n as int;
        let sp = span as int;
        assert(ki * sp <= 11_520_000_000_000_000_000) by (nonlinear_arith)
            requires
                0 <= ki <= 11_520_000_000,
                0 <= sp <= 1_000_000,
        ;
        assert(ki * sp >= 0) by (nonlinear_arith)
            requires
                ki >= 0,
                sp >= 0,
        ;
        vstd::arithmetic::div_mod::lemma_div_pos_is_pos(ki * sp, ni);
        assert(ki * sp <= ni * sp) by (nonlinear_arith)
            requires
                ki <= ni,
                sp >= 0,
        ;
        assert(ki * sp / ni <= sp) by {
            vstd::arithmetic::div_mod::lemma_div_is_ordered(ki * sp, ni * sp, ni);
            vstd::arithmetic::div_mod::lemma_div_multiples_vanish(sp, ni);
            assert(ni * sp == sp * ni) by (nonlinear_arith);
        }
    }
    (((k as u128) * (span as u128)) / (n as u128)) as i64
}

} // verus!
