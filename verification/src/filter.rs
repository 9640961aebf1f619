//! Filter descriptors: cutoff, resonance and type parameters, preset
//! factories, and the cutoff envelope for automated sweeps.

use crate::fixed::{clamp_i64, clamp_int, mul_frac, mul_frac_int, sqrt_frac, sqrt_int, SCALE};
use crate::module::{found_param, set_param_spec, spec_param_value, AudioModule, ModuleType};
use crate::params::PARAM_CAP;
use vstd::prelude::*;

verus! {

#[derive(Clone, Copy, PartialEq, Eq, Structural, Debug)]
pub enum FilterType {
    Lowpass,
    Highpass,
    Bandpass,
    Notch,
    Allpass,
}

/// The filter type's index in the `Type` parameter.
pub open spec fn filter_type_index(t: FilterType) -> int {
    match t {
        FilterType::Lowpass => 0,
        FilterType::Highpass => 1,
        FilterType::Bandpass => 2,
        FilterType::Notch => 3,
        FilterType::Allpass => 4,
    }
}

/// The filter type denoted by a `Type` parameter value (in units);
/// anything out of range falls back to lowpass.
pub open spec fn filter_type_of_units(v: int) -> FilterType {
    if v / (SCALE as int) == 1 {
        FilterType::Highpass
    } else if v / (SCALE as int) == 2 {
        FilterType::Bandpass
    } else if v / (SCALE as int) == 3 {
        FilterType::Notch
    } else if v / (SCALE as int) == 4 {
        FilterType::Allpass
    } else {
        FilterType::Lowpass
    }
}

impl FilterType {
    pub fn all() -> (r: Vec<FilterType>)
        ensures
            r@ == seq![
                FilterType::Lowpass,
                FilterType::Highpass,
                FilterType::Bandpass,
                FilterType::Notch,
                FilterType::Allpass,
            ],
    {
        let mut v: Vec<FilterType> = Vec::new();
        v.push(FilterType::Lowpass);
        v.push(FilterType::Highpass);
        v.push(FilterType::Bandpass);
        v.push(FilterType::Notch);
        v.push(FilterType::Allpass);
        proof {
            assert(v@ =~= seq![
                FilterType::Lowpass,
                FilterType::Highpass,
                FilterType::Bandpass,
                FilterType::Notch,
                FilterType::Allpass,
            ]);
        }
        v
    }

    pub fn name(&self) -> (r: &'static str)
        ensures
            r@ == match *self {
                FilterType::Lowpass => "Lowpass"@,
                FilterType::Highpass => "Highpass"@,
                FilterType::Bandpass => "Bandpass"@,
                FilterType::Notch => "Notch"@,
                FilterType::Allpass => "Allpass"@,
            },
    {
        match self {
            FilterType::Lowpass => "Lowpass",
            FilterType::Highpass => "Highpass",
            FilterType::Bandpass => "Bandpass",
            FilterType::Notch => "Notch",
            FilterType::Allpass => "Allpass",
        }
    }

    pub fn symbol(&self) -> (r: &'static str)
        ensures
            r@ == match *self {
                FilterType::Lowpass => "\\__"@,
                FilterType::Highpass => "__/"@,
                FilterType::Bandpass => "_/\\_"@,
                FilterType::Notch => "\\/_/"@,
                FilterType::Allpass => "~~~"@,
            },
    {
        match self {
            FilterType::Lowpass => "\\__",
            FilterType::Highpass => "__/",
            FilterType::Bandpass => "_/\\_",
            FilterType::Notch => "\\/_/",
            FilterType::Allpass => "~~~",
        }
    }

    pub fn description(&self) -> (r: &'static str)
        ensures
            r@ == match *self {
                FilterType::Lowpass => "Cuts high frequencies"@,
                FilterType::Highpass => "Cuts low frequencies"@,
                FilterType::Bandpass => "Allows middle frequencies"@,
                FilterType::Notch => "Cuts middle frequencies"@,
                FilterType::Allpass => "Changes phase only"@,
            },
    {
        match self {
            FilterType::Lowpass => "Cuts high frequencies",
            FilterType::Highpass => "Cuts low frequencies",
            FilterType::Bandpass => "Allows middle frequencies",
            FilterType::Notch => "Cuts middle frequencies",
            FilterType::Allpass => "Changes phase only",
        }
    }
}

#[derive(Clone, Copy, PartialEq, Eq, Structural, Debug)]
pub enum FilterCurve {
    Butter6dB,
    Butter12dB,
    Butter18dB,
    Butter24dB,
    Moog,
    StateVariable,
}

impl FilterCurve {
    pub fn name(&self) -> (r: &'static str)
        ensures
            r@ == match *self {
                FilterCurve::Butter6dB => "6dB/oct"@,
                FilterCurve::Butter12dB => "12dB/oct"@,
                FilterCurve::Butter18dB => "18dB/oct"@,
                FilterCurve::Butter24dB => "24dB/oct"@,
                FilterCurve::Moog => "Moog"@,
                FilterCurve::StateVariable => "State Var"@,
            },
    {
        match self {
            FilterCurve::Butter6dB => "6dB/oct",
            FilterCurve::Butter12dB => "12dB/oct",
            FilterCurve::Butter18dB => "18dB/oct",
            FilterCurve::Butter24dB => "24dB/oct",
            FilterCurve::Moog => "Moog",
            FilterCurve::StateVariable => "State Var",
        }
    }

    /// Rolloff steepness in whole dB per octave.
    pub fn rolloff_db_per_octave(&self) -> (r: i64)
        ensures
            r == match *self {
                FilterCurve::Butter6dB => 6int,
                FilterCurve::Butter12dB => 12int,
                FilterCurve::Butter18dB => 18int,
                FilterCurve::Butter24dB => 24int,
                FilterCurve::Moog => 24int,
                FilterCurve::StateVariable => 12int,
            },
    {
        match self {
            FilterCurve::Butter6dB => 6,
            FilterCurve::Butter12dB => 12,
            FilterCurve::Butter18dB => 18,
            FilterCurve::Butter24dB => 24,
            FilterCurve::Moog => 24,
            FilterCurve::StateVariable => 12,
        }
    }
}

impl AudioModule {
    pub fn new_filter(name: &str, id: u64) -> (r: AudioModule)
        ensures
            r.wf(),
            r.module_type == ModuleType::Filter,
            r.name@ == name@,
            r.id == id,
            r.enabled,
            crate::module::has_factory_params(r),
    {
        AudioModule::new(ModuleType::Filter, name, id)
    }

    pub fn new_filter_with_type(name: &str, filter_type: FilterType, id: u64) -> (r: AudioModule)
        ensures
            r.wf(),
            r.module_type == ModuleType::Filter,
            r.name@ == name@,
            r.id == id,
    {
        let mut filter = Self::new_filter(name, id);
        filter.set_filter_type(filter_type);
        filter
    }

    pub fn set_cutoff(&mut self, cutoff: i64)
        requires
            old(self).wf(),
        ensures
            final(self).wf(),
            set_param_spec(*old(self), *final(self), "Cutoff"@, cutoff as int),
    {
        self.set_param("Cutoff", cutoff);
    }

    pub fn get_cutoff(&self) -> (r: i64)
        requires
            self.wf(),
        ensures
            r == spec_param_value(self.parameters@, "Cutoff"@),
    {
        self.get_parameter_value("Cutoff")
    }

    pub fn set_resonance(&mut self, resonance: i64)
        requires
            old(self).wf(),
        ensures
            final(self).wf(),
            set_param_spec(*old(self), *final(self), "Resonance"@, resonance as int),
    {
        self.set_param("Resonance", resonance);
    }

    pub fn get_resonance(&self) -> (r: i64)
        requires
            self.wf(),
        ensures
            r == spec_param_value(self.parameters@, "Resonance"@),
    {
        self.get_parameter_value("Resonance")
    }

    pub fn set_filter_type(&mut self, filter_type: FilterType)
        requires
            old(self).wf(),
        ensures
            final(self).wf(),
            set_param_spec(
                *old(self),
                *final(self),
                "Type"@,
                filter_type_index(filter_type) * SCALE,
            ),
    {
        let v: i64 = match filter_type {
            FilterType::Lowpass => 0,
            FilterType::Highpass => SCALE,
            FilterType::Bandpass => 2 * SCALE,
            FilterType::Notch => 3 * SCALE,
            FilterType::Allpass => 4 * SCALE,
        };
        self.set_param("Type", v);
    }

    pub fn get_filter_type(&self) -> (r: FilterType)
        requires
            self.wf(),
        ensures
            found_param(self.parameters@, "Type"@) ==> r == filter_type_of_units(
                spec_param_value(self.parameters@, "Type"@),
            ),
            !found_param(self.parameters@, "Type"@) ==> r == FilterType::Lowpass,
    {
        let v: i64 = self.get_parameter_value("Type");
        let idx: u64 = if v >= 0 {
            (v as u64) / (SCALE as u64)
        } else {
            0
        };
        if idx == 1 {
            FilterType::Highpass
        } else if idx == 2 {
            FilterType::Bandpass
        } else if idx == 3 {
            FilterType::Notch
        } else if idx == 4 {
            FilterType::Allpass
        } else {
            FilterType::Lowpass
        }
    }

    /// Track another frequency: cutoff becomes `base * multiplier`
    /// (multiplier a fraction of `SCALE`), clamped as usual.
    pub fn set_cutoff_relative(&mut self, base_freq: i64, multiplier: i64)
        requires
            old(self).wf(),
            0 <= base_freq <= PARAM_CAP,
            0 <= multiplier <= 10 * SCALE,
        ensures
            final(self).wf(),
            set_param_spec(
                *old(self),
                *final(self),
                "Cutoff"@,
                mul_frac_int(base_freq as int, multiplier as int),
            ),
    {
        let target: i64 = mul_frac(base_freq, multiplier);
        self.set_param("Cutoff", target);
    }

    /// Sweep the cutoff between two frequencies; `position` is a
    /// fraction of `SCALE`, clamped into `[0, 1]`.
    pub fn sweep_cutoff(&mut self, start_freq: i64, end_freq: i64, position: i64)
        requires
            old(self).wf(),
            0 <= start_freq <= PARAM_CAP,
            0 <= end_freq <= PARAM_CAP,
        ensures
            final(self).wf(),
            set_param_spec(
                *old(self),
                *final(self),
                "Cutoff"@,
                start_freq + mul_frac_int(
                    end_freq - start_freq,
                    clamp_int(position as int, 0, SCALE as int),
                ),
            ),
    {
        let position: i64 = clamp_i64(position, 0, SCALE);
        let delta: i64 = mul_frac(end_freq - start_freq, position);
        self.set_param("Cutoff", start_freq + delta);
    }
}

pub struct FilterPresets;

impl FilterPresets {
    /// A mellow lowpass for bass duty.
    pub fn bass_lowpass() -> (r: AudioModule)
        ensures
            r.wf(),
            r.module_type == ModuleType::Filter,
            r.name@ == "Bass LP"@,
    {
        let mut filter = AudioModule::new_filter("Bass LP", 0);
        filter.set_cutoff(500 * SCALE);
        filter.set_resonance(300_000);
        filter.set_filter_type(FilterType::Lowpass);
        filter
    }

    /// A highpass that clears muddy low end.
    pub fn high_shelf() -> (r: AudioModule)
        ensures
            r.wf(),
            r.module_type == ModuleType::Filter,
            r.name@ == "High Shelf"@,
    {
        let mut filter = AudioModule::new_filter("High Shelf", 0);
        filter.set_cutoff(200 * SCALE);
        filter.set_resonance(100_000);
        filter.set_filter_type(FilterType::Highpass);
        filter
    }

    /// A resonant lowpass for classic synth lines.
    pub fn synth_lowpass() -> (r: AudioModule)
        ensures
            r.wf(),
            r.module_type == ModuleType::Filter,
            r.name@ == "Synth LP"@,
    {
        let mut filter = AudioModule::new_filter("Synth LP", 0);
        filter.set_cutoff(1000 * SCALE);
        filter.set_resonance(700_000);
        filter.set_filter_type(FilterType::Lowpass);
        filter
    }

    /// A bandpass around the vocal formant range.
    pub fn vocal_bandpass() -> (r: AudioModule)
        ensures
            r.wf(),
            r.module_type == ModuleType::Filter,
            r.name@ == "Vocal BP"@,
    {
        let mut filter = AudioModule::new_filter("Vocal BP", 0);
        filter.set_cutoff(800 * SCALE);
        filter.set_resonance(500_000);
        filter.set_filter_type(FilterType::Bandpass);
        filter
    }

    /// A narrow notch at mains hum.
    pub fn notch_60hz() -> (r: AudioModule)
        ensures
            r.wf(),
            r.module_type == ModuleType::Filter,
            r.name@ == "60Hz Notch"@,
    {
        let mut filter = AudioModule::new_filter("60Hz Notch", 0);
        filter.set_cutoff(60 * SCALE);
        filter.set_resonance(800_000);
        filter.set_filter_type(FilterType::Notch);
        filter
    }

    /// The telephone-line band.
    pub fn telephone() -> (r: AudioModule)
        ensures
            r.wf(),
            r.module_type == ModuleType::Filter,
            r.name@ == "Telephone"@,
    {
        let mut filter = AudioModule::new_filter("Telephone", 0);
        filter.set_cutoff(3000 * SCALE);
        filter.set_resonance(200_000);
        filter.set_filter_type(FilterType::Bandpass);
        filter
    }

    /// A small-speaker radio band.
    pub fn radio() -> (r: AudioModule)
        ensures
            r.wf(),
            r.module_type == ModuleType::Filter,
            r.name@ == "Radio"@,
    {
        let mut filter = AudioModule::new_filter("Radio", 0);
        filter.set_cutoff(4000 * SCALE);
        filter.set_resonance(400_000);
        filter.set_filter_type(FilterType::Bandpass);
        filter
    }
}

pub struct FilterUtils;

impl FilterUtils {
    /// Cutoff as a fraction of the Nyquist frequency, in units,
    /// clamped into `[0, 1]`.
    pub fn normalize_cutoff(cutoff: i64, sample_rate: u32) -> (r: i64)
        requires
            0 <= cutoff,
            sample_rate >= 1,
        ensures
            r == clamp_int(2 * cutoff / (sample_rate as int), 0, SCALE as int),
    {
        let scaled: u64 = 2 * (cutoff as u64) / (sample_rate as u64);
        if scaled > SCALE as u64 {
            SCALE
        } else {
            scaled as i64
        }
    }

    /// The frequency a normalized cutoff denotes: half the sample
    /// rate, scaled by the fraction.
    pub fn denormalize_cutoff(normalized: i64, sample_rate: u32) -> (r: i64)
        requires
            0 <= normalized <= SCALE,
            sample_rate <= 192_000,
        ensures
            r == normalized * (sample_rate as int) / 2,
    {
        assert((normalized as int) * (sample_rate as int) <= 192_000_000_000) by (nonlinear_arith)
            requires
                0 <= normalized <= 1_000_000i64,
                sample_rate <= 192_000u32,
        ;
        let prod: u64 = (normalized as u64) * (sample_rate as u64);
        (prod / 2) as i64
    }
}

#[derive(Clone, Copy, PartialEq, Eq, Structural, Debug)]
pub enum FilterEnvelopeCurve {
    Linear,
    Exponential,
    Logarithmic,
}

/// A timed cutoff sweep between two frequencies.
pub struct FilterEnvelope {
    pub start_cutoff: i64,
    pub end_cutoff: i64,
    pub duration: i64,
    pub curve: FilterEnvelopeCurve,
    pub current_time: i64,
}

/// How far along the sweep is, as a fraction of `SCALE`.
pub open spec fn envelope_progress(current_time: int, duration: int) -> int {
    clamp_int(current_time * (SCALE as int) / duration, 0, SCALE as int)
}

/// The curved progress: linear, squared, or square-rooted.
pub open spec fn curved_progress(curve: FilterEnvelopeCurve, p: int) -> int {
    match curve {
        FilterEnvelopeCurve::Linear => p,
        FilterEnvelopeCurve::Exponential => mul_frac_int(p, p),
        FilterEnvelopeCurve::Logarithmic => sqrt_int(p * (SCALE as int)),
    }
}

impl FilterEnvelope {
    pub open spec fn wf(self) -> bool {
        &&& 0 <= self.start_cutoff <= PARAM_CAP
        &&& 0 <= self.end_cutoff <= PARAM_CAP
        &&& 0 < self.duration <= PARAM_CAP
        &&& 0 <= self.current_time <= PARAM_CAP
    }

    pub fn new(start_cutoff: i64, end_cutoff: i64, duration: i64) -> (r: FilterEnvelope)
        requires
            0 <= start_cutoff <= PARAM_CAP,
            0 <= end_cutoff <= PARAM_CAP,
            0 < duration <= PARAM_CAP,
        ensures
            r.wf(),
            r.start_cutoff == start_cutoff,
            r.end_cutoff == end_cutoff,
            r.duration == duration,
            r.curve == FilterEnvelopeCurve::Linear,
            r.current_time == 0,
    {
        FilterEnvelope {
            start_cutoff,
            end_cutoff,
            duration,
            curve: FilterEnvelopeCurve::Linear,
            current_time: 0,
        }
    }

    pub fn with_curve(self, curve: FilterEnvelopeCurve) -> (r: FilterEnvelope)
        ensures
            r == (FilterEnvelope { curve, ..self }),
    {
        FilterEnvelope { curve, ..self }
    }

    /// Advance the sweep by `delta_time` (units of seconds) and return
    /// the cutoff at the new position.
    pub fn tick(&mut self, delta_time: i64) -> (r: i64)
        requires
            old(self).wf(),
            0 <= delta_time,
        ensures
            final(self).wf(),
            final(self).current_time == clamp_int(
                old(self).current_time + delta_time,
                0,
                PARAM_CAP as int,
            ),
            final(self).start_cutoff == old(self).start_cutoff,
            final(self).end_cutoff == old(self).end_cutoff,
            final(self).duration == old(self).duration,
            final(self).curve == old(self).curve,
            r == old(self).start_cutoff + mul_frac_int(
                old(self).end_cutoff - old(self).start_cutoff,
                curved_progress(
                    old(self).curve,
                    envelope_progress(final(self).current_time as int, old(self).duration as int),
                ),
            ),
    {
        let bumped: i64 = if delta_time > PARAM_CAP - self.current_time {
            PARAM_CAP
        } else {
            self.current_time + delta_time
        };
        self.current_time = bumped;
        assert((bumped as int) * (SCALE as int) <= 20_000_000_000_000_000) by (nonlinear_arith)
            requires
                0 <= bumped <= 20_000_000_000i64,
                SCALE == 1_000_000i64,
        ;
        let num: u128 = (self.current_time as u128) * (SCALE as u128);
        let q: u128 = num / (self.duration as u128);
        let progress: i64 = if q > SCALE as u128 {
            SCALE
        } else {
            q as i64
        };
        proof {
            let ct = self.current_time as int;
            let du = self.duration as int;
            let s = SCALE as int;
            assert(ct * s >= 0) by (nonlinear_arith)
                requires
                    ct >= 0,
                    s > 0,
            ;
            vstd::arithmetic::div_mod::lemma_div_pos_is_pos(ct * s, du);
            assert(progress == envelope_progress(ct, du));
        }
        let curved: i64 = match self.curve {
            FilterEnvelopeCurve::Linear => progress,
            FilterEnvelopeCurve::Exponential => mul_frac(progress, progress),
            FilterEnvelopeCurve::Logarithmic => sqrt_frac(progress),
        };
        proof {
            assert(curved == curved_progress(self.curve, progress as int));
            if self.curve is Exponential {
                crate::fixed::lemma_mul_frac_bound(progress as int, progress as int, SCALE as int, 1);
                assert(mul_frac_int(progress as int, progress as int) >= 0) by {
                    let p = progress as int;
                    let s = SCALE as int;
                    assert(p * p >= 0) by (nonlinear_arith);
                    vstd::arithmetic::div_mod::lemma_div_pos_is_pos(p * p, s);
                }
            }
        }
        let delta: i64 = mul_frac(self.end_cutoff - self.start_cutoff, curved);
        proof {
            crate::fixed::lemma_mul_frac_bound(
                self.end_cutoff - self.start_cutoff,
                curved as int,
                PARAM_CAP as int,
                1,
            );
        }
        self.start_cutoff + delta
    }

    pub fn reset(&mut self)
        ensures
            *final(self) == (FilterEnvelope { current_time: 0, ..*old(self) }),
    {
        self.current_time = 0;
    }

    pub fn is_finished(&self) -> (r: bool)
        ensures
            r == (self.current_time >= self.duration),
    {
        self.current_time >= self.duration
    }
}

} // verus!
