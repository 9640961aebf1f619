//! Reverb and delay descriptors, musical delay timing, preset
//! factories and ordered effect chains.

use crate::fixed::SCALE;
use crate::module::{module_eq, set_param_spec, spec_param_value, AudioModule, ModuleType};
use vstd::prelude::*;

verus! {

impl AudioModule {
    pub fn new_reverb(name: &str, id: u64) -> (r: AudioModule)
        ensures
            r.wf(),
            r.module_type == ModuleType::Reverb,
            r.name@ == name@,
            r.id == id,
            r.enabled,
            crate::module::has_factory_params(r),
    {
        AudioModule::new(ModuleType::Reverb, name, id)
    }

    pub fn set_room_size(&mut self, room_size: i64)
        requires
            old(self).wf(),
        ensures
            final(self).wf(),
            set_param_spec(*old(self), *final(self), "Room Size"@, room_size as int),
    {
        self.set_param("Room Size", room_size);
    }

    pub fn get_room_size(&self) -> (r: i64)
        requires
            self.wf(),
        ensures
            r == spec_param_value(self.parameters@, "Room Size"@),
    {
        self.get_parameter_value("Room Size")
    }

    pub fn set_damping(&mut self, damping: i64)
        requires
            old(self).wf(),
        ensures
            final(self).wf(),
            set_param_spec(*old(self), *final(self), "Damping"@, damping as int),
    {
        self.set_param("Damping", damping);
    }

    pub fn get_damping(&self) -> (r: i64)
        requires
            self.wf(),
        ensures
            r == spec_param_value(self.parameters@, "Damping"@),
    {
        self.get_parameter_value("Damping")
    }

    pub fn set_wet_level(&mut self, wet: i64)
        requires
            old(self).wf(),
        ensures
            final(self).wf(),
            set_param_spec(*old(self), *final(self), "Wet"@, wet as int),
    {
        self.set_param("Wet", wet);
    }

    pub fn get_wet_level(&self) -> (r: i64)
        requires
            self.wf(),
        ensures
            r == spec_param_value(self.parameters@, "Wet"@),
    {
        self.get_parameter_value("Wet")
    }

    pub fn new_delay(name: &str, id: u64) -> (r: AudioModule)
        ensures
            r.wf(),
            r.module_type == ModuleType::Delay,
            r.name@ == name@,
            r.id == id,
            r.enabled,
            crate::module::has_factory_params(r),
    {
        AudioModule::new(ModuleType::Delay, name, id)
    }

    /// Set the delay time in seconds-units, clamped to the
    /// parameter's range.
    pub fn set_delay_time(&mut self, time: i64)
        requires
            old(self).wf(),
        ensures
            final(self).wf(),
            set_param_spec(*old(self), *final(self), "Time"@, time as int),
    {
        self.set_param("Time", time);
    }

    pub fn get_delay_time(&self) -> (r: i64)
        requires
            self.wf(),
        ensures
            r == spec_param_value(self.parameters@, "Time"@),
    {
        self.get_parameter_value("Time")
    }

    pub fn set_feedback(&mut self, feedback: i64)
        requires
            old(self).wf(),
        ensures
            final(self).wf(),
            set_param_spec(*old(self), *final(self), "Feedback"@, feedback as int),
    {
        self.set_param("Feedback", feedback);
    }

    pub fn get_feedback(&self) -> (r: i64)
        requires
            self.wf(),
        ensures
            r == spec_param_value(self.parameters@, "Feedback"@),
    {
        self.get_parameter_value("Feedback")
    }

    /// Set the delay time to a musical note length at the given tempo:
    /// one beat is `60 / bpm` seconds, scaled by the note value.
    pub fn set_musical_timing(&mut self, bpm: i64, note_value: MusicalTiming)
        requires
            old(self).wf(),
            0 < bpm,
        ensures
            final(self).wf(),
            set_param_spec(
                *old(self),
                *final(self),
                "Time"@,
                60 * (SCALE as int) * (SCALE as int) * timing_beats_24(note_value) / (
                (bpm as int) * 24),
            ),
    {
        let m24: i64 = note_value.multiplier();
        let num: u128 = 60u128 * (SCALE as u128) * (SCALE as u128) * (m24 as u128);
        let den: u128 = (bpm as u128) * 24;
        let q: u128 = num / den;
        proof {
            let n = 60 * (SCALE as int) * (SCALE as int) * timing_beats_24(note_value);
            let d = (bpm as int) * 24;
            assert(q == n / d);
            assert(n / d <= n / 24) by {
                vstd::arithmetic::div_mod::lemma_div_is_ordered_by_denominator(n, 24, d);
            }
            assert(n <= 5_760_000_000_000_000_000) by (nonlinear_arith)
                requires
                    timing_beats_24(note_value) <= 96,
                    SCALE == 1_000_000i64,
                    n == 60 * (SCALE as int) * (SCALE as int) * timing_beats_24(note_value),
            ;
            assert(n / 24 <= 240_000_000_000_000_000) by {
                vstd::arithmetic::div_mod::lemma_div_is_ordered(n, 5_760_000_000_000_000_000, 24);
            }
            assert(n >= 0) by (nonlinear_arith)
                requires
                    timing_beats_24(note_value) >= 0,
                    n == 60 * (SCALE as int) * (SCALE as int) * timing_beats_24(note_value),
            ;
            vstd::arithmetic::div_mod::lemma_div_pos_is_pos(n, d);
        }
        self.set_param("Time", q as i64);
    }

    /// Set the delay time in milliseconds-units.
    pub fn set_delay_ms(&mut self, ms: i64)
        requires
            old(self).wf(),
        ensures
            final(self).wf(),
            set_param_spec(
                *old(self),
                *final(self),
                "Time"@,
                if ms >= 0 {
                    (ms as int) / 1000
                } else {
                    -((-ms as int) / 1000)
                },
            ),
    {
        let t: i64 = if ms >= 0 {
            ((ms as u64) / 1000) as i64
        } else {
            -((((-(ms as i128)) as u64) / 1000) as i64)
        };
        self.set_param("Time", t);
    }

    /// The delay time in milliseconds-units.
    pub fn get_delay_ms(&self) -> (r: i64)
        requires
            self.wf(),
            0 <= spec_param_value(self.parameters@, "Time"@) <= crate::params::PARAM_CAP,
        ensures
            r == spec_param_value(self.parameters@, "Time"@) * 1000,
    {
        let t: i64 = self.get_parameter_value("Time");
        t * 1000
    }
}

/// Note lengths for tempo-synced delays.
#[derive(Clone, Copy, PartialEq, Eq, Structural, Debug)]
pub enum MusicalTiming {
    Whole,
    Half,
    Quarter,
    Eighth,
    Sixteenth,
    ThirtySecond,
    DottedHalf,
    DottedQuarter,
    DottedEighth,
    TripletQuarter,
    TripletEighth,
    TripletSixteenth,
}

/// The note length in 24ths of a beat; every musical value here is a
/// whole number of 24ths.
pub open spec fn timing_beats_24(t: MusicalTiming) -> int {
    match t {
        MusicalTiming::Whole => 96,
        MusicalTiming::Half => 48,
        MusicalTiming::Quarter => 24,
        MusicalTiming::Eighth => 12,
        MusicalTiming::Sixteenth => 6,
        MusicalTiming::ThirtySecond => 3,
        MusicalTiming::DottedHalf => 72,
        MusicalTiming::DottedQuarter => 36,
        MusicalTiming::DottedEighth => 18,
        MusicalTiming::TripletQuarter => 16,
        MusicalTiming::TripletEighth => 8,
        MusicalTiming::TripletSixteenth => 4,
    }
}

impl MusicalTiming {
    /// The note length in 24ths of a beat (a quarter note is 24).
    pub fn multiplier(&self) -> (r: i64)
        ensures
            r == timing_beats_24(*self),
            0 < r <= 96,
    {
        match self {
            MusicalTiming::Whole => 96,
            MusicalTiming::Half => 48,
            MusicalTiming::Quarter => 24,
            MusicalTiming::Eighth => 12,
            MusicalTiming::Sixteenth => 6,
            MusicalTiming::ThirtySecond => 3,
            MusicalTiming::DottedHalf => 72,
            MusicalTiming::DottedQuarter => 36,
            MusicalTiming::DottedEighth => 18,
            MusicalTiming::TripletQuarter => 16,
            MusicalTiming::TripletEighth => 8,
            MusicalTiming::TripletSixteenth => 4,
        }
    }

    pub fn name(&self) -> (r: &'static str)
        ensures
            r@ == match *self {
                MusicalTiming::Whole => "1/1"@,
                MusicalTiming::Half => "1/2"@,
                MusicalTiming::Quarter => "1/4"@,
                MusicalTiming::Eighth => "1/8"@,
                MusicalTiming::Sixteenth => "1/16"@,
                MusicalTiming::ThirtySecond => "1/32"@,
                MusicalTiming::DottedHalf => "1/2."@,
                MusicalTiming::DottedQuarter => "1/4."@,
                MusicalTiming::DottedEighth => "1/8."@,
                MusicalTiming::TripletQuarter => "1/4T"@,
                MusicalTiming::TripletEighth => "1/8T"@,
                MusicalTiming::TripletSixteenth => "1/16T"@,
            },
    {
        match self {
            MusicalTiming::Whole => "1/1",
            MusicalTiming::Half => "1/2",
            MusicalTiming::Quarter => "1/4",
            MusicalTiming::Eighth => "1/8",
            MusicalTiming::Sixteenth => "1/16",
            MusicalTiming::ThirtySecond => "1/32",
            MusicalTiming::DottedHalf => "1/2.",
            MusicalTiming::DottedQuarter => "1/4.",
            MusicalTiming::DottedEighth => "1/8.",
            MusicalTiming::TripletQuarter => "1/4T",
            MusicalTiming::TripletEighth => "1/8T",
            MusicalTiming::TripletSixteenth => "1/16T",
        }
    }
}

pub struct ReverbPresets;

impl ReverbPresets {
    /// A tight room.
    pub fn small_room() -> (r: AudioModule)
        ensures
            r.wf(),
            r.module_type == ModuleType::Reverb,
            r.name@ == "Small Room"@,
    {
        let mut reverb = AudioModule::new_reverb("Small Room", 0);
        reverb.set_room_size(300_000);
        reverb.set_damping(600_000);
        reverb.set_wet_level(300_000);
        reverb
    }

    /// A medium concert hall.
    pub fn medium_hall() -> (r: AudioModule)
        ensures
            r.wf(),
            r.module_type == ModuleType::Reverb,
            r.name@ == "Medium Hall"@,
    {
        let mut reverb = AudioModule::new_reverb("Medium Hall", 0);
        reverb.set_room_size(600_000);
        reverb.set_damping(400_000);
        reverb.set_wet_level(400_000);
        reverb
    }

    /// A long cathedral tail.
    pub fn cathedral() -> (r: AudioModule)
        ensures
            r.wf(),
            r.module_type == ModuleType::Reverb,
            r.name@ == "Cathedral"@,
    {
        let mut reverb = AudioModule::new_reverb("Cathedral", 0);
        reverb.set_room_size(900_000);
        reverb.set_damping(200_000);
        reverb.set_wet_level(500_000);
        reverb
    }

    /// A bright plate.
    pub fn plate() -> (r: AudioModule)
        ensures
            r.wf(),
            r.module_type == ModuleType::Reverb,
            r.name@ == "Plate"@,
    {
        let mut reverb = AudioModule::new_reverb("Plate", 0);
        reverb.set_room_size(400_000);
        reverb.set_damping(800_000);
        reverb.set_wet_level(300_000);
        reverb
    }

    /// A boingy spring tank.
    pub fn spring() -> (r: AudioModule)
        ensures
            r.wf(),
            r.module_type == ModuleType::Reverb,
            r.name@ == "Spring"@,
    {
        let mut reverb = AudioModule::new_reverb("Spring", 0);
        reverb.set_room_size(200_000);
        reverb.set_damping(500_000);
        reverb.set_wet_level(400_000);
        reverb
    }

    /// A wide ambient wash.
    pub fn ambient() -> (r: AudioModule)
        ensures
            r.wf(),
            r.module_type == ModuleType::Reverb,
            r.name@ == "Ambient"@,
    {
        let mut reverb = AudioModule::new_reverb("Ambient", 0);
        reverb.set_room_size(800_000);
        reverb.set_damping(300_000);
        reverb.set_wet_level(600_000);
        reverb
    }
}

pub struct DelayPresets;

impl DelayPresets {
    /// A short slapback.
    pub fn slap_delay() -> (r: AudioModule)
        ensures
            r.wf(),
            r.module_type == ModuleType::Delay,
            r.name@ == "Slap"@,
    {
        let mut delay = AudioModule::new_delay("Slap", 0);
        delay.set_delay_ms(80_000_000);
        delay.set_feedback(200_000);
        delay.set_wet_level(300_000);
        delay
    }

    /// A classic echo.
    pub fn echo() -> (r: AudioModule)
        ensures
            r.wf(),
            r.module_type == ModuleType::Delay,
            r.name@ == "Echo"@,
    {
        let mut delay = AudioModule::new_delay("Echo", 0);
        delay.set_delay_ms(250_000_000);
        delay.set_feedback(400_000);
        delay.set_wet_level(400_000);
        delay
    }

    /// A long ambient repeat.
    pub fn ambient_delay() -> (r: AudioModule)
        ensures
            r.wf(),
            r.module_type == ModuleType::Delay,
            r.name@ == "Ambient"@,
    {
        let mut delay = AudioModule::new_delay("Ambient", 0);
        delay.set_delay_time(800_000);
        delay.set_feedback(600_000);
        delay.set_wet_level(500_000);
        delay
    }

    /// A ping-pong style medium delay.
    pub fn ping_pong() -> (r: AudioModule)
        ensures
            r.wf(),
            r.module_type == ModuleType::Delay,
            r.name@ == "Ping Pong"@,
    {
        let mut delay = AudioModule::new_delay("Ping Pong", 0);
        delay.set_delay_ms(150_000_000);
        delay.set_feedback(500_000);
        delay.set_wet_level(400_000);
        delay
    }

    /// A quarter note at the given tempo.
    pub fn quarter_note(bpm: i64) -> (r: AudioModule)
        requires
            0 < bpm,
        ensures
            r.wf(),
            r.module_type == ModuleType::Delay,
            r.name@ == "1/4 Note"@,
    {
        let mut delay = AudioModule::new_delay("1/4 Note", 0);
        delay.set_musical_timing(bpm, MusicalTiming::Quarter);
        delay.set_feedback(300_000);
        delay.set_wet_level(300_000);
        delay
    }

    /// An eighth note at the given tempo.
    pub fn eighth_note(bpm: i64) -> (r: AudioModule)
        requires
            0 < bpm,
        ensures
            r.wf(),
            r.module_type == ModuleType::Delay,
            r.name@ == "1/8 Note"@,
    {
        let mut delay = AudioModule::new_delay("1/8 Note", 0);
        delay.set_musical_timing(bpm, MusicalTiming::Eighth);
        delay.set_feedback(400_000);
        delay.set_wet_level(300_000);
        delay
    }

    /// The dotted-eighth rhythm delay.
    pub fn dotted_eighth(bpm: i64) -> (r: AudioModule)
        requires
            0 < bpm,
        ensures
            r.wf(),
            r.module_type == ModuleType::Delay,
            r.name@ == "1/8. Note"@,
    {
        let mut delay = AudioModule::new_delay("1/8. Note", 0);
        delay.set_musical_timing(bpm, MusicalTiming::DottedEighth);
        delay.set_feedback(450_000);
        delay.set_wet_level(350_000);
        delay
    }
}

/// An ordered chain of effect modules.
pub struct EffectChain {
    pub effects: Vec<AudioModule>,
}

impl EffectChain {
    pub fn new() -> (r: EffectChain)
        ensures
            r.effects@.len() == 0,
    {
        EffectChain { effects: Vec::new() }
    }

    pub fn add_effect(&mut self, effect: AudioModule)
        ensures
            final(self).effects@ == old(self).effects@.push(effect),
    {
        self.effects.push(effect);
    }

    /// Remove and return the effect at `index`; out-of-range indices
    /// leave the chain unchanged.
    pub fn remove_effect(&mut self, index: usize) -> (r: Option<AudioModule>)
        ensures
            index < old(self).effects@.len() ==> r == Some(old(self).effects@[index as int])
                && final(self).effects@ == old(self).effects@.remove(index as int),
            index >= old(self).effects@.len() ==> r is None && final(self).effects@ == old(self).effects@,
    {
        if index < self.effects.len() {
            Some(self.effects.remove(index))
        } else {
            None
        }
    }

    /// Move the effect at `from` so it sits at `to`; invalid indices
    /// leave the chain unchanged.
    pub fn move_effect(&mut self, from: usize, to: usize)
        ensures
            from < old(self).effects@.len() && to < old(self).effects@.len() ==> final(self).effects@ == old(self).effects@.remove(from as int).insert(
                to as int,
                old(self).effects@[from as int],
            ),
            !(from < old(self).effects@.len() && to < old(self).effects@.len()) ==> final(self).effects@ == old(self).effects@,
    {
        if from < self.effects.len() && to < self.effects.len() {
            let effect = self.effects.remove(from);
            self.effects.insert(to, effect);
        }
    }

    pub fn clear(&mut self)
        ensures
            final(self).effects@.len() == 0,
    {
        self.effects.clear();
    }

    /// Borrow the effect at `index` mutably.
    pub fn get_effect_mut(&mut self, index: usize) -> (r: Option<&mut AudioModule>)
        ensures
            index < old(self).effects@.len() ==> r is Some && *r.unwrap() == old(self).effects@[index as int] && final(self).effects@ == old(self).effects@.update(
                index as int,
                *final(r.unwrap()),
            ),
            index >= old(self).effects@.len() ==> r is None && final(self).effects@ == old(self).effects@,
    {
        if index < self.effects.len() {
            Some(&mut self.effects[index])
        } else {
            None
        }
    }

    pub fn len(&self) -> (r: usize)
        ensures
            r == self.effects@.len(),
    {
        self.effects.len()
    }

    pub fn is_empty(&self) -> (r: bool)
        ensures
            r == (self.effects@.len() == 0),
    {
        self.effects.is_empty()
    }
}

pub struct EffectCombinations;

impl EffectCombinations {
    /// Delay into hall reverb, the classic guitar chain.
    pub fn guitar_classic(bpm: i64) -> (r: EffectChain)
        requires
            0 < bpm,
        ensures
            r.effects@.len() == 2,
            r.effects@[0].module_type == ModuleType::Delay,
            r.effects@[1].module_type == ModuleType::Reverb,
    {
        let mut chain = EffectChain::new();
        chain.add_effect(DelayPresets::dotted_eighth(bpm));
        chain.add_effect(ReverbPresets::medium_hall());
        chain
    }

    /// Long delay into cathedral reverb for pads.
    pub fn ambient_pad() -> (r: EffectChain)
        ensures
            r.effects@.len() == 2,
            r.effects@[0].module_type == ModuleType::Delay,
            r.effects@[1].module_type == ModuleType::Reverb,
    {
        let mut chain = EffectChain::new();
        chain.add_effect(DelayPresets::ambient_delay());
        chain.add_effect(ReverbPresets::cathedral());
        chain
    }

    /// Slap delay into plate reverb for vocals.
    pub fn vocal_treatment() -> (r: EffectChain)
        ensures
            r.effects@.len() == 2,
            r.effects@[0].module_type == ModuleType::Delay,
            r.effects@[1].module_type == ModuleType::Reverb,
    {
        let mut chain = EffectChain::new();
        chain.add_effect(DelayPresets::slap_delay());
        chain.add_effect(ReverbPresets::plate());
        chain
    }

    /// A heavy feedback dub delay.
    pub fn dub_delay(bpm: i64) -> (r: EffectChain)
        requires
            0 < bpm,
        ensures
            r.effects@.len() == 1,
            r.effects@[0].module_type == ModuleType::Delay,
    {
        let mut chain = EffectChain::new();
        let mut delay = DelayPresets::quarter_note(bpm);
        delay.set_feedback(700_000);
        delay.set_wet_level(600_000);
        chain.add_effect(delay);
        chain
    }
}

} // verus!
