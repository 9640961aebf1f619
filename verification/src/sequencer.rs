//! The sample-clocked step sequencer.
//!
//! Timing is exact rational arithmetic on the audio sample clock: one
//! step lasts `sampleRate * 60 * SCALE / (BPM * stepsPerBeat)` in
//! accumulator units, the accumulator gains `BPM * stepsPerBeat`
//! units per sample, and the remainder is carried over every step
//! boundary, so there is no drift against the audio clock.

use crate::fixed::{clamp_i64, clamp_int, SCALE};
use crate::module::{set_param_spec, spec_param_value, AudioModule, ModuleType};
use vstd::prelude::*;

verus! {

impl AudioModule {
    pub fn new_sequencer(name: &str, id: u64) -> (r: AudioModule)
        ensures
            r.wf(),
            r.module_type == ModuleType::Sequencer,
            r.name@ == name@,
            r.id == id,
            r.enabled,
            crate::module::has_factory_params(r),
    {
        AudioModule::new(ModuleType::Sequencer, name, id)
    }

    /// Set the tempo in BPM-units, clamped to the parameter's range.
    pub fn set_bpm(&mut self, bpm: i64)
        requires
            old(self).wf(),
        ensures
            final(self).wf(),
            set_param_spec(*old(self), *final(self), "BPM"@, bpm as int),
    {
        self.set_param("BPM", bpm);
    }

    pub fn get_bpm(&self) -> (r: i64)
        requires
            self.wf(),
        ensures
            r == spec_param_value(self.parameters@, "BPM"@),
    {
        self.get_parameter_value("BPM")
    }

    /// Set the step count (in whole-number units).
    pub fn set_steps(&mut self, steps: i64)
        requires
            old(self).wf(),
        ensures
            final(self).wf(),
            set_param_spec(*old(self), *final(self), "Steps"@, steps as int),
    {
        self.set_param("Steps", steps);
    }

    /// The step count as a whole number.
    pub fn get_steps(&self) -> (r: usize)
        requires
            self.wf(),
            0 <= spec_param_value(self.parameters@, "Steps"@) <= 1_000_000_000,
        ensures
            r == spec_param_value(self.parameters@, "Steps"@) / (SCALE as int),
    {
        let v: i64 = self.get_parameter_value("Steps");
        ((v as u64) / (SCALE as u64)) as usize
    }

    /// Set how long each step's trigger stays on, as a fraction of
    /// the step.
    pub fn set_gate(&mut self, gate: i64)
        requires
            old(self).wf(),
        ensures
            final(self).wf(),
            set_param_spec(*old(self), *final(self), "Gate"@, gate as int),
    {
        self.set_param("Gate", gate);
    }

    pub fn get_gate(&self) -> (r: i64)
        requires
            self.wf(),
        ensures
            r == spec_param_value(self.parameters@, "Gate"@),
    {
        self.get_parameter_value("Gate")
    }
}

/// One step of a sequence.
#[derive(Clone, Copy, PartialEq, Eq, Structural, Debug)]
pub struct SequenceStep {
    pub active: bool,
    pub note: Option<u8>,
    pub velocity: i64,
    pub probability: i64,
    pub micro_timing: i64,
}

impl SequenceStep {
    /// Velocity and probability are fractions; the micro-timing
    /// offset stays within half a step either way.
    pub open spec fn wf(self) -> bool {
        &&& 0 <= self.velocity <= SCALE
        &&& 0 <= self.probability <= SCALE
        &&& -(SCALE as int) / 2 <= self.micro_timing <= (SCALE as int) / 2
        &&& match self.note {
            Some(n) => n <= 127,
            None => true,
        }
    }

    /// The default step: inactive, middle C, four-fifths velocity,
    /// certain trigger.
    pub fn default_step() -> (r: SequenceStep)
        ensures
            r.wf(),
            !r.active,
            r.note == Some(60u8),
            r.velocity == 800_000,
            r.probability == SCALE,
            r.micro_timing == 0,
    {
        SequenceStep {
            active: false,
            note: Some(60),
            velocity: 800_000,
            probability: SCALE,
            micro_timing: 0,
        }
    }

    pub fn new(active: bool) -> (r: SequenceStep)
        ensures
            r.wf(),
            r.active == active,
            r.note == Some(60u8),
            r.probability == SCALE,
    {
        SequenceStep { active, ..Self::default_step() }
    }

    pub fn with_note(self, note: u8) -> (r: SequenceStep)
        requires
            note <= 127,
        ensures
            r == (SequenceStep { note: Some(note), ..self }),
    {
        SequenceStep { note: Some(note), ..self }
    }

    pub fn with_velocity(self, velocity: i64) -> (r: SequenceStep)
        ensures
            r == (SequenceStep {
                velocity: clamp_int(velocity as int, 0, SCALE as int) as i64,
                ..self
            }),
    {
        SequenceStep { velocity: clamp_i64(velocity, 0, SCALE), ..self }
    }

    pub fn with_probability(self, probability: i64) -> (r: SequenceStep)
        ensures
            r == (SequenceStep {
                probability: clamp_int(probability as int, 0, SCALE as int) as i64,
                ..self
            }),
    {
        SequenceStep { probability: clamp_i64(probability, 0, SCALE), ..self }
    }

    pub fn toggle(&mut self)
        ensures
            *final(self) == (SequenceStep { active: !old(self).active, ..*old(self) }),
    {
        self.active = !self.active;
    }

    /// Whether the step fires, given a uniform draw in `[0, SCALE)`:
    /// it must be active, and a certain step (probability at full
    /// scale or more) always fires.
    pub open spec fn spec_should_trigger(self, draw: i64) -> bool {
        self.active && (self.probability >= SCALE || draw < self.probability)
    }

    /// Decide the step against a fresh uniform draw.  Whatever the
    /// draw, an inactive step never fires and a certain step always
    /// fires.
    pub fn should_trigger(&self) -> (r: bool)
        ensures
            exists|draw: i64| 0 <= draw < SCALE && r == self.spec_should_trigger(draw),
            !self.active ==> !r,
            self.active && self.probability >= SCALE ==> r,
    {
        let draw: i64 = random_fraction();
        let r: bool = self.active && (self.probability >= SCALE || draw < self.probability);
        proof {
            assert(0 <= draw < SCALE && r == self.spec_should_trigger(draw));
        }
        r
    }
}

/// A uniform draw in `[0, SCALE)`.
fn random_fraction() -> (r: i64)
    ensures
        0 <= r < SCALE,
{
    let raw: u64 = random_u64();
    (raw % (SCALE as u64)) as i64
}

/// Relies on `rand::random`: a fresh value from the thread-local
/// generator; nothing is promised of it.
#[verifier::external_body]
fn random_u64() -> u64 {
    rand::random::<u64>()
}

/// Step lengths per musical resolution, as steps per beat.
#[derive(Clone, Copy, PartialEq, Eq, Structural, Debug)]
pub enum StepResolution {
    Sixteenth,
    Eighth,
    Quarter,
    Triplet,
}

/// How many steps fit in one beat at each resolution.
pub open spec fn spec_steps_per_beat(r: StepResolution) -> int {
    match r {
        StepResolution::Sixteenth => 4,
        StepResolution::Eighth => 2,
        StepResolution::Quarter => 1,
        StepResolution::Triplet => 3,
    }
}

impl StepResolution {
    pub fn steps_per_beat(&self) -> (r: u32)
        ensures
            r == spec_steps_per_beat(*self),
            1 <= r <= 4,
    {
        match self {
            StepResolution::Sixteenth => 4,
            StepResolution::Eighth => 2,
            StepResolution::Quarter => 1,
            StepResolution::Triplet => 3,
        }
    }

    pub fn name(&self) -> (r: &'static str)
        ensures
            r@ == match *self {
                StepResolution::Sixteenth => "1/16"@,
                StepResolution::Eighth => "1/8"@,
                StepResolution::Quarter => "1/4"@,
                StepResolution::Triplet => "1/8T"@,
            },
    {
        match self {
            StepResolution::Sixteenth => "1/16",
            StepResolution::Eighth => "1/8",
            StepResolution::Quarter => "1/4",
            StepResolution::Triplet => "1/8T",
        }
    }
}

/// The event a firing step emits.
#[derive(Clone, Copy, PartialEq, Eq, Structural, Debug)]
pub struct SequenceEvent {
    pub step_index: usize,
    pub note: Option<u8>,
    pub velocity: i64,
    pub gate_length: u64,
}

impl SequenceEvent {
    /// The frequency of the event's note, from the pitch table.
    pub fn frequency(&self) -> (r: Option<i64>)
        requires
            match self.note {
                Some(n) => n <= 127,
                None => true,
            },
        ensures
            match self.note {
                Some(n) => r == Some(crate::pitch::spec_midi_freq(n as int) as i64),
                None => r is None,
            },
    {
        match self.note {
            Some(n) => Some(crate::pitch::midi_to_freq_units(n)),
            None => None,
        }
    }
}

/// The sample-clocked step engine.
///
/// The accumulator counts `bpm_units * steps_per_beat` per processed
/// sample (`bpm_units` is the tempo in BPM-units); a step ends when
/// it reaches `sample_rate * 60 * SCALE`, scaled up by half the swing
/// amount on odd steps.  Subtracting the threshold keeps the
/// remainder, so step boundaries carry no rounding drift.
pub struct StepSequencer {
    pub steps: Vec<SequenceStep>,
    pub current_step: usize,
    pub is_playing: bool,
    pub loop_enabled: bool,
    pub swing: i64,
    pub step_resolution: StepResolution,
    pub bpm_units: i64,
    pub accumulator: u64,
    pub sample_rate: u32,
}

/// Accumulator units added per sample.
pub open spec fn per_sample(s: StepSequencer) -> int {
    s.bpm_units * spec_steps_per_beat(s.step_resolution)
}

/// Accumulator units that end the current step: a minute of samples
/// in units, stretched by half the swing on odd-numbered steps.
pub open spec fn step_threshold(s: StepSequencer) -> int {
    let base = (s.sample_rate as int) * 60 * (SCALE as int);
    if s.swing > 0 && s.current_step % 2 == 1 {
        base + base / (2 * (SCALE as int)) * s.swing
    } else {
        base
    }
}

impl StepSequencer {
    pub open spec fn wf(self) -> bool {
        &&& 8_000 <= self.sample_rate <= 192_000
        &&& 60_000_000 <= self.bpm_units <= 200_000_000
        &&& 0 <= self.swing <= SCALE
        &&& 1 <= self.steps@.len() <= 64
        &&& self.current_step < self.steps@.len()
        &&& forall|i: int| 0 <= i < self.steps@.len() ==> (#[trigger] self.steps@[i]).wf()
        &&& self.accumulator < 0x4000_0000_0000_0000
    }

    pub fn new(num_steps: usize, sample_rate: u32) -> (r: StepSequencer)
        requires
            1 <= num_steps <= 64,
            8_000 <= sample_rate <= 192_000,
        ensures
            r.wf(),
            r.steps@.len() == num_steps,
            forall|i: int| 0 <= i < num_steps ==> !(#[trigger] r.steps@[i]).active,
            r.current_step == 0,
            !r.is_playing,
            r.loop_enabled,
            r.swing == 0,
            r.step_resolution == StepResolution::Sixteenth,
            r.bpm_units == 120_000_000,
            r.accumulator == 0,
            r.sample_rate == sample_rate,
    {
        let mut steps: Vec<SequenceStep> = Vec::new();
        let mut i: usize = 0;
        while i < num_steps
            invariant
                i <= num_steps,
                steps@.len() == i,
                forall|j: int|
                    0 <= j < i ==> (#[trigger] steps@[j]).wf() && !steps@[j].active,
            decreases num_steps - i,
        {
            steps.push(SequenceStep::default_step());
            i = i + 1;
        }
        StepSequencer {
            steps,
            current_step: 0,
            is_playing: false,
            loop_enabled: true,
            swing: 0,
            step_resolution: StepResolution::Sixteenth,
            bpm_units: 120_000_000,
            accumulator: 0,
            sample_rate,
        }
    }

    /// Set the tempo; it applies from the next step boundary, since
    /// only the per-sample increment changes.
    pub fn set_bpm(&mut self, bpm_units: i64)
        requires
            old(self).wf(),
        ensures
            final(self).wf(),
            *final(self) == (StepSequencer {
                bpm_units: clamp_int(bpm_units as int, 60_000_000, 200_000_000) as i64,
                ..*old(self)
            }),
    {
        self.bpm_units = clamp_i64(bpm_units, 60_000_000, 200_000_000);
    }

    pub fn set_swing(&mut self, swing: i64)
        requires
            old(self).wf(),
        ensures
            final(self).wf(),
            *final(self) == (StepSequencer {
                swing: clamp_int(swing as int, 0, SCALE as int) as i64,
                ..*old(self)
            }),
    {
        self.swing = clamp_i64(swing, 0, SCALE);
    }

    pub fn play(&mut self)
        ensures
            *final(self) == (StepSequencer { is_playing: true, ..*old(self) }),
    {
        self.is_playing = true;
    }

    pub fn stop(&mut self)
        ensures
            *final(self) == (StepSequencer {
                is_playing: false,
                current_step: 0usize,
                accumulator: 0u64,
                ..*old(self)
            }),
    {
        self.is_playing = false;
        self.current_step = 0;
        self.accumulator = 0;
    }

    pub fn pause(&mut self)
        ensures
            *final(self) == (StepSequencer { is_playing: false, ..*old(self) }),
    {
        self.is_playing = false;
    }

    pub fn reset(&mut self)
        ensures
            *final(self) == (StepSequencer {
                current_step: 0usize,
                accumulator: 0u64,
                ..*old(self)
            }),
    {
        self.current_step = 0;
        self.accumulator = 0;
    }

    /// Advance one sample.  When the accumulator crosses the current
    /// step's threshold, the step fires (if active, and if its
    /// probability admits the draw), the position advances (wrapping
    /// if looping, stopping otherwise), and the remainder is carried.
    pub fn tick(&mut self) -> (r: Option<SequenceEvent>)
        requires
            old(self).wf(),
        ensures
            final(self).wf(),
            final(self).steps@ == old(self).steps@,
            final(self).bpm_units == old(self).bpm_units,
            final(self).swing == old(self).swing,
            final(self).sample_rate == old(self).sample_rate,
            final(self).loop_enabled == old(self).loop_enabled,
            final(self).step_resolution == old(self).step_resolution,
            !old(self).is_playing ==> r is None && *final(self) == *old(self),
            old(self).is_playing && old(self).accumulator + per_sample(*old(self))
                < step_threshold(*old(self)) ==> r is None && final(self).accumulator == old(
                self,
            ).accumulator + per_sample(*old(self)) && final(self).current_step == old(
                self,
            ).current_step && final(self).is_playing,
            old(self).is_playing && old(self).accumulator + per_sample(*old(self))
                >= step_threshold(*old(self)) ==> {
                &&& final(self).accumulator == old(self).accumulator + per_sample(*old(self))
                    - step_threshold(*old(self))
                &&& final(self).current_step as int == (if old(self).current_step + 1 < old(
                    self,
                ).steps@.len() {
                    old(self).current_step + 1
                } else if old(self).loop_enabled {
                    0int
                } else {
                    old(self).current_step as int
                })
                &&& final(self).is_playing == (old(self).current_step + 1 < old(
                    self,
                ).steps@.len() || old(self).loop_enabled)
                &&& (r is Some ==> old(self).steps@[old(self).current_step as int].active)
                &&& (old(self).steps@[old(self).current_step as int].active && old(
                    self,
                ).steps@[old(self).current_step as int].probability >= SCALE ==> r is Some)
                &&& (!old(self).steps@[old(self).current_step as int].active ==> r is None)
                &&& (r matches Some(e) ==> e.step_index == old(self).current_step && e.note
                    == old(self).steps@[old(self).current_step as int].note && e.velocity == old(
                    self,
                ).steps@[old(self).current_step as int].velocity && e.gate_length
                    == step_threshold(*old(self)))
            },
    {
        if !self.is_playing {
            return None;
        }
        let spb: u32 = self.step_resolution.steps_per_beat();
        let inc: u64 = (self.bpm_units as u64) * (spb as u64);
        proof {
            assert((self.bpm_units as int) * (spb as int) <= 800_000_000) by (nonlinear_arith)
                requires
                    self.bpm_units <= 200_000_000i64,
                    spb <= 4u32,
                    0 <= self.bpm_units,
                    0 <= spb,
            ;
            assert((self.bpm_units as int) * (spb as int) == per_sample(*old(self)));
        }
        proof {
            assert((self.sample_rate as int) * 60 * (SCALE as int) <= 11_520_000_000_000)
                by (nonlinear_arith)
                requires
                    self.sample_rate <= 192_000u32,
                    SCALE == 1_000_000i64,
            ;
            assert((self.sample_rate as int) * 60 * (SCALE as int) >= 480_000_000_000)
                by (nonlinear_arith)
                requires
                    self.sample_rate >= 8_000u32,
                    SCALE == 1_000_000i64,
            ;
        }
        let base: u64 = (self.sample_rate as u64) * 60 * (SCALE as u64);
        let threshold: u64 = if self.swing > 0 && self.current_step % 2 == 1 {
            let half: u64 = base / (2 * (SCALE as u64));
            proof {
                let b = base as int;
                let s = SCALE as int;
                vstd::arithmetic::div_mod::lemma_div_pos_is_pos(b, 2 * s);
                vstd::arithmetic::div_mod::lemma_div_is_ordered(b, 11_520_000_000_000, 2 * s);
                assert(11_520_000_000_000int / (2 * s) == 5_760_000) by {
                    vstd::arithmetic::div_mod::lemma_div_multiples_vanish(5_760_000, 2 * s);
                }
                assert((half as int) * (self.swing as int) <= 5_760_000 * 1_000_000)
                    by (nonlinear_arith)
                    requires
                        0 <= half <= 5_760_000u64,
                        0 <= self.swing <= 1_000_000i64,
                ;
            }
            let stretch: u64 = half * (self.swing as u64);
            base + stretch
        } else {
            base
        };
        proof {
            assert(threshold == step_threshold(*old(self)));
            assert(threshold >= 480_000_000_000);
        }
        let acc: u64 = self.accumulator + inc;
        if acc >= threshold {
            self.accumulator = acc - threshold;
            let idx: usize = self.current_step;
            let step: SequenceStep = self.steps[idx];
            let event: Option<SequenceEvent> = if step.should_trigger() {
                Some(
                    SequenceEvent {
                        step_index: idx,
                        note: step.note,
                        velocity: step.velocity,
                        gate_length: threshold,
                    },
                )
            } else {
                None
            };
            if self.current_step + 1 < self.steps.len() {
                self.current_step = self.current_step + 1;
            } else if self.loop_enabled {
                self.current_step = 0;
            } else {
                self.is_playing = false;
            }
            event
        } else {
            self.accumulator = acc;
            None
        }
    }

    /// Replace one step; out-of-range indices change nothing.
    pub fn set_step(&mut self, index: usize, step: SequenceStep)
        requires
            old(self).wf(),
            step.wf(),
        ensures
            final(self).wf(),
            index < old(self).steps@.len() ==> final(self).steps@ == old(self).steps@.update(
                index as int,
                step,
            ),
            index >= old(self).steps@.len() ==> final(self).steps@ == old(self).steps@,
            final(self).current_step == old(self).current_step,
            final(self).is_playing == old(self).is_playing,
            final(self).accumulator == old(self).accumulator,
            final(self).loop_enabled == old(self).loop_enabled,
            final(self).swing == old(self).swing,
            final(self).step_resolution == old(self).step_resolution,
            final(self).bpm_units == old(self).bpm_units,
            final(self).sample_rate == old(self).sample_rate,
    {
        if index < self.steps.len() {
            self.steps[index] = step;
        }
    }

    /// Flip one step's active flag; out-of-range indices change
    /// nothing.
    pub fn toggle_step(&mut self, index: usize)
        requires
            old(self).wf(),
        ensures
            final(self).wf(),
            index < old(self).steps@.len() ==> final(self).steps@ == old(self).steps@.update(
                index as int,
                SequenceStep {
                    active: !old(self).steps@[index as int].active,
                    ..old(self).steps@[index as int]
                },
            ),
            index >= old(self).steps@.len() ==> final(self).steps@ == old(self).steps@,
    {
        if index < self.steps.len() {
            let s = &mut self.steps[index];
            s.toggle();
        }
    }

    /// Deactivate every step.
    pub fn clear_all_steps(&mut self)
        requires
            old(self).wf(),
        ensures
            final(self).wf(),
            final(self).steps@.len() == old(self).steps@.len(),
            forall|i: int|
                0 <= i < final(self).steps@.len() ==> !(#[trigger] final(self).steps@[i]).active
                    && final(self).steps@[i] == (SequenceStep {
                    active: false,
                    ..old(self).steps@[i]
                }),
    {
        let n: usize = self.steps.len();
        let mut i: usize = 0;
        while i < n
            invariant
                i <= n,
                n == self.steps@.len(),
                old(self).wf(),
                self.steps@.len() == old(self).steps@.len(),
                self.current_step == old(self).current_step,
                self.is_playing == old(self).is_playing,
                self.loop_enabled == old(self).loop_enabled,
                self.swing == old(self).swing,
                self.step_resolution == old(self).step_resolution,
                self.bpm_units == old(self).bpm_units,
                self.accumulator == old(self).accumulator,
                self.sample_rate == old(self).sample_rate,
                forall|j: int|
                    0 <= j < i ==> (#[trigger] self.steps@[j]) == (SequenceStep {
                        active: false,
                        ..old(self).steps@[j]
                    }),
                forall|j: int| i <= j < n ==> (#[trigger] self.steps@[j]) == old(self).steps@[j],
            decreases n - i,
        {
            let s = &mut self.steps[i];
            s.active = false;
            i = i + 1;
        }
    }

    /// Activate steps according to a pattern; extra pattern entries
    /// are ignored.
    pub fn set_pattern(&mut self, pattern: &Vec<bool>)
        requires
            old(self).wf(),
        ensures
            final(self).wf(),
            final(self).steps@.len() == old(self).steps@.len(),
            forall|i: int|
                0 <= i < final(self).steps@.len() ==> (#[trigger] final(self).steps@[i]) == (
                if i < pattern@.len() {
                    SequenceStep { active: pattern@[i], ..old(self).steps@[i] }
                } else {
                    old(self).steps@[i]
                }),
            final(self).current_step == old(self).current_step,
            final(self).is_playing == old(self).is_playing,
            final(self).loop_enabled == old(self).loop_enabled,
            final(self).swing == old(self).swing,
            final(self).step_resolution == old(self).step_resolution,
            final(self).bpm_units == old(self).bpm_units,
            final(self).accumulator == old(self).accumulator,
            final(self).sample_rate == old(self).sample_rate,
    {
        let n: usize = self.steps.len();
        let mut i: usize = 0;
        while i < n
            invariant
                i <= n,
                n == self.steps@.len(),
                old(self).wf(),
                self.steps@.len() == old(self).steps@.len(),
                self.current_step == old(self).current_step,
                self.is_playing == old(self).is_playing,
                self.loop_enabled == old(self).loop_enabled,
                self.swing == old(self).swing,
                self.step_resolution == old(self).step_resolution,
                self.bpm_units == old(self).bpm_units,
                self.accumulator == old(self).accumulator,
                self.sample_rate == old(self).sample_rate,
                forall|j: int|
                    0 <= j < i ==> (#[trigger] self.steps@[j]) == (if j < pattern@.len() {
                        SequenceStep { active: pattern@[j], ..old(self).steps@[j] }
                    } else {
                        old(self).steps@[j]
                    }),
                forall|j: int| i <= j < n ==> (#[trigger] self.steps@[j]) == old(self).steps@[j],
            decreases n - i,
        {
            if i < pattern.len() {
                let v: bool = pattern[i];
                let s = &mut self.steps[i];
                s.active = v;
            }
            i = i + 1;
        }
    }

    /// The active flags of all steps, in order.
    pub fn get_pattern(&self) -> (r: Vec<bool>)
        ensures
            r@.len() == self.steps@.len(),
            forall|i: int|
                0 <= i < r@.len() ==> #[trigger] r@[i] == self.steps@[i].active,
    {
        let mut r: Vec<bool> = Vec::new();
        let mut i: usize = 0;
        while i < self.steps.len()
            invariant
                i <= self.steps@.len(),
                r@.len() == i,
                forall|j: int| 0 <= j < i ==> #[trigger] r@[j] == self.steps@[j].active,
            decreases self.steps@.len() - i,
        {
            r.push(self.steps[i].active);
            i = i + 1;
        }
        r
    }

    /// Activate each step with probability `density` and give new
    /// active steps a random velocity between half and full scale.
    pub fn randomize(&mut self, density: i64)
        requires
            old(self).wf(),
        ensures
            final(self).wf(),
            final(self).steps@.len() == old(self).steps@.len(),
            forall|i: int|
                0 <= i < final(self).steps@.len() ==> (#[trigger] final(self).steps@[i]).note
                    == old(self).steps@[i].note && final(self).steps@[i].probability == old(
                    self,
                ).steps@[i].probability,
    {
        let n: usize = self.steps.len();
        let mut i: usize = 0;
        while i < n
            invariant
                i <= n,
                n == self.steps@.len(),
                old(self).wf(),
                self.steps@.len() == old(self).steps@.len(),
                self.current_step == old(self).current_step,
                self.is_playing == old(self).is_playing,
                self.loop_enabled == old(self).loop_enabled,
                self.swing == old(self).swing,
                self.step_resolution == old(self).step_resolution,
                self.bpm_units == old(self).bpm_units,
                self.accumulator == old(self).accumulator,
                self.sample_rate == old(self).sample_rate,
                forall|j: int| 0 <= j < n ==> (#[trigger] self.steps@[j]).wf(),
                forall|j: int|
                    0 <= j < n ==> (#[trigger] self.steps@[j]).note == old(self).steps@[j].note
                        && self.steps@[j].probability == old(self).steps@[j].probability,
            decreases n - i,
        {
            let draw: i64 = random_fraction();
            let active: bool = draw < density;
            let s = &mut self.steps[i];
            s.active = active;
            if active {
                let vdraw: i64 = random_fraction();
                let s2 = &mut self.steps[i];
                s2.velocity = SCALE / 2 + vdraw / 2;
            }
            i = i + 1;
        }
    }

    /// Resize the pattern: new steps are default; the position is
    /// pulled back to the start if it would fall outside.
    pub fn resize(&mut self, new_size: usize)
        requires
            old(self).wf(),
            1 <= new_size <= 64,
        ensures
            final(self).wf(),
            final(self).steps@.len() == new_size,
            forall|i: int|
                0 <= i < new_size && i < old(self).steps@.len() ==> (
                #[trigger] final(self).steps@[i]) == old(self).steps@[i],
    {
        self.steps.truncate(new_size);
        proof {
            if new_size <= old(self).steps@.len() {
                assert(self.steps@ == old(self).steps@.subrange(0, new_size as int));
            }
            assert forall|i: int|
                0 <= i < self.steps@.len() implies (#[trigger] self.steps@[i]) == old(
                self,
            ).steps@[i] && self.steps@[i].wf() by {}
        }
        while self.steps.len() < new_size
            invariant
                old(self).wf(),
                new_size <= 64,
                self.steps@.len() <= new_size,
                self.steps@.len() >= old(self).steps@.len() || self.steps@.len() >= new_size,
                forall|i: int|
                    0 <= i < self.steps@.len() && i < old(self).steps@.len() ==> (
                    #[trigger] self.steps@[i]) == old(self).steps@[i],
                forall|i: int| 0 <= i < self.steps@.len() ==> (#[trigger] self.steps@[i]).wf(),
                self.current_step == old(self).current_step,
                self.is_playing == old(self).is_playing,
                self.loop_enabled == old(self).loop_enabled,
                self.swing == old(self).swing,
                self.step_resolution == old(self).step_resolution,
                self.bpm_units == old(self).bpm_units,
                self.accumulator == old(self).accumulator,
                self.sample_rate == old(self).sample_rate,
            decreases new_size - self.steps@.len(),
        {
            self.steps.push(SequenceStep::default_step());
        }
        if self.current_step >= new_size {
            self.current_step = 0;
        }
    }
}

/// Classic drum and melody patterns.
pub struct DrumPatterns;

impl DrumPatterns {
    /// Four-on-the-floor kick.
    pub fn kick_4_4() -> (r: Vec<bool>)
        ensures
            r@.len() == 16,
            forall|i: int| 0 <= i < 16 ==> #[trigger] r@[i] == (i % 4 == 0),
    {
        let mut v: Vec<bool> = Vec::new();
        let mut i: usize = 0;
        while i < 16
            invariant
                i <= 16,
                v@.len() == i,
                forall|j: int| 0 <= j < i ==> #[trigger] v@[j] == (j % 4 == 0),
            decreases 16 - i,
        {
            v.push(i % 4 == 0);
            i = i + 1;
        }
        v
    }

    /// Snare on beats two and four.
    pub fn snare_2_4() -> (r: Vec<bool>)
        ensures
            r@.len() == 16,
            forall|i: int| 0 <= i < 16 ==> #[trigger] r@[i] == (i % 8 == 4),
    {
        let mut v: Vec<bool> = Vec::new();
        let mut i: usize = 0;
        while i < 16
            invariant
                i <= 16,
                v@.len() == i,
                forall|j: int| 0 <= j < i ==> #[trigger] v@[j] == (j % 8 == 4),
            decreases 16 - i,
        {
            v.push(i % 8 == 4);
            i = i + 1;
        }
        v
    }

    /// Steady sixteenth hats.
    pub fn hihat_16th() -> (r: Vec<bool>)
        ensures
            r@.len() == 16,
            forall|i: int| 0 <= i < 16 ==> #[trigger] r@[i],
    {
        let mut v: Vec<bool> = Vec::new();
        let mut i: usize = 0;
        while i < 16
            invariant
                i <= 16,
                v@.len() == i,
                forall|j: int| 0 <= j < i ==> #[trigger] v@[j],
            decreases 16 - i,
        {
            v.push(true);
            i = i + 1;
        }
        v
    }

    /// Hats on the off-beats only.
    pub fn hihat_accent() -> (r: Vec<bool>)
        ensures
            r@.len() == 16,
            forall|i: int| 0 <= i < 16 ==> #[trigger] r@[i] == (i % 2 == 0),
    {
        let mut v: Vec<bool> = Vec::new();
        let mut i: usize = 0;
        while i < 16
            invariant
                i <= 16,
                v@.len() == i,
                forall|j: int| 0 <= j < i ==> #[trigger] v@[j] == (j % 2 == 0),
            decreases 16 - i,
        {
            v.push(i % 2 == 0);
            i = i + 1;
        }
        v
    }

    /// A syncopated break pattern.
    pub fn breakbeat() -> (r: Vec<bool>)
        ensures
            r@ == seq![
                true, false, false, false, true, false, true, false, false, false, true, false,
                true, false, false, false,
            ],
    {
        let mut v: Vec<bool> = Vec::new();
        v.push(true);
        v.push(false);
        v.push(false);
        v.push(false);
        v.push(true);
        v.push(false);
        v.push(true);
        v.push(false);
        v.push(false);
        v.push(false);
        v.push(true);
        v.push(false);
        v.push(true);
        v.push(false);
        v.push(false);
        v.push(false);
        proof {
            assert(v@ =~= seq![
                true, false, false, false, true, false, true, false, false, false, true, false,
                true, false, false, false,
            ]);
        }
        v
    }
}

/// Note rows for melodic sequences; `None` is a rest.
pub struct MelodyPatterns;

impl MelodyPatterns {
    /// A rising and falling C major arpeggio.
    pub fn c_major_arp() -> (r: Vec<Option<u8>>)
        ensures
            r@.len() == 16,
            forall|i: int|
                0 <= i < 16 ==> ((#[trigger] r@[i]) matches Some(n) ==> n <= 127),
    {
        let mut v: Vec<Option<u8>> = Vec::new();
        v.push(Some(60));
        v.push(Some(64));
        v.push(Some(67));
        v.push(Some(72));
        v.push(Some(67));
        v.push(Some(64));
        v.push(Some(60));
        v.push(None);
        v.push(Some(60));
        v.push(Some(64));
        v.push(Some(67));
        v.push(Some(72));
        v.push(Some(67));
        v.push(Some(64));
        v.push(Some(60));
        v.push(None);
        v
    }

    /// A pentatonic run.
    pub fn pentatonic_run() -> (r: Vec<Option<u8>>)
        ensures
            r@.len() == 16,
            forall|i: int|
                0 <= i < 16 ==> ((#[trigger] r@[i]) matches Some(n) ==> n <= 127),
    {
        let mut v: Vec<Option<u8>> = Vec::new();
        v.push(Some(60));
        v.push(Some(62));
        v.push(Some(65));
        v.push(Some(67));
        v.push(Some(69));
        v.push(Some(72));
        v.push(Some(69));
        v.push(Some(67));
        v.push(Some(65));
        v.push(Some(62));
        v.push(Some(60));
        v.push(None);
        v.push(None);
        v.push(None);
        v.push(None);
        v.push(None);
        v
    }

    /// A walking bass line.
    pub fn bass_line() -> (r: Vec<Option<u8>>)
        ensures
            r@.len() == 16,
            forall|i: int|
                0 <= i < 16 ==> ((#[trigger] r@[i]) matches Some(n) ==> n <= 127),
    {
        let mut v: Vec<Option<u8>> = Vec::new();
        v.push(Some(36));
        v.push(None);
        v.push(Some(36));
        v.push(None);
        v.push(Some(41));
        v.push(None);
        v.push(Some(36));
        v.push(None);
        v.push(Some(38));
        v.push(None);
        v.push(Some(38));
        v.push(None);
        v.push(Some(43));
        v.push(None);
        v.push(Some(38));
        v.push(None);
        v
    }
}

/// Sequencer preset factory.
pub struct SequencerPresets;

impl SequencerPresets {
    /// A sixteen-step drum machine with the kick pattern loaded.
    pub fn drum_machine() -> (r: StepSequencer)
        ensures
            r.wf(),
            r.steps@.len() == 16,
            r.bpm_units == 120_000_000,
            r.step_resolution == StepResolution::Sixteenth,
    {
        let mut seq = StepSequencer::new(16, 44_100);
        seq.set_bpm(120_000_000);
        let pattern = DrumPatterns::kick_4_4();
        seq.set_pattern(&pattern);
        seq
    }

    /// A melodic sequence loaded with the arpeggio, steps active
    /// where a note sounds.
    pub fn melody_seq() -> (r: StepSequencer)
        ensures
            r.wf(),
            r.steps@.len() == 16,
            r.step_resolution == StepResolution::Eighth,
    {
        let mut seq = StepSequencer::new(16, 44_100);
        seq.set_bpm(120_000_000);
        seq.step_resolution = StepResolution::Eighth;
        let notes = MelodyPatterns::c_major_arp();
        load_notes(&mut seq, &notes, 800_000);
        seq
    }

    /// A slow, airy arpeggio on eight steps.
    pub fn ambient_arp() -> (r: StepSequencer)
        ensures
            r.wf(),
            r.steps@.len() == 8,
            r.step_resolution == StepResolution::Eighth,
            r.bpm_units == 80_000_000,
    {
        let mut seq = StepSequencer::new(8, 44_100);
        seq.set_bpm(80_000_000);
        seq.step_resolution = StepResolution::Eighth;
        let mut notes: Vec<Option<u8>> = Vec::new();
        notes.push(Some(60));
        notes.push(Some(67));
        notes.push(Some(72));
        notes.push(Some(76));
        notes.push(Some(79));
        notes.push(Some(76));
        notes.push(Some(72));
        notes.push(Some(67));
        load_notes(&mut seq, &notes, 800_000);
        seq
    }

    /// A bass sequence that hits hard.
    pub fn bass_seq() -> (r: StepSequencer)
        ensures
            r.wf(),
            r.steps@.len() == 16,
            r.step_resolution == StepResolution::Sixteenth,
    {
        let mut seq = StepSequencer::new(16, 44_100);
        seq.set_bpm(120_000_000);
        let notes = MelodyPatterns::bass_line();
        load_notes(&mut seq, &notes, 900_000);
        seq
    }
}

/// Put a note row into a sequence: a step is active exactly where a
/// note sounds.
fn load_notes(seq: &mut StepSequencer, notes: &Vec<Option<u8>>, velocity: i64)
    requires
        old(seq).wf(),
        0 <= velocity <= SCALE,
        forall|i: int|
            0 <= i < notes@.len() ==> ((#[trigger] notes@[i]) matches Some(n) ==> n <= 127),
    ensures
        final(seq).wf(),
        final(seq).steps@.len() == old(seq).steps@.len(),
        final(seq).step_resolution == old(seq).step_resolution,
        final(seq).bpm_units == old(seq).bpm_units,
{
    let n: usize = seq.steps.len();
    let mut i: usize = 0;
    while i < n
        invariant
            i <= n,
            n == seq.steps@.len(),
            seq.wf(),
            0 <= velocity <= SCALE,
            seq.step_resolution == old(seq).step_resolution,
            seq.bpm_units == old(seq).bpm_units,
            forall|j: int|
                0 <= j < notes@.len() ==> ((#[trigger] notes@[j]) matches Some(nn) ==> nn
                    <= 127),
        decreases n - i,
    {
        if i < notes.len() {
            let note: Option<u8> = notes[i];
            let active: bool = match note {
                Some(_) => true,
                None => false,
            };
            let step = SequenceStep {
                active,
                note,
                velocity,
                probability: SCALE,
                micro_timing: 0,
            };
            seq.set_step(i, step);
        }
        i = i + 1;
    }
}

} // verus!
