//! Module descriptors: a typed unit with a fixed parameter set and
//! fixed port counts.
//!
//! The factory table here is authoritative; persisted projects rely on
//! these exact names, defaults and ranges.

use crate::fixed::clamp_int;
use crate::params::ModuleParameter;
use crate::text::str_eq;
use vstd::prelude::*;

verus! {

#[derive(Clone, Copy, PartialEq, Eq, Structural, Debug)]
pub enum ModuleType {
    Oscillator,
    Sequencer,
    Filter,
    Reverb,
    Delay,
    Output,
}

/// Fixed number of input ports of each module type.
pub open spec fn spec_input_count(t: ModuleType) -> usize {
    match t {
        ModuleType::Oscillator => 0,
        ModuleType::Sequencer => 0,
        ModuleType::Filter => 1,
        ModuleType::Reverb => 1,
        ModuleType::Delay => 1,
        ModuleType::Output => 2,
    }
}

/// Fixed number of output ports of each module type.
pub open spec fn spec_output_count(t: ModuleType) -> usize {
    match t {
        ModuleType::Oscillator => 1,
        ModuleType::Sequencer => 1,
        ModuleType::Filter => 1,
        ModuleType::Reverb => 1,
        ModuleType::Delay => 1,
        ModuleType::Output => 0,
    }
}

pub struct AudioModule {
    pub id: u64,
    pub module_type: ModuleType,
    pub name: String,
    pub parameters: Vec<ModuleParameter>,
    pub input_count: usize,
    pub output_count: usize,
    pub position: (u16, u16),
    pub enabled: bool,
}

/// No two parameters of one module share a name.
pub open spec fn distinct_param_names(params: Seq<ModuleParameter>) -> bool {
    forall|i: int, j: int|
        0 <= i < j < params.len() ==> params[i].name@ != params[j].name@
}

/// Some parameter carries this name.
pub open spec fn found_param(params: Seq<ModuleParameter>, name: Seq<char>) -> bool {
    exists|i: int| 0 <= i < params.len() && params[i].name@ == name
}

/// The value of the parameter with this name, or 0 if there is none.
/// Meaningful when names are distinct, as `AudioModule::wf` demands.
pub open spec fn spec_param_value(params: Seq<ModuleParameter>, name: Seq<char>) -> int {
    if found_param(params, name) {
        params[choose|i: int| 0 <= i < params.len() && params[i].name@ == name].value as int
    } else {
        0
    }
}

/// One factory table entry: this parameter has exactly this name,
/// default and range.
pub open spec fn param_matches(
    p: ModuleParameter,
    name: Seq<char>,
    value: i64,
    min: i64,
    max: i64,
) -> bool {
    &&& p.name@ == name
    &&& p.value == value
    &&& p.min == min
    &&& p.max == max
}

/// The authoritative factory table, in fixed-point units.
pub open spec fn has_factory_params(m: AudioModule) -> bool {
    match m.module_type {
        ModuleType::Oscillator => {
            &&& m.parameters@.len() == 3
            &&& param_matches(
                m.parameters@[0],
                "Frequency"@,
                440_000_000,
                20_000_000,
                20_000_000_000,
            )
            &&& param_matches(m.parameters@[1], "Amplitude"@, 500_000, 0, 1_000_000)
            &&& param_matches(m.parameters@[2], "Waveform"@, 0, 0, 3_000_000)
        },
        ModuleType::Filter => {
            &&& m.parameters@.len() == 3
            &&& param_matches(m.parameters@[0], "Cutoff"@, 1_000_000_000, 20_000_000, 20_000_000_000)
            &&& param_matches(m.parameters@[1], "Resonance"@, 500_000, 0, 1_000_000)
            &&& param_matches(m.parameters@[2], "Type"@, 0, 0, 2_000_000)
        },
        ModuleType::Reverb => {
            &&& m.parameters@.len() == 3
            &&& param_matches(m.parameters@[0], "Room Size"@, 500_000, 0, 1_000_000)
            &&& param_matches(m.parameters@[1], "Damping"@, 500_000, 0, 1_000_000)
            &&& param_matches(m.parameters@[2], "Wet"@, 300_000, 0, 1_000_000)
        },
        ModuleType::Delay => {
            &&& m.parameters@.len() == 3
            &&& param_matches(m.parameters@[0], "Time"@, 250_000, 10_000, 2_000_000)
            &&& param_matches(m.parameters@[1], "Feedback"@, 300_000, 0, 950_000)
            &&& param_matches(m.parameters@[2], "Wet"@, 300_000, 0, 1_000_000)
        },
        ModuleType::Output => {
            &&& m.parameters@.len() == 2
            &&& param_matches(m.parameters@[0], "Volume"@, 700_000, 0, 1_000_000)
            &&& param_matches(m.parameters@[1], "Pan"@, 500_000, 0, 1_000_000)
        },
        ModuleType::Sequencer => {
            &&& m.parameters@.len() == 3
            &&& param_matches(m.parameters@[0], "BPM"@, 120_000_000, 60_000_000, 200_000_000)
            &&& param_matches(m.parameters@[1], "Steps"@, 16_000_000, 4_000_000, 32_000_000)
            &&& param_matches(m.parameters@[2], "Gate"@, 500_000, 100_000, 1_000_000)
        },
    }
}

/// `m1` is `m0` with the parameter called `name` (if any) set to `v`,
/// clamped into that parameter's range; everything else untouched.
pub open spec fn set_param_spec(m0: AudioModule, m1: AudioModule, name: Seq<char>, v: int) -> bool {
    &&& m1.id == m0.id
    &&& m1.module_type == m0.module_type
    &&& m1.name == m0.name
    &&& m1.input_count == m0.input_count
    &&& m1.output_count == m0.output_count
    &&& m1.position == m0.position
    &&& m1.enabled == m0.enabled
    &&& if found_param(m0.parameters@, name) {
        exists|i: int|
            {
                &&& 0 <= i < m0.parameters@.len()
                &&& m0.parameters@[i].name@ == name
                &&& m1.parameters@ == m0.parameters@.update(
                    i,
                    ModuleParameter {
                        value: clamp_int(
                            v,
                            m0.parameters@[i].min as int,
                            m0.parameters@[i].max as int,
                        ) as i64,
                        ..m0.parameters@[i]
                    },
                )
            }
    } else {
        m1.parameters@ == m0.parameters@
    }
}

/// The two descriptors carry the same data: same id, type, name,
/// parameters, ports, position and flag.  (`Vec` and `String` values
/// are compared through their views.)
pub open spec fn module_eq(a: AudioModule, b: AudioModule) -> bool {
    &&& a.id == b.id
    &&& a.module_type == b.module_type
    &&& a.name@ == b.name@
    &&& a.parameters@ == b.parameters@
    &&& a.input_count == b.input_count
    &&& a.output_count == b.output_count
    &&& a.position == b.position
    &&& a.enabled == b.enabled
}

impl AudioModule {
    /// Well-formed: each parameter in range, names distinct, port
    /// counts those of the type.
    pub open spec fn wf(self) -> bool {
        &&& forall|i: int| 0 <= i < self.parameters@.len() ==> (#[trigger] self.parameters@[i]).wf()
        &&& distinct_param_names(self.parameters@)
        &&& self.input_count == spec_input_count(self.module_type)
        &&& self.output_count == spec_output_count(self.module_type)
    }

    /// Build a descriptor of the given type with its factory
    /// parameters.  The caller supplies the stable id.
    pub fn new(module_type: ModuleType, name: &str, id: u64) -> (r: AudioModule)
        ensures
            r.wf(),
            r.id == id,
            r.module_type == module_type,
            r.name@ == name@,
            r.enabled,
            r.position == (0u16, 0u16),
            has_factory_params(r),
    {
        let mut parameters: Vec<ModuleParameter> = Vec::new();
        match module_type {
            ModuleType::Oscillator => {
                parameters.push(
                    ModuleParameter::new("Frequency", 440_000_000, 20_000_000, 20_000_000_000),
                );
                parameters.push(ModuleParameter::new("Amplitude", 500_000, 0, 1_000_000));
                parameters.push(ModuleParameter::new("Waveform", 0, 0, 3_000_000));
                proof {
                    reveal_strlit("Frequency");
                    reveal_strlit("Amplitude");
                    reveal_strlit("Waveform");
                    assert("Frequency"@[0] != "Amplitude"@[0]);
                    assert("Frequency"@[0] != "Waveform"@[0]);
                    assert("Amplitude"@[0] != "Waveform"@[0]);
                }
            },
            ModuleType::Filter => {
                parameters.push(
                    ModuleParameter::new("Cutoff", 1_000_000_000, 20_000_000, 20_000_000_000),
                );
                parameters.push(ModuleParameter::new("Resonance", 500_000, 0, 1_000_000));
                parameters.push(ModuleParameter::new("Type", 0, 0, 2_000_000));
                proof {
                    reveal_strlit("Cutoff");
                    reveal_strlit("Resonance");
                    reveal_strlit("Type");
                    assert("Cutoff"@[0] != "Resonance"@[0]);
                    assert("Cutoff"@[0] != "Type"@[0]);
                    assert("Resonance"@[0] != "Type"@[0]);
                }
            },
            ModuleType::Reverb => {
                parameters.push(ModuleParameter::new("Room Size", 500_000, 0, 1_000_000));
                parameters.push(ModuleParameter::new("Damping", 500_000, 0, 1_000_000));
                parameters.push(ModuleParameter::new("Wet", 300_000, 0, 1_000_000));
                proof {
                    reveal_strlit("Room Size");
                    reveal_strlit("Damping");
                    reveal_strlit("Wet");
                    assert("Room Size"@[0] != "Damping"@[0]);
                    assert("Room Size"@[0] != "Wet"@[0]);
                    assert("Damping"@[0] != "Wet"@[0]);
                }
            },
            ModuleType::Delay => {
                parameters.push(ModuleParameter::new("Time", 250_000, 10_000, 2_000_000));
                parameters.push(ModuleParameter::new("Feedback", 300_000, 0, 950_000));
                parameters.push(ModuleParameter::new("Wet", 300_000, 0, 1_000_000));
                proof {
                    reveal_strlit("Time");
                    reveal_strlit("Feedback");
                    reveal_strlit("Wet");
                    assert("Time"@[0] != "Feedback"@[0]);
                    assert("Time"@[0] != "Wet"@[0]);
                    assert("Feedback"@[0] != "Wet"@[0]);
                }
            },
            ModuleType::Output => {
                parameters.push(ModuleParameter::new("Volume", 700_000, 0, 1_000_000));
                parameters.push(ModuleParameter::new("Pan", 500_000, 0, 1_000_000));
                proof {
                    reveal_strlit("Volume");
                    reveal_strlit("Pan");
                    assert("Volume"@[0] != "Pan"@[0]);
                }
            },
            ModuleType::Sequencer => {
                parameters.push(
                    ModuleParameter::new("BPM", 120_000_000, 60_000_000, 200_000_000),
                );
                parameters.push(
                    ModuleParameter::new("Steps", 16_000_000, 4_000_000, 32_000_000),
                );
                parameters.push(ModuleParameter::new("Gate", 500_000, 100_000, 1_000_000));
                proof {
                    reveal_strlit("BPM");
                    reveal_strlit("Steps");
                    reveal_strlit("Gate");
                    assert("BPM"@[0] != "Steps"@[0]);
                    assert("BPM"@[0] != "Gate"@[0]);
                    assert("Steps"@[0] != "Gate"@[0]);
                }
            },
        }
        let (input_count, output_count): (usize, usize) = match module_type {
            ModuleType::Oscillator => (0, 1),
            ModuleType::Sequencer => (0, 1),
            ModuleType::Filter => (1, 1),
            ModuleType::Reverb => (1, 1),
            ModuleType::Delay => (1, 1),
            ModuleType::Output => (2, 0),
        };
        AudioModule {
            id,
            module_type,
            name: name.to_owned(),
            parameters,
            input_count,
            output_count,
            position: (0, 0),
            enabled: true,
        }
    }

    pub fn clone_module(&self) -> (r: AudioModule)
        ensures
            module_eq(r, *self),
    {
        let mut parameters: Vec<ModuleParameter> = Vec::new();
        let mut i: usize = 0;
        while i < self.parameters.len()
            invariant
                i <= self.parameters@.len(),
                parameters@ == self.parameters@.take(i as int),
            decreases self.parameters@.len() - i,
        {
            parameters.push(self.parameters[i].clone_param());
            proof {
                assert(self.parameters@.take(i + 1) =~= self.parameters@.take(i as int).push(
                    self.parameters@[i as int],
                ));
            }
            i = i + 1;
        }
        proof {
            assert(self.parameters@.take(self.parameters@.len() as int) =~= self.parameters@);
        }
        AudioModule {
            id: self.id,
            module_type: self.module_type,
            name: self.name.clone(),
            parameters,
            input_count: self.input_count,
            output_count: self.output_count,
            position: self.position,
            enabled: self.enabled,
        }
    }

    /// Decide well-formedness at run time: exactly `wf`.
    pub fn check_wf(&self) -> (r: bool)
        ensures
            r == self.wf(),
    {
        let n: usize = self.parameters.len();
        let mut i: usize = 0;
        while i < n
            invariant
                i <= n,
                n == self.parameters@.len(),
                forall|j: int| 0 <= j < i ==> (#[trigger] self.parameters@[j]).wf(),
            decreases n - i,
        {
            let p = &self.parameters[i];
            let ok: bool = -crate::params::PARAM_CAP <= p.min && p.min < p.max && p.max
                <= crate::params::PARAM_CAP && p.min <= p.value && p.value <= p.max && 0 <= p.step;
            if !ok {
                proof {
                    assert(!self.parameters@[i as int].wf());
                }
                return false;
            }
            i = i + 1;
        }
        let mut a: usize = 0;
        while a < n
            invariant
                a <= n,
                n == self.parameters@.len(),
                forall|x: int, y: int|
                    0 <= x < y < n && x < a ==> self.parameters@[x].name@
                        != self.parameters@[y].name@,
            decreases n - a,
        {
            let mut b: usize = a + 1;
            while b < n
                invariant
                    a < b <= n || (a + 1 == b && b > n),
                    a < n,
                    n == self.parameters@.len(),
                    forall|y: int|
                        a < y < b ==> self.parameters@[a as int].name@
                            != self.parameters@[y].name@,
                decreases n - b,
            {
                if crate::text::str_eq(
                    self.parameters[a].name.as_str(),
                    self.parameters[b].name.as_str(),
                ) {
                    proof {
                        assert(self.parameters@[a as int].name@ == self.parameters@[b as int].name@);
                        assert(!distinct_param_names(self.parameters@));
                    }
                    return false;
                }
                b = b + 1;
            }
            a = a + 1;
        }
        let (want_in, want_out): (usize, usize) = match self.module_type {
            ModuleType::Oscillator => (0, 1),
            ModuleType::Sequencer => (0, 1),
            ModuleType::Filter => (1, 1),
            ModuleType::Reverb => (1, 1),
            ModuleType::Delay => (1, 1),
            ModuleType::Output => (2, 0),
        };
        if self.input_count != want_in || self.output_count != want_out {
            return false;
        }
        true
    }

    /// Index of the parameter with this name, if any.
    pub fn find_param(&self, name: &str) -> (r: Option<usize>)
        ensures
            match r {
                Some(i) => i < self.parameters@.len() && self.parameters@[i as int].name@ == name@,
                None => !found_param(self.parameters@, name@),
            },
    {
        let mut i: usize = 0;
        while i < self.parameters.len()
            invariant
                i <= self.parameters@.len(),
                forall|j: int| 0 <= j < i ==> self.parameters@[j].name@ != name@,
            decreases self.parameters@.len() - i,
        {
            if str_eq(self.parameters[i].name.as_str(), name) {
                return Some(i);
            }
            i = i + 1;
        }
        None
    }

    /// Borrow the parameter with this name.
    pub fn get_parameter(&self, name: &str) -> (r: Option<&ModuleParameter>)
        ensures
            match r {
                Some(p) => exists|i: int|
                    0 <= i < self.parameters@.len() && self.parameters@[i] == *p && p.name@
                        == name@,
                None => !found_param(self.parameters@, name@),
            },
    {
        match self.find_param(name) {
            Some(i) => Some(&self.parameters[i]),
            None => None,
        }
    }

    /// The value of the parameter with this name, or 0 if there is
    /// none.
    pub fn get_parameter_value(&self, name: &str) -> (r: i64)
        requires
            self.wf(),
        ensures
            r == spec_param_value(self.parameters@, name@),
            found_param(self.parameters@, name@) ==> exists|i: int|
                0 <= i < self.parameters@.len() && self.parameters@[i].name@ == name@ && r
                    == self.parameters@[i].value,
            !found_param(self.parameters@, name@) ==> r == 0,
    {
        match self.find_param(name) {
            Some(i) => {
                proof {
                    let j = choose|j: int|
                        0 <= j < self.parameters@.len() && self.parameters@[j].name@ == name@;
                    assert(j == i as int);
                }
                self.parameters[i].value
            },
            None => 0,
        }
    }

    /// Set the parameter with this name to `v`, clamped into its own
    /// range; do nothing if no parameter has that name.
    pub fn set_param(&mut self, name: &str, v: i64)
        requires
            old(self).wf(),
        ensures
            final(self).wf(),
            set_param_spec(*old(self), *final(self), name@, v as int),
    {
        match self.find_param(name) {
            Some(i) => {
                let p = &mut self.parameters[i];
                p.set(v);
            },
            None => {},
        }
    }

    /// Adjust the parameter at this position by `delta` (scaled by
    /// its range width and clamped); out-of-range positions change
    /// nothing.
    pub fn adjust_param_at(&mut self, index: usize, delta: i64)
        requires
            old(self).wf(),
        ensures
            final(self).wf(),
            index < old(self).parameters@.len() ==> final(self).parameters@ == old(
                self,
            ).parameters@.update(
                index as int,
                ModuleParameter {
                    value: crate::params::adjust_result(
                        old(self).parameters@[index as int].value as int,
                        old(self).parameters@[index as int].min as int,
                        old(self).parameters@[index as int].max as int,
                        delta as int,
                    ) as i64,
                    ..old(self).parameters@[index as int]
                },
            ),
            index >= old(self).parameters@.len() ==> final(self).parameters@ == old(
                self,
            ).parameters@,
            final(self).id == old(self).id,
            final(self).module_type == old(self).module_type,
            final(self).name == old(self).name,
            final(self).input_count == old(self).input_count,
            final(self).output_count == old(self).output_count,
            final(self).position == old(self).position,
            final(self).enabled == old(self).enabled,
    {
        if index < self.parameters.len() {
            let p = &mut self.parameters[index];
            p.adjust(delta);
        }
    }

    /// Adjust the parameter with this name by `delta` (scaled by its
    /// range width and clamped); do nothing if no parameter has that
    /// name.
    pub fn adjust_param(&mut self, name: &str, delta: i64)
        requires
            old(self).wf(),
        ensures
            final(self).wf(),
            found_param(old(self).parameters@, name@) ==> exists|i: int|
                {
                    &&& 0 <= i < old(self).parameters@.len()
                    &&& old(self).parameters@[i].name@ == name@
                    &&& final(self).parameters@ == old(self).parameters@.update(
                        i,
                        ModuleParameter {
                            value: crate::params::adjust_result(
                                old(self).parameters@[i].value as int,
                                old(self).parameters@[i].min as int,
                                old(self).parameters@[i].max as int,
                                delta as int,
                            ) as i64,
                            ..old(self).parameters@[i]
                        },
                    )
                },
            !found_param(old(self).parameters@, name@) ==> final(self).parameters@ == old(
                self,
            ).parameters@,
            final(self).id == old(self).id,
            final(self).module_type == old(self).module_type,
            final(self).name == old(self).name,
            final(self).input_count == old(self).input_count,
            final(self).output_count == old(self).output_count,
            final(self).position == old(self).position,
            final(self).enabled == old(self).enabled,
    {
        match self.find_param(name) {
            Some(i) => {
                let p = &mut self.parameters[i];
                p.adjust(delta);
            },
            None => {},
        }
    }
}

} // verus!
