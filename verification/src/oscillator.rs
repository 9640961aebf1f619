//! Oscillator descriptors: waveform selection, frequency and
//! amplitude parameters, and musical note names.

use crate::fixed::SCALE;
use crate::module::{found_param, set_param_spec, AudioModule, ModuleType};
use crate::text::{digit_char, spec_decimal, u64_to_string};
use vstd::prelude::*;
use vstd::string::StrSliceExecFns;
use vstd::string::StringExecFns;

verus! {

#[derive(Clone, Copy, PartialEq, Eq, Structural, Debug)]
pub enum OscillatorWaveform {
    Sine,
    Sawtooth,
    Square,
    Triangle,
}

/// The waveform's index in the `Waveform` parameter (0..=3).
pub open spec fn waveform_index(w: OscillatorWaveform) -> int {
    match w {
        OscillatorWaveform::Sine => 0,
        OscillatorWaveform::Sawtooth => 1,
        OscillatorWaveform::Square => 2,
        OscillatorWaveform::Triangle => 3,
    }
}

/// The waveform denoted by a `Waveform` parameter value (in units);
/// anything out of range falls back to sine.
pub open spec fn waveform_of_units(v: int) -> OscillatorWaveform {
    if v / (SCALE as int) == 1 {
        OscillatorWaveform::Sawtooth
    } else if v / (SCALE as int) == 2 {
        OscillatorWaveform::Square
    } else if v / (SCALE as int) == 3 {
        OscillatorWaveform::Triangle
    } else {
        OscillatorWaveform::Sine
    }
}

impl OscillatorWaveform {
    pub fn all() -> (r: Vec<OscillatorWaveform>)
        ensures
            r@ == seq![
                OscillatorWaveform::Sine,
                OscillatorWaveform::Sawtooth,
                OscillatorWaveform::Square,
                OscillatorWaveform::Triangle,
            ],
    {
        let mut v: Vec<OscillatorWaveform> = Vec::new();
        v.push(OscillatorWaveform::Sine);
        v.push(OscillatorWaveform::Sawtooth);
        v.push(OscillatorWaveform::Square);
        v.push(OscillatorWaveform::Triangle);
        proof {
            assert(v@ =~= seq![
                OscillatorWaveform::Sine,
                OscillatorWaveform::Sawtooth,
                OscillatorWaveform::Square,
                OscillatorWaveform::Triangle,
            ]);
        }
        v
    }

    pub fn name(&self) -> (r: &'static str)
        ensures
            r@ == match *self {
                OscillatorWaveform::Sine => "Sine"@,
                OscillatorWaveform::Sawtooth => "Sawtooth"@,
                OscillatorWaveform::Square => "Square"@,
                OscillatorWaveform::Triangle => "Triangle"@,
            },
    {
        match self {
            OscillatorWaveform::Sine => "Sine",
            OscillatorWaveform::Sawtooth => "Sawtooth",
            OscillatorWaveform::Square => "Square",
            OscillatorWaveform::Triangle => "Triangle",
        }
    }

    pub fn symbol(&self) -> (r: &'static str)
        ensures
            r@ == match *self {
                OscillatorWaveform::Sine => "~"@,
                OscillatorWaveform::Sawtooth => "/|"@,
                OscillatorWaveform::Square => "[]"@,
                OscillatorWaveform::Triangle => "/\\"@,
            },
    {
        match self {
            OscillatorWaveform::Sine => "~",
            OscillatorWaveform::Sawtooth => "/|",
            OscillatorWaveform::Square => "[]",
            OscillatorWaveform::Triangle => "/\\",
        }
    }
}

impl AudioModule {
    pub fn new_oscillator(name: &str, id: u64) -> (r: AudioModule)
        ensures
            r.wf(),
            r.module_type == ModuleType::Oscillator,
            r.name@ == name@,
            r.id == id,
            r.enabled,
            crate::module::has_factory_params(r),
    {
        AudioModule::new(ModuleType::Oscillator, name, id)
    }

    pub fn new_oscillator_with_waveform(name: &str, waveform: OscillatorWaveform, id: u64) -> (r:
        AudioModule)
        ensures
            r.wf(),
            r.module_type == ModuleType::Oscillator,
            r.name@ == name@,
            r.id == id,
            forall|i: int|
                0 <= i < r.parameters@.len() && r.parameters@[i].name@ == "Waveform"@
                    ==> waveform_of_units((#[trigger] r.parameters@[i]).value as int) == waveform,
    {
        let mut osc = Self::new_oscillator(name, id);
        osc.set_waveform(waveform);
        osc
    }

    /// Set the oscillator frequency in Hz-units, clamped to the
    /// parameter's own range.
    pub fn set_frequency(&mut self, frequency: i64)
        requires
            old(self).wf(),
        ensures
            final(self).wf(),
            set_param_spec(*old(self), *final(self), "Frequency"@, frequency as int),
    {
        self.set_param("Frequency", frequency);
    }

    pub fn get_frequency(&self) -> (r: i64)
        requires
            self.wf(),
        ensures
            forall|i: int|
                0 <= i < self.parameters@.len() && (#[trigger] self.parameters@[i]).name@
                    == "Frequency"@ ==> r == self.parameters@[i].value,
            !found_param(self.parameters@, "Frequency"@) ==> r == 0,
    {
        self.get_parameter_value("Frequency")
    }

    pub fn set_waveform(&mut self, waveform: OscillatorWaveform)
        requires
            old(self).wf(),
        ensures
            final(self).wf(),
            set_param_spec(
                *old(self),
                *final(self),
                "Waveform"@,
                waveform_index(waveform) * SCALE,
            ),
    {
        let v: i64 = match waveform {
            OscillatorWaveform::Sine => 0,
            OscillatorWaveform::Sawtooth => SCALE,
            OscillatorWaveform::Square => 2 * SCALE,
            OscillatorWaveform::Triangle => 3 * SCALE,
        };
        self.set_param("Waveform", v);
    }

    pub fn get_waveform(&self) -> (r: OscillatorWaveform)
        requires
            self.wf(),
        ensures
            forall|i: int|
                0 <= i < self.parameters@.len() && (#[trigger] self.parameters@[i]).name@
                    == "Waveform"@ ==> r == waveform_of_units(self.parameters@[i].value as int),
            !found_param(self.parameters@, "Waveform"@) ==> r == OscillatorWaveform::Sine,
    {
        let v: i64 = self.get_parameter_value("Waveform");
        let idx: u64 = if v >= 0 {
            (v as u64) / (SCALE as u64)
        } else {
            0
        };
        if idx == 1 {
            OscillatorWaveform::Sawtooth
        } else if idx == 2 {
            OscillatorWaveform::Square
        } else if idx == 3 {
            OscillatorWaveform::Triangle
        } else {
            proof {
                if found_param(self.parameters@, "Waveform"@) {
                    assert(forall|i: int|
                        0 <= i < self.parameters@.len() && (#[trigger] self.parameters@[i]).name@
                            == "Waveform"@ ==> waveform_of_units(self.parameters@[i].value as int)
                            == OscillatorWaveform::Sine);
                }
            }
            OscillatorWaveform::Sine
        }
    }

    pub fn set_amplitude(&mut self, amplitude: i64)
        requires
            old(self).wf(),
        ensures
            final(self).wf(),
            set_param_spec(*old(self), *final(self), "Amplitude"@, amplitude as int),
    {
        self.set_param("Amplitude", amplitude);
    }

    pub fn get_amplitude(&self) -> (r: i64)
        requires
            self.wf(),
        ensures
            forall|i: int|
                0 <= i < self.parameters@.len() && (#[trigger] self.parameters@[i]).name@
                    == "Amplitude"@ ==> r == self.parameters@[i].value,
            !found_param(self.parameters@, "Amplitude"@) ==> r == 0,
    {
        self.get_parameter_value("Amplitude")
    }

    /// Set the frequency from a note name such as `C4`, `A#3` or
    /// `Bb2`; rejects anything that does not denote a MIDI note.
    pub fn set_note(&mut self, note: &str) -> (r: Result<(), ()>)
        requires
            old(self).wf(),
        ensures
            final(self).wf(),
            r is Ok <==> spec_note_midi(note@) is Some,
            r is Ok ==> set_param_spec(
                *old(self),
                *final(self),
                "Frequency"@,
                crate::pitch::spec_midi_freq(spec_note_midi(note@).unwrap()),
            ),
            r is Err ==> *final(self) == *old(self),
    {
        match parse_note_name(note) {
            Some(midi_note) => {
                self.set_midi_note(midi_note);
                Ok(())
            },
            None => Err(()),
        }
    }

    /// Set the frequency from a MIDI note number, through the pitch
    /// table.
    pub fn set_midi_note(&mut self, midi_note: u8)
        requires
            old(self).wf(),
            midi_note <= 127,
        ensures
            final(self).wf(),
            set_param_spec(
                *old(self),
                *final(self),
                "Frequency"@,
                crate::pitch::spec_midi_freq(midi_note as int) as int,
            ),
    {
        let f: i64 = crate::pitch::midi_to_freq_units(midi_note);
        self.set_param("Frequency", f);
    }
}

/// The base semitone of a note letter, if it is one.
pub open spec fn spec_letter_base(c: char) -> Option<int> {
    if c == 'C' || c == 'c' {
        Some(0int)
    } else if c == 'D' || c == 'd' {
        Some(2int)
    } else if c == 'E' || c == 'e' {
        Some(4int)
    } else if c == 'F' || c == 'f' {
        Some(5int)
    } else if c == 'G' || c == 'g' {
        Some(7int)
    } else if c == 'A' || c == 'a' {
        Some(9int)
    } else if c == 'B' || c == 'b' {
        Some(11int)
    } else {
        None
    }
}

/// Every character is a decimal digit.
pub open spec fn all_digits(s: Seq<char>) -> bool {
    forall|i: int| 0 <= i < s.len() ==> '0' <= #[trigger] s[i] <= '9'
}

/// The value of a non-empty digit string, most significant first.
pub open spec fn spec_digits_val(s: Seq<char>) -> int
    decreases s.len(),
{
    if s.len() == 0 {
        0
    } else {
        spec_digits_val(s.drop_last()) * 10 + (s.last() as int - '0' as int)
    }
}

/// The signed integer denoted by `s`: an optional leading minus, then
/// one or more digits.
pub open spec fn spec_int_val(s: Seq<char>) -> Option<int> {
    if s.len() >= 1 && s[0] == '-' {
        if s.len() >= 2 && all_digits(s.skip(1)) {
            Some(-spec_digits_val(s.skip(1)))
        } else {
            None
        }
    } else if s.len() >= 1 && all_digits(s) {
        Some(spec_digits_val(s))
    } else {
        None
    }
}

/// The MIDI note denoted by a note name: a letter, an optional `#` or
/// `b`, and an octave number, within MIDI range `0..=127`.
pub open spec fn spec_note_midi(s: Seq<char>) -> Option<int> {
    if s.len() < 2 {
        None
    } else {
        match spec_letter_base(s[0]) {
            None => None,
            Some(base) => {
                let (offset, rest) = if s.len() > 2 && s[1] == '#' {
                    (1int, s.skip(2))
                } else if s.len() > 2 && s[1] == 'b' {
                    (-1int, s.skip(2))
                } else {
                    (0int, s.skip(1))
                };
                match spec_int_val(rest) {
                    None => None,
                    Some(octave) => {
                        let midi = (octave + 1) * 12 + base + offset;
                        if 0 <= midi <= 127 {
                            Some(midi)
                        } else {
                            None
                        }
                    },
                }
            },
        }
    }
}

/// Parse a note name such as `C4`, `A#3` or `Bb2` into its MIDI note
/// number.
pub fn parse_note_name(note: &str) -> (r: Option<u8>)
    ensures
        match r {
            Some(m) => spec_note_midi(note@) == Some(m as int),
            None => spec_note_midi(note@) is None,
        },
{
    let len: usize = note.unicode_len();
    if len < 2 {
        return None;
    }
    let letter: char = note.get_char(0);
    let base: i64 = if letter == 'C' || letter == 'c' {
        0
    } else if letter == 'D' || letter == 'd' {
        2
    } else if letter == 'E' || letter == 'e' {
        4
    } else if letter == 'F' || letter == 'f' {
        5
    } else if letter == 'G' || letter == 'g' {
        7
    } else if letter == 'A' || letter == 'a' {
        9
    } else if letter == 'B' || letter == 'b' {
        11
    } else {
        return None;
    };
    assert(spec_letter_base(note@[0]) == Some(base as int));
    let second: char = note.get_char(1);
    let (offset, start): (i64, usize) = if len > 2 && second == '#' {
        (1, 2)
    } else if len > 2 && second == 'b' {
        (-1, 2)
    } else {
        (0, 1)
    };
    let ghost rest = note@.skip(start as int);
    match parse_int_chars(note, start) {
        None => {
            assert(spec_int_val(rest) is None);
            None
        },
        Some(octave) => {
            let midi: i64 = (octave + 1) * 12 + base + offset;
            proof {
                let exact = spec_int_val(rest).unwrap();
                let midi_spec = (exact + 1) * 12 + base + offset;
                if octave != exact {
                    // the parser capped a huge octave; both sides are
                    // far outside MIDI range
                    assert(!(0 <= midi_spec <= 127));
                    assert(!(0 <= midi <= 127));
                }
            }
            if 0 <= midi && midi <= 127 {
                Some(midi as u8)
            } else {
                None
            }
        },
    }
}

/// The reported value agrees with the exact one, capped just past
/// +/-100000.
pub open spec fn capped_val_ok(v: int, exact: int) -> bool {
    if -100_000 <= exact <= 100_000 {
        v == exact
    } else if exact > 100_000 {
        v == 100_001
    } else {
        v == -100_001
    }
}

/// The running accumulator agrees with the digits read so far, capped
/// just past 100000.
pub open spec fn digits_acc_ok(acc: int, s: Seq<char>) -> bool {
    if spec_digits_val(s) <= 100_000 {
        acc == spec_digits_val(s)
    } else {
        acc == 100_001
    }
}

/// Parse the characters of `s` from position `start` on as a signed
/// integer; values beyond +/-100000 are reported as just past that
/// bound, which the note-range check then rejects.
fn parse_int_chars(s: &str, start: usize) -> (r: Option<i64>)
    requires
        start <= s@.len(),
    ensures
        match r {
            Some(v) => spec_int_val(s@.skip(start as int)) is Some && capped_val_ok(
                v as int,
                spec_int_val(s@.skip(start as int)).unwrap(),
            ),
            None => spec_int_val(s@.skip(start as int)) is None,
        },
{
    let len: usize = s.unicode_len();
    let ghost whole = s@.skip(start as int);
    if start >= len {
        assert(whole.len() == 0);
        return None;
    }
    let first: char = s.get_char(start);
    let (neg, dstart): (bool, usize) = if first == '-' {
        (true, start + 1)
    } else {
        (false, start)
    };
    let ghost digits = s@.skip(dstart as int);
    if dstart >= len {
        assert(whole[0] == '-' && whole.len() == 1);
        return None;
    }
    proof {
        if neg {
            assert(whole[0] == '-');
            assert(whole.skip(1) =~= digits);
        } else {
            assert(whole =~= digits);
            assert(whole[0] == s@[start as int]);
            assert(whole[0] != '-');
        }
    }
    let mut acc: i64 = 0;
    let mut i: usize = dstart;
    while i < len
        invariant
            dstart <= i <= len,
            len == s@.len(),
            dstart < len,
            digits == s@.skip(dstart as int),
            whole == s@.skip(start as int),
            start <= dstart <= start + 1,
            neg ==> dstart == start + 1 && whole.len() >= 1 && whole[0] == '-' && whole.skip(1)
                == digits,
            !neg ==> dstart == start && whole == digits && whole.len() >= 1 && whole[0] != '-',
            all_digits(digits.take(i - dstart)),
            0 <= acc <= 100_001,
            digits_acc_ok(acc as int, digits.take(i - dstart)),
        decreases len - i,
    {
        let c: char = s.get_char(i);
        if c < '0' || c > '9' {
            assert(!all_digits(digits)) by {
                assert(digits[i - dstart] == s@[i as int]);
            }
            return None;
        }
        let d: u32 = (c as u32) - ('0' as u32);
        proof {
            assert(digits.take(i + 1 - dstart).drop_last() =~= digits.take(i - dstart));
            assert(digits.take(i + 1 - dstart).last() == s@[i as int]);
            lemma_digits_val_nonneg(digits.take(i - dstart));
        }
        proof {
            assert(all_digits(digits.take(i + 1 - dstart))) by {
                assert(forall|j: int|
                    0 <= j < i + 1 - dstart ==> (#[trigger] digits.take(i + 1 - dstart)[j])
                        == digits[j]);
                assert(digits[i - dstart] == s@[i as int]);
                assert(forall|j: int|
                    0 <= j < i - dstart ==> digits[j] == #[trigger] digits.take(i - dstart)[j]);
            }
        }
        if acc <= 100_000 {
            acc = acc * 10 + (d as i64);
            if acc > 100_000 {
                acc = 100_001;
            }
        } else {
            proof {
                assert(spec_digits_val(digits.take(i - dstart)) > 100_000);
                lemma_digits_val_grows(digits.take(i + 1 - dstart));
            }
        }
        i = i + 1;
    }
    proof {
        assert(digits.take(len - dstart) =~= digits);
        assert(whole == if neg {
            seq!['-'] + digits
        } else {
            digits
        }) by {
            if neg {
                assert(whole =~= seq!['-'] + digits);
            } else {
                assert(whole =~= digits);
            }
        }
        if neg {
            assert(whole[0] == '-');
            assert(whole.skip(1) =~= digits);
        } else {
            assert(whole[0] != '-') by {
                assert(whole[0] == digits[0]);
                assert('0' <= digits[0] <= '9');
            }
        }
    }
    if neg {
        Some(-acc)
    } else {
        Some(acc)
    }
}

proof fn lemma_digits_val_nonneg(s: Seq<char>)
    requires
        all_digits(s),
    ensures
        spec_digits_val(s) >= 0,
    decreases s.len(),
{
    if s.len() > 0 {
        assert(all_digits(s.drop_last()));
        lemma_digits_val_nonneg(s.drop_last());
    }
}

/// A digit string that is long past the cap stays past the cap as it
/// grows.
proof fn lemma_digits_val_grows(s: Seq<char>)
    requires
        s.len() >= 1,
        all_digits(s),
        spec_digits_val(s.drop_last()) > 100_000,
    ensures
        spec_digits_val(s) > 100_000,
{
    lemma_digits_val_nonneg(s.drop_last());
}

/// The note name of a MIDI note number: pitch class then octave.
pub open spec fn spec_midi_name(m: int) -> Seq<char> {
    let pc = m % 12;
    let octave = m / 12 - 1;
    spec_pitch_class(pc) + if octave < 0 {
        seq!['-'] + spec_decimal((-octave) as nat)
    } else {
        spec_decimal(octave as nat)
    }
}

/// The conventional name of a pitch class 0..=11.
pub open spec fn spec_pitch_class(pc: int) -> Seq<char> {
    if pc == 0 {
        "C"@
    } else if pc == 1 {
        "C#"@
    } else if pc == 2 {
        "D"@
    } else if pc == 3 {
        "D#"@
    } else if pc == 4 {
        "E"@
    } else if pc == 5 {
        "F"@
    } else if pc == 6 {
        "F#"@
    } else if pc == 7 {
        "G"@
    } else if pc == 8 {
        "G#"@
    } else if pc == 9 {
        "A"@
    } else if pc == 10 {
        "A#"@
    } else {
        "B"@
    }
}

/// Render a MIDI note number as a note name, e.g. 60 to `C4`.
pub fn midi_to_note_name(midi_note: u8) -> (s: String)
    ensures
        s@ == spec_midi_name(midi_note as int),
{
    let pc: u8 = midi_note % 12;
    let octave_plus_one: u8 = midi_note / 12;
    let name: &str = if pc == 0 {
        "C"
    } else if pc == 1 {
        "C#"
    } else if pc == 2 {
        "D"
    } else if pc == 3 {
        "D#"
    } else if pc == 4 {
        "E"
    } else if pc == 5 {
        "F"
    } else if pc == 6 {
        "F#"
    } else if pc == 7 {
        "G"
    } else if pc == 8 {
        "G#"
    } else if pc == 9 {
        "A"
    } else if pc == 10 {
        "A#"
    } else {
        "B"
    };
    let mut s: String = String::new();
    s.append(name);
    if octave_plus_one == 0 {
        s.append("-");
        proof {
            reveal_strlit("-");
        }
        let one: String = u64_to_string(1);
        s.append(one.as_str());
        proof {
            assert(s@ =~= spec_midi_name(midi_note as int));
        }
    } else {
        let digits: String = u64_to_string((octave_plus_one - 1) as u64);
        s.append(digits.as_str());
        proof {
            assert(s@ =~= spec_midi_name(midi_note as int));
        }
    }
    s
}

pub struct OscillatorPresets;

impl OscillatorPresets {
    /// A plain sine lead at 440 Hz.
    pub fn sine_lead() -> (r: AudioModule)
        ensures
            r.wf(),
            r.module_type == ModuleType::Oscillator,
            r.name@ == "Sine Lead"@,
    {
        let mut osc = AudioModule::new_oscillator("Sine Lead", 0);
        osc.set_frequency(440 * SCALE);
        osc.set_amplitude(700_000);
        osc.set_waveform(OscillatorWaveform::Sine);
        osc
    }

    /// A sawtooth bass on low A.
    pub fn saw_bass() -> (r: AudioModule)
        ensures
            r.wf(),
            r.module_type == ModuleType::Oscillator,
            r.name@ == "Saw Bass"@,
    {
        let mut osc = AudioModule::new_oscillator("Saw Bass", 0);
        osc.set_frequency(110 * SCALE);
        osc.set_amplitude(800_000);
        osc.set_waveform(OscillatorWaveform::Sawtooth);
        osc
    }

    /// A square lead on high A.
    pub fn square_lead() -> (r: AudioModule)
        ensures
            r.wf(),
            r.module_type == ModuleType::Oscillator,
            r.name@ == "Square Lead"@,
    {
        let mut osc = AudioModule::new_oscillator("Square Lead", 0);
        osc.set_frequency(880 * SCALE);
        osc.set_amplitude(600_000);
        osc.set_waveform(OscillatorWaveform::Square);
        osc
    }

    /// A soft triangle pad.
    pub fn triangle_pad() -> (r: AudioModule)
        ensures
            r.wf(),
            r.module_type == ModuleType::Oscillator,
            r.name@ == "Triangle Pad"@,
    {
        let mut osc = AudioModule::new_oscillator("Triangle Pad", 0);
        osc.set_frequency(220 * SCALE);
        osc.set_amplitude(500_000);
        osc.set_waveform(OscillatorWaveform::Triangle);
        osc
    }

    /// An oscillator tuned to a named note, or an error for a name
    /// that denotes no MIDI note.
    pub fn tuned_to_note(note: &str, waveform: OscillatorWaveform) -> (r: Result<AudioModule, ()>)
        ensures
            r is Ok <==> spec_note_midi(note@) is Some,
            r matches Ok(m) ==> m.wf() && m.module_type == ModuleType::Oscillator,
    {
        let mut osc = AudioModule::new_oscillator(note, 0);
        match osc.set_note(note) {
            Ok(()) => {
                osc.set_waveform(waveform);
                osc.set_amplitude(700_000);
                Ok(osc)
            },
            Err(()) => Err(()),
        }
    }
}

} // verus!
