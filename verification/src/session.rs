//! The control-plane session: editing modes, key actions, selection
//! and the dispatch of edits onto the signal graph.

use crate::filter::FilterType;
use crate::fixed::SCALE;
use crate::graph::{has_node, AudioGraph};
use crate::module::{AudioModule, ModuleType};
use crate::oscillator::OscillatorWaveform;
use crate::params::ModuleParameter;
use crate::text::{spec_decimal, str_eq, u64_to_string};
use vstd::prelude::*;
use vstd::string::StringExecFns;

verus! {

/// A key press, as the terminal reports it.
#[derive(Clone, Copy, PartialEq, Eq, Structural, Debug)]
pub enum InputKey {
    Char(char),
    Ctrl(char),
    Tab,
    BackTab,
    Up,
    Down,
    Left,
    Right,
    Enter,
    Esc,
    Delete,
    Space,
    Other,
}

/// Everything a key press can mean.
#[derive(Clone, Copy, PartialEq, Eq, Structural, Debug)]
pub enum InputAction {
    NextModule,
    PrevModule,
    NextParameter,
    PrevParameter,
    EnterParameterEdit,
    EnterModuleAdd,
    EnterConnection,
    ExitMode,
    IncreaseParameterFine,
    DecreaseParameterFine,
    IncreaseParameterCoarse,
    DecreaseParameterCoarse,
    AddOscillator,
    AddFilter,
    AddReverb,
    AddDelay,
    AddOutput,
    AddSequencer,
    DeleteModule,
    SaveProject,
    LoadProject,
    NewProject,
    PlayPause,
    Stop,
    Record,
    Quit,
    Unknown,
}

/// The action a key denotes, independent of mode.
pub open spec fn spec_key_action(key: InputKey) -> InputAction {
    match key {
        InputKey::Tab => InputAction::NextModule,
        InputKey::BackTab => InputAction::PrevModule,
        InputKey::Up => InputAction::PrevParameter,
        InputKey::Down => InputAction::NextParameter,
        InputKey::Enter => InputAction::EnterParameterEdit,
        InputKey::Esc => InputAction::ExitMode,
        InputKey::Left => InputAction::DecreaseParameterFine,
        InputKey::Right => InputAction::IncreaseParameterFine,
        InputKey::Delete => InputAction::DeleteModule,
        InputKey::Space => InputAction::PlayPause,
        InputKey::Char(c) => if c == 'a' {
            InputAction::EnterModuleAdd
        } else if c == 'c' {
            InputAction::EnterConnection
        } else if c == '-' {
            InputAction::DecreaseParameterCoarse
        } else if c == '=' || c == '+' {
            InputAction::IncreaseParameterCoarse
        } else if c == 'o' {
            InputAction::AddOscillator
        } else if c == 'f' {
            InputAction::AddFilter
        } else if c == 'r' {
            InputAction::AddReverb
        } else if c == 'd' {
            InputAction::AddDelay
        } else if c == 'u' {
            InputAction::AddOutput
        } else if c == 's' {
            InputAction::AddSequencer
        } else if c == 'x' {
            InputAction::DeleteModule
        } else if c == '.' {
            InputAction::Stop
        } else if c == 'q' {
            InputAction::Quit
        } else {
            InputAction::Unknown
        },
        InputKey::Ctrl(c) => if c == 's' {
            InputAction::SaveProject
        } else if c == 'o' {
            InputAction::LoadProject
        } else if c == 'n' {
            InputAction::NewProject
        } else if c == 'r' {
            InputAction::Record
        } else if c == 'c' {
            InputAction::Quit
        } else {
            InputAction::Unknown
        },
        InputKey::Other => InputAction::Unknown,
    }
}

/// Map a key press to its action.
pub fn key_to_action(key: InputKey) -> (r: InputAction)
    ensures
        r == spec_key_action(key),
{
    match key {
        InputKey::Tab => InputAction::NextModule,
        InputKey::BackTab => InputAction::PrevModule,
        InputKey::Up => InputAction::PrevParameter,
        InputKey::Down => InputAction::NextParameter,
        InputKey::Enter => InputAction::EnterParameterEdit,
        InputKey::Esc => InputAction::ExitMode,
        InputKey::Left => InputAction::DecreaseParameterFine,
        InputKey::Right => InputAction::IncreaseParameterFine,
        InputKey::Delete => InputAction::DeleteModule,
        InputKey::Space => InputAction::PlayPause,
        InputKey::Char(c) => if c == 'a' {
            InputAction::EnterModuleAdd
        } else if c == 'c' {
            InputAction::EnterConnection
        } else if c == '-' {
            InputAction::DecreaseParameterCoarse
        } else if c == '=' || c == '+' {
            InputAction::IncreaseParameterCoarse
        } else if c == 'o' {
            InputAction::AddOscillator
        } else if c == 'f' {
            InputAction::AddFilter
        } else if c == 'r' {
            InputAction::AddReverb
        } else if c == 'd' {
            InputAction::AddDelay
        } else if c == 'u' {
            InputAction::AddOutput
        } else if c == 's' {
            InputAction::AddSequencer
        } else if c == 'x' {
            InputAction::DeleteModule
        } else if c == '.' {
            InputAction::Stop
        } else if c == 'q' {
            InputAction::Quit
        } else {
            InputAction::Unknown
        },
        InputKey::Ctrl(c) => if c == 's' {
            InputAction::SaveProject
        } else if c == 'o' {
            InputAction::LoadProject
        } else if c == 'n' {
            InputAction::NewProject
        } else if c == 'r' {
            InputAction::Record
        } else if c == 'c' {
            InputAction::Quit
        } else {
            InputAction::Unknown
        },
        InputKey::Other => InputAction::Unknown,
    }
}

/// The editing modes of the session.
#[derive(Clone, Copy, PartialEq, Eq, Structural, Debug)]
pub enum AppMode {
    ModuleView,
    ParameterEdit,
    ModuleAdd,
    Connection,
}

/// Which actions each mode accepts.
pub open spec fn spec_action_valid(action: InputAction, mode: AppMode) -> bool {
    match mode {
        AppMode::ModuleView => match action {
            InputAction::NextModule => true,
            InputAction::PrevModule => true,
            InputAction::EnterParameterEdit => true,
            InputAction::EnterModuleAdd => true,
            InputAction::EnterConnection => true,
            InputAction::DeleteModule => true,
            InputAction::SaveProject => true,
            InputAction::LoadProject => true,
            InputAction::NewProject => true,
            InputAction::PlayPause => true,
            InputAction::Stop => true,
            InputAction::Record => true,
            InputAction::Quit => true,
            _ => false,
        },
        AppMode::ParameterEdit => match action {
            InputAction::NextParameter => true,
            InputAction::PrevParameter => true,
            InputAction::IncreaseParameterFine => true,
            InputAction::DecreaseParameterFine => true,
            InputAction::IncreaseParameterCoarse => true,
            InputAction::DecreaseParameterCoarse => true,
            InputAction::ExitMode => true,
            InputAction::Quit => true,
            _ => false,
        },
        AppMode::ModuleAdd => match action {
            InputAction::AddOscillator => true,
            InputAction::AddFilter => true,
            InputAction::AddReverb => true,
            InputAction::AddDelay => true,
            InputAction::AddOutput => true,
            InputAction::AddSequencer => true,
            InputAction::ExitMode => true,
            InputAction::Quit => true,
            _ => false,
        },
        AppMode::Connection => match action {
            InputAction::ExitMode => true,
            InputAction::Quit => true,
            _ => false,
        },
    }
}

/// Whether a mode accepts an action.
pub fn is_action_valid_for_mode(action: &InputAction, mode: &AppMode) -> (r: bool)
    ensures
        r == spec_action_valid(*action, *mode),
{
    match mode {
        AppMode::ModuleView => match action {
            InputAction::NextModule
            | InputAction::PrevModule
            | InputAction::EnterParameterEdit
            | InputAction::EnterModuleAdd
            | InputAction::EnterConnection
            | InputAction::DeleteModule
            | InputAction::SaveProject
            | InputAction::LoadProject
            | InputAction::NewProject
            | InputAction::PlayPause
            | InputAction::Stop
            | InputAction::Record
            | InputAction::Quit => true,
            _ => false,
        },
        AppMode::ParameterEdit => match action {
            InputAction::NextParameter
            | InputAction::PrevParameter
            | InputAction::IncreaseParameterFine
            | InputAction::DecreaseParameterFine
            | InputAction::IncreaseParameterCoarse
            | InputAction::DecreaseParameterCoarse
            | InputAction::ExitMode
            | InputAction::Quit => true,
            _ => false,
        },
        AppMode::ModuleAdd => match action {
            InputAction::AddOscillator
            | InputAction::AddFilter
            | InputAction::AddReverb
            | InputAction::AddDelay
            | InputAction::AddOutput
            | InputAction::AddSequencer
            | InputAction::ExitMode
            | InputAction::Quit => true,
            _ => false,
        },
        AppMode::Connection => match action {
            InputAction::ExitMode | InputAction::Quit => true,
            _ => false,
        },
    }
}

/// Key hints for a mode, as (key, meaning) pairs.
pub fn get_mode_help(mode: &AppMode) -> (r: Vec<(&'static str, &'static str)>)
    ensures
        match *mode {
            AppMode::ModuleView => r@.len() == 9,
            AppMode::ParameterEdit => r@.len() == 4,
            AppMode::ModuleAdd => r@.len() == 7,
            AppMode::Connection => r@.len() == 1,
        },
        r@.len() > 0,
{
    let mut v: Vec<(&'static str, &'static str)> = Vec::new();
    match mode {
        AppMode::ModuleView => {
            v.push(("Tab", "Select module"));
            v.push(("Enter", "Edit parameters"));
            v.push(("A", "Add module"));
            v.push(("C", "Connect modules"));
            v.push(("Del/X", "Delete module"));
            v.push(("Ctrl+S", "Save"));
            v.push(("Ctrl+O", "Load"));
            v.push(("Space", "Play/Pause"));
            v.push(("Q", "Quit"));
        },
        AppMode::ParameterEdit => {
            v.push(("Up/Down", "Select parameter"));
            v.push(("Left/Right", "Fine adjust"));
            v.push(("-/+", "Coarse adjust"));
            v.push(("Esc", "Back to modules"));
        },
        AppMode::ModuleAdd => {
            v.push(("O", "Oscillator"));
            v.push(("F", "Filter"));
            v.push(("R", "Reverb"));
            v.push(("D", "Delay"));
            v.push(("U", "Output"));
            v.push(("S", "Sequencer"));
            v.push(("Esc", "Cancel"));
        },
        AppMode::Connection => {
            v.push(("Esc", "Cancel"));
        },
    }
    v
}

impl AppMode {
    /// The one-line key summary of the mode.
    pub fn get_help_text(&self) -> (r: &'static str)
        ensures
            r@ == match *self {
                AppMode::ModuleView => "Tab: Select | Enter: Edit | A: Add | C: Connect | D: Delete | Q: Quit"@,
                AppMode::ParameterEdit => "Up/Down: Select | Left/Right: Fine | -/+: Coarse | Esc: Back"@,
                AppMode::ModuleAdd => "O: Osc | F: Filter | R: Reverb | D: Delay | U: Output | S: Seq | Esc: Cancel"@,
                AppMode::Connection => "Esc: Cancel"@,
            },
    {
        match self {
            AppMode::ModuleView => "Tab: Select | Enter: Edit | A: Add | C: Connect | D: Delete | Q: Quit",
            AppMode::ParameterEdit => "Up/Down: Select | Left/Right: Fine | -/+: Coarse | Esc: Back",
            AppMode::ModuleAdd => "O: Osc | F: Filter | R: Reverb | D: Delay | U: Output | S: Seq | Esc: Cancel",
            AppMode::Connection => "Esc: Cancel",
        }
    }
}

/// A short label for each module type.
pub fn get_module_type_name(module_type: ModuleType) -> (r: &'static str)
    ensures
        r@ == match module_type {
            ModuleType::Oscillator => "Oscillator"@,
            ModuleType::Filter => "Filter"@,
            ModuleType::Reverb => "Reverb"@,
            ModuleType::Delay => "Delay"@,
            ModuleType::Output => "Output"@,
            ModuleType::Sequencer => "Sequencer"@,
        },
{
    match module_type {
        ModuleType::Oscillator => "Oscillator",
        ModuleType::Filter => "Filter",
        ModuleType::Reverb => "Reverb",
        ModuleType::Delay => "Delay",
        ModuleType::Output => "Output",
        ModuleType::Sequencer => "Sequencer",
    }
}

/// A one-glyph marker for each module type.
pub fn get_module_icon(module_type: ModuleType) -> (r: &'static str)
    ensures
        r@ == match module_type {
            ModuleType::Oscillator => "~"@,
            ModuleType::Filter => "#"@,
            ModuleType::Reverb => "%"@,
            ModuleType::Delay => "@"@,
            ModuleType::Output => ">"@,
            ModuleType::Sequencer => "*"@,
        },
{
    match module_type {
        ModuleType::Oscillator => "~",
        ModuleType::Filter => "#",
        ModuleType::Reverb => "%",
        ModuleType::Delay => "@",
        ModuleType::Output => ">",
        ModuleType::Sequencer => "*",
    }
}


/// The two zero-padded digits of a value below 100.
pub open spec fn spec_two_digits(h: int) -> Seq<char> {
    seq![crate::text::digit_char((h / 10) as nat), crate::text::digit_char((h % 10) as nat)]
}

/// How a parameter value is displayed, by the parameter's name:
/// frequencies in Hz or kHz, fractions as percentages, pan as L/R,
/// times in seconds or milliseconds, and selector values by name.
pub open spec fn spec_format_parameter(p: ModuleParameter) -> Seq<char> {
    let v = p.value as int;
    let s = SCALE as int;
    if p.name@ == "Frequency"@ || p.name@ == "Cutoff"@ {
        if v >= 1000 * s {
            spec_decimal((v / (1000 * s)) as nat) + "."@ + seq![
                crate::text::digit_char(((v / (100 * s)) % 10) as nat),
            ] + "kHz"@
        } else if v >= 0 {
            spec_decimal((v / s) as nat) + "Hz"@
        } else {
            "0Hz"@
        }
    } else if p.name@ == "Amplitude"@ || p.name@ == "Volume"@ || p.name@ == "Wet"@ || p.name@
        == "Resonance"@ || p.name@ == "Damping"@ || p.name@ == "Room Size"@ || p.name@
        == "Gate"@ {
        if v >= 0 {
            spec_decimal((v / 10_000) as nat) + "%"@
        } else {
            "0%"@
        }
    } else if p.name@ == "Pan"@ {
        let pv = 200 * v - 100 * s;
        if -s < pv < s {
            "Center"@
        } else if pv >= s {
            "R"@ + spec_decimal((pv / s) as nat)
        } else {
            "L"@ + spec_decimal(((-pv) / s) as nat)
        }
    } else if p.name@ == "Time"@ {
        if v >= s {
            spec_decimal((v / s) as nat) + "."@ + spec_two_digits((v / 10_000) % 100) + "s"@
        } else if v >= 0 {
            spec_decimal((v / 1_000) as nat) + "ms"@
        } else {
            "0ms"@
        }
    } else if p.name@ == "BPM"@ {
        if v >= 0 {
            spec_decimal((v / s) as nat) + " BPM"@
        } else {
            "0 BPM"@
        }
    } else if p.name@ == "Steps"@ {
        if v >= 0 {
            spec_decimal((v / s) as nat) + " steps"@
        } else {
            "0 steps"@
        }
    } else if p.name@ == "Waveform"@ {
        match crate::oscillator::waveform_of_units(v) {
            OscillatorWaveform::Sine => "Sine"@,
            OscillatorWaveform::Sawtooth => "Sawtooth"@,
            OscillatorWaveform::Square => "Square"@,
            OscillatorWaveform::Triangle => "Triangle"@,
        }
    } else if p.name@ == "Type"@ {
        match crate::filter::filter_type_of_units(v) {
            FilterType::Lowpass => "Lowpass"@,
            FilterType::Highpass => "Highpass"@,
            FilterType::Bandpass => "Bandpass"@,
            FilterType::Notch => "Notch"@,
            FilterType::Allpass => "Allpass"@,
        }
    } else {
        if v >= 0 {
            spec_decimal((v / s) as nat) + "."@ + spec_two_digits((v / 10_000) % 100)
        } else {
            "-"@ + spec_decimal(((-v) / s) as nat) + "."@ + spec_two_digits(((-v) / 10_000) % 100)
        }
    }
}

/// Render a parameter value for display.
pub fn format_parameter_value(param: &ModuleParameter) -> (r: String)
    requires
        param.wf(),
    ensures
        r@ == spec_format_parameter(*param),
{
    let v: i64 = param.value;
    let name: &str = param.name.as_str();
    let mut out: String = String::new();
    if str_eq(name, "Frequency") || str_eq(name, "Cutoff") {
        if v >= 1000 * SCALE {
            let whole: u64 = (v as u64) / (1000 * SCALE as u64);
            let tenth: u64 = ((v as u64) / (100 * SCALE as u64)) % 10;
            let digits = u64_to_string(whole);
            out.append(digits.as_str());
            out.append(".");
            let t = u64_to_string(tenth);
            out.append(t.as_str());
            out.append("kHz");
            proof {
                reveal_strlit(".");
                assert(spec_decimal(tenth as nat) =~= seq![crate::text::digit_char(tenth as nat)]);
                assert(out@ =~= spec_format_parameter(*param));
            }
        } else if v >= 0 {
            let digits = u64_to_string((v as u64) / (SCALE as u64));
            out.append(digits.as_str());
            out.append("Hz");
            proof {
                assert(out@ =~= spec_format_parameter(*param));
            }
        } else {
            out.append("0Hz");
            proof {
                assert(out@ =~= spec_format_parameter(*param));
            }
        }
    } else if str_eq(name, "Amplitude") || str_eq(name, "Volume") || str_eq(name, "Wet") || str_eq(
        name,
        "Resonance",
    ) || str_eq(name, "Damping") || str_eq(name, "Room Size") || str_eq(name, "Gate") {
        if v >= 0 {
            let digits = u64_to_string((v as u64) / 10_000);
            out.append(digits.as_str());
            out.append("%");
            proof {
                assert(out@ =~= spec_format_parameter(*param));
            }
        } else {
            out.append("0%");
            proof {
                assert(out@ =~= spec_format_parameter(*param));
            }
        }
    } else if str_eq(name, "Pan") {
        let pv: i64 = 200 * v - 100 * SCALE;
        if -SCALE < pv && pv < SCALE {
            out.append("Center");
            proof {
                assert(out@ =~= spec_format_parameter(*param));
            }
        } else if pv >= SCALE {
            out.append("R");
            let digits = u64_to_string((pv as u64) / (SCALE as u64));
            out.append(digits.as_str());
            proof {
                assert(out@ =~= spec_format_parameter(*param));
            }
        } else {
            out.append("L");
            let digits = u64_to_string(((-pv) as u64) / (SCALE as u64));
            out.append(digits.as_str());
            proof {
                assert(out@ =~= spec_format_parameter(*param));
            }
        }
    } else if str_eq(name, "Time") {
        if v >= SCALE {
            let digits = u64_to_string((v as u64) / (SCALE as u64));
            out.append(digits.as_str());
            out.append(".");
            let hundredths: u64 = ((v as u64) / 10_000) % 100;
            let h = u64_to_string(hundredths / 10);
            out.append(h.as_str());
            let l = u64_to_string(hundredths % 10);
            out.append(l.as_str());
            out.append("s");
            proof {
                reveal_strlit(".");
                assert(spec_decimal((hundredths / 10) as nat) =~= seq![
                    crate::text::digit_char((hundredths / 10) as nat),
                ]);
                assert(spec_decimal((hundredths % 10) as nat) =~= seq![
                    crate::text::digit_char((hundredths % 10) as nat),
                ]);
                assert(out@ =~= spec_format_parameter(*param));
            }
        } else if v >= 0 {
            let digits = u64_to_string((v as u64) / 1_000);
            out.append(digits.as_str());
            out.append("ms");
            proof {
                assert(out@ =~= spec_format_parameter(*param));
            }
        } else {
            out.append("0ms");
            proof {
                assert(out@ =~= spec_format_parameter(*param));
            }
        }
    } else if str_eq(name, "BPM") {
        if v >= 0 {
            let digits = u64_to_string((v as u64) / (SCALE as u64));
            out.append(digits.as_str());
            out.append(" BPM");
            proof {
                assert(out@ =~= spec_format_parameter(*param));
            }
        } else {
            out.append("0 BPM");
            proof {
                assert(out@ =~= spec_format_parameter(*param));
            }
        }
    } else if str_eq(name, "Steps") {
        if v >= 0 {
            let digits = u64_to_string((v as u64) / (SCALE as u64));
            out.append(digits.as_str());
            out.append(" steps");
            proof {
                assert(out@ =~= spec_format_parameter(*param));
            }
        } else {
            out.append("0 steps");
            proof {
                assert(out@ =~= spec_format_parameter(*param));
            }
        }
    } else if str_eq(name, "Waveform") {
        let idx: u64 = if v >= 0 {
            (v as u64) / (SCALE as u64)
        } else {
            0
        };
        proof {
            if v < 0 {
                crate::fixed::lemma_neg_div_neg(v as int, SCALE as int);
            }
        }
        if idx == 1 {
            out.append("Sawtooth");
        } else if idx == 2 {
            out.append("Square");
        } else if idx == 3 {
            out.append("Triangle");
        } else {
            out.append("Sine");
        }
        proof {
            assert(out@ =~= spec_format_parameter(*param));
        }
    } else if str_eq(name, "Type") {
        let idx: u64 = if v >= 0 {
            (v as u64) / (SCALE as u64)
        } else {
            0
        };
        proof {
            if v < 0 {
                crate::fixed::lemma_neg_div_neg(v as int, SCALE as int);
            }
        }
        if idx == 1 {
            out.append("Highpass");
        } else if idx == 2 {
            out.append("Bandpass");
        } else if idx == 3 {
            out.append("Notch");
        } else if idx == 4 {
            out.append("Allpass");
        } else {
            out.append("Lowpass");
        }
        proof {
            assert(out@ =~= spec_format_parameter(*param));
        }
    } else {
        let mag: u64 = if v >= 0 {
            v as u64
        } else {
            (-(v as i128)) as u64
        };
        if v < 0 {
            out.append("-");
        }
        let digits = u64_to_string(mag / (SCALE as u64));
        out.append(digits.as_str());
        out.append(".");
        let hundredths: u64 = (mag / 10_000) % 100;
        let h = u64_to_string(hundredths / 10);
        out.append(h.as_str());
        let l = u64_to_string(hundredths % 10);
        out.append(l.as_str());
        proof {
            reveal_strlit(".");
            reveal_strlit("-");
            assert(spec_decimal((hundredths / 10) as nat) =~= seq![
                crate::text::digit_char((hundredths / 10) as nat),
            ]);
            assert(spec_decimal((hundredths % 10) as nat) =~= seq![
                crate::text::digit_char((hundredths % 10) as nat),
            ]);
            assert(out@ =~= spec_format_parameter(*param));
        }
    }
    out
}

/// The naming prefix each module type gets.
pub open spec fn spec_type_prefix(t: ModuleType) -> Seq<char> {
    match t {
        ModuleType::Oscillator => "OSC-"@,
        ModuleType::Filter => "FILT-"@,
        ModuleType::Reverb => "REV-"@,
        ModuleType::Delay => "DLY-"@,
        ModuleType::Output => "OUT-"@,
        ModuleType::Sequencer => "SEQ-"@,
    }
}

/// The whole control-plane state: the graph, the selection, and the
/// current editing mode.
pub struct SessionState {
    pub graph: AudioGraph,
    pub selected_module: Option<u64>,
    pub selected_parameter: usize,
    pub mode: AppMode,
    pub next_id: u64,
}

impl SessionState {
    pub open spec fn wf(self) -> bool {
        &&& self.graph.wf()
        &&& self.next_id >= 1
    }

    /// A fresh session: one oscillator and one output, ready to play.
    pub fn new(sample_rate: u32) -> (r: SessionState)
        requires
            8_000 <= sample_rate <= 192_000,
        ensures
            r.wf(),
            r.mode == AppMode::ModuleView,
            r.selected_module is None,
            r.graph.nodes@.len() == 2,
    {
        let mut graph = AudioGraph::new(sample_rate);
        let osc = AudioModule::new(ModuleType::Oscillator, "OSC-1", 1);
        let out = AudioModule::new(ModuleType::Output, "MAIN-OUT", 2);
        graph.add_module(osc);
        graph.add_module(out);
        SessionState {
            graph,
            selected_module: None,
            selected_parameter: 0,
            mode: AppMode::ModuleView,
            next_id: 3,
        }
    }

    /// Step the selection to the next module, wrapping at the end;
    /// with no selection yet, select the first module.
    pub fn cycle_selected_module(&mut self)
        requires
            old(self).wf(),
        ensures
            final(self).wf(),
            final(self).graph == old(self).graph,
            final(self).mode == old(self).mode,
            final(self).next_id == old(self).next_id,
            final(self).selected_parameter == old(self).selected_parameter,
            old(self).graph.nodes@.len() == 0 ==> final(self).selected_module == old(self).selected_module,
            old(self).graph.nodes@.len() > 0 && old(self).selected_module is None ==> final(self).selected_module == Some(old(self).graph.nodes@[0].module.id),
    {
        let n: usize = self.graph.nodes.len();
        if n == 0 {
            return ;
        }
        match self.selected_module {
            None => {
                self.selected_module = Some(self.graph.nodes[0].module.id);
            },
            Some(current) => {
                match self.graph.find_node(current) {
                    Some(pos) => {
                        let next: usize = if pos + 1 < n {
                            pos + 1
                        } else {
                            0
                        };
                        self.selected_module = Some(self.graph.nodes[next].module.id);
                    },
                    None => {
                        self.selected_module = Some(self.graph.nodes[0].module.id);
                    },
                }
            },
        }
    }

    /// Nudge the selected parameter of the selected module: that
    /// parameter moves by the scaled-and-clamped adjustment rule and
    /// nothing else in the graph changes; with no selection, nothing
    /// happens at all.
    pub fn adjust_selected_parameter(&mut self, delta: i64)
        requires
            old(self).wf(),
        ensures
            final(self).wf(),
            final(self).mode == old(self).mode,
            final(self).next_id == old(self).next_id,
            final(self).selected_module == old(self).selected_module,
            final(self).selected_parameter == old(self).selected_parameter,
            old(self).selected_module is None ==> final(self).graph == old(self).graph,
            final(self).graph.connections@ == old(self).graph.connections@,
            final(self).graph.output_node == old(self).graph.output_node,
            final(self).graph.sample_rate == old(self).graph.sample_rate,
            final(self).graph.nodes@.len() == old(self).graph.nodes@.len(),
            old(self).selected_module matches Some(id) ==> forall|j: int|
                0 <= j < old(self).graph.nodes@.len() && old(self).graph.nodes@[j].module.id != id
                    ==> final(self).graph.nodes@[j] == old(self).graph.nodes@[j],
            old(self).selected_module matches Some(id) ==> forall|j: int|
                #![all_triggers]
                0 <= j < old(self).graph.nodes@.len() && old(self).graph.nodes@[j].module.id == id
                    && old(self).selected_parameter < old(self).graph.nodes@[j].module.parameters@.len() ==> final(self).graph.nodes@[j].module.parameters@ == old(self).graph.nodes@[j].module.parameters@.update(
                    old(self).selected_parameter as int,
                    crate::params::ModuleParameter {
                        value: crate::params::adjust_result(
                            old(self).graph.nodes@[j].module.parameters@[old(self).selected_parameter as int].value as int,
                            old(self).graph.nodes@[j].module.parameters@[old(self).selected_parameter as int].min as int,
                            old(self).graph.nodes@[j].module.parameters@[old(self).selected_parameter as int].max as int,
                            delta as int,
                        ) as i64,
                        ..old(self).graph.nodes@[j].module.parameters@[old(self).selected_parameter as int]
                    },
                ),
    {
        match self.selected_module {
            Some(id) => {
                let idx: usize = self.selected_parameter;
                self.graph.adjust_node_param(id, idx, delta);
            },
            None => {},
        }
    }

    /// Add a module of the given type with a numbered name and a
    /// fresh id; it becomes part of the graph at once.
    pub fn add_module(&mut self, module_type: ModuleType) -> (r: u64)
        requires
            old(self).wf(),
            old(self).next_id < 0xFFFF_FFFF_FFFF_FFFF,
        ensures
            final(self).wf(),
            r == old(self).next_id,
            has_node(final(self).graph.nodes@, r),
            final(self).next_id == old(self).next_id + 1,
            final(self).mode == old(self).mode,
    {
        let count: u64 = self.count_modules_of_type(module_type);
        let number: u64 = if count < 0xFFFF_FFFF_FFFF_FFFF {
            count + 1
        } else {
            count
        };
        let prefix: &'static str = match module_type {
            ModuleType::Oscillator => "OSC-",
            ModuleType::Filter => "FILT-",
            ModuleType::Reverb => "REV-",
            ModuleType::Delay => "DLY-",
            ModuleType::Output => "OUT-",
            ModuleType::Sequencer => "SEQ-",
        };
        let mut name: String = String::new();
        name.append(prefix);
        let digits: String = u64_to_string(number);
        name.append(digits.as_str());
        proof {
            assert(name@ == spec_type_prefix(module_type) + spec_decimal(number as nat));
        }
        let id: u64 = self.next_id;
        self.next_id = self.next_id + 1;
        let module = AudioModule::new(module_type, name.as_str(), id);
        self.graph.add_module(module)
    }

    /// How many modules of this type the graph holds.
    pub fn count_modules_of_type(&self, module_type: ModuleType) -> (r: u64)
        ensures
            r <= self.graph.nodes@.len(),
    {
        let n: usize = self.graph.nodes.len();
        let mut count: u64 = 0;
        let mut i: usize = 0;
        while i < n
            invariant
                i <= n,
                n == self.graph.nodes@.len(),
                count <= i,
            decreases n - i,
        {
            let same: bool = match (self.graph.nodes[i].module.module_type, module_type) {
                (ModuleType::Oscillator, ModuleType::Oscillator) => true,
                (ModuleType::Filter, ModuleType::Filter) => true,
                (ModuleType::Reverb, ModuleType::Reverb) => true,
                (ModuleType::Delay, ModuleType::Delay) => true,
                (ModuleType::Output, ModuleType::Output) => true,
                (ModuleType::Sequencer, ModuleType::Sequencer) => true,
                _ => false,
            };
            if same {
                count = count + 1;
            }
            i = i + 1;
        }
        count
    }

    /// Dispatch a key press in the current mode.  Returns true when
    /// the session should quit.
    pub fn handle_key(&mut self, key: InputKey) -> (quit: bool)
        requires
            old(self).wf(),
            old(self).next_id < 0xFFFF_FFFF_FFFF_FFFF,
        ensures
            final(self).wf(),
            final(self).next_id >= old(self).next_id,
            quit ==> *final(self) == *old(self),
            quit == (old(self).mode == AppMode::ModuleView && key == InputKey::Char('q')),
    {
        match self.mode {
            AppMode::ModuleView => self.handle_module_view(key),
            AppMode::ParameterEdit => {
                self.handle_parameter_edit(key);
                false
            },
            AppMode::ModuleAdd => {
                self.handle_module_add(key);
                false
            },
            AppMode::Connection => {
                if key == InputKey::Esc {
                    self.mode = AppMode::ModuleView;
                }
                false
            },
        }
    }

    fn handle_module_view(&mut self, key: InputKey) -> (quit: bool)
        requires
            old(self).wf(),
            old(self).mode == AppMode::ModuleView,
        ensures
            final(self).wf(),
            final(self).next_id == old(self).next_id,
            quit ==> *final(self) == *old(self),
            quit == (key == InputKey::Char('q')),
            key == InputKey::Char('a') ==> final(self).mode == AppMode::ModuleAdd,
            key == InputKey::Enter && old(self).selected_module is Some ==> final(self).mode
                == AppMode::ParameterEdit && final(self).selected_parameter == 0,
            key == InputKey::Char('d') ==> (old(self).selected_module matches Some(id)
                ==> !has_node(final(self).graph.nodes@, id) && final(self).selected_module
                is None),
    {
        match key {
            InputKey::Char(c) => {
                if c == 'q' {
                    return true;
                }
                if c == 'a' {
                    self.mode = AppMode::ModuleAdd;
                } else if c == 'c' {
                    match self.selected_module {
                        Some(_) => {
                            self.mode = AppMode::Connection;
                        },
                        None => {},
                    }
                } else if c == 'd' {
                    match self.selected_module {
                        Some(id) => {
                            self.graph.remove_module(id);
                            self.selected_module = None;
                        },
                        None => {},
                    }
                }
                false
            },
            InputKey::Tab => {
                self.cycle_selected_module();
                false
            },
            InputKey::Enter => {
                match self.selected_module {
                    Some(_) => {
                        self.mode = AppMode::ParameterEdit;
                        self.selected_parameter = 0;
                    },
                    None => {},
                }
                false
            },
            _ => false,
        }
    }

    fn handle_parameter_edit(&mut self, key: InputKey)
        requires
            old(self).wf(),
            old(self).mode == AppMode::ParameterEdit,
        ensures
            final(self).wf(),
            final(self).next_id == old(self).next_id,
            key == InputKey::Esc ==> final(self).mode == AppMode::ModuleView,
            key == InputKey::Up && old(self).selected_parameter > 0 ==> final(self).selected_parameter == old(self).selected_parameter - 1,
    {
        match key {
            InputKey::Esc => {
                self.mode = AppMode::ModuleView;
            },
            InputKey::Up => {
                if self.selected_parameter > 0 {
                    self.selected_parameter = self.selected_parameter - 1;
                }
            },
            InputKey::Down => {
                match self.selected_module {
                    Some(id) => {
                        match self.graph.find_node(id) {
                            Some(i) => {
                                let plen: usize = self.graph.nodes[i].module.parameters.len();
                                if plen > 0 && self.selected_parameter < plen - 1 {
                                    self.selected_parameter = self.selected_parameter + 1;
                                }
                            },
                            None => {},
                        }
                    },
                    None => {},
                }
            },
            InputKey::Left => {
                self.adjust_selected_parameter(-10_000);
            },
            InputKey::Right => {
                self.adjust_selected_parameter(10_000);
            },
            InputKey::Char(c) => {
                if c == '-' {
                    self.adjust_selected_parameter(-100_000);
                } else if c == '=' || c == '+' {
                    self.adjust_selected_parameter(100_000);
                }
            },
            _ => {},
        }
    }

    fn handle_module_add(&mut self, key: InputKey)
        requires
            old(self).wf(),
            old(self).mode == AppMode::ModuleAdd,
            old(self).next_id < 0xFFFF_FFFF_FFFF_FFFF,
        ensures
            final(self).wf(),
            final(self).next_id >= old(self).next_id,
            key == InputKey::Esc ==> final(self).mode == AppMode::ModuleView,
            (key == InputKey::Char('o') || key == InputKey::Char('f') || key == InputKey::Char(
                'r',
            ) || key == InputKey::Char('d') || key == InputKey::Char('u') || key
                == InputKey::Char('s')) ==> final(self).mode == AppMode::ModuleView && final(self).next_id == old(self).next_id + 1,
    {
        match key {
            InputKey::Esc => {
                self.mode = AppMode::ModuleView;
            },
            InputKey::Char(c) => {
                if c == 'o' {
                    self.add_module(ModuleType::Oscillator);
                    self.mode = AppMode::ModuleView;
                } else if c == 'f' {
                    self.add_module(ModuleType::Filter);
                    self.mode = AppMode::ModuleView;
                } else if c == 'r' {
                    self.add_module(ModuleType::Reverb);
                    self.mode = AppMode::ModuleView;
                } else if c == 'd' {
                    self.add_module(ModuleType::Delay);
                    self.mode = AppMode::ModuleView;
                } else if c == 'u' {
                    self.add_module(ModuleType::Output);
                    self.mode = AppMode::ModuleView;
                } else if c == 's' {
                    self.add_module(ModuleType::Sequencer);
                    self.mode = AppMode::ModuleView;
                }
            },
            _ => {},
        }
    }
}

/// Accelerating repeats: holding a key grows the adjustment
/// multiplier.
pub struct KeyRepeatHandler {
    pub last_key: Option<InputKey>,
    pub repeat_count: u32,
    pub last_time_ms: u64,
}

/// The multiplier a repeat count earns.
pub open spec fn spec_repeat_multiplier(count: u32) -> int {
    if count <= 2 {
        1
    } else if count <= 5 {
        2
    } else if count <= 10 {
        5
    } else {
        10
    }
}

impl KeyRepeatHandler {
    pub fn new() -> (r: KeyRepeatHandler)
        ensures
            r.last_key is None,
            r.repeat_count == 0,
            r.last_time_ms == 0,
    {
        KeyRepeatHandler { last_key: None, repeat_count: 0, last_time_ms: 0 }
    }

    /// Feed a key press at `now_ms`; quick repeats of the same key
    /// grow the multiplier, anything else resets it.
    pub fn process_key(&mut self, key: InputKey, now_ms: u64) -> (r: u64)
        requires
            old(self).last_time_ms <= now_ms,
        ensures
            final(self).last_key == Some(key),
            final(self).last_time_ms == now_ms,
            old(self).last_key == Some(key) && now_ms - old(self).last_time_ms < 200 ==> final(self).repeat_count as int == (if old(self).repeat_count < 0xFFFF_FFFFu32 {
                old(self).repeat_count + 1
            } else {
                old(self).repeat_count as int
            }),
            !(old(self).last_key == Some(key) && now_ms - old(self).last_time_ms < 200) ==> final(self).repeat_count == 0,
            r as int == spec_repeat_multiplier(final(self).repeat_count),
    {
        let same: bool = match self.last_key {
            Some(k) => k == key,
            None => false,
        };
        if same && now_ms - self.last_time_ms < 200 {
            if self.repeat_count < 0xFFFF_FFFF {
                self.repeat_count = self.repeat_count + 1;
            }
        } else {
            self.repeat_count = 0;
        }
        self.last_key = Some(key);
        self.last_time_ms = now_ms;
        if self.repeat_count <= 2 {
            1
        } else if self.repeat_count <= 5 {
            2
        } else if self.repeat_count <= 10 {
            5
        } else {
            10
        }
    }
}

/// The QWERTY keys that play notes, as on a piano roll.
pub fn key_char_to_midi_note(c: char) -> (r: Option<u8>)
    ensures
        r matches Some(n) ==> n <= 127,
        r == spec_key_note(c),
{
    if c == 'z' {
        Some(60)
    } else if c == 'x' {
        Some(62)
    } else if c == 'c' {
        Some(64)
    } else if c == 'v' {
        Some(65)
    } else if c == 'b' {
        Some(67)
    } else if c == 'n' {
        Some(69)
    } else if c == 'm' {
        Some(71)
    } else if c == 's' {
        Some(61)
    } else if c == 'd' {
        Some(63)
    } else if c == 'g' {
        Some(66)
    } else if c == 'h' {
        Some(68)
    } else if c == 'j' {
        Some(70)
    } else if c == 'q' {
        Some(72)
    } else if c == 'w' {
        Some(74)
    } else if c == 'e' {
        Some(76)
    } else if c == 'r' {
        Some(77)
    } else if c == 't' {
        Some(79)
    } else if c == 'y' {
        Some(81)
    } else if c == 'u' {
        Some(83)
    } else {
        None
    }
}

/// The MIDI note a musical key denotes, if any.
pub open spec fn spec_key_note(c: char) -> Option<u8> {
    if c == 'z' {
        Some(60u8)
    } else if c == 'x' {
        Some(62u8)
    } else if c == 'c' {
        Some(64u8)
    } else if c == 'v' {
        Some(65u8)
    } else if c == 'b' {
        Some(67u8)
    } else if c == 'n' {
        Some(69u8)
    } else if c == 'm' {
        Some(71u8)
    } else if c == 's' {
        Some(61u8)
    } else if c == 'd' {
        Some(63u8)
    } else if c == 'g' {
        Some(66u8)
    } else if c == 'h' {
        Some(68u8)
    } else if c == 'j' {
        Some(70u8)
    } else if c == 'q' {
        Some(72u8)
    } else if c == 'w' {
        Some(74u8)
    } else if c == 'e' {
        Some(76u8)
    } else if c == 'r' {
        Some(77u8)
    } else if c == 't' {
        Some(79u8)
    } else if c == 'y' {
        Some(81u8)
    } else if c == 'u' {
        Some(83u8)
    } else {
        None
    }
}

/// Whether a character plays a note.
pub fn is_musical_key(c: char) -> (r: bool)
    ensures
        r == (spec_key_note(c) is Some),
{
    match key_char_to_midi_note(c) {
        Some(_) => true,
        None => false,
    }
}

} // verus!
