// Control-plane behaviors: session modes, envelopes, presets,
// validation and the small text utilities.

use maze_daw::config::{validate_project_config, ModulePreset, PresetBank, ProjectConfig,
    RecentProjects};
use maze_daw::envelope::{ADSREnvelope, EnvelopeState};
use maze_daw::fixed::SCALE;
use maze_daw::graph::Connection;
use maze_daw::module::{AudioModule, ModuleType};
use maze_daw::oscillator::parse_note_name;
use maze_daw::pitch::midi_to_freq_units;
use maze_daw::session::{
    is_action_valid_for_mode, key_to_action, AppMode, InputAction, InputKey, KeyRepeatHandler,
    SessionState,
};
use maze_daw::config::AppSettings;
use maze_daw::graph::{AudioGraph, GraphError};
use maze_daw::params::ModuleParameter;
use maze_daw::sequencer::{SequencerPresets, StepResolution, StepSequencer};
use maze_daw::session::format_parameter_value;
use maze_daw::text::u64_to_string;

#[test]
fn note_names_that_denote_nothing_are_rejected() {
    assert_eq!(parse_note_name("H4"), None);
    assert_eq!(parse_note_name("C"), None);
    assert_eq!(parse_note_name("C#"), None);
    assert_eq!(parse_note_name("C99"), None);
    assert_eq!(parse_note_name("C-2"), None);
    assert_eq!(parse_note_name(""), None);
}

#[test]
fn pitch_table_doubles_by_octave() {
    assert_eq!(midi_to_freq_units(69), 440 * SCALE);
    assert_eq!(midi_to_freq_units(57), 220 * SCALE);
    assert_eq!(midi_to_freq_units(81), 880 * SCALE);
}

#[test]
fn decimal_rendering_is_exact() {
    assert_eq!(u64_to_string(0), "0");
    assert_eq!(u64_to_string(7), "7");
    assert_eq!(u64_to_string(1234567890), "1234567890");
    assert_eq!(u64_to_string(u64::MAX), "18446744073709551615");
}

#[test]
fn adsr_walks_through_its_states() {
    let sr: u32 = 44_100;
    // 10 ms attack, 10 ms decay, sustain 0.5, 10 ms release
    let mut env = ADSREnvelope::new(10_000, 10_000, 500_000, 10_000, sr);
    assert_eq!(env.get_state(), EnvelopeState::Idle);
    assert!(!env.is_active());
    assert_eq!(env.tick(), 0);

    env.note_on();
    assert_eq!(env.get_state(), EnvelopeState::Attack);
    let mut last: i64 = -1;
    for _ in 0..441 {
        let level = env.tick();
        assert!(level >= last);
        last = level;
    }
    // attack finished: at full scale, now decaying
    assert_eq!(env.tick(), SCALE);
    assert_eq!(env.get_state(), EnvelopeState::Decay);
    for _ in 0..500 {
        env.tick();
    }
    assert_eq!(env.get_state(), EnvelopeState::Sustain);
    assert_eq!(env.tick(), 500_000);

    env.note_off();
    assert_eq!(env.get_state(), EnvelopeState::Release);
    for _ in 0..500 {
        env.tick();
    }
    assert_eq!(env.get_state(), EnvelopeState::Idle);
    assert_eq!(env.tick(), 0);
}

#[test]
fn key_actions_respect_modes() {
    assert_eq!(key_to_action(InputKey::Char('q')), InputAction::Quit);
    assert_eq!(key_to_action(InputKey::Ctrl('s')), InputAction::SaveProject);
    assert_eq!(key_to_action(InputKey::Char('!')), InputAction::Unknown);
    assert!(is_action_valid_for_mode(&InputAction::Quit, &AppMode::ModuleView));
    assert!(is_action_valid_for_mode(&InputAction::ExitMode, &AppMode::Connection));
    assert!(!is_action_valid_for_mode(&InputAction::AddOscillator, &AppMode::ModuleView));
    assert!(!is_action_valid_for_mode(&InputAction::NextModule, &AppMode::ParameterEdit));
}

#[test]
fn session_mode_machine_follows_the_keys() {
    let mut s = SessionState::new(44_100);
    assert_eq!(s.mode, AppMode::ModuleView);
    assert!(!s.handle_key(InputKey::Char('a')));
    assert_eq!(s.mode, AppMode::ModuleAdd);
    assert!(!s.handle_key(InputKey::Char('o')));
    assert_eq!(s.mode, AppMode::ModuleView);
    assert_eq!(s.graph.nodes.len(), 3);
    // the new oscillator got a numbered name
    assert_eq!(s.graph.nodes[2].module.name, "OSC-2");
    assert!(!s.handle_key(InputKey::Tab));
    assert!(s.selected_module.is_some());
    assert!(!s.handle_key(InputKey::Enter));
    assert_eq!(s.mode, AppMode::ParameterEdit);
    assert!(!s.handle_key(InputKey::Esc));
    assert_eq!(s.mode, AppMode::ModuleView);
    assert!(s.handle_key(InputKey::Char('q')));
}

#[test]
fn deleting_the_selected_module_clears_the_selection() {
    let mut s = SessionState::new(44_100);
    s.handle_key(InputKey::Tab);
    let id = s.selected_module.unwrap();
    s.handle_key(InputKey::Char('d'));
    assert!(s.selected_module.is_none());
    assert!(s.graph.find_node(id).is_none());
}

#[test]
fn key_repeats_accelerate() {
    let mut h = KeyRepeatHandler::new();
    let mut m = 0;
    for i in 0..12u64 {
        m = h.process_key(InputKey::Right, 100 * i + 100);
    }
    assert_eq!(m, 10);
    // a pause resets the run
    let m2 = h.process_key(InputKey::Right, 10_000);
    assert_eq!(m2, 1);
    // a different key resets too
    h.process_key(InputKey::Right, 10_050);
    let m3 = h.process_key(InputKey::Left, 10_060);
    assert_eq!(m3, 1);
}

#[test]
fn presets_capture_and_reapply_values() {
    let mut osc = AudioModule::new_oscillator("Lead", 1);
    osc.set_frequency(880 * SCALE);
    osc.set_amplitude(250_000);
    let preset = ModulePreset::from_module(&osc, "bright");
    let mut other = AudioModule::new_oscillator("Other", 2);
    assert!(preset.apply_to_module(&mut other).is_ok());
    assert_eq!(other.get_frequency(), 880 * SCALE);
    assert_eq!(other.get_amplitude(), 250_000);
    // a preset of another type is refused unchanged
    let mut filt = AudioModule::new_filter("F", 3);
    assert!(preset.apply_to_module(&mut filt).is_err());
    assert_eq!(filt.get_cutoff(), 1000 * SCALE);
}

#[test]
fn preset_banks_find_and_forget_by_name() {
    let mut bank = PresetBank::new("factory");
    let osc = AudioModule::new_oscillator("Lead", 1);
    bank.add_preset(ModulePreset::from_module(&osc, "one"));
    bank.add_preset(ModulePreset::from_module(&osc, "two"));
    assert!(bank.get_preset("one").is_some());
    bank.remove_preset("one");
    assert!(bank.get_preset("one").is_none());
    assert!(bank.get_preset("two").is_some());
}

#[test]
fn recent_projects_stay_capped_and_deduplicated() {
    let mut recents = RecentProjects::new();
    for i in 0..15u64 {
        let name = u64_to_string(i);
        recents.add_project(name.as_str(), name.as_str());
    }
    assert_eq!(recents.get_projects().len(), 10);
    assert_eq!(recents.get_projects()[0].name, "14");
    recents.add_project("14", "14");
    assert_eq!(recents.get_projects().len(), 10);
}

#[test]
fn project_validation_counts_dangling_endpoints() {
    let mut cfg = ProjectConfig::new("check");
    cfg.add_module(AudioModule::new_oscillator("O", 1));
    assert_eq!(validate_project_config(&cfg).len(), 0);
    cfg.connections.push(Connection { from_module: 1, from_output: 0, to_module: 9, to_input: 0 });
    assert_eq!(validate_project_config(&cfg).len(), 1);
    cfg.sample_rate = 1;
    assert_eq!(validate_project_config(&cfg).len(), 2);
}

#[test]
fn project_config_mirrors_graph_edits() {
    let mut cfg = ProjectConfig::new("p");
    cfg.add_module(AudioModule::new_oscillator("O", 1));
    cfg.add_module(AudioModule::new_output("Out", 2));
    let c = Connection { from_module: 1, from_output: 0, to_module: 2, to_input: 0 };
    assert!(cfg.add_connection(c).is_ok());
    assert!(cfg.add_connection(c).is_err());
    cfg.remove_module(1);
    assert_eq!(cfg.connections.len(), 0);
    assert_eq!(cfg.modules.len(), 1);
    assert_eq!(cfg.modules[0].module_type, ModuleType::Output);
}

#[test]
fn factory_defaults_match_the_table() {
    let osc = AudioModule::new(ModuleType::Oscillator, "o", 1);
    assert_eq!(osc.parameters[0].name, "Frequency");
    assert_eq!(osc.parameters[0].value, 440 * SCALE);
    assert_eq!(osc.parameters[0].min, 20 * SCALE);
    assert_eq!(osc.parameters[0].max, 20_000 * SCALE);
    assert_eq!(osc.input_count, 0);
    assert_eq!(osc.output_count, 1);
    let seq = AudioModule::new(ModuleType::Sequencer, "s", 2);
    assert_eq!(seq.parameters[0].name, "BPM");
    assert_eq!(seq.parameters[0].value, 120 * SCALE);
    assert_eq!(seq.parameters[1].name, "Steps");
    assert_eq!(seq.parameters[2].name, "Gate");
    let out = AudioModule::new(ModuleType::Output, "u", 3);
    assert_eq!(out.input_count, 2);
    assert_eq!(out.output_count, 0);
}

#[test]
fn default_settings_are_the_documented_ones() {
    let s = AppSettings::default_settings();
    assert_eq!(s.audio.sample_rate, 44_100);
    assert_eq!(s.audio.buffer_size, 256);
    assert_eq!(s.ui.theme, "default");
    assert_eq!(s.ui.auto_save_interval, 300);
    assert_eq!(s.keybindings.quit, "q");
    assert_eq!(s.keybindings.parameter_edit, "Enter");
}

#[test]
fn parameter_display_matches_the_format_table() {
    let freq = ModuleParameter::new("Frequency", 440 * SCALE, 20 * SCALE, 20_000 * SCALE);
    assert_eq!(format_parameter_value(&freq), "440Hz");
    let high = ModuleParameter::new("Cutoff", 12_500 * SCALE, 20 * SCALE, 20_000 * SCALE);
    assert_eq!(format_parameter_value(&high), "12.5kHz");
    let wet = ModuleParameter::new("Wet", 300_000, 0, SCALE);
    assert_eq!(format_parameter_value(&wet), "30%");
    let pan_center = ModuleParameter::new("Pan", 500_000, 0, SCALE);
    assert_eq!(format_parameter_value(&pan_center), "Center");
    let pan_right = ModuleParameter::new("Pan", 750_000, 0, SCALE);
    assert_eq!(format_parameter_value(&pan_right), "R50");
    let pan_left = ModuleParameter::new("Pan", 0, 0, SCALE);
    assert_eq!(format_parameter_value(&pan_left), "L100");
    let short_time = ModuleParameter::new("Time", 250_000, 10_000, 2 * SCALE);
    assert_eq!(format_parameter_value(&short_time), "250ms");
    let long_time = ModuleParameter::new("Time", 1_500_000, 10_000, 2 * SCALE);
    assert_eq!(format_parameter_value(&long_time), "1.50s");
    let bpm = ModuleParameter::new("BPM", 120 * SCALE, 60 * SCALE, 200 * SCALE);
    assert_eq!(format_parameter_value(&bpm), "120 BPM");
    let wave = ModuleParameter::new("Waveform", 2 * SCALE, 0, 3 * SCALE);
    assert_eq!(format_parameter_value(&wave), "Square");
    let other = ModuleParameter::new("Detail", 1_230_000, 0, 2 * SCALE);
    assert_eq!(format_parameter_value(&other), "1.23");
}

#[test]
fn melodic_presets_load_their_rows() {
    let m = SequencerPresets::melody_seq();
    assert_eq!(m.steps.len(), 16);
    assert_eq!(m.step_resolution, StepResolution::Eighth);
    assert!(m.steps[0].active);
    assert_eq!(m.steps[0].note, Some(60));
    assert!(!m.steps[7].active);
    let b = SequencerPresets::bass_seq();
    assert_eq!(b.steps[0].note, Some(36));
    assert_eq!(b.steps[0].velocity, 900_000);
    let a = SequencerPresets::ambient_arp();
    assert_eq!(a.steps.len(), 8);
    assert_eq!(a.bpm_units, 80_000_000);
}

#[test]
fn validate_judges_like_add() {
    let mut g = AudioGraph::new(44_100);
    g.add_module(AudioModule::new_oscillator("O", 1));
    g.add_module(AudioModule::new_output("Out", 2));
    assert_eq!(g.validate_connection(1, 0, 2, 0), Ok(()));
    assert_eq!(g.validate_connection(9, 0, 2, 0), Err(GraphError::InvalidReference));
    assert_eq!(g.validate_connection(1, 5, 2, 0), Err(GraphError::PortOutOfRange));
    // judging changed nothing
    assert_eq!(g.get_connections().len(), 0);
}

#[test]
fn sequencer_resize_keeps_the_front() {
    let mut seq = StepSequencer::new(16, 44_100);
    seq.toggle_step(3);
    seq.resize(32);
    assert_eq!(seq.steps.len(), 32);
    assert!(seq.steps[3].active);
    seq.resize(2);
    assert_eq!(seq.steps.len(), 2);
    assert_eq!(seq.current_step, 0);
}

#[test]
fn the_wf_checker_judges_exactly() {
    let good = AudioModule::new_oscillator("O", 1);
    assert!(good.check_wf());
    let mut broken = AudioModule::new_oscillator("O", 1);
    broken.parameters[0].value = broken.parameters[0].max + 1;
    assert!(!broken.check_wf());
    let mut wrong_ports = AudioModule::new_oscillator("O", 1);
    wrong_ports.input_count = 5;
    assert!(!wrong_ports.check_wf());
}

#[test]
fn restorability_is_decided_up_front() {
    let mut cfg = ProjectConfig::new("p");
    cfg.add_module(AudioModule::new_oscillator("O", 1));
    cfg.add_module(AudioModule::new_output("Out", 2));
    assert!(cfg.ready_to_restore());
    cfg.add_module(AudioModule::new_filter("F", 1)); // duplicate id
    assert!(!cfg.ready_to_restore());
}

#[test]
fn preset_values_clamp_into_each_range() {
    // a preset captured from a wide-range parameter clamps when
    // applied to a narrower one of the same name
    let mut osc = AudioModule::new_oscillator("A", 1);
    osc.set_frequency(19_000 * SCALE);
    let preset = ModulePreset::from_module(&osc, "high");
    let mut other = AudioModule::new_oscillator("B", 2);
    assert!(preset.apply_to_module(&mut other).is_ok());
    assert_eq!(other.get_frequency(), 19_000 * SCALE);
    // amplitude is carried over untouched names stay put
    assert_eq!(other.get_waveform(), maze_daw::oscillator::OscillatorWaveform::Sine);
}
