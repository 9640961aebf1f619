// The module-level behaviors: creation, parameter setters, musical
// timing, chains, note parsing and output processing.

use maze_daw::effects::{DelayPresets, EffectChain, MusicalTiming, ReverbPresets};
use maze_daw::filter::{FilterEnvelope, FilterType};
use maze_daw::fixed::SCALE;
use maze_daw::module::{AudioModule, ModuleType};
use maze_daw::oscillator::{midi_to_note_name, parse_note_name, OscillatorWaveform};
use maze_daw::output::{OutputMatrix, OutputMeter, OutputPresets};

#[test]
fn test_reverb_creation() {
    let reverb = AudioModule::new_reverb("Test Reverb", 1);
    assert_eq!(reverb.module_type, ModuleType::Reverb);
}

#[test]
fn test_delay_creation() {
    let delay = AudioModule::new_delay("Test Delay", 1);
    assert_eq!(delay.module_type, ModuleType::Delay);
}

#[test]
fn test_musical_timing() {
    // note lengths in 24ths of a beat: a quarter is 24
    assert_eq!(MusicalTiming::Quarter.multiplier(), 24);
    assert_eq!(MusicalTiming::Eighth.multiplier(), 12);
    assert_eq!(MusicalTiming::DottedQuarter.multiplier(), 36);
}

#[test]
fn test_delay_musical_timing() {
    let mut delay = AudioModule::new_delay("Test", 1);
    delay.set_musical_timing(120 * SCALE, MusicalTiming::Quarter);
    // 60/120 = 0.5 seconds per beat
    assert_eq!(delay.get_delay_time(), 500_000);
}

#[test]
fn test_effect_chain() {
    let mut chain = EffectChain::new();
    chain.add_effect(DelayPresets::echo());
    chain.add_effect(ReverbPresets::small_room());

    assert_eq!(chain.len(), 2);
    assert!(!chain.is_empty());

    chain.move_effect(0, 1);
    assert_eq!(chain.len(), 2);
}

#[test]
fn test_filter_creation() {
    let filter = AudioModule::new_filter("Test Filter", 1);
    assert_eq!(filter.module_type, ModuleType::Filter);
    assert_eq!(filter.name, "Test Filter");
}

#[test]
fn test_filter_parameters() {
    let mut filter = AudioModule::new_filter("Test", 1);
    filter.set_cutoff(1000 * SCALE);
    filter.set_resonance(500_000);
    filter.set_filter_type(FilterType::Lowpass);

    assert_eq!(filter.get_cutoff(), 1000 * SCALE);
    assert_eq!(filter.get_resonance(), 500_000);
    assert_eq!(filter.get_filter_type(), FilterType::Lowpass);
}

#[test]
fn test_filter_envelope() {
    let mut envelope = FilterEnvelope::new(100 * SCALE, 1000 * SCALE, SCALE);

    assert_eq!(envelope.tick(0), 100 * SCALE);
    assert_eq!(envelope.tick(500_000), 550 * SCALE);
    assert_eq!(envelope.tick(500_000), 1000 * SCALE);
    assert!(envelope.is_finished());
}

#[test]
fn test_note_parsing() {
    assert_eq!(parse_note_name("C4"), Some(60));
    assert_eq!(parse_note_name("A4"), Some(69));
    assert_eq!(parse_note_name("C#4"), Some(61));
    assert_eq!(parse_note_name("Bb3"), Some(58));
    assert_eq!(parse_note_name("G0"), Some(19));
}

#[test]
fn test_midi_to_note_name() {
    assert_eq!(midi_to_note_name(60), "C4");
    assert_eq!(midi_to_note_name(69), "A4");
    assert_eq!(midi_to_note_name(61), "C#4");
}

#[test]
fn test_oscillator_frequency_setting() {
    let mut osc = AudioModule::new_oscillator("Test", 1);
    osc.set_frequency(440 * SCALE);
    assert_eq!(osc.get_frequency(), 440 * SCALE);

    osc.set_midi_note(69); // A4 is exactly 440 in the pitch table
    assert_eq!(osc.get_frequency(), 440 * SCALE);
}

#[test]
fn test_oscillator_waveform() {
    let mut osc = AudioModule::new_oscillator("Test", 1);
    osc.set_waveform(OscillatorWaveform::Sawtooth);
    assert_eq!(osc.get_waveform(), OscillatorWaveform::Sawtooth);
}

#[test]
fn test_output_creation() {
    let output = AudioModule::new_output("Test Output", 1);
    assert_eq!(output.module_type, ModuleType::Output);
    assert_eq!(output.name, "Test Output");
}

#[test]
fn test_volume_setting() {
    let mut output = AudioModule::new_output("Test", 1);
    output.set_volume(500_000);
    assert_eq!(output.get_volume(), 500_000);
}

#[test]
fn test_pan_setting() {
    let mut output = AudioModule::new_output("Test", 1);
    output.set_pan(750_000);
    assert_eq!(output.get_pan(), 750_000);

    output.set_pan_percent(50 * SCALE); // 50% right
    assert_eq!(output.get_pan(), 750_000);
}

#[test]
fn test_stereo_processing() {
    let mut output = AudioModule::new_output("Test", 1);
    output.set_volume(500_000);
    output.set_pan(500_000); // center

    let (left, right) = output.process_mono_to_stereo(SCALE);
    // sqrt(0.5) * 0.5 of full scale, exactly in integer arithmetic
    let expected = (left as f64) / (SCALE as f64);
    assert!((expected - 0.3536).abs() < 0.01);
    assert_eq!(left, right);
}

#[test]
fn test_muting() {
    let mut output = AudioModule::new_output("Test", 1);
    assert!(!output.is_muted());

    output.mute();
    assert!(output.is_muted());

    let (left, right) = output.process_mono_to_stereo(SCALE);
    assert_eq!(left, 0);
    assert_eq!(right, 0);
}

#[test]
fn test_output_meter() {
    let mut meter = OutputMeter::new(10);
    meter.process(500_000, -500_000, 10_000);

    assert!(meter.peak_left > 0);
    assert!(meter.peak_right > 0);
    assert!(meter.rms_left > 0);
    assert!(meter.rms_right > 0);
}

#[test]
fn test_output_matrix() {
    let mut matrix = OutputMatrix::new();
    matrix.add_output(OutputPresets::main_out());
    matrix.add_output(OutputPresets::headphone_out());

    let input1 = matrix.add_input();
    let input2 = matrix.add_input();

    matrix.set_routing(input1, 0, SCALE);
    matrix.set_routing(input2, 1, 500_000);

    let outputs = matrix.process(&vec![800_000, 600_000]);
    assert_eq!(outputs.len(), 2);
}
