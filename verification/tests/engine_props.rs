// End-to-end behaviors of the engine: topology validation, the cycle
// check, per-sample DSP output, sequencer timing, and the project
// round trip.

use maze_daw::config::{restore, snapshot};
use maze_daw::dsp::{DelayUnit, DspUnit, OscillatorUnit, OutputUnit};
use maze_daw::fixed::SCALE;
use maze_daw::graph::{AudioGraph, Connection, GraphError};
use maze_daw::module::AudioModule;
use maze_daw::module::ModuleType;
use maze_daw::oscillator::OscillatorWaveform;
use maze_daw::params::ModuleParameter;
use maze_daw::sequencer::{SequenceStep, StepSequencer};

fn conn(from: u64, fo: usize, to: u64, ti: usize) -> Connection {
    Connection { from_module: from, from_output: fo, to_module: to, to_input: ti }
}

#[test]
fn cycle_is_detected_and_state_unchanged() {
    let mut g = AudioGraph::new(44_100);
    g.add_module(AudioModule::new_filter("F1", 1));
    g.add_module(AudioModule::new_filter("F2", 2));
    assert_eq!(g.add_connection(conn(1, 0, 2, 0)), Ok(()));
    let before = g.get_connections().len();
    // the destination already reaches the source: refused, untouched
    assert_eq!(g.add_connection(conn(2, 0, 1, 0)), Err(GraphError::CycleDetected));
    assert_eq!(g.get_connections().len(), before);
    // a self-connection is a cycle as well
    assert_eq!(g.add_connection(conn(1, 0, 1, 0)), Err(GraphError::CycleDetected));
}

#[test]
fn longer_cycle_is_detected() {
    let mut g = AudioGraph::new(44_100);
    g.add_module(AudioModule::new_filter("F1", 1));
    g.add_module(AudioModule::new_filter("F2", 2));
    g.add_module(AudioModule::new_reverb("R", 3));
    assert_eq!(g.add_connection(conn(1, 0, 2, 0)), Ok(()));
    assert_eq!(g.add_connection(conn(2, 0, 3, 0)), Ok(()));
    assert_eq!(g.add_connection(conn(3, 0, 1, 0)), Err(GraphError::CycleDetected));
}

#[test]
fn every_error_variant_comes_from_its_input() {
    let mut g = AudioGraph::new(44_100);
    g.add_module(AudioModule::new_oscillator("O", 1));
    g.add_module(AudioModule::new_output("Out", 2));
    // missing endpoint
    assert_eq!(g.add_connection(conn(1, 0, 99, 0)), Err(GraphError::InvalidReference));
    assert_eq!(g.add_connection(conn(99, 0, 2, 0)), Err(GraphError::InvalidReference));
    // ports out of range: the oscillator has one output, the output
    // module two inputs
    assert_eq!(g.add_connection(conn(1, 1, 2, 0)), Err(GraphError::PortOutOfRange));
    assert_eq!(g.add_connection(conn(1, 0, 2, 2)), Err(GraphError::PortOutOfRange));
    // a valid link goes through once
    assert_eq!(g.add_connection(conn(1, 0, 2, 0)), Ok(()));
    assert_eq!(g.add_connection(conn(1, 0, 2, 0)), Err(GraphError::DuplicateConnection));
    // the input port is taken by another source
    g.add_module(AudioModule::new_oscillator("O2", 3));
    assert_eq!(g.add_connection(conn(3, 0, 2, 0)), Err(GraphError::InputOccupied));
    assert_eq!(g.add_connection(conn(3, 0, 2, 1)), Ok(()));
}

#[test]
fn removing_a_module_removes_exactly_its_connections() {
    let mut g = AudioGraph::new(44_100);
    g.add_module(AudioModule::new_oscillator("O", 1));
    g.add_module(AudioModule::new_filter("F", 2));
    g.add_module(AudioModule::new_output("Out", 3));
    g.add_module(AudioModule::new_oscillator("O2", 4));
    assert_eq!(g.add_connection(conn(1, 0, 2, 0)), Ok(()));
    assert_eq!(g.add_connection(conn(2, 0, 3, 0)), Ok(()));
    assert_eq!(g.add_connection(conn(4, 0, 3, 1)), Ok(()));
    g.remove_module(2);
    // the untouched connection survives; both touching ones are gone
    let remaining = g.get_connections();
    assert_eq!(remaining.len(), 1);
    assert_eq!(remaining[0], conn(4, 0, 3, 1));
}

#[test]
fn remove_connection_is_idempotent() {
    let mut g = AudioGraph::new(44_100);
    g.add_module(AudioModule::new_oscillator("O", 1));
    g.add_module(AudioModule::new_output("Out", 2));
    assert_eq!(g.add_connection(conn(1, 0, 2, 0)), Ok(()));
    g.remove_connection(1, 0, 2, 0);
    assert_eq!(g.get_connections().len(), 0);
    g.remove_connection(1, 0, 2, 0);
    assert_eq!(g.get_connections().len(), 0);
}

#[test]
fn adjust_always_stays_in_range() {
    let mut p = ModuleParameter::new("Frequency", 440 * SCALE, 20 * SCALE, 20_000 * SCALE);
    p.adjust(i64::MAX);
    assert_eq!(p.value, 20_000 * SCALE);
    p.adjust(i64::MIN);
    assert_eq!(p.value, 20 * SCALE);
    p.adjust(0);
    assert_eq!(p.value, 20 * SCALE);
    assert_eq!(p.normalized(), 0);
    p.set(20_000 * SCALE);
    assert_eq!(p.normalized(), SCALE);
    p.set(10_010 * SCALE);
    let n = p.normalized();
    assert!(0 <= n && n <= SCALE);
}

#[test]
fn adjust_scales_by_range_width() {
    // a delta of 0.01 moves a [0,1] range by 0.01 and a [0,100]
    // range by 1.0
    let mut narrow = ModuleParameter::new("Wet", 500_000, 0, SCALE);
    narrow.adjust(10_000);
    assert_eq!(narrow.value, 510_000);
    let mut wide = ModuleParameter::new("Spread", 50 * SCALE, 0, 100 * SCALE);
    wide.adjust(10_000);
    assert_eq!(wide.value, 51 * SCALE);
}

#[test]
fn sine_starts_at_zero_and_tracks_the_sine() {
    let sr: u32 = 44_100;
    let mut osc = OscillatorUnit::new(440 * SCALE, OscillatorWaveform::Sine, SCALE, sr);
    let mut max_err: f64 = 0.0;
    for n in 0..256u32 {
        let s = osc.tick();
        if n == 0 {
            assert_eq!(s, 0);
        }
        let ideal = (2.0 * std::f64::consts::PI * 440.0 * (n as f64) / (sr as f64)).sin();
        let got = (s as f64) / (SCALE as f64);
        let err = (got - ideal).abs();
        if err > max_err {
            max_err = err;
        }
    }
    assert!(max_err < 0.01);
}

#[test]
fn pure_delay_shifts_by_its_length() {
    let sr: u32 = 44_100;
    // 0.01 s at 44100 is 441 samples
    let mut d = DelayUnit::new(10_000, 0, SCALE, sr);
    assert_eq!(d.delay_samples, 441);
    let mut inputs: Vec<i64> = Vec::new();
    for n in 0..1000i64 {
        inputs.push((n % 97) * 1000 - 48_000);
    }
    for (n, &x) in inputs.iter().enumerate() {
        let out = d.tick(x);
        if n >= 441 {
            assert_eq!(out, inputs[n - 441]);
        } else {
            assert_eq!(out, 0);
        }
    }
}

#[test]
fn sequencer_fires_sixteen_times_in_two_seconds() {
    // BPM 120, sixteenth resolution, 16 steps, swing 0, 44100 Hz:
    // 16 triggers over 2.0 s, 0.125 s apart within one sample
    let mut seq = StepSequencer::new(16, 44_100);
    seq.set_bpm(120 * SCALE);
    let pattern: Vec<bool> = vec![true; 16];
    seq.set_pattern(&pattern);
    seq.play();
    let mut fire_samples: Vec<usize> = Vec::new();
    for n in 0..88_200usize {
        if let Some(e) = seq.tick() {
            assert!(e.velocity > 0);
            fire_samples.push(n);
        }
    }
    assert_eq!(fire_samples.len(), 16);
    for w in fire_samples.windows(2) {
        let gap = w[1] - w[0];
        // 0.125 s is 5512.5 samples
        assert!(gap == 5512 || gap == 5513);
    }
}

#[test]
fn inactive_steps_never_fire_and_certain_steps_always_fire() {
    let certain = SequenceStep::new(true);
    for _ in 0..64 {
        assert!(certain.should_trigger());
    }
    let silent = SequenceStep::new(false);
    for _ in 0..64 {
        assert!(!silent.should_trigger());
    }
    let never = SequenceStep::new(true).with_probability(0);
    for _ in 0..64 {
        assert!(!never.should_trigger());
    }
}

#[test]
fn sequencer_stops_at_the_end_without_looping() {
    let mut seq = StepSequencer::new(4, 44_100);
    seq.loop_enabled = false;
    let pattern: Vec<bool> = vec![true; 4];
    seq.set_pattern(&pattern);
    seq.play();
    let mut fired = 0;
    for _ in 0..88_200usize {
        if seq.tick().is_some() {
            fired += 1;
        }
    }
    assert_eq!(fired, 4);
    assert!(!seq.is_playing);
}

#[test]
fn end_to_end_oscillator_to_output() {
    let sr: u32 = 44_100;
    let mut g = AudioGraph::new(sr);
    let mut osc = AudioModule::new_oscillator("OSC", 1);
    osc.set_frequency(440 * SCALE);
    osc.set_amplitude(SCALE);
    osc.set_waveform(OscillatorWaveform::Sine);
    let mut out = AudioModule::new_output("OUT", 2);
    out.set_volume(SCALE);
    out.set_pan(500_000);
    g.add_module(osc);
    g.add_module(out);
    assert_eq!(g.add_connection(conn(1, 0, 2, 0)), Ok(()));
    let frames = g.process(128);
    assert_eq!(frames.len(), 128);
    let root_half = 0.5f64.sqrt();
    for (n, &(l, r)) in frames.iter().enumerate() {
        assert_eq!(l, r);
        let ideal = (2.0 * std::f64::consts::PI * 440.0 * (n as f64) / (sr as f64)).sin()
            * root_half;
        let got = (l as f64) / (SCALE as f64);
        assert!((got - ideal).abs() < 0.01);
    }
}

#[test]
fn no_output_node_yields_silence() {
    let mut g = AudioGraph::new(44_100);
    let mut osc = AudioModule::new_oscillator("OSC", 1);
    osc.set_amplitude(SCALE);
    g.add_module(osc);
    let frames = g.process(32);
    assert_eq!(frames.len(), 32);
    for &(l, r) in frames.iter() {
        assert_eq!((l, r), (0, 0));
    }
}

#[test]
fn snapshot_restore_reproduces_the_topology() {
    let mut g = AudioGraph::new(48_000);
    let mut osc = AudioModule::new_oscillator("OSC", 1);
    osc.set_frequency(523 * SCALE);
    let mut filt = AudioModule::new_filter("FILT", 2);
    filt.set_cutoff(800 * SCALE);
    filt.set_resonance(250_000);
    let out = AudioModule::new_output("OUT", 3);
    g.add_module(osc);
    g.add_module(filt);
    g.add_module(out);
    assert_eq!(g.add_connection(conn(1, 0, 2, 0)), Ok(()));
    assert_eq!(g.add_connection(conn(2, 0, 3, 0)), Ok(()));

    let cfg = snapshot(&g, "roundtrip");
    let (restored, rejected) = restore(&cfg);
    assert_eq!(rejected, 0);
    assert_eq!(restored.nodes.len(), 3);
    for i in 0..3 {
        let a = &restored.nodes[i].module;
        let b = &g.nodes[i].module;
        assert_eq!(a.id, b.id);
        assert_eq!(a.module_type, b.module_type);
        assert_eq!(a.name, b.name);
        assert_eq!(a.parameters.len(), b.parameters.len());
        for p in 0..a.parameters.len() {
            assert_eq!(a.parameters[p].name, b.parameters[p].name);
            assert_eq!(a.parameters[p].value, b.parameters[p].value);
            assert_eq!(a.parameters[p].min, b.parameters[p].min);
            assert_eq!(a.parameters[p].max, b.parameters[p].max);
        }
    }
    assert_eq!(restored.get_connections().len(), 2);
    assert_eq!(restored.get_connections()[0], conn(1, 0, 2, 0));
    assert_eq!(restored.get_connections()[1], conn(2, 0, 3, 0));
}

#[test]
fn restore_filters_malformed_connections() {
    let mut g = AudioGraph::new(44_100);
    g.add_module(AudioModule::new_oscillator("OSC", 1));
    g.add_module(AudioModule::new_output("OUT", 2));
    let mut cfg = snapshot(&g, "broken");
    // persisted data gone bad: an endpoint that no module carries
    cfg.connections.push(conn(1, 0, 77, 0));
    let (restored, rejected) = restore(&cfg);
    assert_eq!(rejected, 1);
    assert_eq!(restored.get_connections().len(), 0);
    assert_eq!(restored.nodes.len(), 2);
}

#[test]
fn connectable_outputs_exclude_cycle_makers() {
    let mut g = AudioGraph::new(44_100);
    g.add_module(AudioModule::new_oscillator("O", 1));
    g.add_module(AudioModule::new_filter("F", 2));
    g.add_module(AudioModule::new_output("Out", 3));
    assert_eq!(g.add_connection(conn(1, 0, 2, 0)), Ok(()));
    assert_eq!(g.add_connection(conn(2, 0, 3, 0)), Ok(()));
    // candidates feeding the filter's input: the oscillator feeding
    // it again is fine, but nothing downstream of the filter may
    let candidates = g.get_connectable_outputs(2, 0);
    assert!(candidates.contains(&(1, 0)));
    assert!(!candidates.iter().any(|&(id, _)| id == 2));
    assert!(!candidates.iter().any(|&(id, _)| id == 3));
}

#[test]
fn most_recent_output_wins() {
    let mut g = AudioGraph::new(44_100);
    g.add_module(AudioModule::new_output("A", 1));
    g.add_module(AudioModule::new_output("B", 2));
    assert_eq!(g.output_node, Some(2));
    g.remove_module(2);
    assert_eq!(g.output_node, None);
}

#[test]
fn output_unit_is_equal_power_at_center() {
    let out = OutputUnit::new(SCALE, 500_000);
    let (l, r) = out.tick(SCALE, 0);
    assert_eq!(l, r);
    let got = (l as f64) / (SCALE as f64);
    assert!((got - 0.5f64.sqrt()).abs() < 0.01);
}

#[test]
fn parameter_updates_preserve_internal_state() {
    let mut g = AudioGraph::new(44_100);
    let mut osc = AudioModule::new_oscillator("O", 1);
    osc.set_amplitude(SCALE);
    let filt = AudioModule::new_filter("F", 2);
    let out = AudioModule::new_output("Out", 3);
    g.add_module(osc);
    g.add_module(filt);
    g.add_module(out);
    assert_eq!(g.add_connection(conn(1, 0, 2, 0)), Ok(()));
    assert_eq!(g.add_connection(conn(2, 0, 3, 0)), Ok(()));
    g.process(64);
    let (low_before, band_before) = match &g.nodes[1].unit {
        DspUnit::Filter(f) => (f.low, f.band),
        _ => panic!("expected a filter unit"),
    };
    assert!(low_before != 0 || band_before != 0);
    // an incremental parameter edit must not clear the filter memory
    let mut edited = AudioModule::new_filter("F", 2);
    edited.set_cutoff(2_000 * SCALE);
    assert!(g.update_module(&edited).is_ok());
    match &g.nodes[1].unit {
        DspUnit::Filter(f) => {
            assert_eq!(f.low, low_before);
            assert_eq!(f.band, band_before);
            assert_eq!(f.cutoff, 2_000 * SCALE);
        }
        _ => panic!("expected a filter unit"),
    }
}

#[test]
fn swing_stretches_odd_steps_only() {
    let mut seq = StepSequencer::new(4, 44_100);
    seq.set_bpm(120 * SCALE);
    seq.set_swing(SCALE); // full swing: odd steps half again as long
    let pattern: Vec<bool> = vec![true; 4];
    seq.set_pattern(&pattern);
    seq.play();
    let mut fire_samples: Vec<usize> = Vec::new();
    for n in 0..60_000usize {
        if seq.tick().is_some() {
            fire_samples.push(n);
        }
    }
    assert!(fire_samples.len() >= 4);
    // each gap ends the step the position was on: step one and step
    // three are odd, so those gaps are half again as long
    let g0 = fire_samples[1] - fire_samples[0];
    let g1 = fire_samples[2] - fire_samples[1];
    let g2 = fire_samples[3] - fire_samples[2];
    assert!(g0 == 8268 || g0 == 8269);
    assert!(g1 == 5512 || g1 == 5513);
    assert!(g2 == 8268 || g2 == 8269);
}

#[test]
fn delay_time_edits_keep_the_line_contents() {
    let sr: u32 = 44_100;
    let mut d = DelayUnit::new(10_000, 0, SCALE, sr);
    for n in 0..100i64 {
        d.tick(n * 1_000);
    }
    let held = d.buffer.clone();
    d.set_delay_time(20_000, sr);
    assert_eq!(d.delay_samples, 882);
    assert_eq!(&d.buffer[..held.len()], &held[..]);
}
