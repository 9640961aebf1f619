//! Core engine of a terminal modular synthesizer: a signal-routing
//! graph of oscillator, filter, delay, reverb and output modules, the
//! per-sample DSP units behind them, and a sample-clocked step
//! sequencer.  All continuous values are fixed-point integers (see
//! [`fixed`]), so the whole engine is specified and verified exactly.
//!
//! The engine itself is single-threaded: topology edits and
//! [`graph::AudioGraph::process`] both take the graph exclusively, so
//! every block sees a fully formed, acyclic graph and mutations land
//! only at block boundaries.  A real-time deployment puts this
//! exclusivity behind a lock-free handoff (a double-buffered snapshot
//! or a command queue) in its audio driver; the engine never blocks,
//! never allocates on the per-sample path, and the sequencer advances
//! on the sample clock alone.

pub mod config;
pub mod dsp;
pub mod effects;
pub mod engine;
pub mod envelope;
pub mod graph;
pub mod laws;
pub mod filter;
pub mod fixed;
pub mod module;
pub mod oscillator;
pub mod output;
pub mod params;
pub mod pitch;
pub mod sequencer;
pub mod session;
pub mod text;
