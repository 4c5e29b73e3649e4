//! A monophonic subtractive-synthesis voice.
//!
//! The engine turns a small set of control parameters (pitch, gain, ADSR
//! timings, waveform choice, LFO rate) into a stream of audio samples, one
//! sample at a time.  All signal values are fixed-point integers: one unit of
//! amplitude, seconds or hertz is `fixed::UNIT` (1_000_000), so the engine
//! runs entirely on `i64` arithmetic and every step of the per-sample render
//! loop is verified.

pub mod engine;
pub mod envelope;
pub mod fixed;
pub mod lfo;
pub mod osc;
pub mod param;
