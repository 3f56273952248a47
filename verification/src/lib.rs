//! A polyphonic software synthesizer core in Q16.16 fixed-point arithmetic.
//!
//! The engine owns a fixed pool of voices; each voice composes an oscillator,
//! an ADSR envelope and a resonant biquad filter.  Note events and parameter
//! changes enter at the engine, which mixes the active voices into a single
//! deterministic sample stream.  All signal values are signed 64-bit integers
//! scaled by `fixed::UNIT` (65536 = 1.0), so the whole signal path is exact
//! integer arithmetic and every step is verified.

pub mod fixed;
pub mod trig;
pub mod osc;
pub mod envelope;
pub mod filter;
pub mod voice;
pub mod plugin;
pub mod engine;
pub mod preset;
pub mod demo;

pub use osc::WaveShape;
pub use osc::WaveGenerator;
pub use osc::generate_waveform_data;
pub use envelope::EnvelopeGenerator;
pub use envelope::EnvelopeState;
pub use filter::Filter;
pub use filter::FilterType;
pub use voice::Voice;
pub use engine::AudioSynthesizer;
pub use plugin::AudioPlugin;
pub use preset::SynthPreset;
pub use preset::create_default_presets;
pub use demo::add;
pub use demo::fibonacci;
