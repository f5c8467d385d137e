//! A polyphonic synthesizer engine.
//!
//! The engine turns a stream of note-on/note-off events into a mono audio
//! signal, one sample at a time. It is built from three layers: phase-driven
//! waveform oscillators, a five-state amplitude envelope, and a fixed-capacity
//! voice pool that allocates, retriggers and steals voices under load.
//!
//! All continuous quantities (amplitudes, phases, durations) are fixed-point
//! integers with [`util::UNIT`] subdivisions to one, so that every formula of
//! the engine is exact integer arithmetic with a proved contract.

pub mod envelope;
pub mod oscillators;
pub mod util;
pub mod voice;
