//! Core of a configuration-driven MIDI renderer.
//!
//! The crate turns a declarative synthesizer configuration into concrete
//! channel routings and engine commands, and converts MIDI pulse counts into
//! elapsed microseconds through a piecewise tempo map.  Byte-level MIDI
//! parsing, TOML loading and the synthesis engine itself live outside this
//! library; they hand plain values in and take plain values back.

pub mod errors;
pub mod fluidsynthesizer;
pub mod gm;
pub mod midiparser;
pub mod types;
