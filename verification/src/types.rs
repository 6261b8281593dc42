//! Data model of the rendering core.
//!
//! The `TOML*` structs mirror the configuration surface: they arrive from the
//! unverified loader as plain values.  Floating-point configuration values are
//! carried as their IEEE-754 bit patterns; the core never interprets them, it
//! only hands them on to the engine shell unchanged.

use vstd::prelude::*;

verus! {

/// One tempo change of the piece: from `pulse` on, a quarter note lasts
/// `us_per_quarter_note` microseconds.  The per-pulse rate is the exact
/// rational `us_per_quarter_note / pulses_per_quarter_note`; keeping the
/// numerator instead of a rounded rate lets time queries stay exact.
#[derive(Debug, Clone, Copy, PartialEq, Eq, Structural)]
pub struct MIDITempoChange {
    pub pulse: u64,
    pub us_per_quarter_note: u32,
}

/// Command line surface of the renderer; filled by the unverified shell.
#[derive(Debug)]
pub struct Options {
    pub list_instruments: bool,
    pub input: String,
    pub resources: String,
    pub debug: bool,
}

/// Render settings as they stand in the configuration file, before defaults
/// are applied.  `synth` keeps the declaration order of the file: the order
/// of routing entries is their match priority.
#[derive(Debug)]
pub struct TOMLOptionalRenderSettings {
    pub input_file: String,
    pub output_file: String,
    pub sample_rate: Option<u64>,
    pub synth: Vec<(String, TOMLSynth)>,
}

/// Render settings with every default applied.
#[derive(Debug)]
pub struct TOMLRenderSettings {
    pub input_path: String,
    pub input_file: String,
    pub output_file: String,
    pub sample_rate: u64,
    pub synth: Vec<(String, TOMLSynth)>,
}

/// One named routing of a synthesizer: every condition of the list shares
/// the destination list.
#[derive(Debug)]
pub struct TOMLMapping {
    pub condition: Vec<TOMLCondition>,
    pub destination: Vec<TOMLDestination>,
}

/// A routing condition as configured.  Exactly one of the two fields must be
/// populated; anything else is rejected when the routing is resolved, never
/// at match time.
#[derive(Debug)]
pub struct TOMLCondition {
    pub program: Option<String>,
    pub channel: Option<u8>,
}

/// A routing destination as configured: which soundfont, bank and program a
/// matching event is sent to.  The program comes either from the General MIDI
/// name table (`program`) or as a raw number (`program_nr`); the raw number
/// wins where both are given, and one of the two must be given.
#[derive(Debug)]
pub struct TOMLDestination {
    pub bank: Option<u32>,
    pub program: Option<String>,
    pub program_nr: Option<u32>,
    pub soundfont: u32,
}

/// One synthesizer declaration of the configuration.
#[derive(Debug)]
pub struct TOMLSynth {
    pub synthtype: String,
    /// Bit pattern of the configured gain, an IEEE-754 single; opaque here.
    pub gain: u32,
    pub directory: Option<String>,
    pub soundfont: Option<Vec<TOMLSynthSoundfont>>,
    pub setting: Option<Vec<TOMLSynthSetting>>,
    /// Named routings in declaration order.
    pub mapping: Vec<(String, TOMLMapping)>,
}

/// A soundfont file to load, with the additive bank offset to apply to it.
#[derive(Debug)]
pub struct TOMLSynthSoundfont {
    pub file: String,
    pub offset: i32,
}

/// One engine setting of a synthesizer declaration.  Exactly one of the
/// three value fields must be populated.
#[derive(Debug)]
pub struct TOMLSynthSetting {
    pub name: String,
    /// Bit pattern of a floating-point value, an IEEE-754 double; opaque here.
    pub value_f: Option<u64>,
    pub value_i: Option<i32>,
    pub value_s: Option<String>,
}

/// Applies the defaults to freshly loaded render settings: a missing sample
/// rate becomes 48000.
pub fn to_render_settings(r: TOMLOptionalRenderSettings, p: String) -> (s: TOMLRenderSettings)
    ensures
        s.input_path == p,
        s.input_file == r.input_file,
        s.output_file == r.output_file,
        s.sample_rate == (match r.sample_rate {
            Some(n) => n,
            None => 48000u64,
        }),
        s.synth == r.synth,
{
    TOMLRenderSettings {
        input_path: p,
        input_file: r.input_file,
        output_file: r.output_file,
        sample_rate: r.sample_rate.unwrap_or(48_000),
        synth: r.synth,
    }
}

} // verus!
