//! Errors of the rendering core.
//!
//! Configuration faults abort a run before any MIDI data is read; sequencing
//! faults signal a malformed event stream; capacity faults signal a routing
//! that asks for more channels than the engine owns; engine faults are raised
//! by the unverified engine shell when the engine rejects a command.

use vstd::prelude::*;

verus! {

/// A malformed or ambiguous configuration entry.
#[derive(Debug)]
pub enum ConfigFault {
    /// The file header declared zero pulses per quarter note.
    ZeroPulsesPerQuarterNote,
    /// A synthesizer setting carries none, or more than one, of the three
    /// value fields; exactly one must be populated.
    AmbiguousSettingValue { name: String },
    /// A routing condition carries both a channel and a program, or neither;
    /// exactly one must be populated.
    AmbiguousCondition,
    /// A routing destination names neither an instrument nor a raw program
    /// number.
    MissingDestinationProgram,
    /// An instrument name that the General MIDI table does not contain.
    UnknownInstrument { name: String },
    /// A raw program number too large for a MIDI program slot.
    ProgramNumberTooLarge { number: u32 },
}

/// A fault in the order or timing data of the event stream.
#[derive(Debug)]
pub enum SequencingFault {
    /// A tempo change arrived before the header set pulses per quarter note.
    TempoBeforeDivision,
    /// A time query was made while pulses per quarter note is still zero.
    QueryWithoutDivision,
    /// A tempo change lies at an earlier pulse than one already recorded.
    TempoOutOfOrder,
}

/// The error type of the rendering core.
#[derive(Debug)]
pub enum RenderError {
    /// Malformed or ambiguous configuration; detected while building, before
    /// any MIDI parsing starts.
    ConfigError(ConfigFault),
    /// Timing data missing or out of order in the event stream.
    SequencingError(SequencingFault),
    /// A channel allocation would exceed the engine's channel capacity:
    /// `used` channels are taken already and `requested` more were asked
    /// for.
    CapacityError { used: u16, requested: usize, capacity: u16 },
    /// The engine rejected a setting or returned a failure sentinel; fatal
    /// for the run.
    FatalEngineError { detail: String },
}

} // verus!
