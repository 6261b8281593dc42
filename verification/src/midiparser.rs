//! The tempo map and the event-stream state machine.
//!
//! MIDI events carry time as pulses; how long a pulse lasts is set by tempo
//! meta events, each giving the microseconds per quarter note from its pulse
//! on.  `MIDIHandlerData` owns that tempo map together with the routing state
//! of the run and converts any pulse count into elapsed microseconds by
//! walking the tempo segments.  All arithmetic is exact: a time is the
//! accumulated `pulses x microseconds-per-quarter-note` numerator divided
//! once by the pulses per quarter note of the file header.

use vstd::arithmetic::div_mod::lemma_div_is_ordered;
use vstd::arithmetic::mul::{lemma_mul_inequality, lemma_mul_nonnegative, lemma_mul_upper_bound};
use vstd::prelude::*;

use crate::errors::{ConfigFault, RenderError, SequencingFault};
use crate::fluidsynthesizer::FluidSynthesizer;
use crate::types::MIDITempoChange;

verus! {

/// Tempo assumed while a file has not declared one: 120 beats per minute,
/// half a second per quarter note, as General MIDI implies.
pub const DEFAULT_US_PER_QUARTER_NOTE: u32 = 500_000;

/// Upper bound of any recorded tempo: the set-tempo payload is a three-byte
/// value, so it is below 2^24.
pub const US_PER_QUARTER_NOTE_LIMIT: u32 = 0x100_0000;

/// The change pulses never decrease along the list.
pub open spec fn pulses_sorted(changes: Seq<MIDITempoChange>) -> bool {
    forall|i: int, j: int|
        0 <= i <= j < changes.len() ==> changes[i].pulse <= changes[j].pulse
}

/// Every recorded tempo fits in three bytes.
pub open spec fn rates_bounded(changes: Seq<MIDITempoChange>) -> bool {
    forall|i: int|
        0 <= i < changes.len() ==> changes[i].us_per_quarter_note < US_PER_QUARTER_NOTE_LIMIT
}

/// The time numerator accumulated by walking the tempo segments, starting
/// just after a segment boundary at `last_pulse` with `rate` microseconds
/// per quarter note: for every change at or before `pulse` the closed
/// segment is charged at the rate that held before it, and the remainder up
/// to `pulse` at the last rate seen.  Dividing by the pulses per quarter
/// note of the header gives microseconds.
pub open spec fn walk_numerator(
    changes: Seq<MIDITempoChange>,
    pulse: int,
    last_pulse: int,
    rate: int,
) -> int
    decreases changes.len(),
{
    if changes.len() == 0 {
        (pulse - last_pulse) * rate
    } else if changes[0].pulse <= pulse {
        (changes[0].pulse - last_pulse) * rate + walk_numerator(
            changes.drop_first(),
            pulse,
            changes[0].pulse as int,
            changes[0].us_per_quarter_note as int,
        )
    } else {
        (pulse - last_pulse) * rate
    }
}

/// The time numerator of a query: before the first change the rate is zero,
/// matching a stream whose tempo is declared at its start; a wholly empty
/// tempo list falls back to the default tempo.
pub open spec fn spec_time_numerator(changes: Seq<MIDITempoChange>, pulse: int) -> int {
    if changes.len() == 0 {
        pulse * DEFAULT_US_PER_QUARTER_NOTE
    } else {
        walk_numerator(changes, pulse, 0, 0)
    }
}

/// Elapsed microseconds at `pulse`, rounded down.
pub open spec fn spec_pulse_to_time(
    changes: Seq<MIDITempoChange>,
    pulses_per_quarter_note: int,
    pulse: int,
) -> int {
    spec_time_numerator(changes, pulse) / pulses_per_quarter_note
}

/// What must hold of a suffix of the change list for the walk to behave:
/// the suffix ordered and bounded, the boundary no later than the query and
/// no later than any remaining change, the rate a three-byte value.
pub open spec fn walk_pre(
    changes: Seq<MIDITempoChange>,
    pulse: int,
    last_pulse: int,
    rate: int,
) -> bool {
    &&& pulses_sorted(changes)
    &&& rates_bounded(changes)
    &&& 0 <= rate < US_PER_QUARTER_NOTE_LIMIT
    &&& last_pulse <= pulse
    &&& forall|j: int| 0 <= j < changes.len() ==> last_pulse <= #[trigger] changes[j].pulse
}

/// Taking the first change as the new boundary keeps the walk's
/// precondition.
proof fn lemma_walk_pre_step(changes: Seq<MIDITempoChange>, pulse: int, last_pulse: int, rate: int)
    requires
        walk_pre(changes, pulse, last_pulse, rate),
        changes.len() > 0,
        changes[0].pulse <= pulse,
    ensures
        walk_pre(
            changes.drop_first(),
            pulse,
            changes[0].pulse as int,
            changes[0].us_per_quarter_note as int,
        ),
{
    let rest = changes.drop_first();
    assert forall|i: int, j: int| 0 <= i <= j < rest.len() implies rest[i].pulse
        <= rest[j].pulse by {
        assert(rest[i] == changes[i + 1]);
        assert(rest[j] == changes[j + 1]);
    }
    assert forall|j: int| 0 <= j < rest.len() implies changes[0].pulse
        <= #[trigger] rest[j].pulse by {
        assert(rest[j] == changes[j + 1]);
    }
    assert forall|j: int| 0 <= j < rest.len() implies rest[j].us_per_quarter_note
        < US_PER_QUARTER_NOTE_LIMIT by {
        assert(rest[j] == changes[j + 1]);
    }
}

/// Dropping a change that lies past the query also keeps the walk's
/// precondition, boundary and rate unchanged.
proof fn lemma_walk_pre_tail(changes: Seq<MIDITempoChange>, pulse: int, last_pulse: int, rate: int)
    requires
        walk_pre(changes, pulse, last_pulse, rate),
        changes.len() > 0,
    ensures
        walk_pre(changes.drop_first(), pulse, last_pulse, rate),
{
    let rest = changes.drop_first();
    assert forall|i: int, j: int| 0 <= i <= j < rest.len() implies rest[i].pulse
        <= rest[j].pulse by {
        assert(rest[i] == changes[i + 1]);
        assert(rest[j] == changes[j + 1]);
    }
    assert forall|j: int| 0 <= j < rest.len() implies last_pulse <= #[trigger] rest[j].pulse by {
        assert(rest[j] == changes[j + 1]);
    }
    assert forall|j: int| 0 <= j < rest.len() implies rest[j].us_per_quarter_note
        < US_PER_QUARTER_NOTE_LIMIT by {
        assert(rest[j] == changes[j + 1]);
    }
}

/// The walk never goes negative.
proof fn lemma_walk_nonneg(changes: Seq<MIDITempoChange>, pulse: int, last_pulse: int, rate: int)
    requires
        walk_pre(changes, pulse, last_pulse, rate),
    ensures
        0 <= walk_numerator(changes, pulse, last_pulse, rate),
    decreases changes.len(),
{
    if changes.len() == 0 {
        lemma_mul_nonnegative(pulse - last_pulse, rate);
    } else if changes[0].pulse <= pulse {
        lemma_mul_nonnegative(changes[0].pulse - last_pulse, rate);
        lemma_walk_pre_step(changes, pulse, last_pulse, rate);
        lemma_walk_nonneg(
            changes.drop_first(),
            pulse,
            changes[0].pulse as int,
            changes[0].us_per_quarter_note as int,
        );
    } else {
        lemma_mul_nonnegative(pulse - last_pulse, rate);
    }
}

/// The walk never exceeds the queried span charged at the largest
/// three-byte rate.
proof fn lemma_walk_upper(changes: Seq<MIDITempoChange>, pulse: int, last_pulse: int, rate: int)
    requires
        walk_pre(changes, pulse, last_pulse, rate),
    ensures
        walk_numerator(changes, pulse, last_pulse, rate) <= (pulse - last_pulse) * 0xFF_FFFF,
    decreases changes.len(),
{
    if changes.len() == 0 {
        lemma_mul_inequality(rate, 0xFF_FFFF, pulse - last_pulse);
    } else if changes[0].pulse <= pulse {
        let c0 = changes[0];
        lemma_mul_inequality(rate, 0xFF_FFFF, c0.pulse - last_pulse);
        lemma_walk_pre_step(changes, pulse, last_pulse, rate);
        lemma_walk_upper(
            changes.drop_first(),
            pulse,
            c0.pulse as int,
            c0.us_per_quarter_note as int,
        );
        assert((c0.pulse - last_pulse) * 0xFF_FFFF + (pulse - c0.pulse) * 0xFF_FFFF == (pulse
            - last_pulse) * 0xFF_FFFF) by (nonlinear_arith);
        assert(rate * (c0.pulse - last_pulse) == (c0.pulse - last_pulse) * rate)
            by (nonlinear_arith);
    } else {
        lemma_mul_inequality(rate, 0xFF_FFFF, pulse - last_pulse);
    }
}

/// A later query pulse never shrinks the walk.
proof fn lemma_walk_monotone(
    changes: Seq<MIDITempoChange>,
    p1: int,
    p2: int,
    last_pulse: int,
    rate: int,
)
    requires
        walk_pre(changes, p1, last_pulse, rate),
        p1 <= p2,
    ensures
        walk_numerator(changes, p1, last_pulse, rate) <= walk_numerator(
            changes,
            p2,
            last_pulse,
            rate,
        ),
    decreases changes.len(),
{
    if changes.len() == 0 {
        lemma_mul_inequality(p1 - last_pulse, p2 - last_pulse, rate);
    } else {
        let c0 = changes[0];
        if c0.pulse <= p1 {
            lemma_walk_pre_step(changes, p1, last_pulse, rate);
            lemma_walk_monotone(
                changes.drop_first(),
                p1,
                p2,
                c0.pulse as int,
                c0.us_per_quarter_note as int,
            );
        } else if c0.pulse <= p2 {
            lemma_mul_inequality(p1 - last_pulse, c0.pulse - last_pulse, rate);
            lemma_walk_pre_step(changes, p2, last_pulse, rate);
            lemma_walk_nonneg(
                changes.drop_first(),
                p2,
                c0.pulse as int,
                c0.us_per_quarter_note as int,
            );
        } else {
            lemma_mul_inequality(p1 - last_pulse, p2 - last_pulse, rate);
        }
    }
}

/// At pulse zero the walk accumulates nothing.
proof fn lemma_walk_at_zero(changes: Seq<MIDITempoChange>, rate: int)
    ensures
        walk_numerator(changes, 0, 0, rate) == 0,
    decreases changes.len(),
{
    if changes.len() == 0 {
        assert(0 * rate == 0) by (nonlinear_arith);
    } else if changes[0].pulse <= 0 {
        lemma_walk_at_zero(changes.drop_first(), changes[0].us_per_quarter_note as int);
        assert(0 * rate == 0) by (nonlinear_arith);
    } else {
        assert(0 * rate == 0) by (nonlinear_arith);
    }
}

/// State of one render run: the synthesizers with their routing tables, the
/// tempo map, the pulse cursor of the current track with its high-water
/// mark, and the most recent program seen on each of the sixteen input
/// channels (program state persists across track boundaries).
#[derive(Debug)]
pub struct MIDIHandlerData {
    pub fluid_synthesizers: Vec<FluidSynthesizer>,
    pub pulses_per_quarter_note: u16,
    pub tempo_changes: Vec<MIDITempoChange>,
    pub current_pulse: u64,
    pub max_pulse: u64,
    pub active_programs: Vec<Option<u8>>,
}

impl MIDIHandlerData {
    /// Well-formedness of the run state: tempo changes ordered and bounded,
    /// never recorded without a division, one program slot per MIDI channel,
    /// and the high-water mark past the cursor.
    pub open spec fn wf(self) -> bool {
        &&& pulses_sorted(self.tempo_changes@)
        &&& rates_bounded(self.tempo_changes@)
        &&& (self.tempo_changes@.len() > 0 ==> self.pulses_per_quarter_note != 0)
        &&& self.active_programs@.len() == 16
        &&& self.current_pulse <= self.max_pulse
    }

    /// A fresh run state: nothing played, nothing routed, no program active
    /// on any channel.
    pub fn new() -> (d: MIDIHandlerData)
        ensures
            d.wf(),
            d.fluid_synthesizers@.len() == 0,
            d.pulses_per_quarter_note == 0,
            d.tempo_changes@.len() == 0,
            d.current_pulse == 0,
            d.max_pulse == 0,
            forall|i: int| 0 <= i < 16 ==> d.active_programs@[i] is None,
    {
        let mut programs: Vec<Option<u8>> = Vec::new();
        let mut i: usize = 0;
        while i < 16
            invariant
                i <= 16,
                programs@.len() == i,
                forall|j: int| 0 <= j < i ==> programs@[j] is None,
            decreases 16 - i,
        {
            programs.push(None);
            i = i + 1;
        }
        MIDIHandlerData {
            fluid_synthesizers: Vec::new(),
            pulses_per_quarter_note: 0,
            tempo_changes: Vec::new(),
            current_pulse: 0,
            max_pulse: 0,
            active_programs: programs,
        }
    }

    /// Installs the division of the file header.  A header declaring zero
    /// pulses per quarter note is malformed and leaves the state unchanged.
    pub fn set_pulses_per_quarter_note(&mut self, n: u16) -> (r: Result<(), RenderError>)
        requires
            old(self).wf(),
        ensures
            final(self).wf(),
            match r {
                Ok(()) => {
                    &&& n != 0
                    &&& *final(self) == (MIDIHandlerData {
                        pulses_per_quarter_note: n,
                        ..*old(self)
                    })
                },
                Err(e) => {
                    &&& n == 0
                    &&& e == RenderError::ConfigError(ConfigFault::ZeroPulsesPerQuarterNote)
                    &&& *final(self) == *old(self)
                },
            },
    {
        if n == 0 {
            return Err(RenderError::ConfigError(ConfigFault::ZeroPulsesPerQuarterNote));
        }
        self.pulses_per_quarter_note = n;
        Ok(())
    }

    /// Records a tempo change at the current pulse.  Requires the header's
    /// division to be known already, and keeps the change list ordered: a
    /// change that would land before an already recorded one signals a
    /// malformed stream.
    pub fn record_tempo_change(&mut self, us_per_quarter_note: u32) -> (r: Result<
        (),
        RenderError,
    >)
        requires
            old(self).wf(),
            us_per_quarter_note < US_PER_QUARTER_NOTE_LIMIT,
        ensures
            final(self).wf(),
            match r {
                Ok(()) => {
                    &&& old(self).pulses_per_quarter_note != 0
                    &&& (old(self).tempo_changes@.len() > 0 ==> old(
                        self,
                    ).tempo_changes@.last().pulse <= old(self).current_pulse)
                    &&& *final(self) == (MIDIHandlerData {
                        tempo_changes: final(self).tempo_changes,
                        ..*old(self)
                    })
                    &&& final(self).tempo_changes@ == old(self).tempo_changes@.push(
                        MIDITempoChange {
                            pulse: old(self).current_pulse,
                            us_per_quarter_note,
                        },
                    )
                },
                Err(e) => {
                    &&& *final(self) == *old(self)
                    &&& if old(self).pulses_per_quarter_note == 0 {
                        e == RenderError::SequencingError(SequencingFault::TempoBeforeDivision)
                    } else {
                        &&& old(self).tempo_changes@.len() > 0
                        &&& old(self).tempo_changes@.last().pulse > old(self).current_pulse
                        &&& e == RenderError::SequencingError(SequencingFault::TempoOutOfOrder)
                    }
                },
            },
    {
        if self.pulses_per_quarter_note == 0 {
            return Err(RenderError::SequencingError(SequencingFault::TempoBeforeDivision));
        }
        let n = self.tempo_changes.len();
        if n > 0 && self.tempo_changes[n - 1].pulse > self.current_pulse {
            return Err(RenderError::SequencingError(SequencingFault::TempoOutOfOrder));
        }
        let change = MIDITempoChange {
            pulse: self.current_pulse,
            us_per_quarter_note,
        };
        self.tempo_changes.push(change);
        proof {
            let cs = self.tempo_changes@;
            assert forall|i: int, j: int| 0 <= i <= j < cs.len() implies cs[i].pulse
                <= cs[j].pulse by {
                if j < cs.len() - 1 {
                    assert(old(self).tempo_changes@[i].pulse <= old(self).tempo_changes@[j].pulse);
                } else if i < j {
                    assert(old(self).tempo_changes@[i].pulse <= old(
                        self,
                    ).tempo_changes@.last().pulse);
                }
            }
        }
        Ok(())
    }

    /// Advances the pulse cursor by the delta time that precedes an event,
    /// pushing the high-water mark along with it.
    pub fn add_delta_time(&mut self, delta_time: u32)
        requires
            old(self).wf(),
            old(self).current_pulse + delta_time <= u64::MAX,
        ensures
            final(self).wf(),
            final(self).current_pulse == old(self).current_pulse + delta_time,
            final(self).max_pulse == (if old(self).current_pulse + delta_time > old(
                self,
            ).max_pulse {
                old(self).current_pulse + delta_time
            } else {
                old(self).max_pulse as int
            }),
            *final(self) == (MIDIHandlerData {
                current_pulse: final(self).current_pulse,
                max_pulse: final(self).max_pulse,
                ..*old(self)
            }),
    {
        self.current_pulse = self.current_pulse + delta_time as u64;
        if self.current_pulse > self.max_pulse {
            self.max_pulse = self.current_pulse;
        }
    }

    /// Rewinds the pulse cursor to zero: each track of a file counts its
    /// delta times from its own start.
    pub fn reset_current_pulse(&mut self)
        requires
            old(self).wf(),
        ensures
            final(self).wf(),
            *final(self) == (MIDIHandlerData { current_pulse: 0, ..*old(self) }),
    {
        self.current_pulse = 0;
    }

    /// Converts a pulse count into elapsed microseconds, rounded down, by
    /// walking the tempo segments in order.  Exact over the whole range: the
    /// numerator is accumulated in full width and divided once.  Fails only
    /// while the header's division is unknown.
    pub fn pulse_to_time(&self, pulse: u64) -> (r: Result<u128, RenderError>)
        requires
            self.wf(),
        ensures
            match r {
                Ok(t) => {
                    &&& self.pulses_per_quarter_note != 0
                    &&& t == spec_pulse_to_time(
                        self.tempo_changes@,
                        self.pulses_per_quarter_note as int,
                        pulse as int,
                    )
                },
                Err(e) => {
                    &&& self.pulses_per_quarter_note == 0
                    &&& e == RenderError::SequencingError(SequencingFault::QueryWithoutDivision)
                },
            },
    {
        if self.pulses_per_quarter_note == 0 {
            return Err(RenderError::SequencingError(SequencingFault::QueryWithoutDivision));
        }
        let ghost cs = self.tempo_changes@;
        let n = self.tempo_changes.len();
        if n == 0 {
            proof {
                lemma_mul_upper_bound(pulse as int, u64::MAX as int, 500_000, 500_000);
            }
            let numerator: u128 = (pulse as u128) * (DEFAULT_US_PER_QUARTER_NOTE as u128);
            return Ok(numerator / (self.pulses_per_quarter_note as u128));
        }
        let mut acc: u128 = 0;
        let mut last_pulse: u64 = 0;
        let mut rate: u32 = 0;
        let mut i: usize = 0;
        proof {
            assert(cs.skip(0) =~= cs);
            lemma_walk_upper(cs, pulse as int, 0, 0);
            lemma_mul_upper_bound(pulse as int, u64::MAX as int, 0xFF_FFFF, 0xFF_FFFF);
        }
        while i < n
            invariant
                cs == self.tempo_changes@,
                n == self.tempo_changes.len(),
                n == cs.len(),
                i <= n,
                last_pulse <= pulse,
                walk_pre(cs.skip(i as int), pulse as int, last_pulse as int, rate as int),
                acc + walk_numerator(
                    cs.skip(i as int),
                    pulse as int,
                    last_pulse as int,
                    rate as int,
                ) == walk_numerator(cs, pulse as int, 0, 0),
                walk_numerator(cs, pulse as int, 0, 0) <= (pulse as int) * 0xFF_FFFF,
                (pulse as int) * 0xFF_FFFF <= (u64::MAX as int) * 0xFF_FFFF,
            decreases n - i,
        {
            let c = self.tempo_changes[i];
            proof {
                assert(cs.skip(i as int)[0] == cs[i as int]);
            }
            if c.pulse <= pulse {
                proof {
                    lemma_walk_pre_step(
                        cs.skip(i as int),
                        pulse as int,
                        last_pulse as int,
                        rate as int,
                    );
                    assert(cs.skip(i as int).drop_first() =~= cs.skip(i as int + 1));
                    lemma_walk_nonneg(
                        cs.skip(i as int + 1),
                        pulse as int,
                        c.pulse as int,
                        c.us_per_quarter_note as int,
                    );
                    lemma_mul_upper_bound(
                        c.pulse - last_pulse,
                        u64::MAX as int,
                        rate as int,
                        0xFF_FFFF,
                    );
                    lemma_mul_nonnegative(c.pulse - last_pulse, rate as int);
                }
                let seg: u128 = ((c.pulse - last_pulse) as u128) * (rate as u128);
                acc = acc + seg;
                last_pulse = c.pulse;
                rate = c.us_per_quarter_note;
            } else {
                proof {
                    lemma_walk_pre_tail(
                        cs.skip(i as int),
                        pulse as int,
                        last_pulse as int,
                        rate as int,
                    );
                    assert(cs.skip(i as int).drop_first() =~= cs.skip(i as int + 1));
                    if cs.skip(i as int + 1).len() > 0 {
                        assert(cs.skip(i as int + 1)[0] == cs[i as int + 1]);
                        assert(cs[i as int].pulse <= cs[i as int + 1].pulse);
                    }
                }
            }
            i = i + 1;
        }
        proof {
            assert(cs.skip(n as int) =~= Seq::<MIDITempoChange>::empty());
            lemma_mul_upper_bound(pulse - last_pulse, u64::MAX as int, rate as int, 0xFF_FFFF);
            lemma_mul_nonnegative(pulse - last_pulse, rate as int);
        }
        let remainder: u128 = ((pulse - last_pulse) as u128) * (rate as u128);
        acc = acc + remainder;
        Ok(acc / (self.pulses_per_quarter_note as u128))
    }

    /// Elapsed microseconds at the high-water pulse: the computed length of
    /// the rendered piece.
    pub fn max_time(&self) -> (r: Result<u128, RenderError>)
        requires
            self.wf(),
        ensures
            match r {
                Ok(t) => {
                    &&& self.pulses_per_quarter_note != 0
                    &&& t == spec_pulse_to_time(
                        self.tempo_changes@,
                        self.pulses_per_quarter_note as int,
                        self.max_pulse as int,
                    )
                },
                Err(e) => {
                    &&& self.pulses_per_quarter_note == 0
                    &&& e == RenderError::SequencingError(SequencingFault::QueryWithoutDivision)
                },
            },
    {
        self.pulse_to_time(self.max_pulse)
    }
}

/// A channel event as the routing logic sees it: the input channel it
/// arrives on, and the new program where it is a program change.  What else
/// the event carries stays with the unverified shell, which forwards it to
/// the channels this module picks.
#[derive(Debug, Clone, Copy, PartialEq, Eq, Structural)]
pub enum ChannelEvent {
    ProgramChange { channel: u8, program: u8 },
    Voice { channel: u8 },
}

impl ChannelEvent {
    /// The input channel the event arrives on.
    pub open spec fn spec_channel(self) -> u8 {
        match self {
            ChannelEvent::ProgramChange { channel, .. } => channel,
            ChannelEvent::Voice { channel } => channel,
        }
    }
}

/// A meta event as the tempo map sees it: a tempo change, or anything else.
#[derive(Debug, Clone, Copy, PartialEq, Eq, Structural)]
pub enum MetaEventKind {
    SetTempo,
    Other,
}

/// The microseconds per quarter note carried by a set-tempo payload: a
/// three-byte big-endian value.
pub open spec fn spec_tempo_of(data: Seq<u8>) -> int {
    data[0] * 0x1_0000 + data[1] * 0x100 + data[2]
}

/// Decodes a set-tempo payload.
pub fn tempo_from_payload(data: &Vec<u8>) -> (t: u32)
    requires
        data@.len() == 3,
    ensures
        t == spec_tempo_of(data@),
        t < US_PER_QUARTER_NOTE_LIMIT,
{
    (data[0] as u32) * 0x1_0000 + (data[1] as u32) * 0x100 + (data[2] as u32)
}

/// The (synthesizer index, channel) pairs an event is forwarded to, walking
/// the synthesizers from `idx` on: each synthesizer contributes the
/// channels its routing table picks for the event.
pub open spec fn spec_dispatch_from(
    synths: Seq<FluidSynthesizer>,
    idx: int,
    channel: u8,
    active_program: Option<u8>,
) -> Seq<(usize, u8)>
    decreases synths.len() - idx,
{
    if idx < 0 || idx >= synths.len() {
        Seq::empty()
    } else {
        crate::fluidsynthesizer::spec_route(synths[idx].mapping@, channel, active_program)
            .map_values(|c: u8| (idx as usize, c)) + spec_dispatch_from(
            synths,
            idx + 1,
            channel,
            active_program,
        )
    }
}

/// The (synthesizer index, channel) pairs an event is forwarded to, over
/// all synthesizers of the run.
pub open spec fn spec_dispatch(
    synths: Seq<FluidSynthesizer>,
    channel: u8,
    active_program: Option<u8>,
) -> Seq<(usize, u8)> {
    spec_dispatch_from(synths, 0, channel, active_program)
}

impl MIDIHandlerData {
    /// Handles the file header: installs the division.  A zero division is
    /// malformed and rejected.
    pub fn header(&mut self, _format: u16, _track: u16, time_base: u16) -> (r: Result<
        (),
        RenderError,
    >)
        requires
            old(self).wf(),
        ensures
            final(self).wf(),
            match r {
                Ok(()) => {
                    &&& time_base != 0
                    &&& *final(self) == (MIDIHandlerData {
                        pulses_per_quarter_note: time_base,
                        ..*old(self)
                    })
                },
                Err(e) => {
                    &&& time_base == 0
                    &&& e == RenderError::ConfigError(ConfigFault::ZeroPulsesPerQuarterNote)
                    &&& *final(self) == *old(self)
                },
            },
    {
        self.set_pulses_per_quarter_note(time_base)
    }

    /// Handles a meta event: the delta time advances the cursor first, as
    /// for every event kind; a set-tempo event then records its three-byte
    /// tempo at the new cursor.
    pub fn meta_event(&mut self, delta_time: u32, kind: MetaEventKind, data: &Vec<u8>) -> (r:
        Result<(), RenderError>)
        requires
            old(self).wf(),
            old(self).current_pulse + delta_time <= u64::MAX,
            kind == MetaEventKind::SetTempo ==> data@.len() == 3,
        ensures
            final(self).wf(),
            final(self).current_pulse == old(self).current_pulse + delta_time,
            final(self).max_pulse == (if old(self).current_pulse + delta_time > old(
                self,
            ).max_pulse {
                old(self).current_pulse + delta_time
            } else {
                old(self).max_pulse as int
            }),
            final(self).pulses_per_quarter_note == old(self).pulses_per_quarter_note,
            final(self).fluid_synthesizers == old(self).fluid_synthesizers,
            final(self).active_programs == old(self).active_programs,
            match r {
                Ok(()) => {
                    if kind == MetaEventKind::SetTempo {
                        &&& old(self).pulses_per_quarter_note != 0
                        &&& final(self).tempo_changes@ == old(self).tempo_changes@.push(
                            MIDITempoChange {
                                pulse: (old(self).current_pulse + delta_time) as u64,
                                us_per_quarter_note: spec_tempo_of(data@) as u32,
                            },
                        )
                    } else {
                        final(self).tempo_changes == old(self).tempo_changes
                    }
                },
                Err(e) => {
                    &&& kind == MetaEventKind::SetTempo
                    &&& final(self).tempo_changes == old(self).tempo_changes
                    &&& if old(self).pulses_per_quarter_note == 0 {
                        e == RenderError::SequencingError(SequencingFault::TempoBeforeDivision)
                    } else {
                        &&& old(self).tempo_changes@.len() > 0
                        &&& old(self).tempo_changes@.last().pulse > old(self).current_pulse
                            + delta_time
                        &&& e == RenderError::SequencingError(SequencingFault::TempoOutOfOrder)
                    }
                },
            },
    {
        self.add_delta_time(delta_time);
        match kind {
            MetaEventKind::SetTempo => {
                let tempo = tempo_from_payload(data);
                self.record_tempo_change(tempo)
            },
            MetaEventKind::Other => Ok(()),
        }
    }

    /// Handles a channel event: the delta time advances the cursor; a
    /// program change updates the active-program table of its channel
    /// before routing, so an event sees its own program change.  Returns
    /// the (synthesizer index, channel) pairs the shell forwards the event
    /// to; an event no routing matches is silently unrouted.
    pub fn midi_event(&mut self, delta_time: u32, event: &ChannelEvent) -> (r: Vec<(usize, u8)>)
        requires
            old(self).wf(),
            old(self).current_pulse + delta_time <= u64::MAX,
            event.spec_channel() < 16,
        ensures
            final(self).wf(),
            final(self).current_pulse == old(self).current_pulse + delta_time,
            final(self).max_pulse == (if old(self).current_pulse + delta_time > old(
                self,
            ).max_pulse {
                old(self).current_pulse + delta_time
            } else {
                old(self).max_pulse as int
            }),
            final(self).pulses_per_quarter_note == old(self).pulses_per_quarter_note,
            final(self).tempo_changes == old(self).tempo_changes,
            final(self).fluid_synthesizers == old(self).fluid_synthesizers,
            final(self).active_programs@ == (match *event {
                ChannelEvent::ProgramChange { channel, program } => old(
                    self,
                ).active_programs@.update(channel as int, Some(program)),
                ChannelEvent::Voice { .. } => old(self).active_programs@,
            }),
            r@ == spec_dispatch(
                old(self).fluid_synthesizers@,
                event.spec_channel(),
                final(self).active_programs@[event.spec_channel() as int],
            ),
    {
        self.add_delta_time(delta_time);
        let channel: u8 = match event {
            ChannelEvent::ProgramChange { channel, program } => {
                self.active_programs.set(*channel as usize, Some(*program));
                *channel
            },
            ChannelEvent::Voice { channel } => *channel,
        };
        let active_program: Option<u8> = self.active_programs[channel as usize];
        let ghost synths = self.fluid_synthesizers@;
        let n = self.fluid_synthesizers.len();
        let mut out: Vec<(usize, u8)> = Vec::new();
        let mut i: usize = 0;
        proof {
            assert(out@ + spec_dispatch_from(synths, 0, channel, active_program)
                =~= spec_dispatch_from(synths, 0, channel, active_program));
        }
        while i < n
            invariant
                synths == self.fluid_synthesizers@,
                n == synths.len(),
                i <= n,
                spec_dispatch_from(synths, 0, channel, active_program) == out@
                    + spec_dispatch_from(synths, i as int, channel, active_program),
            decreases n - i,
        {
            let destinations = self.fluid_synthesizers[i].route(channel, active_program);
            let ghost mapped = crate::fluidsynthesizer::spec_route(
                synths[i as int].mapping@,
                channel,
                active_program,
            ).map_values(|c: u8| (i as usize, c));
            let ghost out_before = out@;
            let mut j: usize = 0;
            while j < destinations.len()
                invariant
                    destinations@ == crate::fluidsynthesizer::spec_route(
                        synths[i as int].mapping@,
                        channel,
                        active_program,
                    ),
                    mapped == destinations@.map_values(|c: u8| (i as usize, c)),
                    j <= destinations@.len(),
                    out@ == out_before + mapped.take(j as int),
                decreases destinations@.len() - j,
            {
                out.push((i, destinations[j]));
                j = j + 1;
                proof {
                    assert(out@ =~= out_before + mapped.take(j as int));
                }
            }
            proof {
                assert(mapped.take(destinations@.len() as int) =~= mapped);
                assert(out@ =~= out_before + mapped);
            }
            i = i + 1;
        }
        proof {
            assert(spec_dispatch_from(synths, n as int, channel, active_program) =~= Seq::<
                (usize, u8),
            >::empty());
            assert(out@ + Seq::<(usize, u8)>::empty() =~= out@);
        }
        out
    }

    /// Handles a system-exclusive event: only its delta time matters to the
    /// run.
    pub fn sys_ex_event(&mut self, delta_time: u32)
        requires
            old(self).wf(),
            old(self).current_pulse + delta_time <= u64::MAX,
        ensures
            final(self).wf(),
            final(self).current_pulse == old(self).current_pulse + delta_time,
            final(self).max_pulse == (if old(self).current_pulse + delta_time > old(
                self,
            ).max_pulse {
                old(self).current_pulse + delta_time
            } else {
                old(self).max_pulse as int
            }),
            *final(self) == (MIDIHandlerData {
                current_pulse: final(self).current_pulse,
                max_pulse: final(self).max_pulse,
                ..*old(self)
            }),
    {
        self.add_delta_time(delta_time);
    }

    /// Handles a track boundary: each track counts delta times from its own
    /// start, so the cursor rewinds; the active-program table is kept, MIDI
    /// program state persists across tracks.
    pub fn track_change(&mut self)
        requires
            old(self).wf(),
        ensures
            final(self).wf(),
            *final(self) == (MIDIHandlerData { current_pulse: 0, ..*old(self) }),
    {
        self.reset_current_pulse();
    }
}

/// Law: with an ordered tempo map and a known division, pulse-to-time is
/// monotone — querying a later pulse never yields an earlier time — and
/// pulse zero maps to time zero.
pub proof fn lemma_pulse_to_time_monotonic(d: MIDIHandlerData, p1: u64, p2: u64)
    requires
        d.wf(),
        d.pulses_per_quarter_note != 0,
        p1 <= p2,
    ensures
        spec_pulse_to_time(d.tempo_changes@, d.pulses_per_quarter_note as int, p1 as int)
            <= spec_pulse_to_time(d.tempo_changes@, d.pulses_per_quarter_note as int, p2 as int),
        spec_pulse_to_time(d.tempo_changes@, d.pulses_per_quarter_note as int, 0) == 0,
{
    let cs = d.tempo_changes@;
    let ppqn = d.pulses_per_quarter_note as int;
    if cs.len() == 0 {
        lemma_mul_inequality(p1 as int, p2 as int, DEFAULT_US_PER_QUARTER_NOTE as int);
    } else {
        lemma_walk_monotone(cs, p1 as int, p2 as int, 0, 0);
        lemma_walk_at_zero(cs, 0);
    }
    lemma_div_is_ordered(
        spec_time_numerator(cs, p1 as int),
        spec_time_numerator(cs, p2 as int),
        ppqn,
    );
    vstd::arithmetic::div_mod::lemma_div_of0(ppqn);
}

} // verus!
