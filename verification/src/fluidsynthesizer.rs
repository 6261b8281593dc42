//! Channel routing and synthesizer building.
//!
//! A synthesizer declaration is resolved at build time into a routing table:
//! every destination of every condition gets the next unused engine channel,
//! in declaration order.  At run time an event is routed to the destination
//! channels of the first condition that matches it.  The engine itself is
//! driven by an unverified shell; this module only decides, and hands the
//! shell a plan of plain commands to perform.

use vstd::prelude::*;

use crate::errors::{ConfigFault, RenderError};
use crate::gm::{gm_program_of, program_nr_of};
use crate::types::{
    TOMLCondition, TOMLDestination, TOMLMapping, TOMLRenderSettings, TOMLSynth, TOMLSynthSetting,
    TOMLSynthSoundfont,
};

verus! {

/// A resolved routing condition: exactly one discriminant, by construction.
/// A malformed condition (both or neither field of the configuration set) is
/// rejected while the routing is resolved and cannot reach match time.
#[derive(Debug, Clone, Copy, PartialEq, Eq, Structural)]
pub enum RoutingCondition {
    /// Matches every event on this input channel.
    Channel(u8),
    /// Matches every event whose input channel currently has this program
    /// active.
    Program(u8),
}

/// One resolved routing entry: the engine channels that events matching the
/// condition are forwarded to.
#[derive(Debug)]
pub struct FluidSynthesizerMapping {
    pub condition: RoutingCondition,
    pub destinations: Vec<u8>,
}

/// A program-select command for the engine shell: program the soundfont,
/// bank and program of one engine channel.
#[derive(Debug, Clone, Copy, PartialEq, Eq, Structural)]
pub struct ProgramSelect {
    pub channel: u8,
    pub soundfont: u32,
    pub bank: u32,
    pub program: u8,
}

/// The routing state of one synthesizer instance.  The engine handles that
/// belong to it live in the unverified shell; here stand the values the
/// routing logic owns: the gain to apply, the channel-allocation counter and
/// the resolved routing table.
#[derive(Debug)]
pub struct FluidSynthesizer {
    /// Bit pattern of the gain, an IEEE-754 single; opaque to the core.
    pub gain: u32,
    /// Channel-allocation counter: channels below it are taken.
    pub used_channels: u16,
    pub mapping: Vec<FluidSynthesizerMapping>,
}

/// Does one condition accept an event on `channel` whose channel currently
/// has `active_program` active?  A program condition needs a recorded
/// program; before any program change on the channel it matches nothing.
pub open spec fn spec_condition_matches(
    c: RoutingCondition,
    channel: u8,
    active_program: Option<u8>,
) -> bool {
    match c {
        RoutingCondition::Channel(ch) => channel == ch,
        RoutingCondition::Program(p) => active_program == Some(p),
    }
}

/// The destination channels of an event: those of the first matching entry,
/// or none.  First match wins; the declaration order of the entries is their
/// priority.
pub open spec fn spec_route(
    mapping: Seq<FluidSynthesizerMapping>,
    channel: u8,
    active_program: Option<u8>,
) -> Seq<u8>
    decreases mapping.len(),
{
    if mapping.len() == 0 {
        Seq::empty()
    } else if spec_condition_matches(mapping[0].condition, channel, active_program) {
        mapping[0].destinations@
    } else {
        spec_route(mapping.drop_first(), channel, active_program)
    }
}

/// How many of a configured condition's fields are populated; a condition
/// is well formed exactly when this is one.
pub open spec fn spec_condition_field_count(c: TOMLCondition) -> int {
    (if c.channel is Some {
        1int
    } else {
        0int
    }) + (if c.program is Some {
        1int
    } else {
        0int
    })
}

/// A configured condition carries exactly one discriminant.
pub open spec fn spec_condition_valid(c: TOMLCondition) -> bool {
    spec_condition_field_count(c) == 1
}

/// The resolved form of a configured condition: nothing when the condition
/// is malformed or names an instrument outside the General MIDI table.
pub open spec fn spec_resolve_condition(c: TOMLCondition) -> Option<RoutingCondition> {
    match c.channel {
        Some(ch) => if c.program is None {
            Some(RoutingCondition::Channel(ch))
        } else {
            None
        },
        None => match c.program {
            Some(name) => match gm_program_of(name@) {
                Some(p) => Some(RoutingCondition::Program(p)),
                None => None,
            },
            None => None,
        },
    }
}

/// The configuration fault of a condition that does not resolve.
pub open spec fn spec_condition_error(c: TOMLCondition) -> RenderError {
    if !spec_condition_valid(c) {
        RenderError::ConfigError(ConfigFault::AmbiguousCondition)
    } else {
        RenderError::ConfigError(ConfigFault::UnknownInstrument { name: c.program.unwrap() })
    }
}

/// The bank of a destination; unset means bank zero.
pub open spec fn spec_dest_bank(d: TOMLDestination) -> u32 {
    match d.bank {
        Some(b) => b,
        None => 0,
    }
}

/// The program of a destination: the raw number wins where both it and a
/// name are given; a raw number too large for a program slot, an unknown
/// name, or neither field resolves to nothing.
pub open spec fn spec_dest_program(d: TOMLDestination) -> Option<u8> {
    match d.program_nr {
        Some(n) => if n <= 255 {
            Some(n as u8)
        } else {
            None
        },
        None => match d.program {
            Some(name) => gm_program_of(name@),
            None => None,
        },
    }
}

/// The configuration fault of a destination whose program does not resolve.
pub open spec fn spec_dest_error(d: TOMLDestination) -> RenderError {
    match d.program_nr {
        Some(n) => RenderError::ConfigError(ConfigFault::ProgramNumberTooLarge { number: n }),
        None => match d.program {
            Some(name) => RenderError::ConfigError(ConfigFault::UnknownInstrument { name }),
            None => RenderError::ConfigError(ConfigFault::MissingDestinationProgram),
        },
    }
}

/// Every destination of the list has a resolvable program.
pub open spec fn spec_dests_resolvable(dests: Seq<TOMLDestination>) -> bool {
    forall|i: int| 0 <= i < dests.len() ==> spec_dest_program(#[trigger] dests[i]) is Some
}

/// The fault of the first destination that does not resolve.
pub open spec fn spec_first_dest_error(dests: Seq<TOMLDestination>) -> RenderError
    decreases dests.len(),
{
    if dests.len() == 0 {
        arbitrary()
    } else if spec_dest_program(dests[0]) is None {
        spec_dest_error(dests[0])
    } else {
        spec_first_dest_error(dests.drop_first())
    }
}

/// When every destination before `i` resolves and the one at `i` does not,
/// the first fault of the list is the fault at `i`.
proof fn lemma_first_dest_error_at(dests: Seq<TOMLDestination>, i: int)
    requires
        0 <= i < dests.len(),
        forall|j: int| 0 <= j < i ==> spec_dest_program(#[trigger] dests[j]) is Some,
        spec_dest_program(dests[i]) is None,
    ensures
        spec_first_dest_error(dests) == spec_dest_error(dests[i]),
        !spec_dests_resolvable(dests),
    decreases i,
{
    if i > 0 {
        let rest = dests.drop_first();
        assert forall|j: int| 0 <= j < i - 1 implies spec_dest_program(
            #[trigger] rest[j],
        ) is Some by {
            assert(rest[j] == dests[j + 1]);
        }
        assert(rest[i - 1] == dests[i]);
        lemma_first_dest_error_at(rest, i - 1);
    }
}

/// The channels a block of `count` destinations receives when allocation
/// starts at `start`: consecutive indices from `start` on.
pub open spec fn spec_channels_for(count: int, start: int) -> Seq<u8> {
    Seq::new(count as nat, |i: int| (start + i) as u8)
}

/// The program-select commands a destination block produces: one per
/// destination, on consecutive channels from `start` on.
pub open spec fn spec_selects_for(dests: Seq<TOMLDestination>, start: int) -> Seq<ProgramSelect> {
    Seq::new(
        dests.len(),
        |i: int|
            ProgramSelect {
                channel: (start + i) as u8,
                soundfont: dests[i].soundfont,
                bank: spec_dest_bank(dests[i]),
                program: spec_dest_program(dests[i]).unwrap(),
            },
    )
}

/// One routing entry resolves when its condition does, its destinations
/// all do, and its block of channels fits under the capacity.
pub open spec fn spec_entry_ok(
    c: TOMLCondition,
    dests: Seq<TOMLDestination>,
    start: int,
    capacity: int,
) -> bool {
    &&& spec_resolve_condition(c) is Some
    &&& start + dests.len() <= capacity
    &&& spec_dests_resolvable(dests)
}

/// The error of a routing entry that does not resolve: condition faults
/// first, then the capacity, then the first destination fault.
pub open spec fn spec_entry_error(
    c: TOMLCondition,
    dests: Seq<TOMLDestination>,
    start: u16,
    capacity: u16,
) -> RenderError {
    if spec_resolve_condition(c) is None {
        spec_condition_error(c)
    } else if start + dests.len() > capacity {
        RenderError::CapacityError { used: start, requested: dests.len() as usize, capacity }
    } else {
        spec_first_dest_error(dests)
    }
}

/// Resolves one configured condition, or says why it is rejected.  This is
/// where a malformed condition is caught: at load, never at match time.
pub fn resolve_condition(c: &TOMLCondition) -> (r: Result<RoutingCondition, RenderError>)
    ensures
        match r {
            Ok(rc) => spec_resolve_condition(*c) == Some(rc),
            Err(e) => {
                &&& spec_resolve_condition(*c) is None
                &&& e == spec_condition_error(*c)
            },
        },
{
    match &c.channel {
        Some(ch) => {
            if c.program.is_some() {
                Err(RenderError::ConfigError(ConfigFault::AmbiguousCondition))
            } else {
                Ok(RoutingCondition::Channel(*ch))
            }
        },
        None => match &c.program {
            Some(name) => match program_nr_of(name) {
                Some(p) => Ok(RoutingCondition::Program(p)),
                None => Err(
                    RenderError::ConfigError(ConfigFault::UnknownInstrument { name: name.clone() }),
                ),
            },
            None => Err(RenderError::ConfigError(ConfigFault::AmbiguousCondition)),
        },
    }
}

/// Resolves the program and bank of one destination, or says why it is
/// rejected.
pub fn resolve_destination(d: &TOMLDestination) -> (r: Result<(u8, u32), RenderError>)
    ensures
        match r {
            Ok(pb) => {
                &&& spec_dest_program(*d) == Some(pb.0)
                &&& pb.1 == spec_dest_bank(*d)
            },
            Err(e) => {
                &&& spec_dest_program(*d) is None
                &&& e == spec_dest_error(*d)
            },
        },
{
    let program: u8 = match d.program_nr {
        Some(n) => {
            if n <= 255 {
                n as u8
            } else {
                return Err(
                    RenderError::ConfigError(ConfigFault::ProgramNumberTooLarge { number: n }),
                );
            }
        },
        None => match &d.program {
            Some(name) => match program_nr_of(name) {
                Some(p) => p,
                None => {
                    return Err(
                        RenderError::ConfigError(
                            ConfigFault::UnknownInstrument { name: name.clone() },
                        ),
                    );
                },
            },
            None => {
                return Err(RenderError::ConfigError(ConfigFault::MissingDestinationProgram));
            },
        },
    };
    let bank: u32 = match d.bank {
        Some(b) => b,
        None => 0,
    };
    Ok((program, bank))
}

/// Resolves one routing entry: allocates the next `destinations.len()`
/// channels from `start` on, resolves every destination onto its channel,
/// and returns the finished entry with its program-select commands.
/// Nothing is committed on an error.
pub fn generate_single_mapping(
    condition: &TOMLCondition,
    destinations: &Vec<TOMLDestination>,
    start: u16,
    capacity: u16,
) -> (r: Result<(FluidSynthesizerMapping, Vec<ProgramSelect>), RenderError>)
    requires
        start <= capacity,
        capacity <= 256,
    ensures
        match r {
            Ok(p) => {
                &&& spec_entry_ok(*condition, destinations@, start as int, capacity as int)
                &&& p.0.condition == spec_resolve_condition(*condition).unwrap()
                &&& p.0.destinations@ == spec_channels_for(
                    destinations@.len() as int,
                    start as int,
                )
                &&& p.1@ == spec_selects_for(destinations@, start as int)
            },
            Err(e) => {
                &&& !spec_entry_ok(*condition, destinations@, start as int, capacity as int)
                &&& e == spec_entry_error(*condition, destinations@, start, capacity)
            },
        },
{
    let resolved: RoutingCondition = match resolve_condition(condition) {
        Ok(rc) => rc,
        Err(e) => {
            return Err(e);
        },
    };
    let n_dest = destinations.len();
    if n_dest > (capacity - start) as usize {
        return Err(
            RenderError::CapacityError { used: start, requested: n_dest, capacity },
        );
    }
    let mut chans: Vec<u8> = Vec::new();
    let mut sels: Vec<ProgramSelect> = Vec::new();
    let mut i: usize = 0;
    proof {
        assert(chans@ =~= spec_channels_for(0, start as int));
        assert(sels@ =~= spec_selects_for(destinations@.take(0), start as int));
    }
    while i < n_dest
        invariant
            n_dest == destinations@.len(),
            start + n_dest <= capacity,
            capacity <= 256,
            i <= n_dest,
            spec_resolve_condition(*condition) is Some,
            forall|j: int| 0 <= j < i ==> spec_dest_program(#[trigger] destinations@[j]) is Some,
            chans@ == spec_channels_for(i as int, start as int),
            sels@ == spec_selects_for(destinations@.take(i as int), start as int),
        decreases n_dest - i,
    {
        let d = &destinations[i];
        match resolve_destination(d) {
            Ok(pb) => {
                let ch: u8 = (start + i as u16) as u8;
                chans.push(ch);
                sels.push(
                    ProgramSelect {
                        channel: ch,
                        soundfont: d.soundfont,
                        bank: pb.1,
                        program: pb.0,
                    },
                );
                proof {
                    assert(chans@ =~= spec_channels_for(i as int + 1, start as int));
                    assert(sels@ =~= spec_selects_for(
                        destinations@.take(i as int + 1),
                        start as int,
                    ));
                }
            },
            Err(e) => {
                proof {
                    lemma_first_dest_error_at(destinations@, i as int);
                }
                return Err(e);
            },
        }
        i = i + 1;
    }
    proof {
        assert(destinations@.take(n_dest as int) =~= destinations@);
    }
    Ok((FluidSynthesizerMapping { condition: resolved, destinations: chans }, sels))
}

/// The routing entries a list resolves when allocation starts at `start`:
/// every entry's block must fit and resolve, each block starting where the
/// previous one ended.
pub open spec fn spec_entries_ok(
    entries: Seq<(TOMLCondition, Seq<TOMLDestination>)>,
    start: int,
    capacity: int,
) -> bool
    decreases entries.len(),
{
    if entries.len() == 0 {
        true
    } else {
        &&& spec_entry_ok(entries[0].0, entries[0].1, start, capacity)
        &&& spec_entries_ok(entries.drop_first(), start + entries[0].1.len(), capacity)
    }
}

/// How many channels a list of routing entries consumes.
pub open spec fn spec_total_dests(entries: Seq<(TOMLCondition, Seq<TOMLDestination>)>) -> int
    decreases entries.len(),
{
    if entries.len() == 0 {
        0
    } else {
        entries[0].1.len() + spec_total_dests(entries.drop_first())
    }
}

/// The resolved view of a list of routing entries: condition and channel
/// block of each, blocks consecutive from `start` on.
pub open spec fn spec_entry_views(
    entries: Seq<(TOMLCondition, Seq<TOMLDestination>)>,
    start: int,
) -> Seq<(RoutingCondition, Seq<u8>)>
    decreases entries.len(),
{
    if entries.len() == 0 {
        Seq::empty()
    } else {
        seq![
            (
                spec_resolve_condition(entries[0].0).unwrap(),
                spec_channels_for(entries[0].1.len() as int, start),
            ),
        ] + spec_entry_views(entries.drop_first(), start + entries[0].1.len())
    }
}

/// The program-select commands a list of routing entries produces.
pub open spec fn spec_entry_selects(
    entries: Seq<(TOMLCondition, Seq<TOMLDestination>)>,
    start: int,
) -> Seq<ProgramSelect>
    decreases entries.len(),
{
    if entries.len() == 0 {
        Seq::empty()
    } else {
        spec_selects_for(entries[0].1, start) + spec_entry_selects(
            entries.drop_first(),
            start + entries[0].1.len(),
        )
    }
}

/// The error of the first routing entry that does not resolve.
pub open spec fn spec_entries_error(
    entries: Seq<(TOMLCondition, Seq<TOMLDestination>)>,
    start: u16,
    capacity: u16,
) -> RenderError
    decreases entries.len(),
{
    if entries.len() == 0 {
        arbitrary()
    } else if !spec_entry_ok(entries[0].0, entries[0].1, start as int, capacity as int) {
        spec_entry_error(entries[0].0, entries[0].1, start, capacity)
    } else {
        spec_entries_error(
            entries.drop_first(),
            (start + entries[0].1.len()) as u16,
            capacity,
        )
    }
}

/// How a resolved list splits over concatenation: totals add, views and
/// selects concatenate with the second block shifted by the first's total,
/// resolution of the whole is resolution of both halves, and the first
/// fault of the second half is the first fault of the whole.
proof fn lemma_entries_split(
    a: Seq<(TOMLCondition, Seq<TOMLDestination>)>,
    b: Seq<(TOMLCondition, Seq<TOMLDestination>)>,
    start: u16,
    capacity: u16,
)
    requires
        start <= capacity,
        capacity <= 256,
        spec_entries_ok(a, start as int, capacity as int),
    ensures
        start + spec_total_dests(a) <= capacity,
        spec_total_dests(a + b) == spec_total_dests(a) + spec_total_dests(b),
        spec_entry_views(a + b, start as int) == spec_entry_views(a, start as int)
            + spec_entry_views(b, start + spec_total_dests(a)),
        spec_entry_selects(a + b, start as int) == spec_entry_selects(a, start as int)
            + spec_entry_selects(b, start + spec_total_dests(a)),
        spec_entries_ok(a + b, start as int, capacity as int) <==> spec_entries_ok(
            b,
            start + spec_total_dests(a),
            capacity as int,
        ),
        (b.len() > 0 && !spec_entries_ok(b, start + spec_total_dests(a), capacity as int))
            ==> spec_entries_error(a + b, start, capacity) == spec_entries_error(
            b,
            (start + spec_total_dests(a)) as u16,
            capacity,
        ),
    decreases a.len(),
{
    if a.len() == 0 {
        assert(a + b =~= b);
    } else {
        let head = a[0];
        let start2 = (start + head.1.len()) as u16;
        assert((a + b).drop_first() =~= a.drop_first() + b);
        assert((a + b)[0] == head);
        lemma_entries_split(a.drop_first(), b, start2, capacity);
        assert(spec_entry_views(a + b, start as int) =~= spec_entry_views(a, start as int)
            + spec_entry_views(b, start + spec_total_dests(a)));
        assert(spec_entry_selects(a + b, start as int) =~= spec_entry_selects(a, start as int)
            + spec_entry_selects(b, start + spec_total_dests(a)));
    }
}

/// A list of one routing entry, resolved: the entry's own block.
proof fn lemma_entries_singleton(
    entry: (TOMLCondition, Seq<TOMLDestination>),
    start: int,
    capacity: int,
)
    ensures
        spec_total_dests(seq![entry]) == entry.1.len(),
        spec_entry_views(seq![entry], start) =~= seq![
            (
                spec_resolve_condition(entry.0).unwrap(),
                spec_channels_for(entry.1.len() as int, start),
            ),
        ],
        spec_entry_selects(seq![entry], start) =~= spec_selects_for(entry.1, start),
        spec_entries_ok(seq![entry], start, capacity) <==> spec_entry_ok(
            entry.0,
            entry.1,
            start,
            capacity,
        ),
{
    let single = seq![entry];
    let empty = Seq::<(TOMLCondition, Seq<TOMLDestination>)>::empty();
    assert(single.len() == 1);
    assert(single[0] == entry);
    assert(single.drop_first() =~= empty);
    assert(spec_total_dests(empty) == 0);
    assert(spec_total_dests(single) == entry.1.len() + spec_total_dests(single.drop_first()));
    assert(spec_entry_views(empty, start + entry.1.len()) =~= Seq::<
        (RoutingCondition, Seq<u8>),
    >::empty());
    assert(spec_entry_views(single, start) == seq![
        (
            spec_resolve_condition(entry.0).unwrap(),
            spec_channels_for(entry.1.len() as int, start),
        ),
    ] + spec_entry_views(single.drop_first(), start + entry.1.len()));
    assert(spec_entry_views(single, start) =~= seq![
        (
            spec_resolve_condition(entry.0).unwrap(),
            spec_channels_for(entry.1.len() as int, start),
        ),
    ]);
    assert(spec_entry_selects(empty, start + entry.1.len()) =~= Seq::<ProgramSelect>::empty());
    assert(spec_entry_selects(single, start) == spec_selects_for(entry.1, start)
        + spec_entry_selects(single.drop_first(), start + entry.1.len()));
    assert(spec_entry_selects(single, start) =~= spec_selects_for(entry.1, start));
    assert(spec_entries_ok(single.drop_first(), start + entry.1.len(), capacity));
}

/// The routing entries of one named route: each of its conditions paired
/// with the shared destination list.
pub open spec fn spec_route_entries(m: TOMLMapping) -> Seq<
    (TOMLCondition, Seq<TOMLDestination>),
> {
    m.condition@.map_values(|c: TOMLCondition| (c, m.destination@))
}

/// All routing entries of a synthesizer declaration, named routes in
/// declaration order, conditions of a route in their order.
pub open spec fn spec_flatten_mappings(mappings: Seq<(String, TOMLMapping)>) -> Seq<
    (TOMLCondition, Seq<TOMLDestination>),
>
    decreases mappings.len(),
{
    if mappings.len() == 0 {
        Seq::empty()
    } else {
        spec_route_entries(mappings[0].1) + spec_flatten_mappings(mappings.drop_first())
    }
}

/// The condition/channel view of a resolved routing table.
pub open spec fn views_of(ms: Seq<FluidSynthesizerMapping>) -> Seq<(RoutingCondition, Seq<u8>)> {
    ms.map_values(|m: FluidSynthesizerMapping| (m.condition, m.destinations@))
}

/// Resolves every routing entry of one synthesizer declaration, in
/// declaration order, and advances the synthesizer's channel counter by the
/// channels consumed.  On an error nothing is committed: the synthesizer
/// stands unchanged and no command is handed out.
pub fn generate_mapping(
    synthsettings: &TOMLSynth,
    synth: &mut FluidSynthesizer,
    capacity: u16,
) -> (r: Result<(Vec<FluidSynthesizerMapping>, Vec<ProgramSelect>), RenderError>)
    requires
        old(synth).used_channels <= capacity,
        capacity <= 256,
    ensures
        match r {
            Ok(p) => {
                &&& spec_entries_ok(
                    spec_flatten_mappings(synthsettings.mapping@),
                    old(synth).used_channels as int,
                    capacity as int,
                )
                &&& views_of(p.0@) == spec_entry_views(
                    spec_flatten_mappings(synthsettings.mapping@),
                    old(synth).used_channels as int,
                )
                &&& p.1@ == spec_entry_selects(
                    spec_flatten_mappings(synthsettings.mapping@),
                    old(synth).used_channels as int,
                )
                &&& final(synth).used_channels == old(synth).used_channels + spec_total_dests(
                    spec_flatten_mappings(synthsettings.mapping@),
                )
                &&& final(synth).used_channels <= capacity
                &&& final(synth).gain == old(synth).gain
                &&& final(synth).mapping == old(synth).mapping
            },
            Err(e) => {
                &&& *final(synth) == *old(synth)
                &&& !spec_entries_ok(
                    spec_flatten_mappings(synthsettings.mapping@),
                    old(synth).used_channels as int,
                    capacity as int,
                )
                &&& e == spec_entries_error(
                    spec_flatten_mappings(synthsettings.mapping@),
                    old(synth).used_channels,
                    capacity,
                )
            },
        },
{
    let ghost e_full = spec_flatten_mappings(synthsettings.mapping@);
    let start0: u16 = synth.used_channels;
    let mut counter: u16 = start0;
    let mut mappings: Vec<FluidSynthesizerMapping> = Vec::new();
    let mut selects: Vec<ProgramSelect> = Vec::new();
    let ghost mut processed: Seq<(TOMLCondition, Seq<TOMLDestination>)> = Seq::empty();
    let n_routes = synthsettings.mapping.len();
    let mut k: usize = 0;
    proof {
        assert(synthsettings.mapping@.skip(0) =~= synthsettings.mapping@);
        assert(processed + e_full =~= e_full);
        assert(views_of(mappings@) =~= spec_entry_views(processed, start0 as int));
        assert(selects@ =~= spec_entry_selects(processed, start0 as int));
    }
    while k < n_routes
        invariant
            e_full == spec_flatten_mappings(synthsettings.mapping@),
            n_routes == synthsettings.mapping@.len(),
            k <= n_routes,
            start0 == old(synth).used_channels,
            start0 <= capacity,
            capacity <= 256,
            *synth == *old(synth),
            spec_entries_ok(processed, start0 as int, capacity as int),
            counter == start0 + spec_total_dests(processed),
            counter <= capacity,
            views_of(mappings@) == spec_entry_views(processed, start0 as int),
            selects@ == spec_entry_selects(processed, start0 as int),
            e_full == processed + spec_flatten_mappings(synthsettings.mapping@.skip(k as int)),
        decreases n_routes - k,
    {
        let route = &synthsettings.mapping[k];
        let n_conds = route.1.condition.len();
        let mut j: usize = 0;
        proof {
            assert(synthsettings.mapping@.skip(k as int)[0] == synthsettings.mapping@[k as int]);
            assert(synthsettings.mapping@.skip(k as int).drop_first()
                =~= synthsettings.mapping@.skip(k as int + 1));
            assert(spec_route_entries(route.1).skip(0) =~= spec_route_entries(route.1));
            assert(e_full =~= processed + (spec_route_entries(route.1).skip(0)
                + spec_flatten_mappings(synthsettings.mapping@.skip(k as int + 1))));
        }
        while j < n_conds
            invariant
                e_full == spec_flatten_mappings(synthsettings.mapping@),
                n_conds == route.1.condition@.len(),
                j <= n_conds,
                start0 == old(synth).used_channels,
                start0 <= capacity,
                capacity <= 256,
                *synth == *old(synth),
                spec_entries_ok(processed, start0 as int, capacity as int),
                counter == start0 + spec_total_dests(processed),
                counter <= capacity,
                views_of(mappings@) == spec_entry_views(processed, start0 as int),
                selects@ == spec_entry_selects(processed, start0 as int),
                e_full == processed + (spec_route_entries(route.1).skip(j as int)
                    + spec_flatten_mappings(
                    synthsettings.mapping@.skip(k as int + 1),
                )),
            decreases n_conds - j,
        {
            let ghost entry = (route.1.condition@[j as int], route.1.destination@);
            proof {
                assert(spec_route_entries(route.1)[j as int] == entry);
                assert(spec_route_entries(route.1).skip(j as int)[0] == entry);
                assert(spec_route_entries(route.1).skip(j as int).drop_first()
                    =~= spec_route_entries(route.1).skip(j as int + 1));
                assert(spec_route_entries(route.1).skip(j as int) =~= seq![entry]
                    + spec_route_entries(route.1).skip(j as int + 1));
            }
            let cond = &route.1.condition[j];
            match generate_single_mapping(cond, &route.1.destination, counter, capacity) {
                Ok(p) => {
                    proof {
                        lemma_entries_split(processed, seq![entry], start0, capacity);
                        lemma_entries_singleton(entry, counter as int, capacity as int);
                    }
                    let add_len = route.1.destination.len();
                    let mapping_entry = p.0;
                    let mut entry_selects = p.1;
                    let ghost mappings_before = mappings@;
                    mappings.push(mapping_entry);
                    selects.append(&mut entry_selects);
                    counter = counter + add_len as u16;
                    proof {
                        let processed_before = processed;
                        processed = processed.push(entry);
                        assert(processed =~= processed_before + seq![entry]);
                        assert(views_of(mappings@) =~= views_of(mappings_before).push(
                            (mapping_entry.condition, mapping_entry.destinations@),
                        ));
                        assert(spec_entry_views(processed_before, start0 as int).push(
                            (
                                spec_resolve_condition(entry.0).unwrap(),
                                spec_channels_for(entry.1.len() as int, counter - add_len),
                            ),
                        ) =~= spec_entry_views(processed_before, start0 as int)
                            + spec_entry_views(seq![entry], counter - add_len));
                        assert(e_full =~= processed + (spec_route_entries(route.1).skip(
                            j as int + 1,
                        ) + spec_flatten_mappings(synthsettings.mapping@.skip(k as int + 1))));
                    }
                },
                Err(e) => {
                    proof {
                        let suffix = spec_route_entries(route.1).skip(j as int)
                            + spec_flatten_mappings(synthsettings.mapping@.skip(k as int + 1));
                        assert(suffix[0] == entry);
                        lemma_entries_split(processed, suffix, start0, capacity);
                    }
                    return Err(e);
                },
            }
            j = j + 1;
        }
        proof {
            assert(spec_route_entries(route.1).skip(n_conds as int) =~= Seq::<
                (TOMLCondition, Seq<TOMLDestination>),
            >::empty());
            assert(e_full =~= processed + spec_flatten_mappings(
                synthsettings.mapping@.skip(k as int + 1),
            ));
        }
        k = k + 1;
    }
    proof {
        assert(synthsettings.mapping@.skip(n_routes as int) =~= Seq::<
            (String, TOMLMapping),
        >::empty());
        assert(e_full =~= processed);
    }
    synth.used_channels = counter;
    Ok((mappings, selects))
}

/// Law: first match wins.  When no entry before `k` matches an event and
/// the entry at `k` does, the event routes to exactly the destination
/// channels of entry `k` — however many later entries would also match.
pub proof fn lemma_route_first_match(
    mapping: Seq<FluidSynthesizerMapping>,
    k: int,
    channel: u8,
    active_program: Option<u8>,
)
    requires
        0 <= k < mapping.len(),
        forall|i: int|
            0 <= i < k ==> !spec_condition_matches(
                #[trigger] mapping[i].condition,
                channel,
                active_program,
            ),
        spec_condition_matches(mapping[k].condition, channel, active_program),
    ensures
        spec_route(mapping, channel, active_program) == mapping[k].destinations@,
    decreases k,
{
    if k > 0 {
        let rest = mapping.drop_first();
        assert forall|i: int| 0 <= i < k - 1 implies !spec_condition_matches(
            #[trigger] rest[i].condition,
            channel,
            active_program,
        ) by {
            assert(rest[i] == mapping[i + 1]);
        }
        assert(rest[k - 1] == mapping[k]);
        lemma_route_first_match(rest, k - 1, channel, active_program);
    }
}

/// Law: an event no entry matches is unrouted — it receives the empty
/// channel set.
pub proof fn lemma_route_no_match(
    mapping: Seq<FluidSynthesizerMapping>,
    channel: u8,
    active_program: Option<u8>,
)
    requires
        forall|i: int|
            0 <= i < mapping.len() ==> !spec_condition_matches(
                #[trigger] mapping[i].condition,
                channel,
                active_program,
            ),
    ensures
        spec_route(mapping, channel, active_program) == Seq::<u8>::empty(),
    decreases mapping.len(),
{
    if mapping.len() > 0 {
        let rest = mapping.drop_first();
        assert forall|i: int| 0 <= i < rest.len() implies !spec_condition_matches(
            #[trigger] rest[i].condition,
            channel,
            active_program,
        ) by {
            assert(rest[i] == mapping[i + 1]);
        }
        lemma_route_no_match(rest, channel, active_program);
    }
}

/// Exact copy of a channel list.
fn copy_channels(v: &Vec<u8>) -> (r: Vec<u8>)
    ensures
        r@ == v@,
{
    let mut r: Vec<u8> = Vec::new();
    let mut i: usize = 0;
    while i < v.len()
        invariant
            i <= v.len(),
            r@ == v@.take(i as int),
        decreases v.len() - i,
    {
        r.push(v[i]);
        i = i + 1;
        proof {
            assert(r@ =~= v@.take(i as int));
        }
    }
    proof {
        assert(v@.take(v@.len() as int) =~= v@);
    }
    r
}

/// Decides whether one resolved condition accepts an event.
pub fn condition_matches(c: &RoutingCondition, channel: u8, active_program: Option<u8>) -> (r:
    bool)
    ensures
        r == spec_condition_matches(*c, channel, active_program),
{
    match c {
        RoutingCondition::Channel(ch) => channel == *ch,
        RoutingCondition::Program(p) => match active_program {
            Some(active) => active == *p,
            None => false,
        },
    }
}

impl FluidSynthesizer {
    /// A fresh synthesizer model: unit gain, no channel taken, no routing.
    pub fn new() -> (s: FluidSynthesizer)
        ensures
            s.gain == 0x3F80_0000u32,
            s.used_channels == 0,
            s.mapping@ =~= Seq::<FluidSynthesizerMapping>::empty(),
    {
        FluidSynthesizer { gain: 0x3F80_0000, used_channels: 0, mapping: Vec::new() }
    }

    /// Sets the gain the shell will apply to the engine (as a bit pattern).
    pub fn set_gain(&mut self, gain: u32)
        ensures
            final(self).gain == gain,
            final(self).used_channels == old(self).used_channels,
            final(self).mapping == old(self).mapping,
    {
        self.gain = gain;
    }

    /// Installs a resolved routing table.
    pub fn set_mapping(&mut self, mapping: Vec<FluidSynthesizerMapping>)
        ensures
            final(self).mapping == mapping,
            final(self).gain == old(self).gain,
            final(self).used_channels == old(self).used_channels,
    {
        self.mapping = mapping;
    }

    /// Routes an event to the destination channels of the first matching
    /// entry of this synthesizer; an event no entry matches is silently
    /// unrouted.
    pub fn route(&self, channel: u8, active_program: Option<u8>) -> (r: Vec<u8>)
        ensures
            r@ == spec_route(self.mapping@, channel, active_program),
    {
        let n = self.mapping.len();
        let mut i: usize = 0;
        proof {
            assert(self.mapping@.skip(0) =~= self.mapping@);
        }
        while i < n
            invariant
                n == self.mapping@.len(),
                i <= n,
                spec_route(self.mapping@, channel, active_program) == spec_route(
                    self.mapping@.skip(i as int),
                    channel,
                    active_program,
                ),
            decreases n - i,
        {
            let entry = &self.mapping[i];
            proof {
                assert(self.mapping@.skip(i as int)[0] == self.mapping@[i as int]);
            }
            if condition_matches(&entry.condition, channel, active_program) {
                return copy_channels(&entry.destinations);
            }
            proof {
                assert(self.mapping@.skip(i as int).drop_first() =~= self.mapping@.skip(
                    i as int + 1,
                ));
            }
            i = i + 1;
        }
        proof {
            assert(self.mapping@.skip(n as int) =~= Seq::<FluidSynthesizerMapping>::empty());
        }
        Vec::new()
    }
}

/// One typed engine-setting value: exactly one of the three shapes a
/// configuration entry may carry.  Floating-point values stay bit patterns.
#[derive(Debug)]
pub enum SettingValue {
    Int(i32),
    FloatBits(u64),
    Text(String),
}

/// A validated engine setting for the shell to apply (and read back).
#[derive(Debug)]
pub struct SettingCommand {
    pub name: String,
    pub value: SettingValue,
}

/// How many of a configured setting's value fields are populated; a setting
/// is well formed exactly when this is one.
pub open spec fn spec_setting_field_count(s: TOMLSynthSetting) -> int {
    (if s.value_i is Some {
        1int
    } else {
        0int
    }) + (if s.value_f is Some {
        1int
    } else {
        0int
    }) + (if s.value_s is Some {
        1int
    } else {
        0int
    })
}

/// A configured setting carries exactly one value.
pub open spec fn spec_setting_valid(s: TOMLSynthSetting) -> bool {
    spec_setting_field_count(s) == 1
}

/// The typed value of a well-formed setting.
pub open spec fn spec_setting_value(s: TOMLSynthSetting) -> SettingValue {
    match s.value_i {
        Some(v) => SettingValue::Int(v),
        None => match s.value_f {
            Some(v) => SettingValue::FloatBits(v),
            None => SettingValue::Text(s.value_s.unwrap()),
        },
    }
}

/// The command a well-formed setting turns into.
pub open spec fn spec_setting_command(s: TOMLSynthSetting) -> SettingCommand {
    SettingCommand { name: s.name, value: spec_setting_value(s) }
}

/// Every setting of the list is well formed.
pub open spec fn spec_settings_valid(settings: Seq<TOMLSynthSetting>) -> bool {
    forall|i: int| 0 <= i < settings.len() ==> spec_setting_valid(#[trigger] settings[i])
}

/// The commands of a list of well-formed settings, in order.
pub open spec fn spec_setting_commands(settings: Seq<TOMLSynthSetting>) -> Seq<SettingCommand> {
    settings.map_values(|s: TOMLSynthSetting| spec_setting_command(s))
}

/// The fault of the first malformed setting.
pub open spec fn spec_first_setting_error(settings: Seq<TOMLSynthSetting>) -> RenderError
    decreases settings.len(),
{
    if settings.len() == 0 {
        arbitrary()
    } else if !spec_setting_valid(settings[0]) {
        RenderError::ConfigError(ConfigFault::AmbiguousSettingValue { name: settings[0].name })
    } else {
        spec_first_setting_error(settings.drop_first())
    }
}

/// When every setting before `i` is well formed and the one at `i` is not,
/// the first fault of the list is the fault at `i`.
proof fn lemma_first_setting_error_at(settings: Seq<TOMLSynthSetting>, i: int)
    requires
        0 <= i < settings.len(),
        forall|j: int| 0 <= j < i ==> spec_setting_valid(#[trigger] settings[j]),
        !spec_setting_valid(settings[i]),
    ensures
        spec_first_setting_error(settings) == RenderError::ConfigError(
            ConfigFault::AmbiguousSettingValue { name: settings[i].name },
        ),
        !spec_settings_valid(settings),
    decreases i,
{
    if i > 0 {
        let rest = settings.drop_first();
        assert forall|j: int| 0 <= j < i - 1 implies spec_setting_valid(#[trigger] rest[j]) by {
            assert(rest[j] == settings[j + 1]);
        }
        assert(rest[i - 1] == settings[i]);
        lemma_first_setting_error_at(rest, i - 1);
    }
}

/// Validates one configured setting into a typed command, or says why it is
/// rejected: exactly one of the three value fields must be populated.
pub fn validate_setting(s: &TOMLSynthSetting) -> (r: Result<SettingCommand, RenderError>)
    ensures
        match r {
            Ok(cmd) => {
                &&& spec_setting_valid(*s)
                &&& cmd == spec_setting_command(*s)
            },
            Err(e) => {
                &&& !spec_setting_valid(*s)
                &&& e == RenderError::ConfigError(
                    ConfigFault::AmbiguousSettingValue { name: s.name },
                )
            },
        },
{
    let mut count: u32 = 0;
    if s.value_i.is_some() {
        count = count + 1;
    }
    if s.value_f.is_some() {
        count = count + 1;
    }
    if s.value_s.is_some() {
        count = count + 1;
    }
    if count != 1 {
        return Err(
            RenderError::ConfigError(ConfigFault::AmbiguousSettingValue { name: s.name.clone() }),
        );
    }
    let value: SettingValue = match s.value_i {
        Some(v) => SettingValue::Int(v),
        None => match s.value_f {
            Some(v) => SettingValue::FloatBits(v),
            None => match &s.value_s {
                Some(text) => SettingValue::Text(text.clone()),
                None => {
                    return Err(
                        RenderError::ConfigError(
                            ConfigFault::AmbiguousSettingValue { name: s.name.clone() },
                        ),
                    );
                },
            },
        },
    };
    Ok(SettingCommand { name: s.name.clone(), value })
}

/// Validates a whole setting list in order; the first malformed entry wins.
pub fn validate_settings(settings: &Vec<TOMLSynthSetting>) -> (r: Result<
    Vec<SettingCommand>,
    RenderError,
>)
    ensures
        match r {
            Ok(cmds) => {
                &&& spec_settings_valid(settings@)
                &&& cmds@ == spec_setting_commands(settings@)
            },
            Err(e) => {
                &&& !spec_settings_valid(settings@)
                &&& e == spec_first_setting_error(settings@)
            },
        },
{
    let mut cmds: Vec<SettingCommand> = Vec::new();
    let mut i: usize = 0;
    proof {
        assert(cmds@ =~= spec_setting_commands(settings@.take(0)));
    }
    while i < settings.len()
        invariant
            i <= settings@.len(),
            forall|j: int| 0 <= j < i ==> spec_setting_valid(#[trigger] settings@[j]),
            cmds@ == spec_setting_commands(settings@.take(i as int)),
        decreases settings@.len() - i,
    {
        match validate_setting(&settings[i]) {
            Ok(cmd) => {
                cmds.push(cmd);
                proof {
                    assert(cmds@ =~= spec_setting_commands(settings@.take(i as int + 1)));
                }
            },
            Err(e) => {
                proof {
                    lemma_first_setting_error_at(settings@, i as int);
                }
                return Err(e);
            },
        }
        i = i + 1;
    }
    proof {
        assert(settings@.take(settings@.len() as int) =~= settings@);
    }
    Ok(cmds)
}

/// Exact copy of a soundfont list.
fn copy_soundfonts(v: &Vec<TOMLSynthSoundfont>) -> (r: Vec<TOMLSynthSoundfont>)
    ensures
        r@ == v@,
{
    let mut r: Vec<TOMLSynthSoundfont> = Vec::new();
    let mut i: usize = 0;
    while i < v.len()
        invariant
            i <= v.len(),
            r@ == v@.take(i as int),
        decreases v.len() - i,
    {
        let sf = &v[i];
        r.push(TOMLSynthSoundfont { file: sf.file.clone(), offset: sf.offset });
        i = i + 1;
        proof {
            assert(r@ =~= v@.take(i as int));
        }
    }
    proof {
        assert(v@.take(v@.len() as int) =~= v@);
    }
    r
}

/// Everything the engine shell must perform to build one synthesizer, in
/// order: apply and read back the settings, build the engine, load the
/// soundfonts with their bank offsets, issue the program selects.  The
/// routing state stays here and routes events once the run starts.
#[derive(Debug)]
pub struct SynthPlan {
    pub id: String,
    pub settings: Vec<SettingCommand>,
    pub soundfonts: Vec<TOMLSynthSoundfont>,
    pub program_selects: Vec<ProgramSelect>,
    pub synth: FluidSynthesizer,
}

/// Whether a declaration asks for the fluid synthesis engine; declarations
/// of other engine types are passed over.
pub open spec fn spec_is_fluid(ts: TOMLSynth) -> bool {
    ts.synthtype@ == "fluidsynth"@
}

/// The setting list of a declaration; absent means empty.
pub open spec fn spec_synth_settings(ts: TOMLSynth) -> Seq<TOMLSynthSetting> {
    match ts.setting {
        Some(v) => v@,
        None => Seq::empty(),
    }
}

/// The soundfont list of a declaration; absent means empty.
pub open spec fn spec_synth_soundfonts(ts: TOMLSynth) -> Seq<TOMLSynthSoundfont> {
    match ts.soundfont {
        Some(v) => v@,
        None => Seq::empty(),
    }
}

/// One declaration builds when its settings are well formed and its whole
/// routing resolves within the engine's capacity, channels counted from
/// zero.
pub open spec fn spec_synth_ok(ts: TOMLSynth, capacity: int) -> bool {
    &&& spec_settings_valid(spec_synth_settings(ts))
    &&& spec_entries_ok(spec_flatten_mappings(ts.mapping@), 0, capacity)
}

/// The error of a declaration that does not build: setting faults first,
/// then the routing's first fault.
pub open spec fn spec_synth_error(ts: TOMLSynth, capacity: u16) -> RenderError {
    if !spec_settings_valid(spec_synth_settings(ts)) {
        spec_first_setting_error(spec_synth_settings(ts))
    } else {
        spec_entries_error(spec_flatten_mappings(ts.mapping@), 0, capacity)
    }
}

/// One finished plan against its declaration: the id kept, the settings
/// validated in order, the soundfonts kept in order, the commands and the
/// routing state those of the declaration's resolved routing.
pub open spec fn spec_plan_matches(plan: SynthPlan, id: String, ts: TOMLSynth) -> bool {
    &&& plan.id == id
    &&& plan.settings@ == spec_setting_commands(spec_synth_settings(ts))
    &&& plan.soundfonts@ == spec_synth_soundfonts(ts)
    &&& plan.program_selects@ == spec_entry_selects(spec_flatten_mappings(ts.mapping@), 0)
    &&& plan.synth.gain == ts.gain
    &&& plan.synth.used_channels == spec_total_dests(spec_flatten_mappings(ts.mapping@))
    &&& views_of(plan.synth.mapping@) == spec_entry_views(spec_flatten_mappings(ts.mapping@), 0)
}

/// The plans of a declaration list: one per fluid declaration, in order,
/// each matching its declaration; other engine types contribute none.
pub open spec fn spec_plans_match(plans: Seq<SynthPlan>, synths: Seq<(String, TOMLSynth)>) -> bool
    decreases synths.len(),
{
    if synths.len() == 0 {
        plans.len() == 0
    } else if spec_is_fluid(synths[0].1) {
        &&& plans.len() > 0
        &&& spec_plan_matches(plans[0], synths[0].0, synths[0].1)
        &&& spec_plans_match(plans.drop_first(), synths.drop_first())
    } else {
        spec_plans_match(plans, synths.drop_first())
    }
}

/// Every fluid declaration of the list builds.
pub open spec fn spec_synths_ok(synths: Seq<(String, TOMLSynth)>, capacity: int) -> bool
    decreases synths.len(),
{
    if synths.len() == 0 {
        true
    } else {
        &&& (spec_is_fluid(synths[0].1) ==> spec_synth_ok(synths[0].1, capacity))
        &&& spec_synths_ok(synths.drop_first(), capacity)
    }
}

/// The error of the first fluid declaration that does not build.
pub open spec fn spec_synths_error(synths: Seq<(String, TOMLSynth)>, capacity: u16) -> RenderError
    decreases synths.len(),
{
    if synths.len() == 0 {
        arbitrary()
    } else if spec_is_fluid(synths[0].1) && !spec_synth_ok(synths[0].1, capacity as int) {
        spec_synth_error(synths[0].1, capacity)
    } else {
        spec_synths_error(synths.drop_first(), capacity)
    }
}

/// How building splits over concatenation of declaration lists: the whole
/// builds when both halves do, the plans of the whole are the plans of the
/// halves in order, and the first fault of the second half is the first
/// fault of the whole.
proof fn lemma_synths_split(
    a: Seq<(String, TOMLSynth)>,
    b: Seq<(String, TOMLSynth)>,
    pa: Seq<SynthPlan>,
    pb: Seq<SynthPlan>,
    capacity: u16,
)
    requires
        spec_synths_ok(a, capacity as int),
        spec_plans_match(pa, a),
    ensures
        spec_synths_ok(a + b, capacity as int) <==> spec_synths_ok(b, capacity as int),
        spec_plans_match(pb, b) ==> spec_plans_match(pa + pb, a + b),
        (b.len() > 0 && !spec_synths_ok(b, capacity as int)) ==> spec_synths_error(
            a + b,
            capacity,
        ) == spec_synths_error(b, capacity),
    decreases a.len(),
{
    if a.len() == 0 {
        assert(a + b =~= b);
        if spec_plans_match(pb, b) {
            assert(pa.len() == 0);
            assert(pa + pb =~= pb);
        }
    } else {
        assert((a + b).drop_first() =~= a.drop_first() + b);
        assert((a + b)[0] == a[0]);
        if spec_is_fluid(a[0].1) {
            lemma_synths_split(a.drop_first(), b, pa.drop_first(), pb, capacity);
            if spec_plans_match(pb, b) {
                assert(pa.len() > 0);
                assert((pa + pb).drop_first() =~= pa.drop_first() + pb);
                assert((pa + pb)[0] == pa[0]);
            }
        } else {
            lemma_synths_split(a.drop_first(), b, pa, pb, capacity);
        }
    }
}

/// All destination channels of a resolved routing table, in entry order.
pub open spec fn spec_concat_channels(views: Seq<(RoutingCondition, Seq<u8>)>) -> Seq<u8>
    decreases views.len(),
{
    if views.len() == 0 {
        Seq::empty()
    } else {
        views[0].1 + spec_concat_channels(views.drop_first())
    }
}

/// Law: a resolved routing assigns channel indices that are consecutive
/// from the allocation start on — taken across all destinations of all its
/// entries they read start, start + 1, ..., so they are strictly increasing
/// and pairwise disjoint.  A fresh synthesizer allocates from zero.
pub proof fn lemma_resolve_assigns_disjoint_channels(
    entries: Seq<(TOMLCondition, Seq<TOMLDestination>)>,
    start: int,
    capacity: int,
)
    requires
        spec_entries_ok(entries, start, capacity),
        0 <= start <= capacity,
        capacity <= 256,
    ensures
        start + spec_total_dests(entries) <= capacity,
        spec_concat_channels(spec_entry_views(entries, start)).len() == spec_total_dests(entries),
        forall|t: int|
            0 <= t < spec_total_dests(entries) ==> spec_concat_channels(
                spec_entry_views(entries, start),
            )[t] == (start + t) as u8,
        forall|t1: int, t2: int|
            0 <= t1 < t2 < spec_total_dests(entries) ==> spec_concat_channels(
                spec_entry_views(entries, start),
            )[t1] < spec_concat_channels(spec_entry_views(entries, start))[t2],
    decreases entries.len(),
{
    let views = spec_entry_views(entries, start);
    let chans = spec_concat_channels(views);
    if entries.len() == 0 {
        assert(chans =~= Seq::<u8>::empty());
    } else {
        let head = entries[0];
        let len0 = head.1.len() as int;
        let rest_views = spec_entry_views(entries.drop_first(), start + len0);
        assert(views[0] == (
            spec_resolve_condition(head.0).unwrap(),
            spec_channels_for(len0, start),
        ));
        assert(views.drop_first() =~= rest_views);
        lemma_resolve_assigns_disjoint_channels(entries.drop_first(), start + len0, capacity);
        let rest_chans = spec_concat_channels(rest_views);
        assert(chans == spec_channels_for(len0, start) + rest_chans);
        assert forall|t: int| 0 <= t < spec_total_dests(entries) implies chans[t] == (start
            + t) as u8 by {
            if t < len0 {
                assert(chans[t] == spec_channels_for(len0, start)[t]);
            } else {
                assert(chans[t] == rest_chans[t - len0]);
                assert(rest_chans[t - len0] == (start + len0 + (t - len0)) as u8);
            }
        }
    }
}

/// Builds the plan of every fluid synthesizer declaration, in declaration
/// order, each allocating its channels from zero up to the engine capacity.
/// The first declaration that does not build aborts the whole run with its
/// fault, before anything is performed.
pub fn generate_fluid_synthesizers(settings: &TOMLRenderSettings, capacity: u16) -> (r: Result<
    Vec<SynthPlan>,
    RenderError,
>)
    requires
        capacity <= 256,
    ensures
        match r {
            Ok(plans) => {
                &&& spec_synths_ok(settings.synth@, capacity as int)
                &&& spec_plans_match(plans@, settings.synth@)
            },
            Err(e) => {
                &&& !spec_synths_ok(settings.synth@, capacity as int)
                &&& e == spec_synths_error(settings.synth@, capacity)
            },
        },
{
    let mut plans: Vec<SynthPlan> = Vec::new();
    let n = settings.synth.len();
    let mut k: usize = 0;
    proof {
        assert(settings.synth@.skip(0) =~= settings.synth@);
        assert(spec_plans_match(plans@, settings.synth@.take(0)));
        assert(spec_synths_ok(settings.synth@.take(0), capacity as int));
    }
    while k < n
        invariant
            n == settings.synth@.len(),
            k <= n,
            capacity <= 256,
            spec_synths_ok(settings.synth@.take(k as int), capacity as int),
            spec_plans_match(plans@, settings.synth@.take(k as int)),
        decreases n - k,
    {
        let entry = &settings.synth[k];
        let ghost prefix = settings.synth@.take(k as int);
        let ghost suffix = settings.synth@.skip(k as int);
        proof {
            assert(prefix + suffix =~= settings.synth@);
            assert(suffix[0] == settings.synth@[k as int]);
            assert(settings.synth@.take(k as int + 1) =~= prefix + seq![suffix[0]]);
            assert(seq![suffix[0]].drop_first() =~= Seq::<(String, TOMLSynth)>::empty());
        }
        if entry.1.synthtype.eq(&("fluidsynth".to_owned())) {
            let mut synth = FluidSynthesizer::new();
            synth.set_gain(entry.1.gain);
            let commands: Vec<SettingCommand> = match &entry.1.setting {
                Some(setting_list) => {
                    match validate_settings(setting_list) {
                        Ok(cmds) => cmds,
                        Err(e) => {
                            proof {
                                assert(!spec_synth_ok(entry.1, capacity as int));
                                assert(!spec_synths_ok(suffix, capacity as int));
                                lemma_synths_split(prefix, suffix, plans@, Seq::empty(), capacity);
                            }
                            return Err(e);
                        },
                    }
                },
                None => {
                    let empty_cmds: Vec<SettingCommand> = Vec::new();
                    proof {
                        assert(spec_setting_commands(spec_synth_settings(entry.1)) =~= Seq::<
                            SettingCommand,
                        >::empty());
                    }
                    empty_cmds
                },
            };
            let soundfonts: Vec<TOMLSynthSoundfont> = match &entry.1.soundfont {
                Some(soundfont_list) => copy_soundfonts(soundfont_list),
                None => {
                    let empty_fonts: Vec<TOMLSynthSoundfont> = Vec::new();
                    proof {
                        assert(spec_synth_soundfonts(entry.1) =~= Seq::<
                            TOMLSynthSoundfont,
                        >::empty());
                    }
                    empty_fonts
                },
            };
            let generated = generate_mapping(&entry.1, &mut synth, capacity);
            match generated {
                Ok(p) => {
                    let (route_mappings, selects) = p;
                    synth.set_mapping(route_mappings);
                    let plan = SynthPlan {
                        id: entry.0.clone(),
                        settings: commands,
                        soundfonts,
                        program_selects: selects,
                        synth,
                    };
                    let ghost plans_before = plans@;
                    plans.push(plan);
                    proof {
                        let s_k = suffix[0];
                        let plan_snap = plans@[plans_before.len() as int];
                        assert(spec_synth_ok(entry.1, capacity as int));
                        assert(spec_synths_ok(
                            Seq::<(String, TOMLSynth)>::empty(),
                            capacity as int,
                        ));
                        assert(spec_synths_ok(seq![s_k], capacity as int));
                        assert(spec_plan_matches(plan_snap, s_k.0, s_k.1));
                        assert(seq![plan_snap].drop_first() =~= Seq::<SynthPlan>::empty());
                        assert(spec_plans_match(
                            Seq::<SynthPlan>::empty(),
                            Seq::<(String, TOMLSynth)>::empty(),
                        ));
                        assert(spec_plans_match(seq![plan_snap], seq![s_k]));
                        lemma_synths_split(
                            prefix,
                            seq![s_k],
                            plans_before,
                            seq![plan_snap],
                            capacity,
                        );
                        assert(plans@ =~= plans_before + seq![plan_snap]);
                    }
                },
                Err(e) => {
                    proof {
                        assert(spec_settings_valid(spec_synth_settings(entry.1)));
                        assert(!spec_synth_ok(entry.1, capacity as int));
                        assert(!spec_synths_ok(suffix, capacity as int));
                        lemma_synths_split(prefix, suffix, plans@, Seq::empty(), capacity);
                    }
                    return Err(e);
                },
            }
        } else {
            proof {
                assert(spec_synths_ok(Seq::<(String, TOMLSynth)>::empty(), capacity as int));
                assert(spec_synths_ok(seq![suffix[0]], capacity as int));
                assert(spec_plans_match(
                    Seq::<SynthPlan>::empty(),
                    Seq::<(String, TOMLSynth)>::empty(),
                ));
                assert(spec_plans_match(Seq::<SynthPlan>::empty(), seq![suffix[0]]));
                lemma_synths_split(prefix, seq![suffix[0]], plans@, Seq::empty(), capacity);
                assert(plans@ + Seq::<SynthPlan>::empty() =~= plans@);
            }
        }
        k = k + 1;
    }
    proof {
        assert(settings.synth@.take(n as int) =~= settings.synth@);
    }
    Ok(plans)
}

} // verus!
