//! [`MappingEngine`]: finds the action of the first mapping rule that an
//! incoming MIDI event satisfies.

use vstd::prelude::*;

use crate::config::device::device_pattern_matches;
use crate::config::trigger::trigger_matches;
use crate::config::{Action, Mapping, MidiEvent};
use crate::midi::event::{
    bad_data_byte, is_decoded_event, parse_message, second_data, status_type, MidiValueError,
};

verus! {

/// Whether some pattern of `patterns` matches the port name `port`.
pub open spec fn devices_match(patterns: Seq<Seq<char>>, port: Seq<char>) -> bool {
    exists|i: int| 0 <= i < patterns.len() && device_pattern_matches(#[trigger] patterns[i], port)
}

/// Whether mapping `m` applies to `event` on channel `channel` of port `port`:
/// a device pattern matches the port, the channel filter (if any) holds the
/// channel, and the trigger matches the event.
pub open spec fn mapping_applies(m: Mapping, port: Seq<char>, channel: u8, event: MidiEvent) -> bool {
    &&& devices_match(m.devices@, port)
    &&& match m.channel {
        Some(set) => set@.contains(channel as int),
        None => true,
    }
    &&& trigger_matches(m.trigger, event)
}

/// `out` is what routing `event` on `channel` of port `port` through
/// `mappings` gives: the action of the first mapping that applies, or `None`
/// when none does.
pub open spec fn routes_to(
    mappings: Seq<Mapping>,
    port: Seq<char>,
    channel: u8,
    event: MidiEvent,
    out: Option<&Action>,
) -> bool {
    match out {
        None => forall|i: int| 0 <= i < mappings.len() ==> !mapping_applies(#[trigger] mappings[i], port, channel, event),
        Some(a) => exists|i: int|
            0 <= i < mappings.len() && mapping_applies(#[trigger] mappings[i], port, channel, event)
                && (forall|j: int| 0 <= j < i ==> !mapping_applies(#[trigger] mappings[j], port, channel, event))
                && *a == mappings[i].action,
    }
}

/// Matches parsed MIDI events against configured mappings.
#[derive(Debug)]
pub struct MappingEngine {
    mappings: Vec<Mapping>,
}

impl View for MappingEngine {
    type V = Seq<Mapping>;

    closed spec fn view(&self) -> Seq<Mapping> {
        self.mappings@
    }
}

impl MappingEngine {
    /// Creates a mapping engine from parsed configuration mappings.
    pub fn new(mappings: Vec<Mapping>) -> (r: Self)
        ensures
            r@ == mappings@,
    {
        MappingEngine { mappings }
    }

    /// The action of the first mapping that applies to `event` on `channel`
    /// of the port named `port_name`.
    pub fn match_event(&self, port_name: &str, channel: u8, event: &MidiEvent) -> (r: Option<&Action>)
        ensures
            r is None <==> forall|i: int|
                0 <= i < self@.len() ==> !mapping_applies(#[trigger] self@[i], port_name@, channel, *event),
            r matches Some(a) ==> exists|i: int|
                0 <= i < self@.len() && mapping_applies(#[trigger] self@[i], port_name@, channel, *event)
                    && (forall|j: int| 0 <= j < i ==> !mapping_applies(#[trigger] self@[j], port_name@, channel, *event))
                    && *a == self@[i].action,
    {
        let mut i: usize = 0;
        while i < self.mappings.len()
            invariant
                0 <= i <= self@.len(),
                forall|j: int| 0 <= j < i ==> !mapping_applies(#[trigger] self@[j], port_name@, channel, *event),
            decreases self.mappings.len() - i,
        {
            let mapping = &self.mappings[i];
            let channel_ok = match &mapping.channel {
                Some(set) => set.contains(channel),
                None => true,
            };
            if mapping.devices.matches(port_name) && channel_ok && mapping.trigger.matches_event(event) {
                assert(mapping_applies(self@[i as int], port_name@, channel, *event));
                return Some(&mapping.action);
            }
            i = i + 1;
        }
        None
    }
}


/// Two events decoded from the same message kind and data bytes satisfy the
/// same triggers.
proof fn lemma_decoded_events_match_alike(e1: MidiEvent, e2: MidiEvent, kind: crate::midi::event::MidiMessageType, d1: u8, d2: u8, t: MidiEvent)
    requires
        is_decoded_event(e1, kind, d1, d2),
        is_decoded_event(e2, kind, d1, d2),
    ensures
        trigger_matches(t, e1) == trigger_matches(t, e2),
{
}

/// Routes one raw MIDI message from the port named `port_name`: decodes it
/// and gives the action of the first mapping that applies to the decoded
/// event, `None` when the message carries no mappable event or no mapping
/// applies, and the decoding error for a data byte above 127.
pub fn route_message<'a>(engine: &'a MappingEngine, port_name: &str, message: &[u8]) -> (r: Result<
    Option<&'a Action>,
    MidiValueError,
>)
    ensures
        message@.len() < 2 ==> r == Ok::<Option<&'a Action>, MidiValueError>(None),
        message@.len() >= 2 ==> {
            let status = message@[0];
            let d1 = message@[1];
            let d2 = second_data(message@);
            match status_type(status) {
                None => r == Ok::<Option<&'a Action>, MidiValueError>(None),
                Some(kind) => match bad_data_byte(kind, d1, d2) {
                    Some(b) => r == Err::<Option<&'a Action>, MidiValueError>(MidiValueError { value: b }),
                    None => r is Ok && forall|e: MidiEvent|
                        #[trigger] is_decoded_event(e, kind, d1, d2) ==> routes_to(
                            engine@,
                            port_name@,
                            (status % 16 + 1) as u8,
                            e,
                            r->Ok_0,
                        ),
                },
            }
        },
{
    match parse_message(message) {
        Err(e) => Err(e),
        Ok(None) => Ok(None),
        Ok(Some(parsed)) => {
            let out = engine.match_event(port_name, parsed.channel, &parsed.event);
            proof {
                let status = message@[0];
                let d1 = message@[1];
                let d2 = second_data(message@);
                let kind = status_type(status)->Some_0;
                let ms = engine@;
                assert forall|e: MidiEvent| #[trigger] is_decoded_event(e, kind, d1, d2) implies routes_to(
                    ms,
                    port_name@,
                    parsed.channel,
                    e,
                    out,
                ) by {
                    assert forall|i: int| 0 <= i < ms.len() implies mapping_applies(
                        #[trigger] ms[i],
                        port_name@,
                        parsed.channel,
                        e,
                    ) == mapping_applies(ms[i], port_name@, parsed.channel, parsed.event) by {
                        lemma_decoded_events_match_alike(e, parsed.event, kind, d1, d2, ms[i].trigger);
                    }
                }
            }
            Ok(out)
        },
    }
}

/// A mapping applies to an event exactly when it passes all three of its
/// filters: at least one of its device patterns matches the port name
/// (whatever its channel filter), its channel filter, if it has one, holds
/// the channel, and its trigger matches the event.
pub proof fn mapping_applies_only_through_every_filter(m: Mapping, port: Seq<char>, channel: u8, event: MidiEvent)
    ensures
        mapping_applies(m, port, channel, event) ==> exists|i: int|
            0 <= i < m.devices@.len() && device_pattern_matches(#[trigger] m.devices@[i], port),
        mapping_applies(m, port, channel, event) ==> (m.channel matches Some(set) ==> set@.contains(
            channel as int,
        )),
        mapping_applies(m, port, channel, event) ==> trigger_matches(m.trigger, event),
        ((exists|i: int| 0 <= i < m.devices@.len() && device_pattern_matches(#[trigger] m.devices@[i], port))
            && (m.channel matches Some(set) ==> set@.contains(channel as int))
            && trigger_matches(m.trigger, event)) ==> mapping_applies(m, port, channel, event),
{
}

/// What routing picks comes from a mapping whose device patterns match the
/// port, whose channel filter holds the channel and whose trigger matches;
/// no earlier mapping passes all three.
pub proof fn routed_action_passes_every_filter(
    mappings: Seq<Mapping>,
    port: Seq<char>,
    channel: u8,
    event: MidiEvent,
    a: &Action,
)
    requires
        routes_to(mappings, port, channel, event, Some(a)),
    ensures
        exists|i: int|
            0 <= i < mappings.len() && *a == mappings[i].action && (exists|k: int|
                0 <= k < mappings[i].devices@.len() && device_pattern_matches(
                    #[trigger] mappings[i].devices@[k],
                    port,
                )) && (mappings[i].channel matches Some(set) ==> set@.contains(channel as int))
                && trigger_matches(mappings[i].trigger, event),
{
    let i = choose|i: int|
        0 <= i < mappings.len() && mapping_applies(#[trigger] mappings[i], port, channel, event)
            && (forall|j: int| 0 <= j < i ==> !mapping_applies(#[trigger] mappings[j], port, channel, event))
            && *a == mappings[i].action;
    mapping_applies_only_through_every_filter(mappings[i], port, channel, event);
}

/// A mapping that names no devices (the `*` default) and no channels applies
/// to an event from any port on any channel exactly when its trigger matches.
pub proof fn unfiltered_mapping_applies_when_trigger_matches(m: Mapping, port: Seq<char>, channel: u8, event: MidiEvent)
    requires
        m.devices@ == seq![seq!['*']],
        m.channel is None,
    ensures
        mapping_applies(m, port, channel, event) == trigger_matches(m.trigger, event),
{
    assert(device_pattern_matches(m.devices@[0], port));
}

} // verus!
