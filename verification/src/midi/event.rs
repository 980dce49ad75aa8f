//! Decoding of raw MIDI bytes into the events that mapping rules match.

use vstd::prelude::*;

use crate::config::trigger::{
    integer_token_names_its_note, parse_note, trigger_matches, MidiEvent, NoteErrorKind, NoteSpec,
    ValueRange,
};
use crate::text::{decimal, decimal_string};

verus! {

/// Parsed MIDI message with channel and normalized event payload.
#[derive(Debug, Clone, PartialEq, Eq)]
pub struct ParsedEvent {
    /// One-based MIDI channel (1..=16).
    pub channel: u8,
    /// Normalized event representation used by the mapper.
    pub event: MidiEvent,
}

/// The channel-voice message kinds that are decoded.
#[derive(Debug, Clone, Copy, PartialEq, Eq)]
pub enum MidiMessageType {
    NoteOff,
    NoteOn,
    ControlChange,
    ProgramChange,
}

/// A data byte above 127 in a decoded message.
#[derive(Debug, Clone, Copy, PartialEq, Eq)]
pub struct MidiValueError {
    /// The offending byte.
    pub value: u8,
}

/// A System Real-Time message kind.
#[derive(Debug, Clone, Copy, PartialEq, Eq)]
pub enum SysRtKind {
    Start,
    Stop,
    Continue,
}

/// A MIDI event as shown to the user, with plain data bytes.
#[derive(Debug, Clone, Copy, PartialEq, Eq)]
pub enum IncomingMidiEvent {
    NoteOn { note: u8 },
    NoteOff { note: u8 },
    ControlChange { cc: u8, value: u8 },
    ProgramChange { program: u8 },
    SysRealTime(SysRtKind),
}

/// The message kind a status byte announces (by its high nibble).
pub open spec fn status_type(status: u8) -> Option<MidiMessageType> {
    let high = status / 16;
    if high == 8 {
        Some(MidiMessageType::NoteOff)
    } else if high == 9 {
        Some(MidiMessageType::NoteOn)
    } else if high == 11 {
        Some(MidiMessageType::ControlChange)
    } else if high == 12 {
        Some(MidiMessageType::ProgramChange)
    } else {
        None
    }
}

/// The second data byte of `m`, or 0 for a two-byte message.
pub open spec fn second_data(m: Seq<u8>) -> u8 {
    if m.len() >= 3 {
        m[2]
    } else {
        0
    }
}

/// The data byte of `m` that is out of the 7-bit range, if any (only the
/// bytes that the message kind reads are checked, the first one first).
pub open spec fn bad_data_byte(kind: MidiMessageType, d1: u8, d2: u8) -> Option<u8> {
    if d1 > 127 {
        Some(d1)
    } else if kind == MidiMessageType::ControlChange && d2 > 127 {
        Some(d2)
    } else {
        None
    }
}

/// A note whose text is the decimal rendering of `n`.
pub open spec fn is_numeric_note(spec: NoteSpec, n: u8) -> bool {
    spec.note == n && spec.raw@ == decimal(n as nat)
}

/// `e` is the event that a message of kind `kind` with data `d1`, `d2`
/// carries; a note-on with velocity 0 is a note-off.
pub open spec fn is_decoded_event(e: MidiEvent, kind: MidiMessageType, d1: u8, d2: u8) -> bool {
    match kind {
        MidiMessageType::NoteOff => e matches MidiEvent::NoteOff { note } && is_numeric_note(note, d1),
        MidiMessageType::NoteOn => if d2 == 0 {
            e matches MidiEvent::NoteOff { note } && is_numeric_note(note, d1)
        } else {
            e matches MidiEvent::NoteOn { note } && is_numeric_note(note, d1)
        },
        MidiMessageType::ControlChange => e == MidiEvent::ControlChange {
            cc: d1,
            value: Some(ValueRange { min: d2, max: d2 }),
        },
        MidiMessageType::ProgramChange => e == MidiEvent::ProgramChange { program: d1 },
    }
}

/// The message kind of a status byte.
fn message_type(status: u8) -> (r: Option<MidiMessageType>)
    ensures
        r == status_type(status),
{
    let high = status / 16;
    if high == 8 {
        Some(MidiMessageType::NoteOff)
    } else if high == 9 {
        Some(MidiMessageType::NoteOn)
    } else if high == 11 {
        Some(MidiMessageType::ControlChange)
    } else if high == 12 {
        Some(MidiMessageType::ProgramChange)
    } else {
        None
    }
}

/// Checks that a data byte fits in seven bits.
fn parse_u7(value: u8) -> (r: Result<u8, MidiValueError>)
    ensures
        value <= 127 ==> r == Ok::<u8, MidiValueError>(value),
        value > 127 ==> r == Err::<u8, MidiValueError>(MidiValueError { value }),
{
    if value <= 127 {
        Ok(value)
    } else {
        Err(MidiValueError { value })
    }
}

/// A note whose text is the decimal rendering of `n`.
fn numeric_note(n: u8) -> (r: NoteSpec)
    ensures
        is_numeric_note(r, n),
{
    NoteSpec { raw: decimal_string(n as u64), note: n }
}

/// Parses raw MIDI bytes into a normalized [`ParsedEvent`].
///
/// Messages shorter than two bytes and kinds other than note off, note on,
/// control change and program change give `Ok(None)`; a data byte above 127
/// is an error. The channel is the low nibble of the status byte, plus one.
pub fn parse_message(message: &[u8]) -> (r: Result<Option<ParsedEvent>, MidiValueError>)
    ensures
        message@.len() < 2 ==> r == Ok::<Option<ParsedEvent>, MidiValueError>(None),
        message@.len() >= 2 ==> {
            let status = message@[0];
            let d1 = message@[1];
            let d2 = second_data(message@);
            match status_type(status) {
                None => r == Ok::<Option<ParsedEvent>, MidiValueError>(None),
                Some(kind) => match bad_data_byte(kind, d1, d2) {
                    Some(b) => r == Err::<Option<ParsedEvent>, MidiValueError>(
                        MidiValueError { value: b },
                    ),
                    None => r matches Ok(Some(p)) && p.channel == status % 16 + 1
                        && is_decoded_event(p.event, kind, d1, d2),
                },
            }
        },
{
    if message.len() < 2 {
        return Ok(None);
    }
    let status = message[0];
    let data1 = message[1];
    let data2 = if message.len() >= 3 {
        message[2]
    } else {
        0
    };
    let channel = status % 16 + 1;
    let message_type = match message_type(status) {
        Some(t) => t,
        None => {
            return Ok(None);
        },
    };
    let midi_event = match message_type {
        MidiMessageType::NoteOff => MidiEvent::NoteOff { note: numeric_note(parse_u7(data1)?) },
        MidiMessageType::NoteOn => {
            let note = numeric_note(parse_u7(data1)?);
            if data2 == 0 {
                MidiEvent::NoteOff { note }
            } else {
                MidiEvent::NoteOn { note }
            }
        },
        MidiMessageType::ControlChange => {
            let cc = parse_u7(data1)?;
            let value = parse_u7(data2)?;
            MidiEvent::ControlChange { cc, value: Some(ValueRange { min: value, max: value }) }
        },
        MidiMessageType::ProgramChange => MidiEvent::ProgramChange { program: parse_u7(data1)? },
    };
    Ok(Some(ParsedEvent { channel, event: midi_event }))
}

impl MidiValueError {
    /// The human-readable description of the error.
    pub fn message(&self) -> (m: String)
        ensures
            m@ == "MIDI value "@ + decimal(self.value as nat) + " is out of 7-bit range"@,
    {
        String::from_str("MIDI value ").concat(decimal_string(self.value as u64).as_str()).concat(
            " is out of 7-bit range",
        )
    }
}

/// The display form of a decoded event; a control change without a value has none.
pub open spec fn incoming_of(event: MidiEvent) -> Option<IncomingMidiEvent> {
    match event {
        MidiEvent::NoteOn { note } => Some(IncomingMidiEvent::NoteOn { note: note.note }),
        MidiEvent::NoteOff { note } => Some(IncomingMidiEvent::NoteOff { note: note.note }),
        MidiEvent::ControlChange { cc, value } => match value {
            Some(v) => Some(IncomingMidiEvent::ControlChange { cc, value: v.min }),
            None => None,
        },
        MidiEvent::ProgramChange { program } => Some(IncomingMidiEvent::ProgramChange { program }),
    }
}

impl IncomingMidiEvent {
    /// The display form of a decoded event (a control change carries the value
    /// at the bottom of its range; one without a value has no display form).
    pub fn from_event(event: &MidiEvent) -> (r: Option<IncomingMidiEvent>)
        ensures
            r == incoming_of(*event),
    {
        match event {
            MidiEvent::NoteOn { note } => Some(IncomingMidiEvent::NoteOn { note: note.note }),
            MidiEvent::NoteOff { note } => Some(IncomingMidiEvent::NoteOff { note: note.note }),
            MidiEvent::ControlChange { cc, value } => match value {
                Some(v) => Some(IncomingMidiEvent::ControlChange { cc: *cc, value: v.min }),
                None => None,
            },
            MidiEvent::ProgramChange { program } => Some(
                IncomingMidiEvent::ProgramChange { program: *program },
            ),
        }
    }
}


/// A decoded event's channel is a MIDI channel from 1 to 16.
pub proof fn decoded_channel_is_midi_channel(status: u8)
    ensures
        1 <= status % 16 + 1 <= 16,
{
}

/// The text of a decoded note names the same note when read back by the
/// note parser.
pub proof fn decoded_note_text_names_its_note(spec: NoteSpec, n: u8)
    requires
        is_numeric_note(spec, n),
        n <= 127,
    ensures
        parse_note(spec.raw@) == Ok::<u8, NoteErrorKind>(spec.note),
{
    integer_token_names_its_note(n);
}

/// A decoded control change matches a control-change trigger for its
/// controller exactly when the trigger has no value range or its value lies
/// in the range.
pub proof fn decoded_control_change_matches(e: MidiEvent, cc: u8, value: u8, trigger_cc: u8, range: Option<ValueRange>)
    requires
        is_decoded_event(e, MidiMessageType::ControlChange, cc, value),
    ensures
        trigger_matches(MidiEvent::ControlChange { cc: trigger_cc, value: range }, e) == (trigger_cc
            == cc && match range {
            Some(r) => r.min <= value <= r.max,
            None => true,
        }),
{
}

/// A note-on with velocity 0 behaves as a note-off: it matches note-off
/// triggers for its note and no note-on trigger.
pub proof fn silent_note_on_is_note_off(e: MidiEvent, note: u8, trigger_note: NoteSpec)
    requires
        is_decoded_event(e, MidiMessageType::NoteOn, note, 0),
    ensures
        trigger_matches(MidiEvent::NoteOff { note: trigger_note }, e) == (trigger_note.note == note),
        !trigger_matches(MidiEvent::NoteOn { note: trigger_note }, e),
{
}


/// Only four kinds of channel message are decoded, each by the high nibble
/// of its status byte: `0x8n` note off, `0x9n` note on, `0xBn` control
/// change and `0xCn` program change. Every other status byte (polyphonic
/// and channel pressure, pitch bend, system messages, running data) is not.
pub proof fn only_four_status_kinds_decode(status: u8)
    ensures
        status_type(status) == Some(MidiMessageType::NoteOff) <==> 0x80 <= status <= 0x8F,
        status_type(status) == Some(MidiMessageType::NoteOn) <==> 0x90 <= status <= 0x9F,
        status_type(status) == Some(MidiMessageType::ControlChange) <==> 0xB0 <= status <= 0xBF,
        status_type(status) == Some(MidiMessageType::ProgramChange) <==> 0xC0 <= status <= 0xCF,
        status_type(status) is None <==> (status < 0x80 || (0xA0 <= status <= 0xAF) || status >= 0xD0),
{
}

/// A decoded note-on or note-off matches a trigger of its own kind exactly
/// when the trigger names the same note number, however the trigger's note
/// was written.
pub proof fn decoded_notes_match_by_number(e: MidiEvent, kind: MidiMessageType, note: u8, velocity: u8, trigger_note: NoteSpec)
    requires
        kind == MidiMessageType::NoteOn || kind == MidiMessageType::NoteOff,
        is_decoded_event(e, kind, note, velocity),
    ensures
        (e is NoteOn) ==> trigger_matches(MidiEvent::NoteOn { note: trigger_note }, e) == (trigger_note.note == note),
        (e is NoteOff) ==> trigger_matches(MidiEvent::NoteOff { note: trigger_note }, e) == (trigger_note.note == note),
        (e is NoteOn) == (kind == MidiMessageType::NoteOn && velocity != 0),
{
}

} // verus!
