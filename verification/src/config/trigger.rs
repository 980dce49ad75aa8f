//! MIDI triggers of mapping rules, and the note-name parser.

use vstd::prelude::*;

use crate::text::{
    decimal_parses_back,
    chars_of, debug_quoted, decimal, decimal_string, parse_i16, parse_i16_range, parse_u8,
    parse_u8_range, str_debug,
};

verus! {

/// MIDI trigger variants supported by mapping rules.
#[derive(Debug, Clone, PartialEq, Eq)]
pub enum MidiEvent {
    /// Matches a note-on event for a specific note.
    NoteOn { note: NoteSpec },
    /// Matches a note-off event for a specific note.
    NoteOff { note: NoteSpec },
    /// Matches a control-change event, optionally constrained by value range.
    ControlChange { cc: u8, value: Option<ValueRange> },
    /// Matches a program-change event.
    ProgramChange { program: u8 },
}

/// Inclusive MIDI value range.
#[derive(Debug, Clone, Copy, PartialEq, Eq)]
pub struct ValueRange {
    /// Minimum accepted value.
    pub min: u8,
    /// Maximum accepted value.
    pub max: u8,
}

/// Parsed note token keeping both its text and the resolved MIDI value.
#[derive(Debug, Clone, PartialEq, Eq)]
pub struct NoteSpec {
    /// The note token as written.
    pub raw: String,
    /// Resolved MIDI note number in the range 0..=127.
    pub note: u8,
}

/// Why a note token was refused.
#[derive(Debug, Clone, Copy, PartialEq, Eq)]
pub enum NoteErrorKind {
    /// The token is empty.
    Empty,
    /// The first character is not a note letter `A` to `G`.
    BadLetter,
    /// Nothing follows the letter and accidental.
    MissingOctave,
    /// The octave is not an integer from -32768 to 32767.
    BadOctave,
    /// The note lies outside MIDI notes 0 to 127.
    OutOfRange,
}

/// ASCII upper case of `c` (other characters unchanged).
pub open spec fn ascii_upper(c: char) -> char {
    if 'a' <= c <= 'z' {
        ((c as int) - 32) as char
    } else {
        c
    }
}

/// Semitone of a natural note letter within its octave (C = 0).
pub open spec fn letter_semitone(c: char) -> Option<int> {
    if c == 'C' {
        Some(0)
    } else if c == 'D' {
        Some(2)
    } else if c == 'E' {
        Some(4)
    } else if c == 'F' {
        Some(5)
    } else if c == 'G' {
        Some(7)
    } else if c == 'A' {
        Some(9)
    } else if c == 'B' {
        Some(11)
    } else {
        None
    }
}

/// The change of pitch that the character after the letter makes (`#` up,
/// `b`/`B` down), if it is an accidental.
pub open spec fn accidental(c: char) -> Option<int> {
    if c == '#' {
        Some(1)
    } else if c == 'b' || c == 'B' {
        Some(-1)
    } else {
        None
    }
}

/// MIDI number of the note with semitone `semitone` (possibly -1 or 12) in
/// scientific-pitch octave `octave`: C4 is 60.
pub open spec fn midi_number(octave: int, semitone: int) -> int {
    (octave + 1) * 12 + semitone
}

/// The note a token names, in scientific pitch notation (`C4`, `Bb3`, `C-1`)
/// or as a MIDI integer (`60`).
pub open spec fn parse_note(raw: Seq<char>) -> Result<u8, NoteErrorKind> {
    match parse_u8(raw) {
        Some(n) => if n <= 127 {
            Ok(n)
        } else {
            Err(NoteErrorKind::OutOfRange)
        },
        None => if raw.len() == 0 {
            Err(NoteErrorKind::Empty)
        } else {
            match letter_semitone(ascii_upper(raw[0])) {
                None => Err(NoteErrorKind::BadLetter),
                Some(base) => {
                    let shift = if raw.len() > 1 {
                        accidental(raw[1])
                    } else {
                        None
                    };
                    let rest = if shift is Some {
                        raw.skip(2)
                    } else {
                        raw.skip(1)
                    };
                    let semitone = match shift {
                        Some(d) => base + d,
                        None => base,
                    };
                    if rest.len() == 0 {
                        Err(NoteErrorKind::MissingOctave)
                    } else {
                        match parse_i16(rest) {
                            None => Err(NoteErrorKind::BadOctave),
                            Some(octave) => {
                                let m = midi_number(octave as int, semitone);
                                if 0 <= m <= 127 {
                                    Ok(m as u8)
                                } else {
                                    Err(NoteErrorKind::OutOfRange)
                                }
                            },
                        }
                    }
                },
            }
        },
    }
}

/// The message for a refused note token `raw`.
pub open spec fn note_error_message(kind: NoteErrorKind, raw: Seq<char>) -> Seq<char> {
    match kind {
        NoteErrorKind::Empty => "invalid note "@ + str_debug(raw),
        NoteErrorKind::BadLetter => "invalid note letter in "@ + str_debug(raw),
        NoteErrorKind::MissingOctave => "missing octave in note "@ + str_debug(raw),
        NoteErrorKind::BadOctave => "invalid octave in note "@ + str_debug(raw),
        NoteErrorKind::OutOfRange => "note "@ + str_debug(raw) + " resolves out of MIDI range"@,
    }
}

/// Whether an incoming event satisfies a trigger: same kind and number, and
/// for control changes the event's value range inside the trigger's.
pub open spec fn trigger_matches(trigger: MidiEvent, event: MidiEvent) -> bool {
    match (trigger, event) {
        (MidiEvent::NoteOn { note: a }, MidiEvent::NoteOn { note: b }) => a.note == b.note,
        (MidiEvent::NoteOff { note: a }, MidiEvent::NoteOff { note: b }) => a.note == b.note,
        (
            MidiEvent::ControlChange { cc: tc, value: tv },
            MidiEvent::ControlChange { cc: ec, value: ev },
        ) => tc == ec && match (tv, ev) {
            (None, _) => true,
            (Some(_), None) => false,
            (Some(expected), Some(actual)) => actual.min >= expected.min && actual.max
                <= expected.max,
        },
        (MidiEvent::ProgramChange { program: a }, MidiEvent::ProgramChange { program: b }) => a
            == b,
        _ => false,
    }
}

/// ASCII upper case of `c`.
fn to_ascii_upper(c: char) -> (r: char)
    ensures
        r == ascii_upper(c),
{
    if 'a' <= c && c <= 'z' {
        let b = (c as u8) - 32;
        b as char
    } else {
        c
    }
}

/// The message for a refused note token.
fn note_error(kind: NoteErrorKind, raw: &str) -> (m: String)
    ensures
        m@ == note_error_message(kind, raw@),
{
    let quoted = debug_quoted(raw);
    match kind {
        NoteErrorKind::Empty => String::from_str("invalid note ").concat(quoted.as_str()),
        NoteErrorKind::BadLetter => String::from_str("invalid note letter in ").concat(
            quoted.as_str(),
        ),
        NoteErrorKind::MissingOctave => String::from_str("missing octave in note ").concat(
            quoted.as_str(),
        ),
        NoteErrorKind::BadOctave => String::from_str("invalid octave in note ").concat(
            quoted.as_str(),
        ),
        NoteErrorKind::OutOfRange => String::from_str("note ").concat(quoted.as_str()).concat(
            " resolves out of MIDI range",
        ),
    }
}

impl NoteSpec {
    /// Parses either a MIDI integer (`0..=127`) or a note token like `C4`, `Bb3`, or `C-1`.
    pub fn parse(raw: &str) -> (r: Result<Self, String>)
        ensures
            match r {
                Ok(spec) => parse_note(raw@) == Ok::<u8, NoteErrorKind>(spec.note) && spec.raw@
                    == raw@,
                Err(m) => parse_note(raw@) is Err && m@ == note_error_message(
                    parse_note(raw@)->Err_0,
                    raw@,
                ),
            },
    {
        match Self::resolve(raw) {
            Ok(note) => Ok(NoteSpec { raw: String::from_str(raw), note }),
            Err(kind) => Err(note_error(kind, raw)),
        }
    }

    /// The MIDI note a token names.
    fn resolve(raw: &str) -> (r: Result<u8, NoteErrorKind>)
        ensures
            r == parse_note(raw@),
    {
        let s = chars_of(raw);
        assert(s@.subrange(0, s@.len() as int) =~= s@);
        match parse_u8_range(&s, 0, s.len()) {
            Some(n) => {
                if n <= 127 {
                    return Ok(n);
                } else {
                    return Err(NoteErrorKind::OutOfRange);
                }
            },
            None => {},
        }
        if s.len() == 0 {
            return Err(NoteErrorKind::Empty);
        }
        let letter = to_ascii_upper(s[0]);
        let base: i32 = if letter == 'C' {
            0
        } else if letter == 'D' {
            2
        } else if letter == 'E' {
            4
        } else if letter == 'F' {
            5
        } else if letter == 'G' {
            7
        } else if letter == 'A' {
            9
        } else if letter == 'B' {
            11
        } else {
            return Err(NoteErrorKind::BadLetter);
        };
        let mut semitone: i32 = base;
        let mut rest: usize = 1;
        if s.len() > 1 {
            if s[1] == '#' {
                semitone = base + 1;
                rest = 2;
            } else if s[1] == 'b' || s[1] == 'B' {
                semitone = base - 1;
                rest = 2;
            }
        }
        proof {
            assert(s@.subrange(rest as int, s@.len() as int) =~= s@.skip(rest as int));
        }
        if rest == s.len() {
            return Err(NoteErrorKind::MissingOctave);
        }
        let octave = match parse_i16_range(&s, rest, s.len()) {
            Some(o) => o,
            None => {
                return Err(NoteErrorKind::BadOctave);
            },
        };
        let midi: i32 = (octave as i32 + 1) * 12 + semitone;
        if 0 <= midi && midi <= 127 {
            Ok(midi as u8)
        } else {
            Err(NoteErrorKind::OutOfRange)
        }
    }

    /// The note a MIDI integer names; it must lie in 0 to 127.
    pub fn from_u64(v: u64) -> (r: Result<Self, String>)
        ensures
            match r {
                Ok(spec) => v <= 127 && spec.note == v && spec.raw@ == decimal(v as nat),
                Err(m) => v > 127 && m@ == "MIDI note must be between 0 and 127"@,
            },
    {
        if v > 127 {
            return Err(String::from_str("MIDI note must be between 0 and 127"));
        }
        Ok(NoteSpec { raw: decimal_string(v), note: v as u8 })
    }
}

impl MidiEvent {
    /// Whether an incoming `event` satisfies this trigger definition.
    pub fn matches_event(&self, event: &MidiEvent) -> (r: bool)
        ensures
            r == trigger_matches(*self, *event),
    {
        match (self, event) {
            (MidiEvent::NoteOn { note: a }, MidiEvent::NoteOn { note: b }) => a.note == b.note,
            (MidiEvent::NoteOff { note: a }, MidiEvent::NoteOff { note: b }) => a.note == b.note,
            (
                MidiEvent::ControlChange { cc: trigger_cc, value: trigger_value },
                MidiEvent::ControlChange { cc: event_cc, value: event_value },
            ) => {
                if *trigger_cc != *event_cc {
                    return false;
                }
                match (trigger_value, event_value) {
                    (None, _) => true,
                    (Some(_), None) => false,
                    (Some(expected), Some(actual)) => {
                        actual.min >= expected.min && actual.max <= expected.max
                    },
                }
            },
            (MidiEvent::ProgramChange { program: a }, MidiEvent::ProgramChange { program: b }) => {
                *a == *b
            },
            _ => false,
        }
    }
}


/// A note token never resolves outside MIDI notes 0 to 127.
pub proof fn parsed_notes_are_midi_notes(raw: Seq<char>)
    ensures
        parse_note(raw) matches Ok(n) ==> n <= 127,
{
}

/// A MIDI integer from 0 to 127, written in decimal, names that note.
pub proof fn integer_token_names_its_note(n: u8)
    requires
        n <= 127,
    ensures
        parse_note(decimal(n as nat)) == Ok::<u8, NoteErrorKind>(n),
{
    decimal_parses_back(n);
}

/// A token that starts with a letter is read as a note name, not a number.
proof fn lemma_letter_token_is_not_a_number(raw: Seq<char>)
    requires
        raw.len() > 0,
        'A' <= raw[0] <= 'Z' || 'a' <= raw[0] <= 'z',
    ensures
        parse_u8(raw) is None,
{
    assert(raw[0] != '+');
    assert(!crate::text::is_digit(raw[0]));
    assert(!crate::text::all_digits(raw));
}

/// `[letter, accidental?] + octave`: the note a token of this shape names.
proof fn lemma_note_shape(letter: char, acc: Seq<char>, octave: Seq<char>, o: i16)
    requires
        'A' <= letter <= 'Z' || 'a' <= letter <= 'z',
        acc.len() == 0 || (acc.len() == 1 && accidental(acc[0]) is Some),
        parse_i16(octave) == Some(o),
        letter_semitone(ascii_upper(letter)) is Some,
    ensures
        parse_note(seq![letter] + acc + octave) == ({
            let m = midi_number(
                o as int,
                letter_semitone(ascii_upper(letter))->Some_0 + (if acc.len() == 1 {
                    accidental(acc[0])->Some_0
                } else {
                    0
                }),
            );
            if 0 <= m <= 127 {
                Ok::<u8, NoteErrorKind>(m as u8)
            } else {
                Err(NoteErrorKind::OutOfRange)
            }
        }),
{
    let raw = seq![letter] + acc + octave;
    assert(raw[0] == letter);
    lemma_letter_token_is_not_a_number(raw);
    assert(octave.len() > 0);
    if acc.len() == 1 {
        assert(raw[1] == acc[0]);
        assert(raw.skip(2) =~= octave);
    } else {
        assert(raw.skip(1) =~= octave);
        if raw.len() > 1 {
            assert(raw[1] == octave[0]);
            // An octave starts with a sign or a digit, never an accidental.
            assert(octave[0] == '-' || octave[0] == '+' || crate::text::is_digit(octave[0]));
        }
    }
}

/// The natural note letters follow the C major scale: in octave `o`, `C`
/// names MIDI note `(o + 1) * 12` (so `C4` is 60, `C-1` is 0), and `D`, `E`,
/// `F`, `G`, `A`, `B` sit 2, 4, 5, 7, 9 and 11 semitones above it, for every
/// octave in which the note is a MIDI note.
pub proof fn natural_letters_follow_the_c_major_scale(t: Seq<char>, o: i16)
    requires
        parse_i16(t) == Some(o),
    ensures
        0 <= (o + 1) * 12 <= 127 ==> parse_note(seq!['C'] + t) == Ok::<u8, NoteErrorKind>(((o + 1) * 12) as u8),
        0 <= (o + 1) * 12 + 2 <= 127 ==> parse_note(seq!['D'] + t) == Ok::<u8, NoteErrorKind>(((o + 1) * 12 + 2) as u8),
        0 <= (o + 1) * 12 + 4 <= 127 ==> parse_note(seq!['E'] + t) == Ok::<u8, NoteErrorKind>(((o + 1) * 12 + 4) as u8),
        0 <= (o + 1) * 12 + 5 <= 127 ==> parse_note(seq!['F'] + t) == Ok::<u8, NoteErrorKind>(((o + 1) * 12 + 5) as u8),
        0 <= (o + 1) * 12 + 7 <= 127 ==> parse_note(seq!['G'] + t) == Ok::<u8, NoteErrorKind>(((o + 1) * 12 + 7) as u8),
        0 <= (o + 1) * 12 + 9 <= 127 ==> parse_note(seq!['A'] + t) == Ok::<u8, NoteErrorKind>(((o + 1) * 12 + 9) as u8),
        0 <= (o + 1) * 12 + 11 <= 127 ==> parse_note(seq!['B'] + t) == Ok::<u8, NoteErrorKind>(((o + 1) * 12 + 11) as u8),
{
    let letters = seq!['C', 'D', 'E', 'F', 'G', 'A', 'B'];
    assert forall|k: int| 0 <= k < 7 implies parse_note(seq![#[trigger] letters[k]] + t) == ({
        let m = midi_number(o as int, letter_semitone(letters[k])->Some_0);
        if 0 <= m <= 127 {
            Ok::<u8, NoteErrorKind>(m as u8)
        } else {
            Err(NoteErrorKind::OutOfRange)
        }
    }) by {
        lemma_note_shape(letters[k], Seq::empty(), t, o);
        assert(seq![letters[k]] + Seq::<char>::empty() + t =~= seq![letters[k]] + t);
    }
    assert(letters[0] == 'C');
    assert(letters[1] == 'D');
    assert(letters[2] == 'E');
    assert(letters[3] == 'F');
    assert(letters[4] == 'G');
    assert(letters[5] == 'A');
    assert(letters[6] == 'B');
}

/// Note letters are read regardless of ASCII case: `c4` names the note `C4` does.
pub proof fn note_letters_ignore_case(letter: char, rest: Seq<char>)
    requires
        'A' <= letter <= 'G',
    ensures
        parse_note(seq![((letter as int) + 32) as char] + rest) == parse_note(seq![letter] + rest),
{
    let lower = ((letter as int) + 32) as char;
    let a = seq![lower] + rest;
    let b = seq![letter] + rest;
    assert(a[0] == lower);
    assert(b[0] == letter);
    lemma_letter_token_is_not_a_number(a);
    lemma_letter_token_is_not_a_number(b);
    assert(ascii_upper(lower) == letter);
    assert(a.skip(1) =~= b.skip(1));
    if a.len() > 1 {
        assert(a[1] == b[1]);
        assert(a.skip(2) =~= b.skip(2));
    }
}

/// Enharmonic spellings across the octave boundary: `B#n` is `C(n+1)`, and
/// `Cbn` is `B(n-1)`.
pub proof fn enharmonics_cross_octaves(t: Seq<char>, o: i16, t_next: Seq<char>, o_next: i16)
    requires
        parse_i16(t) == Some(o),
        parse_i16(t_next) == Some(o_next),
        o_next == o + 1,
    ensures
        parse_note(seq!['B', '#'] + t) == parse_note(seq!['C'] + t_next),
        parse_note(seq!['C', 'b'] + t_next) == parse_note(seq!['B'] + t),
{
    lemma_note_shape('B', seq!['#'], t, o);
    assert(seq!['B'] + seq!['#'] + t =~= seq!['B', '#'] + t);
    lemma_note_shape('C', Seq::empty(), t_next, o_next);
    assert(seq!['C'] + Seq::<char>::empty() + t_next =~= seq!['C'] + t_next);
    lemma_note_shape('C', seq!['b'], t_next, o_next);
    assert(seq!['C'] + seq!['b'] + t_next =~= seq!['C', 'b'] + t_next);
    lemma_note_shape('B', Seq::empty(), t, o);
    assert(seq!['B'] + Seq::<char>::empty() + t =~= seq!['B'] + t);
}

/// Enharmonic spellings within an octave: `E#n` is `Fn`, and `Fbn` is `En`.
pub proof fn enharmonics_within_octave(t: Seq<char>, o: i16)
    requires
        parse_i16(t) == Some(o),
    ensures
        parse_note(seq!['E', '#'] + t) == parse_note(seq!['F'] + t),
        parse_note(seq!['F', 'b'] + t) == parse_note(seq!['E'] + t),
{
    lemma_note_shape('E', seq!['#'], t, o);
    assert(seq!['E'] + seq!['#'] + t =~= seq!['E', '#'] + t);
    lemma_note_shape('F', Seq::empty(), t, o);
    assert(seq!['F'] + Seq::<char>::empty() + t =~= seq!['F'] + t);
    lemma_note_shape('F', seq!['b'], t, o);
    assert(seq!['F'] + seq!['b'] + t =~= seq!['F', 'b'] + t);
    lemma_note_shape('E', Seq::empty(), t, o);
    assert(seq!['E'] + Seq::<char>::empty() + t =~= seq!['E'] + t);
}

/// Every trigger matches the event it describes.
pub proof fn trigger_matches_itself(t: MidiEvent)
    ensures
        trigger_matches(t, t),
{
}

/// A control-change trigger with a value range matches a control change of
/// the same controller exactly when the event's value lies in the range.
pub proof fn control_change_matches_value_in_range(cc: u8, range: ValueRange, value: u8)
    ensures
        trigger_matches(
            MidiEvent::ControlChange { cc, value: Some(range) },
            MidiEvent::ControlChange { cc, value: Some(ValueRange { min: value, max: value }) },
        ) == (range.min <= value <= range.max),
{
}

} // verus!
