use midi_keybindr::config::trigger::ValueRange;
use midi_keybindr::midi::event::{parse_message, IncomingMidiEvent, MidiValueError};
use midi_keybindr::config::trigger::MidiEvent;

#[test]
fn parses_note_on() {
    let parsed = parse_message(&[0x92, 60, 100]).unwrap().unwrap();
    assert_eq!(parsed.channel, 3);
    match parsed.event {
        MidiEvent::NoteOn { note } => assert_eq!(note.note, 60),
        _ => panic!("unexpected event"),
    }
}

#[test]
fn parses_every_message_kind() {
    let p = parse_message(&[0x80, 61, 0]).unwrap().unwrap();
    assert_eq!(p.channel, 1);
    match p.event {
        MidiEvent::NoteOff { note } => {
            assert_eq!(note.note, 61);
            assert_eq!(note.raw, "61");
        }
        _ => panic!("unexpected event"),
    }
    let p = parse_message(&[0x9F, 62, 0]).unwrap().unwrap();
    assert_eq!(p.channel, 16);
    assert!(matches!(p.event, MidiEvent::NoteOff { ref note } if note.note == 62));
    let p = parse_message(&[0xB1, 64, 100]).unwrap().unwrap();
    assert_eq!(p.channel, 2);
    assert_eq!(
        p.event,
        MidiEvent::ControlChange {
            cc: 64,
            value: Some(ValueRange { min: 100, max: 100 })
        }
    );
    let p = parse_message(&[0xC4, 5]).unwrap().unwrap();
    assert_eq!(p.channel, 5);
    assert_eq!(p.event, MidiEvent::ProgramChange { program: 5 });
    let p = parse_message(&[0x90, 60]).unwrap().unwrap();
    assert!(matches!(p.event, MidiEvent::NoteOff { .. }));
}

#[test]
fn ignores_other_and_short_messages() {
    assert!(parse_message(&[]).unwrap().is_none());
    assert!(parse_message(&[0xFA]).unwrap().is_none());
    assert!(parse_message(&[0xE0, 0, 64]).unwrap().is_none());
    assert!(parse_message(&[0xA0, 60, 10]).unwrap().is_none());
}

#[test]
fn rejects_data_bytes_above_seven_bits() {
    assert_eq!(
        parse_message(&[0x90, 200, 1]).unwrap_err(),
        MidiValueError { value: 200 }
    );
    let e = parse_message(&[0xB0, 1, 130]).unwrap_err();
    assert_eq!(e, MidiValueError { value: 130 });
    assert_eq!(e.message(), "MIDI value 130 is out of 7-bit range");
    assert!(parse_message(&[0x90, 60, 200]).unwrap().is_some());
}

#[test]
fn display_form_of_events() {
    let p = parse_message(&[0xB0, 7, 99]).unwrap().unwrap();
    assert_eq!(
        IncomingMidiEvent::from_event(&p.event),
        Some(IncomingMidiEvent::ControlChange { cc: 7, value: 99 })
    );
    assert_eq!(
        IncomingMidiEvent::from_event(&MidiEvent::ControlChange { cc: 7, value: None }),
        None
    );
}
