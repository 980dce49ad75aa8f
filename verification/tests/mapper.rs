use midi_keybindr::config::action::parse_key_combo;
use midi_keybindr::config::trigger::{NoteSpec, ValueRange};
use midi_keybindr::config::{Action, ChannelSet, DeviceGlobs, Mapping, MidiEvent};
use midi_keybindr::mapper::{route_message, MappingEngine};
use midi_keybindr::midi::event::MidiValueError;

fn action(keys: &str) -> Action {
    Action {
        keys: parse_key_combo(keys).unwrap(),
    }
}

#[test]
fn matches_by_device_channel_and_event() {
    let mappings = vec![Mapping {
        description: None,
        devices: DeviceGlobs::any(),
        channel: Some(ChannelSet::from_u64(3).unwrap()),
        trigger: MidiEvent::NoteOn {
            note: NoteSpec::parse("C4").unwrap(),
        },
        action: action("F8"),
    }];

    let engine = MappingEngine::new(mappings);
    let event = MidiEvent::NoteOn {
        note: NoteSpec::parse("60").unwrap(),
    };

    assert!(engine.match_event("any", 3, &event).is_some());
    assert!(engine.match_event("any", 1, &event).is_none());
}

#[test]
fn first_matching_mapping_wins_and_filters_apply() {
    let mappings = vec![
        Mapping {
            description: Some("KeyStep only".to_string()),
            devices: DeviceGlobs::from_pattern("KeyStep*").unwrap(),
            channel: None,
            trigger: MidiEvent::ControlChange {
                cc: 64,
                value: Some(ValueRange { min: 64, max: 127 }),
            },
            action: action("Cmd+Shift+3"),
        },
        Mapping {
            description: None,
            devices: DeviceGlobs::any(),
            channel: Some(ChannelSet::from_selector("1-2").unwrap()),
            trigger: MidiEvent::ControlChange { cc: 64, value: None },
            action: action("Ctrl+Alt+P"),
        },
    ];
    let engine = MappingEngine::new(mappings);
    let cc = |v: u8| MidiEvent::ControlChange {
        cc: 64,
        value: Some(ValueRange { min: v, max: v }),
    };
    assert_eq!(
        engine.match_event("KeyStep Pro", 1, &cc(100)).unwrap().keys.raw,
        "Cmd+Shift+3"
    );
    assert_eq!(
        engine.match_event("KeyStep Pro", 1, &cc(10)).unwrap().keys.raw,
        "Ctrl+Alt+P"
    );
    assert_eq!(
        engine.match_event("Akai", 2, &cc(100)).unwrap().keys.raw,
        "Ctrl+Alt+P"
    );
    assert!(engine.match_event("Akai", 3, &cc(100)).is_none());
    assert!(engine
        .match_event("Akai", 1, &MidiEvent::ProgramChange { program: 64 })
        .is_none());
}

#[test]
fn route_message_decodes_then_picks_first_mapping() {
    let mappings = vec![
        Mapping {
            description: None,
            devices: DeviceGlobs::any(),
            channel: Some(ChannelSet::from_u64(2).unwrap()),
            trigger: MidiEvent::NoteOn {
                note: NoteSpec::parse("C4").unwrap(),
            },
            action: action("F8"),
        },
        Mapping {
            description: None,
            devices: DeviceGlobs::any(),
            channel: None,
            trigger: MidiEvent::NoteOff {
                note: NoteSpec::parse("C4").unwrap(),
            },
            action: action("F9"),
        },
    ];
    let engine = MappingEngine::new(mappings);
    // Note on, channel 2, note 60.
    assert_eq!(
        route_message(&engine, "dev", &[0x91, 60, 100]).unwrap().unwrap().keys.raw,
        "F8"
    );
    // Same note on channel 1: the channel filter refuses it.
    assert!(route_message(&engine, "dev", &[0x90, 60, 100]).unwrap().is_none());
    // A silent note on is a note off.
    assert_eq!(
        route_message(&engine, "dev", &[0x90, 60, 0]).unwrap().unwrap().keys.raw,
        "F9"
    );
    // Too short, and not a mappable kind.
    assert!(route_message(&engine, "dev", &[0x91]).unwrap().is_none());
    assert!(route_message(&engine, "dev", &[0xF8, 0]).unwrap().is_none());
    // A data byte above 127.
    assert_eq!(
        route_message(&engine, "dev", &[0x91, 200, 1]).unwrap_err(),
        MidiValueError { value: 200 }
    );
}
