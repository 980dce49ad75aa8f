use midi_keybindr::config::trigger::{MidiEvent, NoteSpec, ValueRange};

fn note(raw: &str) -> Result<u8, String> {
    NoteSpec::parse(raw).map(|n| n.note)
}

#[test]
fn parses_middle_c() {
    let note = NoteSpec::parse("C4").unwrap();
    assert_eq!(note.note, 60);
}

#[test]
fn parses_enharmonic_boundaries() {
    assert_eq!(NoteSpec::parse("B#3").unwrap().note, 60);
    assert_eq!(NoteSpec::parse("Cb4").unwrap().note, 59);
}

#[test]
fn parses_negative_octave() {
    assert_eq!(NoteSpec::parse("C-1").unwrap().note, 0);
}

#[test]
fn readme_note_forms() {
    assert_eq!(note("60"), Ok(60));
    assert_eq!(note("21"), Ok(21));
    assert_eq!(note("A0"), Ok(21));
    assert_eq!(note("G9"), Ok(127));
    assert_eq!(note("C#4"), Ok(61));
    assert_eq!(note("A#0"), Ok(22));
    assert_eq!(note("Bb4"), Ok(70));
    assert_eq!(note("Eb3"), Ok(51));
    assert_eq!(note("Ab2"), Ok(44));
    assert_eq!(note("E#2"), Ok(41));
    assert_eq!(note("Fb5"), Ok(76));
    assert_eq!(note("c4"), Ok(60));
    assert_eq!(note("bb3"), Ok(58));
    assert_eq!(note("0"), Ok(0));
    assert_eq!(note("127"), Ok(127));
    assert_eq!(note("C+4"), Ok(60));
    let spec = NoteSpec::parse("Bb3").unwrap();
    assert_eq!(spec.raw, "Bb3");
}

#[test]
fn note_errors() {
    assert_eq!(note(""), Err("invalid note \"\"".to_string()));
    assert_eq!(note("H4"), Err("invalid note letter in \"H4\"".to_string()));
    assert_eq!(note("C"), Err("missing octave in note \"C\"".to_string()));
    assert_eq!(note("C#"), Err("missing octave in note \"C#\"".to_string()));
    assert_eq!(note("Cx"), Err("invalid octave in note \"Cx\"".to_string()));
    assert_eq!(
        note("G#9"),
        Err("note \"G#9\" resolves out of MIDI range".to_string())
    );
    assert_eq!(
        note("Cb-1"),
        Err("note \"Cb-1\" resolves out of MIDI range".to_string())
    );
    assert_eq!(
        note("128"),
        Err("note \"128\" resolves out of MIDI range".to_string())
    );
    assert_eq!(
        note("C3000"),
        Err("note \"C3000\" resolves out of MIDI range".to_string())
    );
    assert_eq!(
        note("C40000"),
        Err("invalid octave in note \"C40000\"".to_string())
    );
    assert_eq!(note("300"), Err("invalid note letter in \"300\"".to_string()));
}

#[test]
fn integer_notes() {
    let n = NoteSpec::from_u64(60).unwrap();
    assert_eq!(n.note, 60);
    assert_eq!(n.raw, "60");
    assert_eq!(
        NoteSpec::from_u64(128).unwrap_err(),
        "MIDI note must be between 0 and 127"
    );
}

fn spec(n: u8) -> NoteSpec {
    NoteSpec::from_u64(n as u64).unwrap()
}

#[test]
fn trigger_matching() {
    let on = MidiEvent::NoteOn { note: spec(60) };
    let on_by_name = MidiEvent::NoteOn {
        note: NoteSpec::parse("C4").unwrap(),
    };
    assert!(on.matches_event(&on_by_name));
    assert!(!on.matches_event(&MidiEvent::NoteOff { note: spec(60) }));
    assert!(!on.matches_event(&MidiEvent::NoteOn { note: spec(61) }));

    let sustain = MidiEvent::ControlChange {
        cc: 64,
        value: Some(ValueRange { min: 64, max: 127 }),
    };
    let cc = |cc: u8, v: u8| MidiEvent::ControlChange {
        cc,
        value: Some(ValueRange { min: v, max: v }),
    };
    assert!(sustain.matches_event(&cc(64, 64)));
    assert!(sustain.matches_event(&cc(64, 127)));
    assert!(!sustain.matches_event(&cc(64, 63)));
    assert!(!sustain.matches_event(&cc(65, 100)));
    assert!(!sustain.matches_event(&MidiEvent::ControlChange { cc: 64, value: None }));
    let any_value = MidiEvent::ControlChange { cc: 1, value: None };
    assert!(any_value.matches_event(&cc(1, 0)));

    let pc = MidiEvent::ProgramChange { program: 5 };
    assert!(pc.matches_event(&MidiEvent::ProgramChange { program: 5 }));
    assert!(!pc.matches_event(&MidiEvent::ProgramChange { program: 6 }));
    assert!(pc.matches_event(&pc));
}

#[test]
fn integer_note_text_reads_back() {
    for n in 0u64..=127 {
        let spec = NoteSpec::from_u64(n).unwrap();
        assert_eq!(NoteSpec::parse(&spec.raw).unwrap().note as u64, n);
    }
}

#[test]
fn enharmonic_spellings_agree() {
    for octave in -1i32..=8 {
        let o = octave.to_string();
        let next = (octave + 1).to_string();
        assert_eq!(note(&format!("B#{o}")), note(&format!("C{next}")));
        assert_eq!(note(&format!("Cb{next}")), note(&format!("B{o}")));
        assert_eq!(note(&format!("E#{o}")), note(&format!("F{o}")));
        assert_eq!(note(&format!("Fb{o}")), note(&format!("E{o}")));
    }
}
