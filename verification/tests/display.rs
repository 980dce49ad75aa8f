use midi_keybindr::config::action::{parse_key_combo, Key};
use midi_keybindr::cmd::display::{
    event_counts_text, keyboard_event_cells, midi_event_cells,
    classify_key, crossterm_key_to_action_string, keyboard_config_json, midi_config_json,
    midi_event_details, midi_event_type, truncate_str, AppState, KeyCode, KeyCommand, KeyEvent,
    KeyModifiers, Pane,
};
use midi_keybindr::midi::event::{IncomingMidiEvent, SysRtKind};

fn key(code: KeyCode, modifiers: KeyModifiers) -> KeyEvent {
    KeyEvent::new(code, modifiers)
}

fn none() -> KeyModifiers {
    KeyModifiers::none()
}

fn control() -> KeyModifiers {
    KeyModifiers {
        control: true,
        ..KeyModifiers::none()
    }
}

fn shift() -> KeyModifiers {
    KeyModifiers {
        shift: true,
        ..KeyModifiers::none()
    }
}

#[test]
fn midi_json_note_on_with_channel() {
    let event = IncomingMidiEvent::NoteOn { note: 60 };
    assert_eq!(
        midi_config_json(&event, Some(1)),
        r#"{"type":"note_on","note":60,"channel":1}"#
    );
}

#[test]
fn midi_json_note_off_no_channel() {
    let event = IncomingMidiEvent::NoteOff { note: 36 };
    assert_eq!(
        midi_config_json(&event, None),
        r#"{"type":"note_off","note":36}"#
    );
}

#[test]
fn midi_json_control_change() {
    let event = IncomingMidiEvent::ControlChange { cc: 7, value: 100 };
    assert_eq!(
        midi_config_json(&event, Some(2)),
        r#"{"type":"control_change","cc":7,"value":100,"channel":2}"#
    );
}

#[test]
fn midi_json_program_change() {
    let event = IncomingMidiEvent::ProgramChange { program: 5 };
    assert_eq!(
        midi_config_json(&event, None),
        r#"{"type":"program_change","program":5}"#
    );
}

#[test]
fn midi_json_sysrt_start() {
    let event = IncomingMidiEvent::SysRealTime(SysRtKind::Start);
    assert_eq!(
        midi_config_json(&event, None),
        r#"{"type":"sys_real_time","kind":"start"}"#
    );
}

#[test]
fn midi_json_sysrt_stop_and_continue() {
    assert_eq!(
        midi_config_json(&IncomingMidiEvent::SysRealTime(SysRtKind::Stop), None),
        r#"{"type":"sys_real_time","kind":"stop"}"#
    );
    assert_eq!(
        midi_config_json(&IncomingMidiEvent::SysRealTime(SysRtKind::Continue), None),
        r#"{"type":"sys_real_time","kind":"continue"}"#
    );
}

#[test]
fn midi_json_sysrt_with_channel_and_large_numbers() {
    assert_eq!(
        midi_config_json(&IncomingMidiEvent::SysRealTime(SysRtKind::Start), Some(16)),
        r#"{"type":"sys_real_time","kind":"start","channel":16}"#
    );
    assert_eq!(
        midi_config_json(&IncomingMidiEvent::NoteOn { note: 127 }, Some(10)),
        r#"{"type":"note_on","note":127,"channel":10}"#
    );
    assert_eq!(
        midi_config_json(&IncomingMidiEvent::NoteOn { note: 0 }, None),
        r#"{"type":"note_on","note":0}"#
    );
}

#[test]
fn kb_json_plain_char() {
    assert_eq!(
        keyboard_config_json(&key(KeyCode::Char('a'), none())),
        r#"{"keys":"a"}"#
    );
}

#[test]
fn kb_json_ctrl_char() {
    assert_eq!(
        keyboard_config_json(&key(KeyCode::Char('c'), control())),
        r#"{"keys":"Ctrl+c"}"#
    );
}

#[test]
fn kb_json_shift_modifier() {
    assert_eq!(
        keyboard_config_json(&key(KeyCode::Char('A'), shift())),
        r#"{"keys":"Shift+A"}"#
    );
}

#[test]
fn kb_json_function_key() {
    assert_eq!(
        keyboard_config_json(&key(KeyCode::F(8), none())),
        r#"{"keys":"F8"}"#
    );
}

#[test]
fn kb_json_named_keys() {
    for (code, expected) in [
        (KeyCode::Esc, r#"{"keys":"Esc"}"#),
        (KeyCode::Enter, r#"{"keys":"Enter"}"#),
        (KeyCode::Tab, r#"{"keys":"Tab"}"#),
        (KeyCode::Backspace, r#"{"keys":"Backspace"}"#),
        (KeyCode::Delete, r#"{"keys":"Delete"}"#),
        (KeyCode::Up, r#"{"keys":"Up"}"#),
        (KeyCode::Down, r#"{"keys":"Down"}"#),
        (KeyCode::Left, r#"{"keys":"Left"}"#),
        (KeyCode::Right, r#"{"keys":"Right"}"#),
    ] {
        assert_eq!(
            keyboard_config_json(&key(code.clone(), none())),
            expected,
            "failed for {code:?}"
        );
    }
}

#[test]
fn kb_json_multi_modifier() {
    let modifiers = KeyModifiers {
        control: true,
        shift: true,
        ..KeyModifiers::none()
    };
    assert_eq!(
        keyboard_config_json(&key(KeyCode::Char('z'), modifiers)),
        r#"{"keys":"Ctrl+Shift+z"}"#
    );
}

#[test]
fn action_string_orders_all_modifiers_and_names_other_keys() {
    let all = KeyModifiers {
        shift: true,
        control: true,
        alt: true,
        super_key: true,
        hyper: true,
        meta: true,
    };
    assert_eq!(
        crossterm_key_to_action_string(&key(KeyCode::F(12), all)),
        "Ctrl+Alt+Shift+Cmd+F12"
    );
    assert_eq!(
        crossterm_key_to_action_string(&key(KeyCode::BackTab, shift())),
        "Shift+Tab"
    );
    assert_eq!(
        crossterm_key_to_action_string(&key(KeyCode::Other("Home".to_string()), none())),
        "Home"
    );
}

#[test]
fn truncate_short_str_unchanged() {
    assert_eq!(truncate_str("hi", 10), "hi");
}

#[test]
fn truncate_long_str_gets_ellipsis() {
    let result = truncate_str("hello world", 7);
    assert_eq!(result.chars().count(), 7);
    assert!(result.ends_with('…'));
}

#[test]
fn truncate_exact_and_unicode() {
    assert_eq!(truncate_str("abcdef", 6), "abcdef");
    assert_eq!(truncate_str("abcdefg", 6), "abcde…");
    assert_eq!(truncate_str("héllo wörld", 4), "hél…");
    assert_eq!(truncate_str("", 0), "");
    assert_eq!(truncate_str("ab", 1), "…");
    assert_eq!(truncate_str("abc", 0), "");
}

#[test]
fn event_labels_and_details() {
    assert_eq!(midi_event_type(&IncomingMidiEvent::NoteOn { note: 1 }), "NoteOn");
    assert_eq!(midi_event_type(&IncomingMidiEvent::NoteOff { note: 1 }), "NoteOff");
    assert_eq!(
        midi_event_type(&IncomingMidiEvent::ControlChange { cc: 1, value: 2 }),
        "CC"
    );
    assert_eq!(
        midi_event_type(&IncomingMidiEvent::ProgramChange { program: 1 }),
        "ProgChg"
    );
    assert_eq!(
        midi_event_type(&IncomingMidiEvent::SysRealTime(SysRtKind::Stop)),
        "SysRT"
    );
    assert_eq!(
        midi_event_details(&IncomingMidiEvent::NoteOn { note: 60 }),
        "note=60"
    );
    assert_eq!(
        midi_event_details(&IncomingMidiEvent::ControlChange { cc: 7, value: 100 }),
        "cc=7 val=100"
    );
    assert_eq!(
        midi_event_details(&IncomingMidiEvent::ProgramChange { program: 5 }),
        "prog=5"
    );
    assert_eq!(
        midi_event_details(&IncomingMidiEvent::SysRealTime(SysRtKind::Continue)),
        "Continue"
    );
}

#[test]
fn app_state_initial_values() {
    let s = AppState::new();
    assert!(s.midi_events.is_empty());
    assert!(s.keyboard_events.is_empty());
    assert!(s.running);
    assert_eq!(s.focused_pane, Pane::Keyboard);
    assert!(s.keyboard_auto_scroll);
    assert!(s.midi_auto_scroll);
}

#[test]
fn add_midi_event_increments_seq() {
    let mut s = AppState::new();
    s.add_midi_event(
        "port".into(),
        Some(1),
        IncomingMidiEvent::NoteOn { note: 60 },
    );
    s.add_midi_event(
        "port".into(),
        Some(1),
        IncomingMidiEvent::NoteOn { note: 62 },
    );
    assert_eq!(s.midi_events[0].seq, 1);
    assert_eq!(s.midi_events[1].seq, 2);
}

#[test]
fn add_keyboard_event_increments_seq() {
    let mut s = AppState::new();
    s.add_keyboard_event(key(KeyCode::Char('a'), none()));
    s.add_keyboard_event(key(KeyCode::Char('b'), none()));
    assert_eq!(s.keyboard_events[0].seq, 1);
    assert_eq!(s.keyboard_events[1].seq, 2);
}

#[test]
fn midi_auto_scroll_tracks_last_row() {
    let mut s = AppState::new();
    for note in 0..5u8 {
        s.add_midi_event("p".into(), None, IncomingMidiEvent::NoteOn { note });
    }
    assert_eq!(s.midi_table.selected(), Some(4));
}

#[test]
fn toggle_pane_alternates() {
    let mut s = AppState::new();
    assert_eq!(s.focused_pane, Pane::Keyboard);
    s.toggle_pane();
    assert_eq!(s.focused_pane, Pane::Midi);
    s.toggle_pane();
    assert_eq!(s.focused_pane, Pane::Keyboard);
}

#[test]
fn scroll_up_disables_auto_scroll() {
    let mut s = AppState::new();
    for note in 0..5u8 {
        s.add_keyboard_event(key(KeyCode::Char((b'a' + note) as char), none()));
    }
    assert_eq!(s.keyboard_table.selected(), Some(4));
    s.scroll_up();
    assert!(!s.keyboard_auto_scroll);
    assert_eq!(s.keyboard_table.selected(), Some(3));
}

#[test]
fn scroll_down_to_last_row_reenables_auto_scroll() {
    let mut s = AppState::new();
    for note in 0..3u8 {
        s.add_keyboard_event(key(KeyCode::Char((b'a' + note) as char), none()));
    }
    s.scroll_up();
    s.scroll_down();
    s.scroll_down();
    assert!(s.keyboard_auto_scroll);
}

#[test]
fn scroll_up_empty_pane_no_panic() {
    let mut s = AppState::new();
    s.scroll_up();
}

#[test]
fn manual_scroll_keeps_selection_while_events_arrive() {
    let mut s = AppState::new();
    s.toggle_pane();
    for note in 0..4u8 {
        s.add_midi_event("p".into(), Some(1), IncomingMidiEvent::NoteOn { note });
    }
    s.scroll_up();
    s.scroll_up();
    assert_eq!(s.midi_table.selected(), Some(1));
    s.add_midi_event("p".into(), Some(1), IncomingMidiEvent::NoteOn { note: 9 });
    assert_eq!(s.midi_table.selected(), Some(1));
    s.prepare_render();
    assert_eq!(s.midi_table.selected(), Some(1));
    s.scroll_down();
    assert_eq!(s.midi_table.selected(), Some(2));
    assert!(!s.midi_auto_scroll);
    s.scroll_down();
    s.scroll_down();
    assert_eq!(s.midi_table.selected(), Some(4));
    assert!(s.midi_auto_scroll);
    assert_eq!(s.keyboard_table.selected(), None);
}

#[test]
fn scroll_down_on_empty_pane_selects_row_zero() {
    let mut s = AppState::new();
    s.scroll_down();
    assert_eq!(s.keyboard_table.selected(), Some(0));
    assert!(s.keyboard_auto_scroll);
}

#[test]
fn navigation_keys_are_classified() {
    assert_eq!(
        classify_key(&key(KeyCode::Char('c'), control())),
        KeyCommand::Quit
    );
    assert_eq!(
        classify_key(&key(KeyCode::Char('q'), control())),
        KeyCommand::Quit
    );
    assert_eq!(classify_key(&key(KeyCode::Tab, none())), KeyCommand::TogglePane);
    assert_eq!(
        classify_key(&key(KeyCode::BackTab, shift())),
        KeyCommand::TogglePane
    );
    assert_eq!(classify_key(&key(KeyCode::Up, none())), KeyCommand::ScrollUp);
    assert_eq!(classify_key(&key(KeyCode::Down, none())), KeyCommand::ScrollDown);
    assert_eq!(classify_key(&key(KeyCode::Char('c'), none())), KeyCommand::Record);
    assert_eq!(classify_key(&key(KeyCode::Up, shift())), KeyCommand::Record);
    let ctrl_shift = KeyModifiers {
        control: true,
        shift: true,
        ..KeyModifiers::none()
    };
    assert_eq!(
        classify_key(&key(KeyCode::Char('c'), ctrl_shift)),
        KeyCommand::Record
    );
}

#[test]
fn action_strings_read_back_as_combos() {
    let all = KeyModifiers {
        shift: true,
        control: true,
        alt: true,
        super_key: true,
        hyper: false,
        meta: false,
    };
    let cases = [
        (key(KeyCode::Char('a'), none()), vec![], Key::Unicode('a')),
        (key(KeyCode::Char('c'), control()), vec![Key::Control], Key::Unicode('c')),
        (key(KeyCode::F(10), shift()), vec![Key::Shift], Key::F10),
        (
            key(KeyCode::Enter, all),
            vec![Key::Control, Key::Alt, Key::Shift, Key::Meta],
            Key::Return,
        ),
        (key(KeyCode::BackTab, shift()), vec![Key::Shift], Key::Tab),
        (key(KeyCode::Esc, none()), vec![], Key::Escape),
        (key(KeyCode::Left, none()), vec![], Key::LeftArrow),
    ];
    for (k, modifiers, primary) in cases {
        let text = crossterm_key_to_action_string(&k);
        let combo = parse_key_combo(&text).unwrap();
        assert_eq!(combo.modifiers, modifiers, "failed for {text}");
        assert_eq!(combo.key, primary, "failed for {text}");
    }
    // A space or `+` key is not read back: the tokenizer drops it.
    assert!(parse_key_combo(&crossterm_key_to_action_string(&key(KeyCode::Char(' '), control()))).is_err());
}

#[test]
fn table_cells_of_added_events() {
    let mut state = AppState::new();
    state.add_midi_event(
        "A Very Long Port Name".into(),
        Some(1),
        IncomingMidiEvent::NoteOn { note: 60 },
    );
    state.add_midi_event("RT port".into(), None, IncomingMidiEvent::SysRealTime(SysRtKind::Stop));
    state.add_keyboard_event(key(KeyCode::Char('z'), none()));
    assert_eq!(
        midi_event_cells(&state.midi_events[0]),
        vec![
            "1".to_string(),
            "A Very Long P…".to_string(),
            "1".to_string(),
            "NoteOn".to_string(),
            "note=60".to_string(),
            r#"{"type":"note_on","note":60,"channel":1}"#.to_string(),
        ]
    );
    assert_eq!(midi_event_cells(&state.midi_events[1])[2], "RT");
    assert_eq!(
        keyboard_event_cells(&state.keyboard_events[0]),
        vec!["1".to_string(), "z".to_string(), r#"{"keys":"z"}"#.to_string()]
    );
    assert_eq!(event_counts_text(&state), "Keyboard: 1  MIDI: 2");
}

#[test]
fn sequence_numbers_keep_counting_after_clearing() {
    let mut s = AppState::new();
    s.add_keyboard_event(key(KeyCode::Char('a'), none()));
    s.add_keyboard_event(key(KeyCode::Char('b'), none()));
    s.keyboard_events.clear();
    s.add_keyboard_event(key(KeyCode::Char('c'), none()));
    assert_eq!(s.keyboard_events.len(), 1);
    assert_eq!(s.keyboard_events[0].seq, 3);
    assert_eq!(s.keyboard_seq, 3);
    s.add_midi_event("p".into(), Some(1), IncomingMidiEvent::NoteOn { note: 1 });
    s.midi_events.clear();
    s.add_midi_event("p".into(), Some(1), IncomingMidiEvent::NoteOn { note: 2 });
    assert_eq!(s.midi_events[0].seq, 2);
    assert_eq!(s.midi_seq, 2);
}
