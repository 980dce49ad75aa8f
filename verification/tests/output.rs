use midi_keybindr::cmd::list::human_port_listing;
use midi_keybindr::config::action::{parse_key_combo, Key};
use midi_keybindr::output::{ensure_accessibility_permission, send_combo_strokes, Direction, KeyStroke};

#[test]
fn combo_strokes_press_click_release_in_reverse() {
    let combo = parse_key_combo("Cmd+Shift+3").unwrap();
    let strokes = send_combo_strokes(&combo);
    assert_eq!(
        strokes,
        vec![
            KeyStroke { key: Key::Meta, direction: Direction::Press },
            KeyStroke { key: Key::Shift, direction: Direction::Press },
            KeyStroke { key: Key::Unicode('3'), direction: Direction::Click },
            KeyStroke { key: Key::Shift, direction: Direction::Release },
            KeyStroke { key: Key::Meta, direction: Direction::Release },
        ]
    );
    let single = send_combo_strokes(&parse_key_combo("F8").unwrap());
    assert_eq!(single, vec![KeyStroke { key: Key::F8, direction: Direction::Click }]);
}

#[test]
fn accessibility_check() {
    assert!(ensure_accessibility_permission(true).is_ok());
    let err = ensure_accessibility_permission(false).unwrap_err();
    assert!(err.message().starts_with("Accessibility permission is required."));
}

#[test]
fn port_listing_lines() {
    assert_eq!(
        human_port_listing(&Vec::new()),
        vec!["No MIDI input ports found. Connect a MIDI device and try again.".to_string()]
    );
    let ports = vec![
        (0usize, "Arturia KeyStep Pro MIDI In".to_string()),
        (123456, "USB MIDI Interface".to_string()),
    ];
    assert_eq!(
        human_port_listing(&ports),
        vec![
            "Index  Name".to_string(),
            "─────  ────────────────────────────────".to_string(),
            "0      Arturia KeyStep Pro MIDI In".to_string(),
            "123456  USB MIDI Interface".to_string(),
        ]
    );
}
