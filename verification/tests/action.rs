use midi_keybindr::config::action::{parse_key_combo, Key, KeyComboErrorKind};

#[test]
fn parses_combo() {
    let combo = parse_key_combo("Cmd+Shift+3").unwrap();
    assert_eq!(combo.modifiers.len(), 2);
    assert_eq!(combo.raw, "Cmd+Shift+3");
}

#[test]
fn parses_modifier_aliases() {
    let combo = parse_key_combo("Control+Option+F12").unwrap();
    assert_eq!(combo.modifiers, vec![Key::Control, Key::Alt]);
    assert_eq!(combo.key, Key::F12);
}

#[test]
fn parses_named_primary_keys() {
    let combo = parse_key_combo("Cmd+Space").unwrap();
    assert_eq!(combo.modifiers, vec![Key::Meta]);
    assert_eq!(combo.key, Key::Unicode(' '));
}

#[test]
fn parses_single_character_primary() {
    let combo = parse_key_combo("Shift+/").unwrap();
    assert_eq!(combo.modifiers, vec![Key::Shift]);
    assert_eq!(combo.key, Key::Unicode('/'));
}

#[test]
fn rejects_unknown_modifier() {
    let err = parse_key_combo("Hyper+A").unwrap_err();
    assert!(err.message().contains("unsupported modifier"));
}

#[test]
fn rejects_unsupported_primary_token() {
    let err = parse_key_combo("Ctrl+Home").unwrap_err();
    assert!(err.message().contains("unsupported primary key"));
}

#[test]
fn error_messages_quote_the_token() {
    let err = parse_key_combo(" hyper + a").unwrap_err();
    assert_eq!(err.kind, KeyComboErrorKind::UnsupportedModifier);
    assert_eq!(err.token, "hyper");
    assert_eq!(err.message(), "unsupported modifier \"hyper\"");
    let err = parse_key_combo("Ctrl+Home").unwrap_err();
    assert_eq!(err.message(), "unsupported primary key \"Home\"");
}

#[test]
fn rejects_empty_combos() {
    for raw in ["", "+", " + ", "   "] {
        let err = parse_key_combo(raw).unwrap_err();
        assert_eq!(err.kind, KeyComboErrorKind::Empty);
        assert_eq!(err.message(), "key combo cannot be empty");
    }
}

#[test]
fn only_modifier_is_read_as_primary_key_token() {
    let err = parse_key_combo("Ctrl+").unwrap_err();
    assert_eq!(err.kind, KeyComboErrorKind::UnsupportedPrimaryKey);
    assert_eq!(err.token, "Ctrl");
}

#[test]
fn first_unknown_modifier_is_reported() {
    let err = parse_key_combo("Ctrl+Foo+Bar+x").unwrap_err();
    assert_eq!(err.token, "Foo");
}

#[test]
fn modifiers_and_named_keys_ignore_case_and_spaces() {
    let combo = parse_key_combo(" ctrl + SHIFT +alt+ META + esc ").unwrap();
    assert_eq!(
        combo.modifiers,
        vec![Key::Control, Key::Shift, Key::Alt, Key::Meta]
    );
    assert_eq!(combo.key, Key::Escape);
    assert_eq!(combo.raw, " ctrl + SHIFT +alt+ META + esc ");
}

#[test]
fn all_named_and_function_keys() {
    let cases = [
        ("Space", Key::Unicode(' ')),
        ("Tab", Key::Tab),
        ("Enter", Key::Return),
        ("Return", Key::Return),
        ("Up", Key::UpArrow),
        ("Down", Key::DownArrow),
        ("Left", Key::LeftArrow),
        ("Right", Key::RightArrow),
        ("Esc", Key::Escape),
        ("Escape", Key::Escape),
        ("Backspace", Key::Backspace),
        ("Delete", Key::Delete),
        ("F1", Key::F1),
        ("F2", Key::F2),
        ("F3", Key::F3),
        ("F4", Key::F4),
        ("F5", Key::F5),
        ("F6", Key::F6),
        ("F7", Key::F7),
        ("F8", Key::F8),
        ("F9", Key::F9),
        ("F10", Key::F10),
        ("F11", Key::F11),
        ("f12", Key::F12),
        ("é", Key::Unicode('é')),
        ("A", Key::Unicode('A')),
    ];
    for (raw, expected) in cases {
        let combo = parse_key_combo(raw).unwrap();
        assert!(combo.modifiers.is_empty());
        assert_eq!(combo.key, expected, "failed for {raw}");
    }
    assert!(parse_key_combo("F13").is_err());
}

#[test]
fn modifier_order_is_kept_and_repeats_allowed() {
    let combo = parse_key_combo("Shift+Ctrl+Shift+k").unwrap();
    assert_eq!(combo.modifiers, vec![Key::Shift, Key::Control, Key::Shift]);
    assert_eq!(combo.key, Key::Unicode('k'));
}
