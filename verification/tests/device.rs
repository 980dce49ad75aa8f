use midi_keybindr::config::device::DeviceGlobs;

#[test]
fn matches_case_insensitive() {
    let globs = DeviceGlobs::from_pattern("*akai*").unwrap();
    assert!(globs.matches("My Akai Device"));
}

#[test]
fn any_matches_every_name() {
    let globs = DeviceGlobs::any();
    for name in ["", "KeyStep Pro", "a/b", ".hidden", "ÄÖÜ"] {
        assert!(globs.matches(name));
    }
}

#[test]
fn patterns_filter_names() {
    let globs = DeviceGlobs::from_pattern("KeyStep*").unwrap();
    assert!(globs.matches("keystep pro"));
    assert!(!globs.matches("My KeyStep"));
    let globs =
        DeviceGlobs::from_patterns(&vec!["*Akai*".to_string(), "*Korg*".to_string()]).unwrap();
    assert!(globs.matches("korg nanoKEY"));
    assert!(globs.matches("AKAI MPK"));
    assert!(!globs.matches("Arturia"));
}

#[test]
fn empty_pattern_list_matches_everything() {
    let globs = DeviceGlobs::from_patterns(&Vec::new()).unwrap();
    assert!(globs.matches("anything"));
}

#[test]
fn invalid_patterns_are_refused() {
    let err = DeviceGlobs::from_pattern("[abc").unwrap_err();
    assert_eq!(err.pattern, "[abc");
    assert!(err.message().starts_with("invalid glob pattern \"[abc\": "));
    let err = DeviceGlobs::from_patterns(&vec!["ok*".to_string(), "***".to_string()]).unwrap_err();
    assert_eq!(err.pattern, "***");
}

#[test]
fn refused_pattern_carries_globs_reason() {
    let err = DeviceGlobs::from_pattern("[abc").unwrap_err();
    assert_eq!(err.reason, "Pattern syntax error near position 0: invalid range pattern");
    assert_eq!(
        err.message(),
        "invalid glob pattern \"[abc\": Pattern syntax error near position 0: invalid range pattern"
    );
    let err = DeviceGlobs::from_patterns(&vec!["ok*".to_string(), "***".to_string()]).unwrap_err();
    assert_eq!(
        err.reason,
        "Pattern syntax error near position 2: wildcards are either regular `*` or recursive `**`"
    );
}
