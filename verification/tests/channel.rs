use midi_keybindr::config::channel::{ChannelError, ChannelErrorKind, ChannelSet};

fn strings(items: &[&str]) -> Vec<String> {
    items.iter().map(|s| s.to_string()).collect()
}

fn members(set: &ChannelSet) -> Vec<u8> {
    (0u8..=20).filter(|c| set.contains(*c)).collect()
}

#[test]
fn parses_channel_list_and_range() {
    let set = ChannelSet::from_list(&strings(&["2-3", "9"])).unwrap();
    assert!(set.contains(2));
    assert!(set.contains(3));
    assert!(set.contains(9));
    assert!(!set.contains(1));
}

#[test]
fn parses_integer_scalar() {
    let set = ChannelSet::from_u64(1).unwrap();
    assert!(set.contains(1));
    assert!(!set.contains(2));
}

#[test]
fn parses_wildcard() {
    let set = ChannelSet::from_selector("*").unwrap();
    for ch in 1u8..=16 {
        assert!(set.contains(ch));
    }
}

#[test]
fn parses_empty_sequence() {
    let set = ChannelSet::from_list(&Vec::new()).unwrap();
    for ch in 1u8..=16 {
        assert!(set.contains(ch));
    }
}

#[test]
fn rejects_descending_range() {
    let err = ChannelSet::from_selector("5-3").unwrap_err();
    assert_eq!(err.kind, ChannelErrorKind::DescendingRange);
    assert_eq!(err.message(), "invalid descending channel range \"5-3\"");
}

#[test]
fn rejects_out_of_range() {
    ChannelSet::from_u64(17).unwrap_err();
    ChannelSet::from_u64(0).unwrap_err();
}

#[test]
fn all_holds_exactly_the_midi_channels() {
    assert_eq!(members(&ChannelSet::all()), (1u8..=16).collect::<Vec<u8>>());
    assert!(!ChannelSet::all().contains(0));
    assert!(!ChannelSet::all().contains(17));
    assert!(!ChannelSet::all().contains(255));
}

#[test]
fn selector_forms() {
    assert_eq!(members(&ChannelSet::from_selector(" 3 ").unwrap()), vec![3]);
    assert_eq!(members(&ChannelSet::from_selector("+3").unwrap()), vec![3]);
    assert_eq!(
        members(&ChannelSet::from_selector(" 14 - 16").unwrap()),
        vec![14, 15, 16]
    );
    assert_eq!(members(&ChannelSet::from_selector("7-7").unwrap()), vec![7]);
    assert_eq!(
        members(&ChannelSet::from_selector(" * ").unwrap()),
        (1u8..=16).collect::<Vec<u8>>()
    );
}

#[test]
fn list_is_union_and_wildcard_selects_all() {
    assert_eq!(
        members(&ChannelSet::from_list(&strings(&["1-3", "9", "2"])).unwrap()),
        vec![1, 2, 3, 9]
    );
    assert_eq!(
        members(&ChannelSet::from_list(&strings(&["4", "*", "junk"])).unwrap()),
        (1u8..=16).collect::<Vec<u8>>()
    );
}

#[test]
fn every_error_kind() {
    let e = ChannelSet::from_u64(300).unwrap_err();
    assert_eq!(e.kind, ChannelErrorKind::TooLarge);
    assert_eq!(e.message(), "channel must fit in u8");

    let e = ChannelSet::from_u64(17).unwrap_err();
    assert_eq!(e.kind, ChannelErrorKind::OutOfRange(17));
    assert_eq!(e.message(), "channel 17 is out of range (1-16)");

    let e = ChannelSet::from_selector("x").unwrap_err();
    assert_eq!(e.kind, ChannelErrorKind::InvalidChannel);
    assert_eq!(e.message(), "invalid channel \"x\"");

    let e = ChannelSet::from_selector("1-x").unwrap_err();
    assert_eq!(e.kind, ChannelErrorKind::InvalidRangeBound);
    assert_eq!(e.message(), "invalid channel in range \"1-x\"");

    let e = ChannelSet::from_selector("-3").unwrap_err();
    assert_eq!(e.kind, ChannelErrorKind::InvalidRangeBound);

    let e = ChannelSet::from_selector("0-3").unwrap_err();
    assert_eq!(e.kind, ChannelErrorKind::OutOfRange(0));

    let e = ChannelSet::from_selector("15-20").unwrap_err();
    assert_eq!(e.kind, ChannelErrorKind::OutOfRange(17));

    let e = ChannelSet::from_selector("20-30").unwrap_err();
    assert_eq!(e.kind, ChannelErrorKind::OutOfRange(20));

    let e = ChannelSet::from_list(&strings(&["1", "2-1"])).unwrap_err();
    assert_eq!(e.kind, ChannelErrorKind::DescendingRange);
    assert_eq!(e.input, "2-1");
}

#[test]
fn range_error_messages() {
    let e = ChannelError { kind: ChannelErrorKind::MissingRangeSeparator, input: "5".to_string() };
    assert_eq!(e.message(), "invalid channel range \"5\"");
    let e = ChannelError { kind: ChannelErrorKind::InvalidRangeBound, input: "a-5".to_string() };
    assert_eq!(e.message(), "invalid channel in range \"a-5\"");
}
