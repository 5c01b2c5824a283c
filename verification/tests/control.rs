use plover_evdevd::{
    apply_command, injection_events, parse_line, parse_u16, render_u16, Command, Event, Key,
    SuppressSet,
};

#[test]
fn set_command_replaces_suppression_set() {
    let mut sup = SuppressSet::new();
    sup.insert(99);
    let cmd = parse_line(b"s30 31 badtoken");
    let inject = apply_command(cmd, &mut sup);
    assert!(inject.is_none());
    // The malformed token is skipped; the old content (99) is gone because
    // the set is replaced wholesale, never merged.
    assert!(sup.contains(30));
    assert!(sup.contains(31));
    assert!(!sup.contains(99));
}

#[test]
fn empty_set_command_clears_suppression_set() {
    let mut sup = SuppressSet::new();
    sup.insert(30);
    let cmd = parse_line(b"s");
    let inject = apply_command(cmd, &mut sup);
    assert!(inject.is_none());
    assert!(!sup.contains(30));
}

#[test]
fn unrecognized_tag_changes_nothing() {
    let mut sup = SuppressSet::new();
    sup.insert(30);
    let cmd = parse_line(b"xyz");
    assert!(matches!(cmd, Command::Ignore));
    let inject = apply_command(cmd, &mut sup);
    assert!(inject.is_none());
    assert!(sup.contains(30));
}

#[test]
fn empty_line_is_ignored() {
    assert!(matches!(parse_line(b""), Command::Ignore));
}

#[test]
fn malformed_inject_body_is_ignored() {
    assert!(matches!(parse_line(b"d30x"), Command::Ignore));
    assert!(matches!(parse_line(b"d"), Command::Ignore));
    assert!(matches!(parse_line(b"u99999"), Command::Ignore));
}

#[test]
fn press_command_parses() {
    match parse_line(b"d30") {
        Command::Inject(code, pressed) => {
            assert_eq!(code, 30);
            assert!(pressed);
        }
        _ => panic!("expected an injection"),
    }
}

#[test]
fn release_command_parses() {
    match parse_line(b"u42") {
        Command::Inject(code, pressed) => {
            assert_eq!(code, 42);
            assert!(!pressed);
        }
        _ => panic!("expected an injection"),
    }
}

#[test]
fn inject_press_then_release_writes_four_events_in_order() {
    let mut sup = SuppressSet::new();
    let mut written: Vec<Event> = Vec::new();
    for line in [b"d30".as_slice(), b"u30".as_slice()] {
        let cmd = parse_line(line);
        if let Some(evs) = apply_command(cmd, &mut sup) {
            written.extend(evs);
        }
    }
    assert_eq!(
        written,
        vec![
            Event::Key(Key(30), true),
            Event::Syn,
            Event::Key(Key(30), false),
            Event::Syn,
        ]
    );
}

#[test]
fn injection_events_are_key_then_syn() {
    assert_eq!(
        injection_events(7, true),
        vec![Event::Key(Key(7), true), Event::Syn]
    );
    assert_eq!(
        injection_events(7, false),
        vec![Event::Key(Key(7), false), Event::Syn]
    );
}

#[test]
fn set_command_with_duplicates_and_gaps() {
    let cmd = parse_line(b"s30  30 31");
    match cmd {
        Command::Replace(s) => {
            assert!(s.contains(30));
            assert!(s.contains(31));
            assert!(!s.contains(0));
        }
        _ => panic!("expected a replacement"),
    }
}

#[test]
fn parse_u16_accepts_plain_and_signed_decimals() {
    assert_eq!(parse_u16(b"0"), Some(0));
    assert_eq!(parse_u16(b"30"), Some(30));
    assert_eq!(parse_u16(b"007"), Some(7));
    assert_eq!(parse_u16(b"+30"), Some(30));
    assert_eq!(parse_u16(b"65535"), Some(65535));
}

#[test]
fn parse_u16_rejects_malformed_input() {
    assert_eq!(parse_u16(b""), None);
    assert_eq!(parse_u16(b"+"), None);
    assert_eq!(parse_u16(b"65536"), None);
    assert_eq!(parse_u16(b"99999999999999999999"), None);
    assert_eq!(parse_u16(b"1 2"), None);
    assert_eq!(parse_u16(b"-1"), None);
    assert_eq!(parse_u16(b"3a"), None);
}

#[test]
fn render_u16_writes_decimal() {
    assert_eq!(render_u16(0), b"0".to_vec());
    assert_eq!(render_u16(30), b"30".to_vec());
    assert_eq!(render_u16(65535), b"65535".to_vec());
}
