use plover_evdevd::{
    is_keyboard, select_keyboard, uinput_name_bytes, DeviceCandidate, Event, Key, RawEvent,
    EV_KEY, EV_SYN,
};

#[test]
fn synthetic_device_name_is_fixed() {
    assert_eq!(uinput_name_bytes(), b"Plover".to_vec());
}

#[test]
fn keyboard_requires_probe_key_and_foreign_name() {
    assert!(is_keyboard(b"AT Translated Set 2 keyboard", true));
    assert!(!is_keyboard(b"AT Translated Set 2 keyboard", false));
    assert!(!is_keyboard(b"Plover", true));
    assert!(!is_keyboard(b"Plover", false));
}

#[test]
fn selector_picks_first_qualifying_device() {
    let devices = vec![
        DeviceCandidate { name: b"Power Button".to_vec(), has_probe_key: false },
        DeviceCandidate { name: b"Plover".to_vec(), has_probe_key: true },
        DeviceCandidate { name: b"USB Keyboard".to_vec(), has_probe_key: true },
        DeviceCandidate { name: b"Other Keyboard".to_vec(), has_probe_key: true },
    ];
    assert_eq!(select_keyboard(&devices), Some(2));
}

#[test]
fn selector_fails_when_nothing_qualifies() {
    let devices = vec![
        DeviceCandidate { name: b"Power Button".to_vec(), has_probe_key: false },
        DeviceCandidate { name: b"Plover".to_vec(), has_probe_key: true },
    ];
    assert_eq!(select_keyboard(&devices), None);
    assert_eq!(select_keyboard(&Vec::new()), None);
}

#[test]
fn raw_events_decode_by_type() {
    let syn = RawEvent { kind: EV_SYN, code: 0, value: 0 };
    assert_eq!(Event::from_raw(syn), Event::Syn);
    let press = RawEvent { kind: EV_KEY, code: 30, value: 1 };
    assert_eq!(Event::from_raw(press), Event::Key(Key(30), true));
    let release = RawEvent { kind: EV_KEY, code: 30, value: 0 };
    assert_eq!(Event::from_raw(release), Event::Key(Key(30), false));
    let repeat = RawEvent { kind: EV_KEY, code: 30, value: 2 };
    assert_eq!(Event::from_raw(repeat), Event::Key(Key(30), true));
    let misc = RawEvent { kind: 4, code: 4, value: 458756 };
    assert_eq!(Event::from_raw(misc), Event::Other(4, 4, 458756));
}

#[test]
fn events_encode_to_raw_records() {
    assert_eq!(Event::Syn.to_raw(), RawEvent { kind: EV_SYN, code: 0, value: 0 });
    assert_eq!(
        Event::Key(Key(30), true).to_raw(),
        RawEvent { kind: EV_KEY, code: 30, value: 1 }
    );
    assert_eq!(
        Event::Key(Key(30), false).to_raw(),
        RawEvent { kind: EV_KEY, code: 30, value: 0 }
    );
    assert_eq!(
        Event::Other(4, 4, 458756).to_raw(),
        RawEvent { kind: 4, code: 4, value: 458756 }
    );
}
