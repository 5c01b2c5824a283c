use plover_evdevd::{
    handle_event, process_stream, Decision, Event, HeldModifiers, Key, SuppressSet,
    KEY_LEFTSHIFT,
};

fn suppress_set(codes: &[u16]) -> SuppressSet {
    let mut s = SuppressSet::new();
    for &c in codes {
        s.insert(c);
    }
    s
}

#[test]
fn suppressed_key_is_reported_not_forwarded() {
    let mut held = HeldModifiers::new();
    let sup = suppress_set(&[30]);
    let evs = vec![
        Event::Key(Key(30), true),
        Event::Syn,
        Event::Key(Key(30), false),
        Event::Syn,
    ];
    let (forwarded, reports) = process_stream(&mut held, &sup, &evs);
    assert_eq!(forwarded, vec![Event::Syn, Event::Syn]);
    assert_eq!(reports, vec![b"d30".to_vec(), b"u30".to_vec()]);
}

#[test]
fn modified_key_is_forwarded_unchanged() {
    let mut held = HeldModifiers::from_codes(vec![KEY_LEFTSHIFT]);
    let sup = suppress_set(&[30]);
    let evs = vec![Event::Key(Key(30), true)];
    let (forwarded, reports) = process_stream(&mut held, &sup, &evs);
    assert_eq!(forwarded, vec![Event::Key(Key(30), true)]);
    assert!(reports.is_empty());
}

#[test]
fn unsuppressed_key_is_forwarded() {
    let mut held = HeldModifiers::new();
    let sup = suppress_set(&[30]);
    let d = handle_event(&mut held, &sup, Event::Key(Key(31), true));
    assert_eq!(d, Decision::Forward(Event::Key(Key(31), true)));
}

#[test]
fn syn_is_forwarded_even_with_suppression_active() {
    let mut held = HeldModifiers::new();
    let sup = suppress_set(&[30]);
    let d = handle_event(&mut held, &sup, Event::Syn);
    assert_eq!(d, Decision::Forward(Event::Syn));
}

#[test]
fn other_events_pass_through() {
    let mut held = HeldModifiers::new();
    let sup = suppress_set(&[30]);
    let ev = Event::Other(4, 4, 458756);
    let d = handle_event(&mut held, &sup, ev);
    assert_eq!(d, Decision::Forward(ev));
}

#[test]
fn report_uses_press_and_release_prefixes() {
    let mut held = HeldModifiers::new();
    let sup = suppress_set(&[65535]);
    let d = handle_event(&mut held, &sup, Event::Key(Key(65535), true));
    assert_eq!(d, Decision::Report(b"d65535".to_vec()));
    let u = handle_event(&mut held, &sup, Event::Key(Key(65535), false));
    assert_eq!(u, Decision::Report(b"u65535".to_vec()));
}

#[test]
fn first_modifier_press_is_not_recorded() {
    // The collection appends a modifier only when it is already present, so
    // a press arriving on an empty collection leaves it empty and does not
    // shield a following suppressed key.
    let mut held = HeldModifiers::new();
    let sup = suppress_set(&[30]);
    let evs = vec![Event::Key(Key(KEY_LEFTSHIFT), true), Event::Key(Key(30), true)];
    let (forwarded, reports) = process_stream(&mut held, &sup, &evs);
    assert_eq!(forwarded, vec![Event::Key(Key(KEY_LEFTSHIFT), true)]);
    assert_eq!(reports, vec![b"d30".to_vec()]);
}

#[test]
fn modifier_release_unshields_suppressed_keys() {
    let mut held = HeldModifiers::from_codes(vec![KEY_LEFTSHIFT, KEY_LEFTSHIFT]);
    let sup = suppress_set(&[30]);
    let evs = vec![
        Event::Key(Key(30), true),
        Event::Key(Key(KEY_LEFTSHIFT), false),
        Event::Key(Key(30), true),
    ];
    let (forwarded, reports) = process_stream(&mut held, &sup, &evs);
    // While shift is held the key passes through; the release removes every
    // occurrence at once, so the second press is suppressed.
    assert_eq!(
        forwarded,
        vec![Event::Key(Key(30), true), Event::Key(Key(KEY_LEFTSHIFT), false)]
    );
    assert_eq!(reports, vec![b"d30".to_vec()]);
}

#[test]
fn non_modifier_keys_never_enter_held_collection() {
    let mut held = HeldModifiers::new();
    let sup = suppress_set(&[31]);
    // A held non-modifier key (30) must not shield key 31.
    let evs = vec![Event::Key(Key(30), true), Event::Key(Key(31), true)];
    let (forwarded, reports) = process_stream(&mut held, &sup, &evs);
    assert_eq!(forwarded, vec![Event::Key(Key(30), true)]);
    assert_eq!(reports, vec![b"d31".to_vec()]);
}

#[test]
fn empty_suppression_set_forwards_everything() {
    let mut held = HeldModifiers::new();
    let sup = SuppressSet::new();
    let evs = vec![
        Event::Key(Key(30), true),
        Event::Syn,
        Event::Key(Key(30), false),
        Event::Syn,
    ];
    let (forwarded, reports) = process_stream(&mut held, &sup, &evs);
    assert_eq!(forwarded, evs);
    assert!(reports.is_empty());
}
