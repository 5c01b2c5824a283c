//! Input events and their encoding as raw kernel-style records.

use vstd::prelude::*;
use crate::keys::Key;

verus! {

/// Raw event type number of a synchronization marker.
pub const EV_SYN: u16 = 0;

/// Raw event type number of a key event.
pub const EV_KEY: u16 = 1;

/// A decoded input event. Synchronization markers and `Other` events are
/// opaque pass-through payloads; only key events are interpreted by policy.
#[derive(Clone, Copy, Debug, PartialEq, Eq, Structural)]
pub enum Event {
    Syn,
    Key(Key, bool),
    Other(u16, u16, i32),
}

/// A raw event record as the kernel input subsystem encodes it: type number,
/// code, and value (the timestamp is not modeled; writers fill it with zero).
#[derive(Clone, Copy, Debug, PartialEq, Eq, Structural)]
pub struct RawEvent {
    pub kind: u16,
    pub code: u16,
    pub value: i32,
}

/// The event a raw record decodes to.
pub open spec fn event_of_raw(raw: RawEvent) -> Event {
    if raw.kind == EV_SYN {
        Event::Syn
    } else if raw.kind == EV_KEY {
        Event::Key(Key(raw.code), raw.value != 0)
    } else {
        Event::Other(raw.kind, raw.code, raw.value)
    }
}

/// The raw record an event encodes to.
pub open spec fn raw_of_event(ev: Event) -> RawEvent {
    match ev {
        Event::Syn => RawEvent { kind: EV_SYN, code: 0, value: 0 },
        Event::Key(key, pressed) => RawEvent {
            kind: EV_KEY,
            code: key.0,
            value: if pressed { 1 } else { 0 },
        },
        Event::Other(kind, code, value) => RawEvent { kind, code, value },
    }
}

impl Event {
    /// Decode a raw record into an event.
    pub fn from_raw(raw: RawEvent) -> (ev: Event)
        ensures
            ev == event_of_raw(raw),
    {
        if raw.kind == EV_SYN {
            Event::Syn
        } else if raw.kind == EV_KEY {
            Event::Key(Key(raw.code), raw.value != 0)
        } else {
            Event::Other(raw.kind, raw.code, raw.value)
        }
    }

    /// Encode this event as a raw record.
    pub fn to_raw(self) -> (raw: RawEvent)
        ensures
            raw == raw_of_event(self),
    {
        match self {
            Event::Syn => RawEvent { kind: EV_SYN, code: 0, value: 0 },
            Event::Key(key, pressed) => RawEvent {
                kind: EV_KEY,
                code: key.0,
                value: if pressed { 1 } else { 0 },
            },
            Event::Other(kind, code, value) => RawEvent { kind, code, value },
        }
    }
}

} // verus!
