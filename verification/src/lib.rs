//! Keyboard event interception core: the modifier-aware suppression policy,
//! the control-protocol engine, and the event/key data model.
//!
//! Physical events flow through [`handle_event`] (or [`process_stream`]),
//! which either forwards them to the synthetic device or diverts them to
//! the control channel; control lines flow through [`parse_line`] and
//! [`apply_command`], which mutate the suppression set or inject synthetic
//! events.

mod control;
mod event;
mod keys;
mod modifiers;
mod numeric;
mod policy;
mod selector;
mod suppress;

pub use control::{
    apply_command, injection_events, lemma_inject_press_release, parse_line,
    parse_suppression_body, Command, TAG_PRESS, TAG_RELEASE, TAG_SET,
};
pub use event::{Event, RawEvent, EV_KEY, EV_SYN};
pub use keys::{
    is_modifier, Key, KEY_A, KEY_LEFTALT, KEY_LEFTCTRL, KEY_LEFTMETA, KEY_LEFTSHIFT,
    KEY_RIGHTALT, KEY_RIGHTCTRL, KEY_RIGHTMETA, KEY_RIGHTSHIFT,
};
pub use modifiers::HeldModifiers;
pub use numeric::{parse_u16, render_u16};
pub use policy::{
    handle_event, lemma_report_round_trip, lemma_step_effect, lemma_syn_always_forwarded,
    process_stream, Decision,
};
pub use selector::{is_keyboard, select_keyboard, uinput_name_bytes, DeviceCandidate};
pub use suppress::SuppressSet;
