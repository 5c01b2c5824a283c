//! Key identifiers and the fixed modifier-key set.

use vstd::prelude::*;

verus! {

/// Numeric identifier of a keyboard key, matching the kernel input
/// subsystem's native numbering.
#[derive(Clone, Copy, Debug, PartialEq, Eq, Structural, Hash)]
pub struct Key(pub u16);

/// Probe key used to test whether a device is a keyboard.
pub const KEY_A: u16 = 30;

pub const KEY_LEFTSHIFT: u16 = 42;
pub const KEY_RIGHTSHIFT: u16 = 54;
pub const KEY_LEFTCTRL: u16 = 29;
pub const KEY_RIGHTCTRL: u16 = 97;
pub const KEY_LEFTALT: u16 = 56;
pub const KEY_RIGHTALT: u16 = 100;
pub const KEY_LEFTMETA: u16 = 125;
pub const KEY_RIGHTMETA: u16 = 126;

/// The fixed set of modifier keys: left/right shift, ctrl, alt, meta.
pub open spec fn is_modifier_code(code: u16) -> bool {
    ||| code == KEY_LEFTSHIFT
    ||| code == KEY_RIGHTSHIFT
    ||| code == KEY_LEFTCTRL
    ||| code == KEY_RIGHTCTRL
    ||| code == KEY_LEFTALT
    ||| code == KEY_RIGHTALT
    ||| code == KEY_LEFTMETA
    ||| code == KEY_RIGHTMETA
}

/// Whether `key` is one of the fixed modifier keys.
pub fn is_modifier(key: Key) -> (r: bool)
    ensures
        r == is_modifier_code(key.0),
{
    let Key(code) = key;
    code == KEY_LEFTSHIFT || code == KEY_RIGHTSHIFT || code == KEY_LEFTCTRL
        || code == KEY_RIGHTCTRL || code == KEY_LEFTALT || code == KEY_RIGHTALT
        || code == KEY_LEFTMETA || code == KEY_RIGHTMETA
}

} // verus!
