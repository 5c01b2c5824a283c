//! Choosing the physical keyboard among the enumerable input devices.

use vstd::prelude::*;

verus! {

/// The fixed name of the synthetic device (`Plover`), as bytes. A device
/// carrying this name is the system's own virtual device and is never
/// selected as the physical keyboard.
pub open spec fn uinput_name() -> Seq<u8> {
    seq![80u8, 108u8, 111u8, 118u8, 101u8, 114u8]
}

/// The synthetic device's name as a byte vector, for creating the device
/// and for candidacy checks.
pub fn uinput_name_bytes() -> (v: Vec<u8>)
    ensures
        v@ == uinput_name(),
{
    let mut v: Vec<u8> = Vec::new();
    v.push(80);
    v.push(108);
    v.push(111);
    v.push(118);
    v.push(101);
    v.push(114);
    proof {
        assert(v@ =~= uinput_name());
    }
    v
}

fn bytes_eq(a: &[u8], b: &[u8]) -> (r: bool)
    ensures
        r == (a@ == b@),
{
    if a.len() != b.len() {
        return false;
    }
    let mut i: usize = 0;
    while i < a.len()
        invariant
            a@.len() == b@.len(),
            i <= a@.len(),
            forall|j: int| 0 <= j < i ==> a@[j] == b@[j],
        decreases a@.len() - i,
    {
        if a[i] != b[i] {
            return false;
        }
        i = i + 1;
    }
    proof {
        assert(a@ =~= b@);
    }
    true
}

/// What qualifies a device as the physical keyboard: its reported name
/// differs from the synthetic device's fixed name, and it reports
/// capability for the probe key.
pub open spec fn qualifies(name: Seq<u8>, has_probe_key: bool) -> bool {
    name != uinput_name() && has_probe_key
}

/// Whether a device with this reported name and probe-key capability is an
/// acceptable physical keyboard.
pub fn is_keyboard(name: &[u8], has_probe_key: bool) -> (r: bool)
    ensures
        r == qualifies(name@, has_probe_key),
{
    let expected = uinput_name_bytes();
    !bytes_eq(name, expected.as_slice()) && has_probe_key
}

/// What the keyboard selector reads of one openable device: its reported
/// name and whether it reports capability for the probe key.
pub struct DeviceCandidate {
    pub name: Vec<u8>,
    pub has_probe_key: bool,
}

/// Pick the first qualifying device, in enumeration order. Returns its
/// index, or `None` when no device qualifies (the system then has no
/// useful degraded mode and fails fatally).
pub fn select_keyboard(devices: &Vec<DeviceCandidate>) -> (r: Option<usize>)
    ensures
        r matches Some(i) ==> 0 <= i < devices@.len() && qualifies(
            devices@[i as int].name@,
            devices@[i as int].has_probe_key,
        ) && forall|j: int|
            0 <= j < i ==> !qualifies(
                #[trigger] devices@[j].name@,
                devices@[j].has_probe_key,
            ),
        r is None ==> forall|j: int|
            0 <= j < devices@.len() ==> !qualifies(
                #[trigger] devices@[j].name@,
                devices@[j].has_probe_key,
            ),
{
    let mut i: usize = 0;
    while i < devices.len()
        invariant
            i <= devices@.len(),
            forall|j: int|
                0 <= j < i ==> !qualifies(
                    #[trigger] devices@[j].name@,
                    devices@[j].has_probe_key,
                ),
        decreases devices@.len() - i,
    {
        let d = &devices[i];
        if is_keyboard(d.name.as_slice(), d.has_probe_key) {
            return Some(i);
        }
        i = i + 1;
    }
    None
}

} // verus!
