//! Tracking of currently-held modifier keys.

use vstd::prelude::*;
use crate::keys::{is_modifier, is_modifier_code, Key};

verus! {

/// The ordered, possibly-duplicated collection of currently-pressed modifier
/// keys, owned by the hardware listener. It is used solely to test "no
/// modifier currently held": empty means unmodified state.
pub struct HeldModifiers {
    held: Vec<u16>,
}

impl View for HeldModifiers {
    type V = Seq<u16>;

    closed spec fn view(&self) -> Seq<u16> {
        self.held@
    }
}

/// `held` with every occurrence of `code` removed, order otherwise kept.
pub open spec fn remove_code(held: Seq<u16>, code: u16) -> Seq<u16>
    decreases held.len(),
{
    if held.len() == 0 {
        Seq::empty()
    } else if held.last() == code {
        remove_code(held.drop_last(), code)
    } else {
        remove_code(held.drop_last(), code).push(held.last())
    }
}

/// How a key event changes the held-modifier collection: non-modifier keys
/// leave it unchanged; a modifier release removes all its occurrences; a
/// modifier press appends the key only when it is already present (so a
/// first press is not recorded, while auto-repeat presses of an
/// already-tracked modifier are).
pub open spec fn update_held(held: Seq<u16>, code: u16, pressed: bool) -> Seq<u16> {
    if !is_modifier_code(code) {
        held
    } else if pressed {
        if held.contains(code) {
            held.push(code)
        } else {
            held
        }
    } else {
        remove_code(held, code)
    }
}

impl HeldModifiers {
    /// Only modifier keys ever appear in the collection.
    pub open spec fn wf(&self) -> bool {
        forall|i: int| 0 <= i < self@.len() ==> is_modifier_code(#[trigger] self@[i])
    }

    /// The empty collection, the state at startup.
    pub fn new() -> (m: HeldModifiers)
        ensures
            m@ == Seq::<u16>::empty(),
            m.wf(),
    {
        let m = HeldModifiers { held: Vec::new() };
        proof {
            assert(m.held@ =~= Seq::<u16>::empty());
        }
        m
    }

    /// A collection starting from a given state, for callers that need to
    /// examine the policy under specific held modifiers.
    pub fn from_codes(codes: Vec<u16>) -> (m: HeldModifiers)
        ensures
            m@ == codes@,
            (forall|i: int| 0 <= i < codes@.len() ==> is_modifier_code(#[trigger] codes@[i]))
                ==> m.wf(),
    {
        HeldModifiers { held: codes }
    }

    /// Whether no modifier is currently held.
    pub fn is_empty(&self) -> (r: bool)
        ensures
            r == (self@.len() == 0),
    {
        self.held.len() == 0
    }

    fn contains_code(&self, code: u16) -> (r: bool)
        ensures
            r == self@.contains(code),
    {
        let mut i: usize = 0;
        while i < self.held.len()
            invariant
                i <= self.held@.len(),
                forall|j: int| 0 <= j < i ==> self.held@[j] != code,
            decreases self.held@.len() - i,
        {
            if self.held[i] == code {
                assert(self.held@.contains(code));
                return true;
            }
            i = i + 1;
        }
        assert(!self.held@.contains(code));
        false
    }

    /// Apply a key event to the collection.
    pub fn update(&mut self, key: Key, pressed: bool)
        ensures
            final(self)@ == update_held(old(self)@, key.0, pressed),
            old(self).wf() ==> final(self).wf(),
    {
        let Key(code) = key;
        if is_modifier(key) {
            if pressed {
                if self.contains_code(code) {
                    self.held.push(code);
                }
            } else {
                let mut kept: Vec<u16> = Vec::new();
                proof {
                    assert(self.held@.take(0) =~= Seq::<u16>::empty());
                    assert(kept@ =~= remove_code(self.held@.take(0), code));
                }
                let mut i: usize = 0;
                while i < self.held.len()
                    invariant
                        i <= self.held@.len(),
                        kept@ == remove_code(self.held@.take(i as int), code),
                        old(self).wf() ==> forall|j: int|
                            0 <= j < kept@.len() ==> is_modifier_code(#[trigger] kept@[j]),
                        self.held == old(self).held,
                    decreases self.held@.len() - i,
                {
                    proof {
                        assert(self.held@.take(i + 1).drop_last() =~= self.held@.take(i as int));
                        assert(self.held@.take(i + 1).last() == self.held@[i as int]);
                    }
                    let b = self.held[i];
                    if b != code {
                        proof {
                            if old(self).wf() {
                                assert(is_modifier_code(old(self)@[i as int]));
                            }
                        }
                        kept.push(b);
                    }
                    i = i + 1;
                }
                proof {
                    assert(self.held@.take(i as int) =~= self.held@);
                }
                self.held = kept;
            }
        }
    }
}

} // verus!
