//! The runtime-mutable set of suppressed key codes.

use vstd::prelude::*;

verus! {

/// The set of key codes currently withheld from the synthetic device.
/// Viewed as the mathematical set of codes it holds; it is built afresh by
/// each control update and replaced wholesale, never merged.
pub struct SuppressSet {
    codes: Vec<u16>,
}

impl View for SuppressSet {
    type V = Set<u16>;

    closed spec fn view(&self) -> Set<u16> {
        self.codes@.to_set()
    }
}

impl SuppressSet {
    /// The empty set.
    pub fn new() -> (s: SuppressSet)
        ensures
            s@ == Set::<u16>::empty(),
    {
        let s = SuppressSet { codes: Vec::new() };
        proof {
            assert(s.codes@.to_set() =~= Set::<u16>::empty());
        }
        s
    }

    /// Whether `code` is in the set.
    pub fn contains(&self, code: u16) -> (r: bool)
        ensures
            r == self@.contains(code),
    {
        let mut i: usize = 0;
        while i < self.codes.len()
            invariant
                i <= self.codes@.len(),
                forall|j: int| 0 <= j < i ==> self.codes@[j] != code,
            decreases self.codes@.len() - i,
        {
            if self.codes[i] == code {
                assert(self.codes@.contains(code));
                return true;
            }
            i = i + 1;
        }
        assert(!self.codes@.contains(code));
        false
    }

    /// Add `code` to the set.
    pub fn insert(&mut self, code: u16)
        ensures
            final(self)@ == old(self)@.insert(code),
    {
        self.codes.push(code);
        proof {
            old(self).codes@.lemma_push_to_set_commute(code);
        }
    }
}

} // verus!
