//! The per-frame input boundary: which abstract key symbols are held.
//!
//! The windowing layer drains its events and hands the core one value of
//! [`InputState`] per frame; the core only ever asks whether a symbol is
//! held, never how long or how often.

use vstd::prelude::*;

verus! {

/// The abstract key symbols the simulation reads.
#[derive(PartialEq, Eq, Structural, Clone, Copy, Debug, Hash)]
pub enum Key {
    Left,
    Right,
    Space,
    LCtrl,
    LShift,
    W,
    A,
    S,
    D,
    I,
    J,
    K,
    L,
    F,
}

/// The set of key symbols held during one frame.
pub struct InputState {
    pub held: Vec<Key>,
}

impl InputState {
    /// Whether `k` is among the held symbols.
    pub open spec fn spec_holds(self, k: Key) -> bool {
        exists|i: int| 0 <= i < self.held@.len() && self.held@[i] == k
    }

    /// No key held.
    pub fn none() -> (s: InputState)
        ensures
            forall|k: Key| !s.spec_holds(k),
    {
        InputState { held: Vec::new() }
    }

    /// The same frame state with `k` also held.
    pub fn with(self, k: Key) -> (s: InputState)
        ensures
            s.spec_holds(k),
            forall|q: Key| self.spec_holds(q) ==> s.spec_holds(q),
            forall|q: Key| s.spec_holds(q) ==> q == k || self.spec_holds(q),
    {
        let ghost prior = self.held@;
        let mut held = self.held;
        held.push(k);
        let s = InputState { held };
        proof {
            assert(s.held@ == prior.push(k));
            assert(s.held@[prior.len() as int] == k);
            assert forall|q: Key| self.spec_holds(q) implies s.spec_holds(q) by {
                let i = choose|i: int| 0 <= i < prior.len() && prior[i] == q;
                assert(s.held@[i] == q);
            };
            assert forall|q: Key| s.spec_holds(q) implies q == k || self.spec_holds(q) by {
                let i = choose|i: int| 0 <= i < s.held@.len() && s.held@[i] == q;
                if i < prior.len() {
                    assert(prior[i] == q);
                }
            };
        }
        s
    }

    /// Whether `k` is held this frame.
    pub fn holds(&self, k: Key) -> (r: bool)
        ensures
            r == self.spec_holds(k),
    {
        let mut i: usize = 0;
        while i < self.held.len()
            invariant
                i <= self.held@.len(),
                forall|j: int| 0 <= j < i ==> self.held@[j] != k,
            decreases self.held@.len() - i,
        {
            if self.held[i] == k {
                return true;
            }
            i = i + 1;
        }
        false
    }
}

} // verus!
