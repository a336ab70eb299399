//! Handles of symbols.

use vstd::prelude::*;

verus! {

/// Handle of a symbol: the 1-based position at which its table created it.
///
/// The number 0 can be written down as a handle but never names a symbol.
#[derive(Debug, Clone, Copy, PartialEq, Eq, PartialOrd, Ord, Hash, Structural)]
pub struct SymbolId(usize);

impl View for SymbolId {
    type V = nat;

    closed spec fn view(&self) -> nat {
        self.0 as nat
    }
}

impl SymbolId {
    /// The handle with number `n`.
    pub fn new(n: usize) -> (id: Self)
        ensures
            id@ == n,
    {
        SymbolId(n)
    }

    /// The number of this handle.
    pub fn get(self) -> (n: usize)
        ensures
            n == self@,
    {
        self.0
    }

    /// The arena position that this handle names.
    pub fn index0(self) -> (index: usize)
        requires
            self@ >= 1,
        ensures
            index == self@ - 1,
    {
        self.0 - 1
    }

    /// Two handles with the same number are the same handle.
    pub proof fn lemma_view_injective(self, other: Self)
        requires
            self@ == other@,
        ensures
            self == other,
    {
    }
}

} // verus!
