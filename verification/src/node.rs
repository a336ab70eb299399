//! Handles of syntax-tree nodes.

use vstd::prelude::*;

verus! {

/// Handle of the syntax-tree node at which something is declared or used.
///
/// The table stores such handles and hands them back; it never follows one.
#[derive(Debug, Clone, Copy, PartialEq, Eq, Hash, Structural)]
pub struct AstNodeId(pub usize);

impl AstNodeId {
    /// The handle of the node stored at position `index` of its tree.
    pub fn new(index: usize) -> (id: Self)
        ensures
            id == AstNodeId(index),
    {
        AstNodeId(index)
    }

    /// The position that this handle was made from.
    pub fn index(self) -> (index: usize)
        ensures
            index == self.0,
    {
        self.0
    }
}

} // verus!
