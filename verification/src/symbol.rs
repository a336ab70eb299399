//! Symbols: one record for each declared binding.

use vstd::prelude::*;

use crate::node::AstNodeId;
use crate::symbol::id::SymbolId;
use crate::symbol::reference::ResolvedReferenceId;
use oxc_span::{Atom, Span};

pub mod growth;
pub mod id;
pub mod model;
pub mod reads;
pub mod reference;
pub mod table;

verus! {

/// The kinds of declaration that gave rise to a symbol, as a set of bits.
///
/// The table stores the set and never branches on it.
#[derive(Debug, Clone, Copy, PartialEq, Eq, Hash, Structural)]
pub struct SymbolFlags(pub u16);

impl SymbolFlags {
    /// The set whose members are the bits set in `bits`.
    pub fn from_bits(bits: u16) -> (flags: Self)
        ensures
            flags == SymbolFlags(bits),
    {
        SymbolFlags(bits)
    }

    /// The members of this set, one bit each.
    pub fn bits(self) -> (bits: u16)
        ensures
            bits == self.0,
    {
        self.0
    }
}

/// A declared binding and the uses that were resolved to it.
#[derive(Debug)]
pub struct Symbol {
    id: SymbolId,
    declaration: AstNodeId,
    name: Atom,
    span: Span,
    flags: SymbolFlags,
    references: Vec<ResolvedReferenceId>,
}

/// What a [`Symbol`] holds, with handles as numbers.
pub struct SymbolView {
    /// Number of the symbol's own handle.
    pub id: nat,
    /// Node at which the binding is declared.
    pub declaration: AstNodeId,
    /// Declared name.
    pub name: Atom,
    /// Source range of the declaration.
    pub span: Span,
    /// Kinds of the declaration.
    pub flags: SymbolFlags,
    /// Numbers of the resolved references bound to this symbol, in the order
    /// in which they were committed.
    pub references: Seq<nat>,
}

impl SymbolView {
    /// The symbol that a declaration gives rise to: no use is bound to it yet.
    pub open spec fn fresh(
        id: nat,
        declaration: AstNodeId,
        name: Atom,
        span: Span,
        flags: SymbolFlags,
    ) -> Self {
        SymbolView { id, declaration, name, span, flags, references: Seq::empty() }
    }

    /// This symbol with `more` appended to its references.
    pub open spec fn with_more_references(self, more: Seq<nat>) -> Self {
        SymbolView { references: self.references + more, ..self }
    }

    /// Whether `other` is the same declaration under the same handle; the
    /// references may differ.
    pub open spec fn same_declaration(self, other: Self) -> bool {
        &&& self.id == other.id
        &&& self.declaration == other.declaration
        &&& self.name == other.name
        &&& self.span == other.span
        &&& self.flags == other.flags
    }
}

impl View for Symbol {
    type V = SymbolView;

    closed spec fn view(&self) -> SymbolView {
        SymbolView {
            id: self.id@,
            declaration: self.declaration,
            name: self.name,
            span: self.span,
            flags: self.flags,
            references: ResolvedReferenceId::numbers(self.references@),
        }
    }
}

impl Symbol {
    /// What each symbol of a sequence holds, in the same order.
    pub open spec fn views(symbols: Seq<Self>) -> Seq<SymbolView> {
        symbols.map_values(|symbol: Self| symbol@)
    }

    /// The symbol for a declaration, with no use bound to it yet.
    pub fn new(
        id: SymbolId,
        declaration: AstNodeId,
        name: Atom,
        span: Span,
        flags: SymbolFlags,
    ) -> (symbol: Self)
        ensures
            symbol@ == SymbolView::fresh(id@, declaration, name, span, flags),
    {
        let symbol = Symbol { id, declaration, name, span, flags, references: Vec::new() };
        assert(symbol@.references =~= Seq::empty());
        symbol
    }

    /// The symbol's own handle.
    pub fn id(&self) -> (id: SymbolId)
        ensures
            id@ == self@.id,
    {
        self.id
    }

    /// The node at which the binding is declared.
    pub fn declaration(&self) -> (declaration: AstNodeId)
        ensures
            declaration == self@.declaration,
    {
        self.declaration
    }

    /// The declared name.
    pub fn name(&self) -> (name: &Atom)
        ensures
            *name == self@.name,
    {
        &self.name
    }

    /// The source range of the declaration.
    pub fn span(&self) -> (span: Span)
        ensures
            span == self@.span,
    {
        self.span
    }

    /// The kinds of the declaration.
    pub fn flags(&self) -> (flags: SymbolFlags)
        ensures
            flags == self@.flags,
    {
        self.flags
    }

    /// The handles of the resolved references bound to this symbol, in the
    /// order in which they were committed.
    pub fn references(&self) -> (references: &Vec<ResolvedReferenceId>)
        ensures
            ResolvedReferenceId::numbers(references@) == self@.references,
    {
        &self.references
    }
}

} // verus!
