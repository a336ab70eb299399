//! Identifier uses, before and after they are bound to a symbol.

use vstd::prelude::*;

use crate::node::AstNodeId;
use crate::symbol::id::SymbolId;
use oxc_span::Span;

verus! {

/// How an identifier use touches the binding that it names.
#[derive(Debug, Clone, Copy, PartialEq, Eq, Hash, Structural)]
pub enum ReferenceFlag {
    Read,
    Write,
    ReadWrite,
}

/// An identifier use that no symbol has claimed yet.
///
/// Its owner is the resolver, until the resolver commits it to a table.
#[derive(Debug, PartialEq, Eq)]
pub struct Reference {
    pub ast_node_id: AstNodeId,
    pub span: Span,
    pub flag: ReferenceFlag,
}

/// An identifier use together with the symbol that it is bound to.
#[derive(Debug, PartialEq, Eq)]
pub struct ResolvedReference {
    pub reference: Reference,
    pub resolved_symbol_id: SymbolId,
}

/// Handle of a resolved reference: the 1-based position at which its table
/// committed it, counted over the references of all symbols.
///
/// The number 0 can be written down as a handle but never names a reference.
#[derive(Debug, Clone, Copy, PartialEq, Eq, PartialOrd, Ord, Hash, Structural)]
pub struct ResolvedReferenceId(usize);

impl View for ResolvedReferenceId {
    type V = nat;

    closed spec fn view(&self) -> nat {
        self.0 as nat
    }
}

impl ResolvedReferenceId {
    /// The handle with number `n`.
    pub fn new(n: usize) -> (id: Self)
        ensures
            id@ == n,
    {
        ResolvedReferenceId(n)
    }

    /// The number of this handle.
    pub fn get(self) -> (n: usize)
        ensures
            n == self@,
    {
        self.0
    }

    /// The arena position that this handle names.
    pub fn index0(self) -> (index: usize)
        requires
            self@ >= 1,
        ensures
            index == self@ - 1,
    {
        self.0 - 1
    }

    /// The numbers of a sequence of handles, in the same order.
    pub open spec fn numbers(ids: Seq<Self>) -> Seq<nat> {
        ids.map_values(|id: Self| id@)
    }

    /// Two handles with the same number are the same handle.
    pub proof fn lemma_view_injective(self, other: Self)
        requires
            self@ == other@,
        ensures
            self == other,
    {
    }
}

impl Clone for Reference {
    fn clone(&self) -> (copy: Self)
        ensures
            copy == *self,
    {
        Reference { ast_node_id: self.ast_node_id, span: self.span, flag: self.flag }
    }
}

impl Clone for ResolvedReference {
    fn clone(&self) -> (copy: Self)
        ensures
            copy == *self,
    {
        ResolvedReference {
            reference: self.reference.clone(),
            resolved_symbol_id: self.resolved_symbol_id,
        }
    }
}

impl Reference {
    /// The use at node `ast_node_id`, covering `span`, of kind `flag`.
    pub fn new(ast_node_id: AstNodeId, span: Span, flag: ReferenceFlag) -> (reference: Self)
        ensures
            reference == (Reference { ast_node_id, span, flag }),
    {
        Reference { ast_node_id, span, flag }
    }

    /// This use, bound to `symbol_id`.
    pub open spec fn resolved(self, symbol_id: SymbolId) -> ResolvedReference {
        ResolvedReference { reference: self, resolved_symbol_id: symbol_id }
    }

    /// Binds this use to the symbol `symbol_id`, giving the use up.
    pub fn resolve_to(self, symbol_id: SymbolId) -> (resolved: ResolvedReference)
        ensures
            resolved == self.resolved(symbol_id),
    {
        ResolvedReference { reference: self, resolved_symbol_id: symbol_id }
    }

    /// Every use of `references`, bound to `symbol_id`, in the same order.
    pub open spec fn resolved_all(references: Seq<Self>, symbol_id: SymbolId) -> Seq<
        ResolvedReference,
    > {
        references.map_values(|reference: Self| reference.resolved(symbol_id))
    }
}

} // verus!
