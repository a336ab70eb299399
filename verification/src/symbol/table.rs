//! The table itself: two arenas and the handles into them.

use vstd::prelude::*;

use crate::node::AstNodeId;
use crate::symbol::id::SymbolId;
use crate::symbol::model::{numbers_after, SymbolTableView};
use crate::symbol::reference::{Reference, ResolvedReference, ResolvedReferenceId};
use crate::symbol::{Symbol, SymbolFlags, SymbolView};
use oxc_span::{Atom, Span};

verus! {

/// Storage of all the symbols and all the resolved references of a program.
///
/// A handle is the 1-based position of its record. Records are only ever
/// added, so a handle that this table gave out stays valid.
#[derive(Debug)]
pub struct SymbolTable {
    /// Every symbol; the one with handle number `n` at position `n - 1`.
    symbols: Vec<Symbol>,
    /// Every resolved reference; the one with handle number `n` at position
    /// `n - 1`.
    resolved_references: Vec<ResolvedReference>,
}

impl View for SymbolTable {
    type V = SymbolTableView;

    closed spec fn view(&self) -> SymbolTableView {
        SymbolTableView {
            symbols: Symbol::views(self.symbols@),
            resolved_references: self.resolved_references@,
        }
    }
}

impl Default for SymbolTable {
    /// The table that holds nothing.
    fn default() -> (table: Self)
        ensures
            table@ == SymbolTableView::empty(),
            table@.wf(),
    {
        let table = SymbolTable { symbols: Vec::new(), resolved_references: Vec::new() };
        assert(table@.symbols =~= Seq::empty());
        table
    }
}

impl SymbolTable {
    /// Every symbol, in creation order.
    #[must_use]
    pub fn symbols(&self) -> (symbols: &Vec<Symbol>)
        ensures
            Symbol::views(symbols@) == self@.symbols,
    {
        &self.symbols
    }

    /// The symbol that `id` names, or `None` where it names none.
    #[must_use]
    pub fn get_symbol(&self, id: SymbolId) -> (found: Option<&Symbol>)
        ensures
            match found {
                Some(symbol) => self@.get_symbol(id@) == Some(symbol@),
                None => self@.get_symbol(id@) is None,
            },
            self@.wf() ==> (found matches Some(symbol) ==> symbol@.id == id@),
    {
        match id.get().checked_sub(1) {
            Some(index) => self.symbols.get(index),
            None => None,
        }
    }

    /// The symbol that `id` names, for a caller that holds a handle of this
    /// table.
    pub fn symbol(&self, id: SymbolId) -> (symbol: &Symbol)
        requires
            self@.has_symbol(id@),
        ensures
            symbol@ == self@.symbols[id@ - 1],
    {
        &self.symbols[id.index0()]
    }

    /// The symbol that `id` names, for writing.
    ///
    /// Whatever the caller leaves behind the returned borrow takes the place
    /// of that symbol; nothing else changes. The table stays well formed if
    /// the caller leaves the symbol's handle and references as they were.
    pub fn symbol_mut(&mut self, id: SymbolId) -> (symbol: &mut Symbol)
        requires
            old(self)@.has_symbol(id@),
        ensures
            symbol@ == old(self)@.symbols[id@ - 1],
            final(self)@ == (SymbolTableView {
                symbols: old(self)@.symbols.update(id@ - 1, final(symbol)@),
                ..old(self)@
            }),
            old(self)@.wf() && final(symbol)@.id == symbol@.id && final(symbol)@.references
                == symbol@.references ==> final(self)@.wf(),
    {
        let symbol = &mut self.symbols[id.index0()];
        proof {
            let before = old(self)@;
            assert forall|left: SymbolView|
                before.wf() && left.id == id@ && left.references == before.symbols[id@
                    - 1].references implies (SymbolTableView {
                symbols: #[trigger] before.symbols.update(id@ - 1, left),
                ..before
            }).wf() by {
                before.lemma_replace_symbol_wf(id@, left);
            }
        }
        assert(Symbol::views(old(self).symbols@.update(id@ - 1, *final(symbol)))
            =~= old(self)@.symbols.update(id@ - 1, final(symbol)@));
        symbol
    }

    /// Records a declaration as a new symbol and returns its handle.
    #[must_use]
    pub fn create(
        &mut self,
        declaration: AstNodeId,
        name: Atom,
        span: Span,
        flags: SymbolFlags,
    ) -> (id: SymbolId)
        requires
            old(self)@.symbols.len() < usize::MAX,
        ensures
            id@ == old(self)@.next_symbol_id(),
            final(self)@ == old(self)@.create(declaration, name, span, flags),
            final(self)@.extends(old(self)@),
            old(self)@.wf() ==> final(self)@.wf(),
    {
        let symbol_id = SymbolId::new(self.symbols.len() + 1);
        let symbol = Symbol::new(symbol_id, declaration, name, span, flags);
        self.symbols.push(symbol);
        proof {
            assert(self@.symbols =~= old(self)@.create(declaration, name, span, flags).symbols);
            old(self)@.lemma_create_extends(declaration, name, span, flags);
            if old(self)@.wf() {
                old(self)@.lemma_create_wf(declaration, name, span, flags);
            }
        }
        symbol_id
    }

    /// Every resolved reference, in commit order.
    #[must_use]
    pub fn resolved_references(&self) -> (resolved_references: &Vec<ResolvedReference>)
        ensures
            resolved_references@ == self@.resolved_references,
    {
        &self.resolved_references
    }

    /// The resolved reference that `id` names, or `None` where it names none.
    #[must_use]
    pub fn get_resolved_reference(&self, id: ResolvedReferenceId) -> (found: Option<
        &ResolvedReference,
    >)
        ensures
            match found {
                Some(resolved) => self@.get_resolved_reference(id@) == Some(*resolved),
                None => self@.get_resolved_reference(id@) is None,
            },
    {
        match id.get().checked_sub(1) {
            Some(index) => self.resolved_references.get(index),
            None => None,
        }
    }

    /// The resolved reference that `id` names, for a caller that holds a
    /// handle of this table.
    pub fn resolved_reference(&self, id: ResolvedReferenceId) -> (resolved: &ResolvedReference)
        requires
            self@.has_resolved_reference(id@),
        ensures
            *resolved == self@.resolved_references[id@ - 1],
    {
        &self.resolved_references[id.index0()]
    }

    /// The resolved reference that `id` names, for writing.
    ///
    /// Whatever the caller leaves behind the returned borrow takes the place
    /// of that reference; nothing else changes. The table stays well formed
    /// if the caller leaves the reference bound to the same symbol.
    pub fn resolved_reference_mut(&mut self, id: ResolvedReferenceId) -> (resolved:
        &mut ResolvedReference)
        requires
            old(self)@.has_resolved_reference(id@),
        ensures
            *resolved == old(self)@.resolved_references[id@ - 1],
            final(self)@ == (SymbolTableView {
                resolved_references: old(self)@.resolved_references.update(
                    id@ - 1,
                    *final(resolved),
                ),
                ..old(self)@
            }),
            old(self)@.wf() && final(resolved).resolved_symbol_id@ == resolved.resolved_symbol_id@
                ==> final(self)@.wf(),
    {
        let resolved = &mut self.resolved_references[id.index0()];
        proof {
            let before = old(self)@;
            assert forall|left: ResolvedReference|
                before.wf() && left.resolved_symbol_id@ == before.resolved_references[id@
                    - 1].resolved_symbol_id@ implies (SymbolTableView {
                resolved_references: #[trigger] before.resolved_references.update(id@ - 1, left),
                ..before
            }).wf() by {
                before.lemma_replace_resolved_reference_wf(id@, left);
            }
        }
        resolved
    }

    /// Resolves all of `references` to the symbol `symbol_id`.
    ///
    /// The batch is committed in its own order, behind everything committed
    /// before it, and the symbol learns the new handles in the same order.
    pub fn resolve_reference(&mut self, references: Vec<Reference>, symbol_id: SymbolId)
        requires
            old(self)@.has_symbol(symbol_id@),
            old(self)@.resolved_references.len() + references@.len() <= usize::MAX,
        ensures
            final(self)@ == old(self)@.resolve_reference(references@, symbol_id),
            final(self)@.extends(old(self)@),
            old(self)@.wf() ==> final(self)@.wf(),
    {
        let additional_len = references.len();
        let ghost batch = references@;
        let ghost before = self@;
        let ghost stored = self.symbols@;
        let ghost position = symbol_id@ - 1;
        let symbol = &mut self.symbols[symbol_id.index0()];
        let ghost target = symbol@;

        self.resolved_references.reserve(additional_len);
        symbol.references.reserve(additional_len);

        proof {
            // nothing is committed yet
            assert(Reference::resolved_all(batch.take(0), symbol_id) =~= Seq::empty());
            assert(target.references + numbers_after(before.resolved_references.len(), 0)
                =~= target.references);
        }

        for reference in it: references.into_iter()
            invariant
                it.seq() == batch,
                before.resolved_references.len() + batch.len() <= usize::MAX,
                self.resolved_references@ == before.resolved_references + Reference::resolved_all(
                    batch.take(it.index() as int),
                    symbol_id,
                ),
                symbol@ == target.with_more_references(
                    numbers_after(before.resolved_references.len(), it.index() as nat),
                ),
                0 <= position < stored.len(),
                after_borrow(self.symbols)@ == stored.update(position, *final(symbol)),
        {
            let ghost done = it.index() as int;
            let ghost known = symbol.references@;
            let resolved_reference_id = ResolvedReferenceId::new(
                self.resolved_references.len() + 1,
            );
            let resolved_reference = reference.resolve_to(symbol_id);
            self.resolved_references.push(resolved_reference);
            // room for this push was reserved before the loop
            symbol.references.push(resolved_reference_id);

            proof {
                // one more use is bound, and its number is one more in the symbol's list
                assert(Reference::resolved_all(batch.take(done + 1), symbol_id)
                    =~= Reference::resolved_all(batch.take(done), symbol_id).push(
                    reference.resolved(symbol_id),
                ));
                assert(ResolvedReferenceId::numbers(known.push(resolved_reference_id))
                    =~= ResolvedReferenceId::numbers(known).push(resolved_reference_id@));
                assert(symbol@.references =~= target.references + numbers_after(
                    before.resolved_references.len(),
                    (done + 1) as nat,
                ));
            }
        }

        proof {
            assert(batch.take(batch.len() as int) =~= batch);
            assert(self@.symbols =~= before.resolve_reference(batch, symbol_id).symbols);
            before.lemma_resolve_reference_extends(batch, symbol_id);
            if before.wf() {
                before.lemma_resolve_reference_wf(batch, symbol_id);
            }
        }
    }
}

} // verus!
