//! How a table grows over several calls: what is added, in which order, and
//! what stays as it was.

use vstd::prelude::*;

use crate::node::AstNodeId;
use crate::symbol::id::SymbolId;
use crate::symbol::model::{numbers_after, SymbolTableView};
use crate::symbol::reference::Reference;
use crate::symbol::{SymbolFlags, SymbolView};
use oxc_span::{Atom, Span};

verus! {

/// What a binder tells the table of one declaration.
pub struct Declaration {
    /// Node at which the binding is declared.
    pub node: AstNodeId,
    /// Declared name.
    pub name: Atom,
    /// Source range of the declaration.
    pub span: Span,
    /// Kinds of the declaration.
    pub flags: SymbolFlags,
}

impl Declaration {
    /// The symbol that this declaration gives rise to under the number `id`.
    pub open spec fn symbol(self, id: nat) -> SymbolView {
        SymbolView::fresh(id, self.node, self.name, self.span, self.flags)
    }
}

impl SymbolTableView {
    /// This table after one `create` for each of `declarations`, in order.
    pub open spec fn create_all(self, declarations: Seq<Declaration>) -> Self
        decreases declarations.len(),
    {
        if declarations.len() == 0 {
            self
        } else {
            let last = declarations.last();
            self.create_all(declarations.drop_last()).create(
                last.node,
                last.name,
                last.span,
                last.flags,
            )
        }
    }

    /// Whether this table is `earlier` after some growth: every record of
    /// `earlier` is still there under its number, a symbol with its
    /// declaration unchanged and its references at most extended at the end,
    /// a resolved reference unchanged.
    pub open spec fn extends(self, earlier: Self) -> bool {
        &&& earlier.resolved_references.is_prefix_of(self.resolved_references)
        &&& earlier.symbols.len() <= self.symbols.len()
        &&& forall|i: int|
            0 <= i < earlier.symbols.len() ==> {
                &&& (#[trigger] self.symbols[i]).same_declaration(earlier.symbols[i])
                &&& earlier.symbols[i].references.is_prefix_of(self.symbols[i].references)
            }
    }

    /// A run of `create` calls adds one symbol for each call, behind the
    /// symbols that were there, and changes nothing else.
    pub proof fn lemma_create_all_adds(self, declarations: Seq<Declaration>)
        ensures
            self.create_all(declarations).resolved_references == self.resolved_references,
            self.create_all(declarations).symbols.len() == self.symbols.len()
                + declarations.len(),
            self.create_all(declarations).symbols.take(self.symbols.len() as int)
                == self.symbols,
        decreases declarations.len(),
    {
        if declarations.len() > 0 {
            self.lemma_create_all_adds(declarations.drop_last());
        }
    }

    /// A run of `create` calls numbers its symbols in call order. Call `k`
    /// (from 0) returns the number that follows the symbols that were there
    /// at the start and the `k` symbols created before it; after the run the
    /// symbol under that number is the one that call `k` declared.
    pub proof fn lemma_create_all_numbers(self, declarations: Seq<Declaration>, k: int)
        requires
            0 <= k < declarations.len(),
        ensures
            self.create_all(declarations.take(k)).next_symbol_id() == self.symbols.len() + k + 1,
            self.create_all(declarations).get_symbol((self.symbols.len() + k + 1) as nat) == Some(
                declarations[k].symbol((self.symbols.len() + k + 1) as nat),
            ),
        decreases declarations.len(),
    {
        let shorter = declarations.drop_last();
        self.lemma_create_all_adds(declarations.take(k));
        self.lemma_create_all_adds(shorter);
        self.lemma_create_all_adds(declarations);
        if k < shorter.len() {
            self.lemma_create_all_numbers(shorter, k);
        }
    }

    /// On an empty table `n` calls of `create` return the numbers 1 to `n` in
    /// call order: call `k` (from 0) returns `k + 1`, and after the run the
    /// symbol at position `k` of the arena is the one that call `k` declared.
    /// The table is well formed afterwards.
    pub proof fn lemma_create_all_from_empty(declarations: Seq<Declaration>, k: int)
        requires
            0 <= k < declarations.len(),
        ensures
            Self::empty().create_all(declarations).wf(),
            Self::empty().create_all(declarations).symbols.len() == declarations.len(),
            Self::empty().create_all(declarations.take(k)).next_symbol_id() == k + 1,
            Self::empty().create_all(declarations).symbols[k] == declarations[k].symbol(
                (k + 1) as nat,
            ),
    {
        Self::empty().lemma_create_all_adds(declarations);
        Self::empty().lemma_create_all_numbers(declarations, k);
        Self::empty().lemma_create_all_wf(declarations);
    }

    /// A run of `create` calls keeps a table well formed.
    pub proof fn lemma_create_all_wf(self, declarations: Seq<Declaration>)
        requires
            self.wf(),
        ensures
            self.create_all(declarations).wf(),
        decreases declarations.len(),
    {
        if declarations.len() > 0 {
            let last = declarations.last();
            self.lemma_create_all_wf(declarations.drop_last());
            self.create_all(declarations.drop_last()).lemma_create_wf(
                last.node,
                last.name,
                last.span,
                last.flags,
            );
        }
    }

    /// Two batches in a row, to the same symbol or to two. The reference
    /// arena holds the first batch and then the second, each in its own
    /// order, whichever of the two symbols was created first. A symbol that
    /// got both batches lists the numbers of the first and then those of the
    /// second; a symbol that got one lists the numbers of that one; every
    /// other symbol is as it was.
    pub proof fn lemma_two_batches(
        self,
        first: Seq<Reference>,
        first_id: SymbolId,
        second: Seq<Reference>,
        second_id: SymbolId,
    )
        requires
            self.has_symbol(first_id@),
            self.has_symbol(second_id@),
        ensures
            ({
                let after = self.resolve_reference(first, first_id).resolve_reference(
                    second,
                    second_id,
                );
                let had = self.resolved_references.len();
                let first_numbers = numbers_after(had, first.len());
                let second_numbers = numbers_after(had + first.len(), second.len());
                &&& after.resolved_references == self.resolved_references
                    + Reference::resolved_all(first, first_id) + Reference::resolved_all(
                    second,
                    second_id,
                )
                &&& after.symbols.len() == self.symbols.len()
                &&& forall|i: int|
                    0 <= i < self.symbols.len() ==> (#[trigger] after.symbols[i])
                        == self.symbols[i].with_more_references(
                        if i + 1 == first_id@ && i + 1 == second_id@ {
                            first_numbers + second_numbers
                        } else if i + 1 == first_id@ {
                            first_numbers
                        } else if i + 1 == second_id@ {
                            second_numbers
                        } else {
                            Seq::empty()
                        },
                    )
            }),
    {
        let after = self.resolve_reference(first, first_id).resolve_reference(second, second_id);
        let committed = self.resolved_references.len();
        let first_numbers = numbers_after(committed, first.len());
        let second_numbers = numbers_after(committed + first.len(), second.len());
        assert forall|i: int| 0 <= i < self.symbols.len() implies (#[trigger] after.symbols[i])
            == self.symbols[i].with_more_references(
            if i + 1 == first_id@ && i + 1 == second_id@ {
                first_numbers + second_numbers
            } else if i + 1 == first_id@ {
                first_numbers
            } else if i + 1 == second_id@ {
                second_numbers
            } else {
                Seq::empty()
            },
        ) by {
            let had = self.symbols[i].references;
            assert(had + first_numbers + second_numbers =~= had + (first_numbers
                + second_numbers));
        }
    }

    /// Every table extends itself.
    pub proof fn lemma_extends_itself(self)
        ensures
            self.extends(self),
    {
    }

    /// Growth of growth is growth.
    pub proof fn lemma_extends_transitive(self, middle: Self, earlier: Self)
        requires
            self.extends(middle),
            middle.extends(earlier),
        ensures
            self.extends(earlier),
    {
        assert forall|i: int| 0 <= i < earlier.symbols.len() implies {
            &&& (#[trigger] self.symbols[i]).same_declaration(earlier.symbols[i])
            &&& earlier.symbols[i].references.is_prefix_of(self.symbols[i].references)
        } by {}
    }

    /// Creating a symbol only adds to a table.
    pub proof fn lemma_create_extends(
        self,
        declaration: AstNodeId,
        name: Atom,
        span: Span,
        flags: SymbolFlags,
    )
        ensures
            self.create(declaration, name, span, flags).extends(self),
    {
    }

    /// Resolving a batch only adds to a table, and adds no symbol: the number
    /// that the next symbol will get stays the same.
    pub proof fn lemma_resolve_reference_extends(
        self,
        references: Seq<Reference>,
        symbol_id: SymbolId,
    )
        requires
            self.has_symbol(symbol_id@),
        ensures
            self.resolve_reference(references, symbol_id).extends(self),
            self.resolve_reference(references, symbol_id).next_symbol_id()
                == self.next_symbol_id(),
    {
    }

    /// A handle that named a record keeps naming it as the table grows: the
    /// same declaration, with at least the references it had, or the same
    /// resolved reference.
    pub proof fn lemma_extends_keeps_handles(self, earlier: Self, id: nat)
        requires
            self.extends(earlier),
        ensures
            earlier.get_symbol(id) matches Some(was) ==> {
                &&& self.get_symbol(id) matches Some(now)
                &&& now.same_declaration(was)
                &&& was.references.is_prefix_of(now.references)
            },
            earlier.get_resolved_reference(id) is Some ==> self.get_resolved_reference(id)
                == earlier.get_resolved_reference(id),
    {
    }
}

} // verus!
