//! The table as a mathematical value, and what creating and resolving do to it.

use vstd::prelude::*;

use crate::node::AstNodeId;
use crate::symbol::id::SymbolId;
use crate::symbol::reference::{Reference, ResolvedReference};
use crate::symbol::{SymbolFlags, SymbolView};
use oxc_span::{Atom, Span};

verus! {

/// The `count` numbers that follow `after`, ascending: `after + 1`, ..,
/// `after + count`.
pub open spec fn numbers_after(after: nat, count: nat) -> Seq<nat> {
    Seq::new(count, |k: int| (after + 1 + k) as nat)
}

/// The numbers of those entries of `resolved` that are bound to the symbol
/// with number `symbol`, ascending. The entry at position `j` has number
/// `j + 1`.
pub open spec fn bound_to(resolved: Seq<ResolvedReference>, symbol: nat) -> Seq<nat>
    decreases resolved.len(),
{
    if resolved.len() == 0 {
        Seq::empty()
    } else {
        let earlier = bound_to(resolved.drop_last(), symbol);
        if resolved.last().resolved_symbol_id@ == symbol {
            earlier.push(resolved.len())
        } else {
            earlier
        }
    }
}

/// What a table holds: both arenas, in the order in which they were filled.
///
/// The record with handle number `n` stands at position `n - 1` of its arena.
pub struct SymbolTableView {
    /// Every symbol, in creation order.
    pub symbols: Seq<SymbolView>,
    /// Every resolved reference, in commit order.
    pub resolved_references: Seq<ResolvedReference>,
}

impl SymbolTableView {
    /// The table that holds nothing.
    pub open spec fn empty() -> Self {
        SymbolTableView { symbols: Seq::empty(), resolved_references: Seq::empty() }
    }

    /// Whether `id` is the number of a symbol of this table.
    pub open spec fn has_symbol(self, id: nat) -> bool {
        1 <= id <= self.symbols.len()
    }

    /// Whether `id` is the number of a resolved reference of this table.
    pub open spec fn has_resolved_reference(self, id: nat) -> bool {
        1 <= id <= self.resolved_references.len()
    }

    /// The symbol with number `id`, if there is one.
    pub open spec fn get_symbol(self, id: nat) -> Option<SymbolView> {
        if self.has_symbol(id) {
            Some(self.symbols[id - 1])
        } else {
            None
        }
    }

    /// The resolved reference with number `id`, if there is one.
    pub open spec fn get_resolved_reference(self, id: nat) -> Option<ResolvedReference> {
        if self.has_resolved_reference(id) {
            Some(self.resolved_references[id - 1])
        } else {
            None
        }
    }

    /// The number that the next symbol to be created will get.
    pub open spec fn next_symbol_id(self) -> nat {
        self.symbols.len() + 1
    }

    /// This table after one more declaration: a fresh symbol under the next
    /// number, behind all earlier ones.
    pub open spec fn create(
        self,
        declaration: AstNodeId,
        name: Atom,
        span: Span,
        flags: SymbolFlags,
    ) -> Self {
        SymbolTableView {
            symbols: self.symbols.push(
                SymbolView::fresh(self.next_symbol_id(), declaration, name, span, flags),
            ),
            ..self
        }
    }

    /// This table after the batch `references` was resolved to `symbol_id`:
    /// the uses, bound, stand behind all earlier entries of the reference
    /// arena in batch order, and their numbers stand in the same order behind
    /// the earlier references of that symbol.
    pub open spec fn resolve_reference(
        self,
        references: Seq<Reference>,
        symbol_id: SymbolId,
    ) -> Self
        recommends
            self.has_symbol(symbol_id@),
    {
        let position = symbol_id@ - 1;
        let numbers = numbers_after(self.resolved_references.len(), references.len());
        SymbolTableView {
            symbols: self.symbols.update(
                position,
                self.symbols[position].with_more_references(numbers),
            ),
            resolved_references: self.resolved_references + Reference::resolved_all(
                references,
                symbol_id,
            ),
        }
    }

    /// The invariant of a table that only `create` and `resolve_reference`
    /// have written to: handles are positions, every reference is bound to a
    /// symbol of the table, and a symbol lists exactly the references bound
    /// to it, oldest first.
    pub open spec fn wf(self) -> bool {
        &&& forall|i: int| 0 <= i < self.symbols.len() ==> (#[trigger] self.symbols[i]).id == i + 1
        &&& forall|j: int|
            0 <= j < self.resolved_references.len() ==> self.has_symbol(
                (#[trigger] self.resolved_references[j]).resolved_symbol_id@,
            )
        &&& forall|i: int|
            0 <= i < self.symbols.len() ==> (#[trigger] self.symbols[i]).references == bound_to(
                self.resolved_references,
                (i + 1) as nat,
            )
    }
}

/// Where no entry is bound to a symbol, no number is bound to it.
pub proof fn lemma_bound_to_none(resolved: Seq<ResolvedReference>, symbol: nat)
    requires
        forall|j: int|
            0 <= j < resolved.len() ==> (#[trigger] resolved[j]).resolved_symbol_id@ != symbol,
    ensures
        bound_to(resolved, symbol) == Seq::<nat>::empty(),
    decreases resolved.len(),
{
    if resolved.len() > 0 {
        lemma_bound_to_none(resolved.drop_last(), symbol);
    }
}

/// A batch bound to one symbol adds its numbers, ascending, behind what was
/// bound to that symbol, and adds nothing for any other symbol.
pub proof fn lemma_bound_to_batch(
    resolved: Seq<ResolvedReference>,
    references: Seq<Reference>,
    symbol_id: SymbolId,
    symbol: nat,
)
    ensures
        bound_to(resolved + Reference::resolved_all(references, symbol_id), symbol) == if symbol
            == symbol_id@ {
            bound_to(resolved, symbol) + numbers_after(resolved.len(), references.len())
        } else {
            bound_to(resolved, symbol)
        },
    decreases references.len(),
{
    if references.len() > 0 {
        let all = resolved + Reference::resolved_all(references, symbol_id);
        let shorter = references.drop_last();
        lemma_bound_to_batch(resolved, shorter, symbol_id, symbol);
        assert(all.drop_last() =~= resolved + Reference::resolved_all(shorter, symbol_id));
    }
}

/// A number is bound to a symbol exactly if it names an entry and that entry
/// is bound to the symbol.
pub proof fn lemma_bound_to_contains(resolved: Seq<ResolvedReference>, symbol: nat, number: nat)
    ensures
        bound_to(resolved, symbol).contains(number) <==> 1 <= number <= resolved.len()
            && resolved[number - 1].resolved_symbol_id@ == symbol,
    decreases resolved.len(),
{
    if resolved.len() > 0 {
        let earlier = bound_to(resolved.drop_last(), symbol);
        lemma_bound_to_contains(resolved.drop_last(), symbol, number);
        if resolved.last().resolved_symbol_id@ == symbol {
            assert(earlier.push(resolved.len()).last() == resolved.len());
            if earlier.contains(number) {
                let i = choose|i: int| 0 <= i < earlier.len() && earlier[i] == number;
                assert(earlier.push(resolved.len())[i] == number);
            }
        }
    }
}

/// The numbers bound to a symbol are at most the length of the arena and
/// stand in strictly ascending order: oldest first, none twice.
pub proof fn lemma_bound_to_ascending(resolved: Seq<ResolvedReference>, symbol: nat)
    ensures
        forall|i: int|
            0 <= i < bound_to(resolved, symbol).len() ==> 1 <= (#[trigger] bound_to(
                resolved,
                symbol,
            )[i]) <= resolved.len(),
        forall|i: int, j: int|
            0 <= i < j < bound_to(resolved, symbol).len() ==> bound_to(resolved, symbol)[i]
                < bound_to(resolved, symbol)[j],
    decreases resolved.len(),
{
    let here = bound_to(resolved, symbol);
    if resolved.len() > 0 {
        let earlier = bound_to(resolved.drop_last(), symbol);
        lemma_bound_to_ascending(resolved.drop_last(), symbol);
        assert forall|i: int| 0 <= i < here.len() implies 1 <= (#[trigger] here[i])
            <= resolved.len() by {}
        assert forall|i: int, j: int| 0 <= i < j < here.len() implies here[i] < here[j] by {}
    }
}

/// Which numbers are bound to a symbol depends only on the symbol that each
/// entry is bound to.
pub proof fn lemma_bound_to_same_bindings(
    resolved: Seq<ResolvedReference>,
    other: Seq<ResolvedReference>,
    symbol: nat,
)
    requires
        resolved.len() == other.len(),
        forall|j: int|
            0 <= j < resolved.len() ==> (#[trigger] resolved[j]).resolved_symbol_id@
                == other[j].resolved_symbol_id@,
    ensures
        bound_to(resolved, symbol) == bound_to(other, symbol),
    decreases resolved.len(),
{
    if resolved.len() > 0 {
        assert(resolved.last().resolved_symbol_id@ == other.last().resolved_symbol_id@);
        lemma_bound_to_same_bindings(resolved.drop_last(), other.drop_last(), symbol);
    }
}

impl SymbolTableView {
    /// The empty table is well formed.
    pub proof fn lemma_empty_wf()
        ensures
            Self::empty().wf(),
    {
    }

    /// Creating a symbol keeps a table well formed.
    pub proof fn lemma_create_wf(
        self,
        declaration: AstNodeId,
        name: Atom,
        span: Span,
        flags: SymbolFlags,
    )
        requires
            self.wf(),
        ensures
            self.create(declaration, name, span, flags).wf(),
    {
        lemma_bound_to_none(self.resolved_references, self.next_symbol_id());
    }

    /// Resolving a batch to a symbol of the table keeps the table well formed.
    pub proof fn lemma_resolve_reference_wf(self, references: Seq<Reference>, symbol_id: SymbolId)
        requires
            self.wf(),
            self.has_symbol(symbol_id@),
        ensures
            self.resolve_reference(references, symbol_id).wf(),
    {
        let after = self.resolve_reference(references, symbol_id);
        assert forall|i: int| 0 <= i < after.symbols.len() implies (#[trigger] after.symbols[i]).id
            == i + 1 && after.symbols[i].references == bound_to(
            after.resolved_references,
            (i + 1) as nat,
        ) by {
            lemma_bound_to_batch(self.resolved_references, references, symbol_id, (i + 1) as nat);
        }
        assert forall|j: int| 0 <= j < after.resolved_references.len() implies after.has_symbol(
            (#[trigger] after.resolved_references[j]).resolved_symbol_id@,
        ) by {}
    }

    /// Replacing a symbol by one with the same handle and the same
    /// references keeps a table well formed.
    pub proof fn lemma_replace_symbol_wf(self, id: nat, symbol: SymbolView)
        requires
            self.wf(),
            self.has_symbol(id),
            symbol.id == id,
            symbol.references == self.symbols[id - 1].references,
        ensures
            (SymbolTableView { symbols: self.symbols.update(id - 1, symbol), ..self }).wf(),
    {
    }

    /// Replacing a resolved reference by one bound to the same symbol keeps a
    /// table well formed.
    pub proof fn lemma_replace_resolved_reference_wf(self, id: nat, resolved: ResolvedReference)
        requires
            self.wf(),
            self.has_resolved_reference(id),
            resolved.resolved_symbol_id@ == self.resolved_references[id - 1].resolved_symbol_id@,
        ensures
            (SymbolTableView {
                resolved_references: self.resolved_references.update(id - 1, resolved),
                ..self
            }).wf(),
    {
        let after = SymbolTableView {
            resolved_references: self.resolved_references.update(id - 1, resolved),
            ..self
        };
        assert forall|j: int| 0 <= j < after.resolved_references.len() implies (
        #[trigger] after.resolved_references[j]).resolved_symbol_id@
            == self.resolved_references[j].resolved_symbol_id@ by {}
        assert forall|i: int| 0 <= i < after.symbols.len() implies (
        #[trigger] after.symbols[i]).references == bound_to(
            after.resolved_references,
            (i + 1) as nat,
        ) by {
            lemma_bound_to_same_bindings(
                after.resolved_references,
                self.resolved_references,
                (i + 1) as nat,
            );
        }
    }

    /// In a well-formed table a symbol lists a number exactly if that number
    /// names a resolved reference bound to the symbol: every reference
    /// resolved to it, and none of another symbol.
    pub proof fn lemma_references_are_those_bound(self, symbol: nat, number: nat)
        requires
            self.wf(),
            self.has_symbol(symbol),
        ensures
            self.symbols[symbol - 1].references.contains(number) <==> self.has_resolved_reference(
                number,
            ) && self.resolved_references[number - 1].resolved_symbol_id@ == symbol,
    {
        lemma_bound_to_contains(self.resolved_references, symbol, number);
    }

    /// In a well-formed table the references of a symbol stand in strictly
    /// ascending order of their numbers, that is in commit order.
    pub proof fn lemma_references_are_ascending(self, symbol: nat)
        requires
            self.wf(),
            self.has_symbol(symbol),
        ensures
            ({
                let listed = self.symbols[symbol - 1].references;
                forall|i: int, j: int| 0 <= i < j < listed.len() ==> listed[i] < listed[j]
            }),
    {
        lemma_bound_to_ascending(self.resolved_references, symbol);
    }

    /// In a well-formed table looking up a number gives the symbol that
    /// carries that number.
    pub proof fn lemma_get_symbol_matches(self, id: nat)
        requires
            self.wf(),
        ensures
            self.get_symbol(id) matches Some(symbol) ==> symbol.id == id,
    {
    }
}

} // verus!
