//! Reading a table is repeatable: a reader borrows the table shared, so it
//! changes nothing, and what it returns is fixed by what the table holds.
//!
//! Each law below takes two results that the reader's own contract allows for
//! one table and one argument, and shows that they agree.

use vstd::prelude::*;

use crate::symbol::id::SymbolId;
use crate::symbol::reference::{ResolvedReference, ResolvedReferenceId};
use crate::symbol::table::SymbolTable;
use crate::symbol::Symbol;

verus! {

/// Listing the symbols twice gives the same symbols in the same order.
pub proof fn lemma_symbols_repeats(
    table: &SymbolTable,
    first: &Vec<Symbol>,
    second: &Vec<Symbol>,
)
    requires
        call_ensures(SymbolTable::symbols, (table,), first),
        call_ensures(SymbolTable::symbols, (table,), second),
    ensures
        Symbol::views(first@) == Symbol::views(second@),
{
}

/// Looking a symbol handle up twice gives the same answer: absent both
/// times, or both times a symbol that holds the same.
pub proof fn lemma_get_symbol_repeats(
    table: &SymbolTable,
    id: SymbolId,
    first: Option<&Symbol>,
    second: Option<&Symbol>,
)
    requires
        call_ensures(SymbolTable::get_symbol, (table, id), first),
        call_ensures(SymbolTable::get_symbol, (table, id), second),
    ensures
        first is Some <==> second is Some,
        first is Some ==> first.unwrap()@ == second.unwrap()@,
{
}

/// Reading the symbol under a handle twice gives a symbol that holds the
/// same.
pub proof fn lemma_symbol_repeats(
    table: &SymbolTable,
    id: SymbolId,
    first: &Symbol,
    second: &Symbol,
)
    requires
        call_ensures(SymbolTable::symbol, (table, id), first),
        call_ensures(SymbolTable::symbol, (table, id), second),
    ensures
        first@ == second@,
{
}

/// Listing the resolved references twice gives the same references in the
/// same order.
pub proof fn lemma_resolved_references_repeats(
    table: &SymbolTable,
    first: &Vec<ResolvedReference>,
    second: &Vec<ResolvedReference>,
)
    requires
        call_ensures(SymbolTable::resolved_references, (table,), first),
        call_ensures(SymbolTable::resolved_references, (table,), second),
    ensures
        first@ == second@,
{
}

/// Looking a reference handle up twice gives the same answer: absent both
/// times, or both times the same resolved reference.
pub proof fn lemma_get_resolved_reference_repeats(
    table: &SymbolTable,
    id: ResolvedReferenceId,
    first: Option<&ResolvedReference>,
    second: Option<&ResolvedReference>,
)
    requires
        call_ensures(SymbolTable::get_resolved_reference, (table, id), first),
        call_ensures(SymbolTable::get_resolved_reference, (table, id), second),
    ensures
        first == second,
{
}

/// Reading the resolved reference under a handle twice gives the same
/// resolved reference.
pub proof fn lemma_resolved_reference_repeats(
    table: &SymbolTable,
    id: ResolvedReferenceId,
    first: &ResolvedReference,
    second: &ResolvedReference,
)
    requires
        call_ensures(SymbolTable::resolved_reference, (table, id), first),
        call_ensures(SymbolTable::resolved_reference, (table, id), second),
    ensures
        first == second,
{
}

} // verus!
