use oxc_span::{Atom, Span};
use symbol_table::{
    AstNodeId, Reference, ReferenceFlag, ResolvedReferenceId, Symbol, SymbolFlags, SymbolId,
};

#[test]
fn symbol_id_keeps_its_number() {
    assert_eq!(SymbolId::new(7).get(), 7);
    assert_eq!(SymbolId::new(0).get(), 0);
    assert_eq!(SymbolId::new(usize::MAX).get(), usize::MAX);
    assert_eq!(SymbolId::new(7), SymbolId::new(7));
    assert_ne!(SymbolId::new(7), SymbolId::new(8));
}

#[test]
fn symbol_id_names_the_position_before_its_number() {
    assert_eq!(SymbolId::new(1).index0(), 0);
    assert_eq!(SymbolId::new(42).index0(), 41);
    assert_eq!(SymbolId::new(usize::MAX).index0(), usize::MAX - 1);
}

#[test]
fn resolved_reference_id_keeps_its_number() {
    assert_eq!(ResolvedReferenceId::new(3).get(), 3);
    assert_eq!(ResolvedReferenceId::new(0).get(), 0);
    assert_eq!(ResolvedReferenceId::new(3), ResolvedReferenceId::new(3));
    assert_ne!(ResolvedReferenceId::new(3), ResolvedReferenceId::new(4));
}

#[test]
fn resolved_reference_id_names_the_position_before_its_number() {
    assert_eq!(ResolvedReferenceId::new(1).index0(), 0);
    assert_eq!(ResolvedReferenceId::new(9).index0(), 8);
}

#[test]
fn ast_node_id_keeps_its_index() {
    assert_eq!(AstNodeId::new(0).index(), 0);
    assert_eq!(AstNodeId::new(12).index(), 12);
    assert_eq!(AstNodeId::new(12), AstNodeId(12));
}

#[test]
fn symbol_flags_keep_their_bits() {
    assert_eq!(SymbolFlags::from_bits(0).bits(), 0);
    assert_eq!(SymbolFlags::from_bits(0b1010).bits(), 0b1010);
    assert_eq!(SymbolFlags::from_bits(u16::MAX).bits(), u16::MAX);
    assert_eq!(SymbolFlags::from_bits(5), SymbolFlags(5));
}

#[test]
fn a_new_symbol_holds_what_it_was_given_and_no_reference() {
    let symbol = Symbol::new(
        SymbolId::new(3),
        AstNodeId::new(14),
        Atom::from("total"),
        Span::new(100, 105),
        SymbolFlags::from_bits(4),
    );
    assert_eq!(symbol.id(), SymbolId::new(3));
    assert_eq!(symbol.declaration(), AstNodeId::new(14));
    assert_eq!(symbol.name(), &Atom::from("total"));
    assert_eq!(symbol.span(), Span::new(100, 105));
    assert_eq!(symbol.flags(), SymbolFlags::from_bits(4));
    assert_eq!(symbol.references().len(), 0);
}

#[test]
fn a_new_reference_holds_what_it_was_given() {
    let reference = Reference::new(AstNodeId::new(5), Span::new(1, 2), ReferenceFlag::ReadWrite);
    assert_eq!(reference.ast_node_id, AstNodeId::new(5));
    assert_eq!(reference.span, Span::new(1, 2));
    assert_eq!(reference.flag, ReferenceFlag::ReadWrite);
}

#[test]
fn resolve_to_binds_the_reference_and_keeps_it() {
    let reference = Reference::new(AstNodeId::new(5), Span::new(1, 2), ReferenceFlag::Write);
    let resolved = reference.clone().resolve_to(SymbolId::new(9));
    assert_eq!(resolved.reference, reference);
    assert_eq!(resolved.resolved_symbol_id, SymbolId::new(9));
}

#[test]
fn a_clone_of_a_reference_equals_it() {
    let reference = Reference::new(AstNodeId::new(8), Span::new(3, 9), ReferenceFlag::Read);
    let copy = reference.clone();
    assert_eq!(copy, reference);
    assert_eq!(copy.ast_node_id.index(), 8);
    assert_eq!(copy.span, Span::new(3, 9));
    assert_eq!(copy.flag, ReferenceFlag::Read);

    let resolved = reference.resolve_to(SymbolId::new(2));
    let resolved_copy = resolved.clone();
    assert_eq!(resolved_copy, resolved);
    assert_eq!(resolved_copy.resolved_symbol_id.get(), 2);
    assert_eq!(resolved_copy.reference, copy);
}
