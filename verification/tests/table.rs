use oxc_span::{Atom, Span};
use symbol_table::{
    AstNodeId, Reference, ReferenceFlag, ResolvedReference, ResolvedReferenceId, Symbol,
    SymbolFlags, SymbolId, SymbolTable,
};

fn declare(table: &mut SymbolTable, node: usize, name: &str) -> SymbolId {
    table.create(
        AstNodeId::new(node),
        Atom::from(name),
        Span::new(node as u32, node as u32 + name.len() as u32),
        SymbolFlags::from_bits(2),
    )
}

fn uses(first_node: usize, count: usize) -> Vec<Reference> {
    let mut batch = Vec::new();
    for k in 0..count {
        batch.push(Reference::new(
            AstNodeId::new(first_node + k),
            Span::new((first_node + k) as u32, (first_node + k) as u32 + 1),
            ReferenceFlag::Read,
        ));
    }
    batch
}

fn listed(table: &SymbolTable, id: usize) -> Vec<usize> {
    table.symbol(SymbolId::new(id)).references().iter().map(|r| r.get()).collect()
}

#[test]
fn a_new_table_holds_nothing() {
    let table = SymbolTable::default();
    assert!(table.symbols().is_empty());
    assert!(table.resolved_references().is_empty());
    assert!(table.get_symbol(SymbolId::new(1)).is_none());
    assert!(table.get_resolved_reference(ResolvedReferenceId::new(1)).is_none());
}

#[test]
fn created_ids_count_up_from_one() {
    let names = ["a", "b", "c", "d", "e", "f", "g"];
    let mut table = SymbolTable::default();
    for (k, name) in names.iter().enumerate() {
        let id = declare(&mut table, 100 + k, name);
        assert_eq!(id.get(), k + 1);
        assert_eq!(table.symbols().len(), k + 1);
    }
    for (k, name) in names.iter().enumerate() {
        let symbol = &table.symbols()[k];
        assert_eq!(symbol.id().get(), k + 1);
        assert_eq!(symbol.name().as_str(), *name);
        assert_eq!(symbol.declaration().index(), 100 + k);
        assert_eq!(symbol.span(), Span::new(100 + k as u32, 101 + k as u32));
        assert_eq!(symbol.flags().bits(), 2);
    }
}

#[test]
fn created_ids_ignore_resolutions_in_between() {
    let mut table = SymbolTable::default();
    assert_eq!(declare(&mut table, 1, "a").get(), 1);
    table.resolve_reference(uses(50, 3), SymbolId::new(1));
    assert_eq!(declare(&mut table, 2, "b").get(), 2);
    table.resolve_reference(uses(60, 2), SymbolId::new(2));
    assert_eq!(declare(&mut table, 3, "c").get(), 3);
    assert_eq!(table.symbols().len(), 3);
    assert_eq!(table.symbols()[0].name().as_str(), "a");
    assert_eq!(table.symbols()[1].name().as_str(), "b");
    assert_eq!(table.symbols()[2].name().as_str(), "c");
}

#[test]
fn get_symbol_answers_exactly_the_created_ids() {
    let mut table = SymbolTable::default();
    for k in 0..5 {
        declare(&mut table, k, "v");
    }
    for id in 0..12 {
        let found = table.get_symbol(SymbolId::new(id));
        if 1 <= id && id <= 5 {
            assert_eq!(found.expect("created").id().get(), id);
            assert_eq!(found.expect("created").declaration().index(), id - 1);
        } else {
            assert!(found.is_none());
        }
    }
    assert!(table.get_symbol(SymbolId::new(usize::MAX)).is_none());
}

#[test]
fn get_resolved_reference_answers_exactly_the_committed_ids() {
    let mut table = SymbolTable::default();
    declare(&mut table, 1, "a");
    let batch = uses(70, 4);
    table.resolve_reference(batch.clone(), SymbolId::new(1));
    for id in 0..9 {
        let found = table.get_resolved_reference(ResolvedReferenceId::new(id));
        if 1 <= id && id <= 4 {
            let found = found.expect("committed");
            assert_eq!(found.reference, batch[id - 1]);
            assert_eq!(found.resolved_symbol_id.get(), 1);
        } else {
            assert!(found.is_none());
        }
    }
    assert!(table.get_resolved_reference(ResolvedReferenceId::new(usize::MAX)).is_none());
}

#[test]
fn a_batch_is_committed_in_its_own_order() {
    let mut table = SymbolTable::default();
    declare(&mut table, 1, "a");
    declare(&mut table, 2, "b");
    table.resolve_reference(uses(10, 2), SymbolId::new(1));
    let batch = uses(20, 5);
    table.resolve_reference(batch.clone(), SymbolId::new(2));

    let arena = table.resolved_references();
    assert_eq!(arena.len(), 7);
    for (k, reference) in batch.iter().enumerate() {
        assert_eq!(arena[2 + k].reference, *reference);
        assert_eq!(arena[2 + k].resolved_symbol_id.get(), 2);
    }
    assert_eq!(listed(&table, 2), vec![3, 4, 5, 6, 7]);
    assert_eq!(listed(&table, 1), vec![1, 2]);
}

#[test]
fn two_batches_for_one_symbol_keep_their_order() {
    let mut table = SymbolTable::default();
    declare(&mut table, 1, "a");
    declare(&mut table, 2, "b");
    let first = uses(10, 2);
    let other = uses(20, 1);
    let second = uses(30, 3);
    table.resolve_reference(first.clone(), SymbolId::new(2));
    table.resolve_reference(other.clone(), SymbolId::new(1));
    table.resolve_reference(second.clone(), SymbolId::new(2));

    assert_eq!(listed(&table, 2), vec![1, 2, 4, 5, 6]);
    assert_eq!(listed(&table, 1), vec![3]);
    let arena = table.resolved_references();
    let bound: Vec<usize> = arena.iter().map(|r| r.resolved_symbol_id.get()).collect();
    assert_eq!(bound, vec![2, 2, 1, 2, 2, 2]);
    assert_eq!(arena[0].reference, first[0]);
    assert_eq!(arena[1].reference, first[1]);
    assert_eq!(arena[2].reference, other[0]);
    assert_eq!(arena[3].reference, second[0]);
    assert_eq!(arena[4].reference, second[1]);
    assert_eq!(arena[5].reference, second[2]);
}

#[test]
fn arena_order_is_call_order_not_declaration_order() {
    let mut table = SymbolTable::default();
    declare(&mut table, 1, "early");
    declare(&mut table, 2, "late");
    table.resolve_reference(uses(40, 1), SymbolId::new(2));
    table.resolve_reference(uses(50, 1), SymbolId::new(1));
    let arena = table.resolved_references();
    assert_eq!(arena[0].resolved_symbol_id.get(), 2);
    assert_eq!(arena[0].reference.ast_node_id.index(), 40);
    assert_eq!(arena[1].resolved_symbol_id.get(), 1);
    assert_eq!(arena[1].reference.ast_node_id.index(), 50);
    assert_eq!(listed(&table, 2), vec![1]);
    assert_eq!(listed(&table, 1), vec![2]);
}

#[test]
fn an_empty_batch_changes_nothing() {
    let mut table = SymbolTable::default();
    declare(&mut table, 1, "a");
    table.resolve_reference(uses(10, 2), SymbolId::new(1));
    table.resolve_reference(Vec::new(), SymbolId::new(1));
    assert_eq!(table.resolved_references().len(), 2);
    assert_eq!(listed(&table, 1), vec![1, 2]);
    assert_eq!(table.symbols().len(), 1);
}

#[test]
fn every_symbol_lists_exactly_the_references_bound_to_it() {
    let mut table = SymbolTable::default();
    for k in 0..4 {
        declare(&mut table, k, "s");
    }
    let plan = [(3usize, 2usize), (1, 1), (3, 0), (4, 3), (1, 2), (2, 1)];
    for (round, (id, count)) in plan.iter().enumerate() {
        table.resolve_reference(uses(100 * (round + 1), *count), SymbolId::new(*id));
    }
    assert_eq!(table.resolved_references().len(), 9);
    for id in 1..=4 {
        let mut expected = Vec::new();
        for (position, resolved) in table.resolved_references().iter().enumerate() {
            if resolved.resolved_symbol_id.get() == id {
                expected.push(position + 1);
            }
        }
        assert_eq!(listed(&table, id), expected);
    }
    assert_eq!(listed(&table, 3), vec![1, 2]);
    assert_eq!(listed(&table, 1), vec![3, 7, 8]);
    assert_eq!(listed(&table, 4), vec![4, 5, 6]);
    assert_eq!(listed(&table, 2), vec![9]);
}

#[test]
fn reading_twice_gives_the_same() {
    let mut table = SymbolTable::default();
    declare(&mut table, 1, "a");
    declare(&mut table, 2, "b");
    table.resolve_reference(uses(10, 2), SymbolId::new(2));

    let first: Vec<String> = table.symbols().iter().map(|s| format!("{:?}", s)).collect();
    let second: Vec<String> = table.symbols().iter().map(|s| format!("{:?}", s)).collect();
    assert_eq!(first, second);
    assert_eq!(table.resolved_references(), table.resolved_references());
    for id in 0..4 {
        let one = table.get_symbol(SymbolId::new(id)).map(|s| format!("{:?}", s));
        let two = table.get_symbol(SymbolId::new(id)).map(|s| format!("{:?}", s));
        assert_eq!(one, two);
        assert_eq!(
            table.get_resolved_reference(ResolvedReferenceId::new(id)),
            table.get_resolved_reference(ResolvedReferenceId::new(id))
        );
    }
    assert_eq!(table.symbols().len(), 2);
    assert_eq!(table.resolved_references().len(), 2);
}

#[test]
fn earlier_records_stay_as_the_table_grows() {
    let mut table = SymbolTable::default();
    declare(&mut table, 1, "a");
    table.resolve_reference(uses(10, 2), SymbolId::new(1));
    let before: Vec<ResolvedReference> = table.resolved_references().clone();
    let name = table.symbol(SymbolId::new(1)).name().clone();

    declare(&mut table, 2, "b");
    table.resolve_reference(uses(20, 2), SymbolId::new(2));
    table.resolve_reference(uses(30, 1), SymbolId::new(1));

    assert_eq!(&table.resolved_references()[..2], &before[..]);
    let symbol = table.symbol(SymbolId::new(1));
    assert_eq!(symbol.name(), &name);
    assert_eq!(symbol.id().get(), 1);
    assert_eq!(symbol.declaration().index(), 1);
    assert_eq!(listed(&table, 1), vec![1, 2, 5]);
}

#[test]
fn trapping_reads_agree_with_checked_reads() {
    let mut table = SymbolTable::default();
    declare(&mut table, 1, "a");
    declare(&mut table, 2, "b");
    table.resolve_reference(uses(10, 3), SymbolId::new(2));
    for id in 1..=2 {
        let checked = table.get_symbol(SymbolId::new(id)).expect("created");
        let direct = table.symbol(SymbolId::new(id));
        assert!(std::ptr::eq(checked, direct));
        assert!(std::ptr::eq(direct, &table.symbols()[id - 1]));
    }
    for id in 1..=3 {
        let checked =
            table.get_resolved_reference(ResolvedReferenceId::new(id)).expect("committed");
        let direct = table.resolved_reference(ResolvedReferenceId::new(id));
        assert!(std::ptr::eq(checked, direct));
        assert!(std::ptr::eq(direct, &table.resolved_references()[id - 1]));
    }
}

#[test]
fn symbol_mut_replaces_one_symbol_only() {
    let mut table = SymbolTable::default();
    declare(&mut table, 1, "a");
    declare(&mut table, 2, "b");
    table.resolve_reference(uses(10, 1), SymbolId::new(1));
    *table.symbol_mut(SymbolId::new(2)) = Symbol::new(
        SymbolId::new(2),
        AstNodeId::new(77),
        Atom::from("renamed"),
        Span::new(7, 14),
        SymbolFlags::from_bits(8),
    );
    let changed = table.symbol(SymbolId::new(2));
    assert_eq!(changed.name().as_str(), "renamed");
    assert_eq!(changed.declaration().index(), 77);
    assert_eq!(changed.flags().bits(), 8);
    assert_eq!(table.symbol(SymbolId::new(1)).name().as_str(), "a");
    assert_eq!(listed(&table, 1), vec![1]);
    assert_eq!(table.symbols().len(), 2);
    assert_eq!(table.resolved_references().len(), 1);
}

#[test]
fn resolved_reference_mut_replaces_one_reference_only() {
    let mut table = SymbolTable::default();
    declare(&mut table, 1, "a");
    let batch = uses(10, 3);
    table.resolve_reference(batch.clone(), SymbolId::new(1));
    table.resolved_reference_mut(ResolvedReferenceId::new(2)).reference.flag = ReferenceFlag::Write;
    let arena = table.resolved_references();
    assert_eq!(arena[1].reference.flag, ReferenceFlag::Write);
    assert_eq!(arena[1].reference.ast_node_id, batch[1].ast_node_id);
    assert_eq!(arena[1].resolved_symbol_id.get(), 1);
    assert_eq!(arena[0].reference, batch[0]);
    assert_eq!(arena[2].reference, batch[2]);
    assert_eq!(listed(&table, 1), vec![1, 2, 3]);
}
