//! Append-only storage for the symbols and resolved references of one program.
//!
//! A binder creates a [`Symbol`] for every declaration it meets; a resolver
//! later commits, batch by batch, the identifier uses that bind to each
//! symbol. Both kinds of record live in flat arenas owned by a
//! [`SymbolTable`] and are named by dense, 1-based handles that stay valid
//! for as long as the table lives.

pub mod node;
pub mod source;
pub mod symbol;

pub use node::AstNodeId;
pub use symbol::growth::Declaration;
pub use symbol::id::SymbolId;
pub use symbol::model::SymbolTableView;
pub use symbol::reference::{Reference, ReferenceFlag, ResolvedReference, ResolvedReferenceId};
pub use symbol::table::SymbolTable;
pub use symbol::{Symbol, SymbolFlags, SymbolView};
