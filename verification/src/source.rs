//! The name and source-range types of `oxc_span`.
//!
//! A table stores values of both types and hands them back unchanged. It
//! never looks inside one, so both are declared without their contents:
//! equality of two such values is all that a contract can speak of.

use vstd::prelude::*;

verus! {

/// `oxc_span::Atom`, the string type for names taken from source text.
/// Declared opaque: nothing is claimed of its contents.
#[verifier::external_type_specification]
#[verifier::external_body]
pub struct ExAtom(oxc_span::Atom);

/// `oxc_span::Span`, a range of byte offsets into the source text. Declared
/// opaque: nothing is claimed of its bounds.
#[verifier::external_type_specification]
#[verifier::external_body]
pub struct ExSpan(oxc_span::Span);

} // verus!
