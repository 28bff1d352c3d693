//! The error of this library.
use vstd::prelude::*;

verus! {

/// The operands of an operation that needs equal sizes or shapes do not
/// have them.
#[derive(Debug, Clone, Copy, PartialEq, Eq, Structural)]
pub struct DimensionMismatch;

} // verus!
