//! The error taxonomy of the backend passes. Fatal errors bubble out of a
//! per-function build and abort the pass; there is no partial output.

use vstd::prelude::*;

verus! {

#[derive(Debug, Clone, Copy, PartialEq, Eq, Structural)]
pub enum CompileError {
    /// An IR construct the lowering does not handle.
    UnsupportedIR,
    /// A named entity (stack slot, register binding, block label) is missing
    /// from its map.
    LookupMiss,
    /// A numeric conversion overflows.
    Range,
    /// A checker predicate fails.
    StructuralViolation,
}

} // verus!
