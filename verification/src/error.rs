use vstd::prelude::*;

verus! {

/// Why a parse step failed.
#[derive(Clone, Copy, PartialEq, Eq, Debug, Structural)]
pub enum ChunkError {
    /// Fewer bytes remain than a header or a declared payload requires.
    TruncatedInput,
    /// A child chunk would overrun its parent's remaining byte budget.
    StructuralOverrun,
    /// A strict walk met a tag other than the one it expected.
    UnexpectedTag,
    /// The byte source could not be repositioned.
    IoFailure,
}

} // verus!
