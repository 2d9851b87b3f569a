use vstd::prelude::*;
use crate::ids::AssetId;

verus! {

/// Why an entry could not be admitted or an evaluation chunk not produced.
#[derive(Clone, Copy, Debug, PartialEq, Eq, Structural)]
pub enum EvaluateError {
    /// A reference did not resolve to a value with the capabilities it needs.
    Resolution { asset: AssetId },
    /// The entry at `index` of the execution order did not resolve to a
    /// concrete evaluated entry.
    UnresolvedEntry { index: usize, asset: AssetId },
    /// The chunking strategy could not place `asset` in the chunk.
    ChunkConstruction { asset: AssetId },
}

} // verus!
