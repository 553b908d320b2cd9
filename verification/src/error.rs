use vstd::prelude::*;

verus! {

/// Why a meshing request was refused before any cell was looked at.
#[derive(Clone, Copy, Debug, PartialEq, Eq, Structural)]
pub enum ConfigurationError {
    /// A chunk dimension is zero or negative.
    NonPositiveChunkDimension,
    /// The three chunk dimensions are not all equal.
    NonCubicChunk,
    /// The chunk has more cells along an axis than vertex indices can address.
    ChunkTooLarge,
    /// The voxel size is zero or negative.
    NonPositiveVoxelSize,
    /// The number of samples is not `(n + 1)^3` for a chunk of `n` cells per axis.
    SampleCountMismatch,
}

} // verus!
