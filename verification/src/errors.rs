use vstd::prelude::*;

verus! {

/// Raised while building a representation: the matrix has a zero
/// dimension, or a branching factor is below two.
#[derive(Clone, Copy, Debug, PartialEq, Eq, Structural)]
pub enum ConstructionError {
    /// A branching factor below two cannot subdivide a block.
    BranchFactorTooSmall,
    /// The matrix to represent has zero width or zero height.
    EmptyMatrix,
}

/// Raised by a point query whose coordinate lies outside the matrix.
#[derive(Clone, Copy, Debug, PartialEq, Eq, Structural)]
pub enum QueryError {
    /// The queried coordinate is at or beyond the width or height.
    OutOfBounds,
}

} // verus!
