//! The ways in which a simulation fails.

use vstd::prelude::*;

verus! {

/// Why a simulation was given up. Every failure ends the whole batch.
#[derive(Debug, Clone, Copy, PartialEq, Eq)]
pub enum SimError {
    /// A weight row holds a negative weight or no positive one, and no
    /// other row stands in for it.
    InvalidWeights,
    /// A matrix, a row, a lineup or a list of plays is shorter or longer
    /// than the play needs it to be.
    ShapeMismatch,
    /// A batter has no matrix, or a transition has no entry in one of the
    /// tables.
    MissingKey,
    /// A game reached the limit on plate appearances before either side
    /// had won.
    Unresolved,
}

} // verus!
