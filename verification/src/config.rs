//! Why a grid cannot be built.

use vstd::prelude::*;

verus! {

/// The reason for which a grid of the requested shape is refused.
#[derive(Debug, Clone, Copy, PartialEq, Eq, Structural)]
pub enum ConfigError {
    /// The grid would have no columns.
    ZeroWidth,
    /// The grid would have no rows.
    ZeroHeight,
    /// The cells would have no extent in the world.
    ZeroCellSize,
    /// The grid would hold more cells than its counters can count.
    TooLarge,
}

} // verus!
