//! Positions in the world, and the cells that hold them.

use crate::fixed::{distance, least, span};
use vstd::prelude::*;

verus! {

/// A point of the world, in fixed-point coordinates.
#[derive(Clone, Copy, Debug, PartialEq, Eq, Structural)]
pub struct Position {
    pub x: i64,
    pub y: i64,
}

/// The index of the cell that holds the world coordinate `world`, along one
/// axis. It is negative for a negative coordinate.
pub open spec fn cell_index(world: int, cell_size: int) -> int {
    world / cell_size
}

/// The index of the cell that holds `world`, moved into the range of
/// `usize`: zero for a negative coordinate.
pub open spec fn clamped_index(world: int, cell_size: int) -> int {
    if world < 0 {
        0
    } else {
        least(cell_index(world, cell_size), usize::MAX as int)
    }
}

/// A grid of this shape is within the machine's limits: its cells can be
/// counted in a `u32`, and every world coordinate inside it is an `i64`.
pub open spec fn fits(width: int, height: int, cell_size: int) -> bool {
    &&& width * height <= u32::MAX
    &&& width * cell_size <= i64::MAX
    &&& height * cell_size <= i64::MAX
}

/// The distance between two coordinates on one axis.
pub open spec fn gap(a: i64, b: i64) -> int {
    if a >= b {
        a - b
    } else {
        b - a
    }
}

impl Position {
    pub fn new(x: i64, y: i64) -> (p: Position)
        ensures
            p == (Position { x, y }),
    {
        Position { x, y }
    }

    /// The distance to `other`, rounded down and cut off at the largest
    /// `u64`.
    pub open spec fn apart(self, other: Position) -> int {
        span(gap(self.x, other.x), gap(self.y, other.y))
    }

    /// Measures the distance to `other`.
    pub fn distance_to(&self, other: &Position) -> (d: u64)
        ensures
            d == self.apart(*other),
    {
        distance(axis_gap(self.x, other.x), axis_gap(self.y, other.y))
    }
}

fn axis_gap(a: i64, b: i64) -> (d: u64)
    ensures
        d == gap(a, b),
{
    if a >= b {
        ((a as i128) - (b as i128)) as u64
    } else {
        ((b as i128) - (a as i128)) as u64
    }
}

/// Finds the cell that holds `world` along one axis, moved into the range of
/// `usize`.
pub fn index_of(world: i64, cell_size: u64) -> (index: usize)
    requires
        0 < cell_size,
    ensures
        index == clamped_index(world as int, cell_size as int),
{
    if world < 0 {
        0
    } else {
        let index: u64 = (world as u64) / cell_size;
        if index > usize::MAX as u64 {
            usize::MAX
        } else {
            index as usize
        }
    }
}

} // verus!
