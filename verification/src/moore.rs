//! Steps to the cells that touch a cell.

use vstd::prelude::*;

verus! {

/// Moves an index by one step `d` of -1, 0 or 1, unless that leaves the
/// range of `usize`.
pub fn shift(v: usize, d: i8) -> (r: Option<usize>)
    requires
        -1 <= d <= 1,
    ensures
        r == (if 0 <= v + d <= usize::MAX {
            Some((v + d) as usize)
        } else {
            None
        }),
{
    if d < 0 {
        if v == 0 {
            None
        } else {
            Some(v - 1)
        }
    } else if d > 0 {
        if v == usize::MAX {
            None
        } else {
            Some(v + 1)
        }
    } else {
        Some(v)
    }
}

} // verus!
