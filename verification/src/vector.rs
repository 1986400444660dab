//! Integer positions on the grid.

use vstd::prelude::*;

verus! {

/// A position, or a size, as a pair of signed coordinates.
#[derive(Clone, Copy, Debug, PartialEq, Eq, Structural)]
pub struct Vector {
    pub x: i32,
    pub y: i32,
}

impl Vector {
    /// Whether the position lies outside the half-open box `[min, max)`.
    pub open spec fn lies_outside(self, min: Vector, max: Vector) -> bool {
        self.x < min.x || self.y < min.y || self.x >= max.x || self.y >= max.y
    }

    /// Tests the position against the half-open box `[min, max)`: the lower
    /// corner belongs to the box, the upper corner does not.
    pub fn out_of_bounds(&self, min: &Vector, max: &Vector) -> (outside: bool)
        ensures
            outside == self.lies_outside(*min, *max),
    {
        self.x < min.x || self.y < min.y || self.x >= max.x || self.y >= max.y
    }
}

} // verus!
