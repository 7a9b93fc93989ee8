use vstd::prelude::*;

verus! {

/// A 2D vector in fixed-point map coordinates, used for positions, facing
/// directions and camera-plane vectors.
#[derive(Clone, Copy, Debug, PartialEq, Eq, Structural)]
pub struct FpVec2 {
    pub x: i64,
    pub y: i64,
}

/// An integer grid-cell index into the map.
#[derive(Clone, Copy, Debug, PartialEq, Eq, Structural)]
pub struct CellPos {
    pub x: usize,
    pub y: usize,
}

impl FpVec2 {
    /// Squared length of the vector in exact fixed-point units.
    pub open spec fn norm_sq(self) -> int {
        self.x * self.x + self.y * self.y
    }

    /// Component-wise negation.
    pub fn neg(&self) -> (r: FpVec2)
        requires
            self.x > i64::MIN,
            self.y > i64::MIN,
        ensures
            r.x == -self.x,
            r.y == -self.y,
    {
        FpVec2 { x: -self.x, y: -self.y }
    }
}

} // verus!
