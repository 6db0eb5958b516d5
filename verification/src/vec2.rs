//! Signed 2D integer vectors: the one coordinate representation used for
//! screen positions, sizes and movement directions.

use vstd::prelude::*;

verus! {

/// A 2D vector of signed 32-bit integers.
#[derive(Clone, Copy, PartialEq, Eq, Structural, Debug)]
pub struct IVec2 {
    pub x: i32,
    pub y: i32,
}

impl IVec2 {
    /// Builds the vector `(x, y)`.
    pub fn new(x: i32, y: i32) -> (v: IVec2)
        ensures
            v == (IVec2 { x, y }),
    {
        IVec2 { x, y }
    }

    /// True of the zero vector.
    pub open spec fn is_zero(self) -> bool {
        self.x == 0 && self.y == 0
    }

    /// True of the four axis-aligned unit vectors: the only directions the
    /// snake may move in.
    pub open spec fn is_cardinal(self) -> bool {
        ||| self == (IVec2 { x: 1i32, y: 0i32 })
        ||| self == (IVec2 { x: -1i32, y: 0i32 })
        ||| self == (IVec2 { x: 0i32, y: 1i32 })
        ||| self == (IVec2 { x: 0i32, y: -1i32 })
    }
}

/// True when `a` and `b` point in exactly opposite directions, component by
/// component (each pair of components sums to zero).
pub open spec fn is_opposite(a: IVec2, b: IVec2) -> bool {
    a.x + b.x == 0 && a.y + b.y == 0
}

} // verus!
