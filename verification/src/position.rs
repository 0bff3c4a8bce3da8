use vstd::prelude::*;
use crate::geometry::Vec2;
use crate::int_angle::IntAngle;

verus! {

/// Where a game object stands and which way it is turned.
#[derive(Copy, Clone, Debug, PartialEq, Eq, Structural, Hash)]
pub struct Position {
    pub cell: Vec2,
    pub angle: IntAngle,
}

impl Position {
    pub open spec fn spec_normalize(self) -> Position {
        Position { cell: self.cell, angle: self.angle.spec_normalize() }
    }

    /// The same position with its angle reduced to 0, 1, 2 or 3.
    pub fn normalize(&self) -> (r: Position)
        ensures
            r == self.spec_normalize(),
    {
        Position { cell: self.cell, angle: self.angle.normalize() }
    }
}

} // verus!
