use vstd::prelude::*;
use crate::geometry::{cells_bounding_box, spec_cells_bounding_box, Aabb, Vec2};
use crate::int_angle::IntAngle;
use crate::model::{spec_side_angle, spec_side_index, Effect, Side};
use crate::position::Position;

verus! {

/// A box as a level places it.
pub struct Entity {
    /// Order among players.
    pub index: Option<i32>,
    pub identifier: String,
    pub pos: Position,
    pub sides: [Side; 4],
}

/// A powerup as a level places it.
#[derive(Clone, Copy, Debug, PartialEq, Eq, Structural)]
pub struct Powerup {
    pub pos: Position,
    pub effect: Effect,
}

/// A goal as a level places it.
#[derive(Clone, Copy, Debug, PartialEq, Eq, Structural)]
pub struct Goal {
    pub pos: Position,
}

/// A level as it is saved: what stands where when it starts.
pub struct Level {
    pub entities: Vec<Entity>,
    pub powerups: Vec<Powerup>,
    pub goals: Vec<Goal>,
}

/// The cells of the entities of a level.
pub open spec fn level_cells(ents: Seq<Entity>) -> Seq<Vec2> {
    ents.map_values(|e: Entity| e.pos.cell)
}

impl Level {
    /// A level with nothing in it.
    pub fn empty() -> (r: Level)
        ensures
            r.entities@.len() == 0,
            r.powerups@.len() == 0,
            r.goals@.len() == 0,
    {
        Level { entities: Vec::new(), powerups: Vec::new(), goals: Vec::new() }
    }

    /// The box of cells that the entities of the level cover.
    pub fn bounding_box(&self) -> (r: Aabb)
        ensures
            r == spec_cells_bounding_box(level_cells(self.entities@)),
    {
        let mut cells: Vec<Vec2> = Vec::new();
        let mut i: usize = 0;
        while i < self.entities.len()
            invariant
                i <= self.entities.len(),
                cells@ == level_cells(self.entities@.take(i as int)),
            decreases self.entities.len() - i,
        {
            cells.push(self.entities[i].pos.cell);
            proof {
                assert(level_cells(self.entities@.take(i + 1)) =~= level_cells(self.entities@.take(i as int)).push(
                    self.entities@[i as int].pos.cell,
                ));
            }
            i = i + 1;
        }
        proof {
            assert(self.entities@.take(self.entities@.len() as int) =~= self.entities@);
        }
        cells_bounding_box(&cells)
    }
}

impl Entity {
    /// Side index by absolute side angle
    pub fn side_index(&self, angle: IntAngle) -> (r: usize)
        ensures
            r == spec_side_index(self.pos.angle, angle),
            r < 4,
    {
        angle.sub_angle(self.side_angle(0)).normalize().to_i32() as usize
    }

    /// Absolute side angle
    pub fn side_angle(&self, side_index: usize) -> (r: IntAngle)
        requires
            side_index < 4,
        ensures
            r == spec_side_angle(self.pos.angle, side_index as int),
    {
        Self::relative_side_angle(side_index).add_angle(self.pos.angle)
    }

    /// The side that faces `angle`.
    pub fn side_at_angle(&self, angle: IntAngle) -> (r: &Side)
        ensures
            *r == self.sides@[spec_side_index(self.pos.angle, angle)],
    {
        &self.sides[self.side_index(angle)]
    }

    /// Replaces the side that faces `angle`.
    pub fn set_side_at_angle(&mut self, angle: IntAngle, side: Side)
        ensures
            final(self).sides@ == old(self).sides@.update(spec_side_index(old(self).pos.angle, angle), side),
            final(self).index == old(self).index,
            final(self).identifier == old(self).identifier,
            final(self).pos == old(self).pos,
    {
        let i = self.side_index(angle);
        self.sides[i] = side;
    }

    /// Angle of side `side_index` when the entity is not turned.
    pub fn relative_side_angle(side_index: usize) -> (r: IntAngle)
        requires
            side_index < 4,
        ensures
            r == IntAngle(side_index as i32),
    {
        IntAngle::from_i32(side_index as i32)
    }
}

} // verus!
