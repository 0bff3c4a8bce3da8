use vstd::prelude::*;
use crate::geometry::Vec2;
use crate::id::Id;
use crate::input::Input;
use crate::int_angle::IntAngle;
use crate::position::Position;
use crate::time::Time;

verus! {

/// Why an entity moves.
#[derive(Debug, Clone, Copy, PartialEq, Eq, Structural)]
pub enum EntityMoveType {
    /// Rolling around a corner while stuck to a magnet.
    Magnet { magnet_angle: IntAngle, move_dir: Vec2 },
    EnterGoal { goal_id: Id },
    Gravity,
    Move,
    Pushed,
    SlideStart,
    SlideContinue,
    Jump {
        from: IntAngle,
        blocked_angle: Option<IntAngle>,
        cells_traveled: usize,
        /// Number of cells that would be travelled if not blocked
        jump_force: usize,
    },
    MagnetContinue,
}

/// One move of one entity during a turn step. It starts at `start_time`
/// and ends one turn later, at `end_time`.
#[derive(Debug, Clone, Copy, PartialEq, Eq, Structural)]
pub struct EntityMove {
    pub entity_id: Id,
    pub used_input: Input,
    pub start_time: Time,
    pub end_time: Time,
    pub prev_pos: Position,
    pub new_pos: Position,
    pub move_type: EntityMoveType,
}

impl EntityMove {
    /// The cells that the move keeps other moves out of while it lasts: the
    /// cell it starts from and the cell it ends in.
    pub open spec fn spec_cells_reserved(self) -> Set<Vec2> {
        set![self.prev_pos.cell, self.new_pos.cell]
    }

    /// The cells that the move keeps other moves out of while it lasts, each
    /// once: the cell it starts from, then the cell it ends in if that is
    /// another.
    pub fn cells_reserved(&self) -> (r: Vec<Vec2>)
        ensures
            r@ == if self.prev_pos.cell == self.new_pos.cell {
                seq![self.prev_pos.cell]
            } else {
                seq![self.prev_pos.cell, self.new_pos.cell]
            },
            r@.to_set() == self.spec_cells_reserved(),
    {
        let mut r: Vec<Vec2> = Vec::new();
        r.push(self.prev_pos.cell);
        if self.new_pos.cell != self.prev_pos.cell {
            r.push(self.new_pos.cell);
        }
        proof {
            assert(r@.to_set() =~= self.spec_cells_reserved()) by {
                assert forall|c: Vec2| r@.to_set().contains(c) <==> self.spec_cells_reserved().contains(c) by {
                    if c == self.prev_pos.cell {
                        assert(r@[0] == c);
                    } else if c == self.new_pos.cell {
                        assert(r@[r@.len() - 1] == c);
                    }
                }
            }
        }
        r
    }
}

/// What happened during a turn step, in the order it happened.
#[derive(Debug, Clone, Copy, PartialEq, Eq, Structural)]
pub enum Event {
    CollectedPowerup { entity: Id, entity_side: usize, powerup: Id },
    MoveStarted(EntityMove),
    MoveEnded(EntityMove),
}

} // verus!
