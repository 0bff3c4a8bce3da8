use vstd::prelude::*;
use crate::geometry::Vec2;
use crate::input::Input;
use crate::int_angle::IntAngle;
use crate::model::{GameView, Entity, GameState};

pub mod effects;
pub mod magnet;
pub mod gravity;
pub mod goal;
pub mod slide;
pub mod jump;
pub mod just_move;
pub mod powerups;
pub mod turn;

verus! {

/// The input that the last move of an entity stands for: the direction it
/// rolled sideways, or the way it turned in place; `input` when it did
/// neither.
pub open spec fn spec_override_input(e: Entity, input: Input) -> Input {
    let last_move = e.pos.cell.spec_minus(e.prev_pos.cell);
    if last_move.x != 0 && last_move.y == 0 {
        Input::spec_from_sign(last_move.x as int)
    } else if last_move == (Vec2 { x: 0, y: 0 }) && e.pos.angle != e.prev_pos.angle {
        Input::spec_from_sign(0i32.wrapping_sub(e.pos.angle.spec_sub(e.prev_pos.angle).0) as int)
    } else {
        input
    }
}

impl Entity {
    /// The input that the entity's last move stands for, or `input` when it
    /// did not roll sideways or turn in place.
    pub fn maybe_override_input(&self, input: Input) -> (r: Input)
        ensures
            r == spec_override_input(*self, input),
    {
        let last_move = self.pos.cell.minus(self.prev_pos.cell);
        if last_move.x != 0 && last_move.y == 0 {
            Input::from_sign(last_move.x)
        } else if last_move == Vec2::zero() && self.pos.angle != self.prev_pos.angle {
            Input::from_sign(0i32.wrapping_sub(self.pos.angle.sub_angle(self.prev_pos.angle).to_i32()))
        } else {
            input
        }
    }
}

/// Whether an entity cannot enter `pos`: a move planned in this step
/// reserved it, or a blocking entity stands there.
pub open spec fn spec_is_blocked(state: GameView, pos: Vec2) -> bool {
    state.reserved.contains(pos) || exists|i: int|
        0 <= i < state.entities.len() && (#[trigger] state.entities[i]).pos.cell == pos
            && state.entities[i].properties.block
}

/// Whether an entity cannot enter `pos`.
pub fn is_blocked(state: &GameState, pos: Vec2) -> (r: bool)
    ensures
        r == spec_is_blocked(state@, pos),
{
    let mut i: usize = 0;
    while i < state.reserved_cells.len()
        invariant
            i <= state.reserved_cells.len(),
            forall|j: int| 0 <= j < i ==> state.reserved_cells@[j] != pos,
        decreases state.reserved_cells.len() - i,
    {
        if state.reserved_cells[i] == pos {
            return true;
        }
        i = i + 1;
    }
    let mut i: usize = 0;
    while i < state.entities.len()
        invariant
            i <= state.entities.len(),
            !state.reserved_cells@.contains(pos),
            forall|j: int|
                0 <= j < i ==> !((#[trigger] state.entities@[j]).pos.cell == pos
                    && state.entities@[j].properties.block),
        decreases state.entities.len() - i,
    {
        if state.entities[i].pos.cell == pos && state.entities[i].properties.block {
            return true;
        }
        i = i + 1;
    }
    false
}

} // verus!
