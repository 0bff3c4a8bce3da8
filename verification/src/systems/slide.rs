use vstd::prelude::*;
use crate::geometry::Vec2;
use crate::id::Id;
use crate::input::Input;
use crate::int_angle::IntAngle;
use crate::model::{GameView, Entity, GameState};
use crate::moves::{EntityMove, EntityMoveType};
use crate::position::Position;
use crate::systems::{is_blocked, spec_is_blocked, spec_override_input};

verus! {

/// A slide of `e` one cell sideways by `input`, unless that cell is blocked.
pub open spec fn spec_slide_with_input(state: GameView, e: Entity, input: Input) -> Option<EntityMove> {
    let new_pos = Position {
        cell: e.pos.cell.spec_plus(Vec2 { x: input.spec_delta(), y: 0 }),
        angle: e.pos.angle,
    };
    if spec_is_blocked(state, new_pos.cell) {
        None
    } else {
        Some(EntityMove {
            entity_id: e.id,
            used_input: input,
            start_time: state.current_time,
            end_time: state.current_time.spec_after_turn(),
            prev_pos: e.pos,
            new_pos,
            move_type: match e.prev_move {
                Some(m) => if m.move_type is SlideStart || m.move_type is SlideContinue {
                    EntityMoveType::SlideContinue
                } else {
                    EntityMoveType::SlideStart
                },
                None => EntityMoveType::SlideStart,
            },
        })
    }
}

/// A slide effect on the bottom side carries the entity sideways: the way it
/// last went if it can, else the way the input asks.
pub open spec fn spec_slide(state: GameView, e: Entity, input: Input, side: IntAngle) -> Option<EntityMove> {
    if side.norm() != 3 {
        None
    } else {
        match spec_slide_with_input(state, e, spec_override_input(e, input)) {
            Some(m) => Some(m),
            None => spec_slide_with_input(state, e, input),
        }
    }
}

fn slide_with_input(state: &GameState, entity: &Entity, input: Input) -> (r: Option<EntityMove>)
    ensures
        r == spec_slide_with_input(state@, *entity, input),
{
    let prev_pos = entity.pos;
    let new_pos = Position { cell: entity.pos.cell.plus(Vec2::new(input.delta(), 0)), angle: entity.pos.angle };
    if is_blocked(state, new_pos.cell) {
        return None;
    }
    let move_type = match entity.prev_move {
        Some(m) => match m.move_type {
            EntityMoveType::SlideStart | EntityMoveType::SlideContinue => EntityMoveType::SlideContinue,
            _ => EntityMoveType::SlideStart,
        },
        None => EntityMoveType::SlideStart,
    };
    Some(
        EntityMove {
            entity_id: entity.id,
            used_input: input,
            start_time: state.current_time,
            end_time: state.current_time.after_turn(),
            prev_pos,
            new_pos,
            move_type,
        },
    )
}

/// The slide that a slide effect on side `side` causes, if any.
pub fn system(state: &GameState, entity_id: Id, input: Input, side: IntAngle) -> (r: Option<EntityMove>)
    requires
        state@.has_entity(entity_id),
    ensures
        r == spec_slide(state@, state@.entity(entity_id), input, side),
{
    if !side.is_down() {
        return None;
    }
    let idx = state.find_entity(entity_id).unwrap();
    let entity = &state.entities[idx];
    match slide_with_input(state, entity, entity.maybe_override_input(input)) {
        Some(m) => Some(m),
        None => slide_with_input(state, entity, input),
    }
}

} // verus!
