use vstd::prelude::*;
use crate::geometry::Vec2;
use crate::id::Id;
use crate::input::Input;
use crate::model::{GameView, Entity, GameState};
use crate::moves::{EntityMove, EntityMoveType};
use crate::position::Position;
use crate::systems::{is_blocked, spec_is_blocked};
use crate::systems::effects::spec_active_effects;
use crate::systems::magnet::{entity_is_held, spec_is_held};

verus! {

/// An entity that nothing holds falls one cell when the cell below it is free.
pub open spec fn spec_gravity(state: GameView, e: Entity) -> Option<EntityMove> {
    if spec_is_held(spec_active_effects(state, e)) {
        None
    } else {
        let new_pos = Position { cell: e.pos.cell.spec_plus(Vec2 { x: 0i32, y: -1i32 }), angle: e.pos.angle };
        if spec_is_blocked(state, new_pos.cell) {
            None
        } else {
            Some(EntityMove {
                entity_id: e.id,
                used_input: Input::Skip,
                start_time: state.current_time,
                end_time: state.current_time.spec_after_turn(),
                prev_pos: e.pos,
                new_pos,
                move_type: EntityMoveType::Gravity,
            })
        }
    }
}

/// The fall of an entity, if it falls.
pub fn system(state: &GameState, entity_id: Id) -> (r: Option<EntityMove>)
    requires
        state@.has_entity(entity_id),
    ensures
        r == spec_gravity(state@, state@.entity(entity_id)),
{
    if entity_is_held(state, entity_id) {
        // No gravity when we are magneted
        return None;
    }
    let idx = state.find_entity(entity_id).unwrap();
    let entity = &state.entities[idx];
    let new_pos = Position { cell: entity.pos.cell.plus(Vec2::new(0, -1)), angle: entity.pos.angle };
    if !is_blocked(state, new_pos.cell) {
        return Some(
            EntityMove {
                entity_id: entity.id,
                used_input: Input::Skip,
                start_time: state.current_time,
                end_time: state.current_time.after_turn(),
                prev_pos: entity.pos,
                new_pos,
                move_type: EntityMoveType::Gravity,
            },
        );
    }
    None
}

} // verus!
