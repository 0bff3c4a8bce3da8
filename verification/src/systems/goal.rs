use vstd::prelude::*;
use crate::id::Id;
use crate::input::Input;
use crate::model::{GameView, Entity, GameState, Goal};
use crate::moves::{EntityMove, EntityMoveType};
use crate::seq_util::first_from;

verus! {

/// Index of the first goal that stands where `e` stands, turned the same way.
pub open spec fn goal_index_at(state: GameView, e: Entity) -> Option<int> {
    first_from(state.goals, |g: Goal| g.pos.spec_normalize() == e.pos.spec_normalize(), 0)
}

/// A player standing on a goal, turned as the goal is, enters it.
pub open spec fn spec_goal(state: GameView, e: Entity) -> Option<EntityMove> {
    if !e.properties.player {
        None
    } else {
        match goal_index_at(state, e) {
            Some(i) => Some(EntityMove {
                entity_id: e.id,
                used_input: Input::Skip,
                start_time: state.current_time,
                end_time: state.current_time.spec_after_turn(),
                prev_pos: e.pos,
                new_pos: e.pos,
                move_type: EntityMoveType::EnterGoal { goal_id: state.goals[i].id },
            }),
            None => None,
        }
    }
}

/// The move into a goal, if the entity is a player standing on one.
pub fn system(state: &GameState, entity_id: Id) -> (r: Option<EntityMove>)
    requires
        state@.has_entity(entity_id),
    ensures
        r == spec_goal(state@, state@.entity(entity_id)),
{
    let idx = state.find_entity(entity_id).unwrap();
    let entity = &state.entities[idx];
    if !entity.properties.player {
        return None;
    }
    let target = entity.pos.normalize();
    let mut i: usize = 0;
    while i < state.goals.len()
        invariant
            i <= state.goals.len(),
            target == entity.pos.spec_normalize(),
            *entity == state@.entity(entity_id),
            entity.properties.player,
            goal_index_at(state@, *entity) == first_from(
                state.goals@,
                |g: Goal| g.pos.spec_normalize() == entity.pos.spec_normalize(),
                i as int,
            ),
        decreases state.goals.len() - i,
    {
        if state.goals[i].pos.normalize() == target {
            return Some(
                EntityMove {
                    entity_id: entity.id,
                    used_input: Input::Skip,
                    start_time: state.current_time,
                    end_time: state.current_time.after_turn(),
                    prev_pos: entity.pos,
                    new_pos: entity.pos,
                    move_type: EntityMoveType::EnterGoal { goal_id: state.goals[i].id },
                },
            );
        }
        i = i + 1;
    }
    None
}

} // verus!
