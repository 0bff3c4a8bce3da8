use vstd::prelude::*;
use crate::id::Id;
use crate::input::Input;
use crate::int_angle::IntAngle;
use crate::model::{GameView, Config, ContinueConfig, Effect, Entity, GameState};
use crate::moves::{EntityMove, EntityMoveType};
use crate::position::Position;
use crate::systems::{is_blocked, spec_is_blocked};
use crate::systems::effects::{entity_active_effects, spec_active_effects};

verus! {

/// The angles of the sides through which a magnet holds an entity, in the
/// order of its active effects.
pub open spec fn magnet_angles_of(effects: Seq<(IntAngle, Effect)>) -> Seq<IntAngle>
    decreases effects.len(),
{
    if effects.len() == 0 {
        seq![]
    } else {
        let rest = magnet_angles_of(effects.drop_last());
        if effects.last().1 == Effect::Magnet {
            rest.push(effects.last().0)
        } else {
            rest
        }
    }
}

/// The angles of the sides of an entity through which a magnet holds it.
pub fn entity_magneted_angles(state: &GameState, entity_id: Id) -> (r: Vec<IntAngle>)
    requires
        state@.has_entity(entity_id),
    ensures
        r@ == magnet_angles_of(spec_active_effects(state@, state@.entity(entity_id))),
{
    let effects = entity_active_effects(state, entity_id);
    let mut result: Vec<IntAngle> = Vec::new();
    let mut i: usize = 0;
    while i < effects.len()
        invariant
            i <= effects.len(),
            result@ == magnet_angles_of(effects@.take(i as int)),
        decreases effects.len() - i,
    {
        proof {
            assert(effects@.take(i + 1).drop_last() =~= effects@.take(i as int));
        }
        if effects[i].1 == Effect::Magnet {
            result.push(effects[i].0);
        }
        i = i + 1;
    }
    proof {
        assert(effects@.take(effects.len() as int) =~= effects@);
    }
    result
}

/// Whether any active effect keeps the entity from falling: a magnet of its
/// own, a weak magnet, or a magnet of a neighbour that it touches.
pub open spec fn spec_is_held(effects: Seq<(IntAngle, Effect)>) -> bool {
    exists|j: int|
        0 <= j < effects.len() && ((#[trigger] effects[j]).1 == Effect::Magnet || effects[j].1
            == Effect::WeakMagnet || effects[j].1 == Effect::DisableGravity)
}

/// Whether an active effect keeps the entity from falling.
pub fn entity_is_held(state: &GameState, entity_id: Id) -> (r: bool)
    requires
        state@.has_entity(entity_id),
    ensures
        r == spec_is_held(spec_active_effects(state@, state@.entity(entity_id))),
{
    let effects = entity_active_effects(state, entity_id);
    let mut i: usize = 0;
    while i < effects.len()
        invariant
            i <= effects.len(),
            effects@ == spec_active_effects(state@, state@.entity(entity_id)),
            forall|j: int|
                0 <= j < i ==> !((#[trigger] effects@[j]).1 == Effect::Magnet || effects@[j].1
                    == Effect::WeakMagnet || effects@[j].1 == Effect::DisableGravity),
        decreases effects.len() - i,
    {
        let e = effects[i].1;
        if e == Effect::Magnet || e == Effect::WeakMagnet || e == Effect::DisableGravity {
            assert(effects@[i as int].1 == e);
            return true;
        }
        i = i + 1;
    }
    false
}

/// The move that carries on a magnet move of the last step: one more cell
/// around the magnet, turning the same way.
pub open spec fn spec_continue_move(state: GameView, config: ContinueConfig, e: Entity, input: Input) -> Option<EntityMove> {
    if config == ContinueConfig::Never {
        None
    } else {
        match e.prev_move {
            Some(m) => match m.move_type {
                EntityMoveType::Magnet { magnet_angle, move_dir } => {
                    if move_dir == (crate::geometry::Vec2 { x: 0, y: 0 }) {
                        None
                    } else if m.used_input != input && config == ContinueConfig::Input {
                        None
                    } else {
                        let new_pos = Position {
                            cell: e.pos.cell.spec_plus(magnet_angle.spec_to_vec()),
                            angle: e.pos.angle.spec_with_input(m.used_input),
                        };
                        if spec_is_blocked(state, new_pos.cell) {
                            None
                        } else {
                            Some(EntityMove {
                                entity_id: e.id,
                                used_input: m.used_input,
                                start_time: state.current_time,
                                end_time: state.current_time.spec_after_turn(),
                                prev_pos: e.pos,
                                new_pos,
                                move_type: EntityMoveType::MagnetContinue,
                            })
                        }
                    }
                },
                _ => None,
            },
            None => None,
        }
    }
}

/// The move that carries on the entity's magnet move of the last step, if
/// the configuration lets it.
pub fn continue_move(state: &GameState, config: &Config, entity_id: Id, input: Input) -> (r: Option<EntityMove>)
    requires
        state@.has_entity(entity_id),
    ensures
        r == spec_continue_move(state@, config.magnet_continue, state@.entity(entity_id), input),
{
    if config.magnet_continue == ContinueConfig::Never {
        return None;
    }
    let idx = state.find_entity(entity_id).unwrap();
    let entity = &state.entities[idx];
    let m = match entity.prev_move {
        Some(m) => m,
        None => {
            return None;
        },
    };
    match m.move_type {
        EntityMoveType::Magnet { magnet_angle, move_dir } => {
            if move_dir == crate::geometry::Vec2::zero() {
                // Cant continue after locked in place rotation
                return None;
            }
            if m.used_input != input && config.magnet_continue == ContinueConfig::Input {
                return None;
            }
            let new_pos = Position {
                cell: entity.pos.cell.plus(magnet_angle.to_vec()),
                angle: entity.pos.angle.with_input(m.used_input),
            };
            if is_blocked(state, new_pos.cell) {
                return None;
            }
            Some(
                EntityMove {
                    entity_id: entity.id,
                    used_input: m.used_input,
                    start_time: state.current_time,
                    end_time: state.current_time.after_turn(),
                    prev_pos: entity.pos,
                    new_pos,
                    move_type: EntityMoveType::MagnetContinue,
                },
            )
        },
        _ => None,
    }
}

} // verus!
