use vstd::prelude::*;
use crate::geometry::Vec2;
use crate::id::Id;
use crate::int_angle::IntAngle;
use crate::input::Input;
use crate::moves::EntityMove;
use crate::systems::jump::{self, spec_jump};
use crate::systems::slide::{self, spec_slide};
use crate::model::{GameView, spec_side_angle, spec_side_index, Effect, Entity, GameState};

verus! {

/// Whether the side of `e` that faces `angle` lets a touching side trigger.
pub open spec fn side_allows_trigger(e: Entity, angle: IntAngle) -> bool {
    match e.sides@[spec_side_index(e.pos.angle, angle)].effect {
        None => true,
        Some(f) => f.spec_allow_trigger(),
    }
}

/// Whether a side that touches cell `pos` from direction `angle` triggers:
/// a triggering entity stands there whose side facing `angle` does not
/// disable triggers.
pub open spec fn spec_is_trigger(state: GameView, pos: Vec2, angle: IntAngle) -> bool {
    exists|i: int|
        0 <= i < state.entities.len() && (#[trigger] state.entities[i]).pos.cell == pos
            && state.entities[i].properties.trigger && side_allows_trigger(state.entities[i], angle)
}

/// Whether a side that touches cell `pos` from direction `angle` triggers.
pub fn is_trigger(state: &GameState, pos: Vec2, angle: IntAngle) -> (r: bool)
    ensures
        r == spec_is_trigger(state@, pos, angle),
{
    let mut i: usize = 0;
    while i < state.entities.len()
        invariant
            i <= state.entities.len(),
            forall|j: int|
                0 <= j < i ==> !((#[trigger] state.entities@[j]).pos.cell == pos
                    && state.entities@[j].properties.trigger && side_allows_trigger(
                    state.entities@[j],
                    angle,
                )),
        decreases state.entities.len() - i,
    {
        let e = &state.entities[i];
        if e.pos.cell == pos && e.properties.trigger {
            let allows = match e.side_at_angle(angle).effect {
                None => true,
                Some(f) => f.allow_trigger(),
            };
            if allows {
                return true;
            }
        }
        i = i + 1;
    }
    false
}

/// The effect that side `k` of `e` has on its own entity: its effect, when
/// the side touches a trigger.
pub open spec fn self_part(state: GameView, e: Entity, k: int) -> Seq<(IntAngle, Effect)> {
    let sa = spec_side_angle(e.pos.angle, k);
    let sc = e.pos.cell.spec_plus(sa.spec_to_vec());
    if spec_is_trigger(state, sc, sa.spec_opposite()) && e.sides@[k].effect is Some {
        seq![(sa, e.sides@[k].effect.unwrap())]
    } else {
        seq![]
    }
}

/// The effects that the first `n` entities standing in `sc` give, through
/// their sides that face back towards `sa`, to an entity whose side `sa`
/// touches them.
pub open spec fn other_part(ents: Seq<Entity>, sc: Vec2, sa: IntAngle, n: int) -> Seq<(IntAngle, Effect)>
    decreases n,
{
    if n <= 0 {
        seq![]
    } else {
        let rest = other_part(ents, sc, sa, n - 1);
        let o = ents[n - 1];
        if o.pos.cell == sc {
            match o.sides@[spec_side_index(o.pos.angle, sa.spec_opposite())].effect {
                Some(f) => match f.spec_activate_other() {
                    Some(x) => rest.push((sa, x)),
                    None => rest,
                },
                None => rest,
            }
        } else {
            rest
        }
    }
}

/// The effects that act on `e` through its side `k`.
pub open spec fn side_part(state: GameView, e: Entity, k: int) -> Seq<(IntAngle, Effect)> {
    let sa = spec_side_angle(e.pos.angle, k);
    let sc = e.pos.cell.spec_plus(sa.spec_to_vec());
    self_part(state, e, k) + if spec_is_trigger(state, e.pos.cell, sa) {
        other_part(state.entities, sc, sa, state.entities.len() as int)
    } else {
        seq![]
    }
}

pub open spec fn active_effects_upto(state: GameView, e: Entity, k: int) -> Seq<(IntAngle, Effect)>
    decreases k,
{
    if k <= 0 {
        seq![]
    } else {
        active_effects_upto(state, e, k - 1) + side_part(state, e, k - 1)
    }
}

/// The effects acting on `e`, each with the absolute angle of the side it
/// acts through, side by side from side 0 to side 3.
pub open spec fn spec_active_effects(state: GameView, e: Entity) -> Seq<(IntAngle, Effect)> {
    active_effects_upto(state, e, 4)
}

fn other_effects(state: &GameState, sc: Vec2, sa: IntAngle, result: &mut Vec<(IntAngle, Effect)>)
    ensures
        final(result)@ == old(result)@ + other_part(state.entities@, sc, sa, state.entities@.len() as int),
{
    let ghost start = result@;
    let opp = sa.opposite();
    let mut i: usize = 0;
    while i < state.entities.len()
        invariant
            i <= state.entities.len(),
            opp == sa.spec_opposite(),
            result@ == start + other_part(state.entities@, sc, sa, i as int),
        decreases state.entities.len() - i,
    {
        let other = &state.entities[i];
        if other.pos.cell == sc {
            let other_side_index = other.side_index(opp);
            match other.sides[other_side_index].effect {
                Some(f) => match f.activate_other() {
                    Some(x) => {
                        result.push((sa, x));
                    },
                    None => {},
                },
                None => {},
            }
        }
        proof {
            assert(other_part(state.entities@, sc, sa, i + 1) =~= other_part(state.entities@, sc, sa, i as int)
                + (other_part(state.entities@, sc, sa, i + 1).skip(other_part(state.entities@, sc, sa, i as int).len() as int)));
        }
        i = i + 1;
    }
}

/// The effects acting on an entity, with the angles of the sides they act
/// through.
pub fn entity_active_effects(state: &GameState, entity_id: Id) -> (r: Vec<(IntAngle, Effect)>)
    requires
        state@.has_entity(entity_id),
    ensures
        r@ == spec_active_effects(state@, state@.entity(entity_id)),
{
    let idx = state.find_entity(entity_id).unwrap();
    let entity = &state.entities[idx];
    let mut result: Vec<(IntAngle, Effect)> = Vec::new();
    let mut k: usize = 0;
    while k < 4
        invariant
            k <= 4,
            *entity == state@.entity(entity_id),
            result@ == active_effects_upto(state@, *entity, k as int),
        decreases 4 - k,
    {
        let side_angle = entity.side_angle(k);
        let side_cell = entity.pos.cell.plus(side_angle.to_vec());
        if is_trigger(state, side_cell, side_angle.opposite()) {
            if let Some(effect) = entity.sides[k].effect {
                if effect.activate_self() {
                    result.push((side_angle, effect));
                }
            }
        }
        if is_trigger(state, entity.pos.cell, side_angle) {
            other_effects(state, side_cell, side_angle, &mut result);
        }
        proof {
            assert(result@ =~= active_effects_upto(state@, *entity, k + 1));
        }
        k = k + 1;
    }
    result
}

} // verus!

verus! {

/// The move that an effect acting through the side at `angle` causes.
pub open spec fn spec_apply(state: GameView, e: Entity, effect: Effect, input: Input, angle: IntAngle) -> Option<EntityMove> {
    match effect {
        Effect::Jump => spec_jump(state, e, input, angle),
        Effect::Slide => spec_slide(state, e, input, angle),
        // Some effects are handled in other systems
        _ => None,
    }
}

/// The move of the first effect from index `i` on that causes one.
pub open spec fn first_effect_move(state: GameView, e: Entity, input: Input, effects: Seq<(IntAngle, Effect)>, i: int) -> Option<EntityMove>
    decreases effects.len() - i,
{
    if i < 0 || i >= effects.len() {
        None
    } else {
        match spec_apply(state, e, effects[i].1, input, effects[i].0) {
            Some(m) => Some(m),
            None => first_effect_move(state, e, input, effects, i + 1),
        }
    }
}

/// The move caused by the first active effect of `e` that causes one.
pub open spec fn spec_side_effects(state: GameView, e: Entity, input: Input) -> Option<EntityMove> {
    first_effect_move(state, e, input, spec_active_effects(state, e), 0)
}

impl Effect {
    /// The move that this effect causes when it acts through the side at
    /// `angle` of an entity.
    pub fn apply(&self, state: &GameState, entity_id: Id, input: Input, angle: IntAngle) -> (r: Option<EntityMove>)
        requires
            state@.has_entity(entity_id),
        ensures
            r == spec_apply(state@, state@.entity(entity_id), *self, input, angle),
    {
        match self {
            Effect::Jump => jump::system(state, entity_id, input, angle),
            Effect::Slide => slide::system(state, entity_id, input, angle),
            _ => None,
        }
    }
}

/// The move caused by the first active effect of an entity that causes one.
pub fn side_effects(state: &GameState, entity_id: Id, input: Input) -> (r: Option<EntityMove>)
    requires
        state@.has_entity(entity_id),
    ensures
        r == spec_side_effects(state@, state@.entity(entity_id), input),
{
    let effects = entity_active_effects(state, entity_id);
    let mut i: usize = 0;
    while i < effects.len()
        invariant
            i <= effects.len(),
            state@.has_entity(entity_id),
            effects@ == spec_active_effects(state@, state@.entity(entity_id)),
            spec_side_effects(state@, state@.entity(entity_id), input) == first_effect_move(
                state@,
                state@.entity(entity_id),
                input,
                effects@,
                i as int,
            ),
        decreases effects.len() - i,
    {
        let (side, effect) = effects[i];
        if let Some(m) = effect.apply(state, entity_id, input, side) {
            return Some(m);
        }
        i = i + 1;
    }
    None
}

} // verus!
