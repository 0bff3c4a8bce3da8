use vstd::prelude::*;
use vstd::array::spec_array_update;
use crate::id::Id;
use crate::model::{spec_side_index, Entity, GameState, GameView, Powerup, Side};
use crate::moves::Event;
use crate::position::Position;

verus! {

/// Picking up, from index `j` of `pups` on, each powerup that lies in the
/// cell of an entity with identifier `id` at `pos`, when the entity's side
/// facing the powerup's angle is blank: the side gets the powerup's effect
/// and the powerup leaves the level. Gives the new sides, the powerups left
/// and one event per pickup.
pub open spec fn collect_for(id: Id, pos: Position, sides: [Side; 4], pups: Seq<Powerup>, j: int) -> ([Side; 4], Seq<Powerup>, Seq<Event>)
    decreases pups.len() - j,
{
    if j < 0 || j >= pups.len() {
        (sides, pups, seq![])
    } else {
        let p = pups[j];
        let k = spec_side_index(pos.angle, p.pos.angle);
        if p.pos.cell == pos.cell && sides@[k].effect is None {
            let r = collect_for(
                id,
                pos,
                spec_array_update(sides, k, Side { effect: Some(p.effect) }),
                pups.remove(j),
                j,
            );
            (r.0, r.1, seq![Event::CollectedPowerup { entity: id, entity_side: k as usize, powerup: p.id }] + r.2)
        } else {
            collect_for(id, pos, sides, pups, j + 1)
        }
    }
}

/// Pickups by the entities from index `i` on, one entity after the other.
pub open spec fn collect_all(ents: Seq<Entity>, pups: Seq<Powerup>, i: int) -> (Seq<Entity>, Seq<Powerup>, Seq<Event>)
    decreases ents.len() - i,
{
    if i < 0 || i >= ents.len() {
        (ents, pups, seq![])
    } else {
        let e = ents[i];
        let c = collect_for(e.id, e.pos, e.sides, pups, 0);
        let r = collect_all(ents.update(i, Entity { sides: c.0, ..e }), c.1, i + 1);
        (r.0, r.1, c.2 + r.2)
    }
}

/// The game after every entity has picked up the powerups it can.
pub open spec fn spec_collect(v: GameView) -> (GameView, Seq<Event>) {
    let r = collect_all(v.entities, v.powerups, 0);
    (GameView { entities: r.0, powerups: r.1, ..v }, r.2)
}

/// Every entity picks up, one after the other, each powerup in its cell
/// whose angle its blank sides face. Returns the pickups.
pub fn process(state: &mut GameState) -> (events: Vec<Event>)
    ensures
        (final(state)@, events@) == spec_collect(old(state)@),
{
    let mut events: Vec<Event> = Vec::new();
    let mut i: usize = 0;
    while i < state.entities.len()
        invariant
            i <= state.entities.len(),
            state.entities@.len() == old(state).entities@.len(),
            state.id_gen == old(state).id_gen,
            state.selected_player == old(state).selected_player,
            state.goals@ == old(state).goals@,
            state.stable == old(state).stable,
            state.reserved_cells@ == old(state).reserved_cells@,
            state.current_time == old(state).current_time,
            ({
                let r = collect_all(state.entities@, state.powerups@, i as int);
                collect_all(old(state).entities@, old(state).powerups@, 0) == (r.0, r.1, events@ + r.2)
            }),
        decreases state.entities.len() - i,
    {
        let id = state.entities[i].id;
        let pos = state.entities[i].pos;
        let mut sides = state.entities[i].sides;
        let ghost sides0 = sides;
        let ghost pups0 = state.powerups@;
        let ghost ev0 = events@;
        let ghost ents0 = state.entities@;
        let mut j: usize = 0;
        while j < state.powerups.len()
            invariant
                j <= state.powerups.len(),
                i < state.entities.len(),
                state.entities@.len() == old(state).entities@.len(),
                state.entities@ == ents0,
                state.id_gen == old(state).id_gen,
                state.selected_player == old(state).selected_player,
                state.goals@ == old(state).goals@,
                state.stable == old(state).stable,
                state.reserved_cells@ == old(state).reserved_cells@,
                state.current_time == old(state).current_time,
            state.current_time == old(state).current_time,
                id == state.entities@[i as int].id,
                pos == state.entities@[i as int].pos,
                sides0 == state.entities@[i as int].sides,
                events@.len() >= ev0.len(),
                events@.take(ev0.len() as int) == ev0,
                ({
                    let r = collect_for(id, pos, sides, state.powerups@, j as int);
                    collect_for(id, pos, sides0, pups0, 0) == (r.0, r.1, events@.skip(ev0.len() as int) + r.2)
                }),
            decreases state.powerups.len() - j,
        {
            let p = state.powerups[j];
            let k = {
                let e = &state.entities[i];
                e.side_index(p.pos.angle)
            };
            if p.pos.cell == pos.cell && sides[k].effect.is_none() {
                let ghost before = events@;
                let ghost sides_before = sides;
                let ghost pups_before = state.powerups@;
                sides[k] = Side { effect: Some(p.effect) };
                state.powerups.remove(j);
                events.push(Event::CollectedPowerup { entity: id, entity_side: k, powerup: p.id });
                proof {
                    assert(sides =~= spec_array_update(sides_before, k as int, Side { effect: Some(p.effect) }));
                    assert(events@.skip(ev0.len() as int) =~= before.skip(ev0.len() as int) + seq![Event::CollectedPowerup { entity: id, entity_side: k, powerup: p.id }]);
                    assert(events@.take(ev0.len() as int) =~= before.take(ev0.len() as int));
                    let rn = collect_for(id, pos, sides, state.powerups@, j as int);
                    assert(before.skip(ev0.len() as int) + collect_for(id, pos, sides_before, pups_before, j as int).2
                        =~= events@.skip(ev0.len() as int) + rn.2);
                }
            } else {
                j = j + 1;
            }
        }
        let ghost ents_before = state.entities@;
        let ghost pups_after = state.powerups@;
        proof {
            let c = collect_for(id, pos, sides0, pups0, 0);
            assert(collect_for(id, pos, sides, state.powerups@, j as int) == (sides, state.powerups@, Seq::<Event>::empty()));
            assert(events@.skip(ev0.len() as int) + Seq::<Event>::empty() =~= events@.skip(ev0.len() as int));
            assert(c == (sides, pups_after, events@.skip(ev0.len() as int)));
        }
        let mut e = state.entities.remove(i);
        e.sides = sides;
        state.entities.insert(i, e);
        proof {
            assert(state.entities@ =~= ents_before.update(i as int, Entity { sides, ..ents_before[i as int] }));
            assert(events@ =~= ev0 + events@.skip(ev0.len() as int));
            let c = collect_for(id, pos, sides0, pups0, 0);
            let r = collect_all(state.entities@, state.powerups@, i + 1);
            assert(collect_all(ents_before, pups0, i as int) == (r.0, r.1, c.2 + r.2));
            assert(ev0 + (c.2 + r.2) =~= events@ + r.2);
        }
        i = i + 1;
    }
    events
}

} // verus!
