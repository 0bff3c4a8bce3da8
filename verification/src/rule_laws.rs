use vstd::prelude::*;
use crate::geometry::Vec2;
use crate::int_angle::{lemma_norm_add, IntAngle};
use crate::model::{spec_side_index, Effect, GameView, Powerup, Side};
use crate::id::Id;
use crate::moves::Event;
use crate::position::Position;
use crate::systems::powerups::{collect_all, collect_for, spec_collect};
use vstd::array::spec_array_update;
use crate::input::Input;
use crate::model::Entity;
use crate::moves::EntityMoveType;
use crate::seq_util::{first_from, lemma_first_from};
use crate::systems::effects::spec_is_trigger;
use crate::systems::jump::spec_jump;
use crate::systems::just_move::spec_just_move;
use crate::systems::slide::spec_slide;
use crate::systems::{spec_is_blocked, spec_override_input};

verus! {

/// The side of something turned by `turned` that faces direction `dir`,
/// counted in quarter turns counter-clockwise from its own right side.
pub open spec fn facing_side(turned: IntAngle, dir: IntAngle) -> int {
    (dir.0 as int - turned.0 as int) % 4
}

/// The side index the rules use is the side that faces the direction.
pub proof fn lemma_side_index_faces(turned: IntAngle, dir: IntAngle)
    ensures
        spec_side_index(turned, dir) == facing_side(turned, dir),
        0 <= facing_side(turned, dir) < 4,
{
    assert(IntAngle(0i32).spec_add(turned) == turned);
    lemma_norm_add(dir, turned);
    vstd::arithmetic::div_mod::lemma_sub_mod_noop(dir.0 as int, turned.0 as int, 4);
}

/// A cell triggers a side touching it from direction `angle` exactly when
/// an entity standing there can trigger and its side facing `angle` does not
/// carry `DisableTrigger`.
pub proof fn lemma_trigger_needs_allowing_side(v: GameView, pos: Vec2, angle: IntAngle)
    ensures
        spec_is_trigger(v, pos, angle) <==> exists|i: int|
            0 <= i < v.entities.len() && (#[trigger] v.entities[i]).pos.cell == pos && v.entities[i].properties.trigger
                && v.entities[i].sides@[facing_side(v.entities[i].pos.angle, angle)].effect != Some(
                Effect::DisableTrigger,
            ),
{
    assert forall|i: int| 0 <= i < v.entities.len() implies spec_side_index(
        (#[trigger] v.entities[i]).pos.angle,
        angle,
    ) == facing_side(v.entities[i].pos.angle, angle) by {
        lemma_side_index_faces(v.entities[i].pos.angle, angle);
    }
}

/// A slide carries the entity one cell sideways in the direction of the
/// input it uses, into a free cell, turned as it was. That input is the
/// direction of its last move when the cell there is free; otherwise the
/// input given. Only a slide effect on the bottom side slides.
pub proof fn lemma_slide_one_cell(v: GameView, e: Entity, input: Input, side: IntAngle)
    ensures
        spec_slide(v, e, input, side) matches Some(m) ==> {
            &&& side.norm() == 3
            &&& m.entity_id == e.id
            &&& m.prev_pos == e.pos
            &&& m.new_pos.cell == e.pos.cell.spec_plus(Vec2 { x: m.used_input.spec_delta(), y: 0 })
            &&& m.new_pos.angle == e.pos.angle
            &&& !spec_is_blocked(v, m.new_pos.cell)
            &&& (m.used_input == spec_override_input(e, input) || m.used_input == input)
        },
        ({
            let last = spec_override_input(e, input);
            side.norm() == 3 && !spec_is_blocked(v, e.pos.cell.spec_plus(Vec2 { x: last.spec_delta(), y: 0 }))
                ==> (spec_slide(v, e, input, side) matches Some(m) && m.used_input == last)
        }),
{
}

/// A jump off the bottom side that nothing blocks ends two cells up and one
/// cell sideways in the direction of the input it uses (the direction of the
/// entity's last move, when it has one), after three cells of its path.
pub proof fn lemma_upward_jump_lands_aside(v: GameView, e: Entity, input: Input, from: IntAngle)
    requires
        from.norm() == 3,
        !spec_is_blocked(v, e.pos.cell.spec_plus(Vec2 { x: 0, y: 1 })),
        !spec_is_blocked(v, e.pos.cell.spec_plus(Vec2 { x: 0, y: 2 })),
        !spec_is_blocked(
            v,
            e.pos.cell.spec_plus(Vec2 { x: spec_override_input(e, input).spec_delta(), y: 2 }),
        ),
    ensures
        spec_jump(v, e, input, from) matches Some(m) && m.entity_id == e.id && m.prev_pos == e.pos
            && m.used_input == spec_override_input(e, input) && m.new_pos.cell == e.pos.cell.spec_plus(
            Vec2 { x: spec_override_input(e, input).spec_delta(), y: 2 },
        ) && (m.move_type matches EntityMoveType::Jump { cells_traveled, jump_force, .. } && cells_traveled == 3
            && jump_force == 3),
{
    let i = spec_override_input(e, input);
    let jump_to = from.spec_opposite();
    crate::int_angle::lemma_opposite(from);
    assert(jump_to.norm() == 1);
    let rot = jump_to.spec_sub(IntAngle(1));
    lemma_norm_add(jump_to, IntAngle(1));
    assert(rot.norm() == 0);
    let path = crate::systems::jump::jump_path(e, i, from);
    assert(path[0] == e.pos.cell.spec_plus(Vec2 { x: 0, y: 1 }));
    assert(path[1] == e.pos.cell.spec_plus(Vec2 { x: 0, y: 2 }));
    assert(path[2] == e.pos.cell.spec_plus(Vec2 { x: i.spec_delta(), y: 2 }));
    lemma_first_from(path, |p: Vec2| spec_is_blocked(v, p), 0);
    assert(first_from(path, |p: Vec2| spec_is_blocked(v, p), 0) is None);
}

/// A roll pushes an entity only into a free cell, and the rolling entity
/// ends in its own cell, in a free cell, or in the cell of the entity it
/// pushes away, which stood in the cell the rolling entity enters.
pub proof fn lemma_push_only_into_free_cells(v: GameView, e: Entity, input: Input)
    requires
        exists|j: int| 0 <= j < v.entities.len() && v.entities[j] == e,
        forall|a: int, b: int| 0 <= a < b < v.entities.len() ==> (#[trigger] v.entities[a]).id != (#[trigger] v.entities[b]).id,
    ensures
        spec_just_move(v, e, input) matches Some(ms) ==> {
            &&& forall|k: int|
                0 <= k < ms.len() && (#[trigger] ms[k]).move_type is Pushed ==> !spec_is_blocked(v, ms[k].new_pos.cell)
                    && ms[k].prev_pos.cell == ms[ms.len() - 1].new_pos.cell && ms[k].entity_id != e.id
            &&& ms.len() >= 1
            &&& ms[ms.len() - 1].entity_id == e.id
            &&& ms[ms.len() - 1].prev_pos == e.pos
            &&& {
                let own = ms[ms.len() - 1];
                ||| own.new_pos.cell == e.pos.cell
                ||| !spec_is_blocked(v, own.new_pos.cell)
                ||| exists|k: int|
                    0 <= k < ms.len() - 1 && (#[trigger] ms[k]).move_type is Pushed && ms[k].prev_pos.cell == own.new_pos.cell
            }
        },
{
    if input != Input::Skip {
        let angles = crate::systems::magnet::magnet_angles_of(crate::systems::effects::spec_active_effects(v, e));
        let direction = if input == Input::Left {
            crate::systems::just_move::spec_direction(v, e, angles, 3, Vec2 { x: -1i32, y: 0i32 })
        } else {
            crate::systems::just_move::spec_direction(v, e, angles, 1, Vec2 { x: 1i32, y: 0i32 })
        };
        let dir = direction.1;
        let next_cell = e.pos.cell.spec_plus(dir);
        lemma_first_from(v.entities, |o: Entity| o.pos.cell == next_cell, 0);
        let ms = spec_just_move(v, e, input).unwrap();
        match crate::systems::just_move::entity_at(v, next_cell) {
            Some(q) => {
                let ne = v.entities[q];
                assert(ne.pos.cell == next_cell);
                let j = choose|j: int| 0 <= j < v.entities.len() && v.entities[j] == e;
                if ne.id == e.id {
                    assert(q == j) by {
                        if q < j {
                            assert(v.entities[q].id != v.entities[j].id);
                        } else if j < q {
                            assert(v.entities[j].id != v.entities[q].id);
                        }
                    }
                }
                if ms.len() == 2 {
                    assert(ms[0].move_type is Pushed);
                    assert(ms[0].prev_pos.cell == ms[1].new_pos.cell);
                }
            },
            None => {},
        }
    }
}

/// Picking up never changes a side that already holds an effect.
pub proof fn lemma_pickup_keeps_full_sides(id: Id, pos: Position, sides: [Side; 4], pups: Seq<Powerup>, j: int)
    ensures
        forall|t: int|
            0 <= t < 4 && (#[trigger] sides@[t]).effect is Some ==> collect_for(id, pos, sides, pups, j).0@[t] == sides@[t],
    decreases pups.len() - j,
{
    broadcast use vstd::array::group_array_axioms;
    if 0 <= j < pups.len() {
        let p = pups[j];
        let k = spec_side_index(pos.angle, p.pos.angle);
        lemma_side_index_faces(pos.angle, p.pos.angle);
        if p.pos.cell == pos.cell && sides@[k].effect is None {
            let s2 = spec_array_update(sides, k, Side { effect: Some(p.effect) });
            lemma_pickup_keeps_full_sides(id, pos, s2, pups.remove(j), j);
            assert forall|t: int| 0 <= t < 4 && (#[trigger] sides@[t]).effect is Some implies s2@[t] == sides@[t] by {
                assert(t != k);
            }
        } else {
            lemma_pickup_keeps_full_sides(id, pos, sides, pups, j + 1);
        }
    }
}

/// Each pickup of an entity names the entity, a powerup from index `j` on
/// that lay in the entity's cell, and the side facing that powerup's angle;
/// that side was blank and afterwards holds the powerup's effect. A powerup
/// from index `j` on that is left in the entity's cell faces a side that
/// holds an effect afterwards; the powerups before `j` stay where they were.
pub proof fn lemma_pickup_fills_facing_side(id: Id, pos: Position, sides: [Side; 4], pups: Seq<Powerup>, j: int)
    requires
        0 <= j <= pups.len(),
    ensures
        ({
            let r = collect_for(id, pos, sides, pups, j);
            &&& forall|n: int| 0 <= n < r.2.len() ==> (#[trigger] r.2[n] matches Event::CollectedPowerup {
                entity,
                entity_side,
                powerup,
            } && entity == id && entity_side < 4 && exists|q: int|
                j <= q < pups.len() && (#[trigger] pups[q]).id == powerup && pups[q].pos.cell == pos.cell
                    && entity_side as int == facing_side(pos.angle, pups[q].pos.angle)
                    && sides@[entity_side as int].effect is None
                    && r.0@[entity_side as int].effect == Some(pups[q].effect))
            &&& j <= r.1.len() <= pups.len()
            &&& forall|q: int| 0 <= q < j ==> r.1[q] == pups[q]
            &&& forall|q: int|
                j <= q < r.1.len() && (#[trigger] r.1[q]).pos.cell == pos.cell ==> r.0@[facing_side(
                    pos.angle,
                    r.1[q].pos.angle,
                )].effect is Some
            &&& forall|q: int| 0 <= q < r.1.len() ==> pups.contains(#[trigger] r.1[q])
        }),
    decreases pups.len() - j,
{
    broadcast use vstd::array::group_array_axioms;
    if j < pups.len() {
        let p = pups[j];
        let k = spec_side_index(pos.angle, p.pos.angle);
        lemma_side_index_faces(pos.angle, p.pos.angle);
        if p.pos.cell == pos.cell && sides@[k].effect is None {
            let s2 = spec_array_update(sides, k, Side { effect: Some(p.effect) });
            let p2 = pups.remove(j);
            lemma_pickup_fills_facing_side(id, pos, s2, p2, j);
            lemma_pickup_keeps_full_sides(id, pos, s2, p2, j);
            let rr = collect_for(id, pos, s2, p2, j);
            let r = collect_for(id, pos, sides, pups, j);
            let ev = Event::CollectedPowerup { entity: id, entity_side: k as usize, powerup: p.id };
            assert(r.2 == seq![ev] + rr.2);
            assert(s2@[k].effect is Some);
            assert forall|n: int| 0 <= n < r.2.len() implies (#[trigger] r.2[n] matches Event::CollectedPowerup {
                entity,
                entity_side,
                powerup,
            } && entity == id && entity_side < 4 && exists|q: int|
                j <= q < pups.len() && (#[trigger] pups[q]).id == powerup && pups[q].pos.cell == pos.cell
                    && entity_side as int == facing_side(pos.angle, pups[q].pos.angle)
                    && sides@[entity_side as int].effect is None
                    && r.0@[entity_side as int].effect == Some(pups[q].effect)) by {
                if n == 0 {
                    assert(r.2[0] == ev);
                    assert(pups[j].id == p.id);
                } else {
                    assert(r.2[n] == rr.2[n - 1]);
                    if let Event::CollectedPowerup { entity, entity_side, powerup } = rr.2[n - 1] {
                        let q = choose|q: int|
                            j <= q < p2.len() && (#[trigger] p2[q]).id == powerup && p2[q].pos.cell == pos.cell
                                && entity_side as int == facing_side(pos.angle, p2[q].pos.angle)
                                && s2@[entity_side as int].effect is None
                                && rr.0@[entity_side as int].effect == Some(p2[q].effect);
                        assert(p2[q] == pups[q + 1]);
                        assert(entity_side as int != k);
                    }
                }
            }
            assert forall|q: int| 0 <= q < r.1.len() implies pups.contains(#[trigger] r.1[q]) by {
                assert(p2.contains(r.1[q]));
                let w = choose|w: int| 0 <= w < p2.len() && p2[w] == r.1[q];
                if w < j {
                    assert(pups[w] == r.1[q]);
                } else {
                    assert(pups[w + 1] == r.1[q]);
                }
            }
            assert forall|q: int| 0 <= q < j implies r.1[q] == pups[q] by {
                assert(p2[q] == pups[q]);
            }
        } else {
            lemma_pickup_fills_facing_side(id, pos, sides, pups, j + 1);
            lemma_pickup_keeps_full_sides(id, pos, sides, pups, j + 1);
            let r = collect_for(id, pos, sides, pups, j);
            assert(r.1[j] == pups[j]);
            assert forall|n: int| 0 <= n < r.2.len() implies (#[trigger] r.2[n] matches Event::CollectedPowerup {
                entity,
                entity_side,
                powerup,
            } && entity == id && entity_side < 4 && exists|q: int|
                j <= q < pups.len() && (#[trigger] pups[q]).id == powerup && pups[q].pos.cell == pos.cell
                    && entity_side as int == facing_side(pos.angle, pups[q].pos.angle)
                    && sides@[entity_side as int].effect is None
                    && r.0@[entity_side as int].effect == Some(pups[q].effect)) by {
                if let Event::CollectedPowerup { entity, entity_side, powerup } = r.2[n] {
                    let q = choose|q: int|
                        j + 1 <= q < pups.len() && (#[trigger] pups[q]).id == powerup && pups[q].pos.cell == pos.cell
                            && entity_side as int == facing_side(pos.angle, pups[q].pos.angle)
                            && sides@[entity_side as int].effect is None
                            && r.0@[entity_side as int].effect == Some(pups[q].effect);
                    assert(j <= q);
                }
            }
            if p.pos.cell == pos.cell {
                assert(sides@[k].effect is Some);
                assert(r.0@[k] == sides@[k]);
            }
        }
    }
}

/// What a pickup by one of the entities from index `i` on says of the
/// entities and the powerups it started from.
pub open spec fn pickup_fits(ents: Seq<Entity>, pups: Seq<Powerup>, after: Seq<Entity>, i: int, ev: Event) -> bool {
    ev matches Event::CollectedPowerup { entity, entity_side, powerup } && entity_side < 4 && exists|a: int, q: int|
        i <= a < ents.len() && 0 <= q < pups.len() && #[trigger] ents[a].id == entity && #[trigger] pups[q].id == powerup
            && pups[q].pos.cell == ents[a].pos.cell
            && entity_side as int == facing_side(ents[a].pos.angle, pups[q].pos.angle)
            && ents[a].sides@[entity_side as int].effect is None
            && after[a].sides@[entity_side as int].effect == Some(pups[q].effect)
}

/// Pickups by the entities from index `i` on leave the entities before `i`
/// as they were and move none, and each pickup fits what it started from.
pub proof fn lemma_collect_all_pickups(ents: Seq<Entity>, pups: Seq<Powerup>, i: int)
    requires
        0 <= i <= ents.len(),
    ensures
        ({
            let r = collect_all(ents, pups, i);
            &&& r.0.len() == ents.len()
            &&& forall|a: int| 0 <= a < i ==> r.0[a] == ents[a]
            &&& forall|a: int| 0 <= a < ents.len() ==> (#[trigger] r.0[a]).pos == ents[a].pos && r.0[a].id == ents[a].id
            &&& forall|n: int| 0 <= n < r.2.len() ==> pickup_fits(ents, pups, r.0, i, #[trigger] r.2[n])
        }),
    decreases ents.len() - i,
{
    if i < ents.len() {
        let e = ents[i];
        let c = collect_for(e.id, e.pos, e.sides, pups, 0);
        lemma_pickup_fills_facing_side(e.id, e.pos, e.sides, pups, 0);
        let e2 = Entity { sides: c.0, ..e };
        let ents2 = ents.update(i, e2);
        lemma_collect_all_pickups(ents2, c.1, i + 1);
        let rr = collect_all(ents2, c.1, i + 1);
        let r = collect_all(ents, pups, i);
        assert(r.2 == c.2 + rr.2);
        assert(r.0[i] == e2);
        assert forall|n: int| 0 <= n < r.2.len() implies pickup_fits(ents, pups, r.0, i, #[trigger] r.2[n]) by {
            if n < c.2.len() {
                assert(r.2[n] == c.2[n]);
                if let Event::CollectedPowerup { entity, entity_side, powerup } = c.2[n] {
                    let q = choose|q: int|
                        0 <= q < pups.len() && (#[trigger] pups[q]).id == powerup && pups[q].pos.cell == e.pos.cell
                            && entity_side as int == facing_side(e.pos.angle, pups[q].pos.angle)
                            && e.sides@[entity_side as int].effect is None
                            && c.0@[entity_side as int].effect == Some(pups[q].effect);
                    assert(ents[i].id == entity && pups[q].id == powerup);
                }
            } else {
                assert(r.2[n] == rr.2[n - c.2.len()]);
                assert(pickup_fits(ents2, c.1, rr.0, i + 1, rr.2[n - c.2.len()]));
                if let Event::CollectedPowerup { entity, entity_side, powerup } = rr.2[n - c.2.len()] {
                    let (a, q) = choose|a: int, q: int|
                        i + 1 <= a < ents2.len() && 0 <= q < c.1.len() && #[trigger] ents2[a].id == entity
                            && #[trigger] c.1[q].id == powerup && c.1[q].pos.cell == ents2[a].pos.cell
                            && entity_side as int == facing_side(ents2[a].pos.angle, c.1[q].pos.angle)
                            && ents2[a].sides@[entity_side as int].effect is None
                            && rr.0[a].sides@[entity_side as int].effect == Some(c.1[q].effect);
                    assert(pups.contains(c.1[q]));
                    let w = choose|w: int| 0 <= w < pups.len() && pups[w] == c.1[q];
                    assert(ents[a] == ents2[a]);
                    assert(ents[a].id == entity && pups[w].id == powerup);
                }
            }
        }
    }
}

/// Each pickup names an entity and a powerup that lay in its cell, and the
/// side of the entity facing the powerup's angle: that side was blank, and
/// afterwards holds the powerup's effect. No entity moves.
pub proof fn lemma_pickup_side_faces_powerup(v: GameView)
    ensures
        ({
            let (after, events) = spec_collect(v);
            &&& after.entities.len() == v.entities.len()
            &&& forall|a: int| 0 <= a < v.entities.len() ==> (#[trigger] after.entities[a]).pos == v.entities[a].pos
                && after.entities[a].id == v.entities[a].id
            &&& forall|n: int| 0 <= n < events.len() ==> (#[trigger] events[n] matches Event::CollectedPowerup {
                entity,
                entity_side,
                powerup,
            } && entity_side < 4 && exists|a: int, q: int|
                0 <= a < v.entities.len() && 0 <= q < v.powerups.len() && #[trigger] v.entities[a].id == entity
                    && #[trigger] v.powerups[q].id == powerup && v.powerups[q].pos.cell == v.entities[a].pos.cell
                    && entity_side as int == facing_side(v.entities[a].pos.angle, v.powerups[q].pos.angle)
                    && v.entities[a].sides@[entity_side as int].effect is None
                    && after.entities[a].sides@[entity_side as int].effect == Some(v.powerups[q].effect))
        }),
{
    lemma_collect_all_pickups(v.entities, v.powerups, 0);
}
} // verus!
