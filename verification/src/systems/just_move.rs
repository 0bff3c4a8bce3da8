use vstd::prelude::*;
use crate::geometry::Vec2;
use crate::id::Id;
use crate::input::Input;
use crate::int_angle::{dir_vec, IntAngle};
use crate::model::{GameView, Entity, GameState};
use crate::moves::{EntityMove, EntityMoveType};
use crate::position::Position;
use crate::seq_util::{first_from, lemma_first_from};
use crate::systems::{is_blocked, spec_is_blocked};
use crate::systems::effects::spec_active_effects;
use crate::systems::magnet::{entity_magneted_angles, magnet_angles_of};

verus! {

/// Whether a magnet holds the entity through its side facing direction `k`
/// (0 to 3).
pub open spec fn magneted(angles: Seq<IntAngle>, k: int) -> bool {
    exists|j: int| 0 <= j < angles.len() && (#[trigger] angles[j]).norm() == k
}

/// Whether the entity can roll around the magnet that holds it from
/// direction `a`, turning by `off` quarter turns (1 counter-clockwise,
/// 3 clockwise): no magnet holds it from where it would go, and that cell is
/// free.
pub open spec fn magnet_candidate(state: GameView, e: Entity, angles: Seq<IntAngle>, off: int, a: int) -> bool {
    0 <= a < 4 && magneted(angles, a) && !magneted(angles, (a + off) % 4) && !spec_is_blocked(
        state,
        e.pos.cell.spec_plus(dir_vec((a + off) % 4)),
    )
}

/// Exactly one magnet direction lets the entity roll.
pub open spec fn unique_candidate(state: GameView, e: Entity, angles: Seq<IntAngle>, off: int) -> bool {
    exists|a: int|
        magnet_candidate(state, e, angles, off, a) && forall|b: int|
            magnet_candidate(state, e, angles, off, b) ==> b == a
}

/// The direction of a roll: the magnet it rolls around, if any, and the step.
pub open spec fn spec_direction(state: GameView, e: Entity, angles: Seq<IntAngle>, off: int, base: Vec2) -> (Option<IntAngle>, Vec2) {
    let ground = spec_is_blocked(state, e.pos.cell.spec_plus(Vec2 { x: 0i32, y: -1i32 }));
    let locked = exists|a: int| 0 <= a < 4 && #[trigger] magneted(angles, a) && magneted(angles, (a + 2) % 4);
    let d = if unique_candidate(state, e, angles, off) {
        let a = choose|a: int| magnet_candidate(state, e, angles, off, a);
        (Some(IntAngle(a as i32)), dir_vec((a + off) % 4))
    } else {
        (None, if ground { base } else { Vec2 { x: 0, y: 0 } })
    };
    if locked {
        (d.0, Vec2 { x: 0, y: 0 })
    } else {
        d
    }
}

/// Index of the first entity standing in `cell`.
pub open spec fn entity_at(state: GameView, cell: Vec2) -> Option<int> {
    first_from(state.entities, |o: Entity| o.pos.cell == cell, 0)
}

/// A roll by the input: sideways on the ground, around a magnet when one
/// holds the entity, or a turn in place when it can go nowhere. A pushable
/// entity in the way is pushed one cell further when that cell is free.
/// The moves are kept one per entity: when the entity in the way is the
/// mover itself (a roll that goes nowhere), its own move is the only one.
/// `None` for `Skip`.
pub open spec fn spec_just_move(state: GameView, e: Entity, input: Input) -> Option<Seq<EntityMove>> {
    if input == Input::Skip {
        None
    } else {
        let angles = magnet_angles_of(spec_active_effects(state, e));
        let direction = if input == Input::Left {
            spec_direction(state, e, angles, 3, Vec2 { x: -1i32, y: 0i32 })
        } else {
            spec_direction(state, e, angles, 1, Vec2 { x: 1i32, y: 0i32 })
        };
        let dir = direction.1;
        let next_cell = e.pos.cell.spec_plus(dir);
        let free = !spec_is_blocked(state, next_cell);
        let pushed = match entity_at(state, next_cell) {
            Some(i) => {
                let ne = state.entities[i];
                let next_next = next_cell.spec_plus(dir);
                if ne.properties.pushable && !spec_is_blocked(state, next_next) {
                    Some(EntityMove {
                        entity_id: ne.id,
                        used_input: Input::Skip,
                        start_time: state.current_time,
                        end_time: state.current_time.spec_after_turn(),
                        prev_pos: ne.pos,
                        new_pos: Position {
                            cell: next_next,
                            angle: ne.pos.angle.spec_with_input(Input::spec_from_sign(dir.x as int)),
                        },
                        move_type: EntityMoveType::Pushed,
                    })
                } else {
                    None
                }
            },
            None => None,
        };
        let own = EntityMove {
            entity_id: e.id,
            used_input: input,
            start_time: state.current_time,
            end_time: state.current_time.spec_after_turn(),
            prev_pos: e.pos,
            new_pos: Position {
                cell: if free || pushed is Some {
                    next_cell
                } else {
                    e.pos.cell
                },
                angle: e.pos.angle.spec_with_input(input),
            },
            move_type: match direction.0 {
                Some(a) => EntityMoveType::Magnet { magnet_angle: a, move_dir: dir },
                None => EntityMoveType::Move,
            },
        };
        match pushed {
            Some(p) => if p.entity_id == e.id {
                Some(seq![own])
            } else {
                Some(seq![p, own])
            },
            None => Some(seq![own]),
        }
    }
}

fn magnet_flags(angles: &Vec<IntAngle>) -> (r: [bool; 4])
    ensures
        forall|k: int| 0 <= k < 4 ==> r@[k] == magneted(angles@, k),
{
    let mut flags = [false, false, false, false];
    let mut i: usize = 0;
    while i < angles.len()
        invariant
            i <= angles.len(),
            flags@.len() == 4,
            forall|k: int|
                0 <= k < 4 ==> flags@[k] == exists|j: int| 0 <= j < i && (#[trigger] angles@[j]).norm() == k,
        decreases angles.len() - i,
    {
        let k = angles[i].normalize().to_i32() as usize;
        flags[k] = true;
        proof {
            assert forall|k2: int| 0 <= k2 < 4 implies flags@[k2] == exists|j: int|
                0 <= j < i + 1 && (#[trigger] angles@[j]).norm() == k2 by {
                if k2 == k as int {
                    assert(angles@[i as int].norm() == k2);
                } else {
                    if exists|j: int| 0 <= j < i + 1 && (#[trigger] angles@[j]).norm() == k2 {
                        let j = choose|j: int| 0 <= j < i + 1 && (#[trigger] angles@[j]).norm() == k2;
                        assert(j < i);
                    }
                }
            }
        }
        i = i + 1;
    }
    flags
}

fn find_direction(state: &GameState, entity: &Entity, flags: &[bool; 4], off: usize, base: Vec2) -> (r: (Option<IntAngle>, Vec2))
    requires
        off == 1 || off == 3,
        flags@.len() == 4,
    ensures
        forall|angles: Seq<IntAngle>|
            (forall|k: int| 0 <= k < 4 ==> flags@[k] == magneted(angles, k)) ==> r == spec_direction(
                state@,
                *entity,
                angles,
                off as int,
                base,
            ),
{
    let ground = is_blocked(state, entity.pos.cell.plus(Vec2::new(0, -1)));
    let mut found: Option<usize> = None;
    let mut second: Option<usize> = None;
    let mut count: usize = 0;
    let mut a: usize = 0;
    while a < 4
        invariant
            a <= 4,
            count <= a,
            flags@.len() == 4,
            off == 1 || off == 3,
            count == 0 ==> found is None,
            found matches Some(f) ==> f < a && flags@[f as int] && !flags@[((f + off) % 4) as int]
                && !spec_is_blocked(state@, entity.pos.cell.spec_plus(dir_vec(((f + off) % 4) as int))),
            count == 1 ==> found is Some,
            count >= 2 ==> (found matches Some(f) && second matches Some(s2) && f != s2 && s2 < a
                && flags@[s2 as int] && !flags@[((s2 + off) % 4) as int] && !spec_is_blocked(
                state@,
                entity.pos.cell.spec_plus(dir_vec(((s2 + off) % 4) as int)),
            )),
            forall|b: int|
                0 <= b < a && #[trigger] flags@[b] && !flags@[(b + off) % 4] && !spec_is_blocked(
                    state@,
                    entity.pos.cell.spec_plus(dir_vec((b + off) % 4)),
                ) ==> (count == 1 ==> found == Some(b as usize)) && count >= 1,
        decreases 4 - a,
    {
        let t = (a + off) % 4;
        if flags[a] && !flags[t] && !is_blocked(state, entity.pos.cell.plus(IntAngle(t as i32).to_vec())) {
            if count == 0 {
                found = Some(a);
            } else if count == 1 {
                second = Some(a);
            }
            count = count + 1;
        }
        a = a + 1;
    }
    let mut locked = false;
    let mut a: usize = 0;
    while a < 4
        invariant
            a <= 4,
            flags@.len() == 4,
            locked == exists|b: int| 0 <= b < a && #[trigger] flags@[b] && flags@[(b + 2) % 4],
        decreases 4 - a,
    {
        if flags[a] && flags[(a + 2) % 4] {
            locked = true;
        }
        a = a + 1;
    }
    let d = if count == 1 {
        let f = found.unwrap();
        (Some(IntAngle(f as i32)), IntAngle(((f + off) % 4) as i32).to_vec())
    } else {
        (None, if ground { base } else { Vec2::zero() })
    };
    let r = if locked {
        (d.0, Vec2::zero())
    } else {
        d
    };
    proof {
        assert forall|angles: Seq<IntAngle>|
            (forall|k: int| 0 <= k < 4 ==> flags@[k] == magneted(angles, k)) implies r == spec_direction(
                state@,
                *entity,
                angles,
                off as int,
                base,
            ) by {
            let o = off as int;
            assert(forall|b: int| 0 <= b < 4 ==> (#[trigger] magnet_candidate(state@, *entity, angles, o, b) <==> (flags@[b]
                && !flags@[(b + o) % 4] && !spec_is_blocked(state@, entity.pos.cell.spec_plus(dir_vec((b + o) % 4))))));
            if count == 1 {
                let f = found.unwrap() as int;
                assert(magnet_candidate(state@, *entity, angles, o, f));
                assert(unique_candidate(state@, *entity, angles, o));
                let c = choose|c: int| magnet_candidate(state@, *entity, angles, o, c);
                assert(c == f);
            } else {
                if unique_candidate(state@, *entity, angles, o) {
                    let c = choose|c: int|
                        magnet_candidate(state@, *entity, angles, o, c) && forall|b: int|
                            magnet_candidate(state@, *entity, angles, o, b) ==> b == c;
                    assert(count >= 1);
                    if count >= 2 {
                        let f = found.unwrap() as int;
                        let s2 = second.unwrap() as int;
                        assert(magnet_candidate(state@, *entity, angles, o, f));
                        assert(magnet_candidate(state@, *entity, angles, o, s2));
                        assert(false);
                    }
                }
            }
            let lockedspec = exists|b: int| 0 <= b < 4 && #[trigger] magneted(angles, b) && magneted(angles, (b + 2) % 4);
            if locked {
                let b = choose|b: int| 0 <= b < 4 && #[trigger] flags@[b] && flags@[(b + 2) % 4];
                assert(magneted(angles, b) && magneted(angles, (b + 2) % 4));
            }
            if lockedspec {
                let b = choose|b: int| 0 <= b < 4 && #[trigger] magneted(angles, b) && magneted(angles, (b + 2) % 4);
                assert(flags@[b] && flags@[(b + 2) % 4]);
            }
            assert(locked == lockedspec);
        }
    }
    r
}

/// The moves of a roll by the input, or `None` for `Skip`.
pub fn system(state: &GameState, entity_id: Id, input: Input) -> (r: Option<Vec<EntityMove>>)
    requires
        state@.has_entity(entity_id),
    ensures
        match spec_just_move(state@, state@.entity(entity_id), input) {
            Some(ms) => r matches Some(v) && v@ == ms,
            None => r is None,
        },
{
    if input == Input::Skip {
        return None;
    }
    let idx = state.find_entity(entity_id).unwrap();
    let entity = &state.entities[idx];
    let angles = entity_magneted_angles(state, entity_id);
    let flags = magnet_flags(&angles);
    let direction = if input == Input::Left {
        find_direction(state, entity, &flags, 3, Vec2::new(-1, 0))
    } else {
        find_direction(state, entity, &flags, 1, Vec2::new(1, 0))
    };
    let dir = direction.1;
    let next_cell = entity.pos.cell.plus(dir);
    let mut new_cell = entity.pos.cell;
    if !is_blocked(state, next_cell) {
        new_cell = next_cell;
    }
    let mut result: Vec<EntityMove> = Vec::new();
    proof {
        lemma_first_from(state.entities@, |o: Entity| o.pos.cell == next_cell, 0);
    }
    let mut i: usize = 0;
    while i < state.entities.len()
        invariant
            i <= state.entities.len(),
            entity_at(state@, next_cell) == first_from(state.entities@, |o: Entity| o.pos.cell == next_cell, i as int),
        ensures
            i <= state.entities.len(),
            entity_at(state@, next_cell) == first_from(state.entities@, |o: Entity| o.pos.cell == next_cell, i as int),
            i < state.entities.len() ==> state.entities@[i as int].pos.cell == next_cell,
        decreases state.entities.len() - i,
    {
        if state.entities[i].pos.cell == next_cell {
            break;
        }
        i = i + 1;
    }
    if i < state.entities.len() {
        let next_entity = &state.entities[i];
        assert(entity_at(state@, next_cell) == Some(i as int));
        if next_entity.properties.pushable {
            let next_next_cell = next_cell.plus(dir);
            if !is_blocked(state, next_next_cell) {
                new_cell = next_cell;
                if next_entity.id != entity.id {
                    result.push(
                        EntityMove {
                            entity_id: next_entity.id,
                            used_input: Input::Skip,
                            start_time: state.current_time,
                            end_time: state.current_time.after_turn(),
                            prev_pos: next_entity.pos,
                            new_pos: Position {
                                cell: next_next_cell,
                                angle: next_entity.pos.angle.with_input(Input::from_sign(dir.x)),
                            },
                            move_type: EntityMoveType::Pushed,
                        },
                    );
                }
            }
        }
    }
    let own = EntityMove {
        entity_id: entity.id,
        used_input: input,
        start_time: state.current_time,
        end_time: state.current_time.after_turn(),
        prev_pos: entity.pos,
        new_pos: Position { cell: new_cell, angle: entity.pos.angle.with_input(input) },
        move_type: match direction.0 {
            Some(magnet_angle) => EntityMoveType::Magnet { magnet_angle, move_dir: dir },
            None => EntityMoveType::Move,
        },
    };
    result.push(own);
    proof {
        let ms = spec_just_move(state@, state@.entity(entity_id), input).unwrap();
        assert(result@ =~= ms);
    }
    Some(result)
}

} // verus!
