use vstd::prelude::*;
use crate::geometry::Vec2;
use crate::id::Id;
use crate::input::Input;
use crate::int_angle::{IntAngle, lemma_rotate_unit, lemma_vec_roundtrip};
use crate::model::{GameView, Entity, GameState};
use crate::moves::{EntityMove, EntityMoveType};
use crate::position::Position;
use crate::seq_util::{first_from, lemma_first_from};
use crate::systems::{is_blocked, spec_is_blocked, spec_override_input};

verus! {

/// Cells of a jump relative to the start, as if it went straight up: two
/// cells up and, when it really goes up, one more cell sideways by `d`.
pub open spec fn jump_offsets(up: bool, d: i32) -> Seq<Vec2> {
    if up {
        seq![Vec2 { x: 0, y: 1 }, Vec2 { x: 0, y: 2 }, Vec2 { x: d, y: 2 }]
    } else {
        seq![Vec2 { x: 0, y: 1 }, Vec2 { x: 0, y: 2 }]
    }
}

/// The step from the previous cell of a jump to each of its cells.
pub open spec fn jump_steps(up: bool, d: i32) -> Seq<Vec2> {
    if up {
        seq![Vec2 { x: 0, y: 1 }, Vec2 { x: 0, y: 1 }, Vec2 { x: d, y: 0 }]
    } else {
        seq![Vec2 { x: 0, y: 1 }, Vec2 { x: 0, y: 1 }]
    }
}

/// The cells that a jump away from side `from` passes, in order.
pub open spec fn jump_path(e: Entity, input: Input, from: IntAngle) -> Seq<Vec2> {
    let jump_to = from.spec_opposite();
    let up = jump_to.norm() == 1;
    let rot = jump_to.spec_sub(IntAngle(1));
    jump_offsets(up, input.spec_delta()).map_values(|p: Vec2| e.pos.cell.spec_plus(rot.spec_rotate_vec(p)))
}

/// A jump off side `from`: the entity travels along the jump path until the
/// first blocked cell. Going up, it turns by the input (that of its last
/// move, if it rolled or turned). Its force is the number of cells it would
/// travel unblocked: 3 going up, else 2. `None` when the first cell is
/// blocked.
pub open spec fn spec_jump(state: GameView, e: Entity, input: Input, from: IntAngle) -> Option<EntityMove> {
    let input = spec_override_input(e, input);
    let jump_to = from.spec_opposite();
    let up = jump_to.norm() == 1;
    let rot = jump_to.spec_sub(IntAngle(1));
    let path = jump_path(e, input, from);
    let steps = jump_steps(up, input.spec_delta());
    let k = match first_from(path, |p: Vec2| spec_is_blocked(state, p), 0) {
        Some(k) => k,
        None => path.len() as int,
    };
    if k == 0 {
        None
    } else {
        Some(EntityMove {
            entity_id: e.id,
            used_input: input,
            start_time: state.current_time,
            end_time: state.current_time.spec_after_turn(),
            prev_pos: e.pos,
            new_pos: Position {
                cell: path[k - 1],
                angle: if up {
                    e.pos.angle.spec_add_input(input)
                } else {
                    e.pos.angle
                },
            },
            move_type: EntityMoveType::Jump {
                from,
                blocked_angle: if k < path.len() {
                    IntAngle::spec_try_from_vec(rot.spec_rotate_vec(steps[k]))
                } else {
                    None
                },
                cells_traveled: k as usize,
                jump_force: path.len() as usize,
            },
        })
    }
}

/// The jump that a jump effect on side `jump_from` causes, if any.
pub fn system(state: &GameState, entity_id: Id, input: Input, jump_from: IntAngle) -> (r: Option<EntityMove>)
    requires
        state@.has_entity(entity_id),
    ensures
        r == spec_jump(state@, state@.entity(entity_id), input, jump_from),
{
    let idx = state.find_entity(entity_id).unwrap();
    let entity = &state.entities[idx];
    let input = entity.maybe_override_input(input);
    let jump_to = jump_from.opposite();
    let up = jump_to.is_up();
    let rot = jump_to.sub_angle(IntAngle::up());
    let d = input.delta();
    let mut offsets: Vec<Vec2> = vec![Vec2::new(0, 1), Vec2::new(0, 2)];
    let mut steps: Vec<Vec2> = vec![Vec2::new(0, 1), Vec2::new(0, 1)];
    if up {
        offsets.push(Vec2::new(d, 2));
        steps.push(Vec2::new(d, 0));
    }
    let ghost path = jump_path(*entity, input, jump_from);
    let ghost pred = |p: Vec2| spec_is_blocked(state@, p);
    proof {
        assert(offsets@ =~= jump_offsets(up, d));
        assert(steps@ =~= jump_steps(up, d));
        lemma_first_from(path, pred, 0);
    }
    let mut new_cell: Option<Vec2> = None;
    let mut cells_traveled: usize = 0;
    let mut blocked_angle: Option<IntAngle> = None;
    let mut i: usize = 0;
    while i < offsets.len()
        invariant_except_break
            i <= offsets.len(),
            cells_traveled == i,
            blocked_angle is None,
            forall|j: int| 0 <= j < i ==> !spec_is_blocked(state@, #[trigger] path[j]),
            i == 0 ==> new_cell is None,
            i > 0 ==> new_cell == Some(path[i - 1]),
        invariant
            offsets@ == jump_offsets(up, d),
            steps@ == jump_steps(up, d),
            path.len() == offsets@.len(),
            path == jump_path(*entity, input, jump_from),
            forall|j: int| 0 <= j < path.len() ==> #[trigger] path[j] == entity.pos.cell.spec_plus(rot.spec_rotate_vec(offsets@[j])),
            rot == jump_to.spec_sub(IntAngle(1)),
            d == input.spec_delta(),
            up == (jump_to.norm() == 1),
            jump_to == jump_from.spec_opposite(),
        ensures
            cells_traveled <= offsets.len(),
            forall|j: int| 0 <= j < cells_traveled ==> !spec_is_blocked(state@, #[trigger] path[j]),
            cells_traveled == 0 ==> new_cell is None,
            cells_traveled > 0 ==> new_cell == Some(path[cells_traveled - 1]),
            cells_traveled < offsets.len() ==> spec_is_blocked(state@, path[cells_traveled as int])
                && blocked_angle == IntAngle::spec_try_from_vec(rot.spec_rotate_vec(steps@[cells_traveled as int])),
            cells_traveled == offsets.len() ==> blocked_angle is None,
        decreases offsets.len() - i,
    {
        let p = entity.pos.cell.plus(rot.rotate_vec(offsets[i]));
        assert(p == path[i as int]);
        if is_blocked(state, p) {
            let step = rot.rotate_vec(steps[i]);
            proof {
                if i == 0 || i == 1 {
                    assert(steps@[i as int] == IntAngle(1).spec_to_vec());
                    lemma_rotate_unit(rot, IntAngle(1));
                    lemma_vec_roundtrip(rot.spec_add(IntAngle(1)));
                } else if d == 1 {
                    assert(steps@[i as int] == IntAngle(0).spec_to_vec());
                    lemma_rotate_unit(rot, IntAngle(0));
                    lemma_vec_roundtrip(rot.spec_add(IntAngle(0)));
                } else if d == -1 {
                    assert(steps@[i as int] == IntAngle(2).spec_to_vec());
                    lemma_rotate_unit(rot, IntAngle(2));
                    lemma_vec_roundtrip(rot.spec_add(IntAngle(2)));
                } else {
                    assert(offsets@[2] == offsets@[1]);
                    assert(path[2] == path[1]);
                    assert(false);
                }
            }
            blocked_angle = Some(IntAngle::from_vec(step));
            break;
        }
        new_cell = Some(p);
        cells_traveled = cells_traveled + 1;
        i = i + 1;
    }
    proof {
        let k = first_from(path, pred, 0);
        if cells_traveled < offsets.len() {
            assert(pred(path[cells_traveled as int]));
            assert(k == Some(cells_traveled as int));
        } else {
            assert(k is None);
        }
    }
    match new_cell {
        Some(cell) => Some(
            EntityMove {
                entity_id: entity.id,
                used_input: input,
                start_time: state.current_time,
                end_time: state.current_time.after_turn(),
                prev_pos: entity.pos,
                new_pos: Position {
                    cell,
                    angle: if up {
                        entity.pos.angle.add_input(input)
                    } else {
                        entity.pos.angle
                    },
                },
                move_type: EntityMoveType::Jump {
                    from: jump_from,
                    blocked_angle,
                    cells_traveled,
                    jump_force: offsets.len(),
                },
            },
        ),
        None => None,
    }
}

} // verus!
