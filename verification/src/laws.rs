use vstd::prelude::*;
use vstd::array::spec_array_update;
use crate::id::Id;
use crate::model::{Entity, GameView, Powerup, Side};
use crate::players::{insert_pos_from, key_le, position_from, sorted_players, spec_player_ids, spec_select, spec_selected_player_index};
use crate::systems::powerups::{collect_all, collect_for, spec_collect};

verus! {

/// `key_le` is a total preorder.
proof fn lemma_key_le(a: Option<i32>, b: Option<i32>, c: Option<i32>)
    ensures
        key_le(a, a),
        key_le(a, b) || key_le(b, a),
        key_le(a, b) && key_le(b, c) ==> key_le(a, c),
{
}

pub open spec fn keys_sorted(s: Seq<(Id, Option<i32>)>) -> bool {
    forall|i: int, j: int| 0 <= i < j < s.len() ==> key_le(#[trigger] s[i].1, #[trigger] s[j].1)
}

proof fn lemma_insert_sorted(s: Seq<(Id, Option<i32>)>, x: (Id, Option<i32>))
    requires
        keys_sorted(s),
    ensures
        keys_sorted(s.insert(insert_pos_from(s, x.1, 0), x)),
{
    let p = insert_pos_from(s, x.1, 0);
    lemma_insert_pos(s, x.1, 0);
    let t = s.insert(p, x);
    assert forall|i: int, j: int| 0 <= i < j < t.len() implies key_le(#[trigger] t[i].1, #[trigger] t[j].1) by {
        lemma_key_le(t[i].1, t[j].1, x.1);
        if i < p && j == p {
            lemma_key_le(s[i].1, x.1, x.1);
        } else if i == p && j > p {
            if p < s.len() {
                lemma_key_le(x.1, s[p].1, s[j - 1].1);
            }
        } else if i < p && j > p {
            assert(key_le(s[i].1, s[j - 1].1));
        }
    }
}

/// Where `insert_pos_from` puts a key: every earlier element is not greater,
/// and the element at the position, if any, is greater.
proof fn lemma_insert_pos(s: Seq<(Id, Option<i32>)>, key: Option<i32>, j: int)
    requires
        0 <= j <= s.len(),
        forall|k: int| 0 <= k < j ==> key_le(#[trigger] s[k].1, key),
    ensures
        j <= insert_pos_from(s, key, j) <= s.len(),
        forall|k: int| 0 <= k < insert_pos_from(s, key, j) ==> key_le(#[trigger] s[k].1, key),
        insert_pos_from(s, key, j) < s.len() ==> !key_le(s[insert_pos_from(s, key, j)].1, key),
    decreases s.len() - j,
{
    if j < s.len() && key_le(s[j].1, key) {
        lemma_insert_pos(s, key, j + 1);
    }
}

/// The players come sorted by their index.
pub proof fn lemma_player_order_sorted(ents: Seq<Entity>, n: int)
    requires
        0 <= n <= ents.len(),
    ensures
        keys_sorted(sorted_players(ents, n)),
    decreases n,
{
    if n > 0 {
        lemma_player_order_sorted(ents, n - 1);
        let e = ents[n - 1];
        if e.properties.player {
            lemma_insert_sorted(sorted_players(ents, n - 1), (e.id, e.index));
        }
    }
}

/// Selecting the player at the selected player's position keeps the
/// selection as it is.
pub proof fn lemma_select_selected_index(v: GameView)
    requires
        spec_selected_player_index(v) is Some,
    ensures
        spec_select(v, spec_selected_player_index(v).unwrap()) == v.selected_player,
{
    lemma_position_found(spec_player_ids(v), v.selected_player, 0);
}

/// Each player in the sorted order is a player among the first `n`
/// entities, and no identifier comes twice when the entities' identifiers
/// are distinct.
proof fn lemma_sorted_players_ids(ents: Seq<Entity>, n: int)
    requires
        0 <= n <= ents.len(),
        forall|a: int, b: int| 0 <= a < b < ents.len() ==> (#[trigger] ents[a]).id != (#[trigger] ents[b]).id,
    ensures
        forall|k: int|
            0 <= k < sorted_players(ents, n).len() ==> exists|j: int|
                0 <= j < n && (#[trigger] sorted_players(ents, n)[k]).0 == ents[j].id,
        forall|a: int, b: int|
            0 <= a < b < sorted_players(ents, n).len() ==> (#[trigger] sorted_players(ents, n)[a]).0
                != (#[trigger] sorted_players(ents, n)[b]).0,
    decreases n,
{
    if n > 0 {
        lemma_sorted_players_ids(ents, n - 1);
        let prev = sorted_players(ents, n - 1);
        let e = ents[n - 1];
        if e.properties.player {
            let p = insert_pos_from(prev, e.index, 0);
            lemma_insert_pos(prev, e.index, 0);
            let cur = prev.insert(p, (e.id, e.index));
            assert(cur == sorted_players(ents, n));
            assert forall|k: int| 0 <= k < prev.len() implies (#[trigger] prev[k]).0 != e.id by {
                let j = choose|j: int| 0 <= j < n - 1 && (#[trigger] prev[k]).0 == ents[j].id;
                assert(ents[j].id != ents[n - 1].id);
            }
            assert forall|k: int| 0 <= k < cur.len() implies exists|j: int|
                0 <= j < n && (#[trigger] cur[k]).0 == ents[j].id by {
                if k < p {
                    assert(cur[k] == prev[k]);
                    let j = choose|j: int| 0 <= j < n - 1 && (#[trigger] prev[k]).0 == ents[j].id;
                    assert(cur[k].0 == ents[j].id);
                } else if k == p {
                    assert(cur[k].0 == ents[n - 1].id);
                } else {
                    assert(cur[k] == prev[k - 1]);
                    let j = choose|j: int| 0 <= j < n - 1 && (#[trigger] prev[k - 1]).0 == ents[j].id;
                    assert(cur[k].0 == ents[j].id);
                }
            }
            assert forall|a: int, b: int| 0 <= a < b < cur.len() implies (#[trigger] cur[a]).0 != (#[trigger] cur[b]).0 by {
                if a < p && b < p {
                    assert(cur[a] == prev[a] && cur[b] == prev[b]);
                } else if a < p && b == p {
                    assert(cur[a] == prev[a]);
                } else if a < p && b > p {
                    assert(cur[a] == prev[a] && cur[b] == prev[b - 1]);
                } else if a == p {
                    assert(cur[b] == prev[b - 1]);
                } else {
                    assert(cur[a] == prev[a - 1] && cur[b] == prev[b - 1]);
                }
            }
        }
    }
}

/// The players among the first `n` entities, with their indices, in the
/// order of the entities.
pub open spec fn player_keys(ents: Seq<Entity>, n: int) -> Seq<(Id, Option<i32>)>
    decreases n,
{
    if n <= 0 {
        seq![]
    } else if ents[n - 1].properties.player {
        player_keys(ents, n - 1).push((ents[n - 1].id, ents[n - 1].index))
    } else {
        player_keys(ents, n - 1)
    }
}

/// The position of the entity with identifier `id`.
pub open spec fn entity_pos(ents: Seq<Entity>, id: Id) -> int {
    choose|k: int| 0 <= k < ents.len() && ents[k].id == id
}

/// The player order holds each player once, and players with equal indices
/// keep the order of their entities.
pub proof fn lemma_player_order_stable(ents: Seq<Entity>, n: int)
    requires
        0 <= n <= ents.len(),
        forall|a: int, b: int| 0 <= a < b < ents.len() ==> (#[trigger] ents[a]).id != (#[trigger] ents[b]).id,
    ensures
        sorted_players(ents, n).to_multiset() == player_keys(ents, n).to_multiset(),
        forall|i: int, j: int|
            0 <= i < j < sorted_players(ents, n).len() && (#[trigger] sorted_players(ents, n)[i]).1
                == (#[trigger] sorted_players(ents, n)[j]).1 ==> entity_pos(ents, sorted_players(ents, n)[i].0)
                < entity_pos(ents, sorted_players(ents, n)[j].0),
        forall|k: int|
            0 <= k < sorted_players(ents, n).len() ==> 0 <= #[trigger] entity_pos(ents, sorted_players(ents, n)[k].0) < n
                && ents[entity_pos(ents, sorted_players(ents, n)[k].0)].id == sorted_players(ents, n)[k].0,
    decreases n,
{
    broadcast use vstd::seq_lib::group_to_multiset_ensures;

    lemma_sorted_players_ids(ents, n);
    if n > 0 {
        lemma_player_order_stable(ents, n - 1);
        lemma_sorted_players_ids(ents, n - 1);
        let prev = sorted_players(ents, n - 1);
        let e = ents[n - 1];
        if e.properties.player {
            lemma_insert_pos(prev, e.index, 0);
            let p = insert_pos_from(prev, e.index, 0);
            let cur = prev.insert(p, (e.id, e.index));
            assert(cur == sorted_players(ents, n));
            vstd::seq_lib::to_multiset_insert(prev, p, (e.id, e.index));
            assert(ents[n - 1].id == e.id);
            let pe = entity_pos(ents, e.id);
            assert(pe == n - 1) by {
                if pe != n - 1 {
                    assert(ents[pe].id == ents[n - 1].id);
                }
            }
            assert forall|k: int| 0 <= k < cur.len() implies 0 <= #[trigger] entity_pos(ents, cur[k].0) < n
                && ents[entity_pos(ents, cur[k].0)].id == cur[k].0 by {
                if k == p {
                } else {
                    let q = if k < p { k } else { k - 1 };
                    assert(cur[k] == prev[q]);
                }
            }
            assert forall|i: int, j: int|
                0 <= i < j < cur.len() && (#[trigger] cur[i]).1 == (#[trigger] cur[j]).1 implies entity_pos(ents, cur[i].0)
                < entity_pos(ents, cur[j].0) by {
                if j < p {
                    assert(cur[i] == prev[i] && cur[j] == prev[j]);
                } else if j == p {
                    assert(cur[i] == prev[i]);
                } else if i < p {
                    assert(cur[i] == prev[i] && cur[j] == prev[j - 1]);
                } else if i == p {
                    assert(cur[j] == prev[j - 1]);
                    assert(key_le(prev[j - 1].1, e.index));
                    lemma_player_order_sorted(ents, n - 1);
                    assert(key_le(prev[p].1, prev[j - 1].1) || p == j - 1);
                    assert(!key_le(prev[p].1, e.index));
                    lemma_key_le(prev[p].1, prev[j - 1].1, e.index);
                } else {
                    assert(cur[i] == prev[i - 1] && cur[j] == prev[j - 1]);
                }
            }
        } else {
            assert(sorted_players(ents, n) == prev);
        }
    }
}

proof fn lemma_position_of_distinct(ids: Seq<Id>, i: int, j: int)
    requires
        0 <= j <= i < ids.len(),
        forall|a: int, b: int| 0 <= a < b < ids.len() ==> (#[trigger] ids[a]) != (#[trigger] ids[b]),
    ensures
        position_from(ids, Some(ids[i]), j) == Some(i),
    decreases i - j,
{
    if j < i {
        assert(ids[j] != ids[i]);
        lemma_position_of_distinct(ids, i, j + 1);
    }
}

/// When identifiers are distinct, selecting the player at position `i`
/// makes `i` the selected player's position.
pub proof fn lemma_select_then_index(v: GameView, i: int)
    requires
        forall|a: int, b: int| 0 <= a < b < v.entities.len() ==> (#[trigger] v.entities[a]).id != (#[trigger] v.entities[b]).id,
        0 <= i < spec_player_ids(v).len(),
    ensures
        spec_selected_player_index(GameView { selected_player: spec_select(v, i), ..v }) == Some(i),
{
    let n = v.entities.len() as int;
    lemma_sorted_players_ids(v.entities, n);
    let sorted = sorted_players(v.entities, n);
    let ids = spec_player_ids(v);
    assert forall|a: int, b: int| 0 <= a < b < ids.len() implies (#[trigger] ids[a]) != (#[trigger] ids[b]) by {
        assert(ids[a] == sorted[a].0 && ids[b] == sorted[b].0);
    }
    lemma_position_of_distinct(ids, i, 0);
}

proof fn lemma_position_found(ids: Seq<Id>, selected: Option<Id>, j: int)
    requires
        0 <= j,
        position_from(ids, selected, j) is Some,
    ensures
        ({
            let k = position_from(ids, selected, j).unwrap();
            j <= k < ids.len() && Some(ids[k]) == selected
        }),
    decreases ids.len() - j,
{
    if j < ids.len() && Some(ids[j]) != selected {
        lemma_position_found(ids, selected, j + 1);
    }
}

/// The number of sides of a box that carry an effect.
pub open spec fn filled_sides(sides: [Side; 4]) -> int {
    (if sides@[0].effect is Some { 1int } else { 0 }) + (if sides@[1].effect is Some { 1int } else { 0 }) + (
    if sides@[2].effect is Some { 1int } else { 0 }) + (if sides@[3].effect is Some { 1int } else { 0 })
}

/// The number of sides of the first `n` entities that carry an effect.
pub open spec fn filled_count(ents: Seq<Entity>, n: int) -> int
    decreases n,
{
    if n <= 0 {
        0
    } else {
        filled_count(ents, n - 1) + filled_sides(ents[n - 1].sides)
    }
}

proof fn lemma_collect_for_conserves(id: Id, pos: crate::position::Position, sides: [Side; 4], pups: Seq<Powerup>, j: int)
    requires
        0 <= j,
    ensures
        ({
            let r = collect_for(id, pos, sides, pups, j);
            r.1.len() + filled_sides(r.0) == pups.len() + filled_sides(sides) && r.1.len() + r.2.len() == pups.len()
        }),
    decreases pups.len() - j,
{
    if j < pups.len() {
        let p = pups[j];
        let k = crate::model::spec_side_index(pos.angle, p.pos.angle);
        if p.pos.cell == pos.cell && sides@[k].effect is None {
            let s2 = spec_array_update(sides, k, Side { effect: Some(p.effect) });
            assert(s2@ == sides@.update(k, Side { effect: Some(p.effect) }));
            lemma_collect_for_conserves(id, pos, s2, pups.remove(j), j);
        } else {
            lemma_collect_for_conserves(id, pos, sides, pups, j + 1);
        }
    }
}

proof fn lemma_filled_count_update(ents: Seq<Entity>, i: int, e: Entity, n: int)
    requires
        0 <= i < ents.len(),
        0 <= n <= ents.len(),
    ensures
        filled_count(ents.update(i, e), n) == filled_count(ents, n) + if i < n {
            filled_sides(e.sides) - filled_sides(ents[i].sides)
        } else {
            0
        },
    decreases n,
{
    if n > 0 {
        lemma_filled_count_update(ents, i, e, n - 1);
    }
}

proof fn lemma_collect_all_conserves(ents: Seq<Entity>, pups: Seq<Powerup>, i: int)
    requires
        0 <= i <= ents.len(),
    ensures
        ({
            let r = collect_all(ents, pups, i);
            &&& r.0.len() == ents.len()
            &&& r.1.len() + filled_count(r.0, ents.len() as int) == pups.len() + filled_count(ents, ents.len() as int)
            &&& r.1.len() + r.2.len() == pups.len()
        }),
    decreases ents.len() - i,
{
    if i < ents.len() {
        let e = ents[i];
        let c = collect_for(e.id, e.pos, e.sides, pups, 0);
        lemma_collect_for_conserves(e.id, e.pos, e.sides, pups, 0);
        let e2 = Entity { sides: c.0, ..e };
        lemma_filled_count_update(ents, i, e2, ents.len() as int);
        lemma_collect_all_conserves(ents.update(i, e2), c.1, i + 1);
    }
}

/// Picking up powerups only moves effects from powerups onto sides of
/// boxes: the number of powerups plus the number of sides that carry an
/// effect stays the same, one pickup event per powerup picked up, and the
/// entities stay the same in number.
pub proof fn lemma_collect_conserves_effects(v: GameView)
    ensures
        ({
            let (w, events) = spec_collect(v);
            &&& w.entities.len() == v.entities.len()
            &&& w.powerups.len() + filled_count(w.entities, w.entities.len() as int) == v.powerups.len()
                + filled_count(v.entities, v.entities.len() as int)
            &&& w.powerups.len() + events.len() == v.powerups.len()
            &&& w.goals == v.goals
            &&& w.selected_player == v.selected_player
        }),
{
    lemma_collect_all_conserves(v.entities, v.powerups, 0);
}

} // verus!

verus! {

use crate::model::Goal;
use crate::moves::EntityMove;
use crate::systems::turn::{apply_all, apply_move, reset_prev, spec_step, settle, spec_process_turn};
use crate::model::ContinueConfig;
use crate::input::Input;
use crate::seq_util::{first_from, lemma_first_from};

proof fn lemma_apply_move_shrinks(ents: Seq<Entity>, goals: Seq<Goal>, m: EntityMove)
    ensures
        apply_move(ents, goals, m).0.len() <= ents.len(),
        apply_move(ents, goals, m).1.len() <= goals.len(),
{
    lemma_first_from(ents, |e: Entity| e.id == m.entity_id, 0);
    match m.move_type {
        crate::moves::EntityMoveType::EnterGoal { goal_id } => {
            lemma_first_from(goals, |g: Goal| g.id == goal_id, 0);
        },
        _ => {},
    }
}

proof fn lemma_apply_all_shrinks(ents: Seq<Entity>, goals: Seq<Goal>, ms: Seq<EntityMove>, i: int)
    ensures
        apply_all(ents, goals, ms, i).0.len() <= ents.len(),
        apply_all(ents, goals, ms, i).1.len() <= goals.len(),
    decreases ms.len() - i,
{
    if 0 <= i < ms.len() {
        let r = apply_move(ents, goals, ms[i]);
        lemma_apply_move_shrinks(ents, goals, ms[i]);
        lemma_apply_all_shrinks(r.0, r.1, ms, i + 1);
    }
}

/// A step never adds anything: entities, powerups and goals only leave the
/// level; identifiers handed out and the selection stay as they were; no
/// cell stays reserved.
pub proof fn lemma_step_never_adds(v: GameView, cfg: ContinueConfig, inputs: Seq<(Id, Input)>)
    ensures
        ({
            let w = spec_step(v, cfg, inputs).0;
            &&& w.entities.len() <= v.entities.len()
            &&& w.powerups.len() <= v.powerups.len()
            &&& w.goals.len() <= v.goals.len()
            &&& w.next_id == v.next_id
            &&& w.selected_player == v.selected_player
            &&& w.reserved.len() == 0
        }),
{
    reveal(spec_step);
    lemma_collect_conserves_effects(v);
    let v1 = spec_collect(v).0;
    let p = crate::systems::turn::plan_from(GameView { reserved: seq![], ..v1 }, cfg, inputs, 0, seq![]);
    lemma_apply_all_shrinks(reset_prev(v1.entities), v1.goals, crate::systems::turn::end_order(p.1), 0);
}

/// A finished game stays finished: a step removes goals but never adds one.
pub proof fn lemma_finished_stays_finished(v: GameView, cfg: ContinueConfig, inputs: Seq<(Id, Input)>)
    requires
        v.goals.len() == 0,
    ensures
        spec_step(v, cfg, inputs).0.goals.len() == 0,
{
    lemma_step_never_adds(v, cfg, inputs);
}

proof fn lemma_settle_never_adds(v: GameView, cfg: ContinueConfig, fuel: nat)
    ensures
        settle(v, cfg, fuel).0.goals.len() <= v.goals.len(),
        settle(v, cfg, fuel).0.entities.len() <= v.entities.len(),
        settle(v, cfg, fuel).0.selected_player == v.selected_player,
    decreases fuel,
{
    if fuel > 0 && !v.stable {
        let s = spec_step(v, cfg, seq![]);
        lemma_step_never_adds(v, cfg, seq![]);
        lemma_settle_never_adds(s.0, cfg, (fuel - 1) as nat);
    }
}

/// A turn never adds goals or entities, and keeps the selection.
pub proof fn lemma_turn_never_adds(v: GameView, cfg: ContinueConfig, input: Input)
    ensures
        spec_process_turn(v, cfg, input).0.goals.len() <= v.goals.len(),
        spec_process_turn(v, cfg, input).0.entities.len() <= v.entities.len(),
        spec_process_turn(v, cfg, input).0.selected_player == v.selected_player,
{
    let s = spec_step(v, cfg, crate::systems::turn::turn_inputs(v, input));
    lemma_step_never_adds(v, cfg, crate::systems::turn::turn_inputs(v, input));
    lemma_settle_never_adds(s.0, cfg, crate::systems::turn::MAX_TURN_STEPS as nat);
}

/// Settling a stable game changes nothing.
pub proof fn lemma_settle_stable(v: GameView, cfg: ContinueConfig, fuel: nat)
    requires
        v.stable,
    ensures
        settle(v, cfg, fuel) == (v, Seq::<crate::moves::Event>::empty()),
{
}

} // verus!

verus! {

/// No two entities share an identifier, and each was handed out already.
pub open spec fn entity_ids_ok(s: Seq<Entity>, next: u64) -> bool {
    &&& forall|i: int, j: int| 0 <= i < j < s.len() ==> (#[trigger] s[i]).id != (#[trigger] s[j]).id
    &&& forall|i: int| 0 <= i < s.len() ==> (#[trigger] s[i]).id.spec_raw() < next
}

pub open spec fn powerup_ids_ok(s: Seq<Powerup>, next: u64) -> bool {
    &&& forall|i: int, j: int| 0 <= i < j < s.len() ==> (#[trigger] s[i]).id != (#[trigger] s[j]).id
    &&& forall|i: int| 0 <= i < s.len() ==> (#[trigger] s[i]).id.spec_raw() < next
}

pub open spec fn goal_ids_ok(s: Seq<Goal>, next: u64) -> bool {
    &&& forall|i: int, j: int| 0 <= i < j < s.len() ==> (#[trigger] s[i]).id != (#[trigger] s[j]).id
    &&& forall|i: int| 0 <= i < s.len() ==> (#[trigger] s[i]).id.spec_raw() < next
}

/// Identifiers are unique within each kind of object, and all of them were
/// handed out by the state's generator.
pub open spec fn ids_ok(v: GameView) -> bool {
    &&& entity_ids_ok(v.entities, v.next_id)
    &&& powerup_ids_ok(v.powerups, v.next_id)
    &&& goal_ids_ok(v.goals, v.next_id)
}

proof fn lemma_entity_remove(s: Seq<Entity>, k: int, next: u64)
    requires
        entity_ids_ok(s, next),
        0 <= k < s.len(),
    ensures
        entity_ids_ok(s.remove(k), next),
{
    let t = s.remove(k);
    assert forall|i: int, j: int| 0 <= i < j < t.len() implies (#[trigger] t[i]).id != (#[trigger] t[j]).id by {
        let i2 = if i < k { i } else { i + 1 };
        let j2 = if j < k { j } else { j + 1 };
        assert(t[i] == s[i2] && t[j] == s[j2]);
    }
    assert forall|i: int| 0 <= i < t.len() implies (#[trigger] t[i]).id.spec_raw() < next by {
        let i2 = if i < k { i } else { i + 1 };
        assert(t[i] == s[i2]);
    }
}

proof fn lemma_powerup_remove(s: Seq<Powerup>, k: int, next: u64)
    requires
        powerup_ids_ok(s, next),
        0 <= k < s.len(),
    ensures
        powerup_ids_ok(s.remove(k), next),
{
    let t = s.remove(k);
    assert forall|i: int, j: int| 0 <= i < j < t.len() implies (#[trigger] t[i]).id != (#[trigger] t[j]).id by {
        let i2 = if i < k { i } else { i + 1 };
        let j2 = if j < k { j } else { j + 1 };
        assert(t[i] == s[i2] && t[j] == s[j2]);
    }
    assert forall|i: int| 0 <= i < t.len() implies (#[trigger] t[i]).id.spec_raw() < next by {
        let i2 = if i < k { i } else { i + 1 };
        assert(t[i] == s[i2]);
    }
}

proof fn lemma_goal_remove(s: Seq<Goal>, k: int, next: u64)
    requires
        goal_ids_ok(s, next),
        0 <= k < s.len(),
    ensures
        goal_ids_ok(s.remove(k), next),
{
    let t = s.remove(k);
    assert forall|i: int, j: int| 0 <= i < j < t.len() implies (#[trigger] t[i]).id != (#[trigger] t[j]).id by {
        let i2 = if i < k { i } else { i + 1 };
        let j2 = if j < k { j } else { j + 1 };
        assert(t[i] == s[i2] && t[j] == s[j2]);
    }
    assert forall|i: int| 0 <= i < t.len() implies (#[trigger] t[i]).id.spec_raw() < next by {
        let i2 = if i < k { i } else { i + 1 };
        assert(t[i] == s[i2]);
    }
}

proof fn lemma_collect_for_ids(id: Id, pos: crate::position::Position, sides: [Side; 4], pups: Seq<Powerup>, j: int, next: u64)
    requires
        0 <= j,
        powerup_ids_ok(pups, next),
    ensures
        powerup_ids_ok(collect_for(id, pos, sides, pups, j).1, next),
    decreases pups.len() - j,
{
    if j < pups.len() {
        let p = pups[j];
        let k = crate::model::spec_side_index(pos.angle, p.pos.angle);
        if p.pos.cell == pos.cell && sides@[k].effect is None {
            lemma_powerup_remove(pups, j, next);
            lemma_collect_for_ids(id, pos, spec_array_update(sides, k, Side { effect: Some(p.effect) }), pups.remove(j), j, next);
        } else {
            lemma_collect_for_ids(id, pos, sides, pups, j + 1, next);
        }
    }
}

proof fn lemma_collect_all_ids(ents: Seq<Entity>, pups: Seq<Powerup>, i: int, next: u64)
    requires
        0 <= i <= ents.len(),
        powerup_ids_ok(pups, next),
    ensures
        powerup_ids_ok(collect_all(ents, pups, i).1, next),
        collect_all(ents, pups, i).0.len() == ents.len(),
        forall|k: int| 0 <= k < ents.len() ==> (#[trigger] collect_all(ents, pups, i).0[k]).id == ents[k].id
            && collect_all(ents, pups, i).0[k].pos == ents[k].pos && collect_all(ents, pups, i).0[k].properties
            == ents[k].properties,
    decreases ents.len() - i,
{
    if i < ents.len() {
        let e = ents[i];
        let c = collect_for(e.id, e.pos, e.sides, pups, 0);
        lemma_collect_for_ids(e.id, e.pos, e.sides, pups, 0, next);
        let e2 = Entity { sides: c.0, ..e };
        lemma_collect_all_ids(ents.update(i, e2), c.1, i + 1, next);
    }
}

proof fn lemma_apply_move_ids(ents: Seq<Entity>, goals: Seq<Goal>, m: EntityMove, next: u64)
    requires
        entity_ids_ok(ents, next),
        goal_ids_ok(goals, next),
    ensures
        entity_ids_ok(apply_move(ents, goals, m).0, next),
        goal_ids_ok(apply_move(ents, goals, m).1, next),
{
    lemma_first_from(ents, |e: Entity| e.id == m.entity_id, 0);
    match first_from(ents, |e: Entity| e.id == m.entity_id, 0) {
        None => {},
        Some(k) => {
            match m.move_type {
                crate::moves::EntityMoveType::EnterGoal { goal_id } => {
                    lemma_entity_remove(ents, k, next);
                    lemma_first_from(goals, |g: Goal| g.id == goal_id, 0);
                    match first_from(goals, |g: Goal| g.id == goal_id, 0) {
                        Some(gk) => lemma_goal_remove(goals, gk, next),
                        None => {},
                    }
                },
                _ => {
                    let t = apply_move(ents, goals, m).0;
                    assert forall|i: int, j: int| 0 <= i < j < t.len() implies (#[trigger] t[i]).id != (#[trigger] t[j]).id by {
                        assert(t[i].id == ents[i].id && t[j].id == ents[j].id);
                    }
                    assert forall|i: int| 0 <= i < t.len() implies (#[trigger] t[i]).id.spec_raw() < next by {
                        assert(t[i].id == ents[i].id);
                    }
                },
            }
        },
    }
}

proof fn lemma_apply_all_ids(ents: Seq<Entity>, goals: Seq<Goal>, ms: Seq<EntityMove>, i: int, next: u64)
    requires
        entity_ids_ok(ents, next),
        goal_ids_ok(goals, next),
    ensures
        entity_ids_ok(apply_all(ents, goals, ms, i).0, next),
        goal_ids_ok(apply_all(ents, goals, ms, i).1, next),
    decreases ms.len() - i,
{
    if 0 <= i < ms.len() {
        let r = apply_move(ents, goals, ms[i]);
        lemma_apply_move_ids(ents, goals, ms[i], next);
        lemma_apply_all_ids(r.0, r.1, ms, i + 1, next);
    }
}

/// A step keeps identifiers unique and handed out.
pub proof fn lemma_step_keeps_ids(v: GameView, cfg: ContinueConfig, inputs: Seq<(Id, Input)>)
    requires
        ids_ok(v),
    ensures
        ids_ok(spec_step(v, cfg, inputs).0),
{
    reveal(spec_step);
    let c = collect_all(v.entities, v.powerups, 0);
    lemma_collect_all_ids(v.entities, v.powerups, 0, v.next_id);
    let v1 = spec_collect(v).0;
    assert(entity_ids_ok(v1.entities, v.next_id)) by {
        assert forall|i: int, j: int| 0 <= i < j < v1.entities.len() implies (#[trigger] v1.entities[i]).id != (#[trigger] v1.entities[j]).id by {
            assert(c.0[i].id == v.entities[i].id);
            assert(c.0[j].id == v.entities[j].id);
        }
        assert forall|i: int| 0 <= i < v1.entities.len() implies (#[trigger] v1.entities[i]).id.spec_raw() < v.next_id by {
            assert(c.0[i].id == v.entities[i].id);
        }
    }
    let r = reset_prev(v1.entities);
    assert(entity_ids_ok(r, v.next_id)) by {
        assert forall|i: int, j: int| 0 <= i < j < r.len() implies (#[trigger] r[i]).id != (#[trigger] r[j]).id by {
            assert(r[i].id == v1.entities[i].id && r[j].id == v1.entities[j].id);
        }
        assert forall|i: int| 0 <= i < r.len() implies (#[trigger] r[i]).id.spec_raw() < v.next_id by {
            assert(r[i].id == v1.entities[i].id);
        }
    }
    let p = crate::systems::turn::plan_from(GameView { reserved: seq![], ..v1 }, cfg, inputs, 0, seq![]);
    lemma_apply_all_ids(r, v1.goals, crate::systems::turn::end_order(p.1), 0, v.next_id);
}

} // verus!

verus! {

use crate::systems::turn::{plan_from, spec_check_entity_move, input_for, has_planned, conflicts, move_cells};
use crate::systems::effects::{first_effect_move, spec_apply};
use crate::systems::just_move::{entity_at, spec_just_move};

/// A move moves `e` itself or pushes an entity of `v` that can be pushed.
pub open spec fn own_or_push(v: GameView, e: Entity, m: EntityMove) -> bool {
    m.entity_id == e.id || exists|q: int|
        0 <= q < v.entities.len() && (#[trigger] v.entities[q]).id == m.entity_id && v.entities[q].properties.pushable
}

proof fn lemma_effect_moves_own(v: GameView, e: Entity, input: Input, effects: Seq<(crate::int_angle::IntAngle, crate::model::Effect)>, i: int)
    ensures
        first_effect_move(v, e, input, effects, i) matches Some(m) ==> m.entity_id == e.id,
    decreases effects.len() - i,
{
    if 0 <= i < effects.len() {
        lemma_effect_moves_own(v, e, input, effects, i + 1);
    }
}

proof fn lemma_check_moves(v: GameView, cfg: ContinueConfig, e: Entity, input: Input)
    ensures
        spec_check_entity_move(v, cfg, e, input) matches Some(ms) ==> forall|k: int|
            0 <= k < ms.len() ==> own_or_push(v, e, #[trigger] ms[k]),
{
    lemma_effect_moves_own(v, e, input, crate::systems::effects::spec_active_effects(v, e), 0);
    let sm = spec_just_move(v, e, input);
    if input != Input::Skip {
        let angles = crate::systems::magnet::magnet_angles_of(crate::systems::effects::spec_active_effects(v, e));
        let direction = if input == Input::Left {
            crate::systems::just_move::spec_direction(v, e, angles, 3, crate::geometry::Vec2 { x: -1i32, y: 0i32 })
        } else {
            crate::systems::just_move::spec_direction(v, e, angles, 1, crate::geometry::Vec2 { x: 1i32, y: 0i32 })
        };
        let next_cell = e.pos.cell.spec_plus(direction.1);
        lemma_first_from(v.entities, |o: Entity| o.pos.cell == next_cell, 0);
        match entity_at(v, next_cell) {
            Some(q) => {
                assert(0 <= q < v.entities.len());
            },
            None => {},
        }
    }
}

proof fn lemma_plan_spares(v: GameView, cfg: ContinueConfig, inputs: Seq<(Id, Input)>, i: int, planned: Seq<EntityMove>, j: int)
    requires
        entity_ids_ok(v.entities, v.next_id),
        0 <= j < v.entities.len(),
        v.entities[j].properties.is_static,
        !v.entities[j].properties.pushable,
        0 <= i,
        forall|k: int| 0 <= k < planned.len() ==> (#[trigger] planned[k]).entity_id != v.entities[j].id,
    ensures
        forall|k: int|
            0 <= k < plan_from(v, cfg, inputs, i, planned).1.len() ==> (#[trigger] plan_from(v, cfg, inputs, i, planned).1[k]).entity_id
                != v.entities[j].id,
    decreases v.entities.len() - i,
{
    if i < v.entities.len() {
        let e = v.entities[i];
        if e.properties.is_static || has_planned(planned, e.id) {
            lemma_plan_spares(v, cfg, inputs, i + 1, planned, j);
        } else {
            lemma_first_from(v.entities, |o: Entity| o.id == e.id, 0);
            let ei = v.entity_index(e.id).unwrap();
            assert(ei == i) by {
                if ei != i {
                    assert(v.entities[ei].id == v.entities[i].id);
                }
            }
            let ve = v.entity(e.id);
            assert(ve == e);
            match spec_check_entity_move(v, cfg, ve, input_for(inputs, e.id)) {
                Some(ms) => if conflicts(planned, ms) {
                    lemma_plan_spares(v, cfg, inputs, i + 1, planned, j);
                } else {
                    lemma_check_moves(v, cfg, ve, input_for(inputs, e.id));
                    let v2 = GameView { reserved: v.reserved + move_cells(ms), ..v };
                    let p2 = planned + ms;
                    assert forall|k: int| 0 <= k < p2.len() implies (#[trigger] p2[k]).entity_id != v.entities[j].id by {
                        if k >= planned.len() {
                            let m = ms[k - planned.len()];
                            assert(own_or_push(v, e, m));
                            if m.entity_id == e.id {
                                assert(i != j);
                            } else {
                                let q = choose|q: int|
                                    0 <= q < v.entities.len() && (#[trigger] v.entities[q]).id == m.entity_id
                                        && v.entities[q].properties.pushable;
                                assert(q != j);
                            }
                        }
                    }
                    lemma_plan_spares(v2, cfg, inputs, i + 1, p2, j);
                },
                None => lemma_plan_spares(v, cfg, inputs, i + 1, planned, j),
            }
        }
    }
}

/// Some entity has identifier `id`, stands at `pos` and has properties
/// `props`.
pub open spec fn stands(ents: Seq<Entity>, id: Id, pos: crate::position::Position, props: crate::model::Properties) -> bool {
    exists|k: int| 0 <= k < ents.len() && (#[trigger] ents[k]).id == id && ents[k].pos == pos && ents[k].properties == props
}

proof fn lemma_apply_spares(
    ents: Seq<Entity>,
    goals: Seq<Goal>,
    ms: Seq<EntityMove>,
    i: int,
    id: Id,
    pos: crate::position::Position,
    props: crate::model::Properties,
)
    requires
        stands(ents, id, pos, props),
        forall|k: int| 0 <= k < ms.len() ==> (#[trigger] ms[k]).entity_id != id,
    ensures
        stands(apply_all(ents, goals, ms, i).0, id, pos, props),
    decreases ms.len() - i,
{
    if 0 <= i < ms.len() {
        let m = ms[i];
        let s = choose|k: int|
            0 <= k < ents.len() && (#[trigger] ents[k]).id == id && ents[k].pos == pos && ents[k].properties == props;
        lemma_first_from(ents, |e: Entity| e.id == m.entity_id, 0);
        let r = apply_move(ents, goals, m);
        assert(stands(r.0, id, pos, props)) by {
            match first_from(ents, |e: Entity| e.id == m.entity_id, 0) {
                None => {
                    assert(r.0[s].id == id);
                },
                Some(k) => {
                    assert(k != s);
                    match m.move_type {
                        crate::moves::EntityMoveType::EnterGoal { goal_id } => {
                            let t = if s < k { s } else { s - 1 };
                            assert(r.0[t] == ents[s]);
                        },
                        _ => {
                            assert(r.0[s] == ents[s]);
                        },
                    }
                },
            }
        }
        lemma_apply_spares(r.0, r.1, ms, i + 1, id, pos, props);
    }
}

/// A static entity that cannot be pushed stays where it stands through a
/// step: no rule moves it, and it does not leave the level.
pub proof fn lemma_static_stays(v: GameView, cfg: ContinueConfig, inputs: Seq<(Id, Input)>, j: int)
    requires
        ids_ok(v),
        0 <= j < v.entities.len(),
        v.entities[j].properties.is_static,
        !v.entities[j].properties.pushable,
    ensures
        stands(
            spec_step(v, cfg, inputs).0.entities,
            v.entities[j].id,
            v.entities[j].pos,
            v.entities[j].properties,
        ),
{
    reveal(spec_step);
    let c = collect_all(v.entities, v.powerups, 0);
    lemma_collect_all_ids(v.entities, v.powerups, 0, v.next_id);
    let v1 = spec_collect(v).0;
    let sid = v.entities[j].id;
    assert(v1.entities[j].id == sid && v1.entities[j].pos == v.entities[j].pos);
    assert(v1.entities[j].properties == v.entities[j].properties);
    assert(entity_ids_ok(v1.entities, v.next_id)) by {
        assert forall|a: int, b: int| 0 <= a < b < v1.entities.len() implies (#[trigger] v1.entities[a]).id
            != (#[trigger] v1.entities[b]).id by {
            assert(c.0[a].id == v.entities[a].id);
            assert(c.0[b].id == v.entities[b].id);
        }
        assert forall|a: int| 0 <= a < v1.entities.len() implies (#[trigger] v1.entities[a]).id.spec_raw() < v.next_id by {
            assert(c.0[a].id == v.entities[a].id);
        }
    }
    let v2 = GameView { reserved: seq![], ..v1 };
    lemma_plan_spares(v2, cfg, inputs, 0, seq![], j);
    let p = plan_from(v2, cfg, inputs, 0, seq![]);
    let r = reset_prev(v1.entities);
    assert(r[j].id == sid && r[j].pos == v.entities[j].pos && r[j].properties == v.entities[j].properties);
    let ending = crate::systems::turn::end_order(p.1);
    crate::systems::turn::lemma_end_order_elems(p.1, p.1.len() as int);
    assert forall|k: int| 0 <= k < ending.len() implies (#[trigger] ending[k]).entity_id != sid by {
        let q = choose|q: int| 0 <= q < p.1.len() && ending[k] == p.1[q];
        assert(p.1[q].entity_id != sid);
    }
    lemma_apply_spares(r, v1.goals, ending, 0, sid, v.entities[j].pos, v.entities[j].properties);
}

proof fn lemma_static_stays_settle(v: GameView, cfg: ContinueConfig, fuel: nat, id: Id, pos: crate::position::Position, props: crate::model::Properties)
    requires
        ids_ok(v),
        props.is_static,
        !props.pushable,
        stands(v.entities, id, pos, props),
    ensures
        stands(settle(v, cfg, fuel).0.entities, id, pos, props),
    decreases fuel,
{
    if fuel > 0 && !v.stable {
        let j = choose|k: int|
            0 <= k < v.entities.len() && (#[trigger] v.entities[k]).id == id && v.entities[k].pos == pos
                && v.entities[k].properties == props;
        lemma_static_stays(v, cfg, seq![], j);
        lemma_step_keeps_ids(v, cfg, seq![]);
        lemma_static_stays_settle(spec_step(v, cfg, seq![]).0, cfg, (fuel - 1) as nat, id, pos, props);
    }
}

/// Through a whole turn, whatever the input, a static entity that cannot be
/// pushed stays where it stands and stays in the level.
pub proof fn lemma_static_stays_turn(v: GameView, cfg: ContinueConfig, input: Input, j: int)
    requires
        ids_ok(v),
        0 <= j < v.entities.len(),
        v.entities[j].properties.is_static,
        !v.entities[j].properties.pushable,
    ensures
        stands(
            spec_process_turn(v, cfg, input).0.entities,
            v.entities[j].id,
            v.entities[j].pos,
            v.entities[j].properties,
        ),
{
    let inputs = crate::systems::turn::turn_inputs(v, input);
    lemma_static_stays(v, cfg, inputs, j);
    lemma_step_keeps_ids(v, cfg, inputs);
    lemma_static_stays_settle(
        spec_step(v, cfg, inputs).0,
        cfg,
        crate::systems::turn::MAX_TURN_STEPS as nat,
        v.entities[j].id,
        v.entities[j].pos,
        v.entities[j].properties,
    );
}


proof fn lemma_settle_keeps_ids(v: GameView, cfg: ContinueConfig, fuel: nat)
    requires
        ids_ok(v),
    ensures
        ids_ok(settle(v, cfg, fuel).0),
    decreases fuel,
{
    if fuel > 0 && !v.stable {
        lemma_step_keeps_ids(v, cfg, seq![]);
        lemma_settle_keeps_ids(spec_step(v, cfg, seq![]).0, cfg, (fuel - 1) as nat);
    }
}

/// A turn keeps identifiers unique and handed out.
pub proof fn lemma_turn_keeps_ids(v: GameView, cfg: ContinueConfig, input: Input)
    requires
        ids_ok(v),
    ensures
        ids_ok(spec_process_turn(v, cfg, input).0),
{
    let inputs = crate::systems::turn::turn_inputs(v, input);
    lemma_step_keeps_ids(v, cfg, inputs);
    lemma_settle_keeps_ids(spec_step(v, cfg, inputs).0, cfg, crate::systems::turn::MAX_TURN_STEPS as nat);
}

} // verus!
