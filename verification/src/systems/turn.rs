use vstd::prelude::*;
use crate::geometry::Vec2;
use crate::id::Id;
use crate::input::Input;
use crate::model::{Config, ContinueConfig, Entity, GameState, GameView, Goal};
use crate::moves::{EntityMove, EntityMoveType, Event};
use crate::seq_util::{first_from, lemma_first_from};
use crate::systems::effects::{side_effects, spec_side_effects};
use crate::systems::goal::spec_goal;
use crate::systems::gravity::spec_gravity;
use crate::systems::just_move::spec_just_move;
use crate::systems::magnet::{continue_move, spec_continue_move};
use crate::systems::powerups::{process, spec_collect};
use crate::systems::{goal, gravity, just_move};

verus! {

/// The moves that an entity starts, by the first rule that gives any: a
/// magnet move carried on, an effect of a side, a fall, entering a goal, a
/// roll by the input.
pub open spec fn spec_check_entity_move(v: GameView, cfg: ContinueConfig, e: Entity, input: Input) -> Option<Seq<EntityMove>> {
    match spec_continue_move(v, cfg, e, input) {
        Some(m) => Some(seq![m]),
        None => match spec_side_effects(v, e, input) {
            Some(m) => Some(seq![m]),
            None => match spec_gravity(v, e) {
                Some(m) => Some(seq![m]),
                None => match spec_goal(v, e) {
                    Some(m) => Some(seq![m]),
                    None => spec_just_move(v, e, input),
                },
            },
        },
    }
}

/// The moves that an entity starts, if any.
pub fn check_entity_move(state: &GameState, config: &Config, entity_id: Id, input: Input) -> (r: Option<Vec<EntityMove>>)
    requires
        state@.has_entity(entity_id),
    ensures
        match spec_check_entity_move(state@, config.magnet_continue, state@.entity(entity_id), input) {
            Some(ms) => r matches Some(v) && v@ == ms,
            None => r is None,
        },
{
    if let Some(m) = continue_move(state, config, entity_id, input) {
        return Some(vec![m]);
    }
    if let Some(m) = side_effects(state, entity_id, input) {
        return Some(vec![m]);
    }
    if let Some(m) = gravity::system(state, entity_id) {
        return Some(vec![m]);
    }
    if let Some(m) = goal::system(state, entity_id) {
        return Some(vec![m]);
    }
    just_move::system(state, entity_id, input)
}

/// The first input listed for `id` from index `k` on, else `Skip`.
pub open spec fn input_from(inputs: Seq<(Id, Input)>, id: Id, k: int) -> Input
    decreases inputs.len() - k,
{
    if k < 0 || k >= inputs.len() {
        Input::Skip
    } else if inputs[k].0 == id {
        inputs[k].1
    } else {
        input_from(inputs, id, k + 1)
    }
}

/// The input given to the entity with identifier `id`: the first one listed
/// for it, else `Skip`.
pub open spec fn input_for(inputs: Seq<(Id, Input)>, id: Id) -> Input {
    input_from(inputs, id, 0)
}

fn find_input(inputs: &Vec<(Id, Input)>, id: Id) -> (r: Input)
    ensures
        r == input_for(inputs@, id),
{
    let mut k: usize = 0;
    while k < inputs.len()
        invariant
            k <= inputs.len(),
            input_for(inputs@, id) == input_from(inputs@, id, k as int),
        decreases inputs.len() - k,
    {
        if inputs[k].0 == id {
            return inputs[k].1;
        }
        k = k + 1;
    }
    Input::Skip
}

/// Whether a planned move moves the entity with identifier `id`.
pub open spec fn has_planned(planned: Seq<EntityMove>, id: Id) -> bool {
    exists|k: int| 0 <= k < planned.len() && (#[trigger] planned[k]).entity_id == id
}

/// Whether one of `ms` moves an entity that a planned move already moves.
pub open spec fn conflicts(planned: Seq<EntityMove>, ms: Seq<EntityMove>) -> bool {
    exists|k: int| 0 <= k < ms.len() && has_planned(planned, (#[trigger] ms[k]).entity_id)
}

/// The cells that a move reserves, each once, as `cells_reserved` lists them.
pub open spec fn reserved_of(m: EntityMove) -> Seq<Vec2> {
    if m.prev_pos.cell == m.new_pos.cell {
        seq![m.prev_pos.cell]
    } else {
        seq![m.prev_pos.cell, m.new_pos.cell]
    }
}

/// The cells that moves reserve, move after move.
pub open spec fn move_cells(ms: Seq<EntityMove>) -> Seq<Vec2>
    decreases ms.len(),
{
    if ms.len() == 0 {
        seq![]
    } else {
        move_cells(ms.drop_last()) + reserved_of(ms.last())
    }
}

/// Planning the moves of a step, entity after entity from index `i` on:
/// each entity that is not static and not moved yet starts the moves that
/// `spec_check_entity_move` gives, unless they would move an entity moved
/// already; the cells of accepted moves are reserved for later entities.
pub open spec fn plan_from(v: GameView, cfg: ContinueConfig, inputs: Seq<(Id, Input)>, i: int, planned: Seq<EntityMove>) -> (Seq<Vec2>, Seq<EntityMove>)
    decreases v.entities.len() - i,
{
    if i < 0 || i >= v.entities.len() {
        (v.reserved, planned)
    } else {
        let e = v.entities[i];
        if e.properties.is_static || has_planned(planned, e.id) {
            plan_from(v, cfg, inputs, i + 1, planned)
        } else {
            match spec_check_entity_move(v, cfg, v.entity(e.id), input_for(inputs, e.id)) {
                Some(ms) => if conflicts(planned, ms) {
                    plan_from(v, cfg, inputs, i + 1, planned)
                } else {
                    plan_from(GameView { reserved: v.reserved + move_cells(ms), ..v }, cfg, inputs, i + 1, planned + ms)
                },
                None => plan_from(v, cfg, inputs, i + 1, planned),
            }
        }
    }
}

/// Every entity remembers where it stands as where it stood, and forgets
/// its last move.
pub open spec fn reset_prev(ents: Seq<Entity>) -> Seq<Entity> {
    Seq::new(ents.len(), |k: int| Entity { prev_pos: ents[k].pos, prev_move: None, ..ents[k] })
}

/// The end of a move: the entity goes to its new position and remembers the
/// move; an entity entering a goal leaves the level, and so does the goal.
pub open spec fn apply_move(ents: Seq<Entity>, goals: Seq<Goal>, m: EntityMove) -> (Seq<Entity>, Seq<Goal>) {
    match first_from(ents, |e: Entity| e.id == m.entity_id, 0) {
        None => (ents, goals),
        Some(k) => match m.move_type {
            EntityMoveType::EnterGoal { goal_id } => (
                ents.remove(k),
                match first_from(goals, |g: Goal| g.id == goal_id, 0) {
                    Some(gk) => goals.remove(gk),
                    None => goals,
                },
            ),
            _ => (ents.update(k, Entity { prev_pos: ents[k].pos, prev_move: Some(m), pos: m.new_pos, ..ents[k] }), goals),
        },
    }
}

/// The ends of the moves from index `i` on, in order.
pub open spec fn apply_all(ents: Seq<Entity>, goals: Seq<Goal>, ms: Seq<EntityMove>, i: int) -> (Seq<Entity>, Seq<Goal>)
    decreases ms.len() - i,
{
    if i < 0 || i >= ms.len() {
        (ents, goals)
    } else {
        let r = apply_move(ents, goals, ms[i]);
        apply_all(r.0, r.1, ms, i + 1)
    }
}

/// Where a move goes among moves in the order they end: before the first
/// move of an entity with a smaller identifier, from position `j` on.
pub open spec fn end_insert_pos(s: Seq<EntityMove>, m: EntityMove, j: int) -> int
    decreases s.len() - j,
{
    if j < 0 || j >= s.len() {
        s.len() as int
    } else if s[j].entity_id.spec_raw() < m.entity_id.spec_raw() {
        j
    } else {
        end_insert_pos(s, m, j + 1)
    }
}

/// The first `n` moves in the order they end: moves that end together end
/// entity by entity, the larger identifier first.
pub open spec fn end_order_upto(ms: Seq<EntityMove>, n: int) -> Seq<EntityMove>
    decreases n,
{
    if n <= 0 {
        seq![]
    } else {
        let prev = end_order_upto(ms, n - 1);
        prev.insert(end_insert_pos(prev, ms[n - 1], 0), ms[n - 1])
    }
}

/// The moves in the order they end.
pub open spec fn end_order(ms: Seq<EntityMove>) -> Seq<EntityMove> {
    end_order_upto(ms, ms.len() as int)
}

/// One step of the game: pickups, then the planned moves start and end.
/// Events: the pickups, then one `MoveStarted` per move in the order the
/// moves were planned, then one `MoveEnded` per move in the order they end.
/// When anything moved, the game time moves on to the moves' end, one turn
/// later.
#[verifier::opaque]
pub open spec fn spec_step(v: GameView, cfg: ContinueConfig, inputs: Seq<(Id, Input)>) -> (GameView, Seq<Event>) {
    let c = spec_collect(v);
    let v1 = c.0;
    let p = plan_from(GameView { reserved: seq![], ..v1 }, cfg, inputs, 0, seq![]);
    let planned = p.1;
    let ending = end_order(planned);
    let applied = apply_all(reset_prev(v1.entities), v1.goals, ending, 0);
    (
        GameView {
            entities: applied.0,
            goals: applied.1,
            reserved: seq![],
            stable: planned.len() == 0,
            current_time: if planned.len() == 0 {
                v1.current_time
            } else {
                v1.current_time.spec_after_turn()
            },
            ..v1
        },
        c.1 + planned.map_values(|m: EntityMove| Event::MoveStarted(m)) + ending.map_values(
            |m: EntityMove| Event::MoveEnded(m),
        ),
    )
}

proof fn lemma_member_has_entity(v: GameView, i: int)
    requires
        0 <= i < v.entities.len(),
    ensures
        v.has_entity(v.entities[i].id),
{
    let id = v.entities[i].id;
    lemma_first_from(v.entities, |e: Entity| e.id == id, 0);
}

fn planned_for(planned: &Vec<EntityMove>, id: Id) -> (r: bool)
    ensures
        r == has_planned(planned@, id),
{
    let mut k: usize = 0;
    while k < planned.len()
        invariant
            k <= planned.len(),
            forall|j: int| 0 <= j < k ==> (#[trigger] planned@[j]).entity_id != id,
        decreases planned.len() - k,
    {
        if planned[k].entity_id == id {
            assert(planned@[k as int].entity_id == id);
            return true;
        }
        k = k + 1;
    }
    false
}

fn end_insert_at(s: &Vec<EntityMove>, m: EntityMove) -> (r: usize)
    ensures
        r == end_insert_pos(s@, m, 0),
        r <= s@.len(),
{
    let mut j: usize = 0;
    while j < s.len()
        invariant
            j <= s.len(),
            end_insert_pos(s@, m, 0) == end_insert_pos(s@, m, j as int),
        decreases s.len() - j,
    {
        if s[j].entity_id.raw() < m.entity_id.raw() {
            return j;
        }
        j = j + 1;
    }
    j
}

proof fn lemma_end_insert_pos_bound(s: Seq<EntityMove>, m: EntityMove, j: int)
    requires
        0 <= j,
    ensures
        0 <= end_insert_pos(s, m, j) <= s.len(),
        j <= s.len() ==> j <= end_insert_pos(s, m, j),
    decreases s.len() - j,
{
    if j < s.len() && !(s[j].entity_id.spec_raw() < m.entity_id.spec_raw()) {
        lemma_end_insert_pos_bound(s, m, j + 1);
    }
}

/// The moves in the order they end are the planned moves: as many, and each
/// one of them.
pub proof fn lemma_end_order_elems(ms: Seq<EntityMove>, n: int)
    requires
        0 <= n <= ms.len(),
    ensures
        end_order_upto(ms, n).len() == n,
        forall|k: int| 0 <= k < n ==> exists|j: int| 0 <= j < n && #[trigger] end_order_upto(ms, n)[k] == ms[j],
    decreases n,
{
    if n > 0 {
        lemma_end_order_elems(ms, n - 1);
        let prev = end_order_upto(ms, n - 1);
        let at = end_insert_pos(prev, ms[n - 1], 0);
        lemma_end_insert_pos_bound(prev, ms[n - 1], 0);
        let cur = end_order_upto(ms, n);
        assert(cur == prev.insert(at, ms[n - 1]));
        assert forall|k: int| 0 <= k < n implies exists|j: int| 0 <= j < n && #[trigger] cur[k] == ms[j] by {
            if k < at {
                assert(cur[k] == prev[k]);
                let j = choose|j: int| 0 <= j < n - 1 && #[trigger] prev[k] == ms[j];
                assert(cur[k] == ms[j]);
            } else if k == at {
                assert(cur[k] == ms[n - 1]);
            } else {
                assert(cur[k] == prev[k - 1]);
                let j = choose|j: int| 0 <= j < n - 1 && #[trigger] prev[k - 1] == ms[j];
                assert(cur[k] == ms[j]);
            }
        }
    }
}

proof fn lemma_end_insert_pos(s: Seq<EntityMove>, m: EntityMove, j: int)
    requires
        0 <= j <= s.len(),
        forall|k: int| 0 <= k < j ==> (#[trigger] s[k]).entity_id.spec_raw() >= m.entity_id.spec_raw(),
    ensures
        j <= end_insert_pos(s, m, j) <= s.len(),
        forall|k: int| 0 <= k < end_insert_pos(s, m, j) ==> (#[trigger] s[k]).entity_id.spec_raw() >= m.entity_id.spec_raw(),
        end_insert_pos(s, m, j) < s.len() ==> s[end_insert_pos(s, m, j)].entity_id.spec_raw() < m.entity_id.spec_raw(),
    decreases s.len() - j,
{
    if j < s.len() && !(s[j].entity_id.spec_raw() < m.entity_id.spec_raw()) {
        lemma_end_insert_pos(s, m, j + 1);
    }
}

/// The moves in the order they end are the planned moves, each as often as
/// planned, ordered by identifier from the largest down.
pub proof fn lemma_end_order_sorted(ms: Seq<EntityMove>, n: int)
    requires
        0 <= n <= ms.len(),
    ensures
        end_order_upto(ms, n).to_multiset() == ms.take(n).to_multiset(),
        forall|i: int, j: int|
            0 <= i < j < end_order_upto(ms, n).len() ==> (#[trigger] end_order_upto(ms, n)[j]).entity_id.spec_raw()
                <= (#[trigger] end_order_upto(ms, n)[i]).entity_id.spec_raw(),
    decreases n,
{
    broadcast use vstd::seq_lib::group_to_multiset_ensures;

    if n == 0 {
        assert(ms.take(0) =~= Seq::<EntityMove>::empty());
    } else {
        lemma_end_order_sorted(ms, n - 1);
        let prev = end_order_upto(ms, n - 1);
        let m = ms[n - 1];
        lemma_end_insert_pos(prev, m, 0);
        let p = end_insert_pos(prev, m, 0);
        let cur = prev.insert(p, m);
        assert(cur == end_order_upto(ms, n));
        assert(ms.take(n) =~= ms.take(n - 1).push(m));
        vstd::seq_lib::to_multiset_insert(prev, p, m);
        assert forall|i: int, j: int| 0 <= i < j < cur.len() implies (#[trigger] cur[j]).entity_id.spec_raw()
            <= (#[trigger] cur[i]).entity_id.spec_raw() by {
            if j < p {
                assert(cur[i] == prev[i] && cur[j] == prev[j]);
            } else if j == p {
                assert(cur[i] == prev[i]);
            } else if i < p {
                assert(cur[i] == prev[i] && cur[j] == prev[j - 1]);
            } else if i == p {
                assert(cur[j] == prev[j - 1]);
                assert(prev[j - 1].entity_id.spec_raw() <= prev[p].entity_id.spec_raw());
            } else {
                assert(cur[i] == prev[i - 1] && cur[j] == prev[j - 1]);
            }
        }
    }
}

/// The moves in the order they end.
fn sort_for_ending(planned: &Vec<EntityMove>) -> (r: Vec<EntityMove>)
    ensures
        r@ == end_order(planned@),
{
    let mut r: Vec<EntityMove> = Vec::new();
    let mut n: usize = 0;
    while n < planned.len()
        invariant
            n <= planned.len(),
            r@ == end_order_upto(planned@, n as int),
        decreases planned.len() - n,
    {
        let m = planned[n];
        let at = end_insert_at(&r, m);
        r.insert(at, m);
        n = n + 1;
    }
    r
}

fn any_conflict(planned: &Vec<EntityMove>, ms: &Vec<EntityMove>) -> (r: bool)
    ensures
        r == conflicts(planned@, ms@),
{
    let mut k: usize = 0;
    while k < ms.len()
        invariant
            k <= ms.len(),
            forall|j: int| 0 <= j < k ==> !has_planned(planned@, (#[trigger] ms@[j]).entity_id),
        decreases ms.len() - k,
    {
        if planned_for(planned, ms[k].entity_id) {
            assert(has_planned(planned@, ms@[k as int].entity_id));
            return true;
        }
        k = k + 1;
    }
    false
}

} // verus!

verus! {

fn reset_prev_all(state: &mut GameState)
    ensures
        final(state).entities@ == reset_prev(old(state).entities@),
        final(state).powerups@ == old(state).powerups@,
        final(state).goals@ == old(state).goals@,
        final(state).id_gen == old(state).id_gen,
        final(state).selected_player == old(state).selected_player,
        final(state).stable == old(state).stable,
        final(state).reserved_cells@ == old(state).reserved_cells@,
        final(state).current_time == old(state).current_time,
{
    let mut i: usize = 0;
    while i < state.entities.len()
        invariant
            i <= state.entities.len(),
            state.entities@.len() == old(state).entities@.len(),
            forall|k: int| 0 <= k < i ==> #[trigger] state.entities@[k] == reset_prev(old(state).entities@)[k],
            forall|k: int| i <= k < state.entities@.len() ==> #[trigger] state.entities@[k] == old(state).entities@[k],
            state.powerups@ == old(state).powerups@,
            state.goals@ == old(state).goals@,
            state.id_gen == old(state).id_gen,
            state.selected_player == old(state).selected_player,
            state.stable == old(state).stable,
            state.reserved_cells@ == old(state).reserved_cells@,
            state.current_time == old(state).current_time,
        decreases state.entities.len() - i,
    {
        let pos = state.entities[i].pos;
        state.entities[i].prev_pos = pos;
        state.entities[i].prev_move = None;
        i = i + 1;
    }
    assert(state.entities@ =~= reset_prev(old(state).entities@));
}

} // verus!

verus! {

fn find_goal(goals: &Vec<Goal>, id: Id) -> (r: Option<usize>)
    ensures
        r matches Some(k) ==> first_from(goals@, |g: Goal| g.id == id, 0) == Some(k as int) && k < goals@.len(),
        r is None ==> first_from(goals@, |g: Goal| g.id == id, 0) is None,
{
    proof {
        lemma_first_from(goals@, |g: Goal| g.id == id, 0);
    }
    let mut k: usize = 0;
    while k < goals.len()
        invariant
            k <= goals.len(),
            first_from(goals@, |g: Goal| g.id == id, 0) == first_from(goals@, |g: Goal| g.id == id, k as int),
        decreases goals.len() - k,
    {
        if goals[k].id == id {
            return Some(k);
        }
        k = k + 1;
    }
    None
}

fn apply_one(state: &mut GameState, m: EntityMove)
    ensures
        (final(state).entities@, final(state).goals@) == apply_move(old(state).entities@, old(state).goals@, m),
        final(state).powerups@ == old(state).powerups@,
        final(state).id_gen == old(state).id_gen,
        final(state).selected_player == old(state).selected_player,
        final(state).stable == old(state).stable,
        final(state).reserved_cells@ == old(state).reserved_cells@,
        final(state).current_time == old(state).current_time,
{
    match state.find_entity(m.entity_id) {
        None => {},
        Some(k) => {
            match m.move_type {
                EntityMoveType::EnterGoal { goal_id } => {
                    state.entities.remove(k);
                    match find_goal(&state.goals, goal_id) {
                        Some(gk) => {
                            state.goals.remove(gk);
                        },
                        None => {},
                    }
                },
                _ => {
                    let pos = state.entities[k].pos;
                    state.entities[k].prev_pos = pos;
                    state.entities[k].prev_move = Some(m);
                    state.entities[k].pos = m.new_pos;
                    assert(state.entities@ =~= old(state).entities@.update(
                        k as int,
                        Entity { prev_pos: pos, prev_move: Some(m), pos: m.new_pos, ..old(state).entities@[k as int] },
                    ));
                },
            }
        },
    }
}

impl GameState {
    /// One step of the game: every entity picks up the powerups it can, then
    /// every entity that is not static starts its moves (the inputs say what
    /// each player asks; the others skip), and the moves end. The moves start
    /// at the current time and end one turn later, and when anything moved
    /// the game time moves on to that end. Returns what happened.
    pub fn step(&mut self, config: &Config, inputs: &Vec<(Id, Input)>) -> (events: Vec<Event>)
        ensures
            (final(self)@, events@) == spec_step(old(self)@, config.magnet_continue, inputs@),
    {
        let mut events = process(self);
        let ghost v1 = self@;
        self.reserved_cells = Vec::new();
        let ghost v2 = self@;
        assert(v2 == GameView { reserved: seq![], ..v1 });
        let mut planned: Vec<EntityMove> = Vec::new();
        let cfg = config.magnet_continue;
        let mut i: usize = 0;
        while i < self.entities.len()
            invariant
                i <= self.entities.len(),
                cfg == config.magnet_continue,
                self.entities@ == v1.entities,
                self.powerups@ == v1.powerups,
                self.goals@ == v1.goals,
                self.id_gen.next() == v1.next_id,
                self.selected_player == v1.selected_player,
                self.stable == v1.stable,
                self.current_time == v1.current_time,
                plan_from(v2, cfg, inputs@, 0, seq![]) == plan_from(self@, cfg, inputs@, i as int, planned@),
            decreases self.entities.len() - i,
        {
            let id = self.entities[i].id;
            let is_static = self.entities[i].properties.is_static;
            if !is_static && !planned_for(&planned, id) {
                let input = find_input(inputs, id);
                proof {
                    lemma_member_has_entity(self@, i as int);
                }
                match check_entity_move(self, config, id, input) {
                    Some(ms) => {
                        if !any_conflict(&planned, &ms) {
                            let ghost r0 = self.reserved_cells@;
                            let ghost p0 = planned@;
                            let mut k: usize = 0;
                            while k < ms.len()
                                invariant
                                    k <= ms.len(),
                                    self.reserved_cells@ == r0 + move_cells(ms@.take(k as int)),
                                    planned@ == p0 + ms@.take(k as int),
                                    self.entities@ == v1.entities,
                                    self.powerups@ == v1.powerups,
                                    self.goals@ == v1.goals,
                                    self.id_gen.next() == v1.next_id,
                                    self.selected_player == v1.selected_player,
                                    self.stable == v1.stable,
                                    self.current_time == v1.current_time,
                                decreases ms.len() - k,
                            {
                                proof {
                                    assert(ms@.take(k + 1).drop_last() =~= ms@.take(k as int));
                                }
                                let mut cells = ms[k].cells_reserved();
                                self.reserved_cells.append(&mut cells);
                                planned.push(ms[k]);
                                proof {
                                    assert(self.reserved_cells@ =~= r0 + move_cells(ms@.take(k + 1)));
                                    assert(planned@ =~= p0 + ms@.take(k + 1));
                                }
                                k = k + 1;
                            }
                            proof {
                                assert(ms@.take(ms@.len() as int) =~= ms@);
                            }
                        }
                    },
                    None => {},
                }
            }
            i = i + 1;
        }
        let ending = sort_for_ending(&planned);
        let ghost ending_all = ending@;
        reset_prev_all(self);
        let mut k: usize = 0;
        while k < ending.len()
            invariant
                k <= ending.len(),
                ending@ == ending_all,
                apply_all(reset_prev(v1.entities), v1.goals, ending_all, 0) == apply_all(
                    self.entities@,
                    self.goals@,
                    ending_all,
                    k as int,
                ),
                self.powerups@ == v1.powerups,
                self.id_gen.next() == v1.next_id,
                self.selected_player == v1.selected_player,
                self.stable == v1.stable,
                self.current_time == v1.current_time,
            decreases ending.len() - k,
        {
            apply_one(self, ending[k]);
            k = k + 1;
        }
        let ghost ev0 = events@;
        let mut k: usize = 0;
        while k < planned.len()
            invariant
                k <= planned.len(),
                events@ == ev0 + planned@.take(k as int).map_values(|m: EntityMove| Event::MoveStarted(m)),
            decreases planned.len() - k,
        {
            events.push(Event::MoveStarted(planned[k]));
            proof {
                assert(planned@.take(k + 1).map_values(|m: EntityMove| Event::MoveStarted(m)) =~= planned@.take(
                    k as int,
                ).map_values(|m: EntityMove| Event::MoveStarted(m)).push(Event::MoveStarted(planned@[k as int])));
            }
            k = k + 1;
        }
        let ghost ev1 = events@;
        let mut k: usize = 0;
        while k < ending.len()
            invariant
                k <= ending.len(),
                events@ == ev1 + ending@.take(k as int).map_values(|m: EntityMove| Event::MoveEnded(m)),
            decreases ending.len() - k,
        {
            events.push(Event::MoveEnded(ending[k]));
            proof {
                assert(ending@.take(k + 1).map_values(|m: EntityMove| Event::MoveEnded(m)) =~= ending@.take(
                    k as int,
                ).map_values(|m: EntityMove| Event::MoveEnded(m)).push(Event::MoveEnded(ending@[k as int])));
            }
            k = k + 1;
        }
        self.reserved_cells = Vec::new();
        self.stable = planned.len() == 0;
        if planned.len() > 0 {
            self.current_time = self.current_time.after_turn();
        }
        proof {
            reveal(spec_step);
            assert(planned@.take(planned@.len() as int) =~= planned@);
            assert(ending@.take(ending@.len() as int) =~= ending@);
            assert(self.reserved_cells@ =~= Seq::<Vec2>::empty());
            assert(self@ =~= spec_step(old(self)@, config.magnet_continue, inputs@).0);
            assert(events@ =~= spec_step(old(self)@, config.magnet_continue, inputs@).1);
        }
        events
    }
}

} // verus!

verus! {

/// The most steps one turn takes.
pub const MAX_TURN_STEPS: u64 = 1000;

/// Steps without input until one moves nothing, at most `fuel` of them.
pub open spec fn settle(v: GameView, cfg: ContinueConfig, fuel: nat) -> (GameView, Seq<Event>)
    decreases fuel,
{
    if fuel == 0 || v.stable {
        (v, seq![])
    } else {
        let s = spec_step(v, cfg, seq![]);
        let r = settle(s.0, cfg, (fuel - 1) as nat);
        (r.0, s.1 + r.1)
    }
}

/// The game after `k` steps in which nobody acts.
pub open spec fn steps_without_input(v: GameView, cfg: ContinueConfig, k: nat) -> GameView
    decreases k,
{
    if k == 0 {
        v
    } else {
        steps_without_input(spec_step(v, cfg, seq![]).0, cfg, (k - 1) as nat)
    }
}

/// The game comes to rest within `fuel` steps in which nobody acts: after
/// some number of them, at most `fuel`, it is stable.
pub open spec fn settles_within(v: GameView, cfg: ContinueConfig, fuel: nat) -> bool {
    exists|k: nat| k <= fuel && (#[trigger] steps_without_input(v, cfg, k)).stable
}

/// Settling ends in a stable game exactly when the game comes to rest within
/// the steps it may take.
pub proof fn lemma_settle_stable_iff(v: GameView, cfg: ContinueConfig, fuel: nat)
    ensures
        settle(v, cfg, fuel).0.stable == settles_within(v, cfg, fuel),
    decreases fuel,
{
    if v.stable {
        assert(steps_without_input(v, cfg, 0).stable);
    } else if fuel == 0 {
        assert forall|k: nat| k <= fuel implies !(#[trigger] steps_without_input(v, cfg, k)).stable by {
            assert(k == 0);
        }
    } else {
        let s = spec_step(v, cfg, seq![]).0;
        lemma_settle_stable_iff(s, cfg, (fuel - 1) as nat);
        if settles_within(s, cfg, (fuel - 1) as nat) {
            let k = choose|k: nat| k <= (fuel - 1) as nat && (#[trigger] steps_without_input(s, cfg, k)).stable;
            assert(steps_without_input(v, cfg, k + 1) == steps_without_input(s, cfg, k));
            assert(steps_without_input(v, cfg, k + 1).stable);
        } else {
            assert forall|k: nat| k <= fuel implies !(#[trigger] steps_without_input(v, cfg, k)).stable by {
                if k > 0 {
                    let j = (k - 1) as nat;
                    assert(steps_without_input(v, cfg, k) == steps_without_input(s, cfg, j));
                    assert(!steps_without_input(s, cfg, j).stable);
                }
            }
        }
    }
}

/// The inputs of a turn: the selected player, if any, gets `input`.
pub open spec fn turn_inputs(v: GameView, input: Input) -> Seq<(Id, Input)> {
    match v.selected_player {
        Some(id) => seq![(id, input)],
        None => seq![],
    }
}

/// A turn: one step in which the selected player acts by `input`, then steps
/// in which nobody acts until the game is stable (at most `MAX_TURN_STEPS`
/// of them).
pub open spec fn spec_process_turn(v: GameView, cfg: ContinueConfig, input: Input) -> (GameView, Seq<Event>) {
    let s = spec_step(v, cfg, turn_inputs(v, input));
    let r = settle(s.0, cfg, MAX_TURN_STEPS as nat);
    (r.0, s.1 + r.1)
}

impl GameState {
    /// Plays a turn in which the selected player acts by `input`; returns what
    /// happened. The game ends the turn stable exactly when, after the
    /// player's step, it came to rest within `MAX_TURN_STEPS` more steps;
    /// otherwise the turn was cut off there.
    pub fn process_turn(&mut self, config: &Config, input: Input) -> (events: Vec<Event>)
        ensures
            (final(self)@, events@) == spec_process_turn(old(self)@, config.magnet_continue, input),
            final(self).stable == settles_within(
                spec_step(old(self)@, config.magnet_continue, turn_inputs(old(self)@, input)).0,
                config.magnet_continue,
                MAX_TURN_STEPS as nat,
            ),
    {
        let mut inputs: Vec<(Id, Input)> = Vec::new();
        match self.selected_player {
            Some(id) => inputs.push((id, input)),
            None => {},
        }
        assert(inputs@ =~= turn_inputs(old(self)@, input));
        let mut events = self.step(config, &inputs);
        let ghost v1 = self@;
        let ghost e1 = events@;
        let no_inputs: Vec<(Id, Input)> = Vec::new();
        let mut fuel: u64 = MAX_TURN_STEPS;
        while fuel > 0 && !self.stable
            invariant
                fuel <= MAX_TURN_STEPS,
                no_inputs@ == Seq::<(Id, Input)>::empty(),
                ({
                    let r = settle(self@, config.magnet_continue, fuel as nat);
                    let r0 = settle(v1, config.magnet_continue, MAX_TURN_STEPS as nat);
                    r0.0 == r.0 && e1 + r0.1 == events@ + r.1
                }),
            decreases fuel,
        {
            let ghost before = events@;
            let ghost s_before = self@;
            let mut more = self.step(config, &no_inputs);
            let ghost more_seq = more@;
            events.append(&mut more);
            proof {
                let st = spec_step(s_before, config.magnet_continue, seq![]);
                assert(st.0 == self@ && st.1 == more_seq);
                let r_new = settle(self@, config.magnet_continue, (fuel - 1) as nat);
                assert(settle(s_before, config.magnet_continue, fuel as nat) == (r_new.0, st.1 + r_new.1));
                assert(before + (more_seq + r_new.1) =~= events@ + r_new.1);
            }
            fuel = fuel - 1;
        }
        proof {
            lemma_settle_stable_iff(v1, config.magnet_continue, MAX_TURN_STEPS as nat);
        }
        events
    }
}

} // verus!
