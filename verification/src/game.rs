use vstd::prelude::*;
use crate::geometry::{cells_bounding_box, spec_cells_bounding_box, Aabb, Vec2};
use crate::id::Gen;
use crate::level::{self, Level};
use crate::model::{Config, Entity, GameState, GameView, Goal, Powerup, Properties, Side};
use crate::players::spec_player_ids;
use crate::position::Position;
use crate::time::Time;

verus! {

/// The cells where the entities stand.
pub open spec fn entity_cells(ents: Seq<Entity>) -> Seq<Vec2> {
    ents.map_values(|e: Entity| e.pos.cell)
}

/// Entity `k` of a game started from `level`: it stands as the level places
/// it, with the properties of its kind, and its identifier is `k`.
pub open spec fn started_entity(config: Config, le: level::Entity, e: Entity, k: int) -> bool {
    &&& e.id.spec_raw() == k
    &&& e.index == le.index
    &&& e.identifier@ == le.identifier@
    &&& config.spec_properties(le.identifier@) == Some(e.properties)
    &&& e.pos == le.pos
    &&& e.prev_pos == le.pos
    &&& e.prev_move is None
    &&& e.sides == le.sides
}

impl GameState {
    /// A game with nothing in it.
    pub fn empty() -> (r: GameState)
        ensures
            r@.next_id == 0,
            r@.entities.len() == 0,
            r@.powerups.len() == 0,
            r@.goals.len() == 0,
            r@.reserved.len() == 0,
            r@.selected_player is None,
            !r@.stable,
            r@.current_time.value == 0,
    {
        GameState {
            id_gen: Gen::new(),
            entities: Vec::new(),
            powerups: Vec::new(),
            selected_player: None,
            goals: Vec::new(),
            stable: false,
            reserved_cells: Vec::new(),
            current_time: Time::zero(),
        }
    }

    /// The game at the start of a level: entities first, then powerups, then
    /// goals get identifiers 0, 1, 2, ... in the order the level lists them;
    /// each entity gets the properties that the configuration gives its
    /// kind; the first player (by index) is selected.
    pub fn init(config: &Config, level: &Level) -> (r: GameState)
        requires
            level.entities@.len() + level.powerups@.len() + level.goals@.len() < u64::MAX,
            forall|k: int|
                0 <= k < level.entities@.len() ==> (#[trigger] config.spec_properties(level.entities@[k].identifier@)) is Some,
        ensures
            r@.entities.len() == level.entities@.len(),
            forall|k: int|
                0 <= k < level.entities@.len() ==> started_entity(*config, level.entities@[k], #[trigger] r@.entities[k], k),
            r@.powerups.len() == level.powerups@.len(),
            forall|j: int|
                0 <= j < level.powerups@.len() ==> (#[trigger] r@.powerups[j]).id.spec_raw() == level.entities@.len() + j
                    && r@.powerups[j].pos == level.powerups@[j].pos && r@.powerups[j].effect == level.powerups@[j].effect,
            r@.goals.len() == level.goals@.len(),
            forall|j: int|
                0 <= j < level.goals@.len() ==> (#[trigger] r@.goals[j]).id.spec_raw() == level.entities@.len()
                    + level.powerups@.len() + j && r@.goals[j].pos == level.goals@[j].pos,
            r@.next_id == level.entities@.len() + level.powerups@.len() + level.goals@.len(),
            r@.selected_player == (if spec_player_ids(r@).len() > 0 {
                Some(spec_player_ids(r@)[0])
            } else {
                None
            }),
            !r@.stable,
            r@.reserved.len() == 0,
            crate::laws::ids_ok(r@),
            r@.current_time.value == 0,
            !r@.stable,
            r@.reserved.len() == 0,
    {
        let mut id_gen = Gen::new();
        let mut entities: Vec<Entity> = Vec::new();
        let mut i: usize = 0;
        while i < level.entities.len()
            invariant
                i <= level.entities.len(),
                id_gen.next() == i,
                level.entities@.len() + level.powerups@.len() + level.goals@.len() < u64::MAX,
                entities@.len() == i,
                forall|k: int|
                    0 <= k < level.entities@.len() ==> (#[trigger] config.spec_properties(level.entities@[k].identifier@)) is Some,
                forall|k: int| 0 <= k < i ==> started_entity(*config, level.entities@[k], #[trigger] entities@[k], k),
            decreases level.entities.len() - i,
        {
            let le = &level.entities[i];
            let properties = config.properties(&le.identifier);
            assert(config.spec_properties(level.entities@[i as int].identifier@) is Some);
            let properties = properties.unwrap();
            let id = id_gen.gen();
            entities.push(
                Entity {
                    id,
                    index: le.index,
                    identifier: le.identifier.clone(),
                    properties,
                    pos: le.pos,
                    prev_pos: le.pos,
                    prev_move: None,
                    sides: le.sides,
                },
            );
            i = i + 1;
        }
        let mut powerups: Vec<Powerup> = Vec::new();
        let mut j: usize = 0;
        while j < level.powerups.len()
            invariant
                j <= level.powerups.len(),
                id_gen.next() == level.entities@.len() + j,
                level.entities@.len() + level.powerups@.len() + level.goals@.len() < u64::MAX,
                powerups@.len() == j,
                forall|k: int|
                    0 <= k < j ==> (#[trigger] powerups@[k]).id.spec_raw() == level.entities@.len() + k
                        && powerups@[k].pos == level.powerups@[k].pos && powerups@[k].effect == level.powerups@[k].effect,
            decreases level.powerups.len() - j,
        {
            let p = level.powerups[j];
            let id = id_gen.gen();
            powerups.push(Powerup { id, pos: p.pos, effect: p.effect });
            j = j + 1;
        }
        let mut goals: Vec<Goal> = Vec::new();
        let mut j: usize = 0;
        while j < level.goals.len()
            invariant
                j <= level.goals.len(),
                id_gen.next() == level.entities@.len() + level.powerups@.len() + j,
                level.entities@.len() + level.powerups@.len() + level.goals@.len() < u64::MAX,
                goals@.len() == j,
                forall|k: int|
                    0 <= k < j ==> (#[trigger] goals@[k]).id.spec_raw() == level.entities@.len() + level.powerups@.len() + k
                        && goals@[k].pos == level.goals@[k].pos,
            decreases level.goals.len() - j,
        {
            let g = level.goals[j];
            let id = id_gen.gen();
            goals.push(Goal { id, pos: g.pos });
            j = j + 1;
        }
        let mut result = GameState {
            id_gen,
            entities,
            powerups,
            selected_player: None,
            goals,
            stable: false,
            reserved_cells: Vec::new(),
            current_time: Time::zero(),
        };
        let ids = result.player_ids();
        let first_player = if ids.len() > 0 {
            Some(ids[0])
        } else {
            None
        };
        result.selected_player = first_player;
        proof {
            assert(spec_player_ids(result@) == ids@);
            let v = result@;
            assert forall|a: int, b: int| 0 <= a < b < v.entities.len() implies (#[trigger] v.entities[a]).id != (#[trigger] v.entities[b]).id by {
                assert(started_entity(*config, level.entities@[a], v.entities[a], a));
                assert(started_entity(*config, level.entities@[b], v.entities[b], b));
            }
            assert forall|a: int| 0 <= a < v.entities.len() implies (#[trigger] v.entities[a]).id.spec_raw() < v.next_id by {
                assert(started_entity(*config, level.entities@[a], v.entities[a], a));
            }
            assert forall|a: int, b: int| 0 <= a < b < v.powerups.len() implies (#[trigger] v.powerups[a]).id != (#[trigger] v.powerups[b]).id by {
                assert(v.powerups[a].id.spec_raw() != v.powerups[b].id.spec_raw());
            }
            assert forall|a: int, b: int| 0 <= a < b < v.goals.len() implies (#[trigger] v.goals[a]).id != (#[trigger] v.goals[b]).id by {
                assert(v.goals[a].id.spec_raw() != v.goals[b].id.spec_raw());
            }
        }
        result
    }

    /// The box of cells that the entities cover.
    pub fn bounding_box(&self) -> (r: Aabb)
        ensures
            r == spec_cells_bounding_box(entity_cells(self.entities@)),
    {
        let mut cells: Vec<Vec2> = Vec::new();
        let mut i: usize = 0;
        while i < self.entities.len()
            invariant
                i <= self.entities.len(),
                cells@ == entity_cells(self.entities@.take(i as int)),
            decreases self.entities.len() - i,
        {
            cells.push(self.entities[i].pos.cell);
            proof {
                assert(entity_cells(self.entities@.take(i + 1)) =~= entity_cells(self.entities@.take(i as int)).push(
                    self.entities@[i as int].pos.cell,
                ));
            }
            i = i + 1;
        }
        proof {
            assert(self.entities@.take(self.entities@.len() as int) =~= self.entities@);
        }
        cells_bounding_box(&cells)
    }

    /// Adds an entity with blank sides and no player index, with the next
    /// identifier.
    pub fn add_entity(&mut self, identifier: &str, properties: &Properties, pos: Position)
        requires
            old(self)@.next_id < u64::MAX,
        ensures
            final(self)@.next_id == old(self)@.next_id + 1,
            final(self)@.entities.len() == old(self)@.entities.len() + 1,
            final(self)@.entities.drop_last() == old(self)@.entities,
            ({
                let e = final(self)@.entities.last();
                &&& e.id.spec_raw() == old(self)@.next_id
                &&& e.index is None
                &&& e.identifier@ == identifier@
                &&& e.properties == *properties
                &&& e.pos == pos
                &&& e.prev_pos == pos
                &&& e.prev_move is None
                &&& forall|k: int| 0 <= k < 4 ==> (#[trigger] e.sides@[k]).effect is None
            }),
            final(self)@.powerups == old(self)@.powerups,
            final(self)@.goals == old(self)@.goals,
            final(self)@.selected_player == old(self)@.selected_player,
            final(self)@.stable == old(self)@.stable,
            final(self)@.reserved == old(self)@.reserved,
    {
        let id = self.id_gen.gen();
        let blank = Side { effect: None };
        self.entities.push(
            Entity {
                id,
                index: None,
                identifier: identifier.to_owned(),
                properties: *properties,
                sides: [blank, blank, blank, blank],
                pos,
                prev_pos: pos,
                prev_move: None,
            },
        );
        assert(self@.entities.drop_last() =~= old(self)@.entities);
    }
}

} // verus!
