use vstd::prelude::*;
use crate::geometry::Vec2;
use crate::id::{Gen, Id};
use crate::int_angle::IntAngle;
use crate::level;
use crate::model::{Effect, Side};
use crate::moves::EntityMove;
use crate::position::Position;

verus! {

/// What a cell of the old tile grid held.
#[derive(Debug, Clone, Copy, PartialEq, Eq, Structural, Hash)]
pub enum Tile {
    Nothing,
    Block,
    Disable,
    Cloud,
}

impl Tile {
    pub open spec fn spec_is_trigger(self) -> bool {
        self is Block || self is Cloud
    }

    /// Whether a side touching the tile triggers.
    pub fn is_trigger(&self) -> (r: bool)
        ensures
            r == self.spec_is_trigger(),
    {
        match self {
            Tile::Nothing => false,
            Tile::Block => true,
            Tile::Disable => false,
            Tile::Cloud => true,
        }
    }
}

/// The kind of entity that stands for a tile, by identifier.
pub open spec fn tile_identifier(t: Tile) -> Seq<char> {
    match t {
        Tile::Block => "block"@,
        Tile::Disable => "disable"@,
        Tile::Cloud => "cloud"@,
        Tile::Nothing => Seq::empty(),
    }
}

/// Properties as the first version kept them.
#[derive(Debug, PartialEq, Eq, Structural, Clone, Copy)]
pub struct Properties {
    pub block: bool,
    pub trigger: bool,
    pub player: bool,
    pub pushable: bool,
}

pub struct Entity {
    pub id: Id,
    pub index: Option<i32>,
    pub identifier: String,
    pub properties: Properties,
    pub pos: Position,
    pub prev_pos: Position,
    pub prev_move: Option<EntityMove>,
    pub sides: [Side; 4],
}

#[derive(Clone, Copy, Debug, PartialEq, Eq, Structural)]
pub struct Goal {
    pub id: Id,
    pub pos: Position,
}

#[derive(Clone, Copy, Debug, PartialEq, Eq, Structural)]
pub struct Powerup {
    pub id: Id,
    pub pos: Position,
    pub effect: Effect,
}

/// A saved game of the first version: a grid of tiles beside the entities.
pub struct GameState {
    pub id_gen: Gen,
    /// The tiles by cell, in the order they were read.
    pub tiles: Vec<(Vec2, Tile)>,
    pub entities: Vec<Entity>,
    pub powerups: Vec<Powerup>,
    pub selected_player: Option<Id>,
    pub goals: Vec<Goal>,
    pub stable: bool,
}

/// The tiles that hold something, in order.
pub open spec fn kept_tiles(tiles: Seq<(Vec2, Tile)>) -> Seq<(Vec2, Tile)>
    decreases tiles.len(),
{
    if tiles.len() == 0 {
        seq![]
    } else {
        let rest = kept_tiles(tiles.drop_last());
        if tiles.last().1 == Tile::Nothing {
            rest
        } else {
            rest.push(tiles.last())
        }
    }
}

/// An entity of the new format stands for the old one: same index,
/// identifier, position and sides.
pub open spec fn migrated_entity(old: Entity, new: level::Entity) -> bool {
    new.index == old.index && new.identifier@ == old.identifier@ && new.pos == old.pos && new.sides == old.sides
}

/// An entity of the new format stands for a tile: an entity of the tile's
/// kind in its cell, not turned, with blank sides and no index.
pub open spec fn tile_entity(tile: (Vec2, Tile), new: level::Entity) -> bool {
    &&& new.index is None
    &&& new.identifier@ == tile_identifier(tile.1)
    &&& new.pos == (Position { cell: tile.0, angle: IntAngle(0) })
    &&& forall|k: int| 0 <= k < 4 ==> (#[trigger] new.sides@[k]).effect is None
}

fn blank_entity(identifier: &str, cell: Vec2) -> (r: level::Entity)
    ensures
        r.index is None,
        r.identifier@ == identifier@,
        r.pos == (Position { cell, angle: IntAngle(0) }),
        forall|k: int| 0 <= k < 4 ==> (#[trigger] r.sides@[k]).effect is None,
{
    let blank = Side { effect: None };
    level::Entity {
        index: None,
        identifier: identifier.to_owned(),
        pos: Position { cell, angle: IntAngle::right() },
        sides: [blank, blank, blank, blank],
    }
}

/// The level that a saved game of the first version starts: its entities,
/// then one entity per tile that holds something, then its powerups and
/// goals, without identifiers.
pub fn migrate(state: GameState) -> (r: level::Level)
    ensures
        r.entities@.len() == state.entities@.len() + kept_tiles(state.tiles@).len(),
        forall|k: int| 0 <= k < state.entities@.len() ==> migrated_entity(state.entities@[k], #[trigger] r.entities@[k]),
        forall|k: int|
            0 <= k < kept_tiles(state.tiles@).len() ==> tile_entity(
                kept_tiles(state.tiles@)[k],
                #[trigger] r.entities@[state.entities@.len() + k],
            ),
        r.powerups@.len() == state.powerups@.len(),
        forall|k: int|
            0 <= k < state.powerups@.len() ==> (#[trigger] r.powerups@[k]).pos == state.powerups@[k].pos
                && r.powerups@[k].effect == state.powerups@[k].effect,
        r.goals@.len() == state.goals@.len(),
        forall|k: int| 0 <= k < state.goals@.len() ==> (#[trigger] r.goals@[k]).pos == state.goals@[k].pos,
{
    let mut entities: Vec<level::Entity> = Vec::new();
    let n = state.entities.len();
    let mut i: usize = 0;
    while i < n
        invariant
            i <= n,
            n == state.entities@.len(),
            entities@.len() == i,
            forall|k: int| 0 <= k < i ==> migrated_entity(state.entities@[k], #[trigger] entities@[k]),
        decreases n - i,
    {
        let e = &state.entities[i];
        entities.push(level::Entity { index: e.index, identifier: e.identifier.clone(), pos: e.pos, sides: e.sides });
        i = i + 1;
    }
    let mut t: usize = 0;
    while t < state.tiles.len()
        invariant
            t <= state.tiles.len(),
            n == state.entities@.len(),
            entities@.len() == n + kept_tiles(state.tiles@.take(t as int)).len(),
            forall|k: int| 0 <= k < n ==> migrated_entity(state.entities@[k], #[trigger] entities@[k]),
            forall|k: int|
                0 <= k < kept_tiles(state.tiles@.take(t as int)).len() ==> tile_entity(
                    kept_tiles(state.tiles@.take(t as int))[k],
                    #[trigger] entities@[n + k],
                ),
        decreases state.tiles.len() - t,
    {
        let (cell, tile) = state.tiles[t];
        proof {
            assert(state.tiles@.take(t + 1).drop_last() =~= state.tiles@.take(t as int));
        }
        let ghost before = entities@;
        match tile {
            Tile::Nothing => {},
            Tile::Block => entities.push(blank_entity("block", cell)),
            Tile::Disable => entities.push(blank_entity("disable", cell)),
            Tile::Cloud => entities.push(blank_entity("cloud", cell)),
        }
        proof {
            let kept = kept_tiles(state.tiles@.take(t + 1));
            if tile != Tile::Nothing {
                assert forall|k: int| 0 <= k < kept.len() implies tile_entity(kept[k], #[trigger] entities@[n + k]) by {
                    if k < kept.len() - 1 {
                        assert(entities@[n + k] == before[n + k]);
                    }
                }
            }
        }
        t = t + 1;
    }
    proof {
        assert(state.tiles@.take(state.tiles@.len() as int) =~= state.tiles@);
    }
    let mut powerups: Vec<level::Powerup> = Vec::new();
    let mut j: usize = 0;
    while j < state.powerups.len()
        invariant
            j <= state.powerups.len(),
            powerups@.len() == j,
            forall|k: int|
                0 <= k < j ==> (#[trigger] powerups@[k]).pos == state.powerups@[k].pos && powerups@[k].effect
                    == state.powerups@[k].effect,
        decreases state.powerups.len() - j,
    {
        powerups.push(level::Powerup { pos: state.powerups[j].pos, effect: state.powerups[j].effect });
        j = j + 1;
    }
    let mut goals: Vec<level::Goal> = Vec::new();
    let mut j: usize = 0;
    while j < state.goals.len()
        invariant
            j <= state.goals.len(),
            goals@.len() == j,
            forall|k: int| 0 <= k < j ==> (#[trigger] goals@[k]).pos == state.goals@[k].pos,
        decreases state.goals.len() - j,
    {
        goals.push(level::Goal { pos: state.goals[j].pos });
        j = j + 1;
    }
    level::Level { entities, powerups, goals }
}

} // verus!
