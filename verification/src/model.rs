use vstd::prelude::*;
use crate::id::{Gen, Id};
use crate::int_angle::IntAngle;
use crate::moves::EntityMove;
use crate::position::Position;
use crate::seq_util::{first_from, lemma_first_from, str_eq};

verus! {

/// What kind of entity something is.
#[derive(Copy, Clone, Debug, PartialEq, Eq, Structural)]
pub struct Properties {
    /// Nothing else can enter its cell.
    pub block: bool,
    /// Effects on sides that touch it are triggered.
    pub trigger: bool,
    /// It can be selected and controlled.
    pub player: bool,
    /// A moving entity can push it.
    pub pushable: bool,
    /// It never moves on its own.
    pub is_static: bool,
}

/// An effect that a side of an entity can carry.
#[derive(Copy, Clone, Debug, PartialEq, Eq, Structural)]
pub enum Effect {
    Jump,
    Slide,
    Magnet,
    WeakMagnet,
    DisableTrigger,
    DisableGravity,
}

/// The effect that a name stands for.
pub open spec fn effect_named(name: Seq<char>) -> Option<Effect> {
    if name == "Jump"@ {
        Some(Effect::Jump)
    } else if name == "Magnet"@ {
        Some(Effect::Magnet)
    } else if name == "Slide"@ {
        Some(Effect::Slide)
    } else if name == "WeakMagnet"@ {
        Some(Effect::WeakMagnet)
    } else if name == "DisableTrigger"@ {
        Some(Effect::DisableTrigger)
    } else {
        None
    }
}

impl Effect {
    pub open spec fn spec_allow_trigger(self) -> bool {
        !(self is DisableTrigger)
    }

    pub open spec fn spec_activate_other(self) -> Option<Effect> {
        match self {
            Effect::Jump => Some(Effect::Jump),
            Effect::Slide => Some(Effect::Slide),
            Effect::Magnet => Some(Effect::DisableGravity),
            _ => None,
        }
    }

    /// The effect with the given name.
    pub fn from_str(name: &str) -> (r: Effect)
        requires
            effect_named(name@) is Some,
        ensures
            effect_named(name@) == Some(r),
    {
        if str_eq(name, "Jump") {
            Effect::Jump
        } else if str_eq(name, "Magnet") {
            Effect::Magnet
        } else if str_eq(name, "Slide") {
            Effect::Slide
        } else if str_eq(name, "WeakMagnet") {
            Effect::WeakMagnet
        } else {
            Effect::DisableTrigger
        }
    }

    /// The effects that can be placed in a level, in the order a tool wheel
    /// shows them.
    pub fn iter_variants() -> (r: Vec<Effect>)
        ensures
            r@ == seq![Effect::Jump, Effect::Magnet, Effect::Slide, Effect::DisableTrigger],
    {
        vec![Effect::Jump, Effect::Magnet, Effect::Slide, Effect::DisableTrigger]
    }

    /// Whether a side with this effect lets the side that touches it trigger.
    pub fn allow_trigger(&self) -> (r: bool)
        ensures
            r == self.spec_allow_trigger(),
    {
        match self {
            Effect::DisableTrigger => false,
            _ => true,
        }
    }

    /// Whether the effect acts on its own entity when the side touches a trigger.
    pub fn activate_self(&self) -> (r: bool)
        ensures
            r,
    {
        true
    }

    /// The effect that this side gives to an entity touching it.
    pub fn activate_other(&self) -> (r: Option<Effect>)
        ensures
            r == self.spec_activate_other(),
    {
        match self {
            Effect::Jump => Some(Effect::Jump),
            Effect::Slide => Some(Effect::Slide),
            Effect::Magnet => Some(Effect::DisableGravity),
            _ => None,
        }
    }
}

/// One of the four sides of an entity.
#[derive(Copy, Clone, Debug, PartialEq, Eq, Structural)]
pub struct Side {
    pub effect: Option<Effect>,
}

/// Absolute angle of side `i` of something turned by `angle`: side 0 faces
/// right, side 1 up, and so on, when it is not turned.
pub open spec fn spec_side_angle(angle: IntAngle, i: int) -> IntAngle {
    IntAngle(i as i32).spec_add(angle)
}

/// Index of the side of something turned by `angle` that faces `dir`.
pub open spec fn spec_side_index(angle: IntAngle, dir: IntAngle) -> int {
    dir.spec_sub(spec_side_angle(angle, 0)).norm()
}

/// A box in the game.
pub struct Entity {
    pub id: Id,
    /// Order among players.
    pub index: Option<i32>,
    pub identifier: String,
    pub properties: Properties,
    pub pos: Position,
    pub prev_pos: Position,
    pub prev_move: Option<EntityMove>,
    pub sides: [Side; 4],
}

impl Entity {
    /// Side index by absolute side angle
    pub fn side_index(&self, angle: IntAngle) -> (r: usize)
        ensures
            r == spec_side_index(self.pos.angle, angle),
            r < 4,
    {
        angle.sub_angle(self.side_angle(0)).normalize().to_i32() as usize
    }

    /// Absolute side angle
    pub fn side_angle(&self, side_index: usize) -> (r: IntAngle)
        requires
            side_index < 4,
        ensures
            r == spec_side_angle(self.pos.angle, side_index as int),
    {
        Self::relative_side_angle(side_index).add_angle(self.pos.angle)
    }

    /// The side that faces `angle`.
    pub fn side_at_angle(&self, angle: IntAngle) -> (r: &Side)
        ensures
            *r == self.sides@[spec_side_index(self.pos.angle, angle)],
    {
        &self.sides[self.side_index(angle)]
    }

    /// Replaces the side that faces `angle`.
    pub fn set_side_at_angle(&mut self, angle: IntAngle, side: Side)
        ensures
            final(self).sides@ == old(self).sides@.update(spec_side_index(old(self).pos.angle, angle), side),
            final(self).id == old(self).id,
            final(self).index == old(self).index,
            final(self).identifier == old(self).identifier,
            final(self).properties == old(self).properties,
            final(self).pos == old(self).pos,
            final(self).prev_pos == old(self).prev_pos,
            final(self).prev_move == old(self).prev_move,
    {
        let i = self.side_index(angle);
        self.sides[i] = side;
    }

    /// Angle of side `side_index` when the entity is not turned.
    pub fn relative_side_angle(side_index: usize) -> (r: IntAngle)
        requires
            side_index < 4,
        ensures
            r == IntAngle(side_index as i32),
    {
        IntAngle::from_i32(side_index as i32)
    }
}

/// A powerup lying in a cell, waiting to be picked up by a blank side.
#[derive(Clone, Copy, Debug, PartialEq, Eq, Structural)]
pub struct Powerup {
    pub id: Id,
    pub pos: Position,
    pub effect: Effect,
}

/// A goal that a player finishes on.
#[derive(Clone, Copy, Debug, PartialEq, Eq, Structural)]
pub struct Goal {
    pub id: Id,
    pub pos: Position,
}

/// Whether a magnet move continues on its own in the next step.
#[derive(PartialEq, Eq, Structural, Clone, Copy, Debug)]
pub enum ContinueConfig {
    /// When the same input is given again.
    Input,
    Always,
    Never,
}

/// Rules of the game.
pub struct Config {
    pub allow_unstable_player_selection: bool,
    pub magnet_continue: ContinueConfig,
    /// Properties of each kind of entity, by identifier.
    pub entities: Vec<(String, Properties)>,
}

impl Config {
    /// Index of the first entry of `entities` named `identifier`.
    pub open spec fn entry_index(self, identifier: Seq<char>) -> Option<int> {
        first_from(self.entities@, |p: (String, Properties)| p.0@ == identifier, 0)
    }

    pub open spec fn spec_properties(self, identifier: Seq<char>) -> Option<Properties> {
        match self.entry_index(identifier) {
            Some(i) => Some(self.entities@[i].1),
            None => None,
        }
    }

    /// The properties of the kind of entity named `identifier`.
    pub fn properties(&self, identifier: &String) -> (r: Option<Properties>)
        ensures
            r == self.spec_properties(identifier@),
    {
        let mut i: usize = 0;
        while i < self.entities.len()
            invariant
                i <= self.entities.len(),
                first_from(self.entities@, |p: (String, Properties)| p.0@ == identifier@, 0)
                    == first_from(self.entities@, |p: (String, Properties)| p.0@ == identifier@, i as int),
            decreases self.entities.len() - i,
        {
            if self.entities[i].0 == *identifier {
                return Some(self.entities[i].1);
            }
            i = i + 1;
        }
        None
    }
}

/// The state of a level being played.
pub struct GameState {
    pub id_gen: Gen,
    pub entities: Vec<Entity>,
    pub powerups: Vec<Powerup>,
    pub selected_player: Option<Id>,
    pub goals: Vec<Goal>,
    /// Whether nothing moved in the last step.
    pub stable: bool,
    /// Cells that moves planned in the current step start from or end in.
    pub reserved_cells: Vec<crate::geometry::Vec2>,
    /// The game time: moves that start now end one turn later.
    pub current_time: crate::time::Time,
}

/// What a game state holds, as mathematical values.
pub struct GameView {
    pub next_id: u64,
    pub entities: Seq<Entity>,
    pub powerups: Seq<Powerup>,
    pub selected_player: Option<Id>,
    pub goals: Seq<Goal>,
    pub stable: bool,
    pub reserved: Seq<crate::geometry::Vec2>,
    pub current_time: crate::time::Time,
}

impl GameView {
    /// Index of the first entity with identifier `id`.
    pub open spec fn entity_index(self, id: Id) -> Option<int> {
        first_from(self.entities, |e: Entity| e.id == id, 0)
    }

    pub open spec fn has_entity(self, id: Id) -> bool {
        self.entity_index(id) is Some
    }

    /// The first entity with identifier `id`.
    pub open spec fn entity(self, id: Id) -> Entity {
        self.entities[self.entity_index(id).unwrap()]
    }
}

impl View for GameState {
    type V = GameView;

    open spec fn view(&self) -> GameView {
        GameView {
            next_id: self.id_gen.next(),
            entities: self.entities@,
            powerups: self.powerups@,
            selected_player: self.selected_player,
            goals: self.goals@,
            stable: self.stable,
            reserved: self.reserved_cells@,
            current_time: self.current_time,
        }
    }
}

impl GameState {
    /// Index of the first entity with identifier `id`.
    pub fn find_entity(&self, id: Id) -> (r: Option<usize>)
        ensures
            r matches Some(i) ==> self@.entity_index(id) == Some(i as int) && i < self.entities@.len()
                && self.entities@[i as int].id == id,
            r is None ==> self@.entity_index(id) is None,
    {
        proof {
            lemma_first_from(self.entities@, |e: Entity| e.id == id, 0);
        }
        let mut i: usize = 0;
        while i < self.entities.len()
            invariant
                i <= self.entities.len(),
                self@.entity_index(id) == first_from(self.entities@, |e: Entity| e.id == id, i as int),
            decreases self.entities.len() - i,
        {
            if self.entities[i].id == id {
                return Some(i);
            }
            i = i + 1;
        }
        None
    }

    /// Every goal has been reached.
    pub fn finished(&self) -> (r: bool)
        ensures
            r == (self.goals@.len() == 0),
    {
        self.goals.len() == 0
    }
}

} // verus!
