use vstd::prelude::*;
use vstd::string::StringExecFns;
use crate::geometry::Vec2;
use crate::input::Input;
use crate::int_angle::IntAngle;
use crate::level::{self, Level};
use crate::model::{spec_side_index, Config, Effect, Properties, Side};
use crate::position::Position;
use crate::seq_util::str_eq;

verus! {

/// What an entity of a level is, as plain values: player index, kind,
/// position and sides.
pub struct EntityView {
    pub index: Option<i32>,
    pub identifier: Seq<char>,
    pub pos: Position,
    pub sides: Seq<Side>,
}

/// What a level is, as plain values.
pub struct LevelView {
    pub entities: Seq<EntityView>,
    pub powerups: Seq<level::Powerup>,
    pub goals: Seq<level::Goal>,
}

pub open spec fn entity_view(e: level::Entity) -> EntityView {
    EntityView { index: e.index, identifier: e.identifier@, pos: e.pos, sides: e.sides@ }
}

pub open spec fn entity_views(ents: Seq<level::Entity>) -> Seq<EntityView> {
    Seq::new(ents.len(), |k: int| entity_view(ents[k]))
}

impl View for Level {
    type V = LevelView;

    open spec fn view(&self) -> LevelView {
        LevelView { entities: entity_views(self.entities@), powerups: self.powerups@, goals: self.goals@ }
    }
}

fn clone_entity(e: &level::Entity) -> (r: level::Entity)
    ensures
        entity_view(r) == entity_view(*e),
{
    level::Entity { index: e.index, identifier: e.identifier.clone(), pos: e.pos, sides: e.sides }
}

/// A copy of a level.
pub fn clone_level(l: &Level) -> (r: Level)
    ensures
        r@ == l@,
{
    let mut entities: Vec<level::Entity> = Vec::new();
    let mut i: usize = 0;
    while i < l.entities.len()
        invariant
            i <= l.entities.len(),
            entities@.len() == i,
            forall|j: int| 0 <= j < i ==> entity_view(#[trigger] entities@[j]) == entity_view(l.entities@[j]),
        decreases l.entities.len() - i,
    {
        entities.push(clone_entity(&l.entities[i]));
        i = i + 1;
    }
    proof {
        assert(entity_views(entities@) =~= entity_views(l.entities@));
    }
    Level { entities, powerups: l.powerups.clone(), goals: l.goals.clone() }
}

fn entities_equal(a: &level::Entity, b: &level::Entity) -> (r: bool)
    ensures
        r == (entity_view(*a) == entity_view(*b)),
{
    if a.index != b.index || a.identifier != b.identifier || a.pos != b.pos {
        return false;
    }
    let mut k: usize = 0;
    while k < 4
        invariant
            k <= 4,
            forall|j: int| 0 <= j < k ==> a.sides@[j] == b.sides@[j],
        decreases 4 - k,
    {
        if a.sides[k] != b.sides[k] {
            return false;
        }
        k = k + 1;
    }
    assert(a.sides@ =~= b.sides@);
    true
}

/// Whether two levels hold the same things in the same order.
pub fn levels_equal(a: &Level, b: &Level) -> (r: bool)
    ensures
        r == (a@ == b@),
{
    if a.entities.len() != b.entities.len() || a.powerups.len() != b.powerups.len() || a.goals.len() != b.goals.len() {
        proof {
            if a@ == b@ {
                assert(a@.entities.len() == b@.entities.len());
            }
        }
        return false;
    }
    let mut i: usize = 0;
    while i < a.entities.len()
        invariant
            i <= a.entities.len(),
            a.entities.len() == b.entities.len(),
            forall|j: int| 0 <= j < i ==> entity_view(a.entities@[j]) == entity_view(b.entities@[j]),
        decreases a.entities.len() - i,
    {
        if !entities_equal(&a.entities[i], &b.entities[i]) {
            proof {
                if a@ == b@ {
                    assert(a@.entities[i as int] == b@.entities[i as int]);
                }
            }
            return false;
        }
        i = i + 1;
    }
    let mut i: usize = 0;
    while i < a.powerups.len()
        invariant
            i <= a.powerups.len(),
            a.powerups.len() == b.powerups.len(),
            forall|j: int| 0 <= j < i ==> a.powerups@[j] == b.powerups@[j],
        decreases a.powerups.len() - i,
    {
        if a.powerups[i] != b.powerups[i] {
            proof {
                if a@ == b@ {
                    assert(a@.powerups[i as int] == b@.powerups[i as int]);
                }
            }
            return false;
        }
        i = i + 1;
    }
    let mut i: usize = 0;
    while i < a.goals.len()
        invariant
            i <= a.goals.len(),
            a.goals.len() == b.goals.len(),
            forall|j: int| 0 <= j < i ==> a.goals@[j] == b.goals@[j],
        decreases a.goals.len() - i,
    {
        if a.goals[i] != b.goals[i] {
            proof {
                if a@ == b@ {
                    assert(a@.goals[i as int] == b@.goals[i as int]);
                }
            }
            return false;
        }
        i = i + 1;
    }
    proof {
        assert(a@.entities =~= b@.entities);
        assert(a@.powerups =~= b@.powerups);
        assert(a@.goals =~= b@.goals);
    }
    true
}

} // verus!

verus! {

/// What a click of the level editor places or changes.
pub enum ToolType {
    Entity(String),
    SideEffect(Effect),
    Powerup(Effect),
    Goal,
    Eraser,
}

/// A tool of the level editor: what it places, turned by `angle`.
pub struct Tool {
    pub angle: IntAngle,
    pub tool_type: ToolType,
}

/// The name an effect has in the editor's tiles.
pub open spec fn effect_name(e: Effect) -> Seq<char> {
    match e {
        Effect::Jump => "Jump"@,
        Effect::Slide => "Slide"@,
        Effect::Magnet => "Magnet"@,
        Effect::WeakMagnet => "WeakMagnet"@,
        Effect::DisableTrigger => "DisableTrigger"@,
        Effect::DisableGravity => "DisableGravity"@,
    }
}

fn effect_name_str(e: Effect) -> (r: &'static str)
    ensures
        r@ == effect_name(e),
{
    match e {
        Effect::Jump => "Jump",
        Effect::Slide => "Slide",
        Effect::Magnet => "Magnet",
        Effect::WeakMagnet => "WeakMagnet",
        Effect::DisableTrigger => "DisableTrigger",
        Effect::DisableGravity => "DisableGravity",
    }
}

impl ToolType {
    pub open spec fn spec_delete_underneath(&self) -> bool {
        !(self is SideEffect)
    }

    /// Whether using the tool first clears the cell.
    pub fn delete_underneath(&self) -> (r: bool)
        ensures
            r == self.spec_delete_underneath(),
    {
        match self {
            ToolType::SideEffect(_) => false,
            ToolType::Eraser => true,
            _ => true,
        }
    }

    pub open spec fn spec_tile_name(&self) -> Seq<char> {
        match self {
            ToolType::Entity(name) => name@,
            ToolType::SideEffect(e) => effect_name(*e) + "Power"@,
            ToolType::Powerup(e) => effect_name(*e) + "Power"@,
            ToolType::Goal => "Goal"@,
            ToolType::Eraser => "Eraser"@,
        }
    }

    /// The name of the tile that shows the tool.
    pub fn tile_name(&self) -> (r: String)
        ensures
            r@ == self.spec_tile_name(),
    {
        match self {
            ToolType::Entity(name) => name.clone(),
            ToolType::SideEffect(e) => {
                let mut s = effect_name_str(*e).to_owned();
                s.append("Power");
                s
            },
            ToolType::Powerup(e) => {
                let mut s = effect_name_str(*e).to_owned();
                s.append("Power");
                s
            },
            ToolType::Goal => "Goal".to_owned(),
            ToolType::Eraser => "Eraser".to_owned(),
        }
    }

    /// Whether the editor shows where the tool would place something.
    pub fn show_preview(&self) -> (r: bool)
        ensures
            r == !(self is Eraser),
    {
        match self {
            ToolType::Eraser => false,
            _ => true,
        }
    }
}

/// Index of the first entity of a level standing in `cell`.
pub open spec fn entity_at(ents: Seq<EntityView>, cell: Vec2) -> Option<int>
    decreases ents.len(),
{
    if ents.len() == 0 {
        None
    } else {
        match entity_at(ents.drop_last(), cell) {
            Some(k) => Some(k),
            None => if ents.last().pos.cell == cell {
                Some(ents.len() - 1)
            } else {
                None
            },
        }
    }
}

pub open spec fn powerup_at(ps: Seq<level::Powerup>, cell: Vec2) -> Option<int>
    decreases ps.len(),
{
    if ps.len() == 0 {
        None
    } else {
        match powerup_at(ps.drop_last(), cell) {
            Some(k) => Some(k),
            None => if ps.last().pos.cell == cell {
                Some(ps.len() - 1)
            } else {
                None
            },
        }
    }
}

pub open spec fn goal_at(gs: Seq<level::Goal>, cell: Vec2) -> Option<int>
    decreases gs.len(),
{
    if gs.len() == 0 {
        None
    } else {
        match goal_at(gs.drop_last(), cell) {
            Some(k) => Some(k),
            None => if gs.last().pos.cell == cell {
                Some(gs.len() - 1)
            } else {
                None
            },
        }
    }
}

proof fn lemma_entity_at(ents: Seq<EntityView>, cell: Vec2)
    ensures
        entity_at(ents, cell) matches Some(k) ==> 0 <= k < ents.len() && ents[k].pos.cell == cell && forall|j: int|
            0 <= j < k ==> (#[trigger] ents[j]).pos.cell != cell,
        entity_at(ents, cell) is None ==> forall|j: int| 0 <= j < ents.len() ==> (#[trigger] ents[j]).pos.cell != cell,
    decreases ents.len(),
{
    if ents.len() > 0 {
        lemma_entity_at(ents.drop_last(), cell);
        assert forall|j: int| 0 <= j < ents.len() - 1 implies ents.drop_last()[j] == ents[j] by {}
    }
}

fn find_entity_at(ents: &Vec<level::Entity>, cell: Vec2) -> (r: Option<usize>)
    ensures
        r matches Some(k) ==> entity_at(entity_views(ents@), cell) == Some(k as int) && k < ents@.len(),
        r is None ==> entity_at(entity_views(ents@), cell) is None,
{
    let mut k: usize = 0;
    while k < ents.len()
        invariant
            k <= ents.len(),
            forall|j: int| 0 <= j < k ==> (#[trigger] ents@[j]).pos.cell != cell,
        decreases ents.len() - k,
    {
        if ents[k].pos.cell == cell {
            proof {
                let vs = entity_views(ents@);
                lemma_entity_at(vs, cell);
                assert(vs[k as int].pos.cell == cell);
                assert forall|j: int| 0 <= j < k implies (#[trigger] vs[j]).pos.cell != cell by {
                    assert(vs[j] == entity_view(ents@[j]));
                }
            }
            return Some(k);
        }
        k = k + 1;
    }
    proof {
        let vs = entity_views(ents@);
        lemma_entity_at(vs, cell);
        assert forall|j: int| 0 <= j < vs.len() implies (#[trigger] vs[j]).pos.cell != cell by {
            assert(vs[j] == entity_view(ents@[j]));
        }
    }
    None
}

proof fn lemma_powerup_at(ps: Seq<level::Powerup>, cell: Vec2)
    ensures
        powerup_at(ps, cell) matches Some(k) ==> 0 <= k < ps.len() && ps[k].pos.cell == cell && forall|j: int|
            0 <= j < k ==> (#[trigger] ps[j]).pos.cell != cell,
        powerup_at(ps, cell) is None ==> forall|j: int| 0 <= j < ps.len() ==> (#[trigger] ps[j]).pos.cell != cell,
    decreases ps.len(),
{
    if ps.len() > 0 {
        lemma_powerup_at(ps.drop_last(), cell);
        assert forall|j: int| 0 <= j < ps.len() - 1 implies ps.drop_last()[j] == ps[j] by {}
    }
}

proof fn lemma_goal_at(gs: Seq<level::Goal>, cell: Vec2)
    ensures
        goal_at(gs, cell) matches Some(k) ==> 0 <= k < gs.len() && gs[k].pos.cell == cell && forall|j: int|
            0 <= j < k ==> (#[trigger] gs[j]).pos.cell != cell,
        goal_at(gs, cell) is None ==> forall|j: int| 0 <= j < gs.len() ==> (#[trigger] gs[j]).pos.cell != cell,
    decreases gs.len(),
{
    if gs.len() > 0 {
        lemma_goal_at(gs.drop_last(), cell);
        assert forall|j: int| 0 <= j < gs.len() - 1 implies gs.drop_last()[j] == gs[j] by {}
    }
}

/// What a tool places, as plain values.
pub enum ToolTypeView {
    Entity(Seq<char>),
    SideEffect(Effect),
    Powerup(Effect),
    Goal,
    Eraser,
}

pub open spec fn tool_type_view(t: ToolType) -> ToolTypeView {
    match t {
        ToolType::Entity(name) => ToolTypeView::Entity(name@),
        ToolType::SideEffect(e) => ToolTypeView::SideEffect(e),
        ToolType::Powerup(e) => ToolTypeView::Powerup(e),
        ToolType::Goal => ToolTypeView::Goal,
        ToolType::Eraser => ToolTypeView::Eraser,
    }
}

pub open spec fn tool_view(t: Tool) -> (IntAngle, ToolTypeView) {
    (t.angle, tool_type_view(t.tool_type))
}

/// A tool that places what stands in `cell`: the first entity there, else the
/// first powerup, else the first goal, turned as it is.
pub open spec fn spec_pick(l: LevelView, cell: Vec2) -> Option<(IntAngle, ToolTypeView)> {
    match entity_at(l.entities, cell) {
        Some(k) => Some((l.entities[k].pos.angle, ToolTypeView::Entity(l.entities[k].identifier))),
        None => match powerup_at(l.powerups, cell) {
            Some(k) => Some((l.powerups[k].pos.angle, ToolTypeView::Powerup(l.powerups[k].effect))),
            None => match goal_at(l.goals, cell) {
                Some(k) => Some((l.goals[k].pos.angle, ToolTypeView::Goal)),
                None => None,
            },
        },
    }
}

/// The tools of the tool wheel, in order: one per kind of entity that the
/// configuration names (turned right), a powerup of each effect (turned
/// down), a side effect of each effect (turned down), the goal and the
/// eraser (turned right).
pub open spec fn spec_wheel_tools(names: Seq<Seq<char>>) -> Seq<(IntAngle, ToolTypeView)> {
    let effects = seq![Effect::Jump, Effect::Magnet, Effect::Slide, Effect::DisableTrigger];
    names.map_values(|n: Seq<char>| (IntAngle(0), ToolTypeView::Entity(n))) + effects.map_values(
        |e: Effect| (IntAngle(3), ToolTypeView::Powerup(e)),
    ) + effects.map_values(|e: Effect| (IntAngle(3), ToolTypeView::SideEffect(e))) + seq![
        (IntAngle(0), ToolTypeView::Goal),
        (IntAngle(0), ToolTypeView::Eraser),
    ]
}

/// The names of the kinds of entity that a configuration describes.
pub open spec fn config_names(c: Config) -> Seq<Seq<char>> {
    c.entities@.map_values(|p: (String, Properties)| p.0@)
}

/// The tools that the tool wheel offers.
pub fn wheel_tools(config: &Config) -> (r: Vec<Tool>)
    ensures
        r@.map_values(|t: Tool| tool_view(t)) == spec_wheel_tools(config_names(*config)),
{
    let mut r: Vec<Tool> = Vec::new();
    let mut k: usize = 0;
    while k < config.entities.len()
        invariant
            k <= config.entities.len(),
            r@.map_values(|t: Tool| tool_view(t)) == config_names(*config).take(k as int).map_values(
                |n: Seq<char>| (IntAngle(0), ToolTypeView::Entity(n)),
            ),
        decreases config.entities.len() - k,
    {
        let ghost before = r@;
        r.push(Tool { angle: IntAngle::right(), tool_type: ToolType::Entity(config.entities[k].0.clone()) });
        proof {
            assert(config_names(*config).take(k + 1) =~= config_names(*config).take(k as int).push(
                config.entities@[k as int].0@,
            ));
            assert(r@.map_values(|t: Tool| tool_view(t)) =~= before.map_values(|t: Tool| tool_view(t)).push(
                (IntAngle(0), ToolTypeView::Entity(config.entities@[k as int].0@)),
            ));
        }
        k = k + 1;
    }
    proof {
        assert(config_names(*config).take(k as int) =~= config_names(*config));
    }
    let ghost entities_part = r@.map_values(|t: Tool| tool_view(t));
    let effects = Effect::iter_variants();
    let mut k: usize = 0;
    while k < effects.len()
        invariant
            k <= effects.len(),
            effects@ == seq![Effect::Jump, Effect::Magnet, Effect::Slide, Effect::DisableTrigger],
            r@.map_values(|t: Tool| tool_view(t)) == entities_part + effects@.take(k as int).map_values(
                |e: Effect| (IntAngle(3), ToolTypeView::Powerup(e)),
            ),
        decreases effects.len() - k,
    {
        let ghost before = r@;
        r.push(Tool { angle: IntAngle::down(), tool_type: ToolType::Powerup(effects[k]) });
        proof {
            assert(effects@.take(k + 1) =~= effects@.take(k as int).push(effects@[k as int]));
            assert(r@.map_values(|t: Tool| tool_view(t)) =~= before.map_values(|t: Tool| tool_view(t)).push(
                (IntAngle(3), ToolTypeView::Powerup(effects@[k as int])),
            ));
        }
        k = k + 1;
    }
    proof {
        assert(effects@.take(k as int) =~= effects@);
    }
    let ghost powerups_part = r@.map_values(|t: Tool| tool_view(t));
    let mut k: usize = 0;
    while k < effects.len()
        invariant
            k <= effects.len(),
            effects@ == seq![Effect::Jump, Effect::Magnet, Effect::Slide, Effect::DisableTrigger],
            r@.map_values(|t: Tool| tool_view(t)) == powerups_part + effects@.take(k as int).map_values(
                |e: Effect| (IntAngle(3), ToolTypeView::SideEffect(e)),
            ),
        decreases effects.len() - k,
    {
        let ghost before = r@;
        r.push(Tool { angle: IntAngle::down(), tool_type: ToolType::SideEffect(effects[k]) });
        proof {
            assert(effects@.take(k + 1) =~= effects@.take(k as int).push(effects@[k as int]));
            assert(r@.map_values(|t: Tool| tool_view(t)) =~= before.map_values(|t: Tool| tool_view(t)).push(
                (IntAngle(3), ToolTypeView::SideEffect(effects@[k as int])),
            ));
        }
        k = k + 1;
    }
    proof {
        assert(effects@.take(k as int) =~= effects@);
    }
    let ghost side_part = r@.map_values(|t: Tool| tool_view(t));
    r.push(Tool { angle: IntAngle::right(), tool_type: ToolType::Goal });
    r.push(Tool { angle: IntAngle::right(), tool_type: ToolType::Eraser });
    proof {
        assert(r@.map_values(|t: Tool| tool_view(t)) =~= side_part + seq![
            (IntAngle(0), ToolTypeView::Goal),
            (IntAngle(0), ToolTypeView::Eraser),
        ]);
        assert(r@.map_values(|t: Tool| tool_view(t)) =~= spec_wheel_tools(config_names(*config)));
    }
    r
}

impl Tool {
    /// The tool that would place what stands in `cell`, if anything does.
    pub fn pick(level: &Level, cell: Vec2) -> (r: Option<Tool>)
        ensures
            match r {
                Some(t) => spec_pick(level@, cell) == Some(tool_view(t)),
                None => spec_pick(level@, cell) is None,
            },
    {
        if let Some(k) = find_entity_at(&level.entities, cell) {
            let e = &level.entities[k];
            return Some(Tool { angle: e.pos.angle, tool_type: ToolType::Entity(e.identifier.clone()) });
        }
        let mut k: usize = 0;
        while k < level.powerups.len()
            invariant
                k <= level.powerups.len(),
                entity_at(level@.entities, cell) is None,
                forall|j: int| 0 <= j < k ==> (#[trigger] level.powerups@[j]).pos.cell != cell,
            decreases level.powerups.len() - k,
        {
            if level.powerups[k].pos.cell == cell {
                proof {
                    lemma_powerup_at(level.powerups@, cell);
                }
                return Some(Tool { angle: level.powerups[k].pos.angle, tool_type: ToolType::Powerup(level.powerups[k].effect) });
            }
            k = k + 1;
        }
        let mut k: usize = 0;
        while k < level.goals.len()
            invariant
                k <= level.goals.len(),
                entity_at(level@.entities, cell) is None,
                forall|j: int| 0 <= j < level.powerups@.len() ==> (#[trigger] level.powerups@[j]).pos.cell != cell,
                forall|j: int| 0 <= j < k ==> (#[trigger] level.goals@[j]).pos.cell != cell,
            decreases level.goals.len() - k,
        {
            if level.goals[k].pos.cell == cell {
                proof {
                    lemma_powerup_at(level.powerups@, cell);
                    lemma_goal_at(level.goals@, cell);
                }
                return Some(Tool { angle: level.goals[k].pos.angle, tool_type: ToolType::Goal });
            }
            k = k + 1;
        }
        proof {
            lemma_powerup_at(level.powerups@, cell);
            lemma_goal_at(level.goals@, cell);
        }
        None
    }
}

} // verus!

verus! {

pub open spec fn keep_entities(s: Seq<EntityView>, cell: Vec2) -> Seq<EntityView>
    decreases s.len(),
{
    if s.len() == 0 {
        seq![]
    } else {
        let rest = keep_entities(s.drop_last(), cell);
        if s.last().pos.cell != cell {
            rest.push(s.last())
        } else {
            rest
        }
    }
}

pub open spec fn keep_powerups(s: Seq<level::Powerup>, cell: Vec2) -> Seq<level::Powerup>
    decreases s.len(),
{
    if s.len() == 0 {
        seq![]
    } else {
        let rest = keep_powerups(s.drop_last(), cell);
        if s.last().pos.cell != cell {
            rest.push(s.last())
        } else {
            rest
        }
    }
}

pub open spec fn keep_goals(s: Seq<level::Goal>, cell: Vec2) -> Seq<level::Goal>
    decreases s.len(),
{
    if s.len() == 0 {
        seq![]
    } else {
        let rest = keep_goals(s.drop_last(), cell);
        if s.last().pos.cell != cell {
            rest.push(s.last())
        } else {
            rest
        }
    }
}

/// The level with everything in `cell` removed.
pub open spec fn spec_delete(l: LevelView, cell: Vec2) -> LevelView {
    LevelView {
        entities: keep_entities(l.entities, cell),
        powerups: keep_powerups(l.powerups, cell),
        goals: keep_goals(l.goals, cell),
    }
}

/// Rust's remainder, which takes the sign of the dividend.
pub open spec fn trunc_rem(a: int, b: int) -> int {
    if a >= 0 {
        a % b
    } else {
        -((-a) % b)
    }
}

/// The index given to a player: the one asked for, else the next after
/// its current one (cycling through 1 to 9), else 1.
pub open spec fn next_index(current: Option<i32>, asked: Option<i32>) -> i32 {
    match asked {
        Some(i) => i,
        None => match current {
            Some(i) => (trunc_rem(i as int, 9) + 1) as i32,
            None => 1,
        },
    }
}

/// The level with the player index of the first entity in `cell` changed,
/// when that entity is a player.
pub open spec fn spec_assign_index(l: LevelView, cell: Vec2, index: Option<i32>) -> LevelView {
    match entity_at(l.entities, cell) {
        Some(k) => if l.entities[k].identifier == "Player"@ {
            LevelView {
                entities: l.entities.update(
                    k,
                    EntityView { index: Some(next_index(l.entities[k].index, index)), ..l.entities[k] },
                ),
                ..l
            }
        } else {
            l
        },
        None => l,
    }
}

pub open spec fn blank_sides() -> Seq<Side> {
    seq![Side { effect: None }, Side { effect: None }, Side { effect: None }, Side { effect: None }]
}

/// The level after a tool is used on `cell`, when that use does not assign
/// a player index: the cell is cleared first when the tool asks for it, then
/// the tool places its thing turned by its angle (a side effect goes on the
/// side of the first entity in the cell that faces the tool's angle).
pub open spec fn spec_place(l: LevelView, tool: (IntAngle, ToolTypeView), cell: Vec2) -> LevelView {
    let angle = tool.0;
    let tt = tool.1;
    let is_player_tool = tt == ToolTypeView::Entity("Player"@);
    let clear = if is_player_tool {
        entity_at(l.entities, cell) is Some
    } else {
        !(tt is SideEffect)
    };
    let l1 = if clear {
        spec_delete(l, cell)
    } else {
        l
    };
    let pos = Position { cell, angle };
    match tt {
        ToolTypeView::Entity(name) => LevelView {
            entities: l1.entities.push(EntityView { index: None, identifier: name, pos, sides: blank_sides() }),
            ..l1
        },
        ToolTypeView::SideEffect(e) => match entity_at(l1.entities, cell) {
            Some(k) => LevelView {
                entities: l1.entities.update(
                    k,
                    EntityView {
                        sides: l1.entities[k].sides.update(
                            spec_side_index(l1.entities[k].pos.angle, angle),
                            Side { effect: Some(e) },
                        ),
                        ..l1.entities[k]
                    },
                ),
                ..l1
            },
            None => l1,
        },
        ToolTypeView::Powerup(e) => LevelView { powerups: l1.powerups.push(level::Powerup { pos, effect: e }), ..l1 },
        ToolTypeView::Goal => LevelView { goals: l1.goals.push(level::Goal { pos }), ..l1 },
        ToolTypeView::Eraser => l1,
    }
}

/// Whether using the tool on `cell` assigns a player index instead of
/// placing anything: the player tool on a player.
pub open spec fn tool_assigns(l: LevelView, tool: (IntAngle, ToolTypeView), cell: Vec2) -> bool {
    tool.1 == ToolTypeView::Entity("Player"@) && match entity_at(l.entities, cell) {
        Some(k) => l.entities[k].identifier == "Player"@,
        None => false,
    }
}

impl Level {
    /// Removes everything that stands in `cell`.
    pub fn delete_at(&mut self, cell: Vec2)
        ensures
            final(self)@ == spec_delete(old(self)@, cell),
    {
        let mut entities: Vec<level::Entity> = Vec::new();
        let mut i: usize = 0;
        while i < self.entities.len()
            invariant
                i <= self.entities.len(),
                self.entities@ == old(self).entities@,
                entity_views(entities@) == keep_entities(entity_views(self.entities@).take(i as int), cell),
            decreases self.entities.len() - i,
        {
            let ghost before = entities@;
            proof {
                assert(entity_views(self.entities@).take(i + 1).drop_last() =~= entity_views(self.entities@).take(i as int));
            }
            if self.entities[i].pos.cell != cell {
                entities.push(clone_entity(&self.entities[i]));
                proof {
                    assert(entity_views(entities@) =~= entity_views(before).push(entity_view(self.entities@[i as int])));
                }
            }
            i = i + 1;
        }
        proof {
            assert(entity_views(self.entities@).take(self.entities@.len() as int) =~= entity_views(self.entities@));
        }
        let mut powerups: Vec<level::Powerup> = Vec::new();
        let mut i: usize = 0;
        while i < self.powerups.len()
            invariant
                i <= self.powerups.len(),
                powerups@ == keep_powerups(self.powerups@.take(i as int), cell),
            decreases self.powerups.len() - i,
        {
            proof {
                assert(self.powerups@.take(i + 1).drop_last() =~= self.powerups@.take(i as int));
            }
            if self.powerups[i].pos.cell != cell {
                powerups.push(self.powerups[i]);
            }
            i = i + 1;
        }
        proof {
            assert(self.powerups@.take(self.powerups@.len() as int) =~= self.powerups@);
        }
        let mut goals: Vec<level::Goal> = Vec::new();
        let mut i: usize = 0;
        while i < self.goals.len()
            invariant
                i <= self.goals.len(),
                goals@ == keep_goals(self.goals@.take(i as int), cell),
            decreases self.goals.len() - i,
        {
            proof {
                assert(self.goals@.take(i + 1).drop_last() =~= self.goals@.take(i as int));
            }
            if self.goals[i].pos.cell != cell {
                goals.push(self.goals[i]);
            }
            i = i + 1;
        }
        proof {
            assert(self.goals@.take(self.goals@.len() as int) =~= self.goals@);
        }
        self.entities = entities;
        self.powerups = powerups;
        self.goals = goals;
    }

    /// Gives the first entity in `cell`, if it is a player, a player index:
    /// `index` if given, else the next one after its current index.
    pub fn assign_player_index(&mut self, cell: Vec2, index: Option<i32>)
        ensures
            final(self)@ == spec_assign_index(old(self)@, cell, index),
    {
        if let Some(k) = find_entity_at(&self.entities, cell) {
            if str_eq(self.entities[k].identifier.as_str(), "Player") {
                let new_index = match index {
                    Some(i) => i,
                    None => match self.entities[k].index {
                        Some(i) => i % 9 + 1,
                        None => 1,
                    },
                };
                self.entities[k].index = Some(new_index);
                proof {
                    assert(self@.entities =~= old(self)@.entities.update(
                        k as int,
                        EntityView { index: Some(new_index), ..old(self)@.entities[k as int] },
                    ));
                }
            }
        }
    }

    /// Moves entity `index` to `cell`.
    pub fn move_entity(&mut self, index: usize, cell: Vec2)
        requires
            index < old(self).entities@.len(),
        ensures
            final(self)@ == (LevelView {
                entities: old(self)@.entities.update(
                    index as int,
                    EntityView {
                        pos: Position { cell, angle: old(self)@.entities[index as int].pos.angle },
                        ..old(self)@.entities[index as int]
                    },
                ),
                ..old(self)@
            }),
    {
        self.entities[index].pos.cell = cell;
        assert(self@.entities =~= old(self)@.entities.update(
            index as int,
            EntityView {
                pos: Position { cell, angle: old(self)@.entities[index as int].pos.angle },
                ..old(self)@.entities[index as int]
            },
        ));
    }

    /// Uses a tool on `cell`, when that does not assign a player index.
    pub fn place(&mut self, tool: &Tool, cell: Vec2)
        ensures
            final(self)@ == spec_place(old(self)@, tool_view(*tool), cell),
    {
        let is_player_tool = match &tool.tool_type {
            ToolType::Entity(name) => str_eq(name.as_str(), "Player"),
            _ => false,
        };
        let clear = if is_player_tool {
            find_entity_at(&self.entities, cell).is_some()
        } else {
            tool.tool_type.delete_underneath()
        };
        proof {
            assert(is_player_tool == (tool_view(*tool).1 == ToolTypeView::Entity("Player"@)));
        }
        if clear {
            self.delete_at(cell);
        }
        let ghost l1 = self@;
        let pos = Position { cell, angle: tool.angle };
        match &tool.tool_type {
            ToolType::Entity(name) => {
                let blank = Side { effect: None };
                self.entities.push(level::Entity { index: None, identifier: name.clone(), pos, sides: [blank, blank, blank, blank] });
                proof {
                    assert(self.entities@.last().sides@ =~= blank_sides());
                    assert(self@.entities =~= l1.entities.push(
                        EntityView { index: None, identifier: name@, pos, sides: blank_sides() },
                    ));
                }
            },
            ToolType::SideEffect(e) => {
                if let Some(k) = find_entity_at(&self.entities, cell) {
                    let side_index = self.entities[k].side_index(tool.angle);
                    self.entities[k].sides[side_index] = Side { effect: Some(*e) };
                    proof {
                        assert(self@.entities =~= l1.entities.update(
                            k as int,
                            EntityView {
                                sides: l1.entities[k as int].sides.update(side_index as int, Side { effect: Some(*e) }),
                                ..l1.entities[k as int]
                            },
                        ));
                    }
                }
            },
            ToolType::Powerup(e) => {
                self.powerups.push(level::Powerup { pos, effect: *e });
            },
            ToolType::Goal => {
                self.goals.push(level::Goal { pos });
            },
            ToolType::Eraser => {},
        }
    }
}

} // verus!

verus! {

/// The level editor: the level being edited, its history for undo and
/// redo, the last saved version and the current tool.
pub struct LevelEditor {
    level: Level,
    history: Vec<Level>,
    history_pos: usize,
    saved: Level,
    saved_at: Option<usize>,
    tool: Tool,
    show_grid: bool,
}

/// The editor's state as plain values.
pub struct EditorView {
    pub level: LevelView,
    pub history: Seq<LevelView>,
    pub pos: int,
    pub saved: LevelView,
    /// The history entry that was saved, while it is still in the history.
    pub saved_at: Option<int>,
    /// The current tool: the angle it places things at and what it places.
    pub tool: (IntAngle, ToolTypeView),
    /// Whether the grid is drawn.
    pub show_grid: bool,
}

impl EditorView {
    /// The position in the history is a valid one, and the saved entry, if
    /// still in the history, is the saved level.
    pub open spec fn wf(self) -> bool {
        &&& 0 <= self.pos < self.history.len()
        &&& self.saved_at matches Some(i) ==> 0 <= i < self.history.len() && self.history[i] == self.saved
    }
}

pub open spec fn history_views(h: Seq<Level>) -> Seq<LevelView> {
    Seq::new(h.len(), |k: int| h[k]@)
}

impl View for LevelEditor {
    type V = EditorView;

    closed spec fn view(&self) -> EditorView {
        EditorView {
            level: self.level@,
            history: history_views(self.history@),
            pos: self.history_pos as int,
            saved: self.saved@,
            saved_at: match self.saved_at {
                Some(i) => Some(i as int),
                None => None,
            },
            tool: tool_view(self.tool),
            show_grid: self.show_grid,
        }
    }
}

/// After an edit: when the level differs from the current history entry,
/// the entries after the current one are dropped and the level becomes the
/// new current entry.
pub open spec fn spec_push_history(e: EditorView) -> EditorView {
    if e.level != e.history[e.pos] {
        EditorView {
            history: e.history.take(e.pos + 1).push(e.level),
            pos: e.pos + 1,
            saved_at: match e.saved_at {
                Some(i) => if i >= e.pos + 1 {
                    None
                } else {
                    Some(i)
                },
                None => None,
            },
            ..e
        }
    } else {
        e
    }
}

/// A move through the history: the level becomes the history entry `delta`
/// steps away, if there is one.
pub open spec fn spec_change_history_pos(e: EditorView, delta: int) -> EditorView {
    let new_pos = e.pos + delta;
    if new_pos < 0 || new_pos >= e.history.len() {
        e
    } else {
        EditorView { pos: new_pos, level: e.history[new_pos], ..e }
    }
}

/// Saving: the level is written into the current history entry, and that
/// entry is what was saved.
pub open spec fn spec_save(e: EditorView) -> EditorView {
    EditorView {
        history: if e.history[e.pos] != e.level {
            e.history.update(e.pos, e.level)
        } else {
            e.history
        },
        saved: e.level,
        saved_at: Some(e.pos),
        ..e
    }
}

impl LevelEditor {
    /// An editor for `level`, which counts as saved, with the player tool.
    pub fn new(level: Level) -> (r: LevelEditor)
        ensures
            r@.level == level@,
            r@.history == seq![level@],
            r@.pos == 0,
            r@.saved == level@,
            r@.saved_at == Some(0int),
            r@.wf(),
            r@.tool == (IntAngle(0), ToolTypeView::Entity("Player"@)),
            r@.show_grid,
    {
        let saved = clone_level(&level);
        let first = clone_level(&level);
        let mut history: Vec<Level> = Vec::new();
        history.push(first);
        let r = LevelEditor {
            level,
            history,
            history_pos: 0,
            saved,
            saved_at: Some(0),
            tool: Tool { angle: IntAngle::right(), tool_type: ToolType::Entity("Player".to_owned()) },
            show_grid: true,
        };
        assert(r@.history =~= seq![r.level@]);
        r
    }

    /// Whether the editor's state is consistent: its position lies in the
    /// history and the saved entry, if still there, holds the saved level.
    /// Every editor that the methods here make is.
    pub fn is_consistent(&self) -> (r: bool)
        ensures
            r == self@.wf(),
    {
        if self.history_pos >= self.history.len() {
            return false;
        }
        match self.saved_at {
            Some(i) => i < self.history.len() && levels_equal(&self.history[i], &self.saved),
            None => true,
        }
    }

    /// Whether the current history entry is the saved one.
    pub fn saved(&self) -> (r: bool)
        ensures
            r == (self@.saved_at == Some(self@.pos)),
    {
        match self.saved_at {
            Some(i) => i == self.history_pos,
            None => false,
        }
    }

    /// The level that was saved last.
    pub fn saved_level(&self) -> (r: &Level)
        ensures
            r@ == self@.saved,
    {
        &self.saved
    }

    /// Marks the level as saved; the caller writes `saved_level` to disk.
    pub fn save(&mut self)
        requires
            old(self)@.wf(),
        ensures
            final(self)@ == spec_save(old(self)@),
            final(self)@.wf(),
    {
        let pos = self.history_pos;
        if !levels_equal(&self.history[pos], &self.level) {
            let copy = clone_level(&self.level);
            self.history.set(pos, copy);
        }
        self.saved = clone_level(&self.history[pos]);
        self.saved_at = Some(pos);
        proof {
            assert(self@.history =~= spec_save(old(self)@).history);
        }
    }

    /// The level goes back to the last saved version.
    pub fn reset_to_last_save(&mut self)
        ensures
            final(self)@ == (EditorView { level: old(self)@.saved, ..old(self)@ }),
    {
        self.level = clone_level(&self.saved);
    }

    /// Moves through the history by `delta` entries, if there is an entry there.
    pub fn change_history_pos(&mut self, delta: isize)
        requires
            old(self)@.wf(),
            old(self)@.history.len() <= isize::MAX,
            old(self)@.pos + delta <= isize::MAX,
        ensures
            final(self)@ == spec_change_history_pos(old(self)@, delta as int),
            final(self)@.wf(),
    {
        let new_pos = self.history_pos as isize + delta;
        if new_pos < 0 || new_pos >= self.history.len() as isize {
            return;
        }
        let new_pos = new_pos as usize;
        self.history_pos = new_pos;
        self.level = clone_level(&self.history[new_pos]);
    }

    /// Back one history entry.
    pub fn undo(&mut self)
        requires
            old(self)@.wf(),
            old(self)@.history.len() <= isize::MAX,
        ensures
            final(self)@ == spec_change_history_pos(old(self)@, -1),
            final(self)@.wf(),
    {
        self.change_history_pos(-1);
    }

    /// Forward one history entry.
    pub fn redo(&mut self)
        requires
            old(self)@.wf(),
            old(self)@.history.len() <= isize::MAX,
        ensures
            final(self)@ == spec_change_history_pos(old(self)@, 1),
            final(self)@.wf(),
    {
        self.change_history_pos(1);
    }

    /// Records the level as a new history entry, when it changed.
    pub fn push_history_if_needed(&mut self)
        requires
            old(self)@.wf(),
        ensures
            final(self)@ == spec_push_history(old(self)@),
            final(self)@.wf(),
    {
        let pos = self.history_pos;
        let len = self.history.len();
        if !levels_equal(&self.level, &self.history[pos]) {
            let new_pos = pos + 1;
            self.history.truncate(new_pos);
            self.history.push(clone_level(&self.level));
            self.history_pos = new_pos;
            match self.saved_at {
                Some(i) => {
                    if i >= new_pos {
                        self.saved_at = None;
                    }
                },
                None => {},
            }
            proof {
                assert(self@.history =~= old(self)@.history.take(pos + 1).push(old(self)@.level));
            }
        }
    }

    /// Gives the player in `cell` a player index and records the change.
    pub fn assign_index(&mut self, cell: Vec2, index: Option<i32>)
        requires
            old(self)@.wf(),
        ensures
            final(self)@ == spec_push_history(
                EditorView { level: spec_assign_index(old(self)@.level, cell, index), ..old(self)@ },
            ),
            final(self)@.wf(),
    {
        self.level.assign_player_index(cell, index);
        self.push_history_if_needed();
    }

    /// A click on `cell`: the player tool on a player assigns the next player
    /// index; any other use places the tool's thing. Either way the change
    /// is recorded.
    pub fn click(&mut self, cell: Vec2)
        requires
            old(self)@.wf(),
        ensures
            final(self)@ == spec_push_history(
                EditorView {
                    level: if tool_assigns(old(self)@.level, old(self)@.tool, cell) {
                        spec_assign_index(old(self)@.level, cell, None)
                    } else {
                        spec_place(old(self)@.level, old(self)@.tool, cell)
                    },
                    ..old(self)@
                },
            ),
            final(self)@.wf(),
    {
        let is_player_tool = match &self.tool.tool_type {
            ToolType::Entity(name) => str_eq(name.as_str(), "Player"),
            _ => false,
        };
        let assigns = if is_player_tool {
            match find_entity_at(&self.level.entities, cell) {
                Some(k) => str_eq(self.level.entities[k].identifier.as_str(), "Player"),
                None => false,
            }
        } else {
            false
        };
        proof {
            assert(is_player_tool == (tool_view(self.tool).1 == ToolTypeView::Entity("Player"@)));
            assert(assigns == tool_assigns(old(self)@.level, old(self)@.tool, cell));
        }
        if assigns {
            self.level.assign_player_index(cell, None);
        } else {
            self.level.place(&self.tool, cell);
        }
        self.push_history_if_needed();
    }

    /// Drops the dragged entity `index` in `cell` and records the change.
    pub fn drop_entity(&mut self, index: usize, cell: Vec2)
        requires
            old(self)@.wf(),
            index < old(self)@.level.entities.len(),
        ensures
            final(self)@ == spec_push_history(
                EditorView {
                    level: LevelView {
                        entities: old(self)@.level.entities.update(
                            index as int,
                            EntityView {
                                pos: Position {
                                    cell,
                                    angle: old(self)@.level.entities[index as int].pos.angle,
                                },
                                ..old(self)@.level.entities[index as int]
                            },
                        ),
                        ..old(self)@.level
                    },
                    ..old(self)@
                },
            ),
            final(self)@.wf(),
    {
        self.level.move_entity(index, cell);
        self.push_history_if_needed();
    }

    /// The level being edited.
    pub fn level(&self) -> (r: &Level)
        ensures
            r@ == self@.level,
    {
        &self.level
    }

    /// The current tool.
    pub fn tool(&self) -> (r: &Tool)
        ensures
            tool_view(*r) == self@.tool,
    {
        &self.tool
    }

    /// Takes up another tool.
    pub fn set_tool(&mut self, tool: Tool)
        ensures
            final(self)@ == (EditorView { tool: tool_view(tool), ..old(self)@ }),
    {
        self.tool = tool;
    }

    /// Takes up the tool that places what stands in `cell`, if anything does.
    pub fn pick_tool(&mut self, cell: Vec2)
        ensures
            final(self)@ == (match spec_pick(old(self)@.level, cell) {
                Some(t) => EditorView { tool: t, ..old(self)@ },
                None => old(self)@,
            }),
    {
        if let Some(tool) = Tool::pick(&self.level, cell) {
            self.tool = tool;
        }
    }

    /// Turns the tool one step: counter-clockwise for a negative `delta`,
    /// clockwise for a positive one.
    pub fn rotate_tool(&mut self, delta: i32)
        ensures
            final(self)@ == (EditorView {
                tool: (
                    old(self)@.tool.0.spec_with_input(Input::spec_from_sign(delta as int)),
                    old(self)@.tool.1,
                ),
                ..old(self)@
            }),
    {
        self.tool.angle = self.tool.angle.with_input(Input::from_sign(delta));
    }
}

/// A key of the level editor, as the editor's controls name it, with the
/// cell under the cursor where the key acts on one.
#[derive(Copy, Clone, Debug, PartialEq, Eq, Structural)]
pub enum EditorKey {
    /// Leave the editor.
    Escape,
    /// Show or hide the grid.
    Grid,
    ResetToLastSave,
    /// Play the level.
    Toggle,
    /// The tool wheel key went down (`true`) or up (`false`).
    Choose(bool),
    /// Take up the tool that places what stands in the cell.
    Pick(Vec2),
    /// Turn the tool; with shift held, the other way.
    Rotate(bool),
    /// Control and S.
    Save,
    /// Control and Z.
    Undo,
    /// Control and Y.
    Redo,
    /// A digit key: give the player in the cell that index.
    AssignIndex(i32, Vec2),
    /// Any other key.
    Other,
}

/// What the editor asks of its surroundings after a key.
#[derive(Copy, Clone, Debug, PartialEq, Eq, Structural)]
pub enum KeyOutcome {
    Continue,
    /// Leave the editor.
    Break,
    /// Play the level being edited.
    Play,
    OpenWheel,
    CloseWheel,
    /// Write the saved level to the level's file.
    WriteSaved,
}

/// What a key does to the editor, and what it asks of its surroundings.
pub open spec fn spec_handle_key(e: EditorView, key: EditorKey) -> (EditorView, KeyOutcome) {
    match key {
        EditorKey::Escape => (e, KeyOutcome::Break),
        EditorKey::Grid => (EditorView { show_grid: !e.show_grid, ..e }, KeyOutcome::Continue),
        EditorKey::ResetToLastSave => (EditorView { level: e.saved, ..e }, KeyOutcome::Continue),
        EditorKey::Toggle => (e, KeyOutcome::Play),
        EditorKey::Choose(down) => (e, if down {
            KeyOutcome::OpenWheel
        } else {
            KeyOutcome::CloseWheel
        }),
        EditorKey::Pick(cell) => (
            match spec_pick(e.level, cell) {
                Some(t) => EditorView { tool: t, ..e },
                None => e,
            },
            KeyOutcome::Continue,
        ),
        EditorKey::Rotate(shift) => (
            EditorView {
                tool: (
                    e.tool.0.spec_with_input(
                        if shift {
                            Input::Left
                        } else {
                            Input::Right
                        },
                    ),
                    e.tool.1,
                ),
                ..e
            },
            KeyOutcome::Continue,
        ),
        EditorKey::Save => (spec_save(e), KeyOutcome::WriteSaved),
        EditorKey::Undo => (spec_change_history_pos(e, -1), KeyOutcome::Continue),
        EditorKey::Redo => (spec_change_history_pos(e, 1), KeyOutcome::Continue),
        EditorKey::AssignIndex(i, cell) => (
            spec_push_history(EditorView { level: spec_assign_index(e.level, cell, Some(i)), ..e }),
            KeyOutcome::Continue,
        ),
        EditorKey::Other => (e, KeyOutcome::Continue),
    }
}

impl LevelEditor {
    /// Handles a key: each key has the effect of the editor operation it
    /// names (see `spec_handle_key`).
    pub fn handle_key(&mut self, key: EditorKey) -> (r: KeyOutcome)
        requires
            old(self)@.wf(),
            old(self)@.history.len() <= isize::MAX,
        ensures
            (final(self)@, r) == spec_handle_key(old(self)@, key),
            final(self)@.wf(),
    {
        match key {
            EditorKey::Escape => KeyOutcome::Break,
            EditorKey::Grid => {
                self.show_grid = !self.show_grid;
                KeyOutcome::Continue
            },
            EditorKey::ResetToLastSave => {
                self.reset_to_last_save();
                KeyOutcome::Continue
            },
            EditorKey::Toggle => KeyOutcome::Play,
            EditorKey::Choose(down) => {
                if down {
                    KeyOutcome::OpenWheel
                } else {
                    KeyOutcome::CloseWheel
                }
            },
            EditorKey::Pick(cell) => {
                self.pick_tool(cell);
                KeyOutcome::Continue
            },
            EditorKey::Rotate(shift) => {
                self.rotate_tool(
                    if shift {
                        -1
                    } else {
                        1
                    },
                );
                KeyOutcome::Continue
            },
            EditorKey::Save => {
                self.save();
                KeyOutcome::WriteSaved
            },
            EditorKey::Undo => {
                self.undo();
                KeyOutcome::Continue
            },
            EditorKey::Redo => {
                self.redo();
                KeyOutcome::Continue
            },
            EditorKey::AssignIndex(i, cell) => {
                self.assign_index(cell, Some(i));
                KeyOutcome::Continue
            },
            EditorKey::Other => KeyOutcome::Continue,
        }
    }

    /// Whether the grid is drawn.
    pub fn show_grid(&self) -> (r: bool)
        ensures
            r == self@.show_grid,
    {
        self.show_grid
    }
}

/// Undoing a change that was just recorded gives back the level as it was
/// before the change.
pub proof fn lemma_undo_after_push(e: EditorView)
    requires
        e.wf(),
        e.level != e.history[e.pos],
    ensures
        spec_change_history_pos(spec_push_history(e), -1).level == e.history[e.pos],
        spec_change_history_pos(spec_push_history(e), -1).pos == e.pos,
{
}

/// Redoing an undo comes back to the same history entry and level.
pub proof fn lemma_redo_after_undo(e: EditorView)
    requires
        e.wf(),
        e.pos > 0,
    ensures
        spec_change_history_pos(spec_change_history_pos(e, -1), 1).pos == e.pos,
        spec_change_history_pos(spec_change_history_pos(e, -1), 1).level == e.history[e.pos],
        spec_change_history_pos(spec_change_history_pos(e, -1), 1).history == e.history,
{
}

/// Right after saving, the editor counts as saved, and resetting to the
/// last save gives the level back unchanged.
pub proof fn lemma_save_then_reset(e: EditorView)
    requires
        e.wf(),
    ensures
        spec_save(e).saved_at == Some(spec_save(e).pos),
        spec_save(e).saved == e.level,
        spec_save(e).wf(),
{
}

} // verus!
