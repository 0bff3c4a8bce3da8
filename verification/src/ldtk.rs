use vstd::prelude::*;
use crate::geometry::Vec2;
use crate::int_angle::IntAngle;
use crate::level;
use crate::model::{effect_named, Config, Effect, GameState, Side};
use crate::position::Position;
use crate::seq_util::str_eq;

verus! {

/// A value of an integer grid layer and the name of what it stands for.
pub struct IntGridValue {
    pub identifier: String,
    pub value: u32,
}

pub struct LayerDefinition {
    pub identifier: String,
    pub int_grid_values: Vec<IntGridValue>,
}

pub struct Definitions {
    pub layers: Vec<LayerDefinition>,
}

/// An entity placed in a level of the level editor's world file.
pub struct EntityInstance {
    /// Column and row, rows counting downwards.
    pub grid: Vec2,
    pub identifier: String,
}

pub struct LayerInstance {
    pub grid_width: usize,
    pub entity_instances: Vec<EntityInstance>,
    /// The values of an integer grid layer, row after row.
    pub int_grid_csv: Vec<u32>,
}

pub struct Level {
    pub identifier: String,
    pub layer_instances: Vec<LayerInstance>,
}

/// What the game reads of a world file of the level editor.
pub struct Ldtk {
    pub defs: Definitions,
    pub levels: Vec<Level>,
}

/// Whether a grid value's name is a kind of tile the game knows.
pub open spec fn known_tile(name: Seq<char>) -> bool {
    name == "block"@ || name == "cloud"@ || name == "disable"@
}

/// The grid values of all layer definitions, layer after layer.
pub open spec fn all_grid_values(layers: Seq<LayerDefinition>) -> Seq<(u32, Seq<char>)>
    decreases layers.len(),
{
    if layers.len() == 0 {
        seq![]
    } else {
        all_grid_values(layers.drop_last()) + layers.last().int_grid_values@.map_values(
            |g: IntGridValue| (g.value, g.identifier@),
        )
    }
}

/// The kind of tile a grid value stands for: the name of the last known
/// tile kind defined for it.
pub open spec fn tile_for_value(values: Seq<(u32, Seq<char>)>, value: u32) -> Option<Seq<char>>
    decreases values.len(),
{
    if values.len() == 0 {
        None
    } else if values.last().0 == value && known_tile(values.last().1) {
        Some(values.last().1)
    } else {
        tile_for_value(values.drop_last(), value)
    }
}

/// The cell of position `index` in a grid `width` cells wide; rows go down.
pub open spec fn grid_cell(index: int, width: int) -> Vec2 {
    Vec2 { x: (index % width) as i32, y: (-(index / width)) as i32 }
}

/// The non-zero values among the first `n` of a layer, with their cells.
pub open spec fn layer_cells(csv: Seq<u32>, width: int, n: int) -> Seq<(Vec2, u32)>
    decreases n,
{
    if n <= 0 {
        seq![]
    } else {
        let rest = layer_cells(csv, width, n - 1);
        if csv[n - 1] != 0 {
            rest.push((grid_cell(n - 1, width), csv[n - 1]))
        } else {
            rest
        }
    }
}

/// The non-zero grid values of all layers of a level, layer after layer.
pub open spec fn level_cells(layers: Seq<LayerInstance>) -> Seq<(Vec2, u32)>
    decreases layers.len(),
{
    if layers.len() == 0 {
        seq![]
    } else {
        let l = layers.last();
        level_cells(layers.drop_last()) + layer_cells(l.int_grid_csv@, l.grid_width as int, l.int_grid_csv@.len() as int)
    }
}

/// The entity instances of all layers of a level, layer after layer.
pub open spec fn level_instances(layers: Seq<LayerInstance>) -> Seq<EntityInstance>
    decreases layers.len(),
{
    if layers.len() == 0 {
        seq![]
    } else {
        level_instances(layers.drop_last()) + layers.last().entity_instances@
    }
}

/// The name before a trailing "Power", if the name ends so.
pub open spec fn power_prefix(name: Seq<char>) -> Option<Seq<char>> {
    if name.len() >= 5 && name.subrange(name.len() - 5, name.len() as int) == "Power"@ {
        Some(name.subrange(0, name.len() - 5))
    } else {
        None
    }
}

/// The cell of an entity instance.
pub open spec fn instance_cell(inst: EntityInstance) -> Vec2 {
    Vec2 { x: inst.grid.x, y: 0i32.wrapping_sub(inst.grid.y) }
}

/// What the level editor's entities become, in order: powerups (names that
/// end in "Power", facing down), goals ("Goal"), and entities of every other
/// kind (facing down when the name starts with "Power", else right).
pub open spec fn classify(insts: Seq<EntityInstance>) -> (Seq<(Seq<char>, Position)>, Seq<(Effect, Position)>, Seq<Position>)
    decreases insts.len(),
{
    if insts.len() == 0 {
        (seq![], seq![], seq![])
    } else {
        let r = classify(insts.drop_last());
        let inst = insts.last();
        let name = inst.identifier@;
        let cell = instance_cell(inst);
        match power_prefix(name) {
            Some(p) => (r.0, r.1.push((effect_named(p).unwrap(), Position { cell, angle: IntAngle(3) })), r.2),
            None => if name == "Goal"@ {
                (r.0, r.1, r.2.push(Position { cell, angle: IntAngle(0) }))
            } else {
                let angle = if name.len() >= 5 && name.subrange(0, 5) == "Power"@ {
                    IntAngle(3)
                } else {
                    IntAngle(0)
                };
                (r.0.push((name, Position { cell, angle })), r.1, r.2)
            },
        }
    }
}

/// The level of the world file at `index`, as entities of the kinds the
/// editor placed, then one entity per non-zero grid value of the kind of
/// tile it stands for, then powerups and goals.
pub open spec fn spec_level_from_ldtk(ldtk: Ldtk, index: int) -> (Seq<(Seq<char>, Position)>, Seq<(Effect, Position)>, Seq<Position>) {
    let level = ldtk.levels@[index];
    let c = classify(level_instances(level.layer_instances@));
    let values = all_grid_values(ldtk.defs.layers@);
    (c.0 + tile_descs(values, level_cells(level.layer_instances@)), c.1, c.2)
}

/// The entities that stand for grid values: one of the value's kind of tile
/// in its cell, facing right.
pub open spec fn tile_descs(values: Seq<(u32, Seq<char>)>, cells: Seq<(Vec2, u32)>) -> Seq<(Seq<char>, Position)>
    decreases cells.len(),
{
    if cells.len() == 0 {
        seq![]
    } else {
        tile_descs(values, cells.drop_last()).push(
            (tile_for_value(values, cells.last().1).unwrap(), Position { cell: cells.last().0, angle: IntAngle(0) }),
        )
    }
}

/// The world file can be read: the level exists, every grid value in it
/// stands for a known kind of tile, grids fit the cell coordinates, and every
/// powerup is named after an effect.
pub open spec fn readable(ldtk: Ldtk, index: int) -> bool {
    &&& 0 <= index < ldtk.levels@.len()
    &&& forall|l: int|
        0 <= l < ldtk.levels@[index].layer_instances@.len() ==> layer_readable(
            all_grid_values(ldtk.defs.layers@),
            #[trigger] ldtk.levels@[index].layer_instances@[l],
        )
}

/// Every non-zero value of the layer stands for a known kind of tile, the
/// grid fits the cell coordinates, and every powerup is named after an
/// effect.
pub open spec fn layer_readable(values: Seq<(u32, Seq<char>)>, layer: LayerInstance) -> bool {
    &&& layer.int_grid_csv@.len() <= i32::MAX
    &&& layer.int_grid_csv@.len() > 0 ==> 0 < layer.grid_width <= i32::MAX
    &&& forall|i: int|
        0 <= i < layer.int_grid_csv@.len() && #[trigger] layer.int_grid_csv@[i] != 0 ==> tile_for_value(
            values,
            layer.int_grid_csv@[i],
        ) is Some
    &&& forall|j: int|
        0 <= j < layer.entity_instances@.len() ==> (power_prefix(
            (#[trigger] layer.entity_instances@[j]).identifier@,
        ) matches Some(p) ==> effect_named(p) is Some)
}

} // verus!

verus! {

pub open spec fn values_view(s: Seq<(u32, String)>) -> Seq<(u32, Seq<char>)>
    decreases s.len(),
{
    if s.len() == 0 {
        seq![]
    } else {
        values_view(s.drop_last()).push((s.last().0, s.last().1@))
    }
}

proof fn lemma_values_view_len(s: Seq<(u32, String)>)
    ensures
        values_view(s).len() == s.len(),
    decreases s.len(),
{
    if s.len() > 0 {
        lemma_values_view_len(s.drop_last());
    }
}

fn flat_values(defs: &Definitions) -> (r: Vec<(u32, String)>)
    ensures
        values_view(r@) == all_grid_values(defs.layers@),
{
    let mut flat: Vec<(u32, String)> = Vec::new();
    let mut l: usize = 0;
    while l < defs.layers.len()
        invariant
            l <= defs.layers.len(),
            values_view(flat@) == all_grid_values(defs.layers@.take(l as int)),
        decreases defs.layers.len() - l,
    {
        let layer = &defs.layers[l];
        let ghost before = flat@;
        let mut k: usize = 0;
        while k < layer.int_grid_values.len()
            invariant
                k <= layer.int_grid_values.len(),
                values_view(flat@) == values_view(before) + layer.int_grid_values@.take(k as int).map_values(
                    |g: IntGridValue| (g.value, g.identifier@),
                ),
            decreases layer.int_grid_values.len() - k,
        {
            let g = &layer.int_grid_values[k];
            let ghost f0 = flat@;
            flat.push((g.value, g.identifier.clone()));
            proof {
                assert(flat@.drop_last() =~= f0);
                assert(layer.int_grid_values@.take(k + 1).map_values(|g: IntGridValue| (g.value, g.identifier@))
                    =~= layer.int_grid_values@.take(k as int).map_values(|g: IntGridValue| (g.value, g.identifier@)).push(
                    (g.value, g.identifier@),
                ));
            }
            k = k + 1;
        }
        proof {
            assert(layer.int_grid_values@.take(layer.int_grid_values@.len() as int) =~= layer.int_grid_values@);
            assert(defs.layers@.take(l + 1).drop_last() =~= defs.layers@.take(l as int));
        }
        l = l + 1;
    }
    proof {
        assert(defs.layers@.take(defs.layers@.len() as int) =~= defs.layers@);
    }
    flat
}

fn lookup_tile(values: &Vec<(u32, String)>, value: u32) -> (r: Option<String>)
    ensures
        match tile_for_value(values_view(values@), value) {
            Some(name) => r matches Some(s) && s@ == name,
            None => r is None,
        },
{
    let mut k: usize = values.len();
    assert(values@.take(k as int) =~= values@);
    while k > 0
        invariant
            k <= values.len(),
            tile_for_value(values_view(values@), value) == tile_for_value(values_view(values@.take(k as int)), value),
        decreases k,
    {
        let ghost t = values@.take(k as int);
        proof {
            assert(t.drop_last() =~= values@.take(k - 1));
            assert(values_view(t).drop_last() =~= values_view(t.drop_last()));
            assert(values_view(t).last() == (values@[k - 1].0, values@[k - 1].1@));
        }
        let name = &values[k - 1].1;
        if values[k - 1].0 == value && (str_eq(name.as_str(), "block") || str_eq(name.as_str(), "cloud") || str_eq(
            name.as_str(),
            "disable",
        )) {
            return Some(name.clone());
        }
        k = k - 1;
    }
    None
}

/// The name before a trailing "Power", if the name ends so.
fn strip_power(name: &str) -> (r: Option<String>)
    ensures
        match power_prefix(name@) {
            Some(p) => r matches Some(s) && s@ == p,
            None => r is None,
        },
{
    let n = name.unicode_len();
    if n >= 5 {
        let suffix = name.substring_char(n - 5, n);
        if str_eq(suffix, "Power") {
            return Some(name.substring_char(0, n - 5).to_owned());
        }
    }
    None
}

fn starts_with_power(name: &str) -> (r: bool)
    ensures
        r == (name@.len() >= 5 && name@.subrange(0, 5) == "Power"@),
{
    let n = name.unicode_len();
    if n >= 5 {
        str_eq(name.substring_char(0, 5), "Power")
    } else {
        false
    }
}

/// Whether `name` names an effect.
fn names_effect(name: &str) -> (r: bool)
    ensures
        r == effect_named(name@) is Some,
{
    str_eq(name, "Jump") || str_eq(name, "Magnet") || str_eq(name, "Slide") || str_eq(name, "WeakMagnet")
        || str_eq(name, "DisableTrigger")
}

fn layer_is_readable(values: &Vec<(u32, String)>, layer: &LayerInstance) -> (r: bool)
    ensures
        r == layer_readable(values_view(values@), *layer),
{
    let n = layer.int_grid_csv.len();
    if n > 2147483647 {
        return false;
    }
    if n > 0 && (layer.grid_width == 0 || layer.grid_width > 2147483647) {
        return false;
    }
    let mut i: usize = 0;
    while i < n
        invariant
            n == layer.int_grid_csv@.len(),
            i <= n,
            forall|j: int|
                0 <= j < i && #[trigger] layer.int_grid_csv@[j] != 0 ==> tile_for_value(
                    values_view(values@),
                    layer.int_grid_csv@[j],
                ) is Some,
        decreases n - i,
    {
        let v = layer.int_grid_csv[i];
        if v != 0 && lookup_tile(values, v).is_none() {
            return false;
        }
        i = i + 1;
    }
    let mut j: usize = 0;
    while j < layer.entity_instances.len()
        invariant
            j <= layer.entity_instances.len(),
            forall|k: int|
                0 <= k < j ==> (power_prefix((#[trigger] layer.entity_instances@[k]).identifier@) matches Some(p)
                    ==> effect_named(p) is Some),
        decreases layer.entity_instances.len() - j,
    {
        if let Some(p) = strip_power(layer.entity_instances[j].identifier.as_str()) {
            if !names_effect(p.as_str()) {
                return false;
            }
        }
        j = j + 1;
    }
    true
}

/// Whether the world file can be read at level `index` (see `readable`).
pub fn is_readable(ldtk: &Ldtk, index: usize) -> (r: bool)
    ensures
        r == readable(*ldtk, index as int),
{
    if index >= ldtk.levels.len() {
        return false;
    }
    let values = flat_values(&ldtk.defs);
    let layers = &ldtk.levels[index].layer_instances;
    let mut l: usize = 0;
    while l < layers.len()
        invariant
            l <= layers.len(),
            index < ldtk.levels@.len(),
            *layers == ldtk.levels@[index as int].layer_instances,
            values_view(values@) == all_grid_values(ldtk.defs.layers@),
            forall|k: int| 0 <= k < l ==> layer_readable(all_grid_values(ldtk.defs.layers@), #[trigger] layers@[k]),
        decreases layers.len() - l,
    {
        if !layer_is_readable(&values, &layers[l]) {
            return false;
        }
        l = l + 1;
    }
    true
}

/// The entity that a level description puts in the level.
pub open spec fn entity_desc(e: level::Entity) -> (Seq<char>, Position) {
    (e.identifier@, e.pos)
}

} // verus!

verus! {

pub open spec fn descs_of(ents: Seq<level::Entity>) -> Seq<(Seq<char>, Position)>
    decreases ents.len(),
{
    if ents.len() == 0 {
        seq![]
    } else {
        descs_of(ents.drop_last()).push(entity_desc(ents.last()))
    }
}

pub open spec fn pups_of(ps: Seq<level::Powerup>) -> Seq<(Effect, Position)>
    decreases ps.len(),
{
    if ps.len() == 0 {
        seq![]
    } else {
        pups_of(ps.drop_last()).push((ps.last().effect, ps.last().pos))
    }
}

pub open spec fn goals_of(gs: Seq<level::Goal>) -> Seq<Position>
    decreases gs.len(),
{
    if gs.len() == 0 {
        seq![]
    } else {
        goals_of(gs.drop_last()).push(gs.last().pos)
    }
}

/// Entities without a player index and with blank sides.
pub open spec fn all_plain(ents: Seq<level::Entity>) -> bool {
    forall|k: int|
        0 <= k < ents.len() ==> (#[trigger] ents[k]).index is None && forall|s: int|
            0 <= s < 4 ==> (#[trigger] ents[k].sides@[s]).effect is None
}

fn plain_entity(identifier: String, pos: Position) -> (r: level::Entity)
    ensures
        r.identifier == identifier,
        r.pos == pos,
        r.index is None,
        forall|s: int| 0 <= s < 4 ==> (#[trigger] r.sides@[s]).effect is None,
{
    let blank = Side { effect: None };
    level::Entity { index: None, identifier, pos, sides: [blank, blank, blank, blank] }
}

/// The level at `index` of a world file of the level editor.
pub fn level_from_ldtk(ldtk: &Ldtk, index: usize) -> (r: level::Level)
    requires
        readable(*ldtk, index as int),
    ensures
        descs_of(r.entities@) == spec_level_from_ldtk(*ldtk, index as int).0,
        all_plain(r.entities@),
        pups_of(r.powerups@) == spec_level_from_ldtk(*ldtk, index as int).1,
        goals_of(r.goals@) == spec_level_from_ldtk(*ldtk, index as int).2,
{
    let values = flat_values(&ldtk.defs);
    let ghost vals = all_grid_values(ldtk.defs.layers@);
    let level = &ldtk.levels[index];
    let ghost layers = level.layer_instances@;
    let mut entities: Vec<level::Entity> = Vec::new();
    let mut powerups: Vec<level::Powerup> = Vec::new();
    let mut goals: Vec<level::Goal> = Vec::new();
    let mut l: usize = 0;
    while l < level.layer_instances.len()
        invariant
            l <= layers.len(),
            layers == level.layer_instances@,
            readable(*ldtk, index as int),
            level == ldtk.levels@[index as int],
            vals == all_grid_values(ldtk.defs.layers@),
            all_plain(entities@),
            (descs_of(entities@), pups_of(powerups@), goals_of(goals@)) == classify(level_instances(layers.take(l as int))),
        decreases layers.len() - l,
    {
        let layer = &level.layer_instances[l];
        assert(layer_readable(vals, ldtk.levels@[index as int].layer_instances@[l as int]));
        let ghost base = level_instances(layers.take(l as int));
        let mut j: usize = 0;
        while j < layer.entity_instances.len()
            invariant
                j <= layer.entity_instances.len(),
                l < layers.len(),
                *layer == layers[l as int],
                layer_readable(vals, *layer),
                all_plain(entities@),
                (descs_of(entities@), pups_of(powerups@), goals_of(goals@)) == classify(
                    base + layer.entity_instances@.take(j as int),
                ),
            decreases layer.entity_instances.len() - j,
        {
            let inst = &layer.entity_instances[j];
            let ghost before = base + layer.entity_instances@.take(j as int);
            let ghost e0 = entities@;
            let ghost p0 = powerups@;
            let ghost g0 = goals@;
            proof {
                assert(base + layer.entity_instances@.take(j + 1) =~= before.push(*inst));
                assert(before.push(*inst).drop_last() =~= before);
                assert(before.push(*inst).last() == *inst);
                assert(power_prefix(layer.entity_instances@[j as int].identifier@) matches Some(p) ==> effect_named(p) is Some);
            }
            let cell = Vec2::new(inst.grid.x, 0i32.wrapping_sub(inst.grid.y));
            match strip_power(inst.identifier.as_str()) {
                Some(p) => {
                    let effect = Effect::from_str(p.as_str());
                    powerups.push(level::Powerup { pos: Position { cell, angle: IntAngle::down() }, effect });
                    proof {
                        assert(powerups@.drop_last() =~= p0);
                    }
                },
                None => {
                    if str_eq(inst.identifier.as_str(), "Goal") {
                        goals.push(level::Goal { pos: Position { cell, angle: IntAngle::right() } });
                        proof {
                            assert(goals@.drop_last() =~= g0);
                        }
                    } else {
                        let angle = if starts_with_power(inst.identifier.as_str()) {
                            IntAngle::down()
                        } else {
                            IntAngle::right()
                        };
                        entities.push(plain_entity(inst.identifier.clone(), Position { cell, angle }));
                        proof {
                            assert(entities@.drop_last() =~= e0);
                        }
                    }
                },
            }
            j = j + 1;
        }
        proof {
            assert(layer.entity_instances@.take(layer.entity_instances@.len() as int) =~= layer.entity_instances@);
            assert(layers.take(l + 1).drop_last() =~= layers.take(l as int));
        }
        l = l + 1;
    }
    proof {
        assert(layers.take(layers.len() as int) =~= layers);
    }
    let ghost ents1 = descs_of(entities@);
    let mut l: usize = 0;
    while l < level.layer_instances.len()
        invariant
            l <= layers.len(),
            layers == level.layer_instances@,
            readable(*ldtk, index as int),
            level == ldtk.levels@[index as int],
            vals == all_grid_values(ldtk.defs.layers@),
            values_view(values@) == vals,
            all_plain(entities@),
            descs_of(entities@) == ents1 + tile_descs(vals, level_cells(layers.take(l as int))),
        decreases layers.len() - l,
    {
        let layer = &level.layer_instances[l];
        assert(layer_readable(vals, ldtk.levels@[index as int].layer_instances@[l as int]));
        let ghost base = level_cells(layers.take(l as int));
        let w = layer.grid_width;
        let mut i: usize = 0;
        while i < layer.int_grid_csv.len()
            invariant
                i <= layer.int_grid_csv.len(),
                l < layers.len(),
                *layer == layers[l as int],
                w == layer.grid_width,
                layer_readable(vals, *layer),
                values_view(values@) == vals,
                all_plain(entities@),
                descs_of(entities@) == ents1 + tile_descs(vals, base + layer_cells(layer.int_grid_csv@, w as int, i as int)),
            decreases layer.int_grid_csv.len() - i,
        {
            let value = layer.int_grid_csv[i];
            let ghost cells0 = base + layer_cells(layer.int_grid_csv@, w as int, i as int);
            let ghost e0 = entities@;
            if value != 0 {
                let name = lookup_tile(&values, value);
                let name = name.unwrap();
                let x = (i % w) as i32;
                let y = 0i32 - ((i / w) as i32);
                let cell = Vec2::new(x, y);
                assert(cell == grid_cell(i as int, w as int));
                entities.push(plain_entity(name, Position { cell, angle: IntAngle::right() }));
                proof {
                    assert(entities@.drop_last() =~= e0);
                    let cells1 = base + layer_cells(layer.int_grid_csv@, w as int, i + 1);
                    assert(cells1 =~= cells0.push((grid_cell(i as int, w as int), value)));
                    assert(cells1.drop_last() =~= cells0);
                    assert(ents1 + tile_descs(vals, cells1) =~= (ents1 + tile_descs(vals, cells0)).push(
                        entity_desc(entities@.last()),
                    ));
                }
            } else {
                proof {
                    assert(base + layer_cells(layer.int_grid_csv@, w as int, i + 1) =~= cells0);
                }
            }
            i = i + 1;
        }
        proof {
            assert(layers.take(l + 1).drop_last() =~= layers.take(l as int));
        }
        l = l + 1;
    }
    proof {
        assert(layers.take(layers.len() as int) =~= layers);
    }
    level::Level { entities, powerups, goals }
}

} // verus!

verus! {

proof fn lemma_descs_of(ents: Seq<level::Entity>)
    ensures
        descs_of(ents).len() == ents.len(),
        forall|k: int| 0 <= k < ents.len() ==> descs_of(ents)[k] == entity_desc(#[trigger] ents[k]),
    decreases ents.len(),
{
    if ents.len() > 0 {
        lemma_descs_of(ents.drop_last());
        assert forall|k: int| 0 <= k < ents.len() implies descs_of(ents)[k] == entity_desc(#[trigger] ents[k]) by {
            if k < ents.len() - 1 {
                assert(ents.drop_last()[k] == ents[k]);
            }
        }
    }
}

proof fn lemma_pups_of(ps: Seq<level::Powerup>)
    ensures
        pups_of(ps).len() == ps.len(),
        forall|k: int| 0 <= k < ps.len() ==> pups_of(ps)[k] == ((#[trigger] ps[k]).effect, ps[k].pos),
    decreases ps.len(),
{
    if ps.len() > 0 {
        lemma_pups_of(ps.drop_last());
        assert forall|k: int| 0 <= k < ps.len() implies pups_of(ps)[k] == ((#[trigger] ps[k]).effect, ps[k].pos) by {
            if k < ps.len() - 1 {
                assert(ps.drop_last()[k] == ps[k]);
            }
        }
    }
}

proof fn lemma_goals_of(gs: Seq<level::Goal>)
    ensures
        goals_of(gs).len() == gs.len(),
        forall|k: int| 0 <= k < gs.len() ==> goals_of(gs)[k] == (#[trigger] gs[k]).pos,
    decreases gs.len(),
{
    if gs.len() > 0 {
        lemma_goals_of(gs.drop_last());
        assert forall|k: int| 0 <= k < gs.len() implies goals_of(gs)[k] == (#[trigger] gs[k]).pos by {
            if k < gs.len() - 1 {
                assert(gs.drop_last()[k] == gs[k]);
            }
        }
    }
}

impl GameState {
    /// The game at the start of level `level` of a world file of the level
    /// editor: the level that `level_from_ldtk` reads, started as `init`
    /// starts it.
    pub fn from_ldtk(ldtk: &Ldtk, config: &Config, level: usize) -> (r: GameState)
        requires
            readable(*ldtk, level as int),
            ({
                let s = spec_level_from_ldtk(*ldtk, level as int);
                &&& s.0.len() + s.1.len() + s.2.len() < u64::MAX
                &&& forall|k: int| 0 <= k < s.0.len() ==> (#[trigger] config.spec_properties(s.0[k].0)) is Some
            }),
        ensures
            ({
                let s = spec_level_from_ldtk(*ldtk, level as int);
                &&& r@.entities.len() == s.0.len()
                &&& forall|k: int|
                    0 <= k < s.0.len() ==> {
                        let e = #[trigger] r@.entities[k];
                        &&& e.id.spec_raw() == k
                        &&& e.identifier@ == s.0[k].0
                        &&& e.pos == s.0[k].1
                        &&& e.prev_pos == s.0[k].1
                        &&& e.index is None
                        &&& e.prev_move is None
                        &&& config.spec_properties(s.0[k].0) == Some(e.properties)
                        &&& forall|t: int| 0 <= t < 4 ==> (#[trigger] e.sides@[t]).effect is None
                    }
                &&& r@.powerups.len() == s.1.len()
                &&& forall|k: int|
                    0 <= k < s.1.len() ==> (#[trigger] r@.powerups[k]).id.spec_raw() == s.0.len() + k
                        && (r@.powerups[k].effect, r@.powerups[k].pos) == s.1[k]
                &&& r@.goals.len() == s.2.len()
                &&& forall|k: int|
                    0 <= k < s.2.len() ==> (#[trigger] r@.goals[k]).id.spec_raw() == s.0.len() + s.1.len() + k
                        && r@.goals[k].pos == s.2[k]
                &&& r@.selected_player == (if crate::players::spec_player_ids(r@).len() > 0 {
                    Some(crate::players::spec_player_ids(r@)[0])
                } else {
                    None
                })
                &&& crate::laws::ids_ok(r@)
            }),
    {
        let lv = level_from_ldtk(ldtk, level);
        proof {
            lemma_descs_of(lv.entities@);
            lemma_pups_of(lv.powerups@);
            lemma_goals_of(lv.goals@);
            let s = spec_level_from_ldtk(*ldtk, level as int);
            assert forall|k: int| 0 <= k < lv.entities@.len() implies (#[trigger] config.spec_properties(
                lv.entities@[k].identifier@,
            )) is Some by {
                assert(descs_of(lv.entities@)[k] == entity_desc(lv.entities@[k]));
                assert(config.spec_properties(s.0[k].0) is Some);
            }
        }
        let r = GameState::init(config, &lv);
        proof {
            let s = spec_level_from_ldtk(*ldtk, level as int);
            assert forall|k: int| 0 <= k < s.0.len() implies {
                let e = #[trigger] r@.entities[k];
                &&& e.id.spec_raw() == k
                &&& e.identifier@ == s.0[k].0
                &&& e.pos == s.0[k].1
                &&& e.prev_pos == s.0[k].1
                &&& e.index is None
                &&& e.prev_move is None
                &&& config.spec_properties(s.0[k].0) == Some(e.properties)
                &&& forall|t: int| 0 <= t < 4 ==> (#[trigger] e.sides@[t]).effect is None
            } by {
                assert(crate::game::started_entity(*config, lv.entities@[k], r@.entities[k], k));
                assert(descs_of(lv.entities@)[k] == entity_desc(lv.entities@[k]));
                assert(lv.entities@[k].index is None);
            }
            assert forall|k: int| 0 <= k < s.1.len() implies (#[trigger] r@.powerups[k]).id.spec_raw() == s.0.len() + k
                && (r@.powerups[k].effect, r@.powerups[k].pos) == s.1[k] by {
                assert(pups_of(lv.powerups@)[k] == (lv.powerups@[k].effect, lv.powerups@[k].pos));
            }
            assert forall|k: int| 0 <= k < s.2.len() implies (#[trigger] r@.goals[k]).id.spec_raw() == s.0.len() + s.1.len() + k
                && r@.goals[k].pos == s.2[k] by {
                assert(goals_of(lv.goals@)[k] == lv.goals@[k].pos);
            }
        }
        r
    }
}

} // verus!
