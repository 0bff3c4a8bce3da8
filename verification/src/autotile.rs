use vstd::prelude::*;
use vstd::string::StringExecFns;
use rand::seq::SliceRandom;
use crate::geometry::Vec2;
use crate::seq_util::str_eq;

verus! {

/// How the cell next to a tile relates to it.
#[derive(Copy, Clone, Debug, PartialEq, Eq, Structural)]
pub enum Connection {
    /// Nothing stands there.
    Empty,
    /// A tile of the same kind stands there.
    Same,
    /// A tile of another kind stands there.
    Different,
}

/// What a rule asks of one neighbouring cell.
#[derive(Copy, Clone, Debug, PartialEq, Eq, Structural)]
pub enum ConnectionFilter {
    Anything,
    Empty,
    NotEmpty,
    Same,
    Different,
}

impl ConnectionFilter {
    pub open spec fn spec_matches(self, c: Connection) -> bool {
        match self {
            ConnectionFilter::NotEmpty => !(c is Empty),
            ConnectionFilter::Empty => c is Empty,
            ConnectionFilter::Anything => true,
            ConnectionFilter::Same => c is Same,
            ConnectionFilter::Different => !(c is Same),
        }
    }

    /// Whether a neighbour with this connection passes the filter.
    pub fn matches(&self, connection: Connection) -> (r: bool)
        ensures
            r == self.spec_matches(connection),
    {
        match self {
            ConnectionFilter::NotEmpty => !matches!(connection, Connection::Empty),
            ConnectionFilter::Empty => matches!(connection, Connection::Empty),
            ConnectionFilter::Anything => true,
            ConnectionFilter::Same => matches!(connection, Connection::Same),
            ConnectionFilter::Different => !matches!(connection, Connection::Same),
        }
    }
}

/// A position in the tileset, counted in tiles.
#[derive(Copy, Clone, Debug, PartialEq, Eq, Structural)]
pub struct TilePos {
    pub x: usize,
    pub y: usize,
}

/// A tile placed on the map with the part of the tileset that draws it.
#[derive(Copy, Clone, Debug, PartialEq, Eq, Structural)]
pub struct TexturedTile {
    pub pos: Vec2,
    pub tileset_pos: TilePos,
}

/// A map of tiles: the cells that are not empty, each with the kind of its tile.
pub struct TileGrid {
    pub tiles: Vec<(Vec2, String)>,
}

pub open spec fn grid_view(tiles: Seq<(Vec2, String)>) -> Seq<(Vec2, Seq<char>)> {
    Seq::new(tiles.len(), |k: int| (tiles[k].0, tiles[k].1@))
}

impl View for TileGrid {
    type V = Seq<(Vec2, Seq<char>)>;

    open spec fn view(&self) -> Seq<(Vec2, Seq<char>)> {
        grid_view(self.tiles@)
    }
}

/// `k` is the first entry of `g` at `pos`.
pub open spec fn is_first_at(g: Seq<(Vec2, Seq<char>)>, pos: Vec2, k: int) -> bool {
    &&& 0 <= k < g.len()
    &&& g[k].0 == pos
    &&& forall|j: int| 0 <= j < k ==> (#[trigger] g[j]).0 != pos
}

/// The first entry of `g` at `pos`, if there is one.
pub open spec fn first_at(g: Seq<(Vec2, Seq<char>)>, pos: Vec2) -> Option<int> {
    if exists|k: int| is_first_at(g, pos, k) {
        Some(choose|k: int| is_first_at(g, pos, k))
    } else {
        None
    }
}

/// The kind of the tile at `pos`, or `None` for an empty cell.
pub open spec fn spec_get_at(g: Seq<(Vec2, Seq<char>)>, pos: Vec2) -> Option<Seq<char>> {
    match first_at(g, pos) {
        Some(k) => Some(g[k].1),
        None => None,
    }
}

/// How the cell `delta` away from a tile of kind `value` at `pos` relates to it.
pub open spec fn spec_connection(g: Seq<(Vec2, Seq<char>)>, pos: Vec2, value: Seq<char>, delta: Vec2) -> Connection {
    match spec_get_at(g, pos.spec_plus(delta)) {
        Some(other) => if other == value {
            Connection::Same
        } else {
            Connection::Different
        },
        None => Connection::Empty,
    }
}

proof fn lemma_first_at_unique(g: Seq<(Vec2, Seq<char>)>, pos: Vec2, k: int)
    requires
        is_first_at(g, pos, k),
    ensures
        first_at(g, pos) == Some(k),
{
    let c = choose|k: int| is_first_at(g, pos, k);
    assert(is_first_at(g, pos, c));
    if c < k {
        assert(g[c].0 != pos);
    } else if k < c {
        assert(g[k].0 != pos);
    }
}

impl TileGrid {
    /// A map with no tiles.
    pub fn new() -> (r: TileGrid)
        ensures
            r@ == Seq::<(Vec2, Seq<char>)>::empty(),
    {
        let r = TileGrid { tiles: Vec::new() };
        assert(r@ =~= Seq::<(Vec2, Seq<char>)>::empty());
        r
    }

    fn find_at(&self, pos: Vec2) -> (r: Option<usize>)
        ensures
            r matches Some(k) ==> first_at(self@, pos) == Some(k as int) && k < self@.len(),
            r is None ==> first_at(self@, pos) is None,
    {
        let mut k: usize = 0;
        while k < self.tiles.len()
            invariant
                k <= self.tiles.len(),
                forall|j: int| 0 <= j < k ==> (#[trigger] self.tiles@[j]).0 != pos,
            decreases self.tiles.len() - k,
        {
            if self.tiles[k].0 == pos {
                proof {
                    assert forall|j: int| 0 <= j < k implies (#[trigger] self@[j]).0 != pos by {
                        assert(self@[j].0 == self.tiles@[j].0);
                    }
                    lemma_first_at_unique(self@, pos, k as int);
                }
                return Some(k);
            }
            k = k + 1;
        }
        proof {
            if exists|k: int| is_first_at(self@, pos, k) {
                let c = choose|k: int| is_first_at(self@, pos, k);
                assert(self@[c].0 == self.tiles@[c].0);
            }
        }
        None
    }

    /// Puts a tile of kind `value` at `pos`, in place of the one there.
    pub fn insert(&mut self, pos: Vec2, value: String)
        ensures
            final(self)@ == match first_at(old(self)@, pos) {
                Some(k) => old(self)@.update(k, (pos, value@)),
                None => old(self)@.push((pos, value@)),
            },
    {
        match self.find_at(pos) {
            Some(k) => {
                self.tiles.set(k, (pos, value));
                proof {
                    assert(self@ =~= old(self)@.update(k as int, (pos, value@)));
                }
            },
            None => {
                self.tiles.push((pos, value));
                proof {
                    assert(self@ =~= old(self)@.push((pos, value@)));
                }
            },
        }
    }

    /// The cells that hold a tile, in the order of the entries.
    pub fn non_empty_tiles(&self) -> (r: Vec<Vec2>)
        ensures
            r@ == self@.map_values(|t: (Vec2, Seq<char>)| t.0),
    {
        let mut r: Vec<Vec2> = Vec::new();
        let mut k: usize = 0;
        while k < self.tiles.len()
            invariant
                k <= self.tiles.len(),
                r@ == self@.take(k as int).map_values(|t: (Vec2, Seq<char>)| t.0),
            decreases self.tiles.len() - k,
        {
            r.push(self.tiles[k].0);
            proof {
                assert(self@.take(k + 1) =~= self@.take(k as int).push(self@[k as int]));
            }
            k = k + 1;
            proof {
                assert(r@ =~= self@.take(k as int).map_values(|t: (Vec2, Seq<char>)| t.0));
            }
        }
        proof {
            assert(self@.take(k as int) =~= self@);
        }
        r
    }

    /// The kind of the tile at `pos`, or `None` for an empty cell.
    pub fn get_at(&self, pos: Vec2) -> (r: Option<&str>)
        ensures
            match r {
                Some(s) => spec_get_at(self@, pos) == Some(s@),
                None => spec_get_at(self@, pos) is None,
            },
    {
        match self.find_at(pos) {
            Some(k) => Some(self.tiles[k].1.as_str()),
            None => None,
        }
    }

    /// How the cell `delta` away from the tile of kind `value` at `pos`
    /// relates to it.
    pub fn connection(&self, pos: Vec2, value: &str, delta: Vec2) -> (r: Connection)
        ensures
            r == spec_connection(self@, pos, value@, delta),
    {
        match self.get_at(pos.plus(delta)) {
            Some(other) => {
                if str_eq(other, value) {
                    Connection::Same
                } else {
                    Connection::Different
                }
            },
            None => Connection::Empty,
        }
    }
}

/// A rule of an auto-tile: what it asks of the neighbouring cells, each
/// given by its offset, and the part of the tileset it draws the tile with.
pub struct Rule {
    pub connections: Vec<(Vec2, ConnectionFilter)>,
    pub tileset_pos: TilePos,
}

/// A kind of tile: its rules, and the part of the tileset that draws it when
/// no rule matches.
pub struct Tile {
    pub rules: Vec<Rule>,
    pub default: Option<TilePos>,
}

/// Every neighbour that `rule` asks about passes its filter.
pub open spec fn rule_matches(rule: Rule, g: Seq<(Vec2, Seq<char>)>, pos: Vec2, value: Seq<char>) -> bool {
    forall|i: int|
        0 <= i < rule.connections@.len() ==> (#[trigger] rule.connections@[i]).1.spec_matches(
            spec_connection(g, pos, value, rule.connections@[i].0),
        )
}

/// The tileset positions of the rules that match, in the order of the rules.
pub open spec fn matched_positions(
    rules: Seq<Rule>,
    g: Seq<(Vec2, Seq<char>)>,
    pos: Vec2,
    value: Seq<char>,
) -> Seq<TilePos>
    decreases rules.len(),
{
    if rules.len() == 0 {
        Seq::empty()
    } else {
        let prev = matched_positions(rules.drop_last(), g, pos, value);
        if rule_matches(rules.last(), g, pos, value) {
            prev.push(rules.last().tileset_pos)
        } else {
            prev
        }
    }
}

/// What a tile of kind `value` at `pos` may be drawn with: one of the
/// matching rules' positions, or the default when no rule matches.
pub open spec fn allowed_choice(
    tile: Tile,
    g: Seq<(Vec2, Seq<char>)>,
    pos: Vec2,
    value: Seq<char>,
    r: Option<TilePos>,
) -> bool {
    let m = matched_positions(tile.rules@, g, pos, value);
    if m.len() == 0 {
        r == tile.default
    } else {
        r matches Some(p) && m.contains(p)
    }
}

/// Picks one of `candidates` with rand's thread-local generator
/// (`SliceRandom::choose`). Its documentation and source give `None` exactly
/// for an empty slice and otherwise one of the elements; which one is left to
/// chance and is not stated.
#[verifier::external_body]
fn choose_random(candidates: &Vec<TilePos>) -> (r: Option<TilePos>)
    ensures
        r is None <==> candidates@.len() == 0,
        r matches Some(p) ==> candidates@.contains(p),
{
    candidates.as_slice().choose(&mut rand::thread_rng()).copied()
}

impl Rule {
    /// Whether every neighbour this rule asks about passes its filter.
    pub fn matches(&self, grid: &TileGrid, pos: Vec2, value: &str) -> (r: bool)
        ensures
            r == rule_matches(*self, grid@, pos, value@),
    {
        let mut i: usize = 0;
        while i < self.connections.len()
            invariant
                i <= self.connections.len(),
                forall|j: int|
                    0 <= j < i ==> (#[trigger] self.connections@[j]).1.spec_matches(
                        spec_connection(grid@, pos, value@, self.connections@[j].0),
                    ),
            decreases self.connections.len() - i,
        {
            let (delta, filter) = self.connections[i];
            if !filter.matches(grid.connection(pos, value, delta)) {
                return false;
            }
            i = i + 1;
        }
        true
    }
}

impl Tile {
    /// The tileset positions of the rules that match a tile of kind `value`
    /// at `pos`, in the order of the rules.
    pub fn matched_rules(&self, grid: &TileGrid, pos: Vec2, value: &str) -> (r: Vec<TilePos>)
        ensures
            r@ == matched_positions(self.rules@, grid@, pos, value@),
    {
        let mut r: Vec<TilePos> = Vec::new();
        let mut i: usize = 0;
        while i < self.rules.len()
            invariant
                i <= self.rules.len(),
                r@ == matched_positions(self.rules@.take(i as int), grid@, pos, value@),
            decreases self.rules.len() - i,
        {
            proof {
                assert(self.rules@.take(i + 1).drop_last() =~= self.rules@.take(i as int));
            }
            if self.rules[i].matches(grid, pos, value) {
                r.push(self.rules[i].tileset_pos);
            }
            i = i + 1;
        }
        proof {
            assert(self.rules@.take(i as int) =~= self.rules@);
        }
        r
    }

    /// A tile drawn always by the part of the tileset at (`x`, `y`).
    pub fn at(x: usize, y: usize) -> (r: Tile)
        ensures
            r.rules@.len() == 0,
            r.default == Some(TilePos { x, y }),
    {
        Tile { rules: Vec::new(), default: Some(TilePos { x, y }) }
    }

    /// The choice among the matching rules, or the default when there was
    /// none to choose from.
    pub fn with_default(&self, chosen: Option<TilePos>) -> (r: Option<TilePos>)
        ensures
            r == match chosen {
                Some(p) => Some(p),
                None => self.default,
            },
    {
        match chosen {
            Some(p) => Some(p),
            None => self.default,
        }
    }

    /// The part of the tileset that draws a tile of kind `value` at `pos`: one
    /// of the matching rules' positions, picked at random, or the default
    /// when no rule matches.
    pub fn tileset_pos(&self, grid: &TileGrid, pos: Vec2, value: &str) -> (r: Option<TilePos>)
        ensures
            allowed_choice(*self, grid@, pos, value@, r),
    {
        let candidates = self.matched_rules(grid, pos, value);
        let chosen = choose_random(&candidates);
        self.with_default(chosen)
    }
}

/// A tileset: the size of one tile in pixels and the kinds of tile it draws,
/// each under its name.
pub struct TilesetDef {
    pub tile_size: TilePos,
    pub tiles: Vec<(String, Tile)>,
}

/// `k` is the first tile kind of `tiles` named `name`.
pub open spec fn is_first_named(tiles: Seq<(String, Tile)>, name: Seq<char>, k: int) -> bool {
    &&& 0 <= k < tiles.len()
    &&& tiles[k].0@ == name
    &&& forall|j: int| 0 <= j < k ==> (#[trigger] tiles[j]).0@ != name
}

/// The tile kind named `name`, if the tileset has one.
pub open spec fn spec_tile_named(tiles: Seq<(String, Tile)>, name: Seq<char>) -> Option<Tile> {
    if exists|k: int| is_first_named(tiles, name, k) {
        Some(tiles[choose|k: int| is_first_named(tiles, name, k)].1)
    } else {
        None
    }
}

/// The kind of the tile in entry `k` of the map.
pub open spec fn kind_of_entry(g: Seq<(Vec2, Seq<char>)>, k: int) -> Seq<char> {
    spec_get_at(g, g[k].0).unwrap()
}

/// Every tile kind of the map has a definition in the tileset.
pub open spec fn covers(tiles: Seq<(String, Tile)>, g: Seq<(Vec2, Seq<char>)>) -> bool {
    forall|k: int| 0 <= k < g.len() ==> spec_tile_named(tiles, #[trigger] kind_of_entry(g, k)) is Some
}

/// The tile in entry `k` of the map is drawn: a rule matches it or its kind
/// has a default.
pub open spec fn entry_drawn(tiles: Seq<(String, Tile)>, g: Seq<(Vec2, Seq<char>)>, k: int) -> bool {
    let value = kind_of_entry(g, k);
    let tile = spec_tile_named(tiles, value).unwrap();
    matched_positions(tile.rules@, g, g[k].0, value).len() > 0 || tile.default is Some
}

/// The cells of the first `n` entries of the map whose tiles are drawn.
pub open spec fn drawn_cells(tiles: Seq<(String, Tile)>, g: Seq<(Vec2, Seq<char>)>, n: int) -> Seq<Vec2>
    decreases n,
{
    if n <= 0 {
        Seq::empty()
    } else if entry_drawn(tiles, g, n - 1) {
        drawn_cells(tiles, g, n - 1).push(g[n - 1].0)
    } else {
        drawn_cells(tiles, g, n - 1)
    }
}

/// A textured tile is one that the tileset allows for its cell.
pub open spec fn allowed_textured(tiles: Seq<(String, Tile)>, g: Seq<(Vec2, Seq<char>)>, t: TexturedTile) -> bool {
    let value = spec_get_at(g, t.pos).unwrap();
    allowed_choice(spec_tile_named(tiles, value).unwrap(), g, t.pos, value, Some(t.tileset_pos))
}

proof fn lemma_first_named_unique(tiles: Seq<(String, Tile)>, name: Seq<char>, k: int)
    requires
        is_first_named(tiles, name, k),
    ensures
        spec_tile_named(tiles, name) == Some(tiles[k].1),
{
    let c = choose|k: int| is_first_named(tiles, name, k);
    assert(is_first_named(tiles, name, c));
    if c < k {
        assert(tiles[c].0@ != name);
    } else if k < c {
        assert(tiles[k].0@ != name);
    }
}

impl TilesetDef {
    /// The tile kind named `name`, if the tileset has one.
    pub fn tile_named(&self, name: &str) -> (r: Option<&Tile>)
        ensures
            match r {
                Some(t) => spec_tile_named(self.tiles@, name@) == Some(*t),
                None => spec_tile_named(self.tiles@, name@) is None,
            },
    {
        let mut k: usize = 0;
        while k < self.tiles.len()
            invariant
                k <= self.tiles.len(),
                forall|j: int| 0 <= j < k ==> (#[trigger] self.tiles@[j]).0@ != name@,
            decreases self.tiles.len() - k,
        {
            if str_eq(self.tiles[k].0.as_str(), name) {
                proof {
                    lemma_first_named_unique(self.tiles@, name@, k as int);
                }
                return Some(&self.tiles[k].1);
            }
            k = k + 1;
        }
        None
    }

    /// The textured tiles that draw `grid`: one for each non-empty cell that
    /// a rule or a default draws, in the order of the cells, each drawn with
    /// what its kind allows there.
    pub fn generate_mesh(&self, grid: &TileGrid) -> (r: Vec<TexturedTile>)
        requires
            covers(self.tiles@, grid@),
        ensures
            r@.map_values(|t: TexturedTile| t.pos) == drawn_cells(self.tiles@, grid@, grid@.len() as int),
            forall|i: int| 0 <= i < r@.len() ==> allowed_textured(self.tiles@, grid@, #[trigger] r@[i]),
    {
        let cells = grid.non_empty_tiles();
        let mut r: Vec<TexturedTile> = Vec::new();
        let mut k: usize = 0;
        while k < cells.len()
            invariant
                k <= cells.len(),
                cells@ == grid@.map_values(|t: (Vec2, Seq<char>)| t.0),
                covers(self.tiles@, grid@),
                r@.map_values(|t: TexturedTile| t.pos) == drawn_cells(self.tiles@, grid@, k as int),
                forall|i: int| 0 <= i < r@.len() ==> allowed_textured(self.tiles@, grid@, #[trigger] r@[i]),
            decreases cells.len() - k,
        {
            let pos = cells[k];
            proof {
                assert(grid@[k as int].0 == pos);
                lemma_some_first_at(grid@, pos, k as int);
                assert(spec_tile_named(self.tiles@, kind_of_entry(grid@, k as int)) is Some);
            }
            let value = grid.get_at(pos).unwrap();
            let tile = self.tile_named(value).unwrap();
            let uv = tile.tileset_pos(grid, pos, value);
            let ghost old_r = r@;
            if let Some(tileset_pos) = uv {
                r.push(TexturedTile { pos, tileset_pos });
                proof {
                    assert(r@.map_values(|t: TexturedTile| t.pos) =~= old_r.map_values(|t: TexturedTile| t.pos).push(pos));
                    assert(forall|i: int| 0 <= i < old_r.len() ==> r@[i] == old_r[i]);
                }
            }
            k = k + 1;
        }
        r
    }
}

/// A cell that stands at entry `k` has a first entry.
proof fn lemma_some_first_at(g: Seq<(Vec2, Seq<char>)>, pos: Vec2, k: int)
    requires
        0 <= k < g.len(),
        g[k].0 == pos,
    ensures
        exists|j: int| is_first_at(g, pos, j),
    decreases k,
{
    if forall|j: int| 0 <= j < k ==> (#[trigger] g[j]).0 != pos {
        assert(is_first_at(g, pos, k));
    } else {
        let j = choose|j: int| 0 <= j < k && (#[trigger] g[j]).0 == pos;
        lemma_some_first_at(g, pos, j);
    }
}

/// When every tile kind of the map has a default, every cell of the map is
/// drawn: the mesh holds one textured tile for each non-empty cell, in order.
pub proof fn lemma_defaults_draw_every_cell(tiles: Seq<(String, Tile)>, g: Seq<(Vec2, Seq<char>)>)
    requires
        covers(tiles, g),
        forall|k: int| 0 <= k < g.len() ==> (#[trigger] spec_tile_named(tiles, kind_of_entry(g, k))).unwrap().default is Some,
    ensures
        drawn_cells(tiles, g, g.len() as int) == g.map_values(|t: (Vec2, Seq<char>)| t.0),
{
    lemma_drawn_prefix(tiles, g, g.len() as int);
    assert(g.take(g.len() as int) =~= g);
}

proof fn lemma_drawn_prefix(tiles: Seq<(String, Tile)>, g: Seq<(Vec2, Seq<char>)>, n: int)
    requires
        0 <= n <= g.len(),
        covers(tiles, g),
        forall|k: int| 0 <= k < g.len() ==> (#[trigger] spec_tile_named(tiles, kind_of_entry(g, k))).unwrap().default is Some,
    ensures
        drawn_cells(tiles, g, n) == g.take(n).map_values(|t: (Vec2, Seq<char>)| t.0),
    decreases n,
{
    if n > 0 {
        lemma_drawn_prefix(tiles, g, n - 1);
        assert(spec_tile_named(tiles, kind_of_entry(g, n - 1)).unwrap().default is Some);
        assert(entry_drawn(tiles, g, n - 1));
        assert(g.take(n) =~= g.take(n - 1).push(g[n - 1]));
        assert(g.take(n).map_values(|t: (Vec2, Seq<char>)| t.0) =~= g.take(n - 1).map_values(|t: (Vec2, Seq<char>)| t.0).push(g[n - 1].0));
    } else {
        assert(g.take(0).map_values(|t: (Vec2, Seq<char>)| t.0) =~= Seq::<Vec2>::empty());
    }
}

/// A colour with transparency, one byte a channel.
#[derive(Copy, Clone, Debug, PartialEq, Eq, Structural)]
pub struct Rgba {
    pub r: u8,
    pub g: u8,
    pub b: u8,
    pub a: u8,
}

/// An image as rows of pixels, top row first.
pub struct RgbaImage {
    pub width: usize,
    pub height: usize,
    pub pixels: Vec<Rgba>,
}

/// An image as plain values.
pub struct ImageView {
    pub width: usize,
    pub height: usize,
    pub pixels: Seq<Rgba>,
}

impl ImageView {
    /// There is a pixel for each column of each row.
    pub open spec fn wf(self) -> bool {
        self.pixels.len() == self.width * self.height
    }

    pub open spec fn spec_pixel(self, x: int, y: int) -> Rgba {
        self.pixels[y * self.width + x]
    }
}

impl View for RgbaImage {
    type V = ImageView;

    open spec fn view(&self) -> ImageView {
        ImageView { width: self.width, height: self.height, pixels: self.pixels@ }
    }
}

impl RgbaImage {

    /// The pixel in column `x` of row `y`.
    pub fn get_pixel(&self, x: usize, y: usize) -> (r: Rgba)
        requires
            self@.wf(),
            x < self.width,
            y < self.height,
        ensures
            r == self@.spec_pixel(x as int, y as int),
    {
        let n = self.pixels.len();
        proof {
            lemma_cell_in_bounds(y as int, self.height as int, self.width as int, x as int);
            assert(self.height * self.width == self.width * self.height) by (nonlinear_arith);
        }
        self.pixels[y * self.width + x]
    }
}

/// Column `off` of block `i` lies within the first `n` blocks of `size` columns.
proof fn lemma_cell_in_bounds(i: int, n: int, size: int, off: int)
    by (nonlinear_arith)
    requires
        0 <= i < n,
        0 <= off < size,
    ensures
        0 <= i * size + off < n * size,
        i * size + off <= n * size - size + off,
{
}

/// What the colour table says of `c`: `Some` of its filter (or of `None`, a
/// colour that asks nothing) when the table lists the colour, first entry
/// first.
pub open spec fn color_lookup(table: Seq<(Rgba, Option<ConnectionFilter>)>, c: Rgba) -> Option<Option<ConnectionFilter>>
    decreases table.len(),
{
    if table.len() == 0 {
        None
    } else if table[0].0 == c {
        Some(table[0].1)
    } else {
        color_lookup(table.drop_first(), c)
    }
}

impl ConnectionFilter {
    /// The filter that a colour of a rule image stands for; `None` for a
    /// colour that asks nothing of its cell.
    pub fn from_color(table: &Vec<(Rgba, Option<ConnectionFilter>)>, color: Rgba) -> (r: Option<ConnectionFilter>)
        requires
            color_lookup(table@, color) is Some,
        ensures
            r == color_lookup(table@, color).unwrap(),
    {
        let mut i: usize = 0;
        assert(table@.subrange(0, table@.len() as int) =~= table@);
        while i < table.len()
            invariant
                i <= table.len(),
                color_lookup(table@.subrange(i as int, table@.len() as int), color) == color_lookup(table@, color),
            decreases table.len() - i,
        {
            let ghost rest = table@.subrange(i as int, table@.len() as int);
            assert(rest[0] == table@[i as int]);
            if table[i].0 == color {
                return table[i].1;
            }
            assert(rest.drop_first() =~= table@.subrange(i + 1, table@.len() as int));
            i = i + 1;
        }
        proof {
            assert(table@.subrange(i as int, table@.len() as int).len() == 0);
        }
        None
    }
}

/// Where a rule image is read for the neighbour in direction `d` (-1, 0 or
/// 1) along a side of `size` pixels: the first pixel, the middle one or the
/// last one.
pub open spec fn sample_offset(d: int, size: int) -> int {
    if d < 0 {
        0
    } else if d == 0 {
        size / 2
    } else {
        size - 1
    }
}

/// The neighbour directions in the order they are read: `m` from 0 to 8 runs
/// through `dx` from -1 to 1, and for each through `dy` from -1 to 1.
pub open spec fn delta_x(m: int) -> int {
    m / 3 - 1
}

pub open spec fn delta_y(m: int) -> int {
    m % 3 - 1
}

/// The pixel that tile (`xi`, `yi`) of a rule image holds for direction `m`.
pub open spec fn sample(img: ImageView, ts: TilePos, xi: int, yi: int, m: int) -> Rgba {
    img.spec_pixel(
        xi * ts.x + sample_offset(delta_x(m), ts.x as int),
        yi * ts.y + sample_offset(delta_y(m), ts.y as int),
    )
}

/// The connections that tile (`xi`, `yi`) of a rule image asks for, from its
/// first `m` directions: transparent pixels and colours that ask nothing
/// give none; the image's y axis points down, so `dy` is turned over.
pub open spec fn tile_conns(
    img: ImageView,
    ts: TilePos,
    table: Seq<(Rgba, Option<ConnectionFilter>)>,
    xi: int,
    yi: int,
    m: int,
) -> Seq<(Vec2, ConnectionFilter)>
    decreases m,
{
    if m <= 0 {
        Seq::empty()
    } else {
        let prev = tile_conns(img, ts, table, xi, yi, m - 1);
        let c = sample(img, ts, xi, yi, m - 1);
        if c.a == 0 {
            prev
        } else {
            match color_lookup(table, c) {
                Some(Some(f)) => prev.push((Vec2 { x: delta_x(m - 1) as i32, y: (-delta_y(m - 1)) as i32 }, f)),
                _ => prev,
            }
        }
    }
}

/// The pixel read for direction `m` of tile (`xi`, `yi`) is transparent or
/// has an entry in the colour table.
pub open spec fn sample_ok(
    img: ImageView,
    ts: TilePos,
    table: Seq<(Rgba, Option<ConnectionFilter>)>,
    xi: int,
    yi: int,
    m: int,
) -> bool {
    sample(img, ts, xi, yi, m).a != 0 ==> color_lookup(table, sample(img, ts, xi, yi, m)) is Some
}

/// Each coloured pixel that is read has an entry in the colour table.
pub open spec fn samples_known(img: ImageView, ts: TilePos, table: Seq<(Rgba, Option<ConnectionFilter>)>) -> bool {
    forall|xi: int, yi: int, m: int|
        0 <= xi < img.width / ts.x && 0 <= yi < img.height / ts.y && 0 <= m < 9 ==> #[trigger] sample_ok(
            img,
            ts,
            table,
            xi,
            yi,
            m,
        )
}

/// A rule as plain values.
pub open spec fn rule_view(r: Rule) -> (Seq<(Vec2, ConnectionFilter)>, TilePos) {
    (r.connections@, r.tileset_pos)
}

/// The rule that tile (`xi`, `yi`) of a rule image gives, if it asks for
/// any connection.
pub open spec fn tile_rule(
    img: ImageView,
    ts: TilePos,
    table: Seq<(Rgba, Option<ConnectionFilter>)>,
    xi: int,
    yi: int,
) -> Seq<(Seq<(Vec2, ConnectionFilter)>, TilePos)> {
    let c = tile_conns(img, ts, table, xi, yi, 9);
    if c.len() > 0 {
        seq![(c, TilePos { x: xi as usize, y: yi as usize })]
    } else {
        Seq::empty()
    }
}

/// The rules of the first `n` tiles of column `xi`, top first.
pub open spec fn column_rules(
    img: ImageView,
    ts: TilePos,
    table: Seq<(Rgba, Option<ConnectionFilter>)>,
    xi: int,
    n: int,
) -> Seq<(Seq<(Vec2, ConnectionFilter)>, TilePos)>
    decreases n,
{
    if n <= 0 {
        Seq::empty()
    } else {
        column_rules(img, ts, table, xi, n - 1) + tile_rule(img, ts, table, xi, n - 1)
    }
}

/// The rules of the first `n` columns of tiles, left first.
pub open spec fn image_rules(
    img: ImageView,
    ts: TilePos,
    table: Seq<(Rgba, Option<ConnectionFilter>)>,
    n: int,
) -> Seq<(Seq<(Vec2, ConnectionFilter)>, TilePos)>
    decreases n,
{
    if n <= 0 {
        Seq::empty()
    } else {
        image_rules(img, ts, table, n - 1) + column_rules(img, ts, table, n - 1, (img.height / ts.y) as int)
    }
}

/// The tiles of the image are whole: its width and height are multiples of
/// the tile's, which is not empty.
pub open spec fn tiles_fit(img: ImageView, ts: TilePos) -> bool {
    &&& img.wf()
    &&& ts.x > 0
    &&& ts.y > 0
    &&& img.width % ts.x == 0
    &&& img.height % ts.y == 0
}

/// The pixel that tile (`xi`, `yi`) of a rule image holds for direction `m`.
fn sample_at(image: &RgbaImage, tile_size: TilePos, xi: usize, yi: usize, m: usize) -> (r: Rgba)
    requires
        tiles_fit(image@, tile_size),
        xi < image.width / tile_size.x,
        yi < image.height / tile_size.y,
        m < 9,
    ensures
        r == sample(image@, tile_size, xi as int, yi as int, m as int),
{
    let tw = tile_size.x;
    let th = tile_size.y;
    proof {
        assert(image.width == (image.width / tw) * tw) by (nonlinear_arith)
            requires
                tw > 0,
                image.width % tw == 0,
        ;
        assert(image.height == (image.height / th) * th) by (nonlinear_arith)
            requires
                th > 0,
                image.height % th == 0,
        ;
    }
    let ox: usize = if m / 3 == 0 {
        0
    } else if m / 3 == 1 {
        tw / 2
    } else {
        tw - 1
    };
    let oy: usize = if m % 3 == 0 {
        0
    } else if m % 3 == 1 {
        th / 2
    } else {
        th - 1
    };
    proof {
        lemma_cell_in_bounds(xi as int, (image.width / tw) as int, tw as int, ox as int);
        lemma_cell_in_bounds(yi as int, (image.height / th) as int, th as int, oy as int);
    }
    image.get_pixel(xi * tw + ox, yi * th + oy)
}

/// The connections that tile (`xi`, `yi`) of a rule image asks for.
fn tile_connections(
    image: &RgbaImage,
    tile_size: TilePos,
    table: &Vec<(Rgba, Option<ConnectionFilter>)>,
    xi: usize,
    yi: usize,
) -> (r: Vec<(Vec2, ConnectionFilter)>)
    requires
        tiles_fit(image@, tile_size),
        xi < image.width / tile_size.x,
        yi < image.height / tile_size.y,
        samples_known(image@, tile_size, table@),
    ensures
        r@ == tile_conns(image@, tile_size, table@, xi as int, yi as int, 9),
{
    let mut r: Vec<(Vec2, ConnectionFilter)> = Vec::new();
    let mut m: usize = 0;
    while m < 9
        invariant
            m <= 9,
            tiles_fit(image@, tile_size),
            xi < image.width / tile_size.x,
            yi < image.height / tile_size.y,
            samples_known(image@, tile_size, table@),
            r@ == tile_conns(image@, tile_size, table@, xi as int, yi as int, m as int),
        decreases 9 - m,
    {
        let dx: i32 = (m / 3) as i32 - 1;
        let dy: i32 = (m % 3) as i32 - 1;
        let c = sample_at(image, tile_size, xi, yi, m);
        assert(sample_ok(image@, tile_size, table@, xi as int, yi as int, m as int));
        if c.a != 0 {
            if let Some(f) = ConnectionFilter::from_color(table, c) {
                r.push((Vec2 { x: dx, y: -dy }, f));
            }
        }
        m = m + 1;
    }
    r
}

/// Whether the colour table lists `color`.
fn color_known(table: &Vec<(Rgba, Option<ConnectionFilter>)>, color: Rgba) -> (r: bool)
    ensures
        r == color_lookup(table@, color) is Some,
{
    let mut i: usize = 0;
    assert(table@.subrange(0, table@.len() as int) =~= table@);
    while i < table.len()
        invariant
            i <= table.len(),
            color_lookup(table@.subrange(i as int, table@.len() as int), color) == color_lookup(table@, color),
        decreases table.len() - i,
    {
        let ghost rest = table@.subrange(i as int, table@.len() as int);
        assert(rest[0] == table@[i as int]);
        if table[i].0 == color {
            return true;
        }
        assert(rest.drop_first() =~= table@.subrange(i + 1, table@.len() as int));
        i = i + 1;
    }
    false
}

/// Whether every coloured pixel that is read from the image has an entry in
/// the colour table.
pub fn samples_are_known(
    image: &RgbaImage,
    tile_size: TilePos,
    table: &Vec<(Rgba, Option<ConnectionFilter>)>,
) -> (r: bool)
    requires
        tiles_fit(image@, tile_size),
    ensures
        r == samples_known(image@, tile_size, table@),
{
    let nx = image.width / tile_size.x;
    let ny = image.height / tile_size.y;
    let mut xi: usize = 0;
    while xi < nx
        invariant
            xi <= nx,
            nx == image.width / tile_size.x,
            ny == image.height / tile_size.y,
            tiles_fit(image@, tile_size),
            forall|a: int, b: int, m: int|
                0 <= a < xi && 0 <= b < ny && 0 <= m < 9 ==> #[trigger] sample_ok(image@, tile_size, table@, a, b, m),
        decreases nx - xi,
    {
        let mut yi: usize = 0;
        while yi < ny
            invariant
                xi < nx,
                yi <= ny,
                nx == image.width / tile_size.x,
                ny == image.height / tile_size.y,
                tiles_fit(image@, tile_size),
                forall|a: int, b: int, m: int|
                    (0 <= a < xi && 0 <= b < ny && 0 <= m < 9) || (a == xi && 0 <= b < yi && 0 <= m < 9)
                        ==> #[trigger] sample_ok(image@, tile_size, table@, a, b, m),
            decreases ny - yi,
        {
            let mut m: usize = 0;
            while m < 9
                invariant
                    xi < nx,
                    yi < ny,
                    m <= 9,
                    nx == image.width / tile_size.x,
                    ny == image.height / tile_size.y,
                    tiles_fit(image@, tile_size),
                    forall|a: int, b: int, k: int|
                        (0 <= a < xi && 0 <= b < ny && 0 <= k < 9) || (a == xi && 0 <= b < yi && 0 <= k < 9) || (a
                            == xi && b == yi && 0 <= k < m) ==> #[trigger] sample_ok(image@, tile_size, table@, a, b, k),
                decreases 9 - m,
            {
                let c = sample_at(image, tile_size, xi, yi, m);
                if c.a != 0 && !color_known(table, c) {
                    assert(!sample_ok(image@, tile_size, table@, xi as int, yi as int, m as int));
                    return false;
                }
                m = m + 1;
            }
            yi = yi + 1;
        }
        xi = xi + 1;
    }
    true
}

/// The rules that a colour-coded rule image gives: the image is cut into
/// tiles of `tile_size` pixels, read column by column, and each tile that
/// asks for any connection becomes a rule drawn with that tile. Each tile is
/// read at nine pixels, one for each neighbour and its own centre, and
/// `color_rules` says what each colour stands for.
pub fn rules_from_image(
    image: &RgbaImage,
    tile_size: TilePos,
    color_rules: &Vec<(Rgba, Option<ConnectionFilter>)>,
) -> (r: Vec<Rule>)
    requires
        tiles_fit(image@, tile_size),
        samples_known(image@, tile_size, color_rules@),
    ensures
        r@.map_values(|x: Rule| rule_view(x)) == image_rules(
            image@,
            tile_size,
            color_rules@,
            (image.width / tile_size.x) as int,
        ),
{
    let nx = image.width / tile_size.x;
    let ny = image.height / tile_size.y;
    let mut result: Vec<Rule> = Vec::new();
    let mut xi: usize = 0;
    while xi < nx
        invariant
            xi <= nx,
            nx == image.width / tile_size.x,
            ny == image.height / tile_size.y,
            tiles_fit(image@, tile_size),
            samples_known(image@, tile_size, color_rules@),
            result@.map_values(|x: Rule| rule_view(x)) == image_rules(image@, tile_size, color_rules@, xi as int),
        decreases nx - xi,
    {
        let ghost before = result@.map_values(|x: Rule| rule_view(x));
        let mut yi: usize = 0;
        while yi < ny
            invariant
                xi < nx,
                yi <= ny,
                nx == image.width / tile_size.x,
                ny == image.height / tile_size.y,
                tiles_fit(image@, tile_size),
                samples_known(image@, tile_size, color_rules@),
                result@.map_values(|x: Rule| rule_view(x)) == before + column_rules(
                    image@,
                    tile_size,
                    color_rules@,
                    xi as int,
                    yi as int,
                ),
            decreases ny - yi,
        {
            let ghost old_views = result@.map_values(|x: Rule| rule_view(x));
            let conns = tile_connections(image, tile_size, color_rules, xi, yi);
            if conns.len() > 0 {
                result.push(Rule { connections: conns, tileset_pos: TilePos { x: xi, y: yi } });
                proof {
                    assert(result@.map_values(|x: Rule| rule_view(x)) =~= old_views.push(
                        (conns@, TilePos { x: xi, y: yi }),
                    ));
                }
            }
            proof {
                assert(before + column_rules(image@, tile_size, color_rules@, xi as int, yi + 1) =~= before
                    + column_rules(image@, tile_size, color_rules@, xi as int, yi as int) + tile_rule(
                    image@,
                    tile_size,
                    color_rules@,
                    xi as int,
                    yi as int,
                ));
            }
            yi = yi + 1;
        }
        xi = xi + 1;
    }
    result
}

/// What `image` decodes `bytes` to, as width, height and RGBA bytes row by
/// row, or `None` where the bytes are no image that it reads.
pub uninterp spec fn decoded_rgba8(bytes: Seq<u8>) -> Option<(u32, u32, Seq<u8>)>;

/// `image::load_from_memory`, then `DynamicImage::to_rgba8` and
/// `ImageBuffer::into_raw`: the decoded image, as its width, its height and
/// four bytes for each pixel, or `None` where decoding fails. What the bytes
/// decode to is named, not stated; that the buffer holds exactly four bytes
/// a pixel is what `to_rgba8` allocates in the crate's source.
#[verifier::external_body]
fn decode_rgba8(bytes: &Vec<u8>) -> (r: Option<(u32, u32, Vec<u8>)>)
    ensures
        match r {
            Some((w, h, raw)) => decoded_rgba8(bytes@) == Some((w, h, raw@)) && raw@.len() == 4 * w * h,
            None => decoded_rgba8(bytes@) is None,
        },
{
    match image::load_from_memory(bytes.as_slice()) {
        Ok(img) => {
            let rgba = img.to_rgba8();
            Some((rgba.width(), rgba.height(), rgba.into_raw()))
        },
        Err(_) => None,
    }
}

/// The pixels that RGBA bytes hold, four bytes each.
pub open spec fn pixels_of(raw: Seq<u8>) -> Seq<Rgba> {
    Seq::new(raw.len() / 4, |k: int| Rgba { r: raw[4 * k], g: raw[4 * k + 1], b: raw[4 * k + 2], a: raw[4 * k + 3] })
}

/// The pixels that RGBA bytes hold, four bytes each.
pub fn pixels_from_raw(raw: &Vec<u8>) -> (r: Vec<Rgba>)
    requires
        raw@.len() % 4 == 0,
    ensures
        r@ == pixels_of(raw@),
{
    let len = raw.len();
    let n = len / 4;
    let mut r: Vec<Rgba> = Vec::new();
    let mut k: usize = 0;
    while k < n
        invariant
            len == raw@.len(),
            len == 4 * n,
            n == raw@.len() / 4,
            raw@.len() % 4 == 0,
            k <= n,
            r@ == pixels_of(raw@).take(k as int),
        decreases n - k,
    {
        let p = Rgba { r: raw[4 * k], g: raw[4 * k + 1], b: raw[4 * k + 2], a: raw[4 * k + 3] };
        r.push(p);
        k = k + 1;
        proof {
            assert(r@ =~= pixels_of(raw@).take(k as int));
        }
    }
    proof {
        assert(pixels_of(raw@).take(n as int) =~= pixels_of(raw@));
    }
    r
}

/// The image that RGBA bytes of a `w` by `h` image make.
pub open spec fn image_view_of(w: u32, h: u32, raw: Seq<u8>) -> ImageView {
    ImageView { width: w as usize, height: h as usize, pixels: pixels_of(raw) }
}

/// The image that `bytes` decode to, if they are one.
pub open spec fn decoded_view(bytes: Seq<u8>) -> Option<ImageView> {
    match decoded_rgba8(bytes) {
        Some((w, h, raw)) => Some(image_view_of(w, h, raw)),
        None => None,
    }
}

/// The image that `bytes` hold, if `image` can decode them.
pub fn decode_image(bytes: &Vec<u8>) -> (r: Option<RgbaImage>)
    ensures
        match r {
            Some(img) => decoded_view(bytes@) == Some(img@) && img@.wf(),
            None => decoded_view(bytes@) is None,
        },
{
    match decode_rgba8(bytes) {
        Some((w, h, raw)) => {
            proof {
                let ww = w as int;
                let hh = h as int;
                assert(4 * ww * hh == 4 * (ww * hh)) by (nonlinear_arith);
                let p = ww * hh;
                assert((4 * p) % 4 == 0 && (4 * p) / 4 == p);
            }
            let pixels = pixels_from_raw(&raw);
            let img = RgbaImage { width: w as usize, height: h as usize, pixels };
            assert(img@ == image_view_of(w, h, raw@));
            Some(img)
        },
        None => None,
    }
}

/// Why a rule image gives no rules.
#[derive(Copy, Clone, Debug, PartialEq, Eq, Structural)]
pub enum RuleImageError {
    /// The bytes are no image that can be decoded.
    NotAnImage,
    /// The tile size is empty or does not divide the image.
    TileSizeMismatch,
    /// A pixel that is read has a colour that the colour table does not list.
    UnknownColor,
}

/// What reading rules from a decoded image (or from bytes that were no image)
/// comes to.
pub open spec fn rules_outcome(
    img: Option<ImageView>,
    ts: TilePos,
    table: Seq<(Rgba, Option<ConnectionFilter>)>,
) -> Result<Seq<(Seq<(Vec2, ConnectionFilter)>, TilePos)>, RuleImageError> {
    match img {
        None => Err(RuleImageError::NotAnImage),
        Some(v) => if !(ts.x > 0 && ts.y > 0 && v.width % ts.x == 0 && v.height % ts.y == 0) {
            Err(RuleImageError::TileSizeMismatch)
        } else if !samples_known(v, ts, table) {
            Err(RuleImageError::UnknownColor)
        } else {
            Ok(image_rules(v, ts, table, (v.width / ts.x) as int))
        },
    }
}

/// The rules of a decoded rule image, or why there are none.
pub fn rules_from_decoded(
    image: Option<RgbaImage>,
    tile_size: TilePos,
    color_rules: &Vec<(Rgba, Option<ConnectionFilter>)>,
) -> (r: Result<Vec<Rule>, RuleImageError>)
    requires
        image matches Some(img) ==> img@.wf(),
    ensures
        match r {
            Ok(rules) => rules_outcome(
                match image {
                    Some(img) => Some(img@),
                    None => None,
                },
                tile_size,
                color_rules@,
            ) == Ok::<_, RuleImageError>(rules@.map_values(|x: Rule| rule_view(x))),
            Err(e) => rules_outcome(
                match image {
                    Some(img) => Some(img@),
                    None => None,
                },
                tile_size,
                color_rules@,
            ) == Err::<Seq<(Seq<(Vec2, ConnectionFilter)>, TilePos)>, _>(e),
        },
{
    match image {
        None => Err(RuleImageError::NotAnImage),
        Some(img) => {
            if tile_size.x == 0 || tile_size.y == 0 || img.width % tile_size.x != 0 || img.height % tile_size.y
                != 0 {
                return Err(RuleImageError::TileSizeMismatch);
            }
            if !samples_are_known(&img, tile_size, color_rules) {
                return Err(RuleImageError::UnknownColor);
            }
            Ok(rules_from_image(&img, tile_size, color_rules))
        },
    }
}

/// The rules of the colour-coded rule image that `bytes` hold, or why there
/// are none.
pub fn load_rules_from_image(
    bytes: &Vec<u8>,
    tile_size: TilePos,
    color_rules: &Vec<(Rgba, Option<ConnectionFilter>)>,
) -> (r: Result<Vec<Rule>, RuleImageError>)
    ensures
        match r {
            Ok(rules) => rules_outcome(decoded_view(bytes@), tile_size, color_rules@) == Ok::<
                _,
                RuleImageError,
            >(rules@.map_values(|x: Rule| rule_view(x))),
            Err(e) => rules_outcome(decoded_view(bytes@), tile_size, color_rules@) == Err::<
                Seq<(Seq<(Vec2, ConnectionFilter)>, TilePos)>,
                _,
            >(e),
        },
{
    let image = decode_image(bytes);
    rules_from_decoded(image, tile_size, color_rules)
}
} // verus!
