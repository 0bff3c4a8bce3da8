use vstd::prelude::*;
use crate::geometry::Vec2;

verus! {

/// Which way the selected player is asked to go.
#[derive(Copy, Clone, Debug, PartialEq, Eq, Structural)]
pub enum Direction {
    Left,
    Stay,
    Right,
}

/// A player on the map: its player index, its cell, the identifier of its
/// entity, and whether it is the selected one.
#[derive(Copy, Clone, Debug, PartialEq, Eq, Structural)]
pub struct PlayerEntry {
    pub index: i32,
    pub coords: Vec2,
    pub entity: u64,
    pub selected: bool,
}

/// The keys that steer players: held for walking, just pressed for
/// changing the selection.
#[derive(Copy, Clone, Debug, PartialEq, Eq, Structural)]
pub struct PlayerKeys {
    pub left_held: bool,
    pub right_held: bool,
    pub next_pressed: bool,
    pub previous_pressed: bool,
}

/// A player that gets the selection: its entity and its cell.
#[derive(Copy, Clone, Debug, PartialEq, Eq, Structural)]
pub struct NewSelection {
    pub entity: u64,
    pub coords: Vec2,
}

/// What the input does: the direction given to the selected players, and a
/// change of selection (the entity that loses it and the player that gets
/// it).
#[derive(Copy, Clone, Debug, PartialEq, Eq, Structural)]
pub struct PlayerInputUpdate {
    pub direction: Direction,
    pub deselect: Option<u64>,
    pub select: Option<NewSelection>,
}

/// Players are ordered by index, then by cell (column, then row), then by
/// entity, then unselected before selected.
pub open spec fn entry_lt(a: PlayerEntry, b: PlayerEntry) -> bool {
    if a.index != b.index {
        a.index < b.index
    } else if a.coords.x != b.coords.x {
        a.coords.x < b.coords.x
    } else if a.coords.y != b.coords.y {
        a.coords.y < b.coords.y
    } else if a.entity != b.entity {
        a.entity < b.entity
    } else {
        !a.selected && b.selected
    }
}

fn entry_less(a: &PlayerEntry, b: &PlayerEntry) -> (r: bool)
    ensures
        r == entry_lt(*a, *b),
{
    if a.index != b.index {
        a.index < b.index
    } else if a.coords.x != b.coords.x {
        a.coords.x < b.coords.x
    } else if a.coords.y != b.coords.y {
        a.coords.y < b.coords.y
    } else if a.entity != b.entity {
        a.entity < b.entity
    } else {
        !a.selected && b.selected
    }
}

/// Where an entry goes in a sorted list, from position `j` on: before the
/// first entry that is greater.
pub open spec fn entry_insert_pos(s: Seq<PlayerEntry>, e: PlayerEntry, j: int) -> int
    decreases s.len() - j,
{
    if j < 0 || j >= s.len() {
        s.len() as int
    } else if entry_lt(e, s[j]) {
        j
    } else {
        entry_insert_pos(s, e, j + 1)
    }
}

/// The first `n` players, sorted.
pub open spec fn sorted_entries(ps: Seq<PlayerEntry>, n: int) -> Seq<PlayerEntry>
    decreases n,
{
    if n <= 0 {
        seq![]
    } else {
        let prev = sorted_entries(ps, n - 1);
        prev.insert(entry_insert_pos(prev, ps[n - 1], 0), ps[n - 1])
    }
}

proof fn lemma_insert_pos_bound(s: Seq<PlayerEntry>, e: PlayerEntry, j: int)
    requires
        0 <= j,
    ensures
        0 <= entry_insert_pos(s, e, j) <= s.len(),
    decreases s.len() - j,
{
    if j < s.len() && !entry_lt(e, s[j]) {
        lemma_insert_pos_bound(s, e, j + 1);
    }
}

proof fn lemma_sorted_len(ps: Seq<PlayerEntry>, n: int)
    requires
        0 <= n <= ps.len(),
    ensures
        sorted_entries(ps, n).len() == n,
    decreases n,
{
    if n > 0 {
        lemma_sorted_len(ps, n - 1);
        lemma_insert_pos_bound(sorted_entries(ps, n - 1), ps[n - 1], 0);
    }
}

proof fn lemma_entry_insert_pos(s: Seq<PlayerEntry>, e: PlayerEntry, j: int)
    requires
        0 <= j <= s.len(),
        forall|k: int| 0 <= k < j ==> !entry_lt(e, #[trigger] s[k]),
    ensures
        j <= entry_insert_pos(s, e, j) <= s.len(),
        forall|k: int| 0 <= k < entry_insert_pos(s, e, j) ==> !entry_lt(e, #[trigger] s[k]),
        entry_insert_pos(s, e, j) < s.len() ==> entry_lt(e, s[entry_insert_pos(s, e, j)]),
    decreases s.len() - j,
{
    if j < s.len() && !entry_lt(e, s[j]) {
        lemma_entry_insert_pos(s, e, j + 1);
    }
}

/// The sorted players are the players, each as often as given, in
/// ascending order of `entry_lt`.
pub proof fn lemma_sorted_entries(ps: Seq<PlayerEntry>, n: int)
    requires
        0 <= n <= ps.len(),
    ensures
        sorted_entries(ps, n).to_multiset() == ps.take(n).to_multiset(),
        forall|i: int, j: int|
            0 <= i < j < sorted_entries(ps, n).len() ==> !entry_lt(
                #[trigger] sorted_entries(ps, n)[j],
                #[trigger] sorted_entries(ps, n)[i],
            ),
    decreases n,
{
    broadcast use vstd::seq_lib::group_to_multiset_ensures;

    if n == 0 {
        assert(ps.take(0) =~= Seq::<PlayerEntry>::empty());
    } else {
        lemma_sorted_entries(ps, n - 1);
        let prev = sorted_entries(ps, n - 1);
        let e = ps[n - 1];
        lemma_entry_insert_pos(prev, e, 0);
        let p = entry_insert_pos(prev, e, 0);
        let cur = prev.insert(p, e);
        assert(cur == sorted_entries(ps, n));
        assert(ps.take(n) =~= ps.take(n - 1).push(e));
        vstd::seq_lib::to_multiset_insert(prev, p, e);
        assert forall|i: int, j: int| 0 <= i < j < cur.len() implies !entry_lt(#[trigger] cur[j], #[trigger] cur[i]) by {
            if j < p {
                assert(cur[i] == prev[i] && cur[j] == prev[j]);
            } else if j == p {
                assert(cur[i] == prev[i]);
            } else if i < p {
                assert(cur[i] == prev[i] && cur[j] == prev[j - 1]);
            } else if i == p {
                assert(cur[j] == prev[j - 1]);
                assert(!entry_lt(prev[j - 1], prev[p]) || j - 1 == p);
            } else {
                assert(cur[i] == prev[i - 1] && cur[j] == prev[j - 1]);
            }
        }
    }
}

/// The position of the first selected player in `s`, from `j` on.
pub open spec fn first_selected(s: Seq<PlayerEntry>, j: int) -> Option<int>
    decreases s.len() - j,
{
    if j < 0 || j >= s.len() {
        None
    } else if s[j].selected {
        Some(j)
    } else {
        first_selected(s, j + 1)
    }
}

proof fn lemma_first_selected_bound(s: Seq<PlayerEntry>, j: int)
    requires
        0 <= j,
    ensures
        first_selected(s, j) matches Some(k) ==> j <= k < s.len(),
    decreases s.len() - j,
{
    if j < s.len() && !s[j].selected {
        lemma_first_selected_bound(s, j + 1);
    }
}

/// Held keys: left alone walks left, right alone walks right.
pub open spec fn walk_direction(keys: PlayerKeys) -> Direction {
    let dir = (if keys.right_held { 1int } else { 0int }) - (if keys.left_held { 1int } else { 0int });
    if dir < 0 {
        Direction::Left
    } else if dir == 0 {
        Direction::Stay
    } else {
        Direction::Right
    }
}

/// The change of selection that the keys ask for: 1 for "next", -1 for
/// "previous" (which wins when both are pressed), 0 for neither.
pub open spec fn selection_delta(keys: PlayerKeys) -> int {
    if keys.previous_pressed {
        -1
    } else if keys.next_pressed {
        1
    } else {
        0
    }
}

/// What the input does. The direction goes to the selected players. With
/// players on the map, when the selection is asked to change or no player
/// is selected, the players are sorted, the first selected one (if any)
/// loses the selection, and the one `delta` places further, counted from
/// it or else from the first, wrapping around, gets it.
pub open spec fn spec_update_player_input(keys: PlayerKeys, ps: Seq<PlayerEntry>, any_selected: bool) -> PlayerInputUpdate {
    let delta = selection_delta(keys);
    if ps.len() == 0 || !(delta != 0 || !any_selected) {
        PlayerInputUpdate { direction: walk_direction(keys), deselect: None, select: None }
    } else {
        let sorted = sorted_entries(ps, ps.len() as int);
        let sel = first_selected(sorted, 0);
        let from = match sel {
            Some(k) => k,
            None => 0,
        };
        let to = (from + ps.len() + delta) % (ps.len() as int);
        PlayerInputUpdate {
            direction: walk_direction(keys),
            deselect: match sel {
                Some(k) => Some(sorted[k].entity),
                None => None,
            },
            select: Some(NewSelection { entity: sorted[to].entity, coords: sorted[to].coords }),
        }
    }
}

fn entry_insert_at(s: &Vec<PlayerEntry>, e: PlayerEntry) -> (r: usize)
    ensures
        r == entry_insert_pos(s@, e, 0),
{
    let mut j: usize = 0;
    while j < s.len()
        invariant
            j <= s.len(),
            entry_insert_pos(s@, e, 0) == entry_insert_pos(s@, e, j as int),
        decreases s.len() - j,
    {
        if entry_less(&e, &s[j]) {
            return j;
        }
        j = j + 1;
    }
    j
}

fn sort_entries(ps: &Vec<PlayerEntry>) -> (r: Vec<PlayerEntry>)
    ensures
        r@ == sorted_entries(ps@, ps@.len() as int),
{
    let mut r: Vec<PlayerEntry> = Vec::new();
    let mut n: usize = 0;
    while n < ps.len()
        invariant
            n <= ps.len(),
            r@ == sorted_entries(ps@, n as int),
        decreases ps.len() - n,
    {
        let e = ps[n];
        let at = entry_insert_at(&r, e);
        proof {
            lemma_insert_pos_bound(r@, e, 0);
        }
        r.insert(at, e);
        n = n + 1;
    }
    r
}

fn find_selected(s: &Vec<PlayerEntry>) -> (r: Option<usize>)
    ensures
        match first_selected(s@, 0) {
            Some(k) => r == Some(k as usize) && 0 <= k < s@.len(),
            None => r is None,
        },
{
    proof {
        lemma_first_selected_bound(s@, 0);
    }
    let mut j: usize = 0;
    while j < s.len()
        invariant
            j <= s.len(),
            first_selected(s@, 0) == first_selected(s@, j as int),
        decreases s.len() - j,
    {
        if s[j].selected {
            return Some(j);
        }
        j = j + 1;
    }
    None
}

/// What the steering keys do to the players (see `spec_update_player_input`);
/// `any_selected` tells whether some player is selected and takes input.
pub fn update_player_input(keys: PlayerKeys, players: &Vec<PlayerEntry>, any_selected: bool) -> (r: PlayerInputUpdate)
    requires
        players@.len() < isize::MAX / 2,
    ensures
        r == spec_update_player_input(keys, players@, any_selected),
{
    let mut dir: i32 = 0;
    if keys.left_held {
        dir -= 1;
    }
    if keys.right_held {
        dir += 1;
    }
    let direction = if dir < 0 {
        Direction::Left
    } else if dir == 0 {
        Direction::Stay
    } else {
        Direction::Right
    };
    if players.len() == 0 {
        return PlayerInputUpdate { direction, deselect: None, select: None };
    }
    let mut delta: isize = 0;
    if keys.next_pressed {
        delta = 1;
    }
    if keys.previous_pressed {
        delta = -1;
    }
    if delta == 0 && any_selected {
        return PlayerInputUpdate { direction, deselect: None, select: None };
    }
    let sorted = sort_entries(players);
    proof {
        lemma_sorted_len(players@, players@.len() as int);
    }
    let sel = find_selected(&sorted);
    let from: usize = match sel {
        Some(k) => k,
        None => 0,
    };
    assert(sorted@.len() == players@.len());
    assert(from < sorted@.len());
    let len = sorted.len() as isize;
    let to = ((from as isize + len + delta) % len) as usize;
    PlayerInputUpdate {
        direction,
        deselect: match sel {
            Some(k) => Some(sorted[k].entity),
            None => None,
        },
        select: Some(NewSelection { entity: sorted[to].entity, coords: sorted[to].coords }),
    }
}

} // verus!
