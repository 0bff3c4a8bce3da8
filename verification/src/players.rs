use vstd::prelude::*;
use crate::id::Id;
use crate::model::{Config, Entity, GameState, GameView};

verus! {

/// Order of player indices: players without an index come first.
pub open spec fn key_le(a: Option<i32>, b: Option<i32>) -> bool {
    match (a, b) {
        (None, _) => true,
        (Some(_), None) => false,
        (Some(x), Some(y)) => x <= y,
    }
}

/// Where a player with index `key` goes in a sorted list, from position `j`
/// on: before the first player whose index is greater, else at the end.
pub open spec fn insert_pos_from(s: Seq<(Id, Option<i32>)>, key: Option<i32>, j: int) -> int
    decreases s.len() - j,
{
    if j < 0 || j >= s.len() {
        s.len() as int
    } else if !key_le(s[j].1, key) {
        j
    } else {
        insert_pos_from(s, key, j + 1)
    }
}

/// The players among the first `n` entities, sorted by index; players with
/// equal indices keep the order in which the entities come.
pub open spec fn sorted_players(ents: Seq<Entity>, n: int) -> Seq<(Id, Option<i32>)>
    decreases n,
{
    if n <= 0 {
        seq![]
    } else {
        let prev = sorted_players(ents, n - 1);
        let e = ents[n - 1];
        if e.properties.player {
            prev.insert(insert_pos_from(prev, e.index, 0), (e.id, e.index))
        } else {
            prev
        }
    }
}

/// The identifiers of the players, sorted by index.
pub open spec fn spec_player_ids(v: GameView) -> Seq<Id> {
    sorted_players(v.entities, v.entities.len() as int).map_values(|p: (Id, Option<i32>)| p.0)
}

/// The first position from `j` on in `ids` that holds the selected player.
pub open spec fn position_from(ids: Seq<Id>, selected: Option<Id>, j: int) -> Option<int>
    decreases ids.len() - j,
{
    if j < 0 || j >= ids.len() {
        None
    } else if Some(ids[j]) == selected {
        Some(j)
    } else {
        position_from(ids, selected, j + 1)
    }
}

/// The position of the selected player among the players.
pub open spec fn spec_selected_player_index(v: GameView) -> Option<int> {
    position_from(spec_player_ids(v), v.selected_player, 0)
}

/// The player at position `index`, or no player when there is none there.
pub open spec fn spec_select(v: GameView, index: int) -> Option<Id> {
    let ids = spec_player_ids(v);
    if 0 <= index < ids.len() {
        Some(ids[index])
    } else {
        None
    }
}

/// The player selected after a change of selection by `delta`: positions
/// wrap around at both ends; with no player selected, the first is. Nothing
/// changes while the game moves, unless the rules allow it.
pub open spec fn spec_change_selection(v: GameView, allow_unstable: bool, delta: int) -> Option<Id> {
    if !allow_unstable && !v.stable {
        v.selected_player
    } else {
        match spec_selected_player_index(v) {
            None => spec_select(v, 0),
            Some(cur) => {
                let count = spec_player_ids(v).len() as int;
                let new = cur + delta;
                let new = if new < 0 {
                    count - 1
                } else if new >= count {
                    0
                } else {
                    new
                };
                spec_select(v, new)
            },
        }
    }
}

impl GameState {
    /// The identifiers of the players, sorted by their index.
    pub fn player_ids(&self) -> (r: Vec<Id>)
        ensures
            r@ == spec_player_ids(self@),
    {
        let mut sorted: Vec<(Id, Option<i32>)> = Vec::new();
        let mut i: usize = 0;
        while i < self.entities.len()
            invariant
                i <= self.entities.len(),
                sorted@ == sorted_players(self.entities@, i as int),
            decreases self.entities.len() - i,
        {
            let e = &self.entities[i];
            if e.properties.player {
                let key = e.index;
                let mut j: usize = 0;
                while j < sorted.len()
                    invariant
                        j <= sorted.len(),
                        insert_pos_from(sorted@, key, 0) == insert_pos_from(sorted@, key, j as int),
                    ensures
                        j <= sorted.len(),
                        insert_pos_from(sorted@, key, 0) == j,
                    decreases sorted.len() - j,
                {
                    let le = match (sorted[j].1, key) {
                        (None, _) => true,
                        (Some(_), None) => false,
                        (Some(x), Some(y)) => x <= y,
                    };
                    if !le {
                        break;
                    }
                    j = j + 1;
                }
                sorted.insert(j, (e.id, key));
            }
            i = i + 1;
        }
        let mut ids: Vec<Id> = Vec::new();
        let mut k: usize = 0;
        while k < sorted.len()
            invariant
                k <= sorted.len(),
                ids@ == sorted@.take(k as int).map_values(|p: (Id, Option<i32>)| p.0),
            decreases sorted.len() - k,
        {
            ids.push(sorted[k].0);
            proof {
                assert(sorted@.take(k + 1).map_values(|p: (Id, Option<i32>)| p.0) =~= sorted@.take(k as int).map_values(
                    |p: (Id, Option<i32>)| p.0,
                ).push(sorted@[k as int].0));
            }
            k = k + 1;
        }
        proof {
            assert(sorted@.take(sorted@.len() as int) =~= sorted@);
        }
        ids
    }

    /// The position of the selected player among the players.
    pub fn selected_player_index(&self) -> (r: Option<usize>)
        ensures
            r matches Some(i) ==> spec_selected_player_index(self@) == Some(i as int),
            r is None ==> spec_selected_player_index(self@) is None,
    {
        let ids = self.player_ids();
        let mut j: usize = 0;
        while j < ids.len()
            invariant
                j <= ids.len(),
                ids@ == spec_player_ids(self@),
                spec_selected_player_index(self@) == position_from(ids@, self.selected_player, j as int),
            decreases ids.len() - j,
        {
            if Some(ids[j]) == self.selected_player {
                return Some(j);
            }
            j = j + 1;
        }
        None
    }

    /// Selects the player at position `index`, or nobody when there is none.
    pub fn select_player(&mut self, index: usize)
        ensures
            final(self)@ == (GameView { selected_player: spec_select(old(self)@, index as int), ..old(self)@ }),
    {
        let ids = self.player_ids();
        let new = if index < ids.len() {
            Some(ids[index])
        } else {
            None
        };
        self.selected_player = new;
    }

    /// Moves the selection `delta` players further, wrapping around.
    pub fn change_player_selection(&mut self, config: &Config, delta: isize)
        requires
            old(self).entities@.len() <= isize::MAX,
            (config.allow_unstable_player_selection || old(self).stable) ==> (spec_selected_player_index(
                old(self)@,
            ) matches Some(i) ==> i + delta <= isize::MAX),
        ensures
            final(self)@ == (GameView {
                selected_player: spec_change_selection(old(self)@, config.allow_unstable_player_selection, delta as int),
                ..old(self)@
            }),
    {
        if !config.allow_unstable_player_selection && !self.stable {
            return;
        }
        let current_index = match self.selected_player_index() {
            Some(i) => i,
            None => {
                self.select_player(0);
                return;
            },
        };
        let players_count = self.player_ids().len();
        proof {
            lemma_player_count(self@);
            lemma_position_bound(spec_player_ids(self@), self.selected_player, 0);
        }
        let mut new = current_index as isize + delta;
        if new < 0 {
            new = players_count as isize - 1;
        } else if new >= players_count as isize {
            new = 0;
        }
        self.select_player(new as usize);
    }

    /// The selected player's entity, if any.
    pub fn selected_entity(&self) -> (r: Option<&Entity>)
        ensures
            r matches Some(e) ==> self.selected_player matches Some(id) && self@.has_entity(id) && *e
                == self@.entity(id),
            r is None ==> !(self.selected_player matches Some(id) && self@.has_entity(id)),
    {
        match self.selected_player {
            Some(id) => match self.find_entity(id) {
                Some(i) => Some(&self.entities[i]),
                None => None,
            },
            None => None,
        }
    }
}

pub proof fn lemma_sorted_len(ents: Seq<Entity>, n: int)
    requires
        0 <= n <= ents.len(),
    ensures
        sorted_players(ents, n).len() <= n,
    decreases n,
{
    if n > 0 {
        lemma_sorted_len(ents, n - 1);
        lemma_insert_pos_bound(sorted_players(ents, n - 1), ents[n - 1].index, 0);
    }
}

pub proof fn lemma_insert_pos_bound(s: Seq<(Id, Option<i32>)>, key: Option<i32>, j: int)
    requires
        0 <= j,
    ensures
        0 <= insert_pos_from(s, key, j) <= s.len(),
        j <= s.len() ==> j <= insert_pos_from(s, key, j),
    decreases s.len() - j,
{
    if j < s.len() && key_le(s[j].1, key) {
        lemma_insert_pos_bound(s, key, j + 1);
    }
}

proof fn lemma_player_count(v: GameView)
    ensures
        spec_player_ids(v).len() <= v.entities.len(),
{
    lemma_sorted_len(v.entities, v.entities.len() as int);
}

proof fn lemma_position_bound(ids: Seq<Id>, selected: Option<Id>, j: int)
    requires
        0 <= j,
    ensures
        position_from(ids, selected, j) matches Some(k) ==> j <= k < ids.len(),
    decreases ids.len() - j,
{
    if j < ids.len() && Some(ids[j]) != selected {
        lemma_position_bound(ids, selected, j + 1);
    }
}

} // verus!
