use vstd::prelude::*;
use crate::geometry::Vec2;

verus! {

/// Which way the level cheat keys move: -1 for "previous" alone, 1 for
/// "next" alone, 0 when both or neither were pressed.
pub open spec fn cheat_direction(previous: bool, next: bool) -> int {
    (if next { 1int } else { 0int }) - (if previous { 1int } else { 0int })
}

/// The level index after the cheat keys were pressed: one level back or
/// ahead, never before the first level.
pub fn change_level_cheats(index: usize, previous: bool, next: bool) -> (r: usize)
    requires
        cheat_direction(previous, next) != 0 ==> index < isize::MAX,
    ensures
        r == if index + cheat_direction(previous, next) < 0 {
            0
        } else {
            index + cheat_direction(previous, next)
        },
{
    let mut dir: isize = 0;
    if previous {
        dir -= 1;
    }
    if next {
        dir += 1;
    }
    if dir != 0 {
        let moved = index as isize + dir;
        if moved < 0 {
            0
        } else {
            moved as usize
        }
    } else {
        index
    }
}

/// The goals of `goals` in `cell`, among the first `n`.
pub open spec fn goals_in(goals: Seq<Vec2>, cell: Vec2, n: int) -> int
    decreases n,
{
    if n <= 0 {
        0
    } else {
        goals_in(goals, cell, n - 1) + if goals[n - 1] == cell {
            1int
        } else {
            0int
        }
    }
}

/// How many times, among the first `n` players, an upright player (its
/// rotation a multiple of four turns) stands on a goal: once per goal in
/// its cell.
pub open spec fn finishes(players: Seq<(Vec2, i32)>, goals: Seq<Vec2>, n: int) -> int
    decreases n,
{
    if n <= 0 {
        0
    } else {
        finishes(players, goals, n - 1) + if players[n - 1].1 % 4 == 0 {
            goals_in(goals, players[n - 1].0, goals.len() as int)
        } else {
            0int
        }
    }
}

proof fn lemma_goals_in_bound(goals: Seq<Vec2>, cell: Vec2, n: int)
    requires
        0 <= n <= goals.len(),
    ensures
        0 <= goals_in(goals, cell, n) <= n,
    decreases n,
{
    if n > 0 {
        lemma_goals_in_bound(goals, cell, n - 1);
    }
}

proof fn lemma_finishes_monotone(players: Seq<(Vec2, i32)>, goals: Seq<Vec2>, m: int, n: int)
    requires
        0 <= m <= n <= players.len(),
    ensures
        0 <= finishes(players, goals, m) <= finishes(players, goals, n),
    decreases n,
{
    if m < n {
        lemma_finishes_monotone(players, goals, m, n - 1);
        lemma_goals_in_bound(goals, players[n - 1].0, goals.len() as int);
    } else if n > 0 {
        lemma_finishes_monotone(players, goals, n - 1, n - 1);
        lemma_goals_in_bound(goals, players[n - 1].0, goals.len() as int);
    }
}

/// The level index after a turn: one level further for each time an upright
/// player (given by its cell and its rotation in quarter turns) stands on a
/// goal.
pub fn finish_level(index: usize, players: &Vec<(Vec2, i32)>, goals: &Vec<Vec2>) -> (r: usize)
    requires
        index + finishes(players@, goals@, players@.len() as int) <= usize::MAX,
    ensures
        r == index + finishes(players@, goals@, players@.len() as int),
{
    let mut r = index;
    let mut i: usize = 0;
    while i < players.len()
        invariant
            i <= players.len(),
            r == index + finishes(players@, goals@, i as int),
            index + finishes(players@, goals@, players@.len() as int) <= usize::MAX,
        decreases players.len() - i,
    {
        let (cell, rotation) = players[i];
        proof {
            lemma_finishes_monotone(players@, goals@, i + 1, players@.len() as int);
        }
        if rotation % 4 == 0 {
            let mut j: usize = 0;
            while j < goals.len()
                invariant
                    j <= goals.len(),
                    i < players.len(),
                    cell == players@[i as int].0,
                    rotation == players@[i as int].1,
                    r == index + finishes(players@, goals@, i as int) + goals_in(goals@, cell, j as int),
                    index + finishes(players@, goals@, i + 1) <= usize::MAX,
                    rotation % 4 == 0,
                decreases goals.len() - j,
            {
                proof {
                    lemma_goals_in_bound(goals@, cell, j + 1);
                    lemma_goals_in_bound(goals@, cell, goals@.len() as int);
                    lemma_goals_in_prefix(goals@, cell, j + 1, goals@.len() as int);
                }
                if goals[j] == cell {
                    r = r + 1;
                }
                j = j + 1;
            }
        }
        i = i + 1;
    }
    r
}

proof fn lemma_goals_in_prefix(goals: Seq<Vec2>, cell: Vec2, m: int, n: int)
    requires
        0 <= m <= n <= goals.len(),
    ensures
        goals_in(goals, cell, m) <= goals_in(goals, cell, n),
    decreases n,
{
    if m < n {
        lemma_goals_in_prefix(goals, cell, m, n - 1);
    }
}

} // verus!
