use logicsider::geometry::Vec2;
use logicsider::player_input::{update_player_input, Direction, NewSelection, PlayerEntry, PlayerKeys};

fn keys(left: bool, right: bool, next: bool, previous: bool) -> PlayerKeys {
    PlayerKeys { left_held: left, right_held: right, next_pressed: next, previous_pressed: previous }
}

fn player(index: i32, x: i32, entity: u64, selected: bool) -> PlayerEntry {
    PlayerEntry { index, coords: Vec2 { x, y: 0 }, entity, selected }
}

#[test]
fn held_keys_give_the_direction() {
    let ps = vec![player(1, 0, 10, true)];
    assert_eq!(update_player_input(keys(true, false, false, false), &ps, true).direction, Direction::Left);
    assert_eq!(update_player_input(keys(false, true, false, false), &ps, true).direction, Direction::Right);
    assert_eq!(update_player_input(keys(true, true, false, false), &ps, true).direction, Direction::Stay);
    let r = update_player_input(keys(false, false, false, false), &ps, true);
    assert_eq!(r.deselect, None);
    assert_eq!(r.select, None);
}

#[test]
fn next_and_previous_cycle_through_players_by_index() {
    let ps = vec![player(2, 0, 10, true), player(1, 5, 11, false), player(3, 1, 12, false)];
    let r = update_player_input(keys(false, false, true, false), &ps, true);
    assert_eq!(r.deselect, Some(10));
    assert_eq!(r.select, Some(NewSelection { entity: 12, coords: Vec2 { x: 1, y: 0 } }));
    let r = update_player_input(keys(false, false, false, true), &ps, true);
    assert_eq!(r.select, Some(NewSelection { entity: 11, coords: Vec2 { x: 5, y: 0 } }));
    let r = update_player_input(keys(false, false, true, true), &ps, true);
    assert_eq!(r.select, Some(NewSelection { entity: 11, coords: Vec2 { x: 5, y: 0 } }));
    let last = vec![player(1, 0, 10, false), player(2, 0, 11, true)];
    let r = update_player_input(keys(false, false, true, false), &last, true);
    assert_eq!(r.select, Some(NewSelection { entity: 10, coords: Vec2 { x: 0, y: 0 } }));
}

#[test]
fn without_a_selection_the_first_player_is_selected() {
    let ps = vec![player(2, 0, 10, false), player(1, 5, 11, false)];
    let r = update_player_input(keys(false, false, false, false), &ps, false);
    assert_eq!(r.deselect, None);
    assert_eq!(r.select, Some(NewSelection { entity: 11, coords: Vec2 { x: 5, y: 0 } }));
    let none: Vec<PlayerEntry> = vec![];
    assert_eq!(update_player_input(keys(false, false, true, false), &none, false).select, None);
}
