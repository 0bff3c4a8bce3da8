use logicsider::geometry::Vec2;
use logicsider::input::Input;
use logicsider::int_angle::IntAngle;
use logicsider::level::{Entity as LevelEntity, Goal as LevelGoal, Level, Powerup as LevelPowerup};
use logicsider::model::{Config, ContinueConfig, Effect, GameState, Properties, Side};
use logicsider::moves::{EntityMoveType, Event};
use logicsider::position::Position;

fn props(block: bool, player: bool, pushable: bool, is_static: bool) -> Properties {
    Properties { block, trigger: true, player, pushable, is_static }
}

fn config() -> Config {
    Config {
        allow_unstable_player_selection: false,
        magnet_continue: ContinueConfig::Never,
        entities: vec![
            ("Player".to_string(), props(true, true, false, false)),
            ("Block".to_string(), props(true, false, false, true)),
            ("Box".to_string(), props(true, false, true, false)),
        ],
    }
}

fn pos(x: i32, y: i32, angle: i32) -> Position {
    Position { cell: Vec2 { x, y }, angle: IntAngle(angle) }
}

fn blank() -> [Side; 4] {
    [Side { effect: None }; 4]
}

fn entity(kind: &str, x: i32, y: i32, index: Option<i32>) -> LevelEntity {
    LevelEntity { index, identifier: kind.to_string(), pos: pos(x, y, 0), sides: blank() }
}

/// A floor of static blocks under the cells `from..=to` of row 0.
fn floor(from: i32, to: i32) -> Vec<LevelEntity> {
    (from..=to).map(|x| entity("Block", x, -1, None)).collect()
}

fn cell_of(game: &GameState, k: usize) -> (i32, i32) {
    let c = game.entities[k].pos.cell;
    (c.x, c.y)
}

/// Plays a solution the way the level solutions are written: `<` and `>`
/// roll the selected player, `.` waits a turn, a digit selects a player.
fn play(game: &mut GameState, config: &Config, solution: &str) {
    for c in solution.chars().chain(".".chars()) {
        match c {
            '<' => {
                game.process_turn(config, Input::Left);
            }
            '>' => {
                game.process_turn(config, Input::Right);
            }
            '.' => {
                game.process_turn(config, Input::Skip);
            }
            '1'..='9' => {
                let index = c.to_digit(10).unwrap() as usize;
                game.select_player(index);
            }
            _ => panic!("{c:?} character in tests means nothing"),
        }
    }
}

#[test]
fn rolling_onto_the_goal_finishes_the_level() {
    let config = config();
    let mut entities = floor(-1, 6);
    entities.insert(0, entity("Player", 0, 0, Some(1)));
    let level = Level { entities, powerups: vec![], goals: vec![LevelGoal { pos: pos(4, 0, 0) }] };
    let mut game = GameState::init(&config, &level);
    assert!(!game.finished());
    play(&mut game, &config, ">>>>");
    assert!(game.finished());
}

#[test]
fn a_wrong_solution_does_not_finish() {
    let config = config();
    let mut entities = floor(-1, 6);
    entities.insert(0, entity("Player", 0, 0, Some(1)));
    let level = Level { entities, powerups: vec![], goals: vec![LevelGoal { pos: pos(4, 0, 0) }] };
    let mut game = GameState::init(&config, &level);
    play(&mut game, &config, ">>><");
    assert!(!game.finished());
}

#[test]
fn a_goal_turned_otherwise_is_not_entered() {
    let config = config();
    let mut entities = floor(-1, 6);
    entities.insert(0, entity("Player", 0, 0, Some(1)));
    let level = Level { entities, powerups: vec![], goals: vec![LevelGoal { pos: pos(1, 0, 0) }] };
    let mut game = GameState::init(&config, &level);
    play(&mut game, &config, ">");
    assert_eq!(cell_of(&game, 0), (1, 0));
    assert_eq!(game.entities[0].pos.angle.normalize(), IntAngle(3));
    assert!(!game.finished());
}

#[test]
fn a_roll_moves_one_cell_and_turns() {
    let config = config();
    let mut entities = floor(-1, 3);
    entities.insert(0, entity("Player", 0, 0, Some(1)));
    let level = Level { entities, powerups: vec![], goals: vec![] };
    let mut game = GameState::init(&config, &level);
    let events = game.process_turn(&config, Input::Right);
    assert_eq!(cell_of(&game, 0), (1, 0));
    assert_eq!(game.entities[0].pos.angle, IntAngle(-1));
    assert!(game.stable);
    let started = events
        .iter()
        .filter(|e| matches!(e, Event::MoveStarted(m) if m.move_type == EntityMoveType::Move))
        .count();
    assert_eq!(started, 1);
    game.process_turn(&config, Input::Left);
    assert_eq!(cell_of(&game, 0), (0, 0));
    assert_eq!(game.entities[0].pos.angle, IntAngle(0));
}

#[test]
fn a_player_in_the_air_falls_to_the_floor() {
    let config = config();
    let mut entities = floor(-1, 1);
    entities.insert(0, entity("Player", 0, 3, Some(1)));
    let level = Level { entities, powerups: vec![], goals: vec![] };
    let mut game = GameState::init(&config, &level);
    let events = game.process_turn(&config, Input::Skip);
    assert_eq!(cell_of(&game, 0), (0, 0));
    assert!(game.stable);
    let falls = events
        .iter()
        .filter(|e| matches!(e, Event::MoveEnded(m) if m.move_type == EntityMoveType::Gravity))
        .count();
    assert_eq!(falls, 3);
}

#[test]
fn a_wall_turns_the_player_in_place() {
    let config = config();
    let mut entities = floor(-1, 3);
    entities.insert(0, entity("Player", 0, 0, Some(1)));
    entities.push(entity("Block", 1, 0, None));
    let level = Level { entities, powerups: vec![], goals: vec![] };
    let mut game = GameState::init(&config, &level);
    game.process_turn(&config, Input::Right);
    assert_eq!(cell_of(&game, 0), (0, 0));
    assert_eq!(game.entities[0].pos.angle, IntAngle(-1));
}

#[test]
fn a_box_is_pushed_ahead() {
    let config = config();
    let mut entities = floor(-1, 4);
    entities.insert(0, entity("Player", 0, 0, Some(1)));
    entities.insert(1, entity("Box", 1, 0, None));
    let level = Level { entities, powerups: vec![], goals: vec![] };
    let mut game = GameState::init(&config, &level);
    game.process_turn(&config, Input::Right);
    assert_eq!(cell_of(&game, 0), (1, 0));
    assert_eq!(cell_of(&game, 1), (2, 0));
}

#[test]
fn static_blocks_never_move() {
    let config = config();
    let level = Level { entities: vec![entity("Block", 0, 5, None)], powerups: vec![], goals: vec![] };
    let mut game = GameState::init(&config, &level);
    game.process_turn(&config, Input::Skip);
    assert_eq!(cell_of(&game, 0), (0, 5));
    assert!(game.stable);
}

#[test]
fn a_blank_side_picks_up_a_powerup() {
    let config = config();
    let mut entities = floor(-1, 3);
    entities.insert(0, entity("Player", 0, 0, Some(1)));
    let level = Level {
        entities,
        powerups: vec![LevelPowerup { pos: pos(1, 0, 3), effect: Effect::Magnet }],
        goals: vec![],
    };
    let mut game = GameState::init(&config, &level);
    assert_eq!(game.powerups.len(), 1);
    play(&mut game, &config, ">");
    assert_eq!(cell_of(&game, 0), (1, 0));
    assert_eq!(game.powerups.len(), 0);
    let carried = game.entities[0].sides.iter().filter(|s| s.effect == Some(Effect::Magnet)).count();
    assert_eq!(carried, 1);
}

#[test]
fn players_are_selected_by_index() {
    let config = config();
    let mut entities = floor(-1, 5);
    entities.insert(0, entity("Player", 0, 0, Some(2)));
    entities.insert(1, entity("Player", 3, 0, Some(1)));
    let level = Level { entities, powerups: vec![], goals: vec![] };
    let mut game = GameState::init(&config, &level);
    let first = game.entities[1].id.clone();
    let second = game.entities[0].id.clone();
    assert_eq!(game.player_ids(), vec![first.clone(), second.clone()]);
    assert_eq!(game.selected_player, Some(first.clone()));
    assert_eq!(game.selected_player_index(), Some(0));
    game.select_player(1);
    assert_eq!(game.selected_player, Some(second.clone()));
    game.process_turn(&config, Input::Right);
    assert_eq!(cell_of(&game, 0), (1, 0));
    assert_eq!(cell_of(&game, 1), (3, 0));
    game.change_player_selection(&config, 1);
    assert_eq!(game.selected_player, Some(first.clone()));
    game.change_player_selection(&config, -1);
    assert_eq!(game.selected_player, Some(second));
    game.select_player(5);
    assert_eq!(game.selected_player, None);
    assert_eq!(game.selected_player_index(), None);
}

#[test]
fn the_ids_follow_the_level_order() {
    let config = config();
    let level = Level {
        entities: vec![entity("Player", 0, 0, None), entity("Block", 0, -1, None)],
        powerups: vec![LevelPowerup { pos: pos(2, 0, 0), effect: Effect::Jump }],
        goals: vec![LevelGoal { pos: pos(3, 0, 0) }],
    };
    let game = GameState::init(&config, &level);
    assert_eq!(game.entities[0].id.raw(), 0);
    assert_eq!(game.entities[1].id.raw(), 1);
    assert_eq!(game.powerups[0].id.raw(), 2);
    assert_eq!(game.goals[0].id.raw(), 3);
    assert!(game.entities[1].properties.is_static);
    assert!(game.entities[0].properties.player);
}

#[test]
fn moves_that_end_together_end_by_larger_identifier_first() {
    let config = config();
    let mut entities = floor(-1, 3);
    entities.insert(0, entity("Box", 0, 1, None));
    entities.insert(1, entity("Box", 2, 1, None));
    let level = Level { entities, powerups: vec![], goals: vec![] };
    let mut game = GameState::init(&config, &level);
    let first = game.entities[0].id.raw();
    let second = game.entities[1].id.raw();
    let events = game.step(&config, &vec![]);
    let started: Vec<u64> = events
        .iter()
        .filter_map(|e| match e {
            Event::MoveStarted(m) => Some(m.entity_id.raw()),
            _ => None,
        })
        .collect();
    let ended: Vec<u64> = events
        .iter()
        .filter_map(|e| match e {
            Event::MoveEnded(m) => Some(m.entity_id.raw()),
            _ => None,
        })
        .collect();
    assert_eq!(started, vec![first, second]);
    assert_eq!(ended, vec![second, first]);
    assert_eq!(cell_of(&game, 0), (0, 0));
    assert_eq!(cell_of(&game, 1), (2, 0));
    assert!(!game.stable);
    game.step(&config, &vec![]);
    assert!(game.stable);
}
