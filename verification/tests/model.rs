use logicsider::geometry::{cells_bounding_box, points_bounding_box, Aabb, Vec2};
use logicsider::input::Input;
use logicsider::int_angle::IntAngle;
use logicsider::level::{Entity as LevelEntity, Level};
use logicsider::model::{Config, ContinueConfig, Effect, GameState, Properties, Side};
use logicsider::moves::EntityMoveType;
use logicsider::position::Position;
use logicsider::systems::{is_blocked, just_move};
use logicsider::systems::turn::check_entity_move;

fn props(block: bool, player: bool, pushable: bool, is_static: bool) -> Properties {
    Properties { block, trigger: true, player, pushable, is_static }
}

fn config() -> Config {
    Config {
        allow_unstable_player_selection: true,
        magnet_continue: ContinueConfig::Never,
        entities: vec![
            ("Player".to_string(), props(true, true, false, false)),
            ("Block".to_string(), props(true, false, false, true)),
        ],
    }
}

fn at(x: i32, y: i32, angle: i32) -> Position {
    Position { cell: Vec2 { x, y }, angle: IntAngle(angle) }
}

fn entity(kind: &str, x: i32, y: i32, sides: [Side; 4]) -> LevelEntity {
    LevelEntity { index: None, identifier: kind.to_string(), pos: at(x, y, 0), sides }
}

fn blank() -> [Side; 4] {
    [Side { effect: None }; 4]
}

#[test]
fn bounding_boxes_cover_the_cells() {
    let cells = vec![Vec2 { x: 0, y: 0 }, Vec2 { x: 2, y: -1 }];
    assert_eq!(points_bounding_box(&cells), Some(Aabb { min: Vec2 { x: 0, y: -1 }, max: Vec2 { x: 2, y: 0 } }));
    assert_eq!(cells_bounding_box(&cells), Aabb { min: Vec2 { x: 0, y: -1 }, max: Vec2 { x: 3, y: 1 } });
    assert_eq!(points_bounding_box(&vec![]), None);
    assert_eq!(cells_bounding_box(&vec![]), Aabb { min: Vec2 { x: 0, y: 0 }, max: Vec2 { x: 1, y: 1 } });
    let level = Level {
        entities: vec![entity("Player", 0, 0, blank()), entity("Block", 2, -1, blank())],
        powerups: vec![],
        goals: vec![],
    };
    assert_eq!(level.bounding_box(), Aabb { min: Vec2 { x: 0, y: -1 }, max: Vec2 { x: 3, y: 1 } });
    let game = GameState::init(&config(), &level);
    assert_eq!(game.bounding_box(), level.bounding_box());
}

#[test]
fn sides_turn_with_the_entity() {
    let mut e = entity("Player", 0, 0, blank());
    e.pos.angle = IntAngle(1);
    assert_eq!(e.side_index(IntAngle(1)), 0);
    assert_eq!(e.side_index(IntAngle(0)), 3);
    assert_eq!(e.side_angle(2), IntAngle(3));
    e.set_side_at_angle(IntAngle(0), Side { effect: Some(Effect::Slide) });
    assert_eq!(e.sides[3].effect, Some(Effect::Slide));
    assert_eq!(e.side_at_angle(IntAngle(0)).effect, Some(Effect::Slide));
    assert_eq!(LevelEntity::relative_side_angle(2), IntAngle(2));
}

#[test]
fn a_jump_side_on_the_ground_jumps_up() {
    let mut sides = blank();
    sides[3] = Side { effect: Some(Effect::Jump) };
    let level = Level {
        entities: vec![entity("Player", 0, 0, sides), entity("Block", 0, -1, blank())],
        powerups: vec![],
        goals: vec![],
    };
    let config = config();
    let mut game = GameState::init(&config, &level);
    let id = game.entities[0].id;
    let moves = check_entity_move(&game, &config, id, Input::Skip).unwrap();
    assert_eq!(moves.len(), 1);
    assert!(matches!(moves[0].move_type, EntityMoveType::Jump { cells_traveled: 3, jump_force: 3, .. }));
    assert_eq!(moves[0].new_pos.cell, Vec2 { x: 0, y: 2 });
    game.step(&config, &vec![(id, Input::Skip)]);
    assert_eq!(game.entities[0].pos.cell, Vec2 { x: 0, y: 2 });
}

#[test]
fn blocks_block_and_reserved_cells_too() {
    let level = Level {
        entities: vec![entity("Player", 0, 0, blank()), entity("Block", 0, -1, blank())],
        powerups: vec![],
        goals: vec![],
    };
    let mut game = GameState::init(&config(), &level);
    assert!(is_blocked(&game, Vec2 { x: 0, y: -1 }));
    assert!(!is_blocked(&game, Vec2 { x: 1, y: 0 }));
    game.reserved_cells.push(Vec2 { x: 1, y: 0 });
    assert!(is_blocked(&game, Vec2 { x: 1, y: 0 }));
}

#[test]
fn the_last_move_overrides_the_input() {
    let level = Level {
        entities: vec![entity("Player", 0, 0, blank()), entity("Block", 0, -1, blank())],
        powerups: vec![],
        goals: vec![],
    };
    let mut game = GameState::init(&config(), &level);
    let e = &mut game.entities[0];
    assert_eq!(e.maybe_override_input(Input::Left), Input::Left);
    e.prev_pos = at(-1, 0, 0);
    assert_eq!(e.maybe_override_input(Input::Left), Input::Right);
    e.prev_pos = at(0, 0, 1);
    assert_eq!(e.maybe_override_input(Input::Skip), Input::Right);
}

#[test]
fn an_added_entity_gets_the_next_identifier() {
    let mut game = GameState::empty();
    game.add_entity("Player", &props(true, true, false, false), at(3, 4, 0));
    game.add_entity("Block", &props(true, false, false, true), at(3, 3, 0));
    assert_eq!(game.entities.len(), 2);
    assert_eq!(game.entities[0].id.raw(), 0);
    assert_eq!(game.entities[1].id.raw(), 1);
    assert_eq!(game.entities[1].identifier, "Block");
    assert_eq!(game.entities[0].pos, at(3, 4, 0));
}

#[test]
fn a_sideways_jump_has_the_force_of_two_cells() {
    let mut sides = blank();
    sides[2] = Side { effect: Some(Effect::Jump) };
    let level = Level {
        entities: vec![
            entity("Player", 0, 0, sides),
            entity("Block", -1, 0, blank()),
            entity("Block", 0, -1, blank()),
            entity("Block", 2, 0, blank()),
        ],
        powerups: vec![],
        goals: vec![],
    };
    let config = config();
    let game = GameState::init(&config, &level);
    let id = game.entities[0].id;
    let moves = check_entity_move(&game, &config, id, Input::Skip).unwrap();
    assert_eq!(moves.len(), 1);
    assert!(matches!(
        moves[0].move_type,
        EntityMoveType::Jump { cells_traveled: 1, jump_force: 2, blocked_angle: Some(IntAngle(0)), .. }
    ));
    assert_eq!(moves[0].new_pos.cell, Vec2 { x: 1, y: 0 });
}

#[test]
fn a_roll_that_goes_nowhere_moves_only_the_roller() {
    let mut config = config();
    config.entities.push(("Ghost".to_string(), Properties {
        block: false,
        trigger: false,
        player: true,
        pushable: true,
        is_static: false,
    }));
    let level = Level { entities: vec![entity("Ghost", 0, 5, blank())], powerups: vec![], goals: vec![] };
    let game = GameState::init(&config, &level);
    let id = game.entities[0].id;
    let moves = just_move::system(&game, id, Input::Right).unwrap();
    assert_eq!(moves.len(), 1);
    assert_eq!(moves[0].entity_id, id);
    assert_eq!(moves[0].new_pos, at(0, 5, -1));
}

#[test]
fn a_turn_ends_at_rest() {
    let level = Level {
        entities: vec![entity("Player", 0, 3, blank()), entity("Block", 0, -1, blank())],
        powerups: vec![],
        goals: vec![],
    };
    let config = config();
    let mut game = GameState::init(&config, &level);
    game.process_turn(&config, Input::Skip);
    assert!(game.stable);
    assert_eq!(game.entities[0].pos.cell, Vec2 { x: 0, y: 0 });
}

#[test]
fn moves_last_one_turn_and_reserve_their_cells() {
    let level = Level {
        entities: vec![entity("Player", 0, 2, blank()), entity("Block", 0, -1, blank())],
        powerups: vec![],
        goals: vec![],
    };
    let config = config();
    let mut game = GameState::init(&config, &level);
    assert_eq!(game.current_time.value, 0);
    let id = game.entities[0].id;
    let fall = check_entity_move(&game, &config, id, Input::Skip).unwrap();
    assert_eq!(fall[0].move_type, EntityMoveType::Gravity);
    assert_eq!(fall[0].start_time.value, 0);
    assert_eq!(fall[0].end_time.value, 1000);
    assert_eq!(fall[0].cells_reserved(), vec![Vec2 { x: 0, y: 2 }, Vec2 { x: 0, y: 1 }]);
    game.step(&config, &vec![]);
    assert_eq!(game.current_time.value, 1000);
    let events = game.step(&config, &vec![]);
    assert_eq!(game.current_time.value, 2000);
    let starts: Vec<i64> = events
        .iter()
        .filter_map(|e| match e {
            logicsider::moves::Event::MoveStarted(m) => Some(m.start_time.value),
            _ => None,
        })
        .collect();
    assert_eq!(starts, vec![1000]);
    game.step(&config, &vec![]);
    assert!(game.stable);
    assert_eq!(game.current_time.value, 2000);
}

#[test]
fn entering_a_goal_reserves_one_cell() {
    let level = Level {
        entities: vec![entity("Player", 0, 0, blank()), entity("Block", 0, -1, blank())],
        powerups: vec![],
        goals: vec![logicsider::level::Goal { pos: at(0, 0, 0) }],
    };
    let config = config();
    let game = GameState::init(&config, &level);
    let id = game.entities[0].id;
    let m = check_entity_move(&game, &config, id, Input::Skip).unwrap();
    assert!(matches!(m[0].move_type, EntityMoveType::EnterGoal { .. }));
    assert_eq!(m[0].end_time.value, 1000);
    assert_eq!(m[0].cells_reserved(), vec![Vec2 { x: 0, y: 0 }]);
}
