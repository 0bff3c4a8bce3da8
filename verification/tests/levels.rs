use logicsider::geometry::{vec_to_rot, Vec2};
use logicsider::id::Gen;
use logicsider::input::Input;
use logicsider::int_angle::IntAngle;
use logicsider::ldtk::{
    Definitions, EntityInstance, IntGridValue, LayerDefinition, LayerInstance, Ldtk, Level as LdtkLevel,
    level_from_ldtk,
};
use logicsider::level_groups::{reorder, try_remove, Group, Selection};
use logicsider::level_select::{change_level_cheats, finish_level};
use logicsider::model::{Config, ContinueConfig, Effect, GameState, Properties, Side};
use logicsider::position::Position;
use logicsider::time::Time;
use logicsider::versioned_level::v0::{self, migrate, Tile};

fn props(block: bool, player: bool, pushable: bool, is_static: bool) -> Properties {
    Properties { block, trigger: true, player, pushable, is_static }
}

fn config() -> Config {
    Config {
        allow_unstable_player_selection: false,
        magnet_continue: ContinueConfig::Never,
        entities: vec![
            ("Player".to_string(), props(true, true, false, false)),
            ("block".to_string(), props(true, false, false, true)),
            ("Box".to_string(), props(true, false, true, false)),
        ],
    }
}

fn inst(name: &str, x: i32, y: i32) -> EntityInstance {
    EntityInstance { grid: Vec2 { x, y }, identifier: name.to_string() }
}

/// A world with one level: a row of empty cells over a row of blocks, six
/// cells wide, with the editor's entities placed on it.
fn world(entities: Vec<EntityInstance>) -> Ldtk {
    let mut csv = vec![0u32; 6];
    csv.extend(vec![1u32; 6]);
    Ldtk {
        defs: Definitions {
            layers: vec![LayerDefinition {
                identifier: "Tiles".to_string(),
                int_grid_values: vec![IntGridValue { identifier: "block".to_string(), value: 1 }],
            }],
        },
        levels: vec![LdtkLevel {
            identifier: "first".to_string(),
            layer_instances: vec![
                LayerInstance { grid_width: 0, entity_instances: entities, int_grid_csv: vec![] },
                LayerInstance { grid_width: 6, entity_instances: vec![], int_grid_csv: csv },
            ],
        }],
    }
}

#[test]
fn a_world_level_reads_entities_tiles_powerups_and_goals() {
    let ldtk = world(vec![inst("Player", 0, 0), inst("JumpPower", 2, 0), inst("Goal", 4, 0)]);
    let level = level_from_ldtk(&ldtk, 0);
    assert_eq!(level.entities.len(), 1 + 6);
    assert_eq!(level.entities[0].identifier, "Player");
    assert_eq!(level.entities[0].pos, Position { cell: Vec2 { x: 0, y: 0 }, angle: IntAngle(0) });
    for k in 0..6 {
        assert_eq!(level.entities[1 + k].identifier, "block");
        assert_eq!(level.entities[1 + k].pos.cell, Vec2 { x: k as i32, y: -1 });
    }
    assert_eq!(level.powerups.len(), 1);
    assert_eq!(level.powerups[0].effect, Effect::Jump);
    assert_eq!(level.powerups[0].pos.angle, IntAngle(3));
    assert_eq!(level.goals.len(), 1);
    assert_eq!(level.goals[0].pos.cell, Vec2 { x: 4, y: 0 });
}

/// Plays a solution line: `<` and `>` roll, `.` waits, a digit selects.
fn play(game: &mut GameState, config: &Config, solution: &str) {
    for c in solution.chars().chain(".".chars()) {
        match c {
            '<' => {
                game.process_turn(config, Input::Left);
            }
            '>' => {
                game.process_turn(config, Input::Right);
            }
            '.' => {
                game.process_turn(config, Input::Skip);
            }
            '1'..='9' => {
                game.select_player(c.to_digit(10).unwrap() as usize);
            }
            _ => panic!("{c:?} character in tests means nothing"),
        }
    }
}

/// Every solution line of the world's level finishes it; a partial one does
/// not.
#[test]
fn ldtk_main() {
    let config = config();
    let ldtk = world(vec![inst("Player", 0, 0), inst("Goal", 4, 0)]);
    for line in [">>>>", ">>>><"] {
        let mut game = GameState::from_ldtk(&ldtk, &config, 0);
        assert!(!game.finished());
        play(&mut game, &config, line);
        assert!(game.finished(), "{line:?} is not a correct solution");
    }
    let mut game = GameState::from_ldtk(&ldtk, &config, 0);
    play(&mut game, &config, ">>");
    assert!(!game.finished());
}

#[test]
fn a_saved_game_of_the_first_version_migrates() {
    let mut gen = Gen::new();
    let blank = [Side { effect: None }; 4];
    let at = |x: i32, y: i32| Position { cell: Vec2 { x, y }, angle: IntAngle(0) };
    let state = v0::GameState {
        id_gen: Gen::new(),
        tiles: vec![(Vec2 { x: 0, y: -1 }, Tile::Block), (Vec2 { x: 1, y: -1 }, Tile::Nothing), (Vec2 { x: 2, y: -1 }, Tile::Cloud)],
        entities: vec![v0::Entity {
            id: gen.gen(),
            index: Some(1),
            identifier: "Player".to_string(),
            properties: v0::Properties { block: true, trigger: true, player: true, pushable: false },
            pos: at(0, 0),
            prev_pos: at(0, 0),
            prev_move: None,
            sides: blank,
        }],
        powerups: vec![v0::Powerup { id: gen.gen(), pos: at(1, 0), effect: Effect::Slide }],
        selected_player: None,
        goals: vec![v0::Goal { id: gen.gen(), pos: at(2, 0) }],
        stable: true,
    };
    let level = migrate(state);
    assert_eq!(level.entities.len(), 3);
    assert_eq!(level.entities[0].identifier, "Player");
    assert_eq!(level.entities[0].index, Some(1));
    assert_eq!(level.entities[1].identifier, "block");
    assert_eq!(level.entities[1].pos.cell, Vec2 { x: 0, y: -1 });
    assert_eq!(level.entities[2].identifier, "cloud");
    assert_eq!(level.powerups.len(), 1);
    assert_eq!(level.powerups[0].effect, Effect::Slide);
    assert_eq!(level.goals.len(), 1);
    assert!(Tile::Block.is_trigger());
    assert!(!Tile::Disable.is_trigger());
}

#[test]
fn level_cheats_move_between_levels() {
    assert_eq!(change_level_cheats(3, true, false), 2);
    assert_eq!(change_level_cheats(3, false, true), 4);
    assert_eq!(change_level_cheats(3, true, true), 3);
    assert_eq!(change_level_cheats(0, true, false), 0);
    assert_eq!(change_level_cheats(7, false, false), 7);
}

#[test]
fn directions_give_rotations() {
    assert_eq!(vec_to_rot(Vec2 { x: 0, y: -1 }), 0);
    assert_eq!(vec_to_rot(Vec2 { x: 0, y: 1 }), 2);
    assert_eq!(vec_to_rot(Vec2 { x: 1, y: 0 }), 1);
    assert_eq!(vec_to_rot(Vec2 { x: -1, y: 0 }), 0);
    assert_eq!(vec_to_rot(Vec2 { x: 5, y: -3 }), 0);
}

#[test]
fn time_counts_thousandths_of_a_turn() {
    assert_eq!(Time::zero().value, 0);
    assert_eq!(Time::one().add(Time::one()).value, 2000);
}

#[test]
fn effects_are_named() {
    assert_eq!(Effect::from_str("Jump"), Effect::Jump);
    assert_eq!(Effect::from_str("WeakMagnet"), Effect::WeakMagnet);
    assert_eq!(Effect::iter_variants(), vec![Effect::Jump, Effect::Magnet, Effect::Slide, Effect::DisableTrigger]);
    assert!(!Effect::DisableTrigger.allow_trigger());
    assert!(Effect::Jump.allow_trigger());
}

#[test]
fn levels_move_between_groups() {
    let mut groups = vec![
        Group { name: "a".to_string(), levels: vec![1, 2, 3] },
        Group { name: "b".to_string(), levels: vec![4] },
    ];
    assert_eq!(reorder(&mut groups, Selection { group: 0, level: 0 }, Selection { group: 1, level: 1 }), Some(()));
    assert_eq!(groups[0].levels, vec![2, 3]);
    assert_eq!(groups[1].levels, vec![4, 1]);
    assert_eq!(reorder(&mut groups, Selection { group: 0, level: 1 }, Selection { group: 0, level: 0 }), Some(()));
    assert_eq!(groups[0].levels, vec![3, 2]);
    assert_eq!(reorder(&mut groups, Selection { group: 0, level: 5 }, Selection { group: 0, level: 0 }), None);
    assert_eq!(reorder(&mut groups, Selection { group: 0, level: 0 }, Selection { group: 2, level: 0 }), None);
    assert_eq!(groups[0].levels, vec![3, 2]);
    let mut v = vec![7, 8];
    assert_eq!(try_remove(&mut v, 5), None);
    assert_eq!(try_remove(&mut v, 0), Some(7));
    assert_eq!(v, vec![8]);
}

#[test]
fn upright_players_on_goals_finish_levels() {
    let goals = vec![Vec2 { x: 1, y: 0 }, Vec2 { x: 4, y: 0 }];
    assert_eq!(finish_level(2, &vec![(Vec2 { x: 1, y: 0 }, 0)], &goals), 3);
    assert_eq!(finish_level(2, &vec![(Vec2 { x: 1, y: 0 }, 1)], &goals), 2);
    assert_eq!(finish_level(2, &vec![(Vec2 { x: 1, y: 0 }, -4), (Vec2 { x: 4, y: 0 }, 8)], &goals), 4);
    assert_eq!(finish_level(2, &vec![(Vec2 { x: 2, y: 0 }, 0)], &goals), 2);
    assert_eq!(finish_level(0, &vec![(Vec2 { x: 1, y: 0 }, -1)], &goals), 0);
}
