use logicsider::editor::{levels_equal, clone_level, wheel_tools, EditorKey, KeyOutcome, LevelEditor, Tool, ToolType};
use logicsider::geometry::Vec2;
use logicsider::int_angle::IntAngle;
use logicsider::level::Level;
use logicsider::model::{Config, ContinueConfig, Effect, Properties};

fn cell(x: i32, y: i32) -> Vec2 {
    Vec2 { x, y }
}

#[test]
fn a_new_editor_is_saved_and_holds_the_player_tool() {
    let editor = LevelEditor::new(Level::empty());
    assert!(editor.saved());
    assert_eq!(editor.tool().angle, IntAngle(0));
    assert!(matches!(&editor.tool().tool_type, ToolType::Entity(name) if name == "Player"));
}

#[test]
fn a_click_places_and_undo_takes_it_back() {
    let mut editor = LevelEditor::new(Level::empty());
    editor.click(cell(0, 0));
    assert_eq!(editor.level().entities.len(), 1);
    assert_eq!(editor.level().entities[0].identifier, "Player");
    assert!(!editor.saved());
    editor.undo();
    assert_eq!(editor.level().entities.len(), 0);
    assert!(editor.saved());
    editor.redo();
    assert_eq!(editor.level().entities.len(), 1);
    editor.redo();
    assert_eq!(editor.level().entities.len(), 1);
}

#[test]
fn clicking_a_player_with_the_player_tool_cycles_its_index() {
    let mut editor = LevelEditor::new(Level::empty());
    editor.click(cell(2, 3));
    assert_eq!(editor.level().entities[0].index, None);
    editor.click(cell(2, 3));
    assert_eq!(editor.level().entities[0].index, Some(1));
    editor.click(cell(2, 3));
    assert_eq!(editor.level().entities[0].index, Some(2));
    editor.assign_index(cell(2, 3), Some(9));
    assert_eq!(editor.level().entities[0].index, Some(9));
    editor.click(cell(2, 3));
    assert_eq!(editor.level().entities[0].index, Some(1));
    assert_eq!(editor.level().entities.len(), 1);
}

#[test]
fn placing_on_an_occupied_cell_replaces_what_stood_there() {
    let mut editor = LevelEditor::new(Level::empty());
    editor.click(cell(0, 0));
    editor.set_tool(Tool { angle: IntAngle(1), tool_type: ToolType::Entity("Box".to_string()) });
    editor.click(cell(0, 0));
    assert_eq!(editor.level().entities.len(), 1);
    assert_eq!(editor.level().entities[0].identifier, "Box");
    assert_eq!(editor.level().entities[0].pos.angle, IntAngle(1));
}

#[test]
fn a_side_effect_goes_on_the_side_facing_the_tool() {
    let mut editor = LevelEditor::new(Level::empty());
    editor.click(cell(0, 0));
    editor.set_tool(Tool { angle: IntAngle(3), tool_type: ToolType::SideEffect(Effect::Jump) });
    editor.click(cell(0, 0));
    let e = &editor.level().entities[0];
    assert_eq!(e.sides[3].effect, Some(Effect::Jump));
    assert_eq!(e.sides[0].effect, None);
    editor.set_tool(Tool { angle: IntAngle(0), tool_type: ToolType::Eraser });
    editor.click(cell(0, 0));
    assert_eq!(editor.level().entities.len(), 0);
}

#[test]
fn powerups_and_goals_are_placed_turned() {
    let mut editor = LevelEditor::new(Level::empty());
    editor.set_tool(Tool { angle: IntAngle(3), tool_type: ToolType::Powerup(Effect::Slide) });
    editor.click(cell(1, 1));
    editor.set_tool(Tool { angle: IntAngle(0), tool_type: ToolType::Goal });
    editor.click(cell(2, 1));
    assert_eq!(editor.level().powerups.len(), 1);
    assert_eq!(editor.level().powerups[0].effect, Effect::Slide);
    assert_eq!(editor.level().powerups[0].pos.angle, IntAngle(3));
    assert_eq!(editor.level().goals.len(), 1);
    editor.pick_tool(cell(1, 1));
    assert!(matches!(editor.tool().tool_type, ToolType::Powerup(Effect::Slide)));
    assert_eq!(editor.tool().angle, IntAngle(3));
    editor.rotate_tool(1);
    assert_eq!(editor.tool().angle, IntAngle(3).rotate_clockwise());
    editor.rotate_tool(-1);
    assert_eq!(editor.tool().angle, IntAngle(3));
}

#[test]
fn save_then_reset_gives_the_saved_level_back() {
    let mut editor = LevelEditor::new(Level::empty());
    editor.click(cell(0, 0));
    editor.save();
    assert!(editor.saved());
    let saved = clone_level(editor.saved_level());
    assert!(levels_equal(&saved, editor.level()));
    editor.set_tool(Tool { angle: IntAngle(0), tool_type: ToolType::Goal });
    editor.click(cell(5, 5));
    assert!(!editor.saved());
    editor.reset_to_last_save();
    assert!(levels_equal(&saved, editor.level()));
    editor.undo();
    assert!(editor.saved());
}

#[test]
fn an_edit_after_undo_drops_the_redo_history() {
    let mut editor = LevelEditor::new(Level::empty());
    editor.click(cell(0, 0));
    editor.click(cell(1, 0));
    editor.undo();
    assert_eq!(editor.level().entities.len(), 1);
    editor.click(cell(2, 0));
    editor.redo();
    assert_eq!(editor.level().entities.len(), 2);
    assert_eq!(editor.level().entities[1].pos.cell, cell(2, 0));
}

#[test]
fn dragging_an_entity_moves_it() {
    let mut editor = LevelEditor::new(Level::empty());
    editor.click(cell(0, 0));
    editor.drop_entity(0, cell(4, 2));
    assert_eq!(editor.level().entities[0].pos.cell, cell(4, 2));
    editor.undo();
    assert_eq!(editor.level().entities[0].pos.cell, cell(0, 0));
}

#[test]
fn tool_names_and_flags() {
    assert_eq!(ToolType::Powerup(Effect::Jump).tile_name(), "JumpPower");
    assert_eq!(ToolType::SideEffect(Effect::Magnet).tile_name(), "MagnetPower");
    assert_eq!(ToolType::Goal.tile_name(), "Goal");
    assert_eq!(ToolType::Entity("Box".to_string()).tile_name(), "Box");
    assert!(!ToolType::SideEffect(Effect::Jump).delete_underneath());
    assert!(ToolType::Goal.delete_underneath());
    assert!(!ToolType::Eraser.show_preview());
    assert!(ToolType::Goal.show_preview());
}

#[test]
fn the_tool_wheel_offers_every_tool() {
    let p = Properties { block: true, trigger: true, player: true, pushable: false, is_static: false };
    let config = Config {
        allow_unstable_player_selection: false,
        magnet_continue: ContinueConfig::Never,
        entities: vec![("Player".to_string(), p), ("Box".to_string(), p)],
    };
    let tools = wheel_tools(&config);
    assert_eq!(tools.len(), 2 + 4 + 4 + 2);
    assert!(matches!(&tools[0].tool_type, ToolType::Entity(n) if n == "Player"));
    assert_eq!(tools[0].angle, IntAngle(0));
    assert!(matches!(tools[2].tool_type, ToolType::Powerup(Effect::Jump)));
    assert_eq!(tools[2].angle, IntAngle(3));
    assert!(matches!(tools[9].tool_type, ToolType::SideEffect(Effect::DisableTrigger)));
    assert!(matches!(tools[10].tool_type, ToolType::Goal));
    assert!(matches!(tools[11].tool_type, ToolType::Eraser));
}

#[test]
fn keys_do_what_they_name() {
    let mut editor = LevelEditor::new(Level::empty());
    assert!(editor.show_grid());
    assert_eq!(editor.handle_key(EditorKey::Grid), KeyOutcome::Continue);
    assert!(!editor.show_grid());
    assert_eq!(editor.handle_key(EditorKey::Escape), KeyOutcome::Break);
    assert_eq!(editor.handle_key(EditorKey::Toggle), KeyOutcome::Play);
    assert_eq!(editor.handle_key(EditorKey::Choose(true)), KeyOutcome::OpenWheel);
    assert_eq!(editor.handle_key(EditorKey::Choose(false)), KeyOutcome::CloseWheel);
    editor.click(cell(0, 0));
    assert_eq!(editor.handle_key(EditorKey::AssignIndex(4, cell(0, 0))), KeyOutcome::Continue);
    assert_eq!(editor.level().entities[0].index, Some(4));
    assert_eq!(editor.handle_key(EditorKey::Undo), KeyOutcome::Continue);
    assert_eq!(editor.level().entities[0].index, None);
    assert_eq!(editor.handle_key(EditorKey::Redo), KeyOutcome::Continue);
    assert_eq!(editor.level().entities[0].index, Some(4));
    assert_eq!(editor.handle_key(EditorKey::Rotate(false)), KeyOutcome::Continue);
    assert_eq!(editor.tool().angle, IntAngle(-1));
    assert_eq!(editor.handle_key(EditorKey::Rotate(true)), KeyOutcome::Continue);
    assert_eq!(editor.tool().angle, IntAngle(0));
    assert_eq!(editor.handle_key(EditorKey::Save), KeyOutcome::WriteSaved);
    assert!(editor.saved());
    editor.click(cell(3, 3));
    assert_eq!(editor.handle_key(EditorKey::ResetToLastSave), KeyOutcome::Continue);
    assert!(levels_equal(editor.level(), editor.saved_level()));
    editor.set_tool(Tool { angle: IntAngle(2), tool_type: ToolType::Goal });
    editor.handle_key(EditorKey::Pick(cell(0, 0)));
    assert!(matches!(&editor.tool().tool_type, ToolType::Entity(n) if n == "Player"));
    assert_eq!(editor.handle_key(EditorKey::Other), KeyOutcome::Continue);
}
