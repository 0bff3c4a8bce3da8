//! Turn-based logic of a puzzle game in which boxes roll over a grid,
//! pick up powerups on their sides and trigger their effects.
pub mod id;
pub mod geometry;
pub mod input;
pub mod int_angle;
pub mod position;
pub mod time;
pub mod seq_util;
pub mod moves;
pub mod model;
pub mod systems;
pub mod level;
pub mod players;
pub mod game;
pub mod laws;
pub mod versioned_level;
pub mod ldtk;
pub mod editor;
pub mod autotile;
pub mod level_select;
pub mod level_groups;
pub mod player_input;
pub mod rule_laws;
