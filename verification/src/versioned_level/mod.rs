//! Levels as older versions of the game saved them, and their migration.
pub mod v0;
