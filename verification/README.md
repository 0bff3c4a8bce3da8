# logicsider

The rules of a grid puzzle game in which boxes roll over a grid, pick up
powerups on their sides and set off their effects (jumps, slides, magnets),
together with its level editor model and its auto-tiling, written in Verus
and proved against their contracts.

## Layout

- `src/` — the verified library.
  - `int_angle`, `input`, `geometry`, `position`, `id`, `time`: small value
    types and their algebra.
  - `model`, `moves`, `systems/*`: the game state and the rules that start
    moves (magnet moves, side effects, gravity, goals, rolls and pushes);
    `systems/turn` plays a step and a whole turn.
  - `players`, `player_input`: player order and selection.
  - `level`, `versioned_level`, `ldtk`, `game`: levels, the migration of old
    saves, reading the level editor's world files, and starting a game.
  - `editor`, `level_groups`, `level_select`: the level editor with its
    history, groups of levels, level cheats.
  - `autotile`: rule images, rule matching and tile meshes.
  - `laws`: properties that span several functions (what a step never
    adds, identifiers stay unique, static boxes stay put, ...).
- `tests/` — tests of the library on concrete levels and values.
- `app/` — files and formats around the library (RON saves, JSON world
  files, TOML configuration, tileset files, solution lines); not verified.
