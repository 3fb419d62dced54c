//! The rules of a small dungeon-crawling game: the map and its generators,
//! the camera, the spawner and the per-turn decisions of each system.

pub mod camera;
pub mod components;
pub mod glyph;
pub mod random;
pub mod spawner;
pub mod systems;
pub mod turn_state;
pub mod geometry;
pub mod map;
pub mod map_builder;

use vstd::prelude::*;

verus! {

/// Width of the dungeon map, in tiles.
pub const SCREEN_WIDTH: i32 = 80;

/// Height of the dungeon map, in tiles.
pub const SCREEN_HEIGHT: i32 = 50;

/// Width of the visible window, in tiles.
pub const DISPLAY_WIDTH: i32 = 40;

/// Height of the visible window, in tiles.
pub const DISPLAY_HEIGHT: i32 = 25;

/// Number of tiles in the dungeon map.
pub const NUM_TILES: usize = 4000;

} // verus!
