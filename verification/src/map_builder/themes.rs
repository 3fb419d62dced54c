//! The glyph sets levels are drawn with.

use vstd::prelude::*;
use crate::glyph::{cp437_of, to_cp437};
use crate::map::TileType;
use crate::map_builder::{MapTheme, ThemeKind};

verus! {

/// The character a theme draws a tile with: `.`, `#` and `>` in the dungeon; `;`, `"` and
/// `>` in the forest.
pub open spec fn theme_char(kind: ThemeKind, tile: TileType) -> char {
    match (kind, tile) {
        (ThemeKind::Dungeon, TileType::Floor) => '.',
        (ThemeKind::Dungeon, TileType::Wall) => '#',
        (ThemeKind::Forest, TileType::Floor) => ';',
        (ThemeKind::Forest, TileType::Wall) => '"',
        (_, TileType::Exit) => '>',
    }
}

/// The glyph a theme draws a tile with.
pub fn tile_glyph(kind: ThemeKind, tile: TileType) -> (g: u16)
    ensures
        g == cp437_of(theme_char(kind, tile)),
        g == theme_char(kind, tile) as u32,
{
    let c = match (kind, tile) {
        (ThemeKind::Dungeon, TileType::Floor) => '.',
        (ThemeKind::Dungeon, TileType::Wall) => '#',
        (ThemeKind::Forest, TileType::Floor) => ';',
        (ThemeKind::Forest, TileType::Wall) => '"',
        (_, TileType::Exit) => '>',
    };
    to_cp437(c)
}

/// The stone dungeon look.
pub struct DungeonTheme {}

impl MapTheme for DungeonTheme {
    fn tile_to_render(&self, tile_type: TileType) -> u16 {
        tile_glyph(ThemeKind::Dungeon, tile_type)
    }
}

/// The forest look.
pub struct ForestTheme {}

impl MapTheme for ForestTheme {
    fn tile_to_render(&self, tile_type: TileType) -> u16 {
        tile_glyph(ThemeKind::Forest, tile_type)
    }
}

} // verus!
