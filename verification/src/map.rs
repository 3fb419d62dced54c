//! The dungeon map: a grid of tiles and the tiles the player has already seen.

use vstd::prelude::*;
use crate::geometry::Point;
use crate::{NUM_TILES, SCREEN_HEIGHT, SCREEN_WIDTH};

verus! {

/// The kind of a single map tile.
#[derive(Clone, Copy, Debug, PartialEq, Eq, Structural)]
pub enum TileType {
    Wall,
    Floor,
    Exit,
}

/// Whether `(x, y)` lies on the map.
pub open spec fn spec_in_bounds(x: int, y: int) -> bool {
    0 <= x < SCREEN_WIDTH && 0 <= y < SCREEN_HEIGHT
}

/// Row-major index of the tile `(x, y)`.
pub open spec fn spec_map_idx(x: int, y: int) -> int {
    y * SCREEN_WIDTH + x
}

/// The point of the tile stored at index `idx`.
pub open spec fn spec_index_to_point(idx: int) -> Point {
    Point { x: (idx % SCREEN_WIDTH as int) as i32, y: (idx / SCREEN_WIDTH as int) as i32 }
}

/// Index of the tile `(x, y)`, which must be on the map.
pub fn get_map_idx(x: i32, y: i32) -> (idx: usize)
    requires
        spec_in_bounds(x as int, y as int),
    ensures
        idx == spec_map_idx(x as int, y as int),
        idx < NUM_TILES,
{
    (y * SCREEN_WIDTH + x) as usize
}

/// Indexing a point and turning the index back into a point gives the point back.
pub proof fn lemma_index_point_roundtrip(p: Point)
    requires
        spec_in_bounds(p.x as int, p.y as int),
    ensures
        0 <= spec_map_idx(p.x as int, p.y as int) < NUM_TILES,
        spec_index_to_point(spec_map_idx(p.x as int, p.y as int)) == p,
{
    let i = spec_map_idx(p.x as int, p.y as int);
    assert(i % 80 == p.x as int && i / 80 == p.y as int) by (nonlinear_arith)
        requires i == p.y * 80 + p.x, 0 <= p.x < 80, 0 <= p.y < 50;
}

/// Turning an index into a point and back gives the index back.
pub proof fn lemma_point_index_roundtrip(idx: int)
    requires
        0 <= idx < NUM_TILES,
    ensures
        spec_in_bounds(spec_index_to_point(idx).x as int, spec_index_to_point(idx).y as int),
        spec_map_idx(spec_index_to_point(idx).x as int, spec_index_to_point(idx).y as int) == idx,
{
    assert(0 <= idx % 80 < 80 && 0 <= idx / 80 < 50 && (idx / 80) * 80 + idx % 80 == idx) by (nonlinear_arith)
        requires 0 <= idx < 4000;
}

/// The tiles of a dungeon level and which of them have been revealed.
pub struct DungeonMap {
    pub tiles: Vec<TileType>,
    pub revealed_tiles: Vec<bool>,
}

impl DungeonMap {
    /// The map holds one tile and one revealed flag per grid cell.
    pub open spec fn wf(&self) -> bool {
        self.tiles.len() == NUM_TILES && self.revealed_tiles.len() == NUM_TILES
    }

    /// The tile at `p`, for a point on the map.
    pub open spec fn tile_at(&self, p: Point) -> TileType {
        self.tiles@[spec_map_idx(p.x as int, p.y as int)]
    }

    /// Number of floor tiles among the first `n` tiles.
    pub open spec fn floor_count_upto(tiles: Seq<TileType>, n: int) -> nat
        decreases n,
    {
        if n <= 0 {
            0
        } else {
            Self::floor_count_upto(tiles, n - 1) + if tiles[n - 1] == TileType::Floor { 1nat } else { 0nat }
        }
    }

    /// Number of floor tiles on the map.
    pub open spec fn spec_floor_count(&self) -> nat {
        Self::floor_count_upto(self.tiles@, self.tiles@.len() as int)
    }

    /// A map of floor tiles, none of them revealed.
    pub fn new() -> (m: DungeonMap)
        ensures
            m.wf(),
            forall|i: int| 0 <= i < NUM_TILES ==> m.tiles@[i] == TileType::Floor,
            forall|i: int| 0 <= i < NUM_TILES ==> !m.revealed_tiles@[i],
    {
        let tiles = vec![TileType::Floor; NUM_TILES];
        let revealed_tiles = vec![false; NUM_TILES];
        DungeonMap { tiles, revealed_tiles }
    }

    /// Whether `p` lies on the map.
    pub fn in_bounds(&self, p: Point) -> (b: bool)
        ensures
            b == spec_in_bounds(p.x as int, p.y as int),
    {
        p.x >= 0 && p.x < SCREEN_WIDTH && p.y >= 0 && p.y < SCREEN_HEIGHT
    }

    /// Whether `p` lies strictly inside the map's outer edge.
    pub open spec fn spec_within_borders(p: Point) -> bool {
        1 <= p.x < SCREEN_WIDTH - 1 && 1 <= p.y < SCREEN_HEIGHT - 1
    }

    pub fn within_borders(&self, p: Point) -> (b: bool)
        ensures
            b == Self::spec_within_borders(p),
    {
        p.x >= 1 && p.x < SCREEN_WIDTH - 1 && p.y >= 1 && p.y < SCREEN_HEIGHT - 1
    }

    /// The index of `p` when it lies on the map.
    pub fn try_get_map_idx(&self, p: Point) -> (r: Option<usize>)
        ensures
            r is Some <==> spec_in_bounds(p.x as int, p.y as int),
            r matches Some(i) ==> i == spec_map_idx(p.x as int, p.y as int) && i < NUM_TILES,
    {
        if self.in_bounds(p) {
            Some(get_map_idx(p.x, p.y))
        } else {
            None
        }
    }

    /// Whether an entity may step onto `p`: it is on the map, and a floor or exit tile.
    pub open spec fn spec_can_enter_tile(&self, p: Point) -> bool {
        spec_in_bounds(p.x as int, p.y as int) && (self.tile_at(p) == TileType::Floor
            || self.tile_at(p) == TileType::Exit)
    }

    pub fn can_enter_tile(&self, p: Point) -> (b: bool)
        requires
            self.wf(),
        ensures
            b == self.spec_can_enter_tile(p),
    {
        if self.in_bounds(p) {
            let idx = get_map_idx(p.x, p.y);
            self.tiles[idx] == TileType::Floor || self.tiles[idx] == TileType::Exit
        } else {
            false
        }
    }

    /// Index of a point on the map.
    pub fn point2d_to_index(&self, p: Point) -> (idx: usize)
        requires
            spec_in_bounds(p.x as int, p.y as int),
        ensures
            idx == spec_map_idx(p.x as int, p.y as int),
            idx < NUM_TILES,
    {
        get_map_idx(p.x, p.y)
    }

    /// The point of the tile stored at index `idx`.
    pub fn index_to_point2d(&self, idx: usize) -> (p: Point)
        requires
            idx < NUM_TILES,
        ensures
            p == spec_index_to_point(idx as int),
            spec_in_bounds(p.x as int, p.y as int),
            spec_map_idx(p.x as int, p.y as int) == idx,
    {
        proof {
            lemma_point_index_roundtrip(idx as int);
        }
        let i = idx as i32;
        Point::new(i % SCREEN_WIDTH, i / SCREEN_WIDTH)
    }

    /// Number of floor tiles on the map.
    pub fn floor_count(&self) -> (n: usize)
        ensures
            n == self.spec_floor_count(),
    {
        let mut n: usize = 0;
        let mut i: usize = 0;
        while i < self.tiles.len()
            invariant
                i <= self.tiles.len(),
                n == Self::floor_count_upto(self.tiles@, i as int),
                n <= i,
            decreases self.tiles.len() - i,
        {
            if self.tiles[i] == TileType::Floor {
                n = n + 1;
            }
            i = i + 1;
        }
        n
    }
}

} // verus!
