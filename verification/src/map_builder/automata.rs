//! Cave levels grown by a cellular automaton from random noise.

use vstd::prelude::*;
use bracket_lib::prelude::RandomNumberGenerator;
use crate::geometry::{distance_squared, distance_squared_exec, Point};
use crate::map::{get_map_idx, spec_map_idx, DungeonMap, TileType};
use crate::map_builder::{lemma_tile_point_unique, tile_point};
use crate::map::lemma_index_point_roundtrip;
use crate::random::rng_range;
use crate::{NUM_TILES, SCREEN_HEIGHT, SCREEN_WIDTH};

verus! {

/// Builds cave levels: random noise smoothed by a cellular automaton.
pub struct CellularAutomataArchitect {}

/// The point the cave generator starts its search for the player's start from.
pub open spec fn map_center() -> Point {
    Point { x: 40i32, y: 25i32 }
}

/// 1 when the tile at `(x + dx, y + dy)` is a wall and is not `(x, y)` itself, else 0.
pub open spec fn nb_cell(t: Seq<TileType>, x: int, y: int, dx: int, dy: int) -> nat {
    if !(dx == 0 && dy == 0) && t[spec_map_idx(x + dx, y + dy)] == TileType::Wall { 1 } else { 0 }
}

/// Walls among the neighbours `(x + dx, y + dy)` for `-1 <= dx < ix`.
pub open spec fn nb_row_upto(t: Seq<TileType>, x: int, y: int, dy: int, ix: int) -> nat
    decreases ix + 1,
{
    if ix <= -1 {
        0
    } else {
        nb_row_upto(t, x, y, dy, ix - 1) + nb_cell(t, x, y, ix - 1, dy)
    }
}

/// Walls among the neighbours in the rows `y + dy` for `-1 <= dy < iy`.
pub open spec fn nb_upto(t: Seq<TileType>, x: int, y: int, iy: int) -> nat
    decreases iy + 1,
{
    if iy <= -1 {
        0
    } else {
        nb_upto(t, x, y, iy - 1) + nb_row_upto(t, x, y, iy - 1, 2)
    }
}

/// Number of walls among the eight tiles around `(x, y)`.
pub open spec fn neighbour_walls(t: Seq<TileType>, x: int, y: int) -> nat {
    nb_upto(t, x, y, 2)
}

/// Whether `p` lies strictly inside the map's outer edge.
pub open spec fn interior(p: Point) -> bool {
    1 <= p.x < SCREEN_WIDTH - 1 && 1 <= p.y < SCREEN_HEIGHT - 1
}

/// The automaton's rule: a tile with more than four walls around it, or none, becomes a wall;
/// any other becomes floor.
pub open spec fn automaton_rule(walls: nat) -> TileType {
    if walls > 4 || walls == 0 { TileType::Wall } else { TileType::Floor }
}

/// One generation of the automaton: every interior tile follows the rule, edge tiles stay.
pub open spec fn iterate_spec(t: Seq<TileType>) -> Seq<TileType> {
    Seq::new(t.len(), |i: int|
        if interior(tile_point(i)) {
            automaton_rule(neighbour_walls(t, tile_point(i).x as int, tile_point(i).y as int))
        } else {
            t[i]
        })
}

/// `n` generations of the automaton.
pub open spec fn iterate_times(t: Seq<TileType>, n: nat) -> Seq<TileType>
    decreases n,
{
    if n == 0 { t } else { iterate_spec(iterate_times(t, (n - 1) as nat)) }
}

/// The tiles with every tile on the map's outer edge turned into wall.
pub open spec fn enclose_spec(t: Seq<TileType>) -> Seq<TileType> {
    Seq::new(t.len(), |i: int| if !interior(tile_point(i)) { TileType::Wall } else { t[i] })
}

/// Whether tile `i` is the floor tile nearest to the center, the first one among equals.
pub open spec fn is_closest_floor(t: Seq<TileType>, i: int) -> bool {
    &&& 0 <= i < t.len()
    &&& t[i] == TileType::Floor
    &&& forall|j: int| 0 <= j < t.len() && #[trigger] t[j] == TileType::Floor
        ==> distance_squared(map_center(), tile_point(j)) >= distance_squared(map_center(), tile_point(i))
    &&& forall|j: int| 0 <= j < i && #[trigger] t[j] == TileType::Floor
        ==> distance_squared(map_center(), tile_point(j)) > distance_squared(map_center(), tile_point(i))
}

/// The tile a noise roll gives: floor when the roll exceeds 55, wall otherwise.
pub open spec fn noise_tile(roll: i32) -> TileType {
    if roll > 55 { TileType::Floor } else { TileType::Wall }
}

/// The tiles of a noise map made from one roll per tile.
pub open spec fn noise_spec(rolls: Seq<i32>) -> Seq<TileType> {
    Seq::new(rolls.len(), |i: int| noise_tile(rolls[i]))
}

impl CellularAutomataArchitect {
    /// Sets tile `i` to floor when `rolls[i]` exceeds 55, to wall otherwise.
    pub fn noise_from_rolls(&mut self, rolls: &Vec<i32>, map: &mut DungeonMap)
        requires
            old(map).wf(),
            rolls.len() == NUM_TILES,
        ensures
            final(map).wf(),
            final(map).tiles@ == noise_spec(rolls@),
            final(map).revealed_tiles == old(map).revealed_tiles,
    {
        let mut i: usize = 0;
        while i < map.tiles.len()
            invariant
                map.wf(),
                rolls.len() == NUM_TILES,
                i <= NUM_TILES,
                forall|j: int| 0 <= j < i ==> #[trigger] map.tiles@[j] == noise_tile(rolls@[j]),
                map.revealed_tiles == old(map).revealed_tiles,
            decreases NUM_TILES - i,
        {
            if rolls[i] > 55 {
                map.tiles.set(i, TileType::Floor);
            } else {
                map.tiles.set(i, TileType::Wall);
            }
            i = i + 1;
        }
        assert(map.tiles@ =~= noise_spec(rolls@));
    }

    /// Sets every tile to floor or wall at random: one roll of `0 .. 100` per tile, in tile
    /// order, and floor when it exceeds 55.
    pub fn generate_random_noise_map(&mut self, rng: &mut RandomNumberGenerator, map: &mut DungeonMap)
        requires
            old(map).wf(),
        ensures
            final(map).wf(),
            exists|rolls: Seq<i32>| rolls.len() == NUM_TILES
                && (forall|i: int| 0 <= i < NUM_TILES ==> 0 <= #[trigger] rolls[i] < 100)
                && final(map).tiles@ == noise_spec(rolls),
            forall|i: int| 0 <= i < NUM_TILES ==> (#[trigger] final(map).tiles@[i] == TileType::Floor
                || final(map).tiles@[i] == TileType::Wall),
            final(map).revealed_tiles == old(map).revealed_tiles,
    {
        let mut rolls: Vec<i32> = Vec::new();
        while rolls.len() < NUM_TILES
            invariant
                rolls.len() <= NUM_TILES,
                forall|i: int| 0 <= i < rolls.len() ==> 0 <= #[trigger] rolls@[i] < 100,
            decreases NUM_TILES - rolls.len(),
        {
            let roll = rng_range(rng, 0, 100);
            rolls.push(roll);
        }
        self.noise_from_rolls(&rolls, map);
        assert(forall|i: int| 0 <= i < NUM_TILES ==> #[trigger] map.tiles@[i] == noise_tile(rolls@[i]));
    }

    /// Number of walls among the eight tiles around the interior tile `(x, y)`.
    pub fn count_neighbours(&self, x: i32, y: i32, map: &DungeonMap) -> (n: usize)
        requires
            map.wf(),
            interior(Point { x, y }),
        ensures
            n == neighbour_walls(map.tiles@, x as int, y as int),
    {
        let mut neighbours: usize = 0;
        let mut iy: i32 = -1;
        while iy <= 1
            invariant
                map.wf(),
                interior(Point { x, y }),
                -1 <= iy <= 2,
                neighbours == nb_upto(map.tiles@, x as int, y as int, iy as int),
                neighbours <= 3 * (iy + 1),
            decreases 2 - iy,
        {
            let mut ix: i32 = -1;
            while ix <= 1
                invariant
                    map.wf(),
                    interior(Point { x, y }),
                    -1 <= iy <= 1,
                    -1 <= ix <= 2,
                    neighbours == nb_upto(map.tiles@, x as int, y as int, iy as int)
                        + nb_row_upto(map.tiles@, x as int, y as int, iy as int, ix as int),
                    neighbours <= 3 * (iy + 1) + (ix + 1),
                decreases 2 - ix,
            {
                if !(ix == 0 && iy == 0) && map.tiles[get_map_idx(x + ix, y + iy)] == TileType::Wall {
                    neighbours = neighbours + 1;
                }
                ix = ix + 1;
            }
            iy = iy + 1;
        }
        neighbours
    }

    /// Runs one generation of the automaton over the whole map.
    pub fn iterate(&mut self, map: &mut DungeonMap)
        requires
            old(map).wf(),
        ensures
            final(map).wf(),
            final(map).tiles@ == iterate_spec(old(map).tiles@),
            final(map).revealed_tiles == old(map).revealed_tiles,
    {
        let mut new_tiles = map.tiles.clone();
        let ghost t0 = map.tiles@;
        let mut y: i32 = 1;
        while y < SCREEN_HEIGHT - 1
            invariant
                map.wf(),
                map.tiles@ == t0,
                map.revealed_tiles == old(map).revealed_tiles,
                t0 == old(map).tiles@,
                1 <= y <= SCREEN_HEIGHT - 1,
                new_tiles.len() == NUM_TILES,
                forall|i: int| 0 <= i < NUM_TILES ==> #[trigger] new_tiles@[i] == if interior(tile_point(i))
                    && tile_point(i).y < y { automaton_rule(neighbour_walls(t0, tile_point(i).x as int, tile_point(i).y as int)) } else { t0[i] },
            decreases SCREEN_HEIGHT - 1 - y,
        {
            let mut x: i32 = 1;
            while x < SCREEN_WIDTH - 1
                invariant
                    map.wf(),
                    map.tiles@ == t0,
                    1 <= y < SCREEN_HEIGHT - 1,
                    1 <= x <= SCREEN_WIDTH - 1,
                    new_tiles.len() == NUM_TILES,
                    forall|i: int| 0 <= i < NUM_TILES ==> #[trigger] new_tiles@[i] == if interior(tile_point(i))
                        && (tile_point(i).y < y || (tile_point(i).y == y && tile_point(i).x < x))
                        { automaton_rule(neighbour_walls(t0, tile_point(i).x as int, tile_point(i).y as int)) } else { t0[i] },
                decreases SCREEN_WIDTH - 1 - x,
            {
                let neighbours = self.count_neighbours(x, y, map);
                let idx = get_map_idx(x, y);
                if neighbours > 4 || neighbours == 0 {
                    new_tiles.set(idx, TileType::Wall);
                } else {
                    new_tiles.set(idx, TileType::Floor);
                }
                proof {
                    let p = Point { x, y };
                    lemma_index_point_roundtrip(p);
                    assert forall|i: int| 0 <= i < NUM_TILES && i != idx implies tile_point(i) != p by {
                        if tile_point(i) == p {
                            lemma_tile_point_unique(i, p);
                        }
                    }
                }
                x = x + 1;
            }
            y = y + 1;
        }
        assert(new_tiles@ =~= iterate_spec(t0));
        map.tiles = new_tiles;
    }

    /// Turns every tile on the map's outer edge into wall.
    pub fn enclose(&mut self, map: &mut DungeonMap)
        requires
            old(map).wf(),
        ensures
            final(map).wf(),
            final(map).tiles@ == enclose_spec(old(map).tiles@),
            final(map).revealed_tiles == old(map).revealed_tiles,
    {
        let ghost t0 = map.tiles@;
        let mut x: i32 = 0;
        while x < SCREEN_WIDTH
            invariant
                map.wf(),
                t0 == old(map).tiles@,
                0 <= x <= SCREEN_WIDTH,
                map.revealed_tiles == old(map).revealed_tiles,
                forall|i: int| 0 <= i < NUM_TILES ==> #[trigger] map.tiles@[i] == if (tile_point(i).y == 0
                    || tile_point(i).y == SCREEN_HEIGHT - 1) && tile_point(i).x < x { TileType::Wall } else { t0[i] },
            decreases SCREEN_WIDTH - x,
        {
            let top = get_map_idx(x, 0);
            map.tiles.set(top, TileType::Wall);
            let bottom = get_map_idx(x, SCREEN_HEIGHT - 1);
            map.tiles.set(bottom, TileType::Wall);
            proof {
                let p = Point { x, y: 0 };
                let q = Point { x, y: 49i32 };
                lemma_index_point_roundtrip(p);
                lemma_index_point_roundtrip(q);
                assert forall|i: int| 0 <= i < NUM_TILES && i != top && i != bottom
                    implies tile_point(i) != p && tile_point(i) != q by {
                    if tile_point(i) == p {
                        lemma_tile_point_unique(i, p);
                    }
                    if tile_point(i) == q {
                        lemma_tile_point_unique(i, q);
                    }
                }
            }
            x = x + 1;
        }
        let mut y: i32 = 1;
        while y < SCREEN_HEIGHT - 1
            invariant
                map.wf(),
                t0 == old(map).tiles@,
                1 <= y <= SCREEN_HEIGHT - 1,
                map.revealed_tiles == old(map).revealed_tiles,
                forall|i: int| 0 <= i < NUM_TILES ==> #[trigger] map.tiles@[i] == if tile_point(i).y == 0
                    || tile_point(i).y == SCREEN_HEIGHT - 1 || ((tile_point(i).x == 0 || tile_point(i).x == SCREEN_WIDTH - 1)
                    && tile_point(i).y < y) { TileType::Wall } else { t0[i] },
            decreases SCREEN_HEIGHT - 1 - y,
        {
            let left = get_map_idx(0, y);
            map.tiles.set(left, TileType::Wall);
            let right = get_map_idx(SCREEN_WIDTH - 1, y);
            map.tiles.set(right, TileType::Wall);
            proof {
                let p = Point { x: 0, y };
                let q = Point { x: 79i32, y };
                lemma_index_point_roundtrip(p);
                lemma_index_point_roundtrip(q);
                assert forall|i: int| 0 <= i < NUM_TILES && i != left && i != right
                    implies tile_point(i) != p && tile_point(i) != q by {
                    if tile_point(i) == p {
                        lemma_tile_point_unique(i, p);
                    }
                    if tile_point(i) == q {
                        lemma_tile_point_unique(i, q);
                    }
                }
            }
            y = y + 1;
        }
        assert forall|i: int| 0 <= i < NUM_TILES implies #[trigger] map.tiles@[i] == enclose_spec(t0)[i] by {
            lemma_tile_point_unique(i, tile_point(i));
        }
        assert(map.tiles@ =~= enclose_spec(t0));
    }

    /// The floor tile nearest to the center of the map, the first one in tile order among
    /// equally near tiles; `None` when the map has no floor.
    pub fn find_start(&self, map: &DungeonMap) -> (r: Option<Point>)
        requires
            map.wf(),
        ensures
            r is None <==> forall|j: int| 0 <= j < NUM_TILES ==> #[trigger] map.tiles@[j] != TileType::Floor,
            r matches Some(p) ==> exists|i: int| is_closest_floor(map.tiles@, i) && p == tile_point(i),
    {
        let center = Point::new(SCREEN_WIDTH / 2, SCREEN_HEIGHT / 2);
        let mut best: Option<(usize, i64)> = None;
        let mut i: usize = 0;
        while i < map.tiles.len()
            invariant
                map.wf(),
                center == map_center(),
                i <= NUM_TILES,
                best is None <==> forall|j: int| 0 <= j < i ==> #[trigger] map.tiles@[j] != TileType::Floor,
                best matches Some(b) ==> b.0 < i && b.1 == distance_squared(map_center(), tile_point(b.0 as int))
                    && is_closest_floor(map.tiles@.subrange(0, i as int), b.0 as int),
            decreases NUM_TILES - i,
        {
            if map.tiles[i] == TileType::Floor {
                let p = map.index_to_point2d(i);
                let d = distance_squared_exec(center, p);
                match best {
                    None => {
                        best = Some((i, d));
                    },
                    Some(b) => {
                        if d < b.1 {
                            best = Some((i, d));
                        }
                    },
                }
            }
            proof {
                let s = map.tiles@.subrange(0, i + 1);
                if let Some(b) = best {
                    assert forall|j: int| 0 <= j < s.len() && #[trigger] s[j] == TileType::Floor implies
                        distance_squared(map_center(), tile_point(j)) >= distance_squared(map_center(), tile_point(b.0 as int)) by {
                        assert(s[j] == map.tiles@[j]);
                        if j < i {
                            assert(map.tiles@.subrange(0, i as int)[j] == map.tiles@[j]);
                        }
                    }
                    assert forall|j: int| 0 <= j < b.0 && #[trigger] s[j] == TileType::Floor implies
                        distance_squared(map_center(), tile_point(j)) > distance_squared(map_center(), tile_point(b.0 as int)) by {
                        assert(s[j] == map.tiles@[j]);
                        if j < i {
                            assert(map.tiles@.subrange(0, i as int)[j] == map.tiles@[j]);
                        }
                    }
                }
            }
            i = i + 1;
        }
        assert(map.tiles@.subrange(0, NUM_TILES as int) =~= map.tiles@);
        match best {
            None => None,
            Some(b) => {
                let p = map.index_to_point2d(b.0);
                assert(is_closest_floor(map.tiles@, b.0 as int) && p == tile_point(b.0 as int));
                Some(p)
            },
        }
    }
}

/// After `enclose`, every tile on the map's outer edge is a wall and every inner tile is as
/// it was.
pub proof fn lemma_enclosed(t: Seq<TileType>)
    ensures
        forall|i: int| 0 <= i < t.len() && !interior(tile_point(i)) ==> #[trigger] enclose_spec(t)[i] == TileType::Wall,
        forall|i: int| 0 <= i < t.len() && interior(tile_point(i)) ==> #[trigger] enclose_spec(t)[i] == t[i],
{
}

/// The automaton never changes a tile on the map's outer edge.
pub proof fn lemma_iterate_keeps_edge(t: Seq<TileType>)
    ensures
        forall|i: int| 0 <= i < t.len() && !interior(tile_point(i)) ==> #[trigger] iterate_spec(t)[i] == t[i],
{
}

/// 1 when the tile at `(x, y)` is a wall, else 0.
pub open spec fn wall_at(t: Seq<TileType>, x: int, y: int) -> int {
    if t[spec_map_idx(x, y)] == TileType::Wall { 1 } else { 0 }
}

/// One generation of the automaton, tile by tile: an interior tile whose eight surrounding
/// tiles hold more than four walls, or none at all, becomes a wall, and any other interior
/// tile becomes floor.
pub proof fn lemma_automaton_step(t: Seq<TileType>, x: i32, y: i32)
    requires
        t.len() == NUM_TILES,
        1 <= x < SCREEN_WIDTH - 1,
        1 <= y < SCREEN_HEIGHT - 1,
    ensures
        ({
            let walls = wall_at(t, x - 1, y - 1) + wall_at(t, x as int, y - 1) + wall_at(t, x + 1, y - 1)
                + wall_at(t, x - 1, y as int) + wall_at(t, x + 1, y as int)
                + wall_at(t, x - 1, y + 1) + wall_at(t, x as int, y + 1) + wall_at(t, x + 1, y + 1);
            iterate_spec(t)[spec_map_idx(x as int, y as int)]
                == if walls > 4 || walls == 0 { TileType::Wall } else { TileType::Floor }
        }),
{
    let p = Point { x, y };
    lemma_index_point_roundtrip(p);
    let i = spec_map_idx(x as int, y as int);
    assert(tile_point(i) == p);
    reveal_with_fuel(nb_upto, 5);
    reveal_with_fuel(nb_row_upto, 5);
}

} // verus!
