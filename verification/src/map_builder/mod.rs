//! Map generation: the shared builder state, its helpers, and the generation
//! process that the architects drive.

pub mod automata;
pub mod drunkard;
pub mod empty;
pub mod generation;
pub mod rooms;
pub mod themes;

use vstd::prelude::*;
use bracket_lib::prelude::RandomNumberGenerator;
use crate::geometry::{distance_squared, distance_squared_exec, Point, Rect};
use crate::map::{
    get_map_idx, lemma_index_point_roundtrip, lemma_point_index_roundtrip, spec_in_bounds,
    spec_index_to_point, spec_map_idx, DungeonMap, TileType,
};
use crate::random::{random_slice_index, rng_range};
use crate::{NUM_TILES, SCREEN_HEIGHT, SCREEN_WIDTH};

verus! {

/// How many rooms the rooms architect places.
pub const NUM_ROOMS: usize = 20;

/// How many monster spawn points a generator picks at most.
pub const NUM_MONSTERS: usize = 50;

/// The glyph set a level is drawn with.
pub trait MapTheme: Sync + Send {
    fn tile_to_render(&self, tile_type: TileType) -> u16;
}

/// Which glyph set a generated level uses.
#[derive(Clone, Copy, Debug, PartialEq, Eq, Structural)]
pub enum ThemeKind {
    Dungeon,
    Forest,
}

/// A level under construction: the map, its rooms, and the places where things start.
pub struct MapBuilder {
    pub map: DungeonMap,
    pub rooms: Vec<Rect>,
    pub monster_spawns: Vec<Point>,
    pub player_start: Point,
    pub amulet_start: Point,
    pub theme: ThemeKind,
}

/// The point of the tile at index `i`.
pub open spec fn tile_point(i: int) -> Point {
    spec_index_to_point(i)
}

/// Whether `p` is on the map.
pub open spec fn on_map(p: Point) -> bool {
    spec_in_bounds(p.x as int, p.y as int)
}

/// Whether the tiles `after` differ from `before` only by walls and exits becoming floor.
pub open spec fn only_gains_floor(before: Seq<TileType>, after: Seq<TileType>) -> bool {
    &&& after.len() == before.len()
    &&& forall|i: int| 0 <= i < before.len() ==> (#[trigger] after[i] == before[i] || after[i] == TileType::Floor)
}

/// Whether every tile that one of the rooms covers is floor.
pub open spec fn rooms_carved(tiles: Seq<TileType>, rooms: Seq<Rect>) -> bool {
    forall|k: int, i: int| 0 <= k < rooms.len() && 0 <= i < tiles.len() && #[trigger] rooms[k].covers(#[trigger] tile_point(i))
        ==> tiles[i] == TileType::Floor
}

/// Turning tiles into floor keeps carved rooms carved.
pub proof fn lemma_rooms_carved_gain_floor(a: Seq<TileType>, b: Seq<TileType>, rooms: Seq<Rect>)
    requires
        rooms_carved(a, rooms),
        only_gains_floor(a, b),
    ensures
        rooms_carved(b, rooms),
{
    assert forall|k: int, i: int| 0 <= k < rooms.len() && 0 <= i < b.len() && #[trigger] rooms[k].covers(#[trigger] tile_point(i))
        implies b[i] == TileType::Floor by {
        assert(a[i] == TileType::Floor);
        assert(b[i] == a[i] || b[i] == TileType::Floor);
    }
}

/// The center of every carved room is a floor tile.
pub proof fn lemma_room_centers_floor(tiles: Seq<TileType>, rooms: Seq<Rect>, k: int)
    requires
        tiles.len() == NUM_TILES,
        rooms_valid(rooms),
        rooms_carved(tiles, rooms),
        0 <= k < rooms.len(),
    ensures
        tiles[spec_map_idx(rooms[k].spec_center().x as int, rooms[k].spec_center().y as int)] == TileType::Floor,
{
    let r = rooms[k];
    assert(room_in_range(r));
    let c = r.spec_center();
    lemma_index_point_roundtrip(c);
    let i = spec_map_idx(c.x as int, c.y as int);
    assert(tile_point(i) == c);
    assert(r.covers(tile_point(i)));
}

/// Whether a tile may hold a monster spawn: a floor tile more than ten tiles from `start`.
pub open spec fn spawnable(map: &DungeonMap, start: Point, p: Point) -> bool {
    &&& on_map(p)
    &&& map.tile_at(p) == TileType::Floor
    &&& distance_squared(start, p) > 100
}

/// The spawnable points among the first `n` tiles, in tile order.
pub open spec fn spawnable_upto(map: &DungeonMap, start: Point, n: int) -> Seq<Point>
    decreases n,
{
    if n <= 0 {
        Seq::empty()
    } else {
        let rest = spawnable_upto(map, start, n - 1);
        if spawnable(map, start, tile_point(n - 1)) {
            rest.push(tile_point(n - 1))
        } else {
            rest
        }
    }
}

/// Whether index `i` holds the farthest reachable distance, the last one among equals.
pub open spec fn is_most_distant(d: Seq<Option<u32>>, i: int) -> bool {
    &&& 0 <= i < d.len()
    &&& d[i] is Some
    &&& forall|j: int| 0 <= j < d.len() && #[trigger] d[j] is Some ==> d[j]->0 <= d[i]->0
    &&& forall|j: int| i < j < d.len() && #[trigger] d[j] is Some ==> d[j]->0 < d[i]->0
}

/// Whether a rectangle lies where the rooms architect places rooms.
pub open spec fn room_in_range(r: Rect) -> bool {
    &&& 1 <= r.x1 < r.x2 <= SCREEN_WIDTH - 2
    &&& 1 <= r.y1 < r.y2 <= SCREEN_HEIGHT - 2
}

/// Whether the rooms lie in range and no two of them intersect.
pub open spec fn rooms_valid(rooms: Seq<Rect>) -> bool {
    &&& rooms.len() <= NUM_ROOMS
    &&& forall|i: int| 0 <= i < rooms.len() ==> room_in_range(#[trigger] rooms[i])
    &&& forall|i: int, j: int| 0 <= i < rooms.len() && 0 <= j < rooms.len() && i != j
        ==> !(#[trigger] rooms[i]).spec_intersect(#[trigger] rooms[j])
}

/// The tiles after a vertical tunnel at column `x` from `y1` to `y2`.
pub open spec fn vertical_tunnel(tiles: Seq<TileType>, y1: int, y2: int, x: int) -> Seq<TileType> {
    Seq::new(tiles.len(), |i: int|
        if tile_point(i).x == x && (if y1 <= y2 { y1 } else { y2 }) <= tile_point(i).y
            && tile_point(i).y <= (if y1 <= y2 { y2 } else { y1 }) {
            TileType::Floor
        } else {
            tiles[i]
        })
}

/// The tiles after a horizontal tunnel at row `y` from `x1` to `x2`.
pub open spec fn horizontal_tunnel(tiles: Seq<TileType>, x1: int, x2: int, y: int) -> Seq<TileType> {
    Seq::new(tiles.len(), |i: int|
        if tile_point(i).y == y && (if x1 <= x2 { x1 } else { x2 }) <= tile_point(i).x
            && tile_point(i).x <= (if x1 <= x2 { x2 } else { x1 }) {
            TileType::Floor
        } else {
            tiles[i]
        })
}

impl MapBuilder {
    /// An empty builder over a fresh map: every tile floor, none revealed.
    pub fn empty_builder() -> (mb: MapBuilder)
        ensures
            mb.map.wf(),
            forall|i: int| 0 <= i < NUM_TILES ==> mb.map.tiles@[i] == TileType::Floor,
            forall|i: int| 0 <= i < NUM_TILES ==> !mb.map.revealed_tiles@[i],
            mb.rooms@.len() == 0,
            mb.monster_spawns@.len() == 0,
            mb.player_start == Point::zero_spec(),
            mb.amulet_start == Point::zero_spec(),
            mb.theme == ThemeKind::Dungeon,
    {
        MapBuilder {
            map: DungeonMap::new(),
            rooms: Vec::new(),
            monster_spawns: Vec::new(),
            player_start: Point::zero(),
            amulet_start: Point::zero(),
            theme: ThemeKind::Dungeon,
        }
    }

    /// Sets every tile of the map to `tile`.
    pub fn fill(&mut self, tile: TileType)
        requires
            old(self).map.wf(),
        ensures
            final(self).map.wf(),
            forall|i: int| 0 <= i < NUM_TILES ==> final(self).map.tiles@[i] == tile,
            final(self).map.revealed_tiles == old(self).map.revealed_tiles,
            final(self).rooms == old(self).rooms,
            final(self).monster_spawns == old(self).monster_spawns,
            final(self).player_start == old(self).player_start,
            final(self).amulet_start == old(self).amulet_start,
            final(self).theme == old(self).theme,
    {
        let mut i: usize = 0;
        while i < self.map.tiles.len()
            invariant
                self.map.tiles.len() == NUM_TILES,
                i <= NUM_TILES,
                forall|j: int| 0 <= j < i ==> self.map.tiles@[j] == tile,
                self.map.revealed_tiles == old(self).map.revealed_tiles,
                self.rooms == old(self).rooms,
                self.monster_spawns == old(self).monster_spawns,
                self.player_start == old(self).player_start,
                self.amulet_start == old(self).amulet_start,
                self.theme == old(self).theme,
            decreases NUM_TILES - i,
        {
            self.map.tiles.set(i, tile);
            i = i + 1;
        }
    }

    /// The point of the reachable tile farthest from the start of a distance map, the last
    /// one among equally far tiles; `None` when no tile is reachable.
    pub fn find_most_distant(&self, distances: &Vec<Option<u32>>) -> (r: Option<Point>)
        requires
            distances.len() == NUM_TILES,
        ensures
            r is None <==> forall|j: int| 0 <= j < NUM_TILES ==> !(#[trigger] distances@[j] is Some),
            r matches Some(p) ==> exists|i: int| is_most_distant(distances@, i) && p == tile_point(i),
    {
        let mut best: Option<usize> = None;
        let mut i: usize = 0;
        while i < distances.len()
            invariant
                distances.len() == NUM_TILES,
                i <= NUM_TILES,
                best is None <==> forall|j: int| 0 <= j < i ==> !(#[trigger] distances@[j] is Some),
                best matches Some(b) ==> is_most_distant(distances@.subrange(0, i as int), b as int),
            decreases NUM_TILES - i,
        {
            if let Some(d) = distances[i] {
                match best {
                    None => {
                        best = Some(i);
                    },
                    Some(b) => {
                        let bd = distances[b].unwrap();
                        if d >= bd {
                            best = Some(i);
                        }
                    },
                }
            }
            proof {
                let s = distances@.subrange(0, i + 1);
                if let Some(b) = best {
                    assert forall|j: int| 0 <= j < s.len() && #[trigger] s[j] is Some implies s[j]->0 <= s[b as int]->0 by {
                        assert(s[j] == distances@[j]);
                        if j < i {
                            assert(distances@.subrange(0, i as int)[j] == distances@[j]);
                        }
                    }
                    assert forall|j: int| b < j < s.len() && #[trigger] s[j] is Some implies s[j]->0 < s[b as int]->0 by {
                        assert(s[j] == distances@[j]);
                        if j < i {
                            assert(distances@.subrange(0, i as int)[j] == distances@[j]);
                        }
                    }
                }
            }
            i = i + 1;
        }
        assert(distances@.subrange(0, NUM_TILES as int) =~= distances@);
        match best {
            None => None,
            Some(b) => {
                let p = self.map.index_to_point2d(b);
                assert(is_most_distant(distances@, b as int) && p == tile_point(b as int));
                Some(p)
            },
        }
    }
}


impl MapBuilder {
    /// Up to `NUM_MONSTERS` distinct spawnable points, drawn at random: as many as there are,
    /// when fewer than that exist.
    pub fn find_monster_spawns(&self, start: &Point, rng: &mut RandomNumberGenerator) -> (spawns: Vec<Point>)
        requires
            self.map.wf(),
            on_map(*start),
        ensures
            spawns@.no_duplicates(),
            forall|k: int| 0 <= k < spawns.len() ==> spawnable(&self.map, *start, #[trigger] spawns@[k]),
            spawns.len() == if NUM_MONSTERS < spawnable_upto(&self.map, *start, NUM_TILES as int).len() {
                NUM_MONSTERS as int
            } else {
                spawnable_upto(&self.map, *start, NUM_TILES as int).len() as int
            },
    {
        let mut spawnable_tiles: Vec<Point> = Vec::new();
        let mut i: usize = 0;
        while i < self.map.tiles.len()
            invariant
                self.map.wf(),
                on_map(*start),
                i <= NUM_TILES,
                spawnable_tiles@ == spawnable_upto(&self.map, *start, i as int),
                spawnable_tiles.len() <= i,
                spawnable_tiles@.no_duplicates(),
                forall|k: int| 0 <= k < spawnable_tiles.len() ==> spawnable(&self.map, *start, #[trigger] spawnable_tiles@[k])
                    && spec_map_idx(spawnable_tiles@[k].x as int, spawnable_tiles@[k].y as int) < i,
            decreases NUM_TILES - i,
        {
            let p = self.map.index_to_point2d(i);
            if self.map.tiles[i] == TileType::Floor && distance_squared_exec(*start, p) > 100 {
                spawnable_tiles.push(p);
            }
            i = i + 1;
        }
        let count: usize = if NUM_MONSTERS < spawnable_tiles.len() { NUM_MONSTERS } else { spawnable_tiles.len() };
        let ghost total = spawnable_tiles.len();
        let mut spawns: Vec<Point> = Vec::new();
        let mut n: usize = 0;
        while n < count
            invariant
                n <= count <= total,
                total <= NUM_TILES,
                spawns.len() == n,
                spawnable_tiles.len() == total - n,
                spawns@.no_duplicates(),
                spawnable_tiles@.no_duplicates(),
                spawns@.disjoint(spawnable_tiles@),
                forall|k: int| 0 <= k < spawns.len() ==> spawnable(&self.map, *start, #[trigger] spawns@[k]),
                forall|k: int| 0 <= k < spawnable_tiles.len() ==> spawnable(&self.map, *start, #[trigger] spawnable_tiles@[k]),
            decreases count - n,
        {
            let ghost pool = spawnable_tiles@;
            let ghost before = spawns@;
            let target_index = random_slice_index(rng, &spawnable_tiles).unwrap();
            let chosen = spawnable_tiles[target_index];
            spawns.push(chosen);
            spawnable_tiles.remove(target_index);
            proof {
                pool.remove_ensures(target_index as int);
                assert forall|a: int, b: int| 0 <= a < spawns.len() && 0 <= b < spawnable_tiles.len()
                    implies spawns@[a] != spawnable_tiles@[b] by {
                    if b < target_index {
                        assert(spawnable_tiles@[b] == pool[b]);
                    } else {
                        assert(spawnable_tiles@[b] == pool[b + 1]);
                    }
                    if a < n {
                        assert(spawns@[a] == before[a]);
                    }
                }
                assert forall|a: int, b: int| 0 <= a < spawnable_tiles.len() && 0 <= b < spawnable_tiles.len() && a != b
                    implies spawnable_tiles@[a] != spawnable_tiles@[b] by {
                    let pa = if a < target_index { a } else { a + 1 };
                    let pb = if b < target_index { b } else { b + 1 };
                    assert(spawnable_tiles@[a] == pool[pa]);
                    assert(spawnable_tiles@[b] == pool[pb]);
                }
                assert forall|k: int| 0 <= k < spawnable_tiles.len() implies spawnable(&self.map, *start, #[trigger] spawnable_tiles@[k]) by {
                    if k < target_index {
                        assert(spawnable_tiles@[k] == pool[k]);
                    } else {
                        assert(spawnable_tiles@[k] == pool[k + 1]);
                    }
                }
            }
            n = n + 1;
        }
        spawns
    }
}


/// The tile at index `i` is the one its point indexes, and that point is on the map.
pub proof fn lemma_tile_point_unique(i: int, p: Point)
    requires
        0 <= i < NUM_TILES,
        tile_point(i) == p,
    ensures
        on_map(p),
        spec_map_idx(p.x as int, p.y as int) == i,
{
    lemma_point_index_roundtrip(i);
}

impl MapBuilder {
    /// Turns into floor every tile of column `x` between rows `y1` and `y2`, both included.
    pub fn apply_vertical_tunnel(&mut self, y1: i32, y2: i32, x: i32)
        requires
            old(self).map.wf(),
        ensures
            final(self).map.wf(),
            final(self).map.tiles@ == vertical_tunnel(old(self).map.tiles@, y1 as int, y2 as int, x as int),
            final(self).map.revealed_tiles == old(self).map.revealed_tiles,
            final(self).rooms == old(self).rooms,
            final(self).monster_spawns == old(self).monster_spawns,
            final(self).player_start == old(self).player_start,
            final(self).amulet_start == old(self).amulet_start,
            final(self).theme == old(self).theme,
    {
        let lo: i32 = if y1 <= y2 { y1 } else { y2 };
        let hi: i32 = if y1 <= y2 { y2 } else { y1 };
        let ghost t0 = self.map.tiles@;
        let mut y: i64 = lo as i64;
        while y <= hi as i64
            invariant
                self.map.wf(),
                lo as i64 <= y <= hi as i64 + 1,
                lo == (if y1 <= y2 { y1 } else { y2 }),
                hi == (if y1 <= y2 { y2 } else { y1 }),
                t0.len() == NUM_TILES,
                forall|i: int| 0 <= i < NUM_TILES ==> #[trigger] self.map.tiles@[i] == if tile_point(i).x == x
                    && lo <= tile_point(i).y && tile_point(i).y < y { TileType::Floor } else { t0[i] },
                self.map.revealed_tiles == old(self).map.revealed_tiles,
                self.rooms == old(self).rooms,
                self.monster_spawns == old(self).monster_spawns,
                self.player_start == old(self).player_start,
                self.amulet_start == old(self).amulet_start,
                self.theme == old(self).theme,
            decreases hi as i64 + 1 - y,
        {
            let p = Point::new(x, y as i32);
            let ghost prev = self.map.tiles@;
            if let Some(idx) = self.map.try_get_map_idx(p) {
                self.map.tiles.set(idx, TileType::Floor);
                proof {
                    lemma_index_point_roundtrip(p);
                    assert forall|i: int| 0 <= i < NUM_TILES && i != idx implies tile_point(i) != p by {
                        if tile_point(i) == p {
                            lemma_tile_point_unique(i, p);
                        }
                    }
                }
            } else {
                proof {
                    assert forall|i: int| 0 <= i < NUM_TILES implies tile_point(i) != p by {
                        if tile_point(i) == p {
                            lemma_tile_point_unique(i, p);
                        }
                    }
                }
            }
            y = y + 1;
        }
        assert(self.map.tiles@ =~= vertical_tunnel(t0, y1 as int, y2 as int, x as int));
    }

    /// Turns into floor every tile of row `y` between columns `x1` and `x2`, both included.
    pub fn apply_horizonal_tunnel(&mut self, x1: i32, x2: i32, y: i32)
        requires
            old(self).map.wf(),
        ensures
            final(self).map.wf(),
            final(self).map.tiles@ == horizontal_tunnel(old(self).map.tiles@, x1 as int, x2 as int, y as int),
            final(self).map.revealed_tiles == old(self).map.revealed_tiles,
            final(self).rooms == old(self).rooms,
            final(self).monster_spawns == old(self).monster_spawns,
            final(self).player_start == old(self).player_start,
            final(self).amulet_start == old(self).amulet_start,
            final(self).theme == old(self).theme,
    {
        let lo: i32 = if x1 <= x2 { x1 } else { x2 };
        let hi: i32 = if x1 <= x2 { x2 } else { x1 };
        let ghost t0 = self.map.tiles@;
        let mut x: i64 = lo as i64;
        while x <= hi as i64
            invariant
                self.map.wf(),
                lo as i64 <= x <= hi as i64 + 1,
                lo == (if x1 <= x2 { x1 } else { x2 }),
                hi == (if x1 <= x2 { x2 } else { x1 }),
                t0.len() == NUM_TILES,
                forall|i: int| 0 <= i < NUM_TILES ==> #[trigger] self.map.tiles@[i] == if tile_point(i).y == y
                    && lo <= tile_point(i).x && tile_point(i).x < x { TileType::Floor } else { t0[i] },
                self.map.revealed_tiles == old(self).map.revealed_tiles,
                self.rooms == old(self).rooms,
                self.monster_spawns == old(self).monster_spawns,
                self.player_start == old(self).player_start,
                self.amulet_start == old(self).amulet_start,
                self.theme == old(self).theme,
            decreases hi as i64 + 1 - x,
        {
            let p = Point::new(x as i32, y);
            if let Some(idx) = self.map.try_get_map_idx(p) {
                self.map.tiles.set(idx, TileType::Floor);
                proof {
                    lemma_index_point_roundtrip(p);
                    assert forall|i: int| 0 <= i < NUM_TILES && i != idx implies tile_point(i) != p by {
                        if tile_point(i) == p {
                            lemma_tile_point_unique(i, p);
                        }
                    }
                }
            } else {
                proof {
                    assert forall|i: int| 0 <= i < NUM_TILES implies tile_point(i) != p by {
                        if tile_point(i) == p {
                            lemma_tile_point_unique(i, p);
                        }
                    }
                }
            }
            x = x + 1;
        }
        assert(self.map.tiles@ =~= horizontal_tunnel(t0, x1 as int, x2 as int, y as int));
    }
}


/// The tiles after floor is laid on every tile of `r` that lies inside the map's edge.
pub open spec fn carve_room(tiles: Seq<TileType>, r: Rect) -> Seq<TileType> {
    Seq::new(tiles.len(), |i: int|
        if r.covers(tile_point(i)) && tile_point(i).x > 0 && tile_point(i).x < SCREEN_WIDTH
            && tile_point(i).y > 0 && tile_point(i).y < SCREEN_HEIGHT {
            TileType::Floor
        } else {
            tiles[i]
        })
}

/// Whether `r` is one of the rectangles the rooms loop draws: corner in `1 .. 70` by `1 .. 40`,
/// sides in `2 .. 10`.
pub open spec fn drawable_room(r: Rect) -> bool {
    &&& 1 <= r.x1 < SCREEN_WIDTH - 10
    &&& 1 <= r.y1 < SCREEN_HEIGHT - 10
    &&& 2 <= r.x2 - r.x1 < 10
    &&& 2 <= r.y2 - r.y1 < 10
}

impl MapBuilder {
    /// One attempt of the rooms loop: draws a random room and, when it intersects no room
    /// placed so far, carves it into the map and records it.
    pub fn try_random_room(&mut self, rng: &mut RandomNumberGenerator) -> (placed: bool)
        requires
            old(self).map.wf(),
            rooms_valid(old(self).rooms@),
            old(self).rooms.len() < NUM_ROOMS,
        ensures
            final(self).map.wf(),
            rooms_valid(final(self).rooms@),
            exists|r: Rect| {
                &&& drawable_room(r)
                &&& (placed <==> forall|k: int| 0 <= k < old(self).rooms.len()
                    ==> !(#[trigger] old(self).rooms@[k]).spec_intersect(r))
                &&& placed ==> final(self).rooms@ == old(self).rooms@.push(r)
                    && final(self).map.tiles@ == carve_room(old(self).map.tiles@, r)
            },
            !placed ==> final(self).rooms == old(self).rooms && final(self).map.tiles == old(self).map.tiles,
            rooms_carved(old(self).map.tiles@, old(self).rooms@) ==> rooms_carved(final(self).map.tiles@, final(self).rooms@),
            final(self).map.revealed_tiles == old(self).map.revealed_tiles,
            final(self).monster_spawns == old(self).monster_spawns,
            final(self).player_start == old(self).player_start,
            final(self).amulet_start == old(self).amulet_start,
            final(self).theme == old(self).theme,
    {
        let x = rng_range(rng, 1, SCREEN_WIDTH - 10);
        let y = rng_range(rng, 1, SCREEN_HEIGHT - 10);
        let w = rng_range(rng, 2, 10);
        let h = rng_range(rng, 2, 10);
        let room = Rect::with_size(x, y, w, h);
        let mut overlap = false;
        let mut j: usize = 0;
        while j < self.rooms.len()
            invariant
                j <= self.rooms.len(),
                overlap <==> exists|k: int| 0 <= k < j && (#[trigger] self.rooms@[k]).spec_intersect(room),
            decreases self.rooms.len() - j,
        {
            if self.rooms[j].intersect(&room) {
                overlap = true;
            }
            j = j + 1;
        }
        assert(drawable_room(room));
        if overlap {
            return false;
        }
        let ghost t0 = self.map.tiles@;
        let mut py: i32 = room.y1;
        while py < room.y2
            invariant
                self.map.wf(),
                t0.len() == NUM_TILES,
                drawable_room(room),
                room.y1 <= py <= room.y2,
                forall|i: int| 0 <= i < NUM_TILES ==> #[trigger] self.map.tiles@[i] == if room.covers(tile_point(i))
                    && tile_point(i).y < py && tile_point(i).x > 0 && tile_point(i).x < SCREEN_WIDTH
                    && tile_point(i).y > 0 && tile_point(i).y < SCREEN_HEIGHT { TileType::Floor } else { t0[i] },
                self.rooms == old(self).rooms,
                self.map.revealed_tiles == old(self).map.revealed_tiles,
                self.monster_spawns == old(self).monster_spawns,
                self.player_start == old(self).player_start,
                self.amulet_start == old(self).amulet_start,
                self.theme == old(self).theme,
            decreases room.y2 - py,
        {
            let mut px: i32 = room.x1;
            while px < room.x2
                invariant
                    self.map.wf(),
                    t0.len() == NUM_TILES,
                    drawable_room(room),
                    room.y1 <= py < room.y2,
                    room.x1 <= px <= room.x2,
                    forall|i: int| 0 <= i < NUM_TILES ==> #[trigger] self.map.tiles@[i] == if room.covers(tile_point(i))
                        && (tile_point(i).y < py || (tile_point(i).y == py && tile_point(i).x < px))
                        && tile_point(i).x > 0 && tile_point(i).x < SCREEN_WIDTH
                        && tile_point(i).y > 0 && tile_point(i).y < SCREEN_HEIGHT { TileType::Floor } else { t0[i] },
                    self.rooms == old(self).rooms,
                    self.map.revealed_tiles == old(self).map.revealed_tiles,
                    self.monster_spawns == old(self).monster_spawns,
                    self.player_start == old(self).player_start,
                    self.amulet_start == old(self).amulet_start,
                    self.theme == old(self).theme,
                decreases room.x2 - px,
            {
                let p = Point::new(px, py);
                if p.x > 0 && p.x < SCREEN_WIDTH && p.y > 0 && p.y < SCREEN_HEIGHT {
                    let idx = get_map_idx(p.x, p.y);
                    self.map.tiles.set(idx, TileType::Floor);
                    proof {
                        lemma_index_point_roundtrip(p);
                        assert forall|i: int| 0 <= i < NUM_TILES && i != idx implies tile_point(i) != p by {
                            if tile_point(i) == p {
                                lemma_tile_point_unique(i, p);
                            }
                        }
                    }
                }
                px = px + 1;
            }
            py = py + 1;
        }
        assert(self.map.tiles@ =~= carve_room(t0, room));
        let ghost before = self.rooms@;
        self.rooms.push(room);
        proof {
            if rooms_carved(t0, before) {
                assert forall|k: int, i: int| 0 <= k < self.rooms@.len() && 0 <= i < self.map.tiles@.len()
                    && #[trigger] self.rooms@[k].covers(#[trigger] tile_point(i))
                    implies self.map.tiles@[i] == TileType::Floor by {
                    if k < before.len() {
                        assert(self.rooms@[k] == before[k]);
                        assert(t0[i] == TileType::Floor);
                    } else {
                        assert(self.rooms@[k] == room);
                    }
                }
            }
            assert forall|a: int, b: int| 0 <= a < self.rooms@.len() && 0 <= b < self.rooms@.len() && a != b
                implies !(#[trigger] self.rooms@[a]).spec_intersect(#[trigger] self.rooms@[b]) by {
                if a < before.len() && b < before.len() {
                    assert(self.rooms@[a] == before[a] && self.rooms@[b] == before[b]);
                } else if a < before.len() {
                    assert(self.rooms@[a] == before[a]);
                    assert(!before[a].spec_intersect(room));
                } else {
                    assert(self.rooms@[b] == before[b]);
                    assert(!before[b].spec_intersect(room));
                }
            }
            assert forall|k: int| 0 <= k < self.rooms@.len() implies room_in_range(#[trigger] self.rooms@[k]) by {
                if k < before.len() {
                    assert(self.rooms@[k] == before[k]);
                }
            }
        }
        true
    }
}


/// The x coordinate of a room's center.
pub open spec fn center_x(r: Rect) -> int {
    r.spec_center().x as int
}

/// `s` with `r` inserted after every element from the back whose center lies farther right:
/// one step of a stable insertion sort by center x.
pub open spec fn insert_by_center_x(s: Seq<Rect>, r: Rect) -> Seq<Rect>
    decreases s.len(),
{
    if s.len() == 0 {
        seq![r]
    } else if center_x(s.last()) <= center_x(r) {
        s.push(r)
    } else {
        insert_by_center_x(s.drop_last(), r).push(s.last())
    }
}

/// The rooms stably sorted by the x coordinate of their centers.
pub open spec fn sort_by_center_x(s: Seq<Rect>) -> Seq<Rect>
    decreases s.len(),
{
    if s.len() == 0 {
        s
    } else {
        insert_by_center_x(sort_by_center_x(s.drop_last()), s.last())
    }
}

/// Inserting at the first position, from the back, where the next center lies farther right
/// is the sorting step.
pub proof fn lemma_insert_position(s: Seq<Rect>, r: Rect, pos: int)
    requires
        0 <= pos <= s.len(),
        forall|k: int| pos <= k < s.len() ==> center_x(#[trigger] s[k]) > center_x(r),
        pos == 0 || center_x(s[pos - 1]) <= center_x(r),
    ensures
        insert_by_center_x(s, r) == s.insert(pos, r),
    decreases s.len(),
{
    if s.len() == 0 {
        assert(s.insert(pos, r) =~= seq![r]);
    } else if pos == s.len() {
        assert(s.insert(pos, r) =~= s.push(r));
    } else {
        let t = s.drop_last();
        assert forall|k: int| pos <= k < t.len() implies center_x(#[trigger] t[k]) > center_x(r) by {
            assert(t[k] == s[k]);
        }
        lemma_insert_position(t, r, pos);
        assert(s.insert(pos, r) =~= t.insert(pos, r).push(s.last()));
    }
}

/// The rooms, stably sorted by the x coordinate of their centers.
pub fn rooms_sorted_by_center_x(rooms: &Vec<Rect>) -> (sorted: Vec<Rect>)
    requires
        forall|k: int| 0 <= k < rooms.len() ==> room_in_range(#[trigger] rooms@[k]),
    ensures
        sorted@ == sort_by_center_x(rooms@),
        sorted.len() == rooms.len(),
        forall|k: int| 0 <= k < sorted.len() ==> room_in_range(#[trigger] sorted@[k]),
{
    let mut res: Vec<Rect> = Vec::new();
    let mut i: usize = 0;
    while i < rooms.len()
        invariant
            i <= rooms.len(),
            forall|k: int| 0 <= k < rooms.len() ==> room_in_range(#[trigger] rooms@[k]),
            res@ == sort_by_center_x(rooms@.subrange(0, i as int)),
            res.len() == i,
            forall|k: int| 0 <= k < res.len() ==> room_in_range(#[trigger] res@[k]),
        decreases rooms.len() - i,
    {
        let r = rooms[i];
        let key = r.center().x;
        let mut pos: usize = res.len();
        while pos > 0 && res[pos - 1].center().x > key
            invariant
                pos <= res.len(),
                key == center_x(r),
                forall|k: int| 0 <= k < res.len() ==> room_in_range(#[trigger] res@[k]),
                forall|k: int| pos <= k < res.len() ==> center_x(#[trigger] res@[k]) > key,
            decreases pos,
        {
            pos = pos - 1;
        }
        let ghost before = res@;
        res.insert(pos, r);
        proof {
            lemma_insert_position(before, r, pos as int);
            assert(rooms@.subrange(0, i + 1).drop_last() =~= rooms@.subrange(0, i as int));
            assert(rooms@.subrange(0, i + 1).last() == r);
            assert forall|k: int| 0 <= k < res.len() implies room_in_range(#[trigger] res@[k]) by {
                if k < pos {
                    assert(res@[k] == before[k]);
                } else if k > pos {
                    assert(res@[k] == before[k - 1]);
                }
            }
        }
        i = i + 1;
    }
    assert(rooms@.subrange(0, rooms.len() as int) =~= rooms@);
    res
}

/// The tiles after the tunnels joining the centers `prev` and `new`: along the row of `prev`
/// then down the column of `new` when `horizontal_first`, otherwise along the column of `prev`
/// then the row of `new`.
pub open spec fn corridor_step(t: Seq<TileType>, prev: Point, new: Point, horizontal_first: bool) -> Seq<TileType> {
    if horizontal_first {
        vertical_tunnel(horizontal_tunnel(t, prev.x as int, new.x as int, prev.y as int), prev.y as int, new.y as int, new.x as int)
    } else {
        horizontal_tunnel(vertical_tunnel(t, prev.y as int, new.y as int, prev.x as int), prev.x as int, new.x as int, new.y as int)
    }
}

/// The tiles after joining the first `n` rooms of `rooms`, each to the one before it, with
/// the tunnel orders `choices[1 .. n]`.
pub open spec fn corridors_upto(t: Seq<TileType>, rooms: Seq<Rect>, choices: Seq<bool>, n: int) -> Seq<TileType>
    decreases n,
{
    if n <= 1 {
        t
    } else {
        corridor_step(corridors_upto(t, rooms, choices, n - 1), rooms[n - 2].spec_center(), rooms[n - 1].spec_center(), choices[n - 1])
    }
}

impl MapBuilder {
    /// Joins each room to the next one in order of their centers' x coordinate by two tunnels,
    /// whose order is drawn at random for each pair.
    pub fn build_cooridors(&mut self, rng: &mut RandomNumberGenerator)
        requires
            old(self).map.wf(),
            rooms_valid(old(self).rooms@),
        ensures
            final(self).map.wf(),
            exists|choices: Seq<bool>| choices.len() == old(self).rooms.len()
                && final(self).map.tiles@ == corridors_upto(old(self).map.tiles@, sort_by_center_x(old(self).rooms@),
                    choices, old(self).rooms.len() as int),
            final(self).map.revealed_tiles == old(self).map.revealed_tiles,
            final(self).rooms == old(self).rooms,
            final(self).monster_spawns == old(self).monster_spawns,
            final(self).player_start == old(self).player_start,
            final(self).amulet_start == old(self).amulet_start,
            final(self).theme == old(self).theme,
    {
        let rooms = rooms_sorted_by_center_x(&self.rooms);
        let ghost t0 = self.map.tiles@;
        let ghost mut choices: Seq<bool> = seq![false];
        if rooms.len() == 0 {
            proof {
                choices = Seq::empty();
            }
            assert(self.map.tiles@ == corridors_upto(t0, rooms@, choices, 0));
            assert(choices.len() == old(self).rooms.len());
            return;
        }
        let mut i: usize = 1;
        while i < rooms.len()
            invariant
                1 <= i <= rooms.len(),
                rooms@ == sort_by_center_x(old(self).rooms@),
                forall|k: int| 0 <= k < rooms.len() ==> room_in_range(#[trigger] rooms@[k]),
                self.map.wf(),
                choices.len() == i,
                self.map.tiles@ == corridors_upto(t0, rooms@, choices, i as int),
                self.map.revealed_tiles == old(self).map.revealed_tiles,
                self.rooms == old(self).rooms,
                self.monster_spawns == old(self).monster_spawns,
                self.player_start == old(self).player_start,
                self.amulet_start == old(self).amulet_start,
                self.theme == old(self).theme,
            decreases rooms.len() - i,
        {
            let prev = rooms[i - 1].center();
            let new = rooms[i].center();
            let horizontal_first = rng_range(rng, 0, 2) == 1;
            if horizontal_first {
                self.apply_horizonal_tunnel(prev.x, new.x, prev.y);
                self.apply_vertical_tunnel(prev.y, new.y, new.x);
            } else {
                self.apply_vertical_tunnel(prev.y, new.y, prev.x);
                self.apply_horizonal_tunnel(prev.x, new.x, new.y);
            }
            proof {
                let c2 = choices.push(horizontal_first);
                assert(corridors_upto(t0, rooms@, c2, i as int) == corridors_upto(t0, rooms@, choices, i as int)) by {
                    lemma_corridors_prefix(t0, rooms@, choices, c2, i as int);
                }
                choices = c2;
            }
            i = i + 1;
        }
        assert(choices.len() == old(self).rooms.len());
    }
}

/// Only the tunnel orders of the first `n` pairs decide the corridors up to `n`.
pub proof fn lemma_corridors_prefix(t: Seq<TileType>, rooms: Seq<Rect>, c1: Seq<bool>, c2: Seq<bool>, n: int)
    requires
        n <= c1.len(),
        n <= c2.len(),
        forall|k: int| 0 <= k < n ==> c1[k] == c2[k],
    ensures
        corridors_upto(t, rooms, c1, n) == corridors_upto(t, rooms, c2, n),
    decreases n,
{
    if n > 1 {
        lemma_corridors_prefix(t, rooms, c1, c2, n - 1);
    }
}


/// Tunnels only turn tiles into floor.
pub proof fn lemma_tunnels_only_gain_floor(t: Seq<TileType>, a1: int, a2: int, b: int)
    ensures
        only_gains_floor(t, vertical_tunnel(t, a1, a2, b)),
        only_gains_floor(t, horizontal_tunnel(t, a1, a2, b)),
{
}

/// Gaining floor composes: two steps that each only turn tiles into floor together do too.
pub proof fn lemma_only_gains_floor_trans(a: Seq<TileType>, b: Seq<TileType>, c: Seq<TileType>)
    requires
        only_gains_floor(a, b),
        only_gains_floor(b, c),
    ensures
        only_gains_floor(a, c),
{
    assert forall|i: int| 0 <= i < a.len() implies (#[trigger] c[i] == a[i] || c[i] == TileType::Floor) by {
        assert(b[i] == a[i] || b[i] == TileType::Floor);
        assert(c[i] == b[i] || c[i] == TileType::Floor);
    }
}

/// Digging corridors never fills in a tile: every tile stays as it was or becomes floor, so
/// the rooms carved before stay open.
pub proof fn lemma_corridors_only_gain_floor(t: Seq<TileType>, rooms: Seq<Rect>, choices: Seq<bool>, n: int)
    ensures
        only_gains_floor(t, corridors_upto(t, rooms, choices, n)),
    decreases n,
{
    if n > 1 {
        lemma_corridors_only_gain_floor(t, rooms, choices, n - 1);
        let prev = corridors_upto(t, rooms, choices, n - 1);
        let a = rooms[n - 2].spec_center();
        let b = rooms[n - 1].spec_center();
        let h = horizontal_tunnel(prev, a.x as int, b.x as int, a.y as int);
        let v = vertical_tunnel(prev, a.y as int, b.y as int, a.x as int);
        lemma_tunnels_only_gain_floor(prev, a.x as int, b.x as int, a.y as int);
        lemma_tunnels_only_gain_floor(prev, a.y as int, b.y as int, a.x as int);
        lemma_tunnels_only_gain_floor(h, a.y as int, b.y as int, b.x as int);
        lemma_tunnels_only_gain_floor(v, a.x as int, b.x as int, b.y as int);
        if choices[n - 1] {
            lemma_only_gains_floor_trans(prev, h, corridors_upto(t, rooms, choices, n));
        } else {
            lemma_only_gains_floor_trans(prev, v, corridors_upto(t, rooms, choices, n));
        }
        lemma_only_gains_floor_trans(t, prev, corridors_upto(t, rooms, choices, n));
    }
}

/// Whether the rooms are in order of their centers' x coordinate.
pub open spec fn sorted_by_center_x(s: Seq<Rect>) -> bool {
    forall|i: int, j: int| 0 <= i <= j < s.len() ==> center_x(#[trigger] s[i]) <= center_x(#[trigger] s[j])
}

/// Inserting into a sorted sequence keeps it sorted and adds exactly the new room.
pub proof fn lemma_insert_sorted(s: Seq<Rect>, r: Rect)
    requires
        sorted_by_center_x(s),
    ensures
        sorted_by_center_x(insert_by_center_x(s, r)),
        insert_by_center_x(s, r).to_multiset() == s.to_multiset().insert(r),
        insert_by_center_x(s, r).len() == s.len() + 1,
    decreases s.len(),
{
    broadcast use vstd::seq_lib::group_to_multiset_ensures;
    if s.len() == 0 {
        assert(seq![r] =~= s.push(r));
    } else if center_x(s.last()) <= center_x(r) {
    } else {
        let t = s.drop_last();
        assert(sorted_by_center_x(t)) by {
            assert forall|i: int, j: int| 0 <= i <= j < t.len() implies center_x(#[trigger] t[i]) <= center_x(#[trigger] t[j]) by {
                assert(t[i] == s[i] && t[j] == s[j]);
            }
        }
        lemma_insert_sorted(t, r);
        let u = insert_by_center_x(t, r);
        assert(s =~= t.push(s.last()));
        assert forall|i: int, j: int| 0 <= i <= j < u.push(s.last()).len() implies
            center_x(#[trigger] u.push(s.last())[i]) <= center_x(#[trigger] u.push(s.last())[j]) by {
            if j == u.len() {
                if i < u.len() {
                    let x = u[i];
                    assert(u.to_multiset().count(x) > 0) by {
                        vstd::seq_lib::lemma_seq_contains_after_push(u, s.last(), x);
                        assert(u.contains(x));
                    }
                    assert(t.to_multiset().insert(r).count(x) > 0);
                    if x != r {
                        assert(t.to_multiset().count(x) > 0);
                        assert(t.contains(x));
                        let k = choose|k: int| 0 <= k < t.len() && t[k] == x;
                        assert(s[k] == x);
                    }
                }
            }
        }
    }
}

/// Sorting by center x orders the rooms and keeps exactly the same rooms.
pub proof fn lemma_sort_by_center_x(s: Seq<Rect>)
    ensures
        sorted_by_center_x(sort_by_center_x(s)),
        sort_by_center_x(s).to_multiset() == s.to_multiset(),
        sort_by_center_x(s).len() == s.len(),
    decreases s.len(),
{
    broadcast use vstd::seq_lib::group_to_multiset_ensures;
    if s.len() > 0 {
        lemma_sort_by_center_x(s.drop_last());
        lemma_insert_sorted(sort_by_center_x(s.drop_last()), s.last());
        assert(s =~= s.drop_last().push(s.last()));
    }
}

} // verus!
