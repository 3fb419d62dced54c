//! Cavern levels dug by random walkers.

use vstd::prelude::*;
use bracket_lib::prelude::RandomNumberGenerator;
use crate::geometry::Point;
use crate::map::{lemma_index_point_roundtrip, spec_map_idx, DungeonMap, TileType};
use crate::map_builder::{lemma_tile_point_unique, on_map, only_gains_floor, tile_point, MapBuilder};
use crate::map_builder::automata::interior;
use crate::random::{random_slice_index, rng_range};
use crate::{NUM_TILES, SCREEN_HEIGHT, SCREEN_WIDTH};

verus! {

/// Builds cavern levels by sending random walkers through solid rock.
pub struct DrunkardsWalkArchitect {}

/// How many steps a walker takes at most.
pub const STAGGER_DISTANCE: usize = 400;

/// The number of floor tiles at which digging stops: a third of the map.
pub const DESIRED_FLOOR_COUNT: usize = 1333;

/// Whether `after` differs from `before` only by tiles inside the map's edge that became floor.
pub open spec fn dug_inside(before: Seq<TileType>, after: Seq<TileType>) -> bool {
    &&& after.len() == before.len()
    &&& forall|i: int| 0 <= i < before.len() ==> #[trigger] after[i] == before[i]
        || (after[i] == TileType::Floor && interior(tile_point(i)))
}

/// Whether a distance-map entry marks a tile cut off from the start: unreachable, or farther
/// than 2000 steps.
pub open spec fn cut_off(d: Option<u32>) -> bool {
    match d {
        None => true,
        Some(v) => v > 2000,
    }
}

/// The tiles with every tile cut off from the start turned into wall.
pub open spec fn wall_off_spec(t: Seq<TileType>, d: Seq<Option<u32>>) -> Seq<TileType> {
    Seq::new(t.len(), |i: int| if cut_off(d[i]) { TileType::Wall } else { t[i] })
}

/// Whether a distance-map entry marks a tile a chained walker may start from: reachable in
/// fewer than 1024 steps.
pub open spec fn chain_start(d: Option<u32>) -> bool {
    match d {
        None => false,
        Some(v) => v < 1024,
    }
}

/// Digging inside the edge twice is digging inside the edge.
pub proof fn lemma_dug_inside_trans(a: Seq<TileType>, b: Seq<TileType>, c: Seq<TileType>)
    requires
        dug_inside(a, b),
        dug_inside(b, c),
    ensures
        dug_inside(a, c),
{
    assert forall|i: int| 0 <= i < a.len() implies #[trigger] c[i] == a[i]
        || (c[i] == TileType::Floor && interior(tile_point(i))) by {
        assert(b[i] == a[i] || (b[i] == TileType::Floor && interior(tile_point(i))));
        assert(c[i] == b[i] || (c[i] == TileType::Floor && interior(tile_point(i))));
    }
}

/// Where a walker at `p` goes on the roll `r`: 0 west, 1 east, 2 north, any other south.
pub open spec fn step_pos(p: Point, r: i32) -> Point {
    if r == 0 {
        Point { x: (p.x - 1) as i32, y: p.y }
    } else if r == 1 {
        Point { x: (p.x + 1) as i32, y: p.y }
    } else if r == 2 {
        Point { x: p.x, y: (p.y - 1) as i32 }
    } else {
        Point { x: p.x, y: (p.y + 1) as i32 }
    }
}

/// Where a walker from `start` stands after its first `k` rolls.
pub open spec fn walk_pos(start: Point, rolls: Seq<i32>, k: nat) -> Point
    decreases k,
{
    if k == 0 {
        start
    } else {
        step_pos(walk_pos(start, rolls, (k - 1) as nat), rolls[k - 1])
    }
}

/// How many positions, counted from the `k`-th, a walker over `rolls` digs before it stops:
/// it stops on leaving the map's inner area, after `STAGGER_DISTANCE + 1` tiles, or when the
/// rolls run out. The result is the index of the first position it does not dig.
pub open spec fn dug_count_from(start: Point, rolls: Seq<i32>, k: nat) -> nat
    decreases 401 - k,
{
    if k >= 401 || k >= rolls.len() || !DungeonMap::spec_within_borders(walk_pos(start, rolls, k)) {
        k
    } else {
        dug_count_from(start, rolls, k + 1)
    }
}

/// How many tiles a walker from `start` over `rolls` digs.
pub open spec fn walk_count(start: Point, rolls: Seq<i32>) -> nat {
    dug_count_from(start, rolls, 0)
}

/// Whether the walker stands on `p` at one of its first `n` positions.
pub open spec fn walk_covers(start: Point, rolls: Seq<i32>, n: nat, p: Point) -> bool {
    exists|k: nat| k < n && #[trigger] walk_pos(start, rolls, k) == p
}

/// The tiles after a walker has dug its first `n` positions.
pub open spec fn walk_dig(t: Seq<TileType>, start: Point, rolls: Seq<i32>, n: nat) -> Seq<TileType> {
    Seq::new(t.len(), |i: int| if walk_covers(start, rolls, n, tile_point(i)) { TileType::Floor } else { t[i] })
}

/// Whether `rolls` is a whole walk from `start`, as the dice give it: every roll a direction
/// in `0 .. 4`, one roll per dug tile, and the walk ended by the edge or by its length.
pub open spec fn full_walk(start: Point, rolls: Seq<i32>) -> bool {
    &&& forall|k: int| 0 <= k < rolls.len() ==> 0 <= #[trigger] rolls[k] < 4
    &&& walk_count(start, rolls) == rolls.len()
    &&& (rolls.len() == STAGGER_DISTANCE + 1 || !DungeonMap::spec_within_borders(walk_pos(start, rolls, rolls.len())))
}

/// Whether `after` is `before` with one whole walk from `start` dug into it.
pub open spec fn dug_by_walk(before: Seq<TileType>, after: Seq<TileType>, start: Point) -> bool {
    exists|rolls: Seq<i32>| full_walk(start, rolls) && after == walk_dig(before, start, rolls, rolls.len())
}

/// Whether `p` is a point a random walker may start from: `1 .. SCREEN_WIDTH` by
/// `1 .. SCREEN_HEIGHT`.
pub open spec fn random_start(p: Point) -> bool {
    1 <= p.x < SCREEN_WIDTH && 1 <= p.y < SCREEN_HEIGHT
}

/// Each step of a walk moves to one of the four tiles next to the last: the tiles a walker
/// digs form a path.
pub proof fn lemma_walk_adjacent(start: Point, rolls: Seq<i32>, k: nat)
    requires
        k < rolls.len(),
        DungeonMap::spec_within_borders(walk_pos(start, rolls, k)),
    ensures
        neighbours(walk_pos(start, rolls, k), walk_pos(start, rolls, k + 1)),
{
}

/// The positions up to `k` depend only on the first `k` rolls.
proof fn lemma_walk_pos_prefix(start: Point, s: Seq<i32>, t: Seq<i32>, k: nat)
    requires
        k <= s.len(),
        s.len() <= t.len(),
        forall|j: int| 0 <= j < s.len() ==> s[j] == t[j],
    ensures
        walk_pos(start, s, k) == walk_pos(start, t, k),
    decreases k,
{
    if k > 0 {
        lemma_walk_pos_prefix(start, s, t, (k - 1) as nat);
    }
}

/// A walk that was not stopped before position `n`, and stops there, digs `n` tiles.
proof fn lemma_count_from(start: Point, rolls: Seq<i32>, k: nat)
    requires
        k <= rolls.len() <= 401,
        forall|j: nat| k <= j < rolls.len() ==> DungeonMap::spec_within_borders(#[trigger] walk_pos(start, rolls, j)),
    ensures
        dug_count_from(start, rolls, k) == rolls.len(),
    decreases rolls.len() - k,
{
    if k < rolls.len() {
        assert(DungeonMap::spec_within_borders(walk_pos(start, rolls, k)));
        lemma_count_from(start, rolls, k + 1);
    }
}

/// Whether `a` and `b` are next to each other along a row or a column.
pub open spec fn neighbours(a: Point, b: Point) -> bool {
    (a.x == b.x && (a.y - b.y == 1 || b.y - a.y == 1)) || (a.y == b.y && (a.x - b.x == 1 || b.x - a.x == 1))
}

/// Whether `p` is a floor tile of `tiles`.
pub open spec fn floor_at(tiles: Seq<TileType>, p: Point) -> bool {
    on_map(p) && tiles[spec_map_idx(p.x as int, p.y as int)] == TileType::Floor
}

/// Whether `path` starts at `from` and steps from floor tile to neighbouring floor tile.
pub open spec fn floor_path(tiles: Seq<TileType>, path: Seq<Point>, from: Point) -> bool {
    &&& path.len() > 0
    &&& path[0] == from
    &&& forall|k: int| 0 <= k < path.len() ==> floor_at(tiles, #[trigger] path[k])
    &&& forall|k: int| 0 <= k < path.len() - 1 ==> neighbours(#[trigger] path[k], path[k + 1])
}

/// Whether one can walk from `from` to `to` over floor tiles.
pub open spec fn connected(tiles: Seq<TileType>, from: Point, to: Point) -> bool {
    exists|path: Seq<Point>| floor_path(tiles, path, from) && path.last() == to
}

/// Whether every floor tile can be reached from `center` over floor tiles.
pub open spec fn floors_connected(tiles: Seq<TileType>, center: Point) -> bool {
    forall|i: int| 0 <= i < tiles.len() && #[trigger] tiles[i] == TileType::Floor
        ==> connected(tiles, center, tile_point(i))
}

/// Whether each entry of a distance map from `center` is right about its steps: a tile at
/// distance 0 is `center`, and a tile at distance `v > 0` has a neighbour at distance `v - 1`.
pub open spec fn distance_steps(center: Point, d: Seq<Option<u32>>) -> bool {
    forall|i: int| 0 <= i < d.len() && #[trigger] d[i] is Some ==> {
        &&& d[i]->0 == 0 ==> tile_point(i) == center
        &&& d[i]->0 > 0 ==> exists|j: int| 0 <= j < d.len() && neighbours(tile_point(j), tile_point(i))
            && d[j] == Some((d[i]->0 - 1) as u32)
    }
}

/// Whether `d` is a distance map of `tiles` from `center`, as a breadth-first search over
/// floor tiles gives one: one entry per tile, distances only on floor, and each distance
/// right about its steps.
pub open spec fn distance_map_of(tiles: Seq<TileType>, center: Point, d: Seq<Option<u32>>) -> bool {
    &&& d.len() == tiles.len()
    &&& distance_steps(center, d)
    &&& forall|i: int| 0 <= i < d.len() && #[trigger] d[i] is Some ==> tiles[i] == TileType::Floor
}

/// Paths over floor stay paths when tiles only turn into floor.
pub proof fn lemma_connected_gain_floor(a: Seq<TileType>, b: Seq<TileType>, from: Point, to: Point)
    requires
        a.len() == NUM_TILES,
        only_gains_floor(a, b),
        connected(a, from, to),
    ensures
        connected(b, from, to),
{
    let path = choose|path: Seq<Point>| floor_path(a, path, from) && path.last() == to;
    assert forall|k: int| 0 <= k < path.len() implies floor_at(b, #[trigger] path[k]) by {
        let q = path[k];
        assert(floor_at(a, q));
        lemma_index_point_roundtrip(q);
    }
    assert(floor_path(b, path, from));
}

/// A floor tile is reachable from itself.
pub proof fn lemma_connected_self(tiles: Seq<TileType>, p: Point)
    requires
        floor_at(tiles, p),
    ensures
        connected(tiles, p, p),
{
    let path = seq![p];
    assert(path[0] == p && path.last() == p);
    assert(floor_path(tiles, path, p));
}

/// Every position a walker digs before it stops lies inside the map's edge, with its roll.
proof fn lemma_dug_within(start: Point, rolls: Seq<i32>, m: nat, j: nat)
    requires
        m <= j < dug_count_from(start, rolls, m),
    ensures
        DungeonMap::spec_within_borders(walk_pos(start, rolls, j)),
        j < rolls.len(),
    decreases j - m,
{
    if j > m {
        lemma_dug_within(start, rolls, m + 1, j);
    }
}

/// Each tile a walker digs is linked back to its start over floor, so reaches what its
/// start reaches.
proof fn lemma_walk_connected(t: Seq<TileType>, center: Point, start: Point, rolls: Seq<i32>, n: nat, k: nat)
    requires
        t.len() == NUM_TILES,
        n <= walk_count(start, rolls),
        k < n,
        connected(walk_dig(t, start, rolls, n), center, start),
    ensures
        connected(walk_dig(t, start, rolls, n), center, walk_pos(start, rolls, k)),
    decreases k,
{
    if k > 0 {
        let u = walk_dig(t, start, rolls, n);
        lemma_walk_connected(t, center, start, rolls, n, (k - 1) as nat);
        let prev = walk_pos(start, rolls, (k - 1) as nat);
        let path = choose|path: Seq<Point>| floor_path(u, path, center) && path.last() == prev;
        lemma_dug_within(start, rolls, 0, (k - 1) as nat);
        lemma_dug_within(start, rolls, 0, k);
        lemma_walk_adjacent(start, rolls, (k - 1) as nat);
        let p = walk_pos(start, rolls, k);
        lemma_index_point_roundtrip(p);
        let i = spec_map_idx(p.x as int, p.y as int);
        assert(tile_point(i) == p);
        assert(walk_covers(start, rolls, n, p));
        assert(u[i] == TileType::Floor);
        let np = path.push(p);
        assert forall|m: int| 0 <= m < np.len() implies floor_at(u, #[trigger] np[m]) by {
            if m < path.len() {
                assert(np[m] == path[m]);
            }
        }
        assert forall|m: int| 0 <= m < np.len() - 1 implies neighbours(#[trigger] np[m], np[m + 1]) by {
            if m < path.len() - 1 {
                assert(np[m] == path[m] && np[m + 1] == path[m + 1]);
            } else {
                assert(np[m] == prev && np[m + 1] == p);
            }
        }
        assert(floor_path(u, np, center));
        assert(np.last() == p);
    }
}

/// A walk whose start is reachable from `center` keeps every floor tile reachable from it:
/// walkers that start on reachable ground leave the level navigable.
pub proof fn lemma_walk_keeps_floors_connected(t: Seq<TileType>, center: Point, start: Point, rolls: Seq<i32>, n: nat)
    requires
        t.len() == NUM_TILES,
        n <= walk_count(start, rolls),
        floors_connected(t, center),
        n > 0 ==> connected(walk_dig(t, start, rolls, n), center, start),
    ensures
        floors_connected(walk_dig(t, start, rolls, n), center),
{
    let u = walk_dig(t, start, rolls, n);
    assert(only_gains_floor(t, u));
    assert forall|i: int| 0 <= i < u.len() && #[trigger] u[i] == TileType::Floor
        implies connected(u, center, tile_point(i)) by {
        if walk_covers(start, rolls, n, tile_point(i)) {
            let k = choose|k: nat| k < n && #[trigger] walk_pos(start, rolls, k) == tile_point(i);
            lemma_walk_connected(t, center, start, rolls, n, k);
        } else {
            assert(t[i] == TileType::Floor);
            lemma_connected_gain_floor(t, u, center, tile_point(i));
        }
    }
}

/// A tile at distance `v` on a distance map is reachable from its center over tiles that are
/// floor wherever the distance is at most `v`.
pub proof fn lemma_distance_connected(u: Seq<TileType>, center: Point, d: Seq<Option<u32>>, v: u32, i: int)
    requires
        u.len() == NUM_TILES,
        d.len() == NUM_TILES,
        distance_steps(center, d),
        forall|j: int| 0 <= j < NUM_TILES && #[trigger] d[j] is Some && d[j]->0 <= v ==> u[j] == TileType::Floor,
        0 <= i < NUM_TILES,
        d[i] == Some(v),
    ensures
        connected(u, center, tile_point(i)),
    decreases v,
{
    let p = tile_point(i);
    lemma_tile_point_unique(i, p);
    assert(d[i] is Some);
    assert(u[i] == TileType::Floor);
    assert(floor_at(u, p));
    if v == 0 {
        assert(p == center);
        let path = seq![p];
        assert(path[0] == p && path.last() == p);
        assert(floor_path(u, path, center));
    } else {
        let j = choose|j: int| 0 <= j < d.len() && neighbours(tile_point(j), tile_point(i))
            && d[j] == Some((v - 1) as u32);
        lemma_distance_connected(u, center, d, (v - 1) as u32, j);
        let q = tile_point(j);
        let path = choose|path: Seq<Point>| floor_path(u, path, center) && path.last() == q;
        let np = path.push(p);
        assert forall|m: int| 0 <= m < np.len() implies floor_at(u, #[trigger] np[m]) by {
            if m < path.len() {
                assert(np[m] == path[m]);
            }
        }
        assert forall|m: int| 0 <= m < np.len() - 1 implies neighbours(#[trigger] np[m], np[m + 1]) by {
            if m < path.len() - 1 {
                assert(np[m] == path[m] && np[m + 1] == path[m + 1]);
            } else {
                assert(np[m] == q && np[m + 1] == p);
            }
        }
        assert(floor_path(u, np, center));
        assert(np.last() == p);
    }
}

/// Walling off the tiles that a distance map from `center` shows cut off leaves every floor
/// tile reachable from `center`.
pub proof fn lemma_wall_off_connects(t: Seq<TileType>, center: Point, d: Seq<Option<u32>>)
    requires
        t.len() == NUM_TILES,
        distance_map_of(t, center, d),
    ensures
        floors_connected(wall_off_spec(t, d), center),
{
    let u = wall_off_spec(t, d);
    assert forall|i: int| 0 <= i < u.len() && #[trigger] u[i] == TileType::Floor
        implies connected(u, center, tile_point(i)) by {
        assert(!cut_off(d[i]));
        let v = d[i]->0;
        assert forall|j: int| 0 <= j < NUM_TILES && #[trigger] d[j] is Some && d[j]->0 <= v
            implies u[j] == TileType::Floor by {
            assert(!cut_off(d[j]));
        }
        lemma_distance_connected(u, center, d, v, i);
    }
}

/// One step of a walker, on a tile inside the map's edge.
fn step_from(p: Point, r: i32) -> (q: Point)
    requires
        DungeonMap::spec_within_borders(p),
    ensures
        q == step_pos(p, r),
{
    match r {
        0 => Point::new(p.x - 1, p.y),
        1 => Point::new(p.x + 1, p.y),
        2 => Point::new(p.x, p.y - 1),
        _ => Point::new(p.x, p.y + 1),
    }
}

impl DrunkardsWalkArchitect {
    /// Walks from `start` over the given rolls (0 west, 1 east, 2 north, any other south),
    /// turning every tile it stands on into floor, until it leaves the map's inner area, has
    /// dug `STAGGER_DISTANCE + 1` tiles, or has no roll left.
    pub fn drunkard_with(&mut self, start: &Point, rolls: &Vec<i32>, map: &mut DungeonMap)
        requires
            old(map).wf(),
        ensures
            final(map).wf(),
            final(map).tiles@ == walk_dig(old(map).tiles@, *start, rolls@, walk_count(*start, rolls@)),
            dug_inside(old(map).tiles@, final(map).tiles@),
            walk_count(*start, rolls@) > 0 ==> final(map).tile_at(*start) == TileType::Floor,
            walk_count(*start, rolls@) == 0 ==> final(map).tiles@ == old(map).tiles@,
            final(map).revealed_tiles == old(map).revealed_tiles,
    {
        let ghost t0 = map.tiles@;
        let ghost rs = rolls@;
        let mut pos = *start;
        let mut k: usize = 0;
        assert(map.tiles@ =~= walk_dig(t0, *start, rs, 0));
        loop
            invariant
                map.wf(),
                t0 == old(map).tiles@,
                rs == rolls@,
                k <= rolls.len(),
                k <= 401,
                pos == walk_pos(*start, rs, k as nat),
                walk_count(*start, rs) == dug_count_from(*start, rs, k as nat),
                forall|j: nat| j < k ==> DungeonMap::spec_within_borders(#[trigger] walk_pos(*start, rs, j)),
                map.tiles@ == walk_dig(t0, *start, rs, k as nat),
                dug_inside(t0, map.tiles@),
                map.revealed_tiles == old(map).revealed_tiles,
            ensures
                k == walk_count(*start, rs),
                map.tiles@ == walk_dig(t0, *start, rs, k as nat),
            decreases 401 - k,
        {
            if k >= rolls.len() || k > STAGGER_DISTANCE || !map.within_borders(pos) {
                break;
            }
            let idx = map.point2d_to_index(pos);
            let ghost prev = map.tiles@;
            map.tiles.set(idx, TileType::Floor);
            proof {
                lemma_index_point_roundtrip(pos);
                assert forall|i: int| 0 <= i < NUM_TILES implies #[trigger] map.tiles@[i]
                    == walk_dig(t0, *start, rs, (k + 1) as nat)[i] by {
                    let q = tile_point(i);
                    if i == idx {
                        assert(walk_pos(*start, rs, k as nat) == q);
                        assert(walk_covers(*start, rs, (k + 1) as nat, q));
                    } else {
                        if q == pos {
                            lemma_tile_point_unique(i, q);
                        }
                        if walk_covers(*start, rs, (k + 1) as nat, q) {
                            let j = choose|j: nat| j < k + 1 && #[trigger] walk_pos(*start, rs, j) == q;
                            assert(j < k);
                            assert(walk_covers(*start, rs, k as nat, q));
                        }
                        if walk_covers(*start, rs, k as nat, q) {
                            let j = choose|j: nat| j < k && #[trigger] walk_pos(*start, rs, j) == q;
                            assert(walk_covers(*start, rs, (k + 1) as nat, q));
                        }
                        assert(map.tiles@[i] == prev[i]);
                    }
                }
                assert(map.tiles@ =~= walk_dig(t0, *start, rs, (k + 1) as nat));
                assert forall|i: int| 0 <= i < t0.len() implies #[trigger] map.tiles@[i] == t0[i]
                    || (map.tiles@[i] == TileType::Floor && interior(tile_point(i))) by {
                    if i == idx {
                        assert(tile_point(i) == pos);
                    } else {
                        assert(map.tiles@[i] == prev[i]);
                    }
                }
            }
            pos = step_from(pos, rolls[k]);
            k = k + 1;
        }
        proof {
            if k > 0 {
                assert(walk_pos(*start, rs, 0) == *start);
                assert(walk_covers(*start, rs, k as nat, *start));
                lemma_index_point_roundtrip(*start);
            } else {
                assert(map.tiles@ =~= t0);
            }
        }
    }

    /// Walks at random from `start`, turning every tile it stands on into floor, until it
    /// leaves the map's inner area or has dug `STAGGER_DISTANCE + 1` tiles; one die of four
    /// faces is rolled for each tile dug.
    pub fn drunkard(&mut self, start: &Point, rng: &mut RandomNumberGenerator, map: &mut DungeonMap)
        requires
            old(map).wf(),
        ensures
            final(map).wf(),
            exists|rolls: Seq<i32>| full_walk(*start, rolls)
                && final(map).tiles@ == walk_dig(old(map).tiles@, *start, rolls, rolls.len()),
            dug_inside(old(map).tiles@, final(map).tiles@),
            DungeonMap::spec_within_borders(*start) ==> final(map).tile_at(*start) == TileType::Floor,
            !DungeonMap::spec_within_borders(*start) ==> final(map).tiles@ == old(map).tiles@,
            final(map).revealed_tiles == old(map).revealed_tiles,
    {
        let mut rolls: Vec<i32> = Vec::new();
        let mut pos = *start;
        loop
            invariant_except_break
                rolls.len() <= STAGGER_DISTANCE,
            invariant
                rolls.len() <= STAGGER_DISTANCE + 1,
                pos == walk_pos(*start, rolls@, rolls.len() as nat),
                forall|k: int| 0 <= k < rolls.len() ==> 0 <= #[trigger] rolls@[k] < 4,
                forall|j: nat| j < rolls.len() ==> DungeonMap::spec_within_borders(#[trigger] walk_pos(*start, rolls@, j)),
            ensures
                rolls.len() == STAGGER_DISTANCE + 1 || !DungeonMap::spec_within_borders(pos),
            decreases STAGGER_DISTANCE + 1 - rolls.len(),
        {
            if !map.within_borders(pos) {
                break;
            }
            let r = rng_range(rng, 0, 4);
            let ghost before = rolls@;
            rolls.push(r);
            proof {
                assert forall|j: nat| j <= before.len() implies #[trigger] walk_pos(*start, rolls@, j)
                    == walk_pos(*start, before, j) by {
                    lemma_walk_pos_prefix(*start, before, rolls@, j);
                }
                assert(walk_pos(*start, rolls@, before.len()) == pos);
                assert(rolls@[before.len() as int] == r);
                assert(walk_pos(*start, rolls@, (before.len() + 1) as nat)
                    == step_pos(walk_pos(*start, rolls@, before.len()), rolls@[before.len() as int]));
            }
            pos = step_from(pos, r);
            if rolls.len() > STAGGER_DISTANCE {
                break;
            }
        }
        proof {
            lemma_count_from(*start, rolls@, 0);
        }
        self.drunkard_with(start, &rolls, map);
        assert(full_walk(*start, rolls@));
        assert(map.tiles@ == walk_dig(old(map).tiles@, *start, rolls@, rolls@.len()));
    }
}


impl DrunkardsWalkArchitect {
    /// Turns into wall every tile that the distance map shows cut off from the start.
    pub fn wall_off_unreachable(&mut self, map: &mut DungeonMap, distances: &Vec<Option<u32>>)
        requires
            old(map).wf(),
            distances.len() == NUM_TILES,
        ensures
            final(map).wf(),
            final(map).tiles@ == wall_off_spec(old(map).tiles@, distances@),
            final(map).revealed_tiles == old(map).revealed_tiles,
    {
        let ghost t0 = map.tiles@;
        let mut i: usize = 0;
        while i < distances.len()
            invariant
                map.wf(),
                distances.len() == NUM_TILES,
                i <= NUM_TILES,
                t0 == old(map).tiles@,
                forall|j: int| 0 <= j < NUM_TILES ==> #[trigger] map.tiles@[j] == if j < i && cut_off(distances@[j]) {
                    TileType::Wall } else { t0[j] },
                map.revealed_tiles == old(map).revealed_tiles,
            decreases NUM_TILES - i,
        {
            let far = match distances[i] {
                None => true,
                Some(v) => v > 2000,
            };
            if far {
                map.tiles.set(i, TileType::Wall);
            }
            i = i + 1;
        }
        assert(map.tiles@ =~= wall_off_spec(t0, distances@));
    }

    /// One round of random digging, resumed with the distance map from `center` computed after
    /// the last walk: walls off what the last walk left cut off, then, while less than
    /// `DESIRED_FLOOR_COUNT` tiles are floor, sends a walker from a random point inside the
    /// map. Returns whether a walker went out, so that a new distance map is needed.
    pub fn perform_random_drunkards(&mut self, center: &Point, rng: &mut RandomNumberGenerator,
        mb: &mut MapBuilder, distances: &Vec<Option<u32>>) -> (walked: bool)
        requires
            old(mb).map.wf(),
            distances.len() == NUM_TILES,
        ensures
            final(mb).map.wf(),
            walked == (DungeonMap::floor_count_upto(wall_off_spec(old(mb).map.tiles@, distances@), NUM_TILES as int)
                < DESIRED_FLOOR_COUNT),
            !walked ==> final(mb).map.tiles@ == wall_off_spec(old(mb).map.tiles@, distances@),
            walked ==> dug_inside(wall_off_spec(old(mb).map.tiles@, distances@), final(mb).map.tiles@),
            walked ==> exists|p: Point| random_start(p)
                && dug_by_walk(wall_off_spec(old(mb).map.tiles@, distances@), final(mb).map.tiles@, p),
            distance_map_of(old(mb).map.tiles@, *center, distances@)
                ==> floors_connected(wall_off_spec(old(mb).map.tiles@, distances@), *center),
            final(mb).map.revealed_tiles == old(mb).map.revealed_tiles,
            final(mb).rooms == old(mb).rooms,
            final(mb).monster_spawns == old(mb).monster_spawns,
            final(mb).player_start == old(mb).player_start,
            final(mb).amulet_start == old(mb).amulet_start,
            final(mb).theme == old(mb).theme,
    {
        proof {
            if distance_map_of(mb.map.tiles@, *center, distances@) {
                lemma_wall_off_connects(mb.map.tiles@, *center, distances@);
            }
        }
        self.wall_off_unreachable(&mut mb.map, distances);
        if mb.map.floor_count() < DESIRED_FLOOR_COUNT {
            let random_point = Point::new(rng_range(rng, 1, SCREEN_WIDTH), rng_range(rng, 1, SCREEN_HEIGHT));
            let ghost walled = mb.map.tiles@;
            self.drunkard(&random_point, rng, &mut mb.map);
            assert(random_start(random_point) && dug_by_walk(walled, mb.map.tiles@, random_point));
            true
        } else {
            false
        }
    }

    /// One round of chained digging, resumed with the distance map from `center`: sends a
    /// walker from a random tile reachable in fewer than 1024 steps. Returns `None`, with the
    /// map unchanged, when no tile is; otherwise whether the map still has fewer than
    /// `DESIRED_FLOOR_COUNT` floor tiles, so that another round is needed.
    pub fn perform_chained_drunkards(&mut self, center: &Point, rng: &mut RandomNumberGenerator,
        mb: &mut MapBuilder, distances: &Vec<Option<u32>>) -> (more: Option<bool>)
        requires
            old(mb).map.wf(),
            distances.len() == NUM_TILES,
        ensures
            final(mb).map.wf(),
            more is None <==> forall|i: int| 0 <= i < NUM_TILES ==> !chain_start(#[trigger] distances@[i]),
            more is None ==> final(mb).map.tiles == old(mb).map.tiles,
            more is Some ==> dug_inside(old(mb).map.tiles@, final(mb).map.tiles@),
            more is Some ==> exists|i: int| 0 <= i < NUM_TILES && chain_start(#[trigger] distances@[i])
                && (interior(tile_point(i)) ==> final(mb).map.tiles@[i] == TileType::Floor),
            more matches Some(m) ==> m == (final(mb).map.spec_floor_count() < DESIRED_FLOOR_COUNT),
            more is Some ==> exists|i: int| 0 <= i < NUM_TILES && #[trigger] chain_start(distances@[i])
                && dug_by_walk(old(mb).map.tiles@, final(mb).map.tiles@, tile_point(i)),
            more is Some && distance_map_of(old(mb).map.tiles@, *center, distances@)
                && floors_connected(old(mb).map.tiles@, *center) ==> floors_connected(final(mb).map.tiles@, *center),
            final(mb).map.revealed_tiles == old(mb).map.revealed_tiles,
            final(mb).rooms == old(mb).rooms,
            final(mb).monster_spawns == old(mb).monster_spawns,
            final(mb).player_start == old(mb).player_start,
            final(mb).amulet_start == old(mb).amulet_start,
            final(mb).theme == old(mb).theme,
    {
        let mut valid_tiles: Vec<usize> = Vec::new();
        let mut i: usize = 0;
        while i < distances.len()
            invariant
                distances.len() == NUM_TILES,
                i <= NUM_TILES,
                valid_tiles.len() <= i,
                forall|k: int| 0 <= k < valid_tiles.len() ==> #[trigger] valid_tiles@[k] < NUM_TILES
                    && chain_start(distances@[valid_tiles@[k] as int]),
                valid_tiles.len() == 0 <==> forall|j: int| 0 <= j < i ==> !chain_start(#[trigger] distances@[j]),
            decreases NUM_TILES - i,
        {
            let valid = match distances[i] {
                None => false,
                Some(v) => v < 1024,
            };
            if valid {
                valid_tiles.push(i);
            }
            i = i + 1;
        }
        match random_slice_index(rng, &valid_tiles) {
            None => None,
            Some(slice_idx) => {
                let map_idx = valid_tiles[slice_idx];
                let start = mb.map.index_to_point2d(map_idx);
                let ghost t0 = mb.map.tiles@;
                self.drunkard(&start, rng, &mut mb.map);
                proof {
                    lemma_index_point_roundtrip(start);
                    assert(chain_start(distances@[map_idx as int]));
                    assert(dug_by_walk(t0, mb.map.tiles@, tile_point(map_idx as int)));
                    if distance_map_of(t0, *center, distances@) && floors_connected(t0, *center) {
                        let d = distances@;
                        let v = d[map_idx as int]->0;
                        assert forall|j: int| 0 <= j < NUM_TILES && #[trigger] d[j] is Some && d[j]->0 <= v
                            implies t0[j] == TileType::Floor by {}
                        lemma_distance_connected(t0, *center, d, v, map_idx as int);
                        let rolls = choose|rolls: Seq<i32>| full_walk(start, rolls)
                            && mb.map.tiles@ == walk_dig(t0, start, rolls, rolls.len());
                        assert(only_gains_floor(t0, mb.map.tiles@));
                        lemma_connected_gain_floor(t0, mb.map.tiles@, *center, start);
                        lemma_walk_keeps_floors_connected(t0, *center, start, rolls, rolls.len());
                    }
                }
                Some(mb.map.floor_count() < DESIRED_FLOOR_COUNT)
            },
        }
    }
}

} // verus!
