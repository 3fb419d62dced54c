//! The generation of a level as a process that stops whenever it needs a distance map,
//! which the caller computes and hands back.

use vstd::prelude::*;
use bracket_lib::prelude::RandomNumberGenerator;
use crate::geometry::{Point, Rect};
use crate::map::{lemma_index_point_roundtrip, DungeonMap, TileType};
use crate::map_builder::{
    corridors_upto, drawable_room, is_most_distant, on_map, room_in_range, rooms_valid,
    sort_by_center_x, spawnable, spawnable_upto, tile_point, MapBuilder, ThemeKind, NUM_MONSTERS,
    NUM_ROOMS, carve_room, rooms_carved, lemma_rooms_carved_gain_floor,
    lemma_corridors_only_gain_floor,
};
use crate::map_builder::automata::{
    enclose_spec, is_closest_floor, iterate_times, map_center, CellularAutomataArchitect,
};
use crate::map_builder::drunkard::{
    chain_start, distance_map_of, dug_inside, floors_connected, full_walk,
    lemma_connected_self, lemma_walk_keeps_floors_connected, walk_dig, wall_off_spec,
    dug_by_walk, random_start,
    DrunkardsWalkArchitect, DESIRED_FLOOR_COUNT,
};
use crate::map_builder::empty::EmptyArchitect;
use crate::map_builder::rooms::RoomsArchitect;
use crate::random::rng_range;
use crate::NUM_TILES;

verus! {

/// Where the generation of a level stands.
#[derive(Clone, Copy, Debug, PartialEq, Eq, Structural)]
pub enum GenPhase {
    /// Rooms are still being placed; each step makes one attempt.
    PlacingRooms,
    /// Random walkers are digging; the next step needs the distance map from the center.
    RandomDrunkards,
    /// Chained walkers are digging; the next step needs the distance map from the center.
    ChainedDrunkards,
    /// The map is dug; the next step needs the distance map from the player's start.
    Amulet,
    /// The level is complete.
    Done,
    /// Generation cannot go on: no floor to start on, or nothing reachable.
    Failed,
}

/// What the generation needs before its next step.
#[derive(Clone, Copy, Debug, PartialEq, Eq, Structural)]
pub enum GenRequest {
    /// Call `advance` again; no distance map is needed.
    Step,
    /// Call `advance` with the distance map from this point.
    DistancesFrom(Point),
    /// The level is complete.
    Done,
    /// Generation failed.
    Failed,
}

/// A level under construction together with the stage it has reached.
pub struct MapGen {
    pub builder: MapBuilder,
    pub phase: GenPhase,
}

/// Whether every point of `s` is on the map.
pub open spec fn all_on_map(s: Seq<Point>) -> bool {
    forall|k: int| 0 <= k < s.len() ==> on_map(#[trigger] s[k])
}

/// The centers of all rooms but the first, in order.
pub open spec fn spawn_centers(rooms: Seq<Rect>) -> Seq<Point> {
    if rooms.len() == 0 {
        Seq::empty()
    } else {
        rooms.subrange(1, rooms.len() as int).map_values(|r: Rect| r.spec_center())
    }
}

/// Whether `spawns` is a valid draw of monster spawns on `map` around `start`.
pub open spec fn valid_spawn_draw(map: &DungeonMap, start: Point, spawns: Seq<Point>) -> bool {
    &&& spawns.no_duplicates()
    &&& forall|k: int| 0 <= k < spawns.len() ==> spawnable(map, start, #[trigger] spawns[k])
    &&& spawns.len() == if NUM_MONSTERS < spawnable_upto(map, start, NUM_TILES as int).len() {
            NUM_MONSTERS as int
        } else {
            spawnable_upto(map, start, NUM_TILES as int).len() as int
        }
}

impl MapGen {
    /// What the generation needs next.
    pub open spec fn spec_request(&self) -> GenRequest {
        match self.phase {
            GenPhase::PlacingRooms => GenRequest::Step,
            GenPhase::RandomDrunkards => GenRequest::DistancesFrom(map_center()),
            GenPhase::ChainedDrunkards => GenRequest::DistancesFrom(map_center()),
            GenPhase::Amulet => GenRequest::DistancesFrom(self.builder.player_start),
            GenPhase::Done => GenRequest::Done,
            GenPhase::Failed => GenRequest::Failed,
        }
    }

    /// Whether the next step needs a distance map.
    pub open spec fn needs_distances(&self) -> bool {
        self.phase == GenPhase::RandomDrunkards || self.phase == GenPhase::ChainedDrunkards
            || self.phase == GenPhase::Amulet
    }

    /// What holds at every stage: the map is whole, the rooms are apart and carved into the
    /// map (walker levels have none), and once digging is over the start, the spawns and the
    /// amulet lie on the map.
    pub open spec fn inv(&self) -> bool {
        &&& self.builder.map.wf()
        &&& rooms_valid(self.builder.rooms@)
        &&& rooms_carved(self.builder.map.tiles@, self.builder.rooms@)
        &&& (self.phase == GenPhase::RandomDrunkards || self.phase == GenPhase::ChainedDrunkards)
            ==> self.builder.rooms@.len() == 0
        &&& self.phase == GenPhase::PlacingRooms ==> self.builder.rooms.len() < NUM_ROOMS
            && self.builder.monster_spawns@.len() == 0
        &&& (self.phase == GenPhase::Amulet || self.phase == GenPhase::Done) ==> {
            &&& on_map(self.builder.player_start)
            &&& all_on_map(self.builder.monster_spawns@)
        }
        &&& self.phase == GenPhase::Done ==> on_map(self.builder.amulet_start)
    }

    /// What the generation needs next.
    pub fn request(&self) -> (r: GenRequest)
        ensures
            r == self.spec_request(),
    {
        match self.phase {
            GenPhase::PlacingRooms => GenRequest::Step,
            GenPhase::RandomDrunkards => GenRequest::DistancesFrom(Point::new(40, 25)),
            GenPhase::ChainedDrunkards => GenRequest::DistancesFrom(Point::new(40, 25)),
            GenPhase::Amulet => GenRequest::DistancesFrom(self.builder.player_start),
            GenPhase::Done => GenRequest::Done,
            GenPhase::Failed => GenRequest::Failed,
        }
    }
}


/// Whether the tiles are those of a map where every tile was wall before walkers dug inside
/// the map's edge.
pub open spec fn dug_from_rock(t: Seq<TileType>) -> bool {
    dug_inside(Seq::new(NUM_TILES as nat, |i: int| TileType::Wall), t)
}

impl MapGen {
    /// Ends the digging of a cave: draws the monster spawns around `start` and puts the
    /// player there.
    pub fn finish_cave(mb: &mut MapBuilder, start: Point, rng: &mut RandomNumberGenerator)
        requires
            old(mb).map.wf(),
            on_map(start),
        ensures
            final(mb).player_start == start,
            valid_spawn_draw(&final(mb).map, start, final(mb).monster_spawns@),
            all_on_map(final(mb).monster_spawns@),
            final(mb).map == old(mb).map,
            final(mb).rooms == old(mb).rooms,
            final(mb).amulet_start == old(mb).amulet_start,
            final(mb).theme == old(mb).theme,
    {
        let spawns = mb.find_monster_spawns(&start, rng);
        mb.monster_spawns = spawns;
        mb.player_start = start;
        assert forall|k: int| 0 <= k < mb.monster_spawns@.len() implies on_map(#[trigger] mb.monster_spawns@[k]) by {
            assert(spawnable(&mb.map, start, mb.monster_spawns@[k]));
        }
    }
}

/// How a cave level starts: noise smoothed ten times and walled in; the player on the floor
/// tile nearest the center with monsters spawned around, or failure when there is no floor.
pub open spec fn cave_started(gen: &MapGen) -> bool {
    &&& gen.inv()
    &&& gen.phase == GenPhase::Amulet || gen.phase == GenPhase::Failed
    &&& exists|noise: Seq<TileType>| noise.len() == NUM_TILES
        && (forall|i: int| 0 <= i < NUM_TILES ==> (#[trigger] noise[i] == TileType::Floor || noise[i] == TileType::Wall))
        && gen.builder.map.tiles@ == enclose_spec(iterate_times(noise, 10))
    &&& gen.phase == GenPhase::Failed <==> forall|i: int| 0 <= i < NUM_TILES ==> #[trigger] gen.builder.map.tiles@[i] != TileType::Floor
    &&& gen.phase == GenPhase::Amulet ==> exists|i: int| is_closest_floor(gen.builder.map.tiles@, i)
        && gen.builder.player_start == tile_point(i)
    &&& gen.phase == GenPhase::Amulet ==> valid_spawn_draw(&gen.builder.map, gen.builder.player_start, gen.builder.monster_spawns@)
    &&& gen.builder.rooms@.len() == 0
}

/// How a cavern level starts: rock dug by a walker from the center, and either more digging
/// to do or, when a third of the map is floor, the player at the center with monsters
/// spawned around.
pub open spec fn cavern_started(gen: &MapGen) -> bool {
    &&& gen.inv()
    &&& gen.phase == GenPhase::Amulet || gen.phase == GenPhase::RandomDrunkards
        || gen.phase == GenPhase::ChainedDrunkards
    &&& dug_from_rock(gen.builder.map.tiles@)
    &&& gen.builder.map.tile_at(map_center()) == TileType::Floor || gen.phase == GenPhase::RandomDrunkards
    &&& gen.phase == GenPhase::Amulet ==> gen.builder.map.spec_floor_count() >= DESIRED_FLOOR_COUNT
        && gen.builder.player_start == map_center()
        && valid_spawn_draw(&gen.builder.map, map_center(), gen.builder.monster_spawns@)
    &&& gen.phase == GenPhase::ChainedDrunkards ==> gen.builder.map.spec_floor_count() < DESIRED_FLOOR_COUNT
    &&& gen.phase != GenPhase::RandomDrunkards ==> floors_connected(gen.builder.map.tiles@, map_center())
    &&& gen.builder.rooms@.len() == 0
}

/// Solid rock: every tile a wall.
pub open spec fn rock() -> Seq<TileType> {
    Seq::new(NUM_TILES as nat, |i: int| TileType::Wall)
}

/// How the walker-mode roll shapes a cavern level: unless the first walker already dug a
/// third of the map, chained walkers follow on a roll of 0 and random ones otherwise. The map
/// is the first walk from the center through rock, followed, with random walkers, by a walk
/// from a random point.
pub open spec fn cavern_mode_for_roll(gen: &MapGen, roll: i32) -> bool {
    &&& gen.phase != GenPhase::Amulet ==> (gen.phase == GenPhase::ChainedDrunkards <==> roll == 0)
    &&& gen.phase != GenPhase::RandomDrunkards ==> dug_by_walk(rock(), gen.builder.map.tiles@, map_center())
    &&& gen.phase == GenPhase::RandomDrunkards ==> exists|first: Seq<TileType>, p: Point|
        dug_by_walk(rock(), first, map_center()) && random_start(p) && dug_by_walk(first, gen.builder.map.tiles@, p)
}

/// How a rooms level starts: solid rock, no rooms yet, no spawns.
pub open spec fn rooms_started(gen: &MapGen) -> bool {
    &&& gen.inv()
    &&& gen.phase == GenPhase::PlacingRooms
    &&& forall|i: int| 0 <= i < NUM_TILES ==> #[trigger] gen.builder.map.tiles@[i] == TileType::Wall
    &&& gen.builder.rooms@.len() == 0
    &&& gen.builder.monster_spawns@.len() == 0
}

impl CellularAutomataArchitect {
    /// Starts a cave level: random noise, ten generations of the automaton, a wall around the
    /// edge; the player starts on the floor tile nearest the center, and monsters spawn around.
    pub fn init(&mut self, rng: &mut RandomNumberGenerator) -> (gen: MapGen)
        ensures
            cave_started(&gen),
    {
        let mut mb = MapBuilder::empty_builder();
        self.generate_random_noise_map(rng, &mut mb.map);
        let ghost noise = mb.map.tiles@;
        let mut n: usize = 0;
        while n < 10
            invariant
                n <= 10,
                mb.map.wf(),
                noise.len() == NUM_TILES,
                mb.map.tiles@ == iterate_times(noise, n as nat),
                mb.rooms@.len() == 0,
            decreases 10 - n,
        {
            self.iterate(&mut mb.map);
            n = n + 1;
        }
        self.enclose(&mut mb.map);
        match self.find_start(&mb.map) {
            None => MapGen { builder: mb, phase: GenPhase::Failed },
            Some(start) => {
                proof {
                    let i = choose|i: int| is_closest_floor(mb.map.tiles@, i) && start == tile_point(i);
                    crate::map_builder::lemma_tile_point_unique(i, start);
                }
                MapGen::finish_cave(&mut mb, start, rng);
                MapGen { builder: mb, phase: GenPhase::Amulet }
            },
        }
    }
}

impl DrunkardsWalkArchitect {
    /// Starts a cavern level: solid rock, and a walker from the center; then, when that did
    /// not dig a third of the map, either chained walkers (one time in five) or random ones.
    pub fn init(&mut self, rng: &mut RandomNumberGenerator) -> (gen: MapGen)
        ensures
            cavern_started(&gen),
            exists|roll: i32| 0 <= roll < 5 && cavern_mode_for_roll(&gen, roll),
    {
        let roll = rng_range(rng, 0, 5);
        self.init_with_roll(roll, rng)
    }

    /// Starts a cavern level once the walker mode has been rolled: solid rock, and a walker
    /// from the center; then, when that did not dig a third of the map, chained walkers when
    /// `roll` is 0 and random ones otherwise.
    pub fn init_with_roll(&mut self, roll: i32, rng: &mut RandomNumberGenerator) -> (gen: MapGen)
        ensures
            cavern_started(&gen),
            cavern_mode_for_roll(&gen, roll),
    {
        let mut mb = MapBuilder::empty_builder();
        mb.fill(TileType::Wall);
        assert(mb.map.tiles@ =~= rock());
        let center = Point::new(40, 25);
        let chained = roll == 0;
        self.drunkard(&center, rng, &mut mb.map);
        proof {
            let rolls = choose|rolls: Seq<i32>| full_walk(center, rolls)
                && mb.map.tiles@ == walk_dig(rock(), center, rolls, rolls.len());
            lemma_index_point_roundtrip(center);
            lemma_connected_self(mb.map.tiles@, center);
            lemma_walk_keeps_floors_connected(rock(), center, center, rolls, rolls.len());
        }
        if mb.map.floor_count() >= DESIRED_FLOOR_COUNT {
            MapGen::finish_cave(&mut mb, center, rng);
            return MapGen { builder: mb, phase: GenPhase::Amulet };
        }
        if chained {
            MapGen { builder: mb, phase: GenPhase::ChainedDrunkards }
        } else {
            let ghost before = mb.map.tiles@;
            let random_point = Point::new(rng_range(rng, 1, 80), rng_range(rng, 1, 50));
            self.drunkard(&random_point, rng, &mut mb.map);
            proof {
                crate::map_builder::drunkard::lemma_dug_inside_trans(
                    Seq::new(NUM_TILES as nat, |i: int| TileType::Wall), before, mb.map.tiles@);
                assert(dug_by_walk(rock(), before, map_center()));
                assert(random_start(random_point) && dug_by_walk(before, mb.map.tiles@, random_point));
            }
            MapGen { builder: mb, phase: GenPhase::RandomDrunkards }
        }
    }
}

impl RoomsArchitect {
    /// Starts a rooms level: solid rock, with rooms still to place.
    pub fn init(&mut self, rng: &mut RandomNumberGenerator) -> (gen: MapGen)
        ensures
            rooms_started(&gen),
    {
        let mut mb = MapBuilder::empty_builder();
        mb.fill(TileType::Wall);
        MapGen { builder: mb, phase: GenPhase::PlacingRooms }
    }
}

impl EmptyArchitect {
    /// Starts an open level: floor everywhere, the player at the center, and fifty monster
    /// spawns drawn at random inside the map's edge.
    pub fn init(&mut self, rng: &mut RandomNumberGenerator) -> (gen: MapGen)
        ensures
            gen.inv(),
            gen.phase == GenPhase::Amulet,
            forall|i: int| 0 <= i < NUM_TILES ==> #[trigger] gen.builder.map.tiles@[i] == TileType::Floor,
            gen.builder.player_start == map_center(),
            gen.builder.rooms@.len() == 0,
            gen.builder.monster_spawns@.len() == 50,
            forall|k: int| 0 <= k < 50 ==> 1 <= (#[trigger] gen.builder.monster_spawns@[k]).x < 80
                && 1 <= gen.builder.monster_spawns@[k].y < 50,
    {
        let mut mb = MapBuilder::empty_builder();
        mb.fill(TileType::Floor);
        mb.player_start = Point::new(40, 25);
        let mut n: usize = 0;
        while n < 50
            invariant
                n <= 50,
                mb.map.wf(),
                rooms_valid(mb.rooms@),
                mb.rooms@.len() == 0,
                mb.player_start == map_center(),
                forall|i: int| 0 <= i < NUM_TILES ==> #[trigger] mb.map.tiles@[i] == TileType::Floor,
                mb.monster_spawns@.len() == n,
                forall|k: int| 0 <= k < n ==> 1 <= (#[trigger] mb.monster_spawns@[k]).x < 80
                    && 1 <= mb.monster_spawns@[k].y < 50,
            decreases 50 - n,
        {
            let point = Point::new(rng_range(rng, 1, 80), rng_range(rng, 1, 50));
            mb.monster_spawns.push(point);
            n = n + 1;
        }
        MapGen { builder: mb, phase: GenPhase::Amulet }
    }
}


impl MapGen {
    /// Puts the monster spawns at the centers of all rooms but the first.
    pub fn spawn_in_rooms(mb: &mut MapBuilder)
        requires
            rooms_valid(old(mb).rooms@),
        ensures
            final(mb).monster_spawns@ == old(mb).monster_spawns@ + spawn_centers(old(mb).rooms@),
            final(mb).map == old(mb).map,
            final(mb).rooms == old(mb).rooms,
            final(mb).player_start == old(mb).player_start,
            final(mb).amulet_start == old(mb).amulet_start,
            final(mb).theme == old(mb).theme,
    {
        let ghost s0 = mb.monster_spawns@;
        let mut k: usize = 1;
        while k < mb.rooms.len()
            invariant
                1 <= k,
                k <= mb.rooms.len() || mb.rooms.len() == 0,
                rooms_valid(mb.rooms@),
                mb.rooms == old(mb).rooms,
                mb.map == old(mb).map,
                mb.player_start == old(mb).player_start,
                mb.amulet_start == old(mb).amulet_start,
                mb.theme == old(mb).theme,
                mb.rooms.len() > 0 ==> mb.monster_spawns@ == s0 + mb.rooms@.subrange(1, k as int).map_values(|r: Rect| r.spec_center()),
                mb.rooms.len() == 0 ==> mb.monster_spawns@ == s0,
            decreases mb.rooms.len() - k,
        {
            let c = mb.rooms[k].center();
            mb.monster_spawns.push(c);
            proof {
                assert(mb.rooms@.subrange(1, k + 1).map_values(|r: Rect| r.spec_center())
                    =~= mb.rooms@.subrange(1, k as int).map_values(|r: Rect| r.spec_center()).push(c));
            }
            k = k + 1;
        }
        proof {
            if mb.rooms.len() == 0 {
                assert(spawn_centers(mb.rooms@) =~= Seq::empty());
                assert(mb.monster_spawns@ =~= s0 + spawn_centers(mb.rooms@));
            }
        }
    }

    /// Takes the next step of the generation. Steps that need a distance map read it from
    /// `distances`, computed from the point that the last request named: one entry per tile,
    /// `None` for tiles that cannot be reached.
    pub fn advance(&mut self, rng: &mut RandomNumberGenerator, distances: &Vec<Option<u32>>) -> (req: GenRequest)
        requires
            old(self).inv(),
            old(self).needs_distances() ==> distances.len() == NUM_TILES,
        ensures
            final(self).inv(),
            req == final(self).spec_request(),
            (old(self).phase == GenPhase::Done || old(self).phase == GenPhase::Failed) ==> final(self).phase == old(self).phase
                && final(self).builder == old(self).builder,
            old(self).phase == GenPhase::Amulet ==> {
                &&& (final(self).phase == GenPhase::Failed <==> forall|j: int| 0 <= j < NUM_TILES ==> !(#[trigger] distances@[j] is Some))
                &&& (final(self).phase == GenPhase::Failed || final(self).phase == GenPhase::Done)
                &&& final(self).phase == GenPhase::Done ==> exists|i: int| is_most_distant(distances@, i)
                    && final(self).builder.amulet_start == tile_point(i)
                &&& final(self).builder.map == old(self).builder.map
                &&& final(self).builder.rooms == old(self).builder.rooms
                &&& final(self).builder.monster_spawns == old(self).builder.monster_spawns
                &&& final(self).builder.player_start == old(self).builder.player_start
            },
            old(self).phase == GenPhase::PlacingRooms ==> {
                &&& (final(self).phase == GenPhase::PlacingRooms || final(self).phase == GenPhase::Amulet)
                &&& (final(self).builder.rooms@ == old(self).builder.rooms@ || exists|r: Rect| drawable_room(r)
                    && final(self).builder.rooms@ == old(self).builder.rooms@.push(r))
                &&& final(self).phase == GenPhase::PlacingRooms ==> final(self).builder.monster_spawns == old(self).builder.monster_spawns
                &&& final(self).phase == GenPhase::Amulet ==> {
                    &&& final(self).builder.rooms@.len() == NUM_ROOMS
                    &&& final(self).builder.player_start == final(self).builder.rooms@[0].spec_center()
                    &&& final(self).builder.monster_spawns@ == old(self).builder.monster_spawns@ + spawn_centers(final(self).builder.rooms@)
                    &&& exists|carved: Seq<TileType>, choices: Seq<bool>| choices.len() == NUM_ROOMS
                        && final(self).builder.map.tiles@ == corridors_upto(carved, sort_by_center_x(final(self).builder.rooms@), choices, NUM_ROOMS as int)
                        && carved == carve_room(old(self).builder.map.tiles@, final(self).builder.rooms@.last())
                }
            },
            old(self).phase == GenPhase::RandomDrunkards ==> {
                let walled = wall_off_spec(old(self).builder.map.tiles@, distances@);
                &&& (final(self).phase == GenPhase::RandomDrunkards || final(self).phase == GenPhase::Amulet)
                &&& (final(self).phase == GenPhase::Amulet <==> DungeonMap::floor_count_upto(walled, NUM_TILES as int) >= DESIRED_FLOOR_COUNT)
                &&& final(self).phase == GenPhase::Amulet ==> final(self).builder.map.tiles@ == walled
                    && final(self).builder.player_start == map_center()
                    && valid_spawn_draw(&final(self).builder.map, map_center(), final(self).builder.monster_spawns@)
                &&& final(self).phase == GenPhase::RandomDrunkards ==> dug_inside(walled, final(self).builder.map.tiles@)
                &&& final(self).phase == GenPhase::RandomDrunkards ==> exists|p: Point| random_start(p)
                    && dug_by_walk(walled, final(self).builder.map.tiles@, p)
                &&& distance_map_of(old(self).builder.map.tiles@, map_center(), distances@)
                    && final(self).phase == GenPhase::Amulet
                    ==> floors_connected(final(self).builder.map.tiles@, map_center())
            },
            old(self).phase == GenPhase::ChainedDrunkards ==> {
                &&& (final(self).phase == GenPhase::Failed <==> forall|i: int| 0 <= i < NUM_TILES ==> !chain_start(#[trigger] distances@[i]))
                &&& final(self).phase == GenPhase::Failed ==> final(self).builder == old(self).builder
                &&& final(self).phase != GenPhase::Failed ==> dug_inside(old(self).builder.map.tiles@, final(self).builder.map.tiles@)
                &&& final(self).phase != GenPhase::Failed ==> exists|i: int| 0 <= i < NUM_TILES
                    && #[trigger] chain_start(distances@[i])
                    && dug_by_walk(old(self).builder.map.tiles@, final(self).builder.map.tiles@, tile_point(i))
                &&& distance_map_of(old(self).builder.map.tiles@, map_center(), distances@)
                    && floors_connected(old(self).builder.map.tiles@, map_center())
                    && final(self).phase != GenPhase::Failed
                    ==> floors_connected(final(self).builder.map.tiles@, map_center())
                &&& final(self).phase == GenPhase::ChainedDrunkards ==> final(self).builder.map.spec_floor_count() < DESIRED_FLOOR_COUNT
                &&& final(self).phase == GenPhase::Amulet ==> final(self).builder.map.spec_floor_count() >= DESIRED_FLOOR_COUNT
                    && final(self).builder.player_start == map_center()
                    && valid_spawn_draw(&final(self).builder.map, map_center(), final(self).builder.monster_spawns@)
            },
    {
        let center = Point::new(40, 25);
        match self.phase {
            GenPhase::Done => {},
            GenPhase::Failed => {},
            GenPhase::Amulet => {
                match self.builder.find_most_distant(distances) {
                    None => {
                        self.phase = GenPhase::Failed;
                    },
                    Some(p) => {
                        proof {
                            let i = choose|i: int| is_most_distant(distances@, i) && p == tile_point(i);
                            crate::map_builder::lemma_tile_point_unique(i, p);
                        }
                        self.builder.amulet_start = p;
                        self.builder.theme = if rng_range(rng, 0, 2) == 0 { ThemeKind::Dungeon } else { ThemeKind::Forest };
                        self.phase = GenPhase::Done;
                    },
                }
            },
            GenPhase::PlacingRooms => {
                let ghost t0 = self.builder.map.tiles@;
                let placed = self.builder.try_random_room(rng);
                if self.builder.rooms.len() == NUM_ROOMS {
                    let ghost carved = self.builder.map.tiles@;
                    self.builder.build_cooridors(rng);
                    proof {
                        let choices = choose|choices: Seq<bool>| choices.len() == self.builder.rooms@.len()
                            && self.builder.map.tiles@ == corridors_upto(carved, sort_by_center_x(self.builder.rooms@),
                                choices, self.builder.rooms@.len() as int);
                        lemma_corridors_only_gain_floor(carved, sort_by_center_x(self.builder.rooms@), choices,
                            self.builder.rooms@.len() as int);
                        lemma_rooms_carved_gain_floor(carved, self.builder.map.tiles@, self.builder.rooms@);
                    }
                    self.builder.player_start = self.builder.rooms[0].center();
                    MapGen::spawn_in_rooms(&mut self.builder);
                    self.phase = GenPhase::Amulet;
                    proof {
                        assert(room_in_range(self.builder.rooms@[0]));
                        assert forall|k: int| 0 <= k < self.builder.monster_spawns@.len() implies on_map(#[trigger] self.builder.monster_spawns@[k]) by {
                            let c = spawn_centers(self.builder.rooms@);
                            assert(self.builder.monster_spawns@[k] == c[k]);
                            assert(room_in_range(self.builder.rooms@[k + 1]));
                        }
                    }
                }
            },
            GenPhase::RandomDrunkards => {
                let mut architect = DrunkardsWalkArchitect {};
                let walked = architect.perform_random_drunkards(&center, rng, &mut self.builder, distances);
                if !walked {
                    MapGen::finish_cave(&mut self.builder, center, rng);
                    self.phase = GenPhase::Amulet;
                }
            },
            GenPhase::ChainedDrunkards => {
                let mut architect = DrunkardsWalkArchitect {};
                match architect.perform_chained_drunkards(&center, rng, &mut self.builder, distances) {
                    None => {
                        self.phase = GenPhase::Failed;
                    },
                    Some(more) => {
                        if !more {
                            MapGen::finish_cave(&mut self.builder, center, rng);
                            self.phase = GenPhase::Amulet;
                        }
                    },
                }
            },
        }
        self.request()
    }
}


/// Whether `gen` is how the architect that `roll` picks starts a level: walkers on 0, the
/// automaton on 1, rooms otherwise.
pub open spec fn architect_for_roll(gen: &MapGen, roll: i32) -> bool {
    if roll == 0 {
        cavern_started(gen)
    } else if roll == 1 {
        cave_started(gen)
    } else {
        rooms_started(gen)
    }
}

impl MapBuilder {
    /// Starts generating a level with an architect picked at random (a roll of `0 .. 3`:
    /// walkers on 0, the automaton on 1, rooms otherwise); the returned process says through
    /// `request` what it needs next.
    pub fn new(rng: &mut RandomNumberGenerator) -> (gen: MapGen)
        ensures
            cavern_started(&gen) || cave_started(&gen) || rooms_started(&gen),
            exists|roll: i32| 0 <= roll < 3 && architect_for_roll(&gen, roll),
    {
        let roll = rng_range(rng, 0, 3);
        MapBuilder::new_with_roll(roll, rng)
    }

    /// Starts generating a level with the architect that `roll` picks: walkers on 0, the
    /// automaton on 1, rooms otherwise.
    pub fn new_with_roll(roll: i32, rng: &mut RandomNumberGenerator) -> (gen: MapGen)
        ensures
            architect_for_roll(&gen, roll),
    {
        if roll == 0 {
            let mut architect = DrunkardsWalkArchitect {};
            architect.init(rng)
        } else if roll == 1 {
            let mut architect = CellularAutomataArchitect {};
            architect.init(rng)
        } else {
            let mut architect = RoomsArchitect {};
            architect.init(rng)
        }
    }
}

} // verus!
