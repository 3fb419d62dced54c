use bracket_lib::prelude::RandomNumberGenerator;
use rusty_roguelike::geometry::{Point, Rect};
use rusty_roguelike::map::{get_map_idx, DungeonMap, TileType};
use rusty_roguelike::map_builder::automata::CellularAutomataArchitect;
use rusty_roguelike::map_builder::drunkard::{DrunkardsWalkArchitect, DESIRED_FLOOR_COUNT};
use rusty_roguelike::map_builder::empty::EmptyArchitect;
use rusty_roguelike::map_builder::generation::{GenPhase, GenRequest, MapGen};
use rusty_roguelike::map_builder::rooms::RoomsArchitect;
use rusty_roguelike::map_builder::{rooms_sorted_by_center_x, MapBuilder, NUM_MONSTERS, NUM_ROOMS};
use rusty_roguelike::NUM_TILES;

fn walls() -> MapBuilder {
    let mut mb = MapBuilder::empty_builder();
    mb.fill(TileType::Wall);
    mb
}

fn bfs(map: &DungeonMap, from: Point) -> Vec<Option<u32>> {
    let mut d: Vec<Option<u32>> = vec![None; NUM_TILES];
    let start = get_map_idx(from.x, from.y);
    d[start] = Some(0);
    let mut queue = std::collections::VecDeque::new();
    queue.push_back(from);
    while let Some(p) = queue.pop_front() {
        let here = d[get_map_idx(p.x, p.y)].unwrap();
        for (dx, dy) in [(-1, 0), (1, 0), (0, -1), (0, 1)] {
            let q = Point::new(p.x + dx, p.y + dy);
            if map.can_enter_tile(q) && d[get_map_idx(q.x, q.y)].is_none() {
                d[get_map_idx(q.x, q.y)] = Some(here + 1);
                queue.push_back(q);
            }
        }
    }
    d
}

fn run(mut gen: MapGen, rng: &mut RandomNumberGenerator) -> MapGen {
    let mut req = gen.request();
    let mut steps = 0;
    loop {
        steps += 1;
        assert!(steps < 1_000_000);
        req = match req {
            GenRequest::Done | GenRequest::Failed => break,
            GenRequest::Step => gen.advance(rng, &Vec::new()),
            GenRequest::DistancesFrom(p) => {
                let d = bfs(&gen.builder.map, p);
                gen.advance(rng, &d)
            }
        };
    }
    gen
}

fn check_finished(gen: &MapGen) {
    assert_eq!(gen.phase, GenPhase::Done);
    let mb = &gen.builder;
    assert!(mb.map.in_bounds(mb.player_start));
    assert!(mb.map.in_bounds(mb.amulet_start));
    assert!(mb.monster_spawns.iter().all(|p| mb.map.in_bounds(*p)));
}

#[test]
fn fill_sets_every_tile() {
    let mb = walls();
    assert!(mb.map.tiles.iter().all(|t| *t == TileType::Wall));
    assert_eq!(mb.map.floor_count(), 0);
}

#[test]
fn vertical_tunnel_digs_column_between_rows() {
    let mut mb = walls();
    mb.apply_vertical_tunnel(10, 4, 7);
    for y in 0..50 {
        let expected = if (4..=10).contains(&y) { TileType::Floor } else { TileType::Wall };
        assert_eq!(mb.map.tiles[get_map_idx(7, y)], expected);
    }
    assert_eq!(mb.map.floor_count(), 7);
}

#[test]
fn horizontal_tunnel_clips_to_map() {
    let mut mb = walls();
    mb.apply_horizonal_tunnel(-5, 3, 0);
    assert_eq!(mb.map.floor_count(), 4);
    for x in 0..=3 {
        assert_eq!(mb.map.tiles[get_map_idx(x, 0)], TileType::Floor);
    }
    mb.apply_horizonal_tunnel(0, 10, 60);
    assert_eq!(mb.map.floor_count(), 4);
}

#[test]
fn most_distant_is_last_farthest_reachable() {
    let mb = walls();
    let mut d = vec![None; NUM_TILES];
    assert_eq!(mb.find_most_distant(&d), None);
    d[5] = Some(3);
    d[100] = Some(7);
    d[200] = Some(7);
    d[300] = Some(2);
    assert_eq!(mb.find_most_distant(&d), Some(Point::new(40, 2)));
}

#[test]
fn monster_spawns_are_distinct_far_floor_tiles() {
    let mut mb = MapBuilder::empty_builder();
    mb.fill(TileType::Floor);
    let start = Point::new(40, 25);
    let mut rng = RandomNumberGenerator::seeded(7);
    let spawns = mb.find_monster_spawns(&start, &mut rng);
    assert_eq!(spawns.len(), NUM_MONSTERS);
    for (i, p) in spawns.iter().enumerate() {
        let dx = p.x - start.x;
        let dy = p.y - start.y;
        assert!(dx * dx + dy * dy > 100);
        assert!(!spawns[..i].contains(p));
    }
}

#[test]
fn monster_spawns_limited_by_available_tiles() {
    let mut mb = walls();
    for x in 1..6 {
        mb.map.tiles[get_map_idx(x, 1)] = TileType::Floor;
    }
    mb.map.tiles[get_map_idx(40, 24)] = TileType::Floor;
    let mut rng = RandomNumberGenerator::seeded(1);
    let spawns = mb.find_monster_spawns(&Point::new(40, 25), &mut rng);
    assert_eq!(spawns.len(), 5);
    assert!(!spawns.contains(&Point::new(40, 24)));
}

#[test]
fn monster_spawn_draws_vary_with_the_generator() {
    let mut mb = MapBuilder::empty_builder();
    mb.fill(TileType::Floor);
    let a = mb.find_monster_spawns(&Point::new(40, 25), &mut RandomNumberGenerator::seeded(1));
    let b = mb.find_monster_spawns(&Point::new(40, 25), &mut RandomNumberGenerator::seeded(2));
    assert_ne!(a, b);
}

#[test]
fn random_rooms_never_overlap() {
    let mut mb = walls();
    let mut rng = RandomNumberGenerator::seeded(11);
    let mut attempts = 0;
    while mb.rooms.len() < NUM_ROOMS {
        mb.try_random_room(&mut rng);
        attempts += 1;
        assert!(attempts < 100_000);
    }
    for (i, a) in mb.rooms.iter().enumerate() {
        assert!(a.x1 >= 1 && a.x2 <= 78 && a.y1 >= 1 && a.y2 <= 48);
        for b in mb.rooms.iter().skip(i + 1) {
            assert!(!a.intersect(b));
        }
        for y in a.y1..a.y2 {
            for x in a.x1..a.x2 {
                assert_eq!(mb.map.tiles[get_map_idx(x, y)], TileType::Floor);
            }
        }
    }
}

#[test]
fn rooms_sort_stably_by_center_x() {
    let rooms = vec![
        Rect::with_size(10, 1, 4, 2),
        Rect::with_size(2, 5, 2, 2),
        Rect::with_size(11, 9, 2, 2),
        Rect::with_size(30, 1, 2, 2),
    ];
    let sorted = rooms_sorted_by_center_x(&rooms);
    assert_eq!(sorted, vec![rooms[1], rooms[0], rooms[2], rooms[3]]);
}

#[test]
fn corridors_join_consecutive_room_centers() {
    let mut mb = walls();
    let mut rng = RandomNumberGenerator::seeded(5);
    while mb.rooms.len() < NUM_ROOMS {
        mb.try_random_room(&mut rng);
    }
    let before = mb.map.tiles.clone();
    mb.build_cooridors(&mut rng);
    for (b, a) in before.iter().zip(mb.map.tiles.iter()) {
        assert!(*a == *b || *a == TileType::Floor);
    }
    let d = bfs(&mb.map, mb.rooms[0].center());
    for r in mb.rooms.iter() {
        let c = r.center();
        assert!(d[get_map_idx(c.x, c.y)].is_some());
    }
}

#[test]
fn automaton_counts_walls_around_a_tile() {
    let arch = CellularAutomataArchitect {};
    let mut m = DungeonMap::new();
    assert_eq!(arch.count_neighbours(5, 5, &m), 0);
    m.tiles[get_map_idx(4, 4)] = TileType::Wall;
    m.tiles[get_map_idx(5, 5)] = TileType::Wall;
    m.tiles[get_map_idx(6, 6)] = TileType::Wall;
    m.tiles[get_map_idx(7, 7)] = TileType::Wall;
    assert_eq!(arch.count_neighbours(5, 5, &m), 2);
    assert_eq!(arch.count_neighbours(6, 5, &m), 2);
}

#[test]
fn automaton_iteration_follows_the_rule() {
    let mut arch = CellularAutomataArchitect {};
    let mut m = DungeonMap::new();
    for y in 1..4 {
        for x in 1..4 {
            m.tiles[get_map_idx(x, y)] = TileType::Wall;
        }
    }
    arch.iterate(&mut m);
    // a tile with no wall around becomes a wall
    assert_eq!(m.tiles[get_map_idx(40, 25)], TileType::Wall);
    // the middle of a 3x3 block has 8 walls around: wall
    assert_eq!(m.tiles[get_map_idx(2, 2)], TileType::Wall);
    // a tile next to the block's side sees 3 walls: floor
    assert_eq!(m.tiles[get_map_idx(4, 2)], TileType::Floor);
    // the edge is left alone
    assert_eq!(m.tiles[get_map_idx(0, 0)], TileType::Floor);
}

#[test]
fn enclose_walls_the_edge_only() {
    let mut arch = CellularAutomataArchitect {};
    let mut m = DungeonMap::new();
    arch.enclose(&mut m);
    for y in 0..50 {
        for x in 0..80 {
            let edge = x == 0 || y == 0 || x == 79 || y == 49;
            let t = m.tiles[get_map_idx(x, y)];
            assert_eq!(t == TileType::Wall, edge);
        }
    }
}

#[test]
fn find_start_picks_nearest_floor_to_center() {
    let arch = CellularAutomataArchitect {};
    let mut mb = walls();
    assert_eq!(arch.find_start(&mb.map), None);
    mb.map.tiles[get_map_idx(45, 25)] = TileType::Floor;
    mb.map.tiles[get_map_idx(40, 28)] = TileType::Floor;
    mb.map.tiles[get_map_idx(37, 25)] = TileType::Floor;
    // (40, 28) and (37, 25) are equally near; the first in tile order wins
    assert_eq!(arch.find_start(&mb.map), Some(Point::new(37, 25)));
    mb.map.tiles[get_map_idx(40, 22)] = TileType::Floor;
    assert_eq!(arch.find_start(&mb.map), Some(Point::new(40, 22)));
}

#[test]
fn noise_map_has_floors_and_walls() {
    let mut arch = CellularAutomataArchitect {};
    let mut m = DungeonMap::new();
    let mut rng = RandomNumberGenerator::seeded(3);
    arch.generate_random_noise_map(&mut rng, &mut m);
    let floors = m.floor_count();
    assert!(floors > 0 && floors < NUM_TILES);
    assert!(m.tiles.iter().all(|t| *t == TileType::Floor || *t == TileType::Wall));
}

#[test]
fn drunkard_digs_only_inside_the_edge() {
    let mut arch = DrunkardsWalkArchitect {};
    let mut mb = walls();
    let mut rng = RandomNumberGenerator::seeded(9);
    let center = Point::new(40, 25);
    arch.drunkard(&center, &mut rng, &mut mb.map);
    assert_eq!(mb.map.tiles[get_map_idx(40, 25)], TileType::Floor);
    for y in 0..50 {
        for x in 0..80 {
            if x == 0 || y == 0 || x == 79 || y == 49 {
                assert_eq!(mb.map.tiles[get_map_idx(x, y)], TileType::Wall);
            }
        }
    }
    assert!(mb.map.floor_count() <= 401);
    let before = mb.map.floor_count();
    arch.drunkard(&Point::new(0, 0), &mut rng, &mut mb.map);
    assert_eq!(mb.map.floor_count(), before);
}

#[test]
fn wall_off_fills_cut_off_tiles() {
    let mut arch = DrunkardsWalkArchitect {};
    let mut m = DungeonMap::new();
    let mut d = vec![Some(1u32); NUM_TILES];
    d[0] = None;
    d[1] = Some(2001);
    d[2] = Some(2000);
    arch.wall_off_unreachable(&mut m, &d);
    assert_eq!(m.tiles[0], TileType::Wall);
    assert_eq!(m.tiles[1], TileType::Wall);
    assert_eq!(m.tiles[2], TileType::Floor);
    assert_eq!(m.floor_count(), NUM_TILES - 2);
}

#[test]
fn chained_drunkards_need_a_reachable_start() {
    let mut arch = DrunkardsWalkArchitect {};
    let mut mb = walls();
    let mut rng = RandomNumberGenerator::seeded(2);
    let d = vec![None; NUM_TILES];
    assert_eq!(arch.perform_chained_drunkards(&Point::new(40, 25), &mut rng, &mut mb, &d), None);
    assert_eq!(mb.map.floor_count(), 0);
    let mut d2 = vec![None; NUM_TILES];
    d2[get_map_idx(10, 10)] = Some(0);
    assert_eq!(arch.perform_chained_drunkards(&Point::new(40, 25), &mut rng, &mut mb, &d2), Some(true));
    assert_eq!(mb.map.tiles[get_map_idx(10, 10)], TileType::Floor);
}

#[test]
fn random_drunkards_stop_when_enough_floor() {
    let mut arch = DrunkardsWalkArchitect {};
    let mut mb = MapBuilder::empty_builder();
    let mut rng = RandomNumberGenerator::seeded(2);
    let d = vec![Some(0u32); NUM_TILES];
    assert!(!arch.perform_random_drunkards(&Point::new(40, 25), &mut rng, &mut mb, &d));
    assert_eq!(mb.map.floor_count(), NUM_TILES);
    let mut walls = walls();
    assert!(arch.perform_random_drunkards(&Point::new(40, 25), &mut rng, &mut walls, &d));
    assert!(walls.map.floor_count() < DESIRED_FLOOR_COUNT);
}

#[test]
fn rooms_level_generates_to_completion() {
    let mut rng = RandomNumberGenerator::seeded(21);
    let gen = RoomsArchitect {}.init(&mut rng);
    assert_eq!(gen.phase, GenPhase::PlacingRooms);
    let gen = run(gen, &mut rng);
    check_finished(&gen);
    let mb = &gen.builder;
    assert_eq!(mb.rooms.len(), NUM_ROOMS);
    assert_eq!(mb.player_start, mb.rooms[0].center());
    assert_eq!(mb.monster_spawns.len(), NUM_ROOMS - 1);
    for (i, s) in mb.monster_spawns.iter().enumerate() {
        assert_eq!(*s, mb.rooms[i + 1].center());
    }
}

#[test]
fn cave_level_generates_to_completion() {
    let mut rng = RandomNumberGenerator::seeded(33);
    let gen = CellularAutomataArchitect {}.init(&mut rng);
    let gen = run(gen, &mut rng);
    check_finished(&gen);
    let mb = &gen.builder;
    assert_eq!(mb.map.tiles[get_map_idx(mb.player_start.x, mb.player_start.y)], TileType::Floor);
    for y in 0..50 {
        assert_eq!(mb.map.tiles[get_map_idx(0, y)], TileType::Wall);
        assert_eq!(mb.map.tiles[get_map_idx(79, y)], TileType::Wall);
    }
}

#[test]
fn cavern_level_generates_to_completion() {
    for seed in [1u64, 2, 3, 4, 5, 6] {
        let mut rng = RandomNumberGenerator::seeded(seed);
        let gen = DrunkardsWalkArchitect {}.init(&mut rng);
        let gen = run(gen, &mut rng);
        check_finished(&gen);
        assert!(gen.builder.map.floor_count() >= DESIRED_FLOOR_COUNT);
        assert_eq!(gen.builder.player_start, Point::new(40, 25));
    }
}

#[test]
fn empty_level_has_open_floor() {
    let mut rng = RandomNumberGenerator::seeded(8);
    let gen = EmptyArchitect {}.init(&mut rng);
    assert_eq!(gen.builder.map.floor_count(), NUM_TILES);
    assert_eq!(gen.builder.monster_spawns.len(), 50);
    let gen = run(gen, &mut rng);
    check_finished(&gen);
}

#[test]
fn map_builder_new_finishes_for_many_seeds() {
    for seed in 0..12u64 {
        let mut rng = RandomNumberGenerator::seeded(seed);
        let gen = run(MapBuilder::new(&mut rng), &mut rng);
        check_finished(&gen);
    }
}

#[test]
fn finished_generation_stays_finished() {
    let mut rng = RandomNumberGenerator::seeded(4);
    let mut gen = run(MapBuilder::new(&mut rng), &mut rng);
    let before = gen.builder.amulet_start;
    assert_eq!(gen.advance(&mut rng, &Vec::new()), GenRequest::Done);
    assert_eq!(gen.builder.amulet_start, before);
}

#[test]
fn amulet_phase_fails_without_reachable_tiles() {
    let mut rng = RandomNumberGenerator::seeded(4);
    let mut gen = EmptyArchitect {}.init(&mut rng);
    assert_eq!(gen.request(), GenRequest::DistancesFrom(Point::new(40, 25)));
    assert_eq!(gen.advance(&mut rng, &vec![None; NUM_TILES]), GenRequest::Failed);
    assert_eq!(gen.phase, GenPhase::Failed);
}

#[test]
fn cavern_floors_all_reach_the_center() {
    for seed in 0..6 {
        for roll in [0, 1] {
            let mut rng = RandomNumberGenerator::seeded(seed);
            let gen = DrunkardsWalkArchitect {}.init_with_roll(roll, &mut rng);
            let gen = run(gen, &mut rng);
            check_finished(&gen);
            let d = bfs(&gen.builder.map, Point::new(40, 25));
            for i in 0..NUM_TILES {
                if gen.builder.map.tiles[i] == TileType::Floor {
                    assert!(d[i].is_some(), "seed {} roll {}: tile {} cut off", seed, roll, i);
                }
            }
        }
    }
}

#[test]
fn room_centers_are_floor() {
    for seed in 0..4 {
        let mut rng = RandomNumberGenerator::seeded(seed);
        let gen = run(RoomsArchitect {}.init(&mut rng), &mut rng);
        check_finished(&gen);
        for r in gen.builder.rooms.iter() {
            let c = r.center();
            assert_eq!(gen.builder.map.tiles[get_map_idx(c.x, c.y)], TileType::Floor);
        }
    }
}
