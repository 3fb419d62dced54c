use bracket_lib::prelude::RandomNumberGenerator;
use rusty_roguelike::geometry::Point;
use rusty_roguelike::map::{get_map_idx, DungeonMap, TileType};
use rusty_roguelike::map_builder::automata::CellularAutomataArchitect;
use rusty_roguelike::map_builder::drunkard::DrunkardsWalkArchitect;
use rusty_roguelike::map_builder::generation::GenPhase;
use rusty_roguelike::map_builder::MapBuilder;
use rusty_roguelike::spawner::{entity_for_roll, monster_for_roll};
use rusty_roguelike::NUM_TILES;

fn rock() -> DungeonMap {
    let mut mb = MapBuilder::empty_builder();
    mb.fill(TileType::Wall);
    mb.map
}

fn floors(map: &DungeonMap) -> usize {
    map.tiles.iter().filter(|t| **t == TileType::Floor).count()
}

#[test]
fn monster_roll_picks_goblin_up_to_eight() {
    for roll in 1..=8 {
        let e = monster_for_roll(roll, Point::new(3, 4));
        assert_eq!(e.name.as_deref(), Some("Goblin"));
        assert_eq!(e.health.unwrap().max, 1);
    }
    for roll in [9, 10] {
        let e = monster_for_roll(roll, Point::new(3, 4));
        assert_eq!(e.name.as_deref(), Some("Claw Monster"));
        assert_eq!(e.health.unwrap().max, 2);
    }
}

#[test]
fn entity_roll_picks_potion_map_or_monster() {
    let mut rng = RandomNumberGenerator::seeded(7);
    let potion = entity_for_roll(1, &mut rng, Point::new(2, 2));
    assert_eq!(potion.name.as_deref(), Some("Healing Potion"));
    assert_eq!(potion.provides_healing, Some(2));
    let map = entity_for_roll(2, &mut rng, Point::new(2, 2));
    assert_eq!(map.name.as_deref(), Some("Dungeon Map"));
    assert!(map.provides_map);
    let monster = entity_for_roll(3, &mut rng, Point::new(2, 2));
    assert!(monster.is_enemy);
}

#[test]
fn noise_threshold_is_above_fifty_five() {
    let mut rolls = vec![0; NUM_TILES];
    rolls[0] = 56;
    rolls[1] = 55;
    rolls[2] = 99;
    let mut map = DungeonMap::new();
    let mut arch = CellularAutomataArchitect {};
    arch.noise_from_rolls(&rolls, &mut map);
    assert_eq!(map.tiles[0], TileType::Floor);
    assert_eq!(map.tiles[1], TileType::Wall);
    assert_eq!(map.tiles[2], TileType::Floor);
    assert_eq!(floors(&map), 2);
}

#[test]
fn walk_follows_rolls() {
    let mut map = rock();
    let mut arch = DrunkardsWalkArchitect {};
    // east, east, south, west
    arch.drunkard_with(&Point::new(10, 10), &vec![1, 1, 3, 0], &mut map);
    for (x, y) in [(10, 10), (11, 10), (12, 10), (12, 11)] {
        assert_eq!(map.tiles[get_map_idx(x, y)], TileType::Floor);
    }
    assert_eq!(floors(&map), 4);
}

#[test]
fn walk_stops_at_the_edge() {
    let mut map = rock();
    let mut arch = DrunkardsWalkArchitect {};
    arch.drunkard_with(&Point::new(1, 5), &vec![0, 0, 0], &mut map);
    assert_eq!(floors(&map), 1);
    let mut outside = rock();
    arch.drunkard_with(&Point::new(0, 5), &vec![1, 1], &mut outside);
    assert_eq!(floors(&outside), 0);
}

#[test]
fn walk_stops_after_four_hundred_and_one_tiles() {
    let mut map = rock();
    let mut arch = DrunkardsWalkArchitect {};
    let mut rolls: Vec<i32> = (0..450).map(|k| if k % 2 == 0 { 1 } else { 0 }).collect();
    rolls.extend(std::iter::repeat(2).take(20));
    arch.drunkard_with(&Point::new(10, 10), &rolls, &mut map);
    assert_eq!(floors(&map), 2);
    let mut short = rock();
    let mut early: Vec<i32> = (0..390).map(|k| if k % 2 == 0 { 1 } else { 0 }).collect();
    early.extend(std::iter::repeat(2).take(20));
    arch.drunkard_with(&Point::new(10, 10), &early, &mut short);
    assert_eq!(floors(&short), 11);
}

#[test]
fn architect_roll_picks_the_architect() {
    let mut rng = RandomNumberGenerator::seeded(3);
    let rooms = MapBuilder::new_with_roll(2, &mut rng);
    assert_eq!(rooms.phase, GenPhase::PlacingRooms);
    assert!(rooms.builder.map.tiles.iter().all(|t| *t == TileType::Wall));
    let cave = MapBuilder::new_with_roll(1, &mut rng);
    assert!(cave.phase == GenPhase::Amulet || cave.phase == GenPhase::Failed);
    let cavern = MapBuilder::new_with_roll(0, &mut rng);
    assert!(matches!(cavern.phase, GenPhase::Amulet | GenPhase::RandomDrunkards | GenPhase::ChainedDrunkards));
    assert_eq!(cavern.builder.map.tiles[get_map_idx(40, 25)], TileType::Floor);
}

#[test]
fn walker_roll_picks_chained_or_random() {
    for seed in 0..20 {
        let mut rng = RandomNumberGenerator::seeded(seed);
        let mut arch = DrunkardsWalkArchitect {};
        let chained = arch.init_with_roll(0, &mut rng);
        assert!(chained.phase == GenPhase::ChainedDrunkards || chained.phase == GenPhase::Amulet);
        let random = arch.init_with_roll(3, &mut rng);
        assert!(random.phase == GenPhase::RandomDrunkards || random.phase == GenPhase::Amulet);
    }
}
