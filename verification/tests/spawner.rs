use rusty_roguelike::spawner::config::unknown_effects;
use rusty_roguelike::map::TileType;
use rusty_roguelike::map_builder::themes::tile_glyph;
use rusty_roguelike::map_builder::ThemeKind;
use bracket_lib::prelude::RandomNumberGenerator;
use std::collections::HashSet;
use rusty_roguelike::components::{ColorPair, Health, NamedColor, Player};
use rusty_roguelike::geometry::Point;
use rusty_roguelike::glyph::to_cp437;
use rusty_roguelike::spawner::config::{Config, EntityDefinition, EntityType};
use rusty_roguelike::spawner::{
    claws, goblin, spawn_amulet_of_yala, spawn_entity, spawn_healing_potion, spawn_magic_map,
    spawn_monster, spawn_player,
};
use rusty_roguelike::spawner::level;

fn def(entity_type: EntityType, levels: &[usize], frequency: i32, name: &str, glyph: char) -> EntityDefinition {
    EntityDefinition {
        entity_type,
        levels: levels.iter().copied().collect::<HashSet<usize>>(),
        frequency,
        name: name.to_string(),
        glyph,
        vision_range: None,
        provides: None,
        hp: None,
        base_damage: None,
    }
}

#[test]
fn glyphs_come_from_code_page_437() {
    assert_eq!(to_cp437('@'), 64);
    assert_eq!(to_cp437('g'), 103);
    assert_eq!(to_cp437('☺'), 1);
    assert_eq!(to_cp437('ü'), 129);
}

#[test]
fn player_spawns_with_three_hit_points() {
    let e = spawn_player(Point::new(3, 4));
    assert_eq!(e.pos, Point::new(3, 4));
    assert_eq!(e.render.glyph, 64);
    assert_eq!(e.render.color, ColorPair::new(NamedColor::White, NamedColor::Black));
    assert_eq!(e.player, Some(Player { map_level: 0 }));
    assert_eq!(e.health, Some(Health { current: 3, max: 3 }));
    assert_eq!(e.fov.as_ref().unwrap().radius, 8);
    assert!(!e.is_enemy && !e.is_item);
}

#[test]
fn configured_player_spawns_with_ten_hit_points() {
    let e = level::spawn_player(Point::new(3, 4));
    assert_eq!(e.health, Some(Health { current: 10, max: 10 }));
    assert_eq!(e.damage, Some(1));
    let a = level::spawn_amulet_of_yala(Point::new(1, 1));
    assert_eq!(a.name.as_deref(), Some("Amulet of Yala"));
    assert!(a.is_amulet && a.is_item);
}

#[test]
fn items_spawn_with_their_effects() {
    let a = spawn_amulet_of_yala(Point::new(1, 1));
    assert_eq!(a.render.glyph, 124);
    assert!(a.is_item && a.is_amulet);
    let p = spawn_healing_potion(Point::new(1, 1));
    assert_eq!(p.name.as_deref(), Some("Healing Potion"));
    assert_eq!(p.provides_healing, Some(2));
    assert_eq!(p.render.glyph, 33);
    let m = spawn_magic_map(Point::new(1, 1));
    assert!(m.provides_map && m.is_item);
    assert_eq!(m.render.glyph, 123);
}

#[test]
fn monster_templates() {
    let (hp, name, glyph) = goblin();
    assert_eq!((hp, name.as_str(), glyph), (1, "Goblin", 103));
    let (hp, name, glyph) = claws();
    assert_eq!((hp, name.as_str(), glyph), (2, "Claw Monster", 111));
}

#[test]
fn monsters_are_goblins_or_claw_monsters() {
    let mut goblins = 0;
    let mut others = 0;
    let mut rng = RandomNumberGenerator::seeded(17);
    for _ in 0..200 {
        let e = spawn_monster(&mut rng, Point::new(5, 5));
        assert!(e.is_enemy && e.chases_player);
        assert_eq!(e.fov.as_ref().unwrap().radius, 6);
        match e.name.as_deref() {
            Some("Goblin") => { goblins += 1; assert_eq!(e.health, Some(Health { current: 1, max: 1 })); }
            Some("Claw Monster") => { others += 1; assert_eq!(e.health, Some(Health { current: 2, max: 2 })); }
            _ => panic!("unexpected monster"),
        }
    }
    assert!(goblins > others && others > 0);
}

#[test]
fn random_entities_cover_every_kind() {
    let mut rng = RandomNumberGenerator::seeded(4);
    let (mut potions, mut maps, mut monsters) = (0, 0, 0);
    for _ in 0..300 {
        let e = spawn_entity(&mut rng, Point::new(2, 2));
        if e.provides_healing.is_some() { potions += 1 } else if e.provides_map { maps += 1 } else { assert!(e.is_enemy); monsters += 1 }
    }
    assert!(potions > 0 && maps > 0 && monsters > potions);
}

#[test]
fn weighted_pool_repeats_by_frequency() {
    let config = Config {
        entity_definitions: vec![
            def(EntityType::Enemy, &[0, 1], 2, "Orc", 'o'),
            def(EntityType::Item, &[1], 3, "Potion", '!'),
            def(EntityType::Item, &[0], 0, "Nothing", '?'),
            def(EntityType::Item, &[0], -1, "Less", '?'),
        ],
    };
    assert_eq!(config.weighted_pool(0), vec![0, 0]);
    assert_eq!(config.weighted_pool(1), vec![0, 0, 1, 1, 1]);
    assert!(config.weighted_pool(5).is_empty());
}

#[test]
fn configured_entity_gets_its_components() {
    let config = Config { entity_definitions: vec![] };
    let mut orc = def(EntityType::Enemy, &[0], 1, "Orc", '☺');
    orc.vision_range = Some(5);
    orc.hp = Some(4);
    orc.base_damage = Some(2);
    let e = config.spawn_entity(&Point::new(7, 8), &orc);
    assert_eq!(e.render.glyph, 1);
    assert!(e.is_enemy && e.chases_player && !e.is_item && !e.is_weapon);
    assert_eq!(e.health, Some(Health { current: 4, max: 4 }));
    assert_eq!(e.fov.as_ref().unwrap().radius, 5);
    assert_eq!(e.damage, Some(2));
    assert_eq!(e.name.as_deref(), Some("Orc"));

    let mut potion = def(EntityType::Item, &[0], 1, "Potion", '!');
    potion.provides = Some(vec![("Healing".to_string(), 6), ("MagicMap".to_string(), 0), ("Teleport".to_string(), 1)]);
    let e = config.spawn_entity(&Point::new(1, 1), &potion);
    assert_eq!(e.provides_healing, Some(6));
    assert!(e.provides_map && e.is_item && e.health.is_none());

    let mut sword = def(EntityType::Item, &[0], 1, "Sword", '/');
    sword.base_damage = Some(3);
    let e = config.spawn_entity(&Point::new(1, 1), &sword);
    assert!(e.is_weapon);
    assert_eq!(e.damage, Some(3));
}

#[test]
fn spawn_entities_fills_each_point_from_level_pool() {
    let mut orc = def(EntityType::Enemy, &[1], 1, "Orc", 'o');
    orc.vision_range = Some(6);
    orc.hp = Some(2);
    let config = Config { entity_definitions: vec![orc, def(EntityType::Item, &[1], 1, "Potion", '!'), def(EntityType::Item, &[2], 5, "Later", 'l')] };
    let points: Vec<Point> = (1..40).map(|i| Point::new(i, 1)).collect();
    let mut rng = RandomNumberGenerator::seeded(12);
    let spawned = config.spawn_entities(&mut rng, 1, &points);
    assert_eq!(spawned.len(), points.len());
    let mut kinds = HashSet::new();
    for (e, p) in spawned.iter().zip(points.iter()) {
        assert_eq!(e.pos, *p);
        let n = e.name.clone().unwrap();
        assert!(n == "Orc" || n == "Potion");
        kinds.insert(n);
    }
    assert_eq!(kinds.len(), 2);
    assert!(config.spawn_entities(&mut rng, 9, &points).is_empty());
    let spawned = level::spawn_level(&config, &mut rng, 2, &points[..3].to_vec());
    assert!(spawned.iter().all(|e| e.name.as_deref() == Some("Later")));
}

#[test]
fn unknown_effects_are_listed_in_order() {
    let mut potion = def(EntityType::Item, &[1], 1, "Odd Potion", '!');
    assert!(unknown_effects(&potion).is_empty());
    potion.provides = Some(vec![
        ("Teleport".to_string(), 1),
        ("Healing".to_string(), 6),
        ("MagicMap".to_string(), 0),
        ("Fly".to_string(), 2),
    ]);
    assert_eq!(unknown_effects(&potion), vec!["Teleport".to_string(), "Fly".to_string()]);
}

#[test]
fn theme_glyphs() {
    assert_eq!(tile_glyph(ThemeKind::Dungeon, TileType::Floor), '.' as u16);
    assert_eq!(tile_glyph(ThemeKind::Dungeon, TileType::Wall), '#' as u16);
    assert_eq!(tile_glyph(ThemeKind::Forest, TileType::Floor), ';' as u16);
    assert_eq!(tile_glyph(ThemeKind::Forest, TileType::Wall), '"' as u16);
    assert_eq!(tile_glyph(ThemeKind::Forest, TileType::Exit), '>' as u16);
    assert_eq!(to_cp437('>'), tile_glyph(ThemeKind::Dungeon, TileType::Exit));
}
