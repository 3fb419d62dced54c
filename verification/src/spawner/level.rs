//! Spawning for the later, configured levels.

use vstd::prelude::*;
use bracket_lib::prelude::RandomNumberGenerator;
use crate::components::{FieldOfView, Health, Player};
use crate::geometry::Point;
use crate::spawner::config::Config;
use crate::spawner::{bare_entity, has_components, SpawnedEntity};

verus! {

broadcast use vstd::string::group_string_axioms;

/// Populates a level from the loaded configuration: one configured entity, drawn by weight,
/// at each spawn point.
pub fn spawn_level(config: &Config, rng: &mut RandomNumberGenerator, level: usize, spawn_points: &Vec<Point>) -> (spawned: Vec<SpawnedEntity>)
    requires
        config.spawnable_at(level, spawn_points.len() as nat),
    ensures
        config.spawns_for(level, spawn_points@, spawned@),
{
    config.spawn_entities(rng, level, spawn_points)
}

/// The player of the configured levels: ten hit points, one point of damage, sight of eight
/// tiles, drawn as `@`.
pub fn spawn_player(pos: Point) -> (e: SpawnedEntity)
    ensures
        has_components(&e, pos, '@', false, false, false, None, false),
        e.player == Some(Player { map_level: 0 }),
        e.health == Some(Health { current: 10, max: 10 }),
        e.damage == Some(1i32),
        e.fov matches Some(f) && f.radius == 8 && f.is_dirty && f.visible_tiles@.len() == 0,
        e.name is None,
{
    let mut e = bare_entity(pos, '@');
    e.player = Some(Player { map_level: 0 });
    e.health = Some(Health { current: 10, max: 10 });
    e.fov = Some(FieldOfView::new(8));
    e.damage = Some(1);
    e
}

/// The Amulet of Yala, an item drawn as `|`.
pub fn spawn_amulet_of_yala(pos: Point) -> (e: SpawnedEntity)
    ensures
        has_components(&e, pos, '|', true, true, false, None, false),
        e.name matches Some(n) && n@ == "Amulet of Yala"@,
        e.player is None,
        e.health is None,
        e.fov is None,
        e.damage is None,
{
    let mut e = bare_entity(pos, '|');
    e.is_item = true;
    e.is_amulet = true;
    e.name = Some("Amulet of Yala".to_string());
    e
}

} // verus!
