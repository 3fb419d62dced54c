//! What the player, the monsters and the items are made of when they enter the world.

pub mod config;
pub mod level;

use vstd::prelude::*;
use bracket_lib::prelude::RandomNumberGenerator;
use crate::components::{ColorPair, FieldOfView, Health, NamedColor, Player, Render};
use crate::geometry::Point;
use crate::glyph::{cp437_of, to_cp437};
use crate::random::roll_dice;

verus! {

broadcast use vstd::string::group_string_axioms;

/// The components of an entity about to enter the world. Flags and `None` mark components
/// it does not have.
pub struct SpawnedEntity {
    pub pos: Point,
    pub render: Render,
    pub player: Option<Player>,
    pub health: Option<Health>,
    pub name: Option<String>,
    pub fov: Option<FieldOfView>,
    pub damage: Option<i32>,
    pub is_item: bool,
    pub is_amulet: bool,
    pub is_enemy: bool,
    pub chases_player: bool,
    pub provides_healing: Option<i32>,
    pub provides_map: bool,
    pub is_weapon: bool,
}

/// White on black, the colors everything is drawn in.
pub open spec fn white_on_black() -> ColorPair {
    ColorPair { fg: NamedColor::White, bg: NamedColor::Black }
}

/// Whether `e` has, of its optional components, exactly those that the flags and options
/// given say; used to state what each spawn function builds.
pub open spec fn has_components(e: &SpawnedEntity, pos: Point, glyph: char, is_item: bool, is_amulet: bool,
    is_enemy: bool, provides_healing: Option<i32>, provides_map: bool) -> bool {
    &&& e.pos == pos
    &&& e.render == Render { color: white_on_black(), glyph: cp437_of(glyph) }
    &&& e.is_item == is_item
    &&& e.is_amulet == is_amulet
    &&& e.is_enemy == is_enemy
    &&& e.chases_player == is_enemy
    &&& e.provides_healing == provides_healing
    &&& e.provides_map == provides_map
    &&& !e.is_weapon
}

/// An entity with no optional component.
pub fn bare_entity(pos: Point, glyph: char) -> (e: SpawnedEntity)
    ensures
        has_components(&e, pos, glyph, false, false, false, None, false),
        e.player is None,
        e.health is None,
        e.name is None,
        e.fov is None,
        e.damage is None,
{
    SpawnedEntity {
        pos,
        render: Render { color: ColorPair::new(NamedColor::White, NamedColor::Black), glyph: to_cp437(glyph) },
        player: None,
        health: None,
        name: None,
        fov: None,
        damage: None,
        is_item: false,
        is_amulet: false,
        is_enemy: false,
        chases_player: false,
        provides_healing: None,
        provides_map: false,
        is_weapon: false,
    }
}

/// The player on the first level: three hit points, sight of eight tiles, drawn as `@`.
pub fn spawn_player(pos: Point) -> (e: SpawnedEntity)
    ensures
        has_components(&e, pos, '@', false, false, false, None, false),
        e.player == Some(Player { map_level: 0 }),
        e.health == Some(Health { current: 3, max: 3 }),
        e.fov matches Some(f) && f.radius == 8 && f.is_dirty && f.visible_tiles@.len() == 0,
        e.name is None,
        e.damage is None,
{
    let mut e = bare_entity(pos, '@');
    e.player = Some(Player { map_level: 0 });
    e.health = Some(Health { current: 3, max: 3 });
    e.fov = Some(FieldOfView::new(8));
    e
}

/// The Amulet of Yala, an item drawn as `|`.
pub fn spawn_amulet_of_yala(pos: Point) -> (e: SpawnedEntity)
    ensures
        has_components(&e, pos, '|', true, true, false, None, false),
        e.name matches Some(n) && n@ == "Amulet of Yala"@,
        e.player is None,
        e.health is None,
        e.fov is None,
        e.damage is None,
{
    let mut e = bare_entity(pos, '|');
    e.is_item = true;
    e.is_amulet = true;
    e.name = Some("Amulet of Yala".to_string());
    e
}

/// A healing potion, an item drawn as `!` that heals two hit points.
pub fn spawn_healing_potion(pos: Point) -> (e: SpawnedEntity)
    ensures
        has_components(&e, pos, '!', true, false, false, Some(2), false),
        e.name matches Some(n) && n@ == "Healing Potion"@,
        e.player is None,
        e.health is None,
        e.fov is None,
        e.damage is None,
{
    let mut e = bare_entity(pos, '!');
    e.is_item = true;
    e.name = Some("Healing Potion".to_string());
    e.provides_healing = Some(2);
    e
}

/// A dungeon map, an item drawn as `{` that reveals the level.
pub fn spawn_magic_map(pos: Point) -> (e: SpawnedEntity)
    ensures
        has_components(&e, pos, '{', true, false, false, None, true),
        e.name matches Some(n) && n@ == "Dungeon Map"@,
        e.player is None,
        e.health is None,
        e.fov is None,
        e.damage is None,
{
    let mut e = bare_entity(pos, '{');
    e.is_item = true;
    e.name = Some("Dungeon Map".to_string());
    e.provides_map = true;
    e
}

/// Hit points, name and glyph of a goblin.
pub fn goblin() -> (r: (i32, String, u16))
    ensures
        r.0 == 1,
        r.1@ == "Goblin"@,
        r.2 == cp437_of('g'),
{
    (1, "Goblin".to_string(), to_cp437('g'))
}

/// Hit points, name and glyph of a claw monster.
pub fn claws() -> (r: (i32, String, u16))
    ensures
        r.0 == 2,
        r.1@ == "Claw Monster"@,
        r.2 == cp437_of('o'),
{
    (2, "Claw Monster".to_string(), to_cp437('o'))
}

/// Whether `e` is the monster with the given hit points, name and glyph character.
pub open spec fn is_monster(e: &SpawnedEntity, pos: Point, hp: i32, name: Seq<char>, glyph: char) -> bool {
    &&& has_components(e, pos, glyph, false, false, true, None, false)
    &&& e.health == Some(Health { current: hp, max: hp })
    &&& e.name matches Some(n) && n@ == name
    &&& e.fov matches Some(f) && f.radius == 6 && f.is_dirty && f.visible_tiles@.len() == 0
    &&& e.player is None
    &&& e.damage is None
}

/// Whether `e` is the healing potion at `pos`.
pub open spec fn is_healing_potion(e: &SpawnedEntity, pos: Point) -> bool {
    &&& has_components(e, pos, '!', true, false, false, Some(2), false)
    &&& e.name matches Some(n) && n@ == "Healing Potion"@
    &&& e.player is None && e.health is None && e.fov is None && e.damage is None
}

/// Whether `e` is the dungeon map at `pos`.
pub open spec fn is_dungeon_map(e: &SpawnedEntity, pos: Point) -> bool {
    &&& has_components(e, pos, '{', true, false, false, None, true)
    &&& e.name matches Some(n) && n@ == "Dungeon Map"@
    &&& e.player is None && e.health is None && e.fov is None && e.damage is None
}

/// Whether `e` is the monster a roll of the ten-sided die gives at `pos`: a goblin on 1 to
/// 8, a claw monster otherwise.
pub open spec fn is_monster_for_roll(e: &SpawnedEntity, pos: Point, roll: i32) -> bool {
    if 1 <= roll <= 8 {
        is_monster(e, pos, 1, "Goblin"@, 'g')
    } else {
        is_monster(e, pos, 2, "Claw Monster"@, 'o')
    }
}

/// The monster for a roll of the ten-sided die: a goblin on 1 to 8, a claw monster
/// otherwise; it chases the player and sees six tiles.
pub fn monster_for_roll(roll: i32, pos: Point) -> (e: SpawnedEntity)
    ensures
        is_monster_for_roll(&e, pos, roll),
{
    let (hp, name, glyph) = if 1 <= roll && roll <= 8 { goblin() } else { claws() };
    SpawnedEntity {
        pos,
        render: Render { color: ColorPair::new(NamedColor::White, NamedColor::Black), glyph },
        player: None,
        health: Some(Health { current: hp, max: hp }),
        name: Some(name),
        fov: Some(FieldOfView::new(6)),
        damage: None,
        is_item: false,
        is_amulet: false,
        is_enemy: true,
        chases_player: true,
        provides_healing: None,
        provides_map: false,
        is_weapon: false,
    }
}

/// A monster that chases the player, with sight of six tiles: a goblin on a roll of 1 to 8
/// on a ten-sided die, a claw monster otherwise.
pub fn spawn_monster(rng: &mut RandomNumberGenerator, pos: Point) -> (e: SpawnedEntity)
    ensures
        exists|roll: i32| 1 <= roll <= 10 && is_monster_for_roll(&e, pos, roll),
        is_monster(&e, pos, 1, "Goblin"@, 'g') || is_monster(&e, pos, 2, "Claw Monster"@, 'o'),
{
    let roll = roll_dice(rng, 1, 10);
    monster_for_roll(roll, pos)
}

/// Whether `e` is what a roll of the twelve-sided die gives at `pos`: a healing potion on
/// 1, a dungeon map on 2, a monster otherwise.
pub open spec fn is_entity_for_roll(e: &SpawnedEntity, pos: Point, roll: i32) -> bool {
    if roll == 1 {
        is_healing_potion(e, pos)
    } else if roll == 2 {
        is_dungeon_map(e, pos)
    } else {
        exists|monster_roll: i32| 1 <= monster_roll <= 10 && is_monster_for_roll(e, pos, monster_roll)
    }
}

/// The entity for a roll of the twelve-sided die: a healing potion on 1, a dungeon map on
/// 2, otherwise a monster, for which the ten-sided die is rolled.
pub fn entity_for_roll(roll: i32, rng: &mut RandomNumberGenerator, pos: Point) -> (e: SpawnedEntity)
    ensures
        is_entity_for_roll(&e, pos, roll),
{
    if roll == 1 {
        spawn_healing_potion(pos)
    } else if roll == 2 {
        spawn_magic_map(pos)
    } else {
        spawn_monster(rng, pos)
    }
}

/// A random entity: a healing potion on a roll of 1 on a twelve-sided die, a dungeon map on
/// a 2, a monster otherwise.
pub fn spawn_entity(rng: &mut RandomNumberGenerator, pos: Point) -> (e: SpawnedEntity)
    ensures
        exists|roll: i32| 1 <= roll <= 12 && is_entity_for_roll(&e, pos, roll),
        has_components(&e, pos, '!', true, false, false, Some(2), false)
            || has_components(&e, pos, '{', true, false, false, None, true)
            || is_monster(&e, pos, 1, "Goblin"@, 'g') || is_monster(&e, pos, 2, "Claw Monster"@, 'o'),
{
    let roll = roll_dice(rng, 1, 12);
    entity_for_roll(roll, rng, pos)
}

} // verus!
