//! The configured entities of the later levels, and how a level is populated from them.

use vstd::prelude::*;
use std::collections::HashSet;
use bracket_lib::prelude::RandomNumberGenerator;
use crate::components::{ColorPair, FieldOfView, Health, NamedColor, Render};
use crate::geometry::Point;
use crate::glyph::{cp437_of, to_cp437};
use crate::random::random_slice_entry;
use crate::spawner::{white_on_black, SpawnedEntity};

verus! {

broadcast use vstd::string::group_string_axioms, vstd::std_specs::hash::group_hash_axioms;

/// Whether a configured entity is a monster or an item.
#[derive(Clone, Copy, Debug, PartialEq, Eq, Structural)]
pub enum EntityType {
    Enemy,
    Item,
}

/// One configured kind of entity: what it is, on which levels and how often it appears, and
/// its optional traits.
pub struct EntityDefinition {
    pub entity_type: EntityType,
    pub levels: HashSet<usize>,
    pub frequency: i32,
    pub name: String,
    pub glyph: char,
    pub vision_range: Option<i32>,
    pub provides: Option<Vec<(String, i32)>>,
    pub hp: Option<i32>,
    pub base_damage: Option<i32>,
}

/// All configured kinds of entity.
pub struct Config {
    pub entity_definitions: Vec<EntityDefinition>,
}

/// The pool the spawner draws from: the index of each of the first `n` definitions that
/// appear on `level`, repeated as often as its frequency says.
pub open spec fn weighted_definitions(defs: Seq<EntityDefinition>, level: usize, n: int) -> Seq<usize>
    decreases n,
{
    if n <= 0 {
        Seq::empty()
    } else {
        let rest = weighted_definitions(defs, level, n - 1);
        let d = defs[n - 1];
        if d.levels@.contains(level) && d.frequency > 0 {
            rest + Seq::new(d.frequency as nat, |k: int| (n - 1) as usize)
        } else {
            rest
        }
    }
}

/// The healing amount the last `"Healing"` effect among the first `n` provides, if any.
pub open spec fn healing_from(effects: Seq<(String, i32)>, n: int) -> Option<i32>
    decreases n,
{
    if n <= 0 {
        None
    } else if effects[n - 1].0@ == "Healing"@ {
        Some(effects[n - 1].1)
    } else {
        healing_from(effects, n - 1)
    }
}

/// Whether one of the first `n` effects is `"MagicMap"`.
pub open spec fn map_from(effects: Seq<(String, i32)>, n: int) -> bool {
    exists|k: int| 0 <= k < n && k < effects.len() && (#[trigger] effects[k]).0@ == "MagicMap"@
}

/// The names of the first `n` effects that are neither `"Healing"` nor `"MagicMap"`, in order.
pub open spec fn unknown_effects_upto(effects: Seq<(String, i32)>, n: int) -> Seq<Seq<char>>
    decreases n,
{
    if n <= 0 {
        Seq::empty()
    } else {
        let rest = unknown_effects_upto(effects, n - 1);
        let name = effects[n - 1].0@;
        if name == "Healing"@ || name == "MagicMap"@ { rest } else { rest.push(name) }
    }
}

/// The effect names of a definition that no component stands for, in order: an entity made
/// from it goes without them.
pub fn unknown_effects(definition: &EntityDefinition) -> (names: Vec<String>)
    ensures
        names@.map_values(|s: String| s@) == match definition.provides {
            Some(v) => unknown_effects_upto(v@, v@.len() as int),
            None => Seq::empty(),
        },
{
    let mut names: Vec<String> = Vec::new();
    if let Some(effects) = &definition.provides {
        let healing = "Healing".to_string();
        let magic_map = "MagicMap".to_string();
        let mut k: usize = 0;
        while k < effects.len()
            invariant
                k <= effects.len(),
                healing@ == "Healing"@,
                magic_map@ == "MagicMap"@,
                names@.map_values(|s: String| s@) == unknown_effects_upto(effects@, k as int),
            decreases effects.len() - k,
        {
            let effect = &effects[k];
            if !(effect.0 == healing) && !(effect.0 == magic_map) {
                let ghost before = names@;
                names.push(effect.0.clone());
                assert(names@.map_values(|s: String| s@) =~= before.map_values(|s: String| s@).push(effect.0@));
            }
            k = k + 1;
        }
    } else {
        assert(names@.map_values(|s: String| s@) =~= Seq::<Seq<char>>::empty());
    }
    names
}

/// Whether `e` is the entity that definition `d` makes at `pt`.
pub open spec fn made_from(e: &SpawnedEntity, pt: Point, d: &EntityDefinition) -> bool {
    &&& e.pos == pt
    &&& e.render == Render { color: white_on_black(), glyph: cp437_of(d.glyph) }
    &&& e.name matches Some(n) && n@ == d.name@
    &&& e.player is None
    &&& !e.is_amulet
    &&& e.is_item == (d.entity_type == EntityType::Item)
    &&& e.is_enemy == (d.entity_type == EntityType::Enemy)
    &&& e.chases_player == (d.entity_type == EntityType::Enemy)
    &&& d.entity_type == EntityType::Enemy ==> {
        &&& e.fov matches Some(f) && f.radius == d.vision_range->0 && f.is_dirty && f.visible_tiles@.len() == 0
        &&& e.health == Some(Health { current: d.hp->0, max: d.hp->0 })
    }
    &&& d.entity_type == EntityType::Item ==> e.fov is None && e.health is None
    &&& e.provides_healing == match d.provides { Some(v) => healing_from(v@, v@.len() as int), None => None }
    &&& e.provides_map == match d.provides { Some(v) => map_from(v@, v@.len() as int), None => false }
    &&& e.damage == d.base_damage
    &&& e.is_weapon == (d.base_damage is Some && d.entity_type == EntityType::Item)
}

/// Whether `e` is made at `pt` from a definition that the pool holds.
pub open spec fn made_from_pool(e: &SpawnedEntity, pt: Point, defs: Seq<EntityDefinition>, pool: Seq<usize>) -> bool {
    exists|i: usize| #[trigger] pool.contains(i) && i < defs.len() && made_from(e, pt, &defs[i as int])
}

impl Config {
    /// Whether a level can be populated without failing: the weighted pool fits the dice,
    /// and, when there is anywhere to spawn, every monster that can be drawn has its sight
    /// and hit points configured.
    pub open spec fn spawnable_at(&self, level: usize, n_points: nat) -> bool {
        let defs = self.entity_definitions@;
        &&& weighted_definitions(defs, level, defs.len() as int).len() < i32::MAX
        &&& n_points > 0 ==> forall|i: int| 0 <= i < defs.len() && (#[trigger] defs[i]).levels@.contains(level)
            && defs[i].frequency > 0 && defs[i].entity_type == EntityType::Enemy
            ==> defs[i].vision_range is Some && defs[i].hp is Some
    }

    /// Whether `spawned` is a population of `level`: nothing when no definition appears on the
    /// level, otherwise, at each point in order, an entity made from a definition of the pool.
    pub open spec fn spawns_for(&self, level: usize, points: Seq<Point>, spawned: Seq<SpawnedEntity>) -> bool {
        let defs = self.entity_definitions@;
        let pool = weighted_definitions(defs, level, defs.len() as int);
        &&& spawned.len() == if pool.len() == 0 { 0 } else { points.len() }
        &&& forall|k: int| 0 <= k < spawned.len() ==> made_from_pool(&#[trigger] spawned[k], points[k], defs, pool)
    }

    /// The entity that a definition makes at `pt`: drawn as its glyph, named, with the
    /// components its type, effects and damage call for. Effects it does not know, which
    /// `unknown_effects` lists, are left out.
    pub fn spawn_entity(&self, pt: &Point, definition: &EntityDefinition) -> (e: SpawnedEntity)
        requires
            definition.entity_type == EntityType::Enemy ==> definition.vision_range is Some && definition.hp is Some,
        ensures
            made_from(&e, *pt, definition),
    {
        let is_enemy = definition.entity_type == EntityType::Enemy;
        let mut e = SpawnedEntity {
            pos: *pt,
            render: Render { color: ColorPair::new(NamedColor::White, NamedColor::Black), glyph: to_cp437(definition.glyph) },
            player: None,
            health: None,
            name: Some(definition.name.clone()),
            fov: None,
            damage: None,
            is_item: !is_enemy,
            is_amulet: false,
            is_enemy,
            chases_player: is_enemy,
            provides_healing: None,
            provides_map: false,
            is_weapon: false,
        };
        if is_enemy {
            let range = definition.vision_range.unwrap();
            let hp = definition.hp.unwrap();
            e.fov = Some(FieldOfView::new(range));
            e.health = Some(Health { current: hp, max: hp });
        }
        if let Some(effects) = &definition.provides {
            let healing = "Healing".to_string();
            let magic_map = "MagicMap".to_string();
            let mut k: usize = 0;
            while k < effects.len()
                invariant
                    k <= effects.len(),
                    healing@ == "Healing"@,
                    magic_map@ == "MagicMap"@,
                    e.provides_healing == healing_from(effects@, k as int),
                    e.provides_map == map_from(effects@, k as int),
                    e.pos == *pt,
                    e.render == (Render { color: white_on_black(), glyph: cp437_of(definition.glyph) }),
                    e.name matches Some(n) && n@ == definition.name@,
                    e.player is None,
                    !e.is_amulet,
                    e.is_item == !is_enemy,
                    e.is_enemy == is_enemy,
                    e.chases_player == is_enemy,
                    is_enemy == (definition.entity_type == EntityType::Enemy),
                    is_enemy ==> (e.fov matches Some(f) && f.radius == definition.vision_range->0 && f.is_dirty
                        && f.visible_tiles@.len() == 0) && e.health == Some(Health { current: definition.hp->0, max: definition.hp->0 }),
                    !is_enemy ==> e.fov is None && e.health is None,
                    e.damage is None,
                    !e.is_weapon,
                decreases effects.len() - k,
            {
                let effect = &effects[k];
                let is_healing = effect.0 == healing;
                let is_map = effect.0 == magic_map;
                proof {
                    reveal_strlit("Healing");
                    reveal_strlit("MagicMap");
                    assert("Healing"@.len() != "MagicMap"@.len());
                    assert(!(is_healing && is_map));
                }
                if is_healing {
                    e.provides_healing = Some(effect.1);
                } else if is_map {
                    e.provides_map = true;
                }
                proof {
                    if effect.0@ == "MagicMap"@ {
                        assert(map_from(effects@, k + 1)) by {
                            assert(effects@[k as int].0@ == "MagicMap"@);
                        }
                    } else {
                        assert(map_from(effects@, k + 1) == map_from(effects@, k as int)) by {
                            if map_from(effects@, k + 1) {
                                let w = choose|w: int| 0 <= w < k + 1 && w < effects@.len() && (#[trigger] effects@[w]).0@ == "MagicMap"@;
                                assert(w != k);
                            }
                        }
                    }
                }
                k = k + 1;
            }
        }
        if let Some(damage) = definition.base_damage {
            e.damage = Some(damage);
            if definition.entity_type == EntityType::Item {
                e.is_weapon = true;
            }
        }
        e
    }

    /// The pool the spawner draws from on `level`: the index of each definition that appears
    /// on the level, as many times as its frequency.
    pub fn weighted_pool(&self, level: usize) -> (pool: Vec<usize>)
        requires
            weighted_definitions(self.entity_definitions@, level, self.entity_definitions@.len() as int).len() < i32::MAX,
        ensures
            pool@ == weighted_definitions(self.entity_definitions@, level, self.entity_definitions@.len() as int),
    {
        let ghost defs = self.entity_definitions@;
        let mut pool: Vec<usize> = Vec::new();
        let mut i: usize = 0;
        while i < self.entity_definitions.len()
            invariant
                defs == self.entity_definitions@,
                i <= defs.len(),
                weighted_definitions(defs, level, defs.len() as int).len() < i32::MAX,
                pool@ == weighted_definitions(defs, level, i as int),
            decreases defs.len() - i,
        {
            proof {
                lemma_weighted_prefix(defs, level, i + 1, defs.len() as int);
            }
            let d = &self.entity_definitions[i];
            let appears = d.levels.contains(&level);
            assert(appears == d.levels@.contains(level));
            if appears {
                let mut j: i32 = 0;
                let ghost base = pool@;
                while j < d.frequency
                    invariant
                        0 <= j,
                        d.frequency > 0 ==> j <= d.frequency,
                        d.frequency <= 0 ==> j == 0,
                        pool@ == base + Seq::new(j as nat, |k: int| i),
                        base.len() + d.frequency < i32::MAX || d.frequency <= 0,
                    decreases d.frequency - j,
                {
                    pool.push(i);
                    j = j + 1;
                    assert(pool@ =~= base + Seq::new(j as nat, |k: int| i));
                }
                proof {
                    if d.frequency > 0 {
                        assert(j == d.frequency);
                        assert(Seq::new(d.frequency as nat, |k: int| ((i + 1) - 1) as usize) =~= Seq::new(j as nat, |k: int| i));
                    } else {
                        assert(j == 0);
                    }
                }
                assert(pool@ =~= weighted_definitions(defs, level, i + 1));
            }
            i = i + 1;
        }
        pool
    }

    /// Populates `level`: at each spawn point in turn, an entity made from a definition drawn
    /// from the weighted pool; nothing at all when the pool is empty.
    pub fn spawn_entities(&self, rng: &mut RandomNumberGenerator, level: usize, spawn_points: &Vec<Point>) -> (spawned: Vec<SpawnedEntity>)
        requires
            self.spawnable_at(level, spawn_points.len() as nat),
        ensures
            self.spawns_for(level, spawn_points@, spawned@),
    {
        let definitions = self.weighted_pool(level);
        let ghost defs = self.entity_definitions@;
        let mut spawned: Vec<SpawnedEntity> = Vec::new();
        let mut k: usize = 0;
        while k < spawn_points.len()
            invariant
                defs == self.entity_definitions@,
                self.spawnable_at(level, spawn_points.len() as nat),
                definitions@ == weighted_definitions(defs, level, defs.len() as int),
                k <= spawn_points.len(),
                spawned.len() == if definitions.len() == 0 { 0 } else { k as int },
                forall|j: int| 0 <= j < spawned.len() ==> made_from_pool(&#[trigger] spawned@[j], spawn_points@[j], defs, definitions@),
            decreases spawn_points.len() - k,
        {
            if let Some(index) = random_slice_entry(rng, &definitions) {
                let i = *index;
                proof {
                    let w = choose|w: int| 0 <= w < definitions.len() && definitions@[w] == i;
                    assert(defs.len() == self.entity_definitions.len());
                    lemma_weighted_members(defs, level, defs.len() as int, w);
                }
                let e = self.spawn_entity(&spawn_points[k], &self.entity_definitions[i]);
                spawned.push(e);
                proof {
                    assert(definitions@.contains(i));
                    assert(made_from_pool(&spawned@[spawned.len() - 1], spawn_points@[k as int], defs, definitions@));
                }
            }
            k = k + 1;
        }
        spawned
    }
}

/// Every member of the pool indexes a definition that appears on the level with a positive
/// frequency.
pub proof fn lemma_weighted_members(defs: Seq<EntityDefinition>, level: usize, n: int, w: int)
    requires
        0 <= n <= defs.len(),
        defs.len() <= usize::MAX,
        0 <= w < weighted_definitions(defs, level, n).len(),
    ensures
        ({
            let i = weighted_definitions(defs, level, n)[w];
            &&& i < n
            &&& defs[i as int].levels@.contains(level)
            &&& defs[i as int].frequency > 0
        }),
    decreases n,
{
    if n > 0 {
        let rest = weighted_definitions(defs, level, n - 1);
        if w < rest.len() {
            let d = defs[n - 1];
            if d.levels@.contains(level) && d.frequency > 0 {
                assert(weighted_definitions(defs, level, n)[w] == rest[w]);
            }
            lemma_weighted_members(defs, level, n - 1, w);
        } else {
            let d = defs[n - 1];
            assert(d.levels@.contains(level) && d.frequency > 0);
            assert(weighted_definitions(defs, level, n)[w] == (n - 1) as usize);
        }
    }
}

/// The pool of a prefix of the definitions is no longer than the whole pool.
pub proof fn lemma_weighted_prefix(defs: Seq<EntityDefinition>, level: usize, m: int, n: int)
    requires
        0 <= m <= n,
    ensures
        weighted_definitions(defs, level, m).len() <= weighted_definitions(defs, level, n).len(),
    decreases n - m,
{
    if m < n {
        lemma_weighted_prefix(defs, level, m, n - 1);
    }
}

} // verus!
