//! What the heads-up display shows: hit points, the dungeon level, the inventory and the
//! weapons in hand.

use vstd::prelude::*;
use crate::components::{EntityId, Health, Player};
use crate::systems::player_input::{usable_items, CarriedItem, GameKey, key_slot, use_message};
use crate::components::{ActivateItem, Message};

verus! {

/// A carried item with its name and, for weapons, its damage.
pub struct HudItem {
    pub item: CarriedItem,
    pub name: String,
    pub damage: Option<i32>,
}

/// What the display shows.
pub struct HudView {
    pub health: Health,
    /// The dungeon level, counting from 1.
    pub level: u64,
    /// The usable items the player carries, in inventory order; the first is slot 1.
    pub inventory: Vec<(EntityId, String)>,
    /// The names and damage of the weapons the player carries.
    pub weapons: Vec<(String, i32)>,
}

/// The carried-item part of each display item.
pub open spec fn carried_of(items: Seq<HudItem>) -> Seq<CarriedItem> {
    items.map_values(|h: HudItem| h.item)
}

/// The weapons with damage among the first `n` display items that `player` carries.
pub open spec fn weapons_upto(items: Seq<HudItem>, player: EntityId, n: int) -> Seq<(Seq<char>, i32)>
    decreases n,
{
    if n <= 0 {
        Seq::empty()
    } else {
        let rest = weapons_upto(items, player, n - 1);
        let h = items[n - 1];
        if h.item.carrier == player && h.item.is_weapon && h.damage is Some {
            rest.push((h.name@, h.damage->0))
        } else {
            rest
        }
    }
}

/// The entities and names of the usable items among the first `n` display items that
/// `player` carries, in order.
pub open spec fn inventory_upto(items: Seq<HudItem>, player: EntityId, n: int) -> Seq<(EntityId, Seq<char>)>
    decreases n,
{
    if n <= 0 {
        Seq::empty()
    } else {
        let rest = inventory_upto(items, player, n - 1);
        let h = items[n - 1];
        if h.item.carrier == player && !h.item.is_weapon { rest.push((h.item.entity, h.name@)) } else { rest }
    }
}

/// The display for the player: its hit points, its level counted from 1, its usable items
/// in order with their names, and its weapons.
pub fn hud(health: Health, player: Player, player_entity: EntityId, items: &Vec<HudItem>) -> (view: HudView)
    ensures
        view.health == health,
        view.level == player.map_level + 1,
        view.inventory@.map_values(|e: (EntityId, String)| e.0) == usable_items(carried_of(items@), player_entity, items.len() as int),
        view.inventory@.map_values(|e: (EntityId, String)| (e.0, e.1@)) == inventory_upto(items@, player_entity, items.len() as int),
        view.weapons@.map_values(|w: (String, i32)| (w.0@, w.1)) == weapons_upto(items@, player_entity, items.len() as int),
{
    let mut inventory: Vec<(EntityId, String)> = Vec::new();
    let mut weapons: Vec<(String, i32)> = Vec::new();
    let mut i: usize = 0;
    while i < items.len()
        invariant
            i <= items.len(),
            inventory@.map_values(|e: (EntityId, String)| e.0) == usable_items(carried_of(items@), player_entity, i as int),
            inventory@.map_values(|e: (EntityId, String)| (e.0, e.1@)) == inventory_upto(items@, player_entity, i as int),
            weapons@.map_values(|w: (String, i32)| (w.0@, w.1)) == weapons_upto(items@, player_entity, i as int),
        decreases items.len() - i,
    {
        let h = &items[i];
        assert(carried_of(items@)[i as int] == h.item);
        if h.item.carrier == player_entity && !h.item.is_weapon {
            let ghost before = inventory@;
            inventory.push((h.item.entity, h.name.clone()));
            assert(inventory@.map_values(|e: (EntityId, String)| e.0) =~= before.map_values(|e: (EntityId, String)| e.0).push(h.item.entity));
            assert(inventory@.map_values(|e: (EntityId, String)| (e.0, e.1@))
                =~= before.map_values(|e: (EntityId, String)| (e.0, e.1@)).push((h.item.entity, h.name@)));
        }
        if h.item.carrier == player_entity && h.item.is_weapon {
            if let Some(d) = h.damage {
                let ghost before = weapons@;
                weapons.push((h.name.clone(), d));
                assert(weapons@.map_values(|w: (String, i32)| (w.0@, w.1)) =~= before.map_values(|w: (String, i32)| (w.0@, w.1)).push((h.name@, d)));
            }
        }
        i = i + 1;
    }
    HudView { health, level: player.map_level as u64 + 1, inventory, weapons }
}

/// The item the display lists in slot `n + 1` is the one the number key of that slot uses:
/// pressing it sends exactly the activation of that item.
pub proof fn lemma_hud_slot_is_key_slot(view: HudView, items: Seq<HudItem>, player: EntityId, key: GameKey, n: nat)
    requires
        view.inventory@.map_values(|e: (EntityId, String)| e.0) == usable_items(carried_of(items), player, items.len() as int),
        key_slot(key) == Some(n),
        n < view.inventory@.len(),
    ensures
        use_message(n, player, carried_of(items)) == seq![Message::Activate(ActivateItem { used_by: player, item: view.inventory@[n as int].0 })],
{
    let ids = view.inventory@.map_values(|e: (EntityId, String)| e.0);
    assert(ids[n as int] == view.inventory@[n as int].0);
    assert(carried_of(items).len() == items.len());
}

} // verus!
