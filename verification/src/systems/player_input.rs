//! The player's key press becomes a move, an attack or the use of an item.

use vstd::prelude::*;
use crate::components::{ActivateItem, EntityId, Located, Message, WantsToAttack, WantsToMove};
use crate::geometry::Point;
use crate::turn_state::TurnState;

verus! {

/// The keys the game reacts to; every other key is `Other`.
#[derive(Clone, Copy, Debug, PartialEq, Eq, Structural)]
pub enum GameKey {
    Left,
    Right,
    Up,
    Down,
    Key1,
    Key2,
    Key3,
    Key4,
    Key5,
    Key6,
    Key7,
    Key8,
    Key9,
    Other,
}

/// An item that some entity carries.
#[derive(Clone, Copy, Debug, PartialEq, Eq, Structural)]
pub struct CarriedItem {
    pub entity: EntityId,
    pub carrier: EntityId,
    pub is_weapon: bool,
}

/// The items among the first `n` that `player` carries and that are not weapons, in order.
pub open spec fn usable_items(items: Seq<CarriedItem>, player: EntityId, n: int) -> Seq<EntityId>
    decreases n,
{
    if n <= 0 {
        Seq::empty()
    } else {
        let rest = usable_items(items, player, n - 1);
        let it = items[n - 1];
        if it.carrier == player && !it.is_weapon { rest.push(it.entity) } else { rest }
    }
}

/// The step a key asks for.
pub open spec fn key_delta(key: GameKey) -> Point {
    match key {
        GameKey::Left => Point { x: -1i32, y: 0 },
        GameKey::Right => Point { x: 1, y: 0 },
        GameKey::Up => Point { x: 0, y: -1i32 },
        GameKey::Down => Point { x: 0, y: 1 },
        _ => Point { x: 0, y: 0 },
    }
}

/// The inventory slot a number key selects, counting from 0.
pub open spec fn key_slot(key: GameKey) -> Option<nat> {
    match key {
        GameKey::Key1 => Some(0),
        GameKey::Key2 => Some(1),
        GameKey::Key3 => Some(2),
        GameKey::Key4 => Some(3),
        GameKey::Key5 => Some(4),
        GameKey::Key6 => Some(5),
        GameKey::Key7 => Some(6),
        GameKey::Key8 => Some(7),
        GameKey::Key9 => Some(8),
        _ => None,
    }
}

/// The message that using slot `n` sends: the activation of the `n`-th usable item, if any.
pub open spec fn use_message(n: nat, player: EntityId, items: Seq<CarriedItem>) -> Seq<Message> {
    let usable = usable_items(items, player, items.len() as int);
    if n < usable.len() {
        seq![Message::Activate(ActivateItem { used_by: player, item: usable[n as int] })]
    } else {
        Seq::empty()
    }
}

/// The attacks the player makes on the first `n` enemies standing at `dest`.
pub open spec fn player_attacks(player: EntityId, enemies: Seq<Located>, dest: Point, n: int) -> Seq<Message>
    decreases n,
{
    if n <= 0 {
        Seq::empty()
    } else {
        let rest = player_attacks(player, enemies, dest, n - 1);
        if enemies[n - 1].pos == dest {
            rest.push(Message::Attack(WantsToAttack { attacker: player, victim: enemies[n - 1].entity }))
        } else {
            rest
        }
    }
}

/// The messages a key press sends: the item use a number key asks for; then, for a step,
/// an attack on each enemy on the destination, or a move there when there is none.
pub open spec fn input_messages(key: GameKey, player: EntityId, player_pos: Point, enemies: Seq<Located>, items: Seq<CarriedItem>) -> Seq<Message> {
    let used = match key_slot(key) {
        Some(n) => use_message(n, player, items),
        None => Seq::empty(),
    };
    let delta = key_delta(key);
    let dest = player_pos.spec_offset(delta);
    if delta.x != 0 || delta.y != 0 {
        let attacks = player_attacks(player, enemies, dest, enemies.len() as int);
        if attacks.len() > 0 {
            used + attacks
        } else {
            used.push(Message::Move(WantsToMove { entity: player, destination: dest }))
        }
    } else {
        used
    }
}

/// Uses the item in slot `n` of the player's inventory, if there is one, by adding the
/// activation message; returns the step the use takes, which is none.
pub fn use_item(n: usize, player: EntityId, items: &Vec<CarriedItem>, messages: &mut Vec<Message>) -> (delta: Point)
    ensures
        delta == Point::zero_spec(),
        final(messages)@ == old(messages)@ + use_message(n as nat, player, items@),
{
    let mut count: usize = 0;
    let mut found: Option<EntityId> = None;
    let mut i: usize = 0;
    while i < items.len()
        invariant
            i <= items.len(),
            count == usable_items(items@, player, i as int).len(),
            count <= i,
            found is None <==> n >= usable_items(items@, player, i as int).len(),
            found matches Some(e) ==> n < usable_items(items@, player, i as int).len()
                && e == usable_items(items@, player, i as int)[n as int],
        decreases items.len() - i,
    {
        let it = items[i];
        if it.carrier == player && !it.is_weapon {
            if count == n {
                found = Some(it.entity);
            }
            count = count + 1;
        }
        proof {
            let u0 = usable_items(items@, player, i as int);
            let u1 = usable_items(items@, player, i + 1);
            if it.carrier == player && !it.is_weapon {
                assert(u1 == u0.push(it.entity));
                if found is Some && n < u0.len() {
                    assert(u1[n as int] == u0[n as int]);
                }
            }
        }
        i = i + 1;
    }
    if let Some(item) = found {
        messages.push(Message::Activate(ActivateItem { used_by: player, item }));
        assert(messages@ =~= old(messages)@ + use_message(n as nat, player, items@));
    } else {
        assert(messages@ =~= old(messages)@ + use_message(n as nat, player, items@));
    }
    Point::zero()
}

/// Reacts to a key press: nothing when no key is down; otherwise sends the messages the key
/// asks for and hands the turn to the player, even when the key does nothing.
pub fn player_input(key: Option<GameKey>, player: EntityId, player_pos: Point, enemies: &Vec<Located>,
    items: &Vec<CarriedItem>, turn_state: &mut TurnState) -> (messages: Vec<Message>)
    requires
        i32::MIN < player_pos.x < i32::MAX,
        i32::MIN < player_pos.y < i32::MAX,
    ensures
        key is None ==> messages@.len() == 0 && *final(turn_state) == *old(turn_state),
        key matches Some(k) ==> messages@ == input_messages(k, player, player_pos, enemies@, items@)
            && *final(turn_state) == TurnState::PlayerTurn,
{
    let mut messages: Vec<Message> = Vec::new();
    if let Some(k) = key {
        let delta = match k {
            GameKey::Left => Point::new(-1, 0),
            GameKey::Right => Point::new(1, 0),
            GameKey::Up => Point::new(0, -1),
            GameKey::Down => Point::new(0, 1),
            GameKey::Key1 => use_item(0, player, items, &mut messages),
            GameKey::Key2 => use_item(1, player, items, &mut messages),
            GameKey::Key3 => use_item(2, player, items, &mut messages),
            GameKey::Key4 => use_item(3, player, items, &mut messages),
            GameKey::Key5 => use_item(4, player, items, &mut messages),
            GameKey::Key6 => use_item(5, player, items, &mut messages),
            GameKey::Key7 => use_item(6, player, items, &mut messages),
            GameKey::Key8 => use_item(7, player, items, &mut messages),
            GameKey::Key9 => use_item(8, player, items, &mut messages),
            GameKey::Other => Point::new(0, 0),
        };
        assert(delta == key_delta(k));
        let ghost used = messages@;
        let destination = player_pos.offset_by(delta);
        if delta.x != 0 || delta.y != 0 {
            let mut is_attacking = false;
            let mut j: usize = 0;
            while j < enemies.len()
                invariant
                    j <= enemies.len(),
                    messages@ == used + player_attacks(player, enemies@, destination, j as int),
                    is_attacking == (player_attacks(player, enemies@, destination, j as int).len() > 0),
                decreases enemies.len() - j,
            {
                if enemies[j].pos == destination {
                    is_attacking = true;
                    messages.push(Message::Attack(WantsToAttack { attacker: player, victim: enemies[j].entity }));
                    assert(messages@ =~= used + player_attacks(player, enemies@, destination, j + 1));
                }
                j = j + 1;
            }
            if !is_attacking {
                messages.push(Message::Move(WantsToMove { entity: player, destination }));
                assert(player_attacks(player, enemies@, destination, enemies.len() as int) =~= Seq::empty());
            }
        }
        *turn_state = TurnState::PlayerTurn;
    }
    messages
}

/// A step either attacks the enemies on the destination or, when there is none, moves there:
/// never both, and never more than one move.
pub proof fn lemma_step_attacks_or_moves(key: GameKey, player: EntityId, player_pos: Point, enemies: Seq<Located>, items: Seq<CarriedItem>)
    requires
        key_slot(key) is None,
        key_delta(key).x != 0 || key_delta(key).y != 0,
    ensures
        ({
            let msgs = input_messages(key, player, player_pos, enemies, items);
            let dest = player_pos.spec_offset(key_delta(key));
            ||| msgs == seq![Message::Move(WantsToMove { entity: player, destination: dest })]
            ||| (msgs.len() > 0 && forall|k: int| 0 <= k < msgs.len() ==> (#[trigger] msgs[k]) is Attack)
        }),
{
    let dest = player_pos.spec_offset(key_delta(key));
    let attacks = player_attacks(player, enemies, dest, enemies.len() as int);
    lemma_player_attacks_are_attacks(player, enemies, dest, enemies.len() as int);
    if attacks.len() == 0 {
        assert(Seq::<Message>::empty().push(Message::Move(WantsToMove { entity: player, destination: dest }))
            =~= seq![Message::Move(WantsToMove { entity: player, destination: dest })]);
    } else {
        assert(Seq::<Message>::empty() + attacks =~= attacks);
    }
}

/// The player's attacks are all attacks.
pub proof fn lemma_player_attacks_are_attacks(player: EntityId, enemies: Seq<Located>, dest: Point, n: int)
    ensures
        forall|k: int| 0 <= k < player_attacks(player, enemies, dest, n).len()
            ==> (#[trigger] player_attacks(player, enemies, dest, n)[k]) is Attack,
    decreases n,
{
    if n > 0 {
        lemma_player_attacks_are_attacks(player, enemies, dest, n - 1);
    }
}

/// The player attacks exactly when an enemy stands at `dest`, and every attack strikes an
/// enemy standing there.
proof fn lemma_attacks_at_dest(player: EntityId, enemies: Seq<Located>, dest: Point, n: int)
    requires
        0 <= n <= enemies.len(),
    ensures
        (player_attacks(player, enemies, dest, n).len() > 0) <==> exists|j: int| 0 <= j < n && #[trigger] enemies[j].pos == dest,
        forall|k: int| 0 <= k < player_attacks(player, enemies, dest, n).len() ==> exists|j: int| 0 <= j < n
            && enemies[j].pos == dest
            && #[trigger] player_attacks(player, enemies, dest, n)[k]
                == Message::Attack(WantsToAttack { attacker: player, victim: enemies[j].entity }),
    decreases n,
{
    if n > 0 {
        lemma_attacks_at_dest(player, enemies, dest, n - 1);
        let rest = player_attacks(player, enemies, dest, n - 1);
        let all = player_attacks(player, enemies, dest, n);
        if enemies[n - 1].pos == dest {
            assert(enemies[n - 1].pos == dest);
        } else {
            if exists|j: int| 0 <= j < n && #[trigger] enemies[j].pos == dest {
                let j = choose|j: int| 0 <= j < n && #[trigger] enemies[j].pos == dest;
                assert(j < n - 1);
            }
        }
        assert forall|k: int| 0 <= k < all.len() implies exists|j: int| 0 <= j < n
            && enemies[j].pos == dest
            && #[trigger] all[k] == Message::Attack(WantsToAttack { attacker: player, victim: enemies[j].entity }) by {
            if k < rest.len() {
                assert(all[k] == rest[k]);
                let j = choose|j: int| 0 <= j < n - 1 && enemies[j].pos == dest
                    && #[trigger] rest[k] == Message::Attack(WantsToAttack { attacker: player, victim: enemies[j].entity });
                assert(0 <= j < n);
            } else {
                assert(enemies[n - 1].pos == dest);
            }
        }
    }
}

/// Each arrow key steps onto its own neighbouring tile: Left to `(x - 1, y)`, Right to
/// `(x + 1, y)`, Up to `(x, y - 1)`, Down to `(x, y + 1)`. With no enemy there the player
/// moves there and does nothing else; with one or more enemies there the player attacks,
/// only enemies standing there, and does not move.
pub proof fn lemma_arrow_key_step(key: GameKey, player: EntityId, player_pos: Point, enemies: Seq<Located>,
    items: Seq<CarriedItem>, dest: Point)
    requires
        i32::MIN < player_pos.x < i32::MAX,
        i32::MIN < player_pos.y < i32::MAX,
        (key == GameKey::Left && dest == Point { x: (player_pos.x - 1) as i32, y: player_pos.y })
            || (key == GameKey::Right && dest == Point { x: (player_pos.x + 1) as i32, y: player_pos.y })
            || (key == GameKey::Up && dest == Point { x: player_pos.x, y: (player_pos.y - 1) as i32 })
            || (key == GameKey::Down && dest == Point { x: player_pos.x, y: (player_pos.y + 1) as i32 }),
    ensures
        (forall|k: int| 0 <= k < enemies.len() ==> (#[trigger] enemies[k]).pos != dest)
            ==> input_messages(key, player, player_pos, enemies, items)
                == seq![Message::Move(WantsToMove { entity: player, destination: dest })],
        (exists|k: int| 0 <= k < enemies.len() && (#[trigger] enemies[k]).pos == dest) ==> {
            let msgs = input_messages(key, player, player_pos, enemies, items);
            &&& msgs.len() > 0
            &&& forall|m: int| 0 <= m < msgs.len() ==> exists|j: int| 0 <= j < enemies.len()
                && enemies[j].pos == dest
                && #[trigger] msgs[m] == Message::Attack(WantsToAttack { attacker: player, victim: enemies[j].entity })
        },
{
    assert(player_pos.spec_offset(key_delta(key)) == dest);
    lemma_attacks_at_dest(player, enemies, dest, enemies.len() as int);
    let attacks = player_attacks(player, enemies, dest, enemies.len() as int);
    if forall|k: int| 0 <= k < enemies.len() ==> (#[trigger] enemies[k]).pos != dest {
        assert(attacks.len() == 0);
        assert(Seq::<Message>::empty().push(Message::Move(WantsToMove { entity: player, destination: dest }))
            =~= seq![Message::Move(WantsToMove { entity: player, destination: dest })]);
    }
    if exists|k: int| 0 <= k < enemies.len() && (#[trigger] enemies[k]).pos == dest {
        assert(attacks.len() > 0);
        assert(Seq::<Message>::empty() + attacks =~= attacks);
    }
}

} // verus!
