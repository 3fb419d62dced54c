//! Wandering monsters take a random step, attacking the player if the player is in the way.

use vstd::prelude::*;
use crate::components::{Located, Message, WantsToMove};
use crate::geometry::Point;
use crate::random::{new_rng, rng_range};
use crate::systems::chasing::{attacks_at, occupied_upto, Occupant};
use crate::map_builder::drunkard::neighbours;

verus! {

/// The step a roll of `0 .. 4` picks: west, east, north, or south for any other roll.
pub open spec fn direction_delta(roll: i32) -> Point {
    if roll == 0 {
        Point { x: -1i32, y: 0 }
    } else if roll == 1 {
        Point { x: 1, y: 0 }
    } else if roll == 2 {
        Point { x: 0, y: -1i32 }
    } else {
        Point { x: 0, y: 1 }
    }
}

/// The messages of the first `n` wanderers, each stepping as its roll says: attacks on the
/// players at the destination, and a move when nobody stands there.
pub open spec fn wander_upto(movers: Seq<Located>, occupants: Seq<Occupant>, rolls: Seq<i32>, n: int) -> Seq<Message>
    decreases n,
{
    if n <= 0 {
        Seq::empty()
    } else {
        let prev = wander_upto(movers, occupants, rolls, n - 1);
        let m = movers[n - 1];
        let dest = m.pos.spec_offset(direction_delta(rolls[n - 1]));
        let with_attacks = prev + attacks_at(m.entity, occupants, dest, occupants.len() as int);
        if !occupied_upto(occupants, dest, occupants.len() as int) {
            with_attacks.push(Message::Move(WantsToMove { entity: m.entity, destination: dest }))
        } else {
            with_attacks
        }
    }
}

/// Whether every wanderer can take one step in any direction without leaving the `i32` range.
pub open spec fn can_step(movers: Seq<Located>) -> bool {
    forall|k: int| 0 <= k < movers.len() ==> i32::MIN < (#[trigger] movers[k]).pos.x < i32::MAX
        && i32::MIN < movers[k].pos.y < i32::MAX
}

/// The wanderers' messages for the given rolls, one per wanderer.
pub fn random_move_with(movers: &Vec<Located>, occupants: &Vec<Occupant>, rolls: &Vec<i32>) -> (messages: Vec<Message>)
    requires
        rolls.len() == movers.len(),
        can_step(movers@),
    ensures
        messages@ == wander_upto(movers@, occupants@, rolls@, movers.len() as int),
{
    let mut messages: Vec<Message> = Vec::new();
    let mut i: usize = 0;
    while i < movers.len()
        invariant
            i <= movers.len(),
            rolls.len() == movers.len(),
            can_step(movers@),
            messages@ == wander_upto(movers@, occupants@, rolls@, i as int),
        decreases movers.len() - i,
    {
        let m = movers[i];
        let roll = rolls[i];
        let delta = if roll == 0 {
            Point::new(-1, 0)
        } else if roll == 1 {
            Point::new(1, 0)
        } else if roll == 2 {
            Point::new(0, -1)
        } else {
            Point::new(0, 1)
        };
        let destination = delta.offset_by(m.pos);
        assert(destination == m.pos.spec_offset(direction_delta(roll)));
        let ghost before = messages@;
        let mut should_move = true;
        let mut j: usize = 0;
        while j < occupants.len()
            invariant
                j <= occupants.len(),
                messages@ == before + attacks_at(m.entity, occupants@, destination, j as int),
                should_move == !occupied_upto(occupants@, destination, j as int),
            decreases occupants.len() - j,
        {
            let o = occupants[j];
            if o.pos == destination {
                if o.is_player {
                    messages.push(Message::Attack(crate::components::WantsToAttack { attacker: m.entity, victim: o.entity }));
                }
                should_move = false;
            }
            proof {
                assert(messages@ =~= before + attacks_at(m.entity, occupants@, destination, j + 1));
                if o.pos == destination {
                    assert(occupied_upto(occupants@, destination, j + 1));
                } else {
                    assert(occupied_upto(occupants@, destination, j + 1) == occupied_upto(occupants@, destination, j as int));
                }
            }
            j = j + 1;
        }
        if should_move {
            messages.push(Message::Move(WantsToMove { entity: m.entity, destination }));
        }
        i = i + 1;
    }
    messages
}

/// Every wanderer takes a step in a random direction, drawn from a freshly seeded generator:
/// it attacks the players standing there, and moves when nobody does.
pub fn random_move(movers: &Vec<Located>, occupants: &Vec<Occupant>) -> (messages: Vec<Message>)
    requires
        can_step(movers@),
    ensures
        exists|rolls: Seq<i32>| rolls.len() == movers.len()
            && (forall|k: int| 0 <= k < rolls.len() ==> 0 <= #[trigger] rolls[k] < 4)
            && messages@ == wander_upto(movers@, occupants@, rolls, movers.len() as int),
{
    let mut rolls: Vec<i32> = Vec::new();
    let mut i: usize = 0;
    while i < movers.len()
        invariant
            i <= movers.len(),
            rolls.len() == i,
            forall|k: int| 0 <= k < rolls.len() ==> 0 <= #[trigger] rolls@[k] < 4,
        decreases movers.len() - i,
    {
        let mut rng = new_rng();
        rolls.push(rng_range(&mut rng, 0, 4));
        i = i + 1;
    }
    random_move_with(movers, occupants, &rolls)
}

/// The four rolls send a wanderer to its four neighbouring tiles: 0 west, 1 east, 2 north,
/// 3 south; so every neighbour is the destination of exactly one roll of `0 .. 4`.
pub proof fn lemma_rolls_reach_all_neighbours(p: Point)
    requires
        i32::MIN < p.x < i32::MAX,
        i32::MIN < p.y < i32::MAX,
    ensures
        p.spec_offset(direction_delta(0)) == (Point { x: (p.x - 1) as i32, y: p.y }),
        p.spec_offset(direction_delta(1)) == (Point { x: (p.x + 1) as i32, y: p.y }),
        p.spec_offset(direction_delta(2)) == (Point { x: p.x, y: (p.y - 1) as i32 }),
        p.spec_offset(direction_delta(3)) == (Point { x: p.x, y: (p.y + 1) as i32 }),
        forall|a: i32, b: i32| 0 <= a < 4 && 0 <= b < 4 && a != b
            ==> p.spec_offset(direction_delta(a)) != p.spec_offset(direction_delta(b)),
{
}

/// Whether `msg` moves `m` onto one of the four tiles next to it.
pub open spec fn moves_to_neighbour(msg: Message, m: Located) -> bool {
    msg matches Message::Move(mv) && mv.entity == m.entity && neighbours(m.pos, mv.destination)
}

/// With nobody standing anywhere, each wanderer moves, one tile along a row or a column, and
/// only moves: the `k`-th message moves the `k`-th wanderer onto a neighbouring tile.
pub proof fn lemma_unblocked_wanderers_step(movers: Seq<Located>, rolls: Seq<i32>, n: int)
    requires
        0 <= n <= movers.len(),
        n <= rolls.len(),
        can_step(movers),
    ensures
        wander_upto(movers, Seq::empty(), rolls, n).len() == n,
        forall|k: int| 0 <= k < n ==> moves_to_neighbour(#[trigger] wander_upto(movers, Seq::empty(), rolls, n)[k], movers[k]),
    decreases n,
{
    if n > 0 {
        lemma_unblocked_wanderers_step(movers, rolls, n - 1);
        let prev = wander_upto(movers, Seq::empty(), rolls, n - 1);
        let m = movers[n - 1];
        let dest = m.pos.spec_offset(direction_delta(rolls[n - 1]));
        assert(attacks_at(m.entity, Seq::<Occupant>::empty(), dest, 0) =~= Seq::<crate::components::Message>::empty());
        assert(!occupied_upto(Seq::<Occupant>::empty(), dest, 0));
        assert(prev + Seq::<crate::components::Message>::empty() =~= prev);
        assert(i32::MIN < m.pos.x < i32::MAX && i32::MIN < m.pos.y < i32::MAX);
        let all = wander_upto(movers, Seq::empty(), rolls, n);
        assert forall|k: int| 0 <= k < n implies moves_to_neighbour(#[trigger] all[k], movers[k]) by {
            if k < n - 1 {
                assert(all[k] == prev[k]);
            }
        }
    }
}

} // verus!
