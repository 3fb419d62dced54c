//! Monsters that have seen the player close in on them.

use vstd::prelude::*;
use crate::components::{EntityId, FieldOfView, Message, WantsToAttack, WantsToMove};
use crate::geometry::{distance_squared, distance_squared_exec, Point};
use crate::map::DungeonMap;
use crate::map_builder::{on_map, tile_point};
use crate::NUM_TILES;

verus! {

/// A monster that chases the player, with the exit from its tile that leads closest to the
/// player on the distance map from the player (`None` when its tile has no exit).
pub struct Chaser {
    pub entity: EntityId,
    pub pos: Point,
    pub fov: FieldOfView,
    pub lowest_exit: Option<usize>,
}

/// An entity with hit points standing somewhere on the map.
#[derive(Clone, Copy, Debug, PartialEq, Eq, Structural)]
pub struct Occupant {
    pub entity: EntityId,
    pub pos: Point,
    pub is_player: bool,
}

/// Where a chaser heads: nowhere when it cannot see the player or its tile has no exit;
/// onto the player when the player is next to it (not diagonally); else its lowest exit.
pub open spec fn chase_target(player_pos: Point, c: Chaser) -> Option<Point> {
    if !c.fov.visible_tiles@.contains(player_pos) {
        None
    } else {
        match c.lowest_exit {
            None => None,
            Some(e) => Some(if distance_squared(c.pos, player_pos) > 1 { tile_point(e as int) } else { player_pos }),
        }
    }
}

/// The attacks that `attacker` makes on the players among the first `n` occupants standing
/// at `dest`.
pub open spec fn attacks_at(attacker: EntityId, occupants: Seq<Occupant>, dest: Point, n: int) -> Seq<Message>
    decreases n,
{
    if n <= 0 {
        Seq::empty()
    } else {
        let rest = attacks_at(attacker, occupants, dest, n - 1);
        let o = occupants[n - 1];
        if o.pos == dest && o.is_player {
            rest.push(Message::Attack(WantsToAttack { attacker, victim: o.entity }))
        } else {
            rest
        }
    }
}

/// Whether one of the first `n` occupants stands at `dest`.
pub open spec fn occupied_upto(occupants: Seq<Occupant>, dest: Point, n: int) -> bool {
    exists|k: int| 0 <= k < n && k < occupants.len() && (#[trigger] occupants[k]).pos == dest
}

/// The messages of the first `n` chasers, and the destinations taken so far.
pub open spec fn chase_upto(player_pos: Point, movers: Seq<Chaser>, occupants: Seq<Occupant>, n: int) -> (Seq<Message>, Seq<Point>)
    decreases n,
{
    if n <= 0 {
        (Seq::empty(), Seq::empty())
    } else {
        let (msgs, taken) = chase_upto(player_pos, movers, occupants, n - 1);
        let c = movers[n - 1];
        match chase_target(player_pos, c) {
            None => (msgs, taken),
            Some(d) => {
                let m2 = msgs + attacks_at(c.entity, occupants, d, occupants.len() as int);
                if !occupied_upto(occupants, d, occupants.len() as int) && !taken.contains(d) {
                    (m2.push(Message::Move(WantsToMove { entity: c.entity, destination: d })), taken.push(d))
                } else {
                    (m2, taken)
                }
            },
        }
    }
}

/// The destinations of the move messages, in order.
pub open spec fn move_destinations(msgs: Seq<Message>) -> Seq<Point>
    decreases msgs.len(),
{
    if msgs.len() == 0 {
        Seq::empty()
    } else {
        let rest = move_destinations(msgs.drop_last());
        match msgs.last() {
            Message::Move(m) => rest.push(m.destination),
            _ => rest,
        }
    }
}

/// Appending messages that are not moves leaves the move destinations alone.
pub proof fn lemma_move_destinations_append(a: Seq<Message>, b: Seq<Message>)
    requires
        forall|k: int| 0 <= k < b.len() ==> !((#[trigger] b[k]) is Move),
    ensures
        move_destinations(a + b) == move_destinations(a),
    decreases b.len(),
{
    if b.len() > 0 {
        lemma_move_destinations_append(a, b.drop_last());
        assert((a + b).drop_last() =~= a + b.drop_last());
    } else {
        assert(a + b =~= a);
    }
}

/// The attacks on players at `dest` are all attacks.
pub proof fn lemma_attacks_not_moves(attacker: EntityId, occupants: Seq<Occupant>, dest: Point, n: int)
    ensures
        forall|k: int| 0 <= k < attacks_at(attacker, occupants, dest, n).len()
            ==> !((#[trigger] attacks_at(attacker, occupants, dest, n)[k]) is Move),
    decreases n,
{
    if n > 0 {
        lemma_attacks_not_moves(attacker, occupants, dest, n - 1);
    }
}

/// No two chasers are sent to the same tile: the destinations taken are exactly those of the
/// move messages, and they are all different.
pub proof fn lemma_chase_moves_apart(player_pos: Point, movers: Seq<Chaser>, occupants: Seq<Occupant>, n: int)
    ensures
        move_destinations(chase_upto(player_pos, movers, occupants, n).0) == chase_upto(player_pos, movers, occupants, n).1,
        chase_upto(player_pos, movers, occupants, n).1.no_duplicates(),
    decreases n,
{
    if n > 0 {
        lemma_chase_moves_apart(player_pos, movers, occupants, n - 1);
        let (msgs, taken) = chase_upto(player_pos, movers, occupants, n - 1);
        let c = movers[n - 1];
        match chase_target(player_pos, c) {
            None => {},
            Some(d) => {
                let atk = attacks_at(c.entity, occupants, d, occupants.len() as int);
                lemma_attacks_not_moves(c.entity, occupants, d, occupants.len() as int);
                lemma_move_destinations_append(msgs, atk);
                let m2 = msgs + atk;
                if !occupied_upto(occupants, d, occupants.len() as int) && !taken.contains(d) {
                    let mv = Message::Move(WantsToMove { entity: c.entity, destination: d });
                    assert(m2.push(mv).drop_last() =~= m2);
                    assert forall|a: int, b: int| 0 <= a < taken.push(d).len() && 0 <= b < taken.push(d).len() && a != b
                        implies taken.push(d)[a] != taken.push(d)[b] by {
                        if a == taken.len() {
                            assert(taken.push(d)[b] == taken[b]);
                        } else if b == taken.len() {
                            assert(taken.push(d)[a] == taken[a]);
                        }
                    }
                }
            },
        }
    }
}

/// Sends every chaser that sees the player one step along the distance map towards the
/// player: attacking the player when the player stands on that tile, staying put when anyone
/// does, and never sending two chasers to the same tile.
pub fn chasing(map: &DungeonMap, player_pos: Point, movers: &Vec<Chaser>, occupants: &Vec<Occupant>) -> (messages: Vec<Message>)
    requires
        on_map(player_pos),
        forall|k: int| 0 <= k < movers.len() ==> on_map((#[trigger] movers@[k]).pos),
        forall|k: int| 0 <= k < movers.len() ==> ((#[trigger] movers@[k]).lowest_exit matches Some(e) ==> e < NUM_TILES),
    ensures
        messages@ == chase_upto(player_pos, movers@, occupants@, movers.len() as int).0,
        move_destinations(messages@).no_duplicates(),
{
    let mut messages: Vec<Message> = Vec::new();
    let mut taken_destinations: Vec<Point> = Vec::new();
    let mut i: usize = 0;
    while i < movers.len()
        invariant
            i <= movers.len(),
            on_map(player_pos),
            forall|k: int| 0 <= k < movers.len() ==> on_map((#[trigger] movers@[k]).pos),
            forall|k: int| 0 <= k < movers.len() ==> ((#[trigger] movers@[k]).lowest_exit matches Some(e) ==> e < NUM_TILES),
            (messages@, taken_destinations@) == chase_upto(player_pos, movers@, occupants@, i as int),
        decreases movers.len() - i,
    {
        let mover = &movers[i];
        if mover.fov.contains(player_pos) {
            if let Some(exit) = mover.lowest_exit {
                let distance_to_player = distance_squared_exec(mover.pos, player_pos);
                let destination = if distance_to_player > 1 {
                    map.index_to_point2d(exit)
                } else {
                    player_pos
                };
                let ghost before = messages@;
                let mut should_move = true;
                let mut j: usize = 0;
                while j < occupants.len()
                    invariant
                        j <= occupants.len(),
                        messages@ == before + attacks_at(mover.entity, occupants@, destination, j as int),
                        should_move == !occupied_upto(occupants@, destination, j as int),
                    decreases occupants.len() - j,
                {
                    let o = occupants[j];
                    if o.pos == destination {
                        if o.is_player {
                            messages.push(Message::Attack(WantsToAttack { attacker: mover.entity, victim: o.entity }));
                        }
                        should_move = false;
                    }
                    proof {
                        if o.pos == destination && o.is_player {
                            assert(messages@ =~= before + attacks_at(mover.entity, occupants@, destination, j + 1));
                        } else {
                            assert(messages@ =~= before + attacks_at(mover.entity, occupants@, destination, j + 1));
                        }
                        if o.pos == destination {
                            assert(occupied_upto(occupants@, destination, j + 1));
                        } else {
                            assert(occupied_upto(occupants@, destination, j + 1) == occupied_upto(occupants@, destination, j as int));
                        }
                    }
                    j = j + 1;
                }
                if should_move && !contains_point(&taken_destinations, destination) {
                    taken_destinations.push(destination);
                    messages.push(Message::Move(WantsToMove { entity: mover.entity, destination }));
                }
            }
        }
        i = i + 1;
    }
    proof {
        lemma_chase_moves_apart(player_pos, movers@, occupants@, movers.len() as int);
    }
    messages
}

/// Whether `p` is one of the points of `v`.
pub fn contains_point(v: &Vec<Point>, p: Point) -> (b: bool)
    ensures
        b == v@.contains(p),
{
    let mut i: usize = 0;
    while i < v.len()
        invariant
            i <= v.len(),
            forall|k: int| 0 <= k < i ==> v@[k] != p,
        decreases v.len() - i,
    {
        if v[i] == p {
            return true;
        }
        i = i + 1;
    }
    false
}

/// A monster only ever attacks a player: every attack aimed at `dest` strikes an occupant
/// that is a player and stands there.
pub proof fn lemma_attacks_only_players(attacker: EntityId, occupants: Seq<Occupant>, dest: Point, n: int)
    requires
        n <= occupants.len(),
    ensures
        forall|k: int| 0 <= k < attacks_at(attacker, occupants, dest, n).len() ==> exists|j: int| 0 <= j < n
            && occupants[j].is_player && occupants[j].pos == dest
            && #[trigger] attacks_at(attacker, occupants, dest, n)[k]
                == Message::Attack(WantsToAttack { attacker, victim: occupants[j].entity }),
    decreases n,
{
    if n > 0 {
        lemma_attacks_only_players(attacker, occupants, dest, n - 1);
        let rest = attacks_at(attacker, occupants, dest, n - 1);
        let all = attacks_at(attacker, occupants, dest, n);
        assert forall|k: int| 0 <= k < all.len() implies exists|j: int| 0 <= j < n
            && occupants[j].is_player && occupants[j].pos == dest
            && #[trigger] all[k] == Message::Attack(WantsToAttack { attacker, victim: occupants[j].entity }) by {
            if k < rest.len() {
                assert(all[k] == rest[k]);
                let j = choose|j: int| 0 <= j < n - 1 && occupants[j].is_player && occupants[j].pos == dest
                    && #[trigger] rest[k] == Message::Attack(WantsToAttack { attacker, victim: occupants[j].entity });
                assert(0 <= j < n);
            } else {
                assert(occupants[n - 1].is_player && occupants[n - 1].pos == dest);
            }
        }
    }
}

/// Only chasers that see the player act: every message moves, or attacks on behalf of, one of
/// the first `n` chasers whose field of view holds the player's position; none is an item use.
pub proof fn lemma_only_seers_act(player_pos: Point, movers: Seq<Chaser>, occupants: Seq<Occupant>, n: int)
    requires
        0 <= n <= movers.len(),
    ensures
        forall|k: int| 0 <= k < chase_upto(player_pos, movers, occupants, n).0.len() ==> exists|j: int| 0 <= j < n
            && movers[j].fov.visible_tiles@.contains(player_pos)
            && match #[trigger] chase_upto(player_pos, movers, occupants, n).0[k] {
                Message::Move(m) => m.entity == movers[j].entity,
                Message::Attack(a) => a.attacker == movers[j].entity,
                Message::Activate(_) => false,
            },
    decreases n,
{
    if n > 0 {
        lemma_only_seers_act(player_pos, movers, occupants, n - 1);
        let (msgs, taken) = chase_upto(player_pos, movers, occupants, n - 1);
        let all = chase_upto(player_pos, movers, occupants, n).0;
        let c = movers[n - 1];
        match chase_target(player_pos, c) {
            None => {},
            Some(d) => {
                assert(c.fov.visible_tiles@.contains(player_pos));
                let atk = attacks_at(c.entity, occupants, d, occupants.len() as int);
                lemma_attacks_only_players(c.entity, occupants, d, occupants.len() as int);
                assert forall|k: int| 0 <= k < all.len() implies exists|j: int| 0 <= j < n
                    && movers[j].fov.visible_tiles@.contains(player_pos)
                    && match #[trigger] all[k] {
                        Message::Move(m) => m.entity == movers[j].entity,
                        Message::Attack(a) => a.attacker == movers[j].entity,
                        Message::Activate(_) => false,
                    } by {
                    if k < msgs.len() {
                        assert(all[k] == msgs[k]);
                        let j = choose|j: int| 0 <= j < n - 1
                            && movers[j].fov.visible_tiles@.contains(player_pos)
                            && match #[trigger] msgs[k] {
                                Message::Move(m) => m.entity == movers[j].entity,
                                Message::Attack(a) => a.attacker == movers[j].entity,
                                Message::Activate(_) => false,
                            };
                        assert(0 <= j < n);
                    } else if k < msgs.len() + atk.len() {
                        assert(all[k] == atk[k - msgs.len()]);
                        let j = choose|j: int| 0 <= j < occupants.len()
                            && occupants[j].is_player && occupants[j].pos == d
                            && #[trigger] atk[k - msgs.len()] == Message::Attack(WantsToAttack { attacker: c.entity, victim: occupants[j].entity });
                        assert(movers[n - 1].fov.visible_tiles@.contains(player_pos));
                    } else {
                        assert(all[k] == Message::Move(WantsToMove { entity: c.entity, destination: d }));
                        assert(movers[n - 1].fov.visible_tiles@.contains(player_pos));
                    }
                }
            },
        }
    }
}

/// A chaser that does not see the player adds no message, whatever its exit and position.
pub proof fn lemma_blind_chaser_idle(player_pos: Point, movers: Seq<Chaser>, occupants: Seq<Occupant>, n: int)
    requires
        0 < n <= movers.len(),
        !movers[n - 1].fov.visible_tiles@.contains(player_pos),
    ensures
        chase_upto(player_pos, movers, occupants, n) == chase_upto(player_pos, movers, occupants, n - 1),
{
}

} // verus!
