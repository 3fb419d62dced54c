//! Enemies caught on the player's tile are removed.

use vstd::prelude::*;
use crate::components::{EntityId, Located};
use crate::geometry::Point;

verus! {

/// The enemies among the first `n` that stand at `pos`, in order.
pub open spec fn standing_at(enemies: Seq<Located>, pos: Point, n: int) -> Seq<EntityId>
    decreases n,
{
    if n <= 0 {
        Seq::empty()
    } else {
        let rest = standing_at(enemies, pos, n - 1);
        if enemies[n - 1].pos == pos { rest.push(enemies[n - 1].entity) } else { rest }
    }
}

/// Where the player stands: the last player's position, or the origin when there is none.
pub open spec fn player_position(players: Seq<Point>) -> Point {
    if players.len() == 0 { Point { x: 0, y: 0 } } else { players.last() }
}

/// The enemies to remove: those standing where the player stands.
pub fn collision_detection(players: &Vec<Point>, enemies: &Vec<Located>) -> (removed: Vec<EntityId>)
    ensures
        removed@ == standing_at(enemies@, player_position(players@), enemies.len() as int),
{
    let mut player_pos = Point::zero();
    let mut i: usize = 0;
    while i < players.len()
        invariant
            i <= players.len(),
            player_pos == if i == 0 { Point { x: 0, y: 0 } } else { players@[i - 1] },
        decreases players.len() - i,
    {
        player_pos = players[i];
        i = i + 1;
    }
    let mut removed: Vec<EntityId> = Vec::new();
    let mut j: usize = 0;
    while j < enemies.len()
        invariant
            j <= enemies.len(),
            player_pos == player_position(players@),
            removed@ == standing_at(enemies@, player_pos, j as int),
        decreases enemies.len() - j,
    {
        if enemies[j].pos == player_pos {
            removed.push(enemies[j].entity);
        }
        j = j + 1;
    }
    removed
}

} // verus!
