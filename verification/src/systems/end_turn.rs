//! The end of a turn: whose turn comes next, and whether the game is won, lost or goes on
//! to the next level.

use vstd::prelude::*;
use crate::components::Health;
use crate::geometry::Point;
use crate::map::{DungeonMap, TileType};
use crate::map_builder::on_map;
use crate::turn_state::TurnState;

verus! {

/// A player's hit points and position.
#[derive(Clone, Copy, Debug, PartialEq, Eq, Structural)]
pub struct PlayerStatus {
    pub health: Health,
    pub pos: Point,
}

/// The state that follows `s` when nothing decides the game: the player's turn passes to the
/// monsters, the monsters' turn back to input; other states stay.
pub open spec fn following_state(s: TurnState) -> TurnState {
    match s {
        TurnState::PlayerTurn => TurnState::MonsterTurn,
        TurnState::MonsterTurn => TurnState::AwaitingInput,
        _ => s,
    }
}

/// The state after the first `n` players are looked at, starting from `s`: a dead player
/// ends the game, a carried amulet wins it, a player on an exit goes to the next level.
pub open spec fn end_turn_upto(s: TurnState, players: Seq<PlayerStatus>, amulet_carried: bool, map: DungeonMap, n: int) -> TurnState
    decreases n,
{
    if n <= 0 {
        s
    } else {
        let prev = end_turn_upto(s, players, amulet_carried, map, n - 1);
        let p = players[n - 1];
        if p.health.current < 1 {
            TurnState::GameOver
        } else if amulet_carried {
            TurnState::Victory
        } else if map.tile_at(p.pos) == TileType::Exit {
            TurnState::NextLevel
        } else {
            prev
        }
    }
}

/// Ends a turn. While the game awaits input nothing changes; otherwise the turn passes on,
/// unless a player has died, the amulet is carried, or a player stands on an exit.
pub fn end_turn(turn_state: &mut TurnState, players: &Vec<PlayerStatus>, amulet_carried: bool, map: &DungeonMap)
    requires
        map.wf(),
        forall|k: int| 0 <= k < players.len() ==> on_map((#[trigger] players@[k]).pos),
    ensures
        *old(turn_state) == TurnState::AwaitingInput ==> *final(turn_state) == TurnState::AwaitingInput,
        *old(turn_state) != TurnState::AwaitingInput ==> *final(turn_state) == end_turn_upto(
            following_state(*old(turn_state)), players@, amulet_carried, *map, players.len() as int),
{
    let current_state = *turn_state;
    let mut new_state = match current_state {
        TurnState::AwaitingInput => { return; },
        TurnState::PlayerTurn => TurnState::MonsterTurn,
        TurnState::MonsterTurn => TurnState::AwaitingInput,
        _ => current_state,
    };
    let mut i: usize = 0;
    while i < players.len()
        invariant
            i <= players.len(),
            map.wf(),
            forall|k: int| 0 <= k < players.len() ==> on_map((#[trigger] players@[k]).pos),
            new_state == end_turn_upto(following_state(current_state), players@, amulet_carried, *map, i as int),
        decreases players.len() - i,
    {
        let p = players[i];
        if p.health.current < 1 {
            new_state = TurnState::GameOver;
        } else if amulet_carried {
            new_state = TurnState::Victory;
        } else {
            let idx = map.point2d_to_index(p.pos);
            if map.tiles[idx] == TileType::Exit {
                new_state = TurnState::NextLevel;
            }
        }
        i = i + 1;
    }
    *turn_state = new_state;
}

/// While every player lives, carrying the amulet wins the game, whatever tile the players
/// stand on and whoever's turn it was.
pub proof fn lemma_amulet_wins(s: TurnState, players: Seq<PlayerStatus>, map: DungeonMap, n: int)
    requires
        0 < n <= players.len(),
        forall|k: int| 0 <= k < n ==> (#[trigger] players[k]).health.current >= 1,
    ensures
        end_turn_upto(s, players, true, map, n) == TurnState::Victory,
{
    assert(players[n - 1].health.current >= 1);
}

/// When the last player looked at has no hit points left, the game is over, amulet or not.
pub proof fn lemma_dead_player_loses(s: TurnState, players: Seq<PlayerStatus>, amulet_carried: bool, map: DungeonMap, n: int)
    requires
        0 < n <= players.len(),
        players[n - 1].health.current < 1,
    ensures
        end_turn_upto(s, players, amulet_carried, map, n) == TurnState::GameOver,
{
}

/// Without the amulet, a living last player on an exit tile sends the game to the next level.
pub proof fn lemma_exit_descends(s: TurnState, players: Seq<PlayerStatus>, map: DungeonMap, n: int)
    requires
        0 < n <= players.len(),
        players[n - 1].health.current >= 1,
        map.tile_at(players[n - 1].pos) == TileType::Exit,
    ensures
        end_turn_upto(s, players, false, map, n) == TurnState::NextLevel,
{
}

/// A quiet turn, with every player alive, no amulet carried and nobody on an exit, just passes
/// on: from the player's turn to the monsters', from the monsters' turn back to waiting for
/// input, and any other state stays.
pub proof fn lemma_quiet_turn_passes(s: TurnState, players: Seq<PlayerStatus>, map: DungeonMap, n: int)
    requires
        0 <= n <= players.len(),
        forall|k: int| 0 <= k < n ==> (#[trigger] players[k]).health.current >= 1
            && map.tile_at(players[k].pos) != TileType::Exit,
    ensures
        end_turn_upto(following_state(s), players, false, map, n) == match s {
            TurnState::PlayerTurn => TurnState::MonsterTurn,
            TurnState::MonsterTurn => TurnState::AwaitingInput,
            _ => s,
        },
    decreases n,
{
    if n > 0 {
        lemma_quiet_turn_passes(s, players, map, n - 1);
        assert(players[n - 1].health.current >= 1 && map.tile_at(players[n - 1].pos) != TileType::Exit);
    }
}

} // verus!
