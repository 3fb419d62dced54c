//! Whose turn it is, and how the game ended.

use vstd::prelude::*;

verus! {

/// The phase of the game loop.
#[derive(Clone, Copy, Debug, PartialEq, Eq, Structural)]
pub enum TurnState {
    AwaitingInput,
    PlayerTurn,
    MonsterTurn,
    GameOver,
    Victory,
    NextLevel,
}

} // verus!
