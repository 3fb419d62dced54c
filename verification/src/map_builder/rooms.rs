//! Levels of rectangular rooms joined by corridors.

use vstd::prelude::*;

verus! {

/// Builds levels of random rooms joined by corridors.
pub struct RoomsArchitect {}

} // verus!
