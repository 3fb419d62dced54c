//! A level with no walls at all.

use vstd::prelude::*;

verus! {

/// Builds a level that is floor everywhere.
pub struct EmptyArchitect {}

} // verus!
