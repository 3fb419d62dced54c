//! Glyphs: characters as indices into the code page 437 font.

use vstd::prelude::*;

verus! {

/// The code page 437 index of a character, as `to_cp437` computes it.
pub uninterp spec fn cp437_of(c: char) -> u16;

/// Calls `to_cp437`, which maps a character to its code page 437 index (0 when it has none).
/// Its table sends every printable ASCII character, `' '` to `'~'`, to its own code.
#[verifier::external_body]
pub fn to_cp437(c: char) -> (r: u16)
    ensures
        r == cp437_of(c),
        32 <= (c as u32) <= 126 ==> r == (c as u32),
{
    bracket_lib::prelude::to_cp437(c)
}

} // verus!
