//! The dice and random-number calls that the generators and the spawner make.

use vstd::prelude::*;
use bracket_lib::prelude::RandomNumberGenerator;

verus! {

#[verifier::external_type_specification]
#[verifier::external_body]
pub struct ExRandomNumberGenerator(RandomNumberGenerator);

/// Calls `RandomNumberGenerator::new`, which seeds a fresh generator from the operating
/// system's entropy (or from the clock when that fails). Nothing is stated of the generator.
#[verifier::external_body]
pub fn new_rng() -> RandomNumberGenerator {
    RandomNumberGenerator::new()
}

/// Calls `RandomNumberGenerator::range` on `i32`: a value drawn from `min .. max`, `min`
/// included and `max` excluded. The call panics on an empty range, which `requires` rules out.
#[verifier::external_body]
pub fn rng_range(rng: &mut RandomNumberGenerator, min: i32, max: i32) -> (r: i32)
    requires
        min < max,
    ensures
        min <= r < max,
{
    rng.range(min, max)
}

/// Calls `RandomNumberGenerator::roll_dice`: the sum of `n` rolls of a die with faces
/// `1 ..= die_type`, hence between `n` and `n * die_type`. The call panics when a die has no
/// face or the sum overflows, which `requires` rules out.
#[verifier::external_body]
pub fn roll_dice(rng: &mut RandomNumberGenerator, n: i32, die_type: i32) -> (r: i32)
    requires
        0 <= n,
        1 <= die_type < i32::MAX,
        n * die_type <= i32::MAX,
    ensures
        n <= r <= n * die_type,
{
    rng.roll_dice(n, die_type)
}

/// Calls `RandomNumberGenerator::random_slice_index`: `None` for an empty slice, otherwise an
/// index into it. The call converts the length to `i32`, which `requires` keeps in range.
#[verifier::external_body]
pub fn random_slice_index<T>(rng: &mut RandomNumberGenerator, v: &Vec<T>) -> (r: Option<usize>)
    requires
        v.len() < i32::MAX,
    ensures
        r is None <==> v.len() == 0,
        r matches Some(i) ==> i < v.len(),
{
    rng.random_slice_index(v.as_slice())
}

/// Calls `RandomNumberGenerator::random_slice_entry`: `None` for an empty slice, otherwise one
/// of its elements.
#[verifier::external_body]
pub fn random_slice_entry<'a, T>(rng: &mut RandomNumberGenerator, v: &'a Vec<T>) -> (r: Option<&'a T>)
    requires
        v.len() < i32::MAX,
    ensures
        r is None <==> v.len() == 0,
        r matches Some(e) ==> exists|i: int| 0 <= i < v.len() && v@[i] == *e,
{
    rng.random_slice_entry(v.as_slice())
}

} // verus!
