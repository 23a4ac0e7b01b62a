//! The random number generator of a battle, and the draws the rules make from it.

use vstd::prelude::*;

use rand::seq::IteratorRandom;
use rand::Rng;

verus! {

/// The random number generator that battles draw from.
#[verifier::external_type_specification]
#[verifier::external_body]
pub struct ExStdRng(rand::rngs::StdRng);

/// `Rng::gen_range(low..high)` on `u8`: a value in `low..high`.
/// rand panics on an empty range, hence the `requires`.
#[verifier::external_body]
pub fn gen_range_u8(rng: &mut rand::rngs::StdRng, low: u8, high: u8) -> (r: u8)
    requires
        low < high,
    ensures
        low <= r < high,
{
    rng.gen_range(low..high)
}

/// `Rng::gen_range(low..=high)` on `u8`: a value in `low..=high`.
/// rand panics on an empty range, hence the `requires`.
#[verifier::external_body]
pub fn gen_range_inclusive_u8(rng: &mut rand::rngs::StdRng, low: u8, high: u8) -> (r: u8)
    requires
        low <= high,
    ensures
        low <= r <= high,
{
    rng.gen_range(low..=high)
}

/// `Rng::gen_ratio(numerator, denominator)`: `true` with probability
/// `numerator / denominator`. rand returns `false` for a zero numerator and
/// `true` when numerator and denominator are equal; it panics for a zero
/// denominator or a numerator above the denominator. Which value comes back
/// in between rests on chance and is not stated.
#[verifier::external_body]
pub fn gen_ratio(rng: &mut rand::rngs::StdRng, numerator: u32, denominator: u32) -> (r: bool)
    requires
        0 < denominator,
        numerator <= denominator,
    ensures
        numerator == 0 ==> !r,
        numerator == denominator ==> r,
{
    rng.gen_ratio(numerator, denominator)
}

/// `Rng::gen::<u16>()`: any `u16`, by chance.
#[verifier::external_body]
pub fn gen_u16(rng: &mut rand::rngs::StdRng) -> (r: u16) {
    rng.gen::<u16>()
}

/// `IteratorRandom::choose` over the indices `0..len`: `None` exactly when
/// `len` is zero, otherwise some index below `len`, picked by chance.
#[verifier::external_body]
pub fn choose_index(rng: &mut rand::rngs::StdRng, len: usize) -> (r: Option<usize>)
    ensures
        r is None <==> len == 0,
        r matches Some(i) ==> i < len,
{
    (0..len).choose(rng)
}

} // verus!
