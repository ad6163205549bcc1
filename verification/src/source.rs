//! What the samplers ask of a random source: a number drawn from a range.
//!
//! Both functions are `rand::Rng::gen_range`, once on a range that includes
//! its end and once on one that does not. Their contracts are taken on trust
//! from that method. It asks the source again until a draw is accepted;
//! nothing is said here of a source that never gives such a draw.

use rand::Rng;
use vstd::prelude::*;

verus! {

/// Draws a number from `low` to `high`, both included.
///
/// The body is `rand::Rng::gen_range` on the range `low..=high`. It panics on
/// an empty range, hence `low <= high`. For integers it hands back `low` plus
/// an offset that is smaller than the size of the range, hence a number from
/// `low` to `high`. Which number is up to the source: nothing more is
/// claimed, and callers are verified for every outcome.
#[verifier::external_body]
pub(crate) fn uniform_in_range<R>(rng: &mut R, low: u32, high: u32) -> (drawn: u32) where
    R: Rng + ?Sized,

    requires
        low <= high,
    ensures
        low <= drawn <= high,
{
    rng.gen_range(low..=high)
}

/// Draws a number from `low` up to, but not including, `high`.
///
/// The body is `rand::Rng::gen_range` on the range `low..high`. It panics on
/// an empty range, hence `low < high`. For integers it draws from `low` to
/// `high - 1` as the function above does, hence a number from `low` that is
/// below `high`. Which number is up to the source.
#[verifier::external_body]
pub(crate) fn uniform_below<R>(rng: &mut R, low: usize, high: usize) -> (drawn: usize) where
    R: Rng + ?Sized,

    requires
        low < high,
    ensures
        low <= drawn < high,
{
    rng.gen_range(low..high)
}

} // verus!
