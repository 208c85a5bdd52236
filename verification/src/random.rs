//! The random choices the pipe simulation makes, drawn from `rand`'s
//! thread-local generator. What each draw returns depends on chance, so each
//! contract states only what holds of every outcome.

use vstd::prelude::*;
use rand::seq::SliceRandom;
use rand::Rng;
use crate::pipes::GridVec;

verus! {

/// `rand::Rng::gen_ratio(numerator, denominator)` on `rand::thread_rng()`:
/// `true` with probability `numerator / denominator`. Its documentation
/// promises `false` for a zero numerator and `true` when numerator equals
/// denominator; it panics on a zero denominator or a numerator above it.
#[verifier::external_body]
pub(crate) fn random_ratio(numerator: u32, denominator: u32) -> (hit: bool)
    requires
        0 < denominator,
        numerator <= denominator,
    ensures
        numerator == 0 ==> !hit,
        numerator == denominator ==> hit,
{
    rand::thread_rng().gen_ratio(numerator, denominator)
}

/// `rand::Rng::gen_range(0..bound)` for `i32` on `rand::thread_rng()`: a value
/// drawn uniformly from `0..bound`. It panics on an empty range.
#[verifier::external_body]
pub(crate) fn random_below(bound: i32) -> (value: i32)
    requires
        0 < bound,
    ensures
        0 <= value < bound,
{
    rand::thread_rng().gen_range(0..bound)
}

/// `rand::seq::SliceRandom::choose` on `rand::thread_rng()`: one element of the
/// slice drawn uniformly, or `None` for an empty slice.
#[verifier::external_body]
pub(crate) fn choose_direction(candidates: &Vec<GridVec>) -> (choice: Option<GridVec>)
    ensures
        candidates@.len() == 0 <==> choice is None,
        choice matches Some(d) ==> candidates@.contains(d),
{
    candidates.as_slice().choose(&mut rand::thread_rng()).copied()
}

} // verus!
