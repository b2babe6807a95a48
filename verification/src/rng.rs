//! Random choices, drawn from the `rand` crate's thread-local generator.
use vstd::prelude::*;

use crate::cards::Card;

verus! {

/// Calls `rand::seq::SliceRandom::shuffle` with `rand::thread_rng()`. The shuffle
/// swaps elements in place, so the result holds the same cards in some order;
/// which order is left open.
#[verifier::external_body]
pub(crate) fn shuffle_cards(v: &mut Vec<Card>)
    ensures
        final(v)@.len() == old(v)@.len(),
        final(v)@.to_multiset() == old(v)@.to_multiset(),
{
    rand::seq::SliceRandom::shuffle(v.as_mut_slice(), &mut rand::thread_rng())
}

/// Calls `rand::random::<bool>()`: a fair coin flip from the thread-local generator.
/// Nothing is promised of the outcome.
#[verifier::external_body]
pub(crate) fn flip_coin() -> bool {
    rand::random::<bool>()
}

/// Calls `rand::Rng::gen_range(0..=100)` on `rand::thread_rng()`: a roll from 0 to
/// 100, each equally likely.
#[verifier::external_body]
pub(crate) fn roll_percent() -> (r: u8)
    ensures
        r <= 100,
{
    rand::Rng::gen_range(&mut rand::thread_rng(), 0..=100u8)
}

/// Calls `rand::Rng::gen_range(0..n)` on `rand::thread_rng()`: a position below
/// `n`, each equally likely. The range must not be empty.
#[verifier::external_body]
pub(crate) fn pick_below(n: usize) -> (r: usize)
    requires
        n > 0,
    ensures
        r < n,
{
    rand::Rng::gen_range(&mut rand::thread_rng(), 0..n)
}

} // verus!
