//! The random draws that the shuffles make, and the two rearrangements that
//! other crates carry out on a packet of cards.
//!
//! Nothing in this file is proved: each contract states what the called
//! function's documentation gives, for every outcome of the draw.

use std::collections::VecDeque;
use rand::seq::SliceRandom;
use rand::Rng;
use vstd::prelude::*;
use crate::card::Card;
use crate::sequence::interleaved;

verus! {

/// The thread-local generator of the `rand` crate.
#[verifier::external_type_specification]
#[verifier::external_body]
pub struct ExThreadRng(rand::rngs::ThreadRng);

/// `rand::thread_rng`: a handle to the thread's generator. Nothing is claimed
/// of it.
pub assume_specification[ rand::thread_rng ]() -> (rng: rand::rngs::ThreadRng);

/// Calls `Rng::gen_range` with `low..=high`. Not proved: the number drawn lies
/// in that range, both ends included. An empty range is left out, as the call
/// panics on it.
#[verifier::external_body]
pub(crate) fn draw_between(rng: &mut rand::rngs::ThreadRng, low: usize, high: usize) -> (n: usize)
    requires
        low <= high,
    ensures
        low <= n <= high,
{
    rng.gen_range(low..=high)
}

/// Calls `Rng::gen_ratio`, which is true with probability
/// `numerator / denominator`. Nothing is claimed of the outcome. A zero
/// denominator and a numerator above the denominator are left out, as the
/// call panics on them.
#[verifier::external_body]
pub(crate) fn draw_ratio(rng: &mut rand::rngs::ThreadRng, numerator: u32, denominator: u32) -> (hit:
    bool)
    requires
        0 < denominator,
        numerator <= denominator,
{
    rng.gen_ratio(numerator, denominator)
}

/// Calls `SliceRandom::shuffle` on the cards. Not proved: the cards are the
/// same ones afterwards, each as often as before, in whatever order the
/// generator gave.
#[verifier::external_body]
pub(crate) fn shuffle_cards(cards: &mut VecDeque<Card>, rng: &mut rand::rngs::ThreadRng)
    ensures
        final(cards)@.to_multiset() == old(cards)@.to_multiset(),
{
    cards.make_contiguous().shuffle(rng);
}

/// Calls `itertools::interleave` and collects what it yields. Not proved: the
/// cards of `first` and `second` come out in turn, starting with `first`, and
/// once one packet is used up the rest of the other follows.
#[verifier::external_body]
pub(crate) fn interleave_cards(first: VecDeque<Card>, second: VecDeque<Card>) -> (all: VecDeque<
    Card,
>)
    ensures
        all@ == interleaved(first@, second@),
{
    itertools::interleave(first, second).collect()
}

} // verus!
