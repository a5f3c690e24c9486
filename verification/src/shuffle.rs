//! The shuffles as strategies: one type per way of shuffling, all behind one
//! trait, so that a caller can pick a shuffle by type.

use vstd::prelude::*;
use crate::card::CardView;
use crate::deck::Deck;
use crate::pile::{identities, riffled, turned};
use crate::sequence::{rotated, stripped};

verus! {

/// A way of shuffling a deck. Whatever the way, a shuffle keeps the number of
/// cards and their identities: only the order and the orientations change.
pub trait Shuffle {
    fn shuffle(deck: &mut Deck)
        ensures
            final(deck)@.len() == old(deck)@.len(),
            identities(final(deck)@) == identities(old(deck)@),
    ;
}

/// The full shuffle: a random order, and a coin flip per card for its orientation.
pub struct RandomShuffler;

/// The overhand shuffle: the deck is rotated by a random number of cards.
pub struct OverhandShuffler;

/// The riffle shuffle: the deck is cut at a random place and the two packets
/// are interleaved.
pub struct RiffleShuffler;

/// The strip shuffle: a random packet from the end of the deck is put back
/// at a random place.
pub struct StripShuffler;

impl Shuffle for RandomShuffler {
    fn shuffle(deck: &mut Deck)
        ensures
            exists|order: Seq<CardView>, turns: Seq<bool>|
                order.to_multiset() == old(deck)@.to_multiset() && turns.len() == order.len()
                    && final(deck)@ == #[trigger] turned(order, turns),
            old(deck)@.len() == 0 ==> final(deck)@ == old(deck)@,
    {
        deck.random_shuffle();
    }
}

impl Shuffle for OverhandShuffler {
    fn shuffle(deck: &mut Deck)
        ensures
            old(deck)@.len() == 0 ==> final(deck)@ == old(deck)@,
            old(deck)@.len() > 0 ==> exists|cut: int|
                0 <= cut < old(deck)@.len() && final(deck)@ == #[trigger] rotated(
                    old(deck)@,
                    cut + 1,
                ),
    {
        deck.overhand_shuffle();
    }
}

impl Shuffle for RiffleShuffler {
    fn shuffle(deck: &mut Deck)
        ensures
            old(deck)@.len() == 0 ==> final(deck)@ == old(deck)@,
            old(deck)@.len() > 0 ==> exists|
                cut: int,
                turn_upper: bool,
                turn_lower: bool,
                upper_first: bool,
            |
                0 <= cut < old(deck)@.len() && final(deck)@ == #[trigger] riffled(
                    old(deck)@,
                    cut,
                    turn_upper,
                    turn_lower,
                    upper_first,
                ),
    {
        deck.riffle_shuffle();
    }
}

impl Shuffle for StripShuffler {
    fn shuffle(deck: &mut Deck)
        ensures
            old(deck)@.len() < 2 ==> final(deck)@ == old(deck)@,
            old(deck)@.len() >= 2 ==> exists|cut: int, at: int|
                0 <= cut < old(deck)@.len() / 2 && 0 <= at <= old(deck)@.len() - cut && final(deck)@
                    == #[trigger] stripped(old(deck)@, cut, at),
    {
        deck.strip_shuffle();
    }
}

} // verus!
