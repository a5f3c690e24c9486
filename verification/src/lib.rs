//! A 78-card tarot deck and the hand shuffles that rearrange it.
//!
//! [`card`] holds the card model, [`deck`] the ordered deck with its draw,
//! insert and shuffle operations, and [`shuffle`] the shuffles as selectable
//! strategies. Contracts speak of a deck as the sequence of its cards from
//! top to bottom: [`pile`] and [`sequence`] define that model, and [`laws`]
//! proves what holds across several operations.

use vstd::prelude::*;
use crate::deck::Deck;
use crate::pile::canonical_deck;

pub mod card;
pub mod deck;
pub mod laws;
pub mod numeral;
pub mod pile;
pub mod random;
pub mod sequence;
pub mod shuffle;
pub mod spread;

verus! {

/// A session: the deck that is being read from.
#[derive(Debug)]
pub struct TarotInstance {
    pub deck: Deck,
}

impl TarotInstance {
    /// A session with a full deck in canonical order.
    pub fn new() -> (instance: TarotInstance)
        ensures
            instance.deck@ == canonical_deck(),
    {
        TarotInstance { deck: Deck::new() }
    }
}

impl Default for TarotInstance {
    /// A session with a full deck in canonical order.
    fn default() -> (instance: TarotInstance)
        ensures
            instance.deck@ == canonical_deck(),
    {
        TarotInstance::new()
    }
}

} // verus!
