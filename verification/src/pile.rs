//! The mathematical model of a pile of cards: the sequence of the values of
//! its cards from top to bottom, with the rearrangements that are specific to
//! cards (turning cards over, riffling) and the canonical order of a full
//! deck.

use vstd::multiset::Multiset;
use vstd::prelude::*;
use crate::card::{major_name, ArcanaView, Card, CardView, Orientation, Rank, Suit};
use crate::card::{NUM_RANKS, NUM_SUITS};
use crate::sequence::interleaved;
use crate::sequence::{
    lemma_interleaved_contents, lemma_interleaved_len, lemma_map_keeps_contents,
};

verus! {

/// Number of cards in a full deck.
pub const DECK_SIZE: usize = 78;

/// Number of minor arcana cards in a full deck.
pub const NUM_MINOR: usize = 56;

/// The mathematical value of a pile of cards: the value of each card, in order.
pub open spec fn model(cards: Seq<Card>) -> Seq<CardView> {
    cards.map_values(|c: Card| c@)
}

/// The identities in a pile, each as often as it occurs, whatever the order
/// and the orientations.
pub open spec fn identities(cards: Seq<CardView>) -> Multiset<ArcanaView> {
    cards.map_values(|c: CardView| c.arcana).to_multiset()
}

/// The card at position `i` of a freshly built deck, counted from the top.
///
/// The canonical order, from the bottom up: The Magician (I) to The World
/// (XXI) by rising order, then The Fool (0), then Wands, Cups, Swords and
/// Pentacles, each suit from King down to Ace. So the top card is the Ace of
/// Pentacles and the bottom card is The Magician. Every card is upright.
pub open spec fn canonical_card(i: int) -> CardView {
    let arcana = if 0 <= i < NUM_MINOR {
        ArcanaView::Minor {
            rank: Rank::of_ordinal(i % (NUM_RANKS as int) + 1).unwrap(),
            suit: Suit::of_ordinal(NUM_SUITS - 1 - i / (NUM_RANKS as int)).unwrap(),
        }
    } else if i == NUM_MINOR {
        ArcanaView::Major { order: 0, name: major_name(0) }
    } else {
        ArcanaView::Major { order: (DECK_SIZE - i) as nat, name: major_name((DECK_SIZE - i) as nat) }
    };
    CardView { arcana, orientation: Orientation::Upright }
}

/// A freshly built deck, from top to bottom.
pub open spec fn canonical_deck() -> Seq<CardView> {
    Seq::new(DECK_SIZE as nat, |i: int| canonical_card(i))
}

/// The pile with the card at each position turned over where `turns` says
/// so; positions that `turns` does not reach stay as they are.
pub open spec fn turned(cards: Seq<CardView>, turns: Seq<bool>) -> Seq<CardView> {
    Seq::new(cards.len(), |i: int| cards[i].reversed_if(i < turns.len() && turns[i]))
}

/// The pile with every card turned over if `turn` holds, unchanged otherwise.
pub open spec fn all_turned(cards: Seq<CardView>, turn: bool) -> Seq<CardView> {
    cards.map_values(|c: CardView| c.reversed_if(turn))
}

/// The pile after a riffle: it is split before position `cut` into an upper
/// packet and a lower one, every card of the upper packet is turned over if
/// `turn_upper` holds and every card of the lower one if `turn_lower` holds,
/// and the two packets are interleaved, the upper packet giving the first
/// card if `upper_first` holds and the lower packet otherwise.
pub open spec fn riffled(
    cards: Seq<CardView>,
    cut: int,
    turn_upper: bool,
    turn_lower: bool,
    upper_first: bool,
) -> Seq<CardView>
    recommends
        0 <= cut <= cards.len(),
{
    let upper = all_turned(cards.subrange(0, cut), turn_upper);
    let lower = all_turned(cards.subrange(cut, cards.len() as int), turn_lower);
    if upper_first {
        interleaved(upper, lower)
    } else {
        interleaved(lower, upper)
    }
}

/// Piles that hold the same cards have values that hold the same cards.
pub proof fn lemma_same_cards_same_model(a: Seq<Card>, b: Seq<Card>)
    requires
        a.to_multiset() == b.to_multiset(),
    ensures
        model(a).to_multiset() == model(b).to_multiset(),
{
    lemma_map_keeps_contents(a, b, |c: Card| c@);
}

/// Piles that hold the same cards hold the same identities.
pub proof fn lemma_same_cards_same_identities(a: Seq<CardView>, b: Seq<CardView>)
    requires
        a.to_multiset() == b.to_multiset(),
    ensures
        a.len() == b.len(),
        identities(a) == identities(b),
{
    a.to_multiset_ensures();
    b.to_multiset_ensures();
    lemma_map_keeps_contents(a, b, |c: CardView| c.arcana);
}

/// Turning cards over changes neither their number nor their identities.
pub proof fn lemma_turned_keeps(cards: Seq<CardView>, turns: Seq<bool>)
    ensures
        turned(cards, turns).len() == cards.len(),
        identities(turned(cards, turns)) == identities(cards),
{
    assert(turned(cards, turns).map_values(|c: CardView| c.arcana) =~= cards.map_values(
        |c: CardView| c.arcana,
    ));
}

/// A riffle changes neither the number of cards nor their identities.
pub proof fn lemma_riffled_keeps(
    cards: Seq<CardView>,
    cut: int,
    turn_upper: bool,
    turn_lower: bool,
    upper_first: bool,
)
    requires
        0 <= cut <= cards.len(),
    ensures
        riffled(cards, cut, turn_upper, turn_lower, upper_first).len() == cards.len(),
        identities(riffled(cards, cut, turn_upper, turn_lower, upper_first)) == identities(cards),
{
    let upper = all_turned(cards.subrange(0, cut), turn_upper);
    let lower = all_turned(cards.subrange(cut, cards.len() as int), turn_lower);
    let result = riffled(cards, cut, turn_upper, turn_lower, upper_first);
    lemma_interleaved_len(upper, lower);
    lemma_interleaved_len(lower, upper);
    lemma_interleaved_contents(upper, lower);
    lemma_interleaved_contents(lower, upper);
    vstd::seq_lib::lemma_seq_union_to_multiset_commutative(upper, lower);
    lemma_same_cards_same_identities(result, upper + lower);
    assert((upper + lower).map_values(|c: CardView| c.arcana) =~= cards.map_values(
        |c: CardView| c.arcana,
    ));
}

/// Two different positions of a freshly built deck hold different identities.
pub proof fn lemma_canonical_cards_differ(i: int, j: int)
    requires
        0 <= i < DECK_SIZE,
        0 <= j < DECK_SIZE,
        i != j,
    ensures
        canonical_card(i).arcana != canonical_card(j).arcana,
{
    if i < NUM_MINOR && j < NUM_MINOR {
        assert(i % 14 != j % 14 || i / 14 != j / 14);
    }
}

} // verus!
