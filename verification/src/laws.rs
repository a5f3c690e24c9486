//! What holds across several deck operations, stated over the values that
//! the operations' contracts speak of: a deck is the sequence of its cards
//! from top to bottom, drawing removes the first card, putting appends one.

use vstd::prelude::*;
use crate::card::CardView;
use crate::pile::{canonical_deck, identities};
use crate::pile::{lemma_canonical_cards_differ, lemma_same_cards_same_identities};
use crate::sequence::{lemma_rotated_keeps, rotated};

verus! {

/// Drawing the top card of a deck and putting it straight back leaves the
/// number of cards and their identities as they were, makes the drawn card
/// the bottom card, and, where the deck holds at least two cards, brings the
/// card that was second from the top to the top.
pub proof fn lemma_draw_then_put(deck: Seq<CardView>)
    requires
        deck.len() > 0,
    ensures
        deck.drop_first().push(deck[0]).len() == deck.len(),
        identities(deck.drop_first().push(deck[0])) == identities(deck),
        deck.drop_first().push(deck[0]).last() == deck[0],
        deck.len() >= 2 ==> deck.drop_first().push(deck[0])[0] == deck[1],
        deck.drop_first().push(deck[0]) == rotated(deck, 1),
{
    let after = deck.drop_first().push(deck[0]);
    assert(after =~= rotated(deck, 1));
    lemma_rotated_keeps(deck, 1);
    lemma_same_cards_same_identities(after, deck);
}

/// Drawing `n` cards from the top and putting them back under the deck in
/// the order drawn rotates the deck by `n`: the cards that were not drawn
/// come first, the drawn ones follow in their order. The number of cards and
/// their identities are as before. The deck is in its former order when
/// every card was drawn; and where no card occurs twice in the deck, only
/// then.
pub proof fn lemma_draw_n_then_put_n(deck: Seq<CardView>, n: int)
    requires
        1 <= n <= deck.len(),
    ensures
        deck.subrange(n, deck.len() as int) + deck.subrange(0, n) == rotated(deck, n),
        rotated(deck, n).len() == deck.len(),
        identities(rotated(deck, n)) == identities(deck),
        n == deck.len() ==> rotated(deck, n) == deck,
        deck.no_duplicates() ==> (rotated(deck, n) == deck <==> n == deck.len()),
{
    lemma_rotated_keeps(deck, n);
    lemma_same_cards_same_identities(rotated(deck, n), deck);
    if n == deck.len() {
        assert(rotated(deck, n) =~= deck);
    } else {
        assert(rotated(deck, n)[0] == deck[n]);
        if deck.no_duplicates() {
            assert(deck[n] != deck[0]);
        }
    }
}

/// No card occurs twice in a freshly built deck.
pub proof fn lemma_canonical_deck_distinct()
    ensures
        canonical_deck().len() == 78,
        canonical_deck().map_values(|c: CardView| c.arcana).no_duplicates(),
        canonical_deck().no_duplicates(),
{
    let deck = canonical_deck();
    let ids = deck.map_values(|c: CardView| c.arcana);
    assert forall|i: int, j: int| 0 <= i < ids.len() && 0 <= j < ids.len() && i != j implies ids[i]
        != ids[j] by {
        lemma_canonical_cards_differ(i, j);
    }
    assert forall|i: int, j: int| 0 <= i < deck.len() && 0 <= j < deck.len() && i != j implies deck[i]
        != deck[j] by {
        lemma_canonical_cards_differ(i, j);
    }
}

} // verus!
