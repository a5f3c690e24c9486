//! The deck: an ordered pile of cards with a top, where cards are drawn and
//! looked at, and a bottom, where cards are put back.
//!
//! A deck is modelled by the sequence of its cards from top to bottom: index 0
//! is the top card and the last index is the bottom card.

use std::collections::VecDeque;
use vstd::prelude::*;
use crate::card::{major_name, Arcana, ArcanaView, Card, CardView, Orientation, Rank, Suit};
use crate::card::{MAX_ORDER, NUM_RANKS, NUM_SUITS};
use crate::pile::{all_turned, canonical_card, canonical_deck, identities, model, riffled, turned};
use crate::pile::{
    lemma_riffled_keeps, lemma_same_cards_same_identities, lemma_same_cards_same_model,
    lemma_turned_keeps,
};
use crate::pile::DECK_SIZE;
use crate::random::{draw_between, draw_ratio, interleave_cards, shuffle_cards};
use crate::sequence::{cycled, interleaved, rotated, stripped};
use crate::sequence::{
    lemma_cycled_is_rotated, lemma_cycled_keeps, lemma_interleaved_map, lemma_stripped_keeps,
};

verus! {

/// An ordered deck of cards.
#[derive(Debug)]
pub struct Deck {
    cards: VecDeque<Card>,
}

impl View for Deck {
    type V = Seq<CardView>;

    closed spec fn view(&self) -> Seq<CardView> {
        model(self.cards@)
    }
}

impl Deck {
    /// The full deck of 78 cards in canonical order, all upright.
    pub fn new() -> (deck: Deck)
        ensures
            deck@ == canonical_deck(),
            deck@.len() == DECK_SIZE,
            forall|i: int| 0 <= i < deck@.len() ==> deck@[i].orientation == Orientation::Upright,
            forall|i: int| 0 <= i < deck@.len() ==> deck@[i].well_formed(),
            deck@[0].arcana == (ArcanaView::Minor { rank: Rank::Ace, suit: Suit::Pentacles }),
            deck@[DECK_SIZE - 1].arcana == (ArcanaView::Major { order: 1, name: major_name(1) }),
    {
        let mut cards: VecDeque<Card> = VecDeque::new();
        let mut order: u32 = 1;
        while order <= MAX_ORDER
            invariant
                1 <= order <= MAX_ORDER + 1,
                cards@.len() == order - 1,
                model(cards@) =~= canonical_deck().subrange(DECK_SIZE - cards@.len(), DECK_SIZE as int),
            decreases MAX_ORDER + 1 - order,
        {
            let card = Card::new(Arcana::major(order));
            proof {
                lemma_grow_upwards(cards@, card);
            }
            cards.push_front(card);
            order += 1;
        }
        let fool = Card::new(Arcana::major(0));
        proof {
            lemma_grow_upwards(cards@, fool);
        }
        cards.push_front(fool);
        let suits = Suit::count();
        let ranks = Rank::count();
        let mut suit: usize = 0;
        while suit < suits
            invariant
                suits == NUM_SUITS,
                ranks == NUM_RANKS,
                suit <= NUM_SUITS,
                cards@.len() == 22 + NUM_RANKS * suit,
                model(cards@) =~= canonical_deck().subrange(DECK_SIZE - cards@.len(), DECK_SIZE as int),
            decreases NUM_SUITS - suit,
        {
            let mut rank: usize = ranks;
            while rank >= 1
                invariant
                    ranks == NUM_RANKS,
                    suit < NUM_SUITS,
                    rank <= NUM_RANKS,
                    cards@.len() == 22 + NUM_RANKS * suit + (NUM_RANKS - rank),
                    model(cards@) =~= canonical_deck().subrange(
                        DECK_SIZE - cards@.len(),
                        DECK_SIZE as int,
                    ),
                decreases rank,
            {
                let arcana = match (Rank::from_repr(rank), Suit::from_repr(suit)) {
                    (Some(r), Some(s)) => Arcana::minor(r, s),
                    _ => Arcana::major(0),
                };
                let card = Card::new(arcana);
                proof {
                    let position = DECK_SIZE - cards@.len() - 1;
                    assert(position % 14 + 1 == rank && 3 - position / 14 == suit);
                    lemma_grow_upwards(cards@, card);
                }
                cards.push_front(card);
                rank -= 1;
            }
            suit += 1;
        }
        Deck { cards }
    }

    /// A deck of the given cards, the first of them on top.
    pub fn from_cards(cards: Vec<Card>) -> (deck: Deck)
        ensures
            deck@ == model(cards@),
    {
        let ghost given = cards@;
        let mut pile: VecDeque<Card> = VecDeque::new();
        for card in it: cards
            invariant
                it.seq() == given,
                pile@ =~= given.subrange(0, it.index()),
        {
            pile.push_back(card);
        }
        assert(pile@ =~= given);
        Deck { cards: pile }
    }

    /// Number of cards in the deck.
    pub fn len(&self) -> (n: usize)
        ensures
            n == self@.len(),
    {
        self.cards.len()
    }

    /// Whether the deck holds no card.
    pub fn is_empty(&self) -> (empty: bool)
        ensures
            empty == (self@.len() == 0),
    {
        self.cards.len() == 0
    }

    /// The card at position `index`, counted from the top; `None` past the bottom.
    pub fn get(&self, index: usize) -> (found: Option<&Card>)
        ensures
            found is Some <==> index < self@.len(),
            found matches Some(card) ==> card@ == self@[index as int],
    {
        if index < self.cards.len() {
            Some(&self.cards[index])
        } else {
            None
        }
    }

    /// The top card, left where it is; `None` on an empty deck.
    pub fn peek(&self) -> (top: Option<&Card>)
        ensures
            top is Some <==> self@.len() > 0,
            top matches Some(card) ==> card@ == self@[0],
    {
        self.get(0)
    }

    /// Removes and returns the top card; `None` on an empty deck, which stays
    /// as it is.
    pub fn pop(&mut self) -> (top: Option<Card>)
        ensures
            top is Some <==> old(self)@.len() > 0,
            top matches Some(card) ==> card@ == old(self)@[0] && final(self)@ == old(self)@.drop_first(),
            top is None ==> final(self)@ == old(self)@,
    {
        let top = self.cards.pop_front();
        proof {
            if top is Some {
                assert(model(self.cards@) =~= model(old(self).cards@).drop_first());
            }
        }
        top
    }

    /// Removes and returns the top card; `None` on an empty deck, which stays
    /// as it is.
    pub fn draw(&mut self) -> (top: Option<Card>)
        ensures
            top is Some <==> old(self)@.len() > 0,
            top matches Some(card) ==> card@ == old(self)@[0] && final(self)@ == old(self)@.drop_first(),
            top is None ==> final(self)@ == old(self)@,
    {
        self.pop()
    }

    /// Puts the card under the deck: it becomes the bottom card.
    pub fn put(&mut self, card: Card)
        ensures
            final(self)@ == old(self)@.push(card@),
    {
        self.cards.push_back(card);
        proof {
            assert(model(self.cards@) =~= model(old(self).cards@).push(card@));
        }
    }

    /// Draws `n` cards from the top and returns them in the order drawn, the
    /// former top card first. Returns `None`, and leaves the deck as it is,
    /// when `n` is zero or the deck holds fewer than `n` cards.
    pub fn draw_n(&mut self, n: usize) -> (drawn: Option<Vec<Card>>)
        ensures
            drawn is Some <==> 1 <= n <= old(self)@.len(),
            drawn matches Some(cards) ==> model(cards@) == old(self)@.subrange(0, n as int)
                && final(self)@ == old(self)@.subrange(n as int, old(self)@.len() as int),
            drawn is None ==> final(self)@ == old(self)@,
    {
        if n == 0 || n > self.cards.len() {
            return None;
        }
        let mut cards: Vec<Card> = Vec::new();
        while cards.len() < n
            invariant
                n <= old(self).cards@.len(),
                cards@.len() <= n,
                cards@ =~= old(self).cards@.subrange(0, cards@.len() as int),
                self.cards@ =~= old(self).cards@.subrange(
                    cards@.len() as int,
                    old(self).cards@.len() as int,
                ),
            decreases n - cards.len(),
        {
            match self.cards.pop_front() {
                Some(card) => cards.push(card),
                None => {},
            }
        }
        proof {
            let before = old(self).cards@;
            assert(model(cards@) =~= model(before).subrange(0, n as int));
            assert(model(self.cards@) =~= model(before).subrange(n as int, before.len() as int));
        }
        Some(cards)
    }

    /// Puts the cards under the deck one after the other, the first of them
    /// first: the last of them becomes the bottom card.
    pub fn put_n(&mut self, cards: Vec<Card>)
        ensures
            final(self)@ == old(self)@ + model(cards@),
    {
        let ghost given = cards@;
        for card in it: cards
            invariant
                it.seq() == given,
                self@ =~= old(self)@ + model(given).subrange(0, it.index()),
        {
            self.put(card);
        }
        assert(model(given).subrange(0, given.len() as int) =~= model(given));
    }
    /// Turns over the card at each position where `turns` says so, counted
    /// from the top; positions that `turns` does not reach stay as they are.
    pub fn turn_where(&mut self, turns: &Vec<bool>)
        ensures
            final(self)@ == turned(old(self)@, turns@),
            final(self)@.len() == old(self)@.len(),
            identities(final(self)@) == identities(old(self)@),
    {
        let n = self.cards.len();
        let mut i: usize = 0;
        while i < n
            invariant
                i <= n,
                n == old(self).cards@.len(),
                self.cards@.len() == n,
                model(self.cards@) =~= model(old(self).cards@).subrange(i as int, n as int)
                    + turned(model(old(self).cards@), turns@).subrange(0, i as int),
            decreases n - i,
        {
            let ghost held = self.cards@;
            match self.cards.pop_front() {
                Some(mut card) => {
                    if i < turns.len() && turns[i] {
                        card.reverse();
                    }
                    self.cards.push_back(card);
                    assert(model(self.cards@) =~= model(held).drop_first().push(
                        model(held)[0].reversed_if(i < turns@.len() && turns@[i as int]),
                    ));
                },
                None => {},
            }
            i += 1;
        }
        proof {
            lemma_turned_keeps(old(self)@, turns@);
        }
    }

    /// The overhand shuffle with a given cut: `cut + 1` times over, the top
    /// card is taken off and put under the deck. The deck ends up rotated by
    /// `cut + 1` positions; no card is turned over.
    pub fn overhand_cut(&mut self, cut: usize)
        requires
            cut < old(self)@.len(),
        ensures
            final(self)@ == cycled(old(self)@, (cut + 1) as nat),
            final(self)@ == rotated(old(self)@, cut + 1),
            final(self)@.len() == old(self)@.len(),
            identities(final(self)@) == identities(old(self)@),
    {
        let n = self.cards.len();
        let mut moved: usize = 0;
        while moved <= cut
            invariant
                moved <= cut + 1,
                cut < n,
                cut < old(self)@.len(),
                self@.len() == old(self)@.len(),
                self@ == cycled(old(self)@, moved as nat),
            decreases cut + 1 - moved,
        {
            match self.pop() {
                Some(card) => self.put(card),
                None => {},
            }
            moved += 1;
        }
        proof {
            lemma_cycled_is_rotated(old(self)@, (cut + 1) as nat);
            lemma_cycled_keeps(old(self)@, (cut + 1) as nat);
            lemma_same_cards_same_identities(self@, old(self)@);
        }
    }

    /// The strip shuffle with a given cut and insertion point: the last
    /// `cut` cards, counted from the top, are taken out as one packet and put
    /// back, in their order, before position `at` of the cards that were
    /// left; `at` may be 0, the very top, or the number of cards left, the
    /// very bottom. No card is turned over.
    pub fn strip_cut(&mut self, cut: usize, at: usize)
        requires
            cut <= old(self)@.len(),
            at <= old(self)@.len() - cut,
        ensures
            final(self)@ == stripped(old(self)@, cut as int, at as int),
            final(self)@.len() == old(self)@.len(),
            identities(final(self)@) == identities(old(self)@),
    {
        let n = self.cards.len();
        let mut packet = self.cards.split_off(n - cut);
        while packet.len() > 0
            invariant
                n == old(self).cards@.len(),
                cut <= n,
                at <= n - cut,
                packet@.len() <= cut,
                packet@ =~= old(self).cards@.subrange(n - cut, n - cut + packet@.len()),
                self.cards@ =~= old(self).cards@.subrange(0, at as int) + old(self).cards@.subrange(
                    n - cut + packet@.len(),
                    n as int,
                ) + old(self).cards@.subrange(at as int, n - cut),
            decreases packet.len(),
        {
            match packet.pop_back() {
                Some(card) => self.cards.insert(at, card),
                None => {},
            }
        }
        proof {
            assert(self.cards@ =~= stripped(old(self).cards@, cut as int, at as int));
            assert(model(self.cards@) =~= stripped(old(self)@, cut as int, at as int));
            lemma_stripped_keeps(old(self)@, cut as int, at as int);
            lemma_same_cards_same_identities(self@, old(self)@);
        }
    }

    /// The riffle shuffle with a given cut and given coin flips: the deck is
    /// split before position `cut` into an upper and a lower packet; every
    /// card of the upper packet is turned over if `turn_upper` holds, every
    /// card of the lower packet if `turn_lower` holds; then the packets are
    /// interleaved card by card, starting with the upper packet if
    /// `upper_first` holds and with the lower one otherwise, and once one
    /// packet is used up the rest of the other follows.
    pub fn riffle_cut(&mut self, cut: usize, turn_upper: bool, turn_lower: bool, upper_first: bool)
        requires
            cut <= old(self)@.len(),
        ensures
            final(self)@ == riffled(old(self)@, cut as int, turn_upper, turn_lower, upper_first),
            final(self)@.len() == old(self)@.len(),
            identities(final(self)@) == identities(old(self)@),
    {
        let ghost before = self.cards@;
        let mut lower = self.cards.split_off(cut);
        let mut upper: VecDeque<Card> = VecDeque::new();
        std::mem::swap(&mut upper, &mut self.cards);
        proof {
            assert(model(upper@) =~= model(before).subrange(0, cut as int));
            assert(model(lower@) =~= model(before).subrange(cut as int, before.len() as int));
        }
        if turn_upper {
            reverse_all(&mut upper);
        }
        if turn_lower {
            reverse_all(&mut lower);
        }
        proof {
            assert(model(upper@) =~= all_turned(model(before).subrange(0, cut as int), turn_upper));
            assert(model(lower@) =~= all_turned(
                model(before).subrange(cut as int, before.len() as int),
                turn_lower,
            ));
            lemma_interleaved_map(upper@, lower@, |c: Card| c@);
            lemma_interleaved_map(lower@, upper@, |c: Card| c@);
            assert(model(upper@) =~= upper@.map_values(|c: Card| c@));
            assert(model(lower@) =~= lower@.map_values(|c: Card| c@));
            assert(model(interleaved(upper@, lower@)) =~= interleaved(upper@, lower@).map_values(
                |c: Card| c@,
            ));
            assert(model(interleaved(lower@, upper@)) =~= interleaved(lower@, upper@).map_values(
                |c: Card| c@,
            ));
            lemma_riffled_keeps(model(before), cut as int, turn_upper, turn_lower, upper_first);
        }
        self.cards = if upper_first {
            interleave_cards(upper, lower)
        } else {
            interleave_cards(lower, upper)
        };
    }

    /// The full shuffle: the cards are brought into a random order, every
    /// order being as likely as any other, and then each card is turned over
    /// or not by the flip of a fair coin of its own.
    ///
    /// Whatever is drawn, the deck afterwards is some arrangement of the
    /// cards it held, with some of them turned over.
    pub fn random_shuffle(&mut self)
        ensures
            exists|order: Seq<CardView>, turns: Seq<bool>|
                order.to_multiset() == old(self)@.to_multiset() && turns.len() == order.len()
                    && final(self)@ == #[trigger] turned(order, turns),
            old(self)@.len() == 0 ==> final(self)@ == old(self)@,
            final(self)@.len() == old(self)@.len(),
            identities(final(self)@) == identities(old(self)@),
    {
        if self.cards.len() == 0 {
            proof {
                assert(self@ =~= turned(self@, Seq::<bool>::empty()));
            }
            return ;
        }
        let mut rng = rand::thread_rng();
        shuffle_cards(&mut self.cards, &mut rng);
        let ghost order = self@;
        let turns = draw_turns(&mut rng, self.cards.len());
        proof {
            lemma_same_cards_same_model(self.cards@, old(self).cards@);
            lemma_same_cards_same_identities(order, old(self)@);
        }
        self.turn_where(&turns);
        proof {
            assert(self@ == turned(order, turns@));
        }
    }

    /// The overhand shuffle: a cut is drawn from 0 up to, not including, the
    /// number of cards, and the deck is shuffled overhand with that cut. An
    /// empty deck is left as it is, and nothing is drawn.
    pub fn overhand_shuffle(&mut self)
        ensures
            old(self)@.len() == 0 ==> final(self)@ == old(self)@,
            old(self)@.len() > 0 ==> exists|cut: int|
                0 <= cut < old(self)@.len() && final(self)@ == #[trigger] rotated(
                    old(self)@,
                    cut + 1,
                ),
            final(self)@.len() == old(self)@.len(),
            identities(final(self)@) == identities(old(self)@),
    {
        let n = self.cards.len();
        if n == 0 {
            return ;
        }
        let mut rng = rand::thread_rng();
        let cut = draw_between(&mut rng, 0, n - 1);
        self.overhand_cut(cut);
        proof {
            assert(self@ == rotated(old(self)@, cut as int + 1));
        }
    }

    /// The strip shuffle: a cut is drawn from 0 up to, not including, half
    /// the number of cards (rounded down), then an insertion point from 0 up
    /// to and including the number of cards left without the packet, and the
    /// deck is strip-shuffled with them. A deck of fewer than two cards is
    /// left as it is, and nothing is drawn.
    pub fn strip_shuffle(&mut self)
        ensures
            old(self)@.len() < 2 ==> final(self)@ == old(self)@,
            old(self)@.len() >= 2 ==> exists|cut: int, at: int|
                0 <= cut < old(self)@.len() / 2 && 0 <= at <= old(self)@.len() - cut && final(self)@
                    == #[trigger] stripped(old(self)@, cut, at),
            final(self)@.len() == old(self)@.len(),
            identities(final(self)@) == identities(old(self)@),
    {
        let n = self.cards.len();
        if n < 2 {
            return ;
        }
        let mut rng = rand::thread_rng();
        let cut = draw_between(&mut rng, 0, n / 2 - 1);
        let at = draw_between(&mut rng, 0, n - cut);
        self.strip_cut(cut, at);
        proof {
            assert(self@ == stripped(old(self)@, cut as int, at as int));
        }
    }

    /// The riffle shuffle: a cut is drawn from 0 up to, not including, the
    /// number of cards, then three fair coins: whether the lower packet is
    /// turned over, whether the upper packet is, and which packet gives the
    /// first card. The deck is riffled with them. An empty deck is left as it
    /// is, and nothing is drawn.
    pub fn riffle_shuffle(&mut self)
        ensures
            old(self)@.len() == 0 ==> final(self)@ == old(self)@,
            old(self)@.len() > 0 ==> exists|
                cut: int,
                turn_upper: bool,
                turn_lower: bool,
                upper_first: bool,
            |
                0 <= cut < old(self)@.len() && final(self)@ == #[trigger] riffled(
                    old(self)@,
                    cut,
                    turn_upper,
                    turn_lower,
                    upper_first,
                ),
            final(self)@.len() == old(self)@.len(),
            identities(final(self)@) == identities(old(self)@),
    {
        let n = self.cards.len();
        if n == 0 {
            return ;
        }
        let mut rng = rand::thread_rng();
        let cut = draw_between(&mut rng, 0, n - 1);
        let turn_lower = draw_ratio(&mut rng, 1, 2);
        let turn_upper = draw_ratio(&mut rng, 1, 2);
        let upper_first = draw_ratio(&mut rng, 1, 2);
        self.riffle_cut(cut, turn_upper, turn_lower, upper_first);
        proof {
            assert(self@ == riffled(old(self)@, cut as int, turn_upper, turn_lower, upper_first));
        }
    }
}

impl Default for Deck {
    /// The full deck in canonical order.
    fn default() -> (deck: Deck)
        ensures
            deck@ == canonical_deck(),
    {
        Deck::new()
    }
}

/// Turns over every card of the packet.
fn reverse_all(cards: &mut VecDeque<Card>)
    ensures
        model(final(cards)@) == all_turned(model(old(cards)@), true),
{
    let n = cards.len();
    let mut i: usize = 0;
    while i < n
        invariant
            i <= n,
            n == old(cards)@.len(),
            cards@.len() == n,
            model(cards@) =~= model(old(cards)@).subrange(i as int, n as int) + all_turned(
                model(old(cards)@),
                true,
            ).subrange(0, i as int),
        decreases n - i,
    {
        let ghost held = cards@;
        match cards.pop_front() {
            Some(mut card) => {
                card.reverse();
                cards.push_back(card);
                assert(model(cards@) =~= model(held).drop_first().push(model(held)[0].reversed()));
            },
            None => {},
        }
        i += 1;
    }
}

/// Draws `n` fair coins.
fn draw_turns(rng: &mut rand::rngs::ThreadRng, n: usize) -> (turns: Vec<bool>)
    ensures
        turns@.len() == n,
{
    let mut turns: Vec<bool> = Vec::new();
    while turns.len() < n
        invariant
            turns@.len() <= n,
        decreases n - turns.len(),
    {
        turns.push(draw_ratio(rng, 1, 2));
    }
    turns
}

/// A pile that holds the bottom cards of a fresh deck still does so after the
/// next card up was laid on it.
proof fn lemma_grow_upwards(pile: Seq<Card>, card: Card)
    requires
        pile.len() < DECK_SIZE,
        model(pile) == canonical_deck().subrange(DECK_SIZE - pile.len(), DECK_SIZE as int),
        card@ == canonical_card(DECK_SIZE - pile.len() - 1),
    ensures
        model(seq![card] + pile) == canonical_deck().subrange(
            DECK_SIZE - pile.len() - 1,
            DECK_SIZE as int,
        ),
{
    let grown = seq![card] + pile;
    let wanted = canonical_deck().subrange(DECK_SIZE - pile.len() - 1, DECK_SIZE as int);
    assert forall|i: int| 0 <= i < grown.len() implies #[trigger] model(grown)[i] == wanted[i] by {
        if i > 0 {
            assert(grown[i] == pile[i - 1]);
            assert(model(pile)[i - 1] == canonical_deck()[DECK_SIZE - pile.len() + i - 1]);
        }
    }
    assert(model(grown) =~= wanted);
}

} // verus!
