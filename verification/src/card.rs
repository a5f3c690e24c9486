//! The card model: rank, suit, orientation, arcana and the card itself.

use vstd::prelude::*;
use vstd::std_specs::cmp::PartialEqSpecImpl;
use vstd::string::StringExecFns;
use crate::numeral::{roman_numeral, to_roman};

verus! {

/// Number of ranks in a suit.
pub const NUM_RANKS: usize = 14;

/// Number of suits.
pub const NUM_SUITS: usize = 4;

/// Highest `order` of a major arcana card.
pub const MAX_ORDER: u32 = 21;

/// The fourteen ranks of a suit, Ace lowest and King highest.
#[derive(Clone, Copy, PartialEq, Eq, Structural, Debug)]
pub enum Rank {
    Ace,
    Two,
    Three,
    Four,
    Five,
    Six,
    Seven,
    Eight,
    Nine,
    Ten,
    Page,
    Knight,
    Queen,
    King,
}

/// The four suits of the minor arcana.
#[derive(Clone, Copy, PartialEq, Eq, Structural, Debug)]
pub enum Suit {
    Wands,
    Cups,
    Swords,
    Pentacles,
}

/// Which way up a card faces.
#[derive(Clone, Copy, PartialEq, Eq, Structural, Debug)]
pub enum Orientation {
    Upright,
    Reverse,
}

/// What a card is: one of the 22 major or one of the 56 minor arcana.
#[derive(Debug)]
pub enum Arcana {
    Major { order: u32, name: String },
    Minor { rank: Rank, suit: Suit },
}

/// A card: its identity and the way it currently faces.
#[derive(Debug)]
pub struct Card {
    pub arcana: Arcana,
    pub orientation: Orientation,
}

/// The mathematical value of an [`Arcana`].
pub enum ArcanaView {
    Major { order: nat, name: Seq<char> },
    Minor { rank: Rank, suit: Suit },
}

/// The mathematical value of a [`Card`].
pub struct CardView {
    pub arcana: ArcanaView,
    pub orientation: Orientation,
}

impl Rank {
    /// The rank's ordinal: Ace is 1, King is 14.
    pub open spec fn ordinal(self) -> nat {
        match self {
            Rank::Ace => 1,
            Rank::Two => 2,
            Rank::Three => 3,
            Rank::Four => 4,
            Rank::Five => 5,
            Rank::Six => 6,
            Rank::Seven => 7,
            Rank::Eight => 8,
            Rank::Nine => 9,
            Rank::Ten => 10,
            Rank::Page => 11,
            Rank::Knight => 12,
            Rank::Queen => 13,
            Rank::King => 14,
        }
    }

    /// The rank with ordinal `n`, if there is one.
    pub open spec fn of_ordinal(n: int) -> Option<Rank> {
        if n == 1 {
            Some(Rank::Ace)
        } else if n == 2 {
            Some(Rank::Two)
        } else if n == 3 {
            Some(Rank::Three)
        } else if n == 4 {
            Some(Rank::Four)
        } else if n == 5 {
            Some(Rank::Five)
        } else if n == 6 {
            Some(Rank::Six)
        } else if n == 7 {
            Some(Rank::Seven)
        } else if n == 8 {
            Some(Rank::Eight)
        } else if n == 9 {
            Some(Rank::Nine)
        } else if n == 10 {
            Some(Rank::Ten)
        } else if n == 11 {
            Some(Rank::Page)
        } else if n == 12 {
            Some(Rank::Knight)
        } else if n == 13 {
            Some(Rank::Queen)
        } else if n == 14 {
            Some(Rank::King)
        } else {
            None
        }
    }

    /// The rank's name as text.
    pub open spec fn name_text(self) -> Seq<char> {
        match self {
            Rank::Ace => "Ace"@,
            Rank::Two => "Two"@,
            Rank::Three => "Three"@,
            Rank::Four => "Four"@,
            Rank::Five => "Five"@,
            Rank::Six => "Six"@,
            Rank::Seven => "Seven"@,
            Rank::Eight => "Eight"@,
            Rank::Nine => "Nine"@,
            Rank::Ten => "Ten"@,
            Rank::Page => "Page"@,
            Rank::Knight => "Knight"@,
            Rank::Queen => "Queen"@,
            Rank::King => "King"@,
        }
    }

    /// Number of ranks.
    pub fn count() -> (n: usize)
        ensures
            n == NUM_RANKS,
            forall|k: int| (1 <= k <= n) <==> Rank::of_ordinal(k) is Some,
    {
        NUM_RANKS
    }

    /// The rank's ordinal, from 1 (Ace) to 14 (King).
    pub fn repr(&self) -> (n: usize)
        ensures
            n == self.ordinal(),
            1 <= n <= NUM_RANKS,
            Rank::of_ordinal(n as int) == Some(*self),
    {
        match self {
            Rank::Ace => 1,
            Rank::Two => 2,
            Rank::Three => 3,
            Rank::Four => 4,
            Rank::Five => 5,
            Rank::Six => 6,
            Rank::Seven => 7,
            Rank::Eight => 8,
            Rank::Nine => 9,
            Rank::Ten => 10,
            Rank::Page => 11,
            Rank::Knight => 12,
            Rank::Queen => 13,
            Rank::King => 14,
        }
    }

    /// The rank with ordinal `n`; `None` unless `n` is between 1 and 14.
    pub fn from_repr(n: usize) -> (r: Option<Rank>)
        ensures
            r == Rank::of_ordinal(n as int),
            r is Some <==> 1 <= n <= NUM_RANKS,
            r matches Some(rank) ==> rank.ordinal() == n,
    {
        match n {
            1 => Some(Rank::Ace),
            2 => Some(Rank::Two),
            3 => Some(Rank::Three),
            4 => Some(Rank::Four),
            5 => Some(Rank::Five),
            6 => Some(Rank::Six),
            7 => Some(Rank::Seven),
            8 => Some(Rank::Eight),
            9 => Some(Rank::Nine),
            10 => Some(Rank::Ten),
            11 => Some(Rank::Page),
            12 => Some(Rank::Knight),
            13 => Some(Rank::Queen),
            14 => Some(Rank::King),
            _ => None,
        }
    }

    /// The rank's name, as it is written on a card.
    pub fn name(&self) -> (s: &'static str)
        ensures
            s@ == self.name_text(),
    {
        match self {
            Rank::Ace => "Ace",
            Rank::Two => "Two",
            Rank::Three => "Three",
            Rank::Four => "Four",
            Rank::Five => "Five",
            Rank::Six => "Six",
            Rank::Seven => "Seven",
            Rank::Eight => "Eight",
            Rank::Nine => "Nine",
            Rank::Ten => "Ten",
            Rank::Page => "Page",
            Rank::Knight => "Knight",
            Rank::Queen => "Queen",
            Rank::King => "King",
        }
    }
}

impl Suit {
    /// The suit's ordinal: Wands is 0, Pentacles is 3.
    pub open spec fn ordinal(self) -> nat {
        match self {
            Suit::Wands => 0,
            Suit::Cups => 1,
            Suit::Swords => 2,
            Suit::Pentacles => 3,
        }
    }

    /// The suit with ordinal `n`, if there is one.
    pub open spec fn of_ordinal(n: int) -> Option<Suit> {
        if n == 0 {
            Some(Suit::Wands)
        } else if n == 1 {
            Some(Suit::Cups)
        } else if n == 2 {
            Some(Suit::Swords)
        } else if n == 3 {
            Some(Suit::Pentacles)
        } else {
            None
        }
    }

    /// The suit's name as text.
    pub open spec fn name_text(self) -> Seq<char> {
        match self {
            Suit::Wands => "Wands"@,
            Suit::Cups => "Cups"@,
            Suit::Swords => "Swords"@,
            Suit::Pentacles => "Pentacles"@,
        }
    }

    /// Number of suits.
    pub fn count() -> (n: usize)
        ensures
            n == NUM_SUITS,
            forall|k: int| (0 <= k < n) <==> Suit::of_ordinal(k) is Some,
    {
        NUM_SUITS
    }

    /// The suit's ordinal, from 0 (Wands) to 3 (Pentacles).
    pub fn repr(&self) -> (n: usize)
        ensures
            n == self.ordinal(),
            n < NUM_SUITS,
            Suit::of_ordinal(n as int) == Some(*self),
    {
        match self {
            Suit::Wands => 0,
            Suit::Cups => 1,
            Suit::Swords => 2,
            Suit::Pentacles => 3,
        }
    }

    /// The suit with ordinal `n`; `None` unless `n` is below 4.
    pub fn from_repr(n: usize) -> (r: Option<Suit>)
        ensures
            r == Suit::of_ordinal(n as int),
            r is Some <==> n < NUM_SUITS,
            r matches Some(suit) ==> suit.ordinal() == n,
    {
        match n {
            0 => Some(Suit::Wands),
            1 => Some(Suit::Cups),
            2 => Some(Suit::Swords),
            3 => Some(Suit::Pentacles),
            _ => None,
        }
    }

    /// The suit's name, as it is written on a card.
    pub fn name(&self) -> (s: &'static str)
        ensures
            s@ == self.name_text(),
    {
        match self {
            Suit::Wands => "Wands",
            Suit::Cups => "Cups",
            Suit::Swords => "Swords",
            Suit::Pentacles => "Pentacles",
        }
    }
}

impl Orientation {
    /// The other orientation.
    pub open spec fn flipped(self) -> Orientation {
        match self {
            Orientation::Upright => Orientation::Reverse,
            Orientation::Reverse => Orientation::Upright,
        }
    }
}

impl View for Arcana {
    type V = ArcanaView;

    open spec fn view(&self) -> ArcanaView {
        match *self {
            Arcana::Major { order, name } => ArcanaView::Major { order: order as nat, name: name@ },
            Arcana::Minor { rank, suit } => ArcanaView::Minor { rank, suit },
        }
    }
}

impl View for Card {
    type V = CardView;

    open spec fn view(&self) -> CardView {
        CardView { arcana: self.arcana@, orientation: self.orientation }
    }
}

impl ArcanaView {
    /// A major card's order is at most 21; every minor card is well formed.
    pub open spec fn well_formed(self) -> bool {
        match self {
            ArcanaView::Major { order, name } => order <= MAX_ORDER,
            ArcanaView::Minor { rank, suit } => true,
        }
    }
}

impl CardView {
    /// The same card facing the other way.
    pub open spec fn reversed(self) -> CardView {
        CardView { arcana: self.arcana, orientation: self.orientation.flipped() }
    }

    /// The same card, turned over exactly when `turn` holds.
    pub open spec fn reversed_if(self, turn: bool) -> CardView {
        if turn {
            self.reversed()
        } else {
            self
        }
    }

    /// The card's identity is a valid arcana.
    pub open spec fn well_formed(self) -> bool {
        self.arcana.well_formed()
    }
}

/// The name of the major arcana card with the given order.
pub open spec fn major_name(order: nat) -> Seq<char> {
    if order == 0 {
        "The Fool"@
    } else if order == 1 {
        "The Magician"@
    } else if order == 2 {
        "The High Priestess"@
    } else if order == 3 {
        "The Empress"@
    } else if order == 4 {
        "The Emperor"@
    } else if order == 5 {
        "The Hierophant"@
    } else if order == 6 {
        "The Lovers"@
    } else if order == 7 {
        "The Chariot"@
    } else if order == 8 {
        "Strength"@
    } else if order == 9 {
        "The Hermit"@
    } else if order == 10 {
        "The Wheel of Fortune"@
    } else if order == 11 {
        "Justice"@
    } else if order == 12 {
        "The Hanged Man"@
    } else if order == 13 {
        "Death"@
    } else if order == 14 {
        "Temperance"@
    } else if order == 15 {
        "The Devil"@
    } else if order == 16 {
        "The Tower"@
    } else if order == 17 {
        "The Star"@
    } else if order == 18 {
        "The Moon"@
    } else if order == 19 {
        "The Sun"@
    } else if order == 20 {
        "Judgement"@
    } else {
        "The World"@
    }
}

/// The numeral written on a major arcana card: "0" for order 0, the Roman
/// numeral otherwise.
pub open spec fn numeral_text(order: nat) -> Seq<char> {
    if order == 0 {
        "0"@
    } else {
        match roman_numeral(order as int) {
            Some(text) => text,
            None => Seq::empty(),
        }
    }
}

impl Arcana {
    /// The name of the major arcana card with the given order.
    pub fn name_of_major(order: u32) -> (s: &'static str)
        requires
            order <= MAX_ORDER,
        ensures
            s@ == major_name(order as nat),
    {
        match order {
            0 => "The Fool",
            1 => "The Magician",
            2 => "The High Priestess",
            3 => "The Empress",
            4 => "The Emperor",
            5 => "The Hierophant",
            6 => "The Lovers",
            7 => "The Chariot",
            8 => "Strength",
            9 => "The Hermit",
            10 => "The Wheel of Fortune",
            11 => "Justice",
            12 => "The Hanged Man",
            13 => "Death",
            14 => "Temperance",
            15 => "The Devil",
            16 => "The Tower",
            17 => "The Star",
            18 => "The Moon",
            19 => "The Sun",
            20 => "Judgement",
            _ => "The World",
        }
    }

    /// The major arcana card with the given order, under its usual name.
    pub fn major(order: u32) -> (a: Arcana)
        requires
            order <= MAX_ORDER,
        ensures
            a@ == (ArcanaView::Major { order: order as nat, name: major_name(order as nat) }),
            a@.well_formed(),
    {
        Arcana::Major { order, name: String::from_str(Arcana::name_of_major(order)) }
    }

    /// The minor arcana card of the given rank and suit.
    pub fn minor(rank: Rank, suit: Suit) -> (a: Arcana)
        ensures
            a@ == (ArcanaView::Minor { rank, suit }),
            a@.well_formed(),
    {
        Arcana::Minor { rank, suit }
    }
}

impl CardView {
    /// What is written before a card's name: "Reversed " on a reversed card,
    /// nothing on an upright one.
    pub open spec fn prefix(self) -> Seq<char> {
        match self.orientation {
            Orientation::Upright => Seq::empty(),
            Orientation::Reverse => "Reversed "@,
        }
    }

    /// The card's text, with `numeral` standing for a major card's order:
    /// numeral, " - " and name for a major card, rank, " of " and suit for a
    /// minor one, each after the orientation's prefix.
    pub open spec fn text_with(self, numeral: Seq<char>) -> Seq<char> {
        match self.arcana {
            ArcanaView::Major { order, name } => self.prefix() + numeral + " - "@ + name,
            ArcanaView::Minor { rank, suit } => self.prefix() + rank.name_text() + " of "@
                + suit.name_text(),
        }
    }

    /// The card's text.
    pub open spec fn text(self) -> Seq<char> {
        match self.arcana {
            ArcanaView::Major { order, name } => self.text_with(numeral_text(order)),
            ArcanaView::Minor { rank, suit } => self.text_with(Seq::empty()),
        }
    }
}

impl Card {
    /// A card of the given identity, facing upright.
    pub fn new(arcana: Arcana) -> (card: Card)
        ensures
            card.arcana == arcana,
            card.orientation == Orientation::Upright,
    {
        Card { arcana, orientation: Orientation::Upright }
    }

    /// Turns the card over: upright becomes reversed and reversed upright.
    pub fn reverse(&mut self)
        ensures
            final(self).arcana == old(self).arcana,
            final(self).orientation == old(self).orientation.flipped(),
            final(self)@ == old(self)@.reversed(),
    {
        self.orientation = match self.orientation {
            Orientation::Upright => Orientation::Reverse,
            Orientation::Reverse => Orientation::Upright,
        }
    }

    /// The card's text, with `numeral` written for the order of a major card
    /// (a minor card has no numeral, and `numeral` is not used).
    pub fn render_with(&self, numeral: &str) -> (s: String)
        ensures
            s@ == self@.text_with(numeral@),
    {
        let mut out = match self.orientation {
            Orientation::Upright => String::new(),
            Orientation::Reverse => String::from_str("Reversed "),
        };
        match &self.arcana {
            Arcana::Major { order, name } => {
                out.append(numeral);
                out.append(" - ");
                out.append(name.as_str());
            },
            Arcana::Minor { rank, suit } => {
                out.append(rank.name());
                out.append(" of ");
                out.append(suit.name());
            },
        }
        out
    }

    /// The numeral written on a major card of the given order.
    pub fn numeral(order: u32) -> (s: String)
        requires
            order <= MAX_ORDER,
        ensures
            s@ == numeral_text(order as nat),
    {
        if order == 0 {
            String::from_str("0")
        } else {
            match to_roman(order as i32) {
                Some(text) => text,
                None => String::new(),
            }
        }
    }

    /// The card's text: "XIII - Death", "Reversed Ace of Cups".
    pub fn render(&self) -> (s: String)
        requires
            self@.well_formed(),
        ensures
            s@ == self@.text(),
    {
        match &self.arcana {
            Arcana::Major { order, name } => {
                let numeral = Card::numeral(*order);
                self.render_with(numeral.as_str())
            },
            Arcana::Minor { rank, suit } => {
                proof {
                    assert(""@ =~= Seq::<char>::empty()) by {
                        reveal_strlit("");
                    }
                }
                self.render_with("")
            },
        }
    }
}

impl PartialEq for Arcana {
    /// Two arcana are equal when they are the same card identity.
    fn eq(&self, other: &Arcana) -> (r: bool) {
        match self {
            Arcana::Major { order, name } => match other {
                Arcana::Major { order: other_order, name: other_name } => {
                    *order == *other_order && *name == *other_name
                },
                Arcana::Minor { .. } => false,
            },
            Arcana::Minor { rank, suit } => match other {
                Arcana::Major { .. } => false,
                Arcana::Minor { rank: other_rank, suit: other_suit } => {
                    *rank == *other_rank && *suit == *other_suit
                },
            },
        }
    }
}

impl PartialEqSpecImpl for Arcana {
    open spec fn obeys_eq_spec() -> bool {
        true
    }

    open spec fn eq_spec(&self, other: &Arcana) -> bool {
        self@ == other@
    }
}

impl Eq for Arcana {

}

impl PartialEq for Card {
    /// Cards are compared by identity alone: the orientation is not part of it.
    fn eq(&self, other: &Card) -> (r: bool) {
        self.arcana == other.arcana
    }
}

impl PartialEqSpecImpl for Card {
    open spec fn obeys_eq_spec() -> bool {
        true
    }

    open spec fn eq_spec(&self, other: &Card) -> bool {
        self@.arcana == other@.arcana
    }
}

impl Eq for Card {

}

} // verus!
