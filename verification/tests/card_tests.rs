use tarotrs::card::{Arcana, Card, Orientation, Rank, Suit};

#[test]
fn reverse_card() {
    let mut card = Card {
        arcana: Arcana::Major { order: 0, name: String::from("a") },
        orientation: Orientation::Upright,
    };

    assert_eq!(card.orientation, Orientation::Upright);

    card.reverse();
}

#[test]
fn reverse_toggles_orientation() {
    let mut card = Card::new(Arcana::minor(Rank::Two, Suit::Cups));
    assert_eq!(card.orientation, Orientation::Upright);
    card.reverse();
    assert_eq!(card.orientation, Orientation::Reverse);
    assert!(matches!(card.arcana, Arcana::Minor { rank: Rank::Two, suit: Suit::Cups }));
    card.reverse();
    assert_eq!(card.orientation, Orientation::Upright);
}

#[test]
fn cards_are_equal_by_identity() {
    let mut turned = Card::new(Arcana::major(13));
    turned.reverse();
    assert_eq!(turned, Card::new(Arcana::major(13)));
    assert_ne!(Card::new(Arcana::major(13)), Card::new(Arcana::major(12)));
    assert_ne!(
        Card::new(Arcana::Major { order: 13, name: String::from("Death") }),
        Card::new(Arcana::Major { order: 13, name: String::from("Life") })
    );
    assert_ne!(
        Card::new(Arcana::minor(Rank::Ace, Suit::Cups)),
        Card::new(Arcana::minor(Rank::Ace, Suit::Wands))
    );
    assert_ne!(
        Card::new(Arcana::minor(Rank::Ace, Suit::Cups)),
        Card::new(Arcana::minor(Rank::Two, Suit::Cups))
    );
    assert_ne!(Card::new(Arcana::minor(Rank::Ace, Suit::Cups)), Card::new(Arcana::major(1)));
    assert_eq!(
        Card::new(Arcana::minor(Rank::Ace, Suit::Cups)),
        Card::new(Arcana::minor(Rank::Ace, Suit::Cups))
    );
}

#[test]
fn major_cards_have_their_names() {
    assert_eq!(Arcana::name_of_major(0), "The Fool");
    assert_eq!(Arcana::name_of_major(1), "The Magician");
    assert_eq!(Arcana::name_of_major(10), "The Wheel of Fortune");
    assert_eq!(Arcana::name_of_major(14), "Temperance");
    assert_eq!(Arcana::name_of_major(21), "The World");
    assert_eq!(Arcana::major(8), Arcana::Major { order: 8, name: String::from("Strength") });
}

#[test]
fn render_major_cards() {
    assert_eq!(Card::new(Arcana::major(13)).render(), "XIII - Death");
    assert_eq!(Card::new(Arcana::major(0)).render(), "0 - The Fool");
    assert_eq!(Card::new(Arcana::major(1)).render(), "I - The Magician");
    assert_eq!(Card::new(Arcana::major(4)).render(), "IV - The Emperor");
    assert_eq!(Card::new(Arcana::major(9)).render(), "IX - The Hermit");
    assert_eq!(Card::new(Arcana::major(21)).render(), "XXI - The World");
    let mut card = Card::new(Arcana::major(19));
    card.reverse();
    assert_eq!(card.render(), "Reversed XIX - The Sun");
}

#[test]
fn render_minor_cards() {
    assert_eq!(Card::new(Arcana::minor(Rank::Ace, Suit::Cups)).render(), "Ace of Cups");
    assert_eq!(Card::new(Arcana::minor(Rank::Knight, Suit::Swords)).render(), "Knight of Swords");
    let mut card = Card::new(Arcana::minor(Rank::Page, Suit::Pentacles));
    card.reverse();
    assert_eq!(card.render(), "Reversed Page of Pentacles");
}

#[test]
fn render_with_a_given_numeral() {
    let card = Card::new(Arcana::Major { order: 2, name: String::from("b") });
    assert_eq!(card.render_with("II"), "II - b");
    let mut card = Card::new(Arcana::minor(Rank::Ten, Suit::Wands));
    assert_eq!(card.render_with("II"), "Ten of Wands");
    card.reverse();
    assert_eq!(card.render_with(""), "Reversed Ten of Wands");
}

#[test]
fn numerals_of_all_orders() {
    let expected = [
        "0", "I", "II", "III", "IV", "V", "VI", "VII", "VIII", "IX", "X", "XI", "XII", "XIII",
        "XIV", "XV", "XVI", "XVII", "XVIII", "XIX", "XX", "XXI",
    ];
    for (order, numeral) in expected.iter().enumerate() {
        assert_eq!(Card::numeral(order as u32), *numeral);
    }
}

#[test]
fn ranks_by_ordinal() {
    assert_eq!(Rank::count(), 14);
    assert_eq!(Rank::from_repr(0), None);
    assert_eq!(Rank::from_repr(1), Some(Rank::Ace));
    assert_eq!(Rank::from_repr(11), Some(Rank::Page));
    assert_eq!(Rank::from_repr(12), Some(Rank::Knight));
    assert_eq!(Rank::from_repr(14), Some(Rank::King));
    assert_eq!(Rank::from_repr(15), None);
    for n in 1..=14 {
        assert_eq!(Rank::from_repr(n).unwrap().repr(), n);
    }
    assert_eq!(Rank::Queen.name(), "Queen");
    assert_eq!(Rank::Ace.name(), "Ace");
}

#[test]
fn suits_by_ordinal() {
    assert_eq!(Suit::count(), 4);
    assert_eq!(Suit::from_repr(0), Some(Suit::Wands));
    assert_eq!(Suit::from_repr(1), Some(Suit::Cups));
    assert_eq!(Suit::from_repr(2), Some(Suit::Swords));
    assert_eq!(Suit::from_repr(3), Some(Suit::Pentacles));
    assert_eq!(Suit::from_repr(4), None);
    for n in 0..4 {
        assert_eq!(Suit::from_repr(n).unwrap().repr(), n);
    }
    assert_eq!(Suit::Pentacles.name(), "Pentacles");
}
