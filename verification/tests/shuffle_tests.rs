use tarotrs::card::{Arcana, Card, Orientation};
use tarotrs::deck::Deck;
use tarotrs::shuffle::{OverhandShuffler, RandomShuffler, RiffleShuffler, Shuffle, StripShuffler};

fn major(order: u32, name: &str) -> Card {
    Card::new(Arcana::Major { order, name: String::from(name) })
}

/// A deck of major cards with the given names, the first name on top.
fn lettered(names: &[&str]) -> Deck {
    let mut cards = Vec::new();
    for (i, name) in names.iter().enumerate() {
        cards.push(major(i as u32, name));
    }
    Deck::from_cards(cards)
}

fn names_from_top(deck: &Deck) -> Vec<String> {
    let mut names = Vec::new();
    for i in 0..deck.len() {
        match &deck.get(i).unwrap().arcana {
            Arcana::Major { name, .. } => names.push(name.clone()),
            Arcana::Minor { rank, suit } => names.push(format!("{} of {}", rank.name(), suit.name())),
        }
    }
    names
}

fn sorted(mut names: Vec<String>) -> Vec<String> {
    names.sort();
    names
}

fn orientations_from_top(deck: &Deck) -> Vec<Orientation> {
    let mut all = Vec::new();
    for i in 0..deck.len() {
        all.push(deck.get(i).unwrap().orientation);
    }
    all
}

#[test]
fn shuffle_random_shuffle() {
    let mut deck = Deck::new();
    let size = deck.len();
    RandomShuffler::shuffle(&mut deck);
    assert_eq!(deck.len(), size);
}

#[test]
fn shuffle_riffle_shuffle() {
    let mut deck = Deck::new();
    let size = deck.len();
    RiffleShuffler::shuffle(&mut deck);
    assert_eq!(deck.len(), size);
}

#[test]
fn shuffle_strip_shuffle() {
    let mut deck = Deck::new();
    let size = deck.len();
    StripShuffler::shuffle(&mut deck);
    assert_eq!(deck.len(), size);
}

#[test]
fn shuffle_overhand_shuffle() {
    let mut deck = Deck::new();
    let size = deck.len();
    OverhandShuffler::shuffle(&mut deck);
    assert_eq!(deck.len(), size);
}

#[test]
fn every_shuffle_keeps_the_identities() {
    let canonical = sorted(names_from_top(&Deck::new()));
    for _ in 0..20 {
        let mut deck = Deck::new();
        deck.random_shuffle();
        assert_eq!(sorted(names_from_top(&deck)), canonical);
        deck.overhand_shuffle();
        assert_eq!(sorted(names_from_top(&deck)), canonical);
        deck.strip_shuffle();
        assert_eq!(sorted(names_from_top(&deck)), canonical);
        deck.riffle_shuffle();
        assert_eq!(sorted(names_from_top(&deck)), canonical);
        assert_eq!(deck.len(), 78);
    }
}

#[test]
fn shuffles_leave_empty_deck_alone() {
    let mut deck = Deck::from_cards(Vec::new());
    deck.random_shuffle();
    deck.overhand_shuffle();
    deck.strip_shuffle();
    deck.riffle_shuffle();
    RandomShuffler::shuffle(&mut deck);
    OverhandShuffler::shuffle(&mut deck);
    StripShuffler::shuffle(&mut deck);
    RiffleShuffler::shuffle(&mut deck);
    assert_eq!(deck.len(), 0);
}

#[test]
fn shuffles_of_a_single_card() {
    let mut deck = lettered(&["a"]);
    deck.strip_shuffle();
    assert_eq!(names_from_top(&deck), vec!["a"]);
    assert_eq!(orientations_from_top(&deck), vec![Orientation::Upright]);
    deck.overhand_shuffle();
    assert_eq!(names_from_top(&deck), vec!["a"]);
    assert_eq!(orientations_from_top(&deck), vec![Orientation::Upright]);
    deck.riffle_shuffle();
    assert_eq!(names_from_top(&deck), vec!["a"]);
    deck.random_shuffle();
    assert_eq!(names_from_top(&deck), vec!["a"]);
}

#[test]
fn overhand_cut_of_one_rotates_by_two() {
    // a is the bottom card, e the top card
    let mut deck = lettered(&["e", "d", "c", "b", "a"]);
    deck.overhand_cut(1);
    // by hand: e goes under a, then d goes under e
    let mut by_hand = lettered(&["e", "d", "c", "b", "a"]);
    for _ in 0..2 {
        let card = by_hand.draw().unwrap();
        by_hand.put(card);
    }
    assert_eq!(names_from_top(&deck), vec!["c", "b", "a", "e", "d"]);
    assert_eq!(names_from_top(&deck), names_from_top(&by_hand));
    assert!(orientations_from_top(&deck).iter().all(|o| *o == Orientation::Upright));
}

#[test]
fn overhand_cut_extremes() {
    let mut deck = lettered(&["a", "b", "c"]);
    deck.overhand_cut(0);
    assert_eq!(names_from_top(&deck), vec!["b", "c", "a"]);
    deck.overhand_cut(2);
    assert_eq!(names_from_top(&deck), vec!["b", "c", "a"]);
}

#[test]
fn overhand_shuffle_is_a_rotation() {
    for _ in 0..30 {
        let mut deck = lettered(&["a", "b", "c", "d", "e"]);
        deck.overhand_shuffle();
        let names = names_from_top(&deck);
        let start = names.iter().position(|n| n == "a").unwrap();
        for (i, name) in ["a", "b", "c", "d", "e"].iter().enumerate() {
            assert_eq!(names[(start + i) % 5], *name);
        }
        assert!(orientations_from_top(&deck).iter().all(|o| *o == Orientation::Upright));
    }
}

#[test]
fn strip_cut_reinserts_the_packet_in_order() {
    let mut deck = lettered(&["a", "b", "c", "d", "e", "f"]);
    deck.strip_cut(2, 1);
    assert_eq!(names_from_top(&deck), vec!["a", "e", "f", "b", "c", "d"]);

    let mut deck = lettered(&["a", "b", "c", "d", "e", "f"]);
    deck.strip_cut(2, 0);
    assert_eq!(names_from_top(&deck), vec!["e", "f", "a", "b", "c", "d"]);

    let mut deck = lettered(&["a", "b", "c", "d", "e", "f"]);
    deck.strip_cut(2, 4);
    assert_eq!(names_from_top(&deck), vec!["a", "b", "c", "d", "e", "f"]);

    let mut deck = lettered(&["a", "b", "c", "d", "e", "f"]);
    deck.strip_cut(0, 3);
    assert_eq!(names_from_top(&deck), vec!["a", "b", "c", "d", "e", "f"]);
    assert!(orientations_from_top(&deck).iter().all(|o| *o == Orientation::Upright));
}

#[test]
fn strip_shuffle_moves_a_tail_packet() {
    for _ in 0..50 {
        let mut deck = lettered(&["a", "b", "c", "d", "e", "f", "g"]);
        deck.strip_shuffle();
        let names = names_from_top(&deck);
        assert_eq!(sorted(names.clone()), vec!["a", "b", "c", "d", "e", "f", "g"]);
        // the four cards that no cut can reach keep their order
        let kept: Vec<&String> =
            names.iter().filter(|n| ["a", "b", "c", "d"].contains(&n.as_str())).collect();
        assert_eq!(kept, vec!["a", "b", "c", "d"]);
    }
}

#[test]
fn riffle_of_eight_cut_at_three() {
    let all = ["a", "b", "c", "d", "e", "f", "g", "h"];

    let mut deck = lettered(&all);
    deck.riffle_cut(3, false, false, true);
    assert_eq!(deck.len(), 8);
    assert_eq!(names_from_top(&deck), vec!["a", "d", "b", "e", "c", "f", "g", "h"]);
    assert_eq!(sorted(names_from_top(&deck)), all);

    let mut deck = lettered(&all);
    deck.riffle_cut(3, false, false, false);
    assert_eq!(deck.len(), 8);
    assert_eq!(names_from_top(&deck), vec!["d", "a", "e", "b", "f", "c", "g", "h"]);
    assert_eq!(sorted(names_from_top(&deck)), all);
}

#[test]
fn riffle_turns_whole_packets() {
    let up = Orientation::Upright;
    let down = Orientation::Reverse;

    let mut deck = lettered(&["a", "b", "c", "d", "e"]);
    deck.riffle_cut(2, true, false, true);
    assert_eq!(names_from_top(&deck), vec!["a", "c", "b", "d", "e"]);
    assert_eq!(orientations_from_top(&deck), vec![down, up, down, up, up]);

    let mut deck = lettered(&["a", "b", "c", "d", "e"]);
    deck.riffle_cut(2, false, true, false);
    assert_eq!(names_from_top(&deck), vec!["c", "a", "d", "b", "e"]);
    assert_eq!(orientations_from_top(&deck), vec![down, up, down, up, down]);

    let mut deck = lettered(&["a", "b", "c", "d", "e"]);
    deck.riffle_cut(4, true, true, true);
    assert_eq!(names_from_top(&deck), vec!["a", "e", "b", "c", "d"]);
    assert_eq!(orientations_from_top(&deck), vec![down, down, down, down, down]);
}

#[test]
fn riffle_cut_extremes() {
    let mut deck = lettered(&["a", "b", "c"]);
    deck.riffle_cut(0, true, false, true);
    assert_eq!(names_from_top(&deck), vec!["a", "b", "c"]);
    assert!(orientations_from_top(&deck).iter().all(|o| *o == Orientation::Upright));
    deck.riffle_cut(3, false, false, false);
    assert_eq!(names_from_top(&deck), vec!["a", "b", "c"]);
}

#[test]
fn random_shuffle_varies_the_top_card() {
    let trials = 200;
    let mut first: Option<String> = None;
    let mut same = 0;
    let mut reversed = 0;
    for _ in 0..trials {
        let mut deck = Deck::new();
        deck.random_shuffle();
        let top = names_from_top(&deck)[0].clone();
        if deck.peek().unwrap().orientation == Orientation::Reverse {
            reversed += 1;
        }
        match &first {
            None => first = Some(top),
            Some(name) => {
                if *name == top {
                    same += 1;
                }
            }
        }
    }
    assert!(same * 100 < (trials - 1) * 99);
    assert!(reversed > 0 && reversed < trials);
}

#[test]
fn overhand_shuffle_varies_the_cut() {
    let mut seen: Vec<Vec<String>> = Vec::new();
    for _ in 0..200 {
        let mut deck = lettered(&["a", "b", "c", "d", "e"]);
        deck.overhand_shuffle();
        let names = names_from_top(&deck);
        if !seen.contains(&names) {
            seen.push(names);
        }
    }
    assert!(seen.len() > 1);
    assert!(seen.len() <= 5);
}

#[test]
fn strip_shuffle_varies_the_packet_and_its_place() {
    let mut seen: Vec<Vec<String>> = Vec::new();
    for _ in 0..300 {
        let mut deck = lettered(&["a", "b", "c", "d", "e", "f"]);
        deck.strip_shuffle();
        let names = names_from_top(&deck);
        if !seen.contains(&names) {
            seen.push(names);
        }
    }
    // cuts 0, 1 and 2 with every insertion point give 10 different orders
    assert!(seen.len() > 1);
    assert!(seen.len() <= 10);
}

#[test]
fn riffle_shuffle_varies_the_cut() {
    let mut seen: Vec<Vec<String>> = Vec::new();
    for _ in 0..200 {
        let mut deck = lettered(&["a", "b", "c", "d", "e"]);
        deck.riffle_shuffle();
        let names = names_from_top(&deck);
        assert_eq!(sorted(names.clone()), vec!["a", "b", "c", "d", "e"]);
        if !seen.contains(&names) {
            seen.push(names);
        }
    }
    assert!(seen.len() > 1);
}
