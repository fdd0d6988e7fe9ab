use black_jack_rust::card::{slot_labels_of, Card, Rank, Suit};
use black_jack_rust::deck::{new_deck, remove_card};

fn all_ranks() -> Vec<Rank> {
    (1..=13u8).map(Rank::with_number).collect()
}

#[test]
fn face_cards_count_ten_and_ace_counts_one() {
    assert_eq!(Rank::Jack.points(), 10);
    assert_eq!(Rank::Queen.points(), 10);
    assert_eq!(Rank::King.points(), 10);
    assert_eq!(Rank::Ace.points(), 1);
    for n in 2..=10u8 {
        assert_eq!(Rank::with_number(n).points(), n as u32);
    }
}

#[test]
fn rank_numbers_round_trip() {
    for n in 1..=13u8 {
        assert_eq!(Rank::with_number(n).number(), n);
    }
    assert_eq!(Rank::with_number(11), Rank::Jack);
    assert_eq!(Rank::with_number(1), Rank::Ace);
}

#[test]
fn labels_are_the_stored_names() {
    assert_eq!(Suit::Spade.label(), "Spade");
    assert_eq!(Suit::Heart.label(), "Heart");
    assert_eq!(Suit::Diamond.label(), "Diamond");
    assert_eq!(Suit::Club.label(), "Club");
    assert_eq!(Rank::Ace.label(), "Ace");
    assert_eq!(Rank::Seven.label(), "7");
    assert_eq!(Rank::Ten.label(), "10");
    assert_eq!(Rank::Jack.label(), "Jack");
    assert_eq!(Rank::Queen.label(), "Queen");
    assert_eq!(Rank::King.label(), "King");
}

#[test]
fn every_card_reads_back_from_its_labels() {
    for suit in Suit::all() {
        for rank in all_ranks() {
            let card = Card { suit, rank };
            let (s, n) = card.labels();
            assert_eq!(Card::from_labels(&s, &n), Some(card));
        }
    }
}

#[test]
fn unknown_labels_are_refused() {
    assert_eq!(Card::from_labels("None", "None"), None);
    assert_eq!(Card::from_labels("Spade", "1"), None);
    assert_eq!(Card::from_labels("Spade", "11"), None);
    assert_eq!(Card::from_labels("spade", "Ace"), None);
    assert_eq!(Card::from_labels("Heart", "ace"), None);
    assert_eq!(Card::from_labels("", ""), None);
    assert_eq!(Suit::from_label("Club"), Some(Suit::Club));
    assert_eq!(Rank::from_label("10"), Some(Rank::Ten));
    assert_eq!(Rank::from_label("0"), None);
}

#[test]
fn empty_slot_shows_none_twice() {
    let (s, n) = slot_labels_of(&None);
    assert_eq!((s.as_str(), n.as_str()), ("None", "None"));
    let (s, n) = slot_labels_of(&Some(Card { suit: Suit::Diamond, rank: Rank::Queen }));
    assert_eq!((s.as_str(), n.as_str()), ("Diamond", "Queen"));
}

#[test]
fn suits_come_in_deck_order() {
    assert_eq!(Suit::all(), vec![Suit::Spade, Suit::Heart, Suit::Diamond, Suit::Club]);
}

#[test]
fn fresh_deck_has_every_card_once_in_order() {
    let deck = new_deck();
    assert_eq!(deck.len(), 52);
    assert_eq!(deck[0], Card { suit: Suit::Spade, rank: Rank::Ace });
    assert_eq!(deck[12], Card { suit: Suit::Spade, rank: Rank::King });
    assert_eq!(deck[13], Card { suit: Suit::Heart, rank: Rank::Ace });
    assert_eq!(deck[51], Card { suit: Suit::Club, rank: Rank::King });
    for i in 0..52 {
        for j in 0..52 {
            if i != j {
                assert_ne!(deck[i], deck[j]);
            }
        }
    }
    let total: u32 = deck.iter().map(|c| c.points()).sum();
    assert_eq!(total, 340);
}

#[test]
fn removing_a_card_takes_every_copy_and_keeps_the_order() {
    let a = Card { suit: Suit::Spade, rank: Rank::Ace };
    let b = Card { suit: Suit::Heart, rank: Rank::Two };
    let c = Card { suit: Suit::Club, rank: Rank::King };
    let mut deck = vec![a, b, a, c, a];
    remove_card(&mut deck, a);
    assert_eq!(deck, vec![b, c]);
    remove_card(&mut deck, a);
    assert_eq!(deck, vec![b, c]);
    remove_card(&mut deck, c);
    assert_eq!(deck, vec![b]);
}

#[test]
fn removing_from_a_fresh_deck_takes_one_card() {
    let mut deck = new_deck();
    let card = Card { suit: Suit::Diamond, rank: Rank::Seven };
    remove_card(&mut deck, card);
    assert_eq!(deck.len(), 51);
    assert!(!deck.contains(&card));
    let total: u32 = deck.iter().map(|c| c.points()).sum();
    assert_eq!(total, 333);
}
