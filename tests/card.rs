use std::collections::HashSet;

use solitaire::card::{Card, Color, Deck, FrenchSuit, Rank};
use solitaire::pile::{from_slice, take_n_slice, take_n_vec_mut, take_one_slice, take_one_vec_mut};

#[test]
fn test_take_n() {
    let d: Deck = Card::new_deck();
    {
        let (rest, cs) = take_n_slice(&d, 10);
        assert_eq!(rest, &d[..42]);
        assert_eq!(cs, &d[42..52]);
    }

    {
        let mut d_vec = from_slice(&d);
        let cs = take_n_vec_mut(&mut d_vec, 10);
        assert_eq!(d_vec, d[..42]);
        assert_eq!(cs, d[42..52]);
    }
}

#[test]
fn test_take_one() {
    let d: Deck = Card::new_deck();
    {
        let (rest, c) = take_one_slice(&d);
        assert_eq!(rest, &d[..51]);
        assert_eq!(c, &d[51]);
    }

    {
        let mut d_vec: Vec<Card> = from_slice(&d);
        let c = take_one_vec_mut(&mut d_vec);
        assert_eq!(d_vec, d[..51]);
        assert_eq!(c, d[51]);
    }
}

#[test]
fn card_test_new_deck() {
    let d: Deck = Card::new_deck();
    assert_eq!(d.len(), 52);

    let distinct_cards = d.iter().map(|c| (c.suit, c.rank)).collect::<HashSet<_>>();
    assert_eq!(distinct_cards.len(), 52);
}

#[test]
fn card_test_ordering() {
    let c1 = Card {
        suit: FrenchSuit::Clubs,
        rank: Rank::Ace,
        face_up: false,
    };
    let c2 = Card {
        suit: FrenchSuit::Clubs,
        rank: Rank::King,
        face_up: false,
    };
    assert!(c1 > c2);
    assert!(c2 < c1);
}

#[test]
fn new_deck_is_suit_major_king_first() {
    let d = Card::new_deck();
    assert_eq!(d[0].suit, FrenchSuit::Clubs);
    assert_eq!(d[0].rank, Rank::King);
    assert_eq!(d[12].rank, Rank::Ace);
    assert_eq!(d[13].suit, FrenchSuit::Spades);
    assert_eq!(d[13].rank, Rank::King);
    assert_eq!(d[51].suit, FrenchSuit::Diamonds);
    assert_eq!(d[51].rank, Rank::Ace);
    assert!(d.iter().all(|c| !c.face_up));
}

#[test]
fn cards_equal_by_suit_and_rank_only() {
    let up = Card { suit: FrenchSuit::Hearts, rank: Rank::Five, face_up: true };
    let down = Card { suit: FrenchSuit::Hearts, rank: Rank::Five, face_up: false };
    let other = Card { suit: FrenchSuit::Diamonds, rank: Rank::Five, face_up: true };
    assert_eq!(up, down);
    assert_ne!(up, other);
    assert!(!(up < other) && !(up > other));
}

#[test]
fn suit_colours_and_rank_steps() {
    assert_eq!(FrenchSuit::Clubs.color(), Color::Black);
    assert_eq!(FrenchSuit::Spades.color(), Color::Black);
    assert_eq!(FrenchSuit::Hearts.color(), Color::Red);
    assert_eq!(FrenchSuit::Diamonds.color(), Color::Red);
    assert_eq!(Color::Red.opposite(), Color::Black);
    assert_eq!(Rank::King.next(), Some(Rank::Queen));
    assert_eq!(Rank::Two.next(), Some(Rank::Ace));
    assert_eq!(Rank::Ace.next(), None);
    assert_eq!(Rank::Ace.prev(), Some(Rank::Two));
    assert_eq!(Rank::Queen.prev(), Some(Rank::King));
    assert_eq!(Rank::King.prev(), None);
    assert_eq!(Card::from_index(14).rank, Rank::Queen);
    assert_eq!(Card::from_index(14).suit, FrenchSuit::Spades);
}

#[test]
fn shuffle_keeps_the_cards() {
    let mut d = Card::new_deck();
    assert!(solitaire::card::shuffle(&mut d));
    let distinct = d.iter().map(|c| (c.suit, c.rank)).collect::<HashSet<_>>();
    assert_eq!(distinct.len(), 52);
}
