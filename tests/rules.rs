use rand::SeedableRng;
use solitaire::card::{shuffle_with_rng, Card, FrenchSuit, Rank};
use solitaire::game_state::{
    DealResult, Error, InitialGameState, MoveResult, PileRef, PlayingGameState,
};
use solitaire::klondike::GameRules;

fn c(rank: Rank, suit: FrenchSuit, face_up: bool) -> Card {
    Card { suit, rank, face_up }
}

fn empty_game() -> PlayingGameState {
    PlayingGameState {
        tableau: std::array::from_fn(|_| Vec::new()),
        foundations: std::array::from_fn(|_| Vec::new()),
        stock: Vec::new(),
        talon: Vec::new(),
    }
}

fn shuffled_deck(seed: u64) -> [Card; 52] {
    let mut d = Card::new_deck();
    let mut rng = rand::rngs::SmallRng::seed_from_u64(seed);
    shuffle_with_rng(&mut d, &mut rng);
    d
}

fn faces(p: &[Card]) -> Vec<(FrenchSuit, Rank, bool)> {
    p.iter().map(|c| (c.suit, c.rank, c.face_up)).collect()
}

#[test]
fn deal_one_until_complete_matches_deal_all() {
    for seed in [1u64, 7, 42] {
        let deck = shuffled_deck(seed);
        let mut g = InitialGameState::from(deck);
        let stepped = loop {
            match GameRules::deal_one(g) {
                DealResult::Dealing(s) => g = s,
                DealResult::Complete(s) => break s,
            }
        };
        let all = GameRules::deal_all(InitialGameState::from(deck));
        for i in 0..7 {
            assert_eq!(faces(&stepped.tableau[i]), faces(&all.tableau[i]));
        }
        assert_eq!(faces(&stepped.stock), faces(&all.stock));
    }
}

#[test]
fn full_deal_shape() {
    let g = GameRules::deal_all(InitialGameState::from(shuffled_deck(3)));
    let mut total = g.stock.len();
    for (i, pile) in g.tableau.iter().enumerate() {
        assert_eq!(pile.len(), i + 1);
        for (j, card) in pile.iter().enumerate() {
            assert_eq!(card.face_up, j == i);
        }
        total += pile.len();
    }
    assert_eq!(total, 52);
    assert_eq!(g.stock.len(), 24);
    assert!(g.talon.is_empty());
    assert!(g.foundations.iter().all(|f| f.is_empty()));
}

#[test]
fn new_and_deal_with_rng_is_shuffled() {
    let mut rng = rand::rngs::SmallRng::seed_from_u64(11);
    let g = GameRules::new_and_deal_with_rng(&mut rng);
    assert_eq!(g.stock.len(), 24);
    let unshuffled = GameRules::deal_all(InitialGameState::from(Card::new_deck()));
    assert_ne!(faces(&g.stock), faces(&unshuffled.stock));
}

#[test]
fn shuffle_with_rng_changes_the_order() {
    let d = shuffled_deck(5);
    let fresh = Card::new_deck();
    assert_ne!(faces(&d), faces(&fresh));
    let mut seen: Vec<(FrenchSuit, Rank)> = d.iter().map(|c| (c.suit, c.rank)).collect();
    seen.sort_by_key(|(s, r)| (*s as u8, *r as u8));
    seen.dedup();
    assert_eq!(seen.len(), 52);
}

#[test]
fn draw_until_empty_then_recycle() {
    let stock = vec![
        c(Rank::King, FrenchSuit::Clubs, false),
        c(Rank::Five, FrenchSuit::Hearts, false),
        c(Rank::Ace, FrenchSuit::Spades, false),
        c(Rank::Nine, FrenchSuit::Diamonds, false),
    ];
    let mut g = empty_game();
    g.stock = stock.clone();
    for _ in 0..stock.len() {
        g = GameRules::draw_stock(g, 1).unwrap();
    }
    assert!(g.stock.is_empty());
    let reversed: Vec<Card> = g.talon.iter().rev().cloned().collect();
    assert_eq!(reversed, stock);
    assert!(g.talon.iter().all(|c| c.face_up));
    g = GameRules::draw_stock(g, 1).unwrap();
    assert!(g.talon.is_empty());
    assert_eq!(faces(&g.stock), faces(&stock));
}

#[test]
fn draw_more_than_stock_takes_what_is_there() {
    let mut g = empty_game();
    g.stock = vec![c(Rank::Two, FrenchSuit::Clubs, false), c(Rank::Three, FrenchSuit::Clubs, false)];
    g.talon = vec![c(Rank::Four, FrenchSuit::Hearts, true)];
    let g = GameRules::draw_stock(g, 3).unwrap();
    assert!(g.stock.is_empty());
    assert_eq!(
        faces(&g.talon),
        vec![
            (FrenchSuit::Hearts, Rank::Four, true),
            (FrenchSuit::Clubs, Rank::Two, true),
            (FrenchSuit::Clubs, Rank::Three, true)
        ]
    );
}

#[test]
fn taking_zero_fails_and_self_moves_do_nothing() {
    let g = GameRules::deal_all(InitialGameState::from(shuffled_deck(9)));
    for (src, dst) in [(PileRef::Tableau(0), PileRef::Tableau(3)), (PileRef::Talon, PileRef::Foundation(1))] {
        assert_eq!(
            GameRules::move_cards(g.clone(), src, 0, dst),
            Err(Error::InvalidInput { field: "take_n", reason: "cannot take 0 cards" })
        );
    }
    for n in 1..4 {
        match GameRules::move_cards(g.clone(), PileRef::Tableau(4), n, PileRef::Tableau(4)) {
            Ok(MoveResult::Playing(s)) => assert_eq!(s, g),
            _ => panic!(),
        }
    }
    assert_eq!(
        GameRules::move_cards(g.clone(), PileRef::Foundation(2), 1, PileRef::Foundation(2)),
        Ok(MoveResult::Playing(g.clone()))
    );
}

#[test]
fn only_kings_fill_spaces_only_aces_start_foundations() {
    let mut g = empty_game();
    g.tableau[0] = vec![c(Rank::King, FrenchSuit::Hearts, true)];
    g.tableau[1] = vec![c(Rank::Queen, FrenchSuit::Hearts, true)];
    g.tableau[2] = vec![c(Rank::Ace, FrenchSuit::Clubs, true)];
    g.tableau[3] = vec![c(Rank::Two, FrenchSuit::Clubs, true)];
    assert!(GameRules::move_cards(g.clone(), PileRef::Tableau(0), 1, PileRef::Tableau(6)).is_ok());
    assert_eq!(
        GameRules::move_cards(g.clone(), PileRef::Tableau(1), 1, PileRef::Tableau(6)),
        Err(Error::InvalidMove { reason: "can only move a King to a space" })
    );
    assert!(GameRules::move_cards(g.clone(), PileRef::Tableau(2), 1, PileRef::Foundation(3)).is_ok());
    assert_eq!(
        GameRules::move_cards(g.clone(), PileRef::Tableau(3), 1, PileRef::Foundation(3)),
        Err(Error::InvalidMove { reason: "dst sequence is invalid" })
    );
}

#[test]
fn face_down_runs_are_never_valid() {
    let run = vec![c(Rank::Five, FrenchSuit::Clubs, false), c(Rank::Four, FrenchSuit::Hearts, true)];
    for p in [PileRef::Tableau(0), PileRef::Foundation(0), PileRef::Stock, PileRef::Talon] {
        assert!(!GameRules::valid_seq(p, &run));
    }
    let single = vec![c(Rank::Five, FrenchSuit::Clubs, true)];
    assert!(GameRules::valid_seq(PileRef::Talon, &single));
    assert!(!GameRules::valid_seq(PileRef::Stock, &single));
}

#[test]
fn talon_ace_onto_two_of_spades() {
    let mut g = empty_game();
    g.stock = vec![c(Rank::King, FrenchSuit::Clubs, false), c(Rank::Ace, FrenchSuit::Hearts, false)];
    g.tableau[0] = vec![c(Rank::Two, FrenchSuit::Spades, true)];
    g = GameRules::draw_stock(g, 1).unwrap();
    assert_eq!(g.stock, vec![c(Rank::King, FrenchSuit::Clubs, false)]);
    assert_eq!(g.talon, vec![c(Rank::Ace, FrenchSuit::Hearts, true)]);
    let g = match GameRules::move_cards(g, PileRef::Talon, 1, PileRef::Tableau(0)) {
        Ok(MoveResult::Playing(s)) => s,
        _ => panic!(),
    };
    assert_eq!(
        g.tableau[0],
        vec![c(Rank::Two, FrenchSuit::Spades, true), c(Rank::Ace, FrenchSuit::Hearts, true)]
    );
    assert!(g.talon.is_empty());
}

#[test]
fn moving_uncovers_the_next_card() {
    let mut g = empty_game();
    g.tableau[0] = vec![c(Rank::Nine, FrenchSuit::Clubs, false), c(Rank::King, FrenchSuit::Hearts, true)];
    let g = match GameRules::move_cards(g, PileRef::Tableau(0), 1, PileRef::Tableau(1)) {
        Ok(MoveResult::Playing(s)) => s,
        _ => panic!(),
    };
    assert!(g.tableau[0][0].face_up);
    assert_eq!(g.tableau[1], vec![c(Rank::King, FrenchSuit::Hearts, true)]);
}

#[test]
fn missing_piles_are_reported() {
    let mut g = empty_game();
    g.tableau[0] = vec![c(Rank::King, FrenchSuit::Hearts, true)];
    assert_eq!(
        GameRules::move_cards(g.clone(), PileRef::Tableau(9), 1, PileRef::Tableau(0)),
        Err(Error::InvalidInput { field: "src", reason: "pile does not exist" })
    );
    assert_eq!(
        GameRules::move_cards(g.clone(), PileRef::Tableau(0), 1, PileRef::Tableau(7)),
        Err(Error::InvalidInput { field: "dst", reason: "pile does not exist" })
    );
    assert_eq!(g.get_stack(PileRef::Foundation(4)), None);
    assert_eq!(g.get_stack(PileRef::Tableau(0)).map(|p| p.len()), Some(1));
}

#[test]
fn safety_of_moves_to_foundations() {
    let mut f: [Vec<Card>; 4] = std::array::from_fn(|_| Vec::new());
    let ace = c(Rank::Ace, FrenchSuit::Hearts, true);
    assert!(GameRules::is_safe_to_move_to_foundation(&ace, &f));
    let two = c(Rank::Two, FrenchSuit::Hearts, true);
    assert!(!GameRules::is_safe_to_move_to_foundation(&two, &f));
    f[0] = vec![c(Rank::Ace, FrenchSuit::Hearts, true)];
    assert!(GameRules::is_safe_to_move_to_foundation(&two, &f));

    let three = c(Rank::Three, FrenchSuit::Clubs, true);
    f[1] = vec![c(Rank::Ace, FrenchSuit::Clubs, true), c(Rank::Two, FrenchSuit::Clubs, true)];
    // only one red foundation started
    assert!(!GameRules::is_safe_to_move_to_foundation(&three, &f));
    f[2] = vec![c(Rank::Ace, FrenchSuit::Diamonds, true)];
    // the second red foundation is below Two
    assert!(!GameRules::is_safe_to_move_to_foundation(&three, &f));
    f[2].push(c(Rank::Two, FrenchSuit::Diamonds, true));
    f[0].push(c(Rank::Two, FrenchSuit::Hearts, true));
    assert!(GameRules::is_safe_to_move_to_foundation(&three, &f));
}

#[test]
fn auto_move_prefers_foundations_and_drains_safe_cards() {
    let mut g = empty_game();
    g.talon = vec![c(Rank::Ace, FrenchSuit::Hearts, true)];
    g.tableau[0] = vec![c(Rank::Ace, FrenchSuit::Spades, true)];
    let g = match GameRules::auto_move_to_foundation(g) {
        MoveResult::Playing(s) => s,
        _ => panic!(),
    };
    assert!(g.talon.is_empty());
    assert_eq!(g.foundations[0], vec![c(Rank::Ace, FrenchSuit::Hearts, true)]);
    assert!(GameRules::can_auto_move(&g));
    let g = match GameRules::auto_move_to_foundation(g) {
        MoveResult::Playing(s) => s,
        _ => panic!(),
    };
    assert!(g.tableau[0].is_empty());
    assert_eq!(g.foundations[1], vec![c(Rank::Ace, FrenchSuit::Spades, true)]);
    assert!(!GameRules::can_auto_move(&g));
    match GameRules::auto_move_to_foundation(g.clone()) {
        MoveResult::Playing(s) => assert_eq!(s, g),
        _ => panic!(),
    }
}

#[test]
fn auto_move_from_foundation_is_a_no_op_and_bad_input_is_reported() {
    let mut g = empty_game();
    g.foundations[0] = vec![c(Rank::Ace, FrenchSuit::Hearts, true)];
    assert_eq!(
        GameRules::auto_move_card(g.clone(), PileRef::Foundation(0), 1),
        Ok(MoveResult::Playing(g.clone()))
    );
    assert_eq!(
        GameRules::auto_move_card(g.clone(), PileRef::Talon, 1),
        Err(Error::InvalidInput { field: "take_n", reason: "not enough cards in src pile" })
    );
    g.tableau[2] = vec![c(Rank::Five, FrenchSuit::Hearts, true)];
    assert_eq!(
        GameRules::auto_move_card(g.clone(), PileRef::Tableau(2), 1),
        Ok(MoveResult::Playing(g.clone()))
    );
}
