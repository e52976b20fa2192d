//! French-suited playing cards: suits, colours, ranks and the 52-card deck.
use rand::rngs::SmallRng;
use std::cmp::Ordering;
use vstd::prelude::*;

verus! {

/// The colour of a [FrenchSuit].
#[derive(Debug, Copy, Clone, PartialEq, Eq, Structural, Hash)]
pub enum Color {
    Black,
    Red,
}

impl Color {
    pub open spec fn spec_opposite(self) -> Color {
        match self {
            Color::Black => Color::Red,
            Color::Red => Color::Black,
        }
    }

    /// The other colour.
    #[verifier::when_used_as_spec(spec_opposite)]
    pub fn opposite(self) -> (r: Color)
        ensures
            r == self.spec_opposite(),
    {
        match self {
            Color::Black => Color::Red,
            Color::Red => Color::Black,
        }
    }
}

/// A classic French suit.
#[derive(Debug, Copy, Clone, PartialEq, Eq, Structural, Hash)]
pub enum FrenchSuit {
    Clubs,
    Spades,
    Hearts,
    Diamonds,
}

impl FrenchSuit {
    pub const N: usize = 4;

    pub const VALUES: [FrenchSuit; 4] = [
        FrenchSuit::Clubs,
        FrenchSuit::Spades,
        FrenchSuit::Hearts,
        FrenchSuit::Diamonds,
    ];

    pub open spec fn spec_color(&self) -> Color {
        match self {
            FrenchSuit::Clubs | FrenchSuit::Spades => Color::Black,
            FrenchSuit::Hearts | FrenchSuit::Diamonds => Color::Red,
        }
    }

    /// Clubs and Spades are black, Hearts and Diamonds red.
    #[verifier::when_used_as_spec(spec_color)]
    pub fn color(&self) -> (r: Color)
        ensures
            r == self.spec_color(),
    {
        match self {
            FrenchSuit::Clubs => Color::Black,
            FrenchSuit::Spades => Color::Black,
            FrenchSuit::Hearts => Color::Red,
            FrenchSuit::Diamonds => Color::Red,
        }
    }

    /// The suit's position in the canonical order Clubs, Spades, Hearts, Diamonds.
    pub open spec fn index(self) -> int {
        match self {
            FrenchSuit::Clubs => 0,
            FrenchSuit::Spades => 1,
            FrenchSuit::Hearts => 2,
            FrenchSuit::Diamonds => 3,
        }
    }

    /// The suit at position `i` of the canonical order.
    pub fn from_index(i: usize) -> (r: FrenchSuit)
        requires
            i < 4,
        ensures
            r.index() == i,
    {
        if i == 0 {
            FrenchSuit::Clubs
        } else if i == 1 {
            FrenchSuit::Spades
        } else if i == 2 {
            FrenchSuit::Hearts
        } else {
            FrenchSuit::Diamonds
        }
    }
}

/// The thirteen ranks, declared in the order in which they are stacked on
/// a tableau pile: King first, Ace last.
#[derive(Debug, Copy, Clone, PartialEq, Eq, Structural, PartialOrd, Ord, Hash)]
pub enum Rank {
    King,
    Queen,
    Jack,
    Ten,
    Nine,
    Eight,
    Seven,
    Six,
    Five,
    Four,
    Three,
    Two,
    Ace,
}

impl Rank {
    pub const N: usize = 13;

    pub const VALUES: [Rank; 13] = [
        Rank::King,
        Rank::Queen,
        Rank::Jack,
        Rank::Ten,
        Rank::Nine,
        Rank::Eight,
        Rank::Seven,
        Rank::Six,
        Rank::Five,
        Rank::Four,
        Rank::Three,
        Rank::Two,
        Rank::Ace,
    ];

    /// The face value: Ace is 1, Two is 2, ..., King is 13.
    pub open spec fn value(self) -> int {
        match self {
            Rank::Ace => 1,
            Rank::Two => 2,
            Rank::Three => 3,
            Rank::Four => 4,
            Rank::Five => 5,
            Rank::Six => 6,
            Rank::Seven => 7,
            Rank::Eight => 8,
            Rank::Nine => 9,
            Rank::Ten => 10,
            Rank::Jack => 11,
            Rank::Queen => 12,
            Rank::King => 13,
        }
    }

    /// The face value as a machine integer.
    pub fn face_value(&self) -> (r: u8)
        ensures
            r == self.value(),
    {
        match self {
            Rank::Ace => 1,
            Rank::Two => 2,
            Rank::Three => 3,
            Rank::Four => 4,
            Rank::Five => 5,
            Rank::Six => 6,
            Rank::Seven => 7,
            Rank::Eight => 8,
            Rank::Nine => 9,
            Rank::Ten => 10,
            Rank::Jack => 11,
            Rank::Queen => 12,
            Rank::King => 13,
        }
    }

    /// The rank of face value `v`.
    pub fn from_value(v: u8) -> (r: Rank)
        requires
            1 <= v <= 13,
        ensures
            r.value() == v,
    {
        if v == 1 {
            Rank::Ace
        } else if v == 2 {
            Rank::Two
        } else if v == 3 {
            Rank::Three
        } else if v == 4 {
            Rank::Four
        } else if v == 5 {
            Rank::Five
        } else if v == 6 {
            Rank::Six
        } else if v == 7 {
            Rank::Seven
        } else if v == 8 {
            Rank::Eight
        } else if v == 9 {
            Rank::Nine
        } else if v == 10 {
            Rank::Ten
        } else if v == 11 {
            Rank::Jack
        } else if v == 12 {
            Rank::Queen
        } else {
            Rank::King
        }
    }

    /// The rank that follows this one down a tableau run (Queen after King,
    /// ..., Ace after Two); none after an Ace.
    pub fn next(&self) -> (r: Option<Rank>)
        ensures
            self.value() == 1 ==> r is None,
            self.value() > 1 ==> (r matches Some(n) && n.value() == self.value() - 1),
    {
        let v = self.face_value();
        if v == 1 {
            None
        } else {
            Some(Rank::from_value(v - 1))
        }
    }

    /// The rank that follows this one up a foundation (Two after Ace, ...,
    /// King after Queen); none after a King.
    pub fn prev(&self) -> (r: Option<Rank>)
        ensures
            self.value() == 13 ==> r is None,
            self.value() < 13 ==> (r matches Some(n) && n.value() == self.value() + 1),
    {
        let v = self.face_value();
        if v == 13 {
            None
        } else {
            Some(Rank::from_value(v + 1))
        }
    }
}

/// A card: a suit, a rank, and whether it lies face up.
#[derive(Debug, Copy, Clone)]
pub struct Card {
    pub suit: FrenchSuit,
    pub rank: Rank,
    pub face_up: bool,
}

/// Two cards are the same card when suit and rank match; which side faces
/// up does not enter into it.
pub open spec fn same_card(a: Card, b: Card) -> bool {
    a.suit == b.suit && a.rank == b.rank
}

impl PartialEq for Card {
    fn eq(&self, other: &Card) -> (r: bool)
        ensures
            r == same_card(*self, *other),
    {
        self.suit == other.suit && self.rank == other.rank
    }
}

impl vstd::std_specs::cmp::PartialEqSpecImpl for Card {
    open spec fn obeys_eq_spec() -> bool {
        true
    }

    open spec fn eq_spec(&self, other: &Card) -> bool {
        same_card(*self, *other)
    }
}

impl Eq for Card {}

/// Cards are ordered by rank alone, in stacking order: a King is the
/// least card and an Ace the greatest.
pub open spec fn card_cmp(a: Card, b: Card) -> Ordering {
    if a.rank.value() > b.rank.value() {
        Ordering::Less
    } else if a.rank.value() < b.rank.value() {
        Ordering::Greater
    } else {
        Ordering::Equal
    }
}

impl PartialOrd for Card {
    fn partial_cmp(&self, other: &Card) -> (r: Option<Ordering>)
        ensures
            r == Some(card_cmp(*self, *other)),
    {
        let a = self.rank.face_value();
        let b = other.rank.face_value();
        if a > b {
            Some(Ordering::Less)
        } else if a < b {
            Some(Ordering::Greater)
        } else {
            Some(Ordering::Equal)
        }
    }
}

impl vstd::std_specs::cmp::PartialOrdSpecImpl for Card {
    open spec fn obeys_partial_cmp_spec() -> bool {
        true
    }

    open spec fn partial_cmp_spec(&self, other: &Card) -> Option<Ordering> {
        Some(card_cmp(*self, *other))
    }
}

/// The fixed 52-card set, one of each suit and rank.
pub type Deck = [Card; 52];

/// Card `i` of the unshuffled deck: suit-major (Clubs, Spades, Hearts,
/// Diamonds), and within a suit King first down to Ace; all face down.
pub open spec fn deck_card(i: int) -> Card {
    Card {
        suit: suit_at(i / 13),
        rank: rank_at(i % 13),
        face_up: false,
    }
}

pub open spec fn suit_at(i: int) -> FrenchSuit {
    if i == 0 {
        FrenchSuit::Clubs
    } else if i == 1 {
        FrenchSuit::Spades
    } else if i == 2 {
        FrenchSuit::Hearts
    } else {
        FrenchSuit::Diamonds
    }
}

/// Rank `i` of the stacking order, King (0) to Ace (12).
pub open spec fn rank_at(i: int) -> Rank {
    if i == 0 {
        Rank::King
    } else if i == 1 {
        Rank::Queen
    } else if i == 2 {
        Rank::Jack
    } else if i == 3 {
        Rank::Ten
    } else if i == 4 {
        Rank::Nine
    } else if i == 5 {
        Rank::Eight
    } else if i == 6 {
        Rank::Seven
    } else if i == 7 {
        Rank::Six
    } else if i == 8 {
        Rank::Five
    } else if i == 9 {
        Rank::Four
    } else if i == 10 {
        Rank::Three
    } else if i == 11 {
        Rank::Two
    } else {
        Rank::Ace
    }
}

impl Card {
    pub const N: usize = 52;

    /// Card `i` of the unshuffled deck.
    pub fn from_index(i: usize) -> (r: Card)
        requires
            i < 52,
        ensures
            r == deck_card(i as int),
    {
        let suit = FrenchSuit::from_index(i / 13);
        let rank = Rank::from_value((13 - i % 13) as u8);
        assert(suit == suit_at(i as int / 13));
        assert(rank == rank_at(i as int % 13));
        Card { suit, rank, face_up: false }
    }

    /// The unshuffled deck as a sequence.
    pub open spec fn new_deck_view() -> Seq<Card> {
        Seq::new(52, |i: int| deck_card(i))
    }

    /// A new, unshuffled deck.
    pub fn new_deck() -> (d: Deck)
        ensures
            forall|i: int| 0 <= i < 52 ==> #[trigger] d[i] == deck_card(i),
    {
        let mut d: Deck = [Card { suit: FrenchSuit::Clubs, rank: Rank::King, face_up: false }; 52];
        let mut i: usize = 0;
        while i < 52
            invariant
                i <= 52,
                forall|j: int| 0 <= j < i ==> #[trigger] d[j] == deck_card(j),
            decreases 52 - i,
        {
            d[i] = Card::from_index(i);
            i += 1;
        }
        d
    }
}

#[verifier::external_type_specification]
#[verifier::external_body]
pub struct ExSmallRng(rand::rngs::SmallRng);

/// Relies on rand's `SeedableRng::from_rng` with `OsRng`: a small generator
/// seeded from the operating system's entropy source, or none when that
/// source fails (it reports the failure as an error rather than panicking).
#[verifier::external_body]
pub(crate) fn fresh_rng() -> (r: Option<SmallRng>) {
    <SmallRng as rand::SeedableRng>::from_rng(rand::rngs::OsRng).ok()
}

/// Shuffles the deck in place with the given generator.
///
/// Relies on rand's `SliceRandom::shuffle`, a Fisher-Yates shuffle made of
/// swaps: the deck afterwards holds the same cards in some order.
#[verifier::external_body]
pub fn shuffle_with_rng(d: &mut Deck, rng: &mut SmallRng)
    ensures
        final(d)@.to_multiset() == old(d)@.to_multiset(),
{
    rand::seq::SliceRandom::shuffle(&mut d[..], rng)
}

/// Shuffles the deck in place with a generator freshly seeded from the
/// operating system; returns whether it could. Without entropy the deck is
/// left as it was.
pub fn shuffle(d: &mut Deck) -> (shuffled: bool)
    ensures
        final(d)@.to_multiset() == old(d)@.to_multiset(),
        !shuffled ==> final(d)@ == old(d)@,
{
    match fresh_rng() {
        Some(mut rng) => {
            shuffle_with_rng(d, &mut rng);
            true
        },
        None => false,
    }
}

} // verus!
