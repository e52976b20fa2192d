//! The piles of a Klondike game and the three phases a game passes through.
use crate::card::Card;
use crate::pile::Stack;
use rand::rngs::SmallRng;
use vstd::prelude::*;

verus! {

/// The number of tableau piles.
pub const NUM_TABLEAU: usize = 7;

/// The number of foundation piles, one per suit.
pub const NUM_FOUNDATIONS: usize = 4;

/// Names one pile of the game.
#[derive(Debug, Copy, Clone, PartialEq, Eq, Structural, Hash)]
pub enum PileRef {
    /// One of the seven piles where runs are built down.
    Tableau(usize),
    /// One of the four piles where suits are built up from the Ace.
    Foundation(usize),
    /// The face-down reserve that feeds the talon.
    Stock,
    /// The face-up waste pile drawn from the stock.
    Talon,
}

impl PileRef {
    /// The reference names a pile that a game in play has.
    pub open spec fn is_real(self) -> bool {
        match self {
            PileRef::Tableau(i) => i < 7,
            PileRef::Foundation(i) => i < 4,
            _ => true,
        }
    }
}

/// Why an operation on a game was refused.
#[derive(Debug, Clone, Copy, PartialEq, Eq)]
pub enum Error {
    /// The request is malformed whatever the state of the game.
    InvalidInput { field: &'static str, reason: &'static str },
    /// The request is well formed but breaks the rules of play.
    InvalidMove { reason: &'static str },
    /// Reserved; not produced in normal use.
    Unknown,
}

/// A game being dealt: the tableau so far and the cards left to deal.
#[derive(Debug, Clone, PartialEq, Eq)]
pub struct InitialGameState {
    pub tableau: [Stack<Card>; 7],
    pub stock: Stack<Card>,
}

/// A game in play: all four groups of piles.
#[derive(Debug, Clone, PartialEq, Eq)]
pub struct PlayingGameState {
    pub tableau: [Stack<Card>; 7],
    pub foundations: [Stack<Card>; 4],
    pub stock: Stack<Card>,
    pub talon: Stack<Card>,
}

/// A won game: only the four completed foundations remain.
#[derive(Debug, Clone, PartialEq, Eq)]
pub struct WinGameState {
    pub foundations: [Stack<Card>; 4],
}

/// A game in any of its three phases.
#[derive(Debug, Clone, PartialEq, Eq)]
pub enum GameStateOption {
    Initial(InitialGameState),
    Playing(PlayingGameState),
    Win(WinGameState),
}

/// What one step of the deal produces.
#[derive(Debug, Clone, PartialEq, Eq)]
pub enum DealResult {
    /// Cards remain to be dealt.
    Dealing(InitialGameState),
    /// The tableau is complete and play begins.
    Complete(PlayingGameState),
}

/// What a successful move produces.
#[derive(Debug, Clone, PartialEq, Eq)]
pub enum MoveResult {
    /// The game goes on.
    Playing(PlayingGameState),
    /// Every foundation is complete.
    Win(WinGameState),
}

/// The contents of each of seven piles.
pub open spec fn piles7(a: [Stack<Card>; 7]) -> Seq<Seq<Card>> {
    Seq::new(7, |i: int| a[i]@)
}

/// The contents of each of four piles.
pub open spec fn piles4(a: [Stack<Card>; 4]) -> Seq<Seq<Card>> {
    Seq::new(4, |i: int| a[i]@)
}

impl InitialGameState {
    /// A game ready to be dealt from `deck`: the whole deck forms the stock,
    /// the last card on top, and the tableau is empty.
    pub fn from(deck: crate::card::Deck) -> (r: InitialGameState)
        ensures
            r.stock@ == deck@,
            forall|i: int| 0 <= i < 7 ==> (#[trigger] r.tableau[i])@.len() == 0,
    {
        InitialGameState { tableau: empty7(), stock: crate::pile::from_slice(&deck) }
    }

    /// A game ready to be dealt from a deck shuffled with a generator
    /// seeded from the operating system; none when no entropy is to be had.
    pub fn new() -> (r: Option<InitialGameState>)
        ensures
            r matches Some(s) ==> (s.stock@.len() == 52 && s.stock@.to_multiset()
                == crate::card::Card::new_deck_view().to_multiset() && forall|i: int|
                0 <= i < 7 ==> (#[trigger] s.tableau[i])@.len() == 0),
    {
        match crate::card::fresh_rng() {
            Some(mut rng) => Some(InitialGameState::new_with_rng(&mut rng)),
            None => None,
        }
    }

    /// A game ready to be dealt from a deck shuffled with `rng`.
    pub fn new_with_rng(rng: &mut SmallRng) -> (r: InitialGameState)
        ensures
            r.stock@.len() == 52,
            r.stock@.to_multiset() == crate::card::Card::new_deck_view().to_multiset(),
            forall|i: int| 0 <= i < 7 ==> (#[trigger] r.tableau[i])@.len() == 0,
    {
        let mut d = Card::new_deck();
        proof {
            assert(d@ =~= Card::new_deck_view());
        }
        crate::card::shuffle_with_rng(&mut d, rng);
        InitialGameState::from(d)
    }

    /// The pile that `p` names, if a game being dealt has it.
    pub fn get_stack(&self, p: PileRef) -> (r: Option<&Stack<Card>>)
        ensures
            r matches Some(s) ==> s@ == self.spec_pile(p),
            r is Some <==> (p is Stock || (p is Tableau && p.is_real())),
    {
        match p {
            PileRef::Tableau(n) => if n < 7 {
                Some(&self.tableau[n])
            } else {
                None
            },
            PileRef::Stock => Some(&self.stock),
            _ => None,
        }
    }

    pub open spec fn spec_pile(self, p: PileRef) -> Seq<Card> {
        match p {
            PileRef::Tableau(n) => self.tableau[n as int]@,
            _ => self.stock@,
        }
    }
}

impl PlayingGameState {
    /// The contents of the pile that `p` names (meaningful when `p.is_real()`).
    pub open spec fn pile(self, p: PileRef) -> Seq<Card> {
        match p {
            PileRef::Tableau(n) => self.tableau[n as int]@,
            PileRef::Foundation(n) => self.foundations[n as int]@,
            PileRef::Stock => self.stock@,
            PileRef::Talon => self.talon@,
        }
    }

    /// The pile that `p` names, if it exists.
    pub fn get_stack(&self, p: PileRef) -> (r: Option<&Stack<Card>>)
        ensures
            r is Some <==> p.is_real(),
            r matches Some(s) ==> s@ == self.pile(p),
    {
        match p {
            PileRef::Tableau(n) => if n < 7 {
                Some(&self.tableau[n])
            } else {
                None
            },
            PileRef::Foundation(n) => if n < 4 {
                Some(&self.foundations[n])
            } else {
                None
            },
            PileRef::Stock => Some(&self.stock),
            PileRef::Talon => Some(&self.talon),
        }
    }
}

impl WinGameState {
    /// The foundation that `p` names, if it is one.
    pub fn get_stack(&self, p: PileRef) -> (r: Option<&Stack<Card>>)
        ensures
            r is Some <==> (p is Foundation && p.is_real()),
            r matches Some(s) ==> s@ == self.foundations[p->Foundation_0 as int]@,
    {
        match p {
            PileRef::Foundation(n) => if n < 4 {
                Some(&self.foundations[n])
            } else {
                None
            },
            _ => None,
        }
    }
}

impl GameStateOption {
    /// The pile that `p` names, if the game in its current phase has it.
    pub fn get_stack(&self, p: PileRef) -> (r: Option<&Stack<Card>>)
        ensures
            r is Some <==> self.has_pile(p),
            r matches Some(s) ==> s@ == self.pile(p),
    {
        match self {
            GameStateOption::Initial(s) => s.get_stack(p),
            GameStateOption::Playing(s) => s.get_stack(p),
            GameStateOption::Win(s) => s.get_stack(p),
        }
    }

    /// The game in its current phase has the pile that `p` names.
    pub open spec fn has_pile(self, p: PileRef) -> bool {
        match self {
            GameStateOption::Initial(_) => p is Stock || (p is Tableau && p.is_real()),
            GameStateOption::Playing(_) => p.is_real(),
            GameStateOption::Win(_) => p is Foundation && p.is_real(),
        }
    }

    /// The contents of the pile that `p` names (meaningful when `has_pile(p)`).
    pub open spec fn pile(self, p: PileRef) -> Seq<Card> {
        match self {
            GameStateOption::Initial(s) => s.spec_pile(p),
            GameStateOption::Playing(s) => s.pile(p),
            GameStateOption::Win(s) => s.foundations[p->Foundation_0 as int]@,
        }
    }
}

/// Seven empty piles.
pub fn empty7() -> (r: [Stack<Card>; 7])
    ensures
        forall|i: int| 0 <= i < 7 ==> (#[trigger] r[i])@.len() == 0,
{
    [Vec::new(), Vec::new(), Vec::new(), Vec::new(), Vec::new(), Vec::new(), Vec::new()]
}

/// Four empty piles.
pub fn empty4() -> (r: [Stack<Card>; 4])
    ensures
        forall|i: int| 0 <= i < 4 ==> (#[trigger] r[i])@.len() == 0,
{
    [Vec::new(), Vec::new(), Vec::new(), Vec::new()]
}

} // verus!
