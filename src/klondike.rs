//! The rules of Klondike: dealing, drawing, run validity, moves, and the
//! automatic moves to the foundations.
use crate::card::{same_card, Card, Color, Rank};
use crate::game_state::{
    empty4, piles4, piles7, DealResult, Error, InitialGameState, MoveResult, PileRef,
    PlayingGameState, WinGameState,
};
use crate::pile::{from_slice, Stack};
use rand::rngs::SmallRng;
use vstd::prelude::*;

verus! {

/// The number of cards dealt onto the tableau: 7 + 6 + ... + 1.
pub const DEAL_N: usize = 28;

/// The rules of Klondike, as functions from a game state to the next.
pub struct GameRules;

// ---------------------------------------------------------------------------
// Dealing
// ---------------------------------------------------------------------------

/// The number of cards dealt before round `r` begins. Round `r` deals one
/// card to each of the piles `r..7`, that is `7 - r` cards.
pub open spec fn round_start(r: int) -> int {
    7 * r - r * (r - 1) / 2
}

/// The round in which the card with deal index `d` (the number of cards
/// already dealt) is dealt: the `r` with `round_start(r) <= d < round_start(r + 1)`.
pub open spec fn deal_round(d: int) -> int {
    if d < 7 {
        0
    } else if d < 13 {
        1
    } else if d < 18 {
        2
    } else if d < 22 {
        3
    } else if d < 25 {
        4
    } else if d < 27 {
        5
    } else {
        6
    }
}

/// The tableau pile that receives the card with deal index `d`: round `r`
/// goes left to right from pile `r`.
pub open spec fn deal_column(d: int) -> int {
    deal_round(d) + (d - round_start(deal_round(d)))
}

/// `c` turned face up or face down.
pub open spec fn turned(c: Card, up: bool) -> Card {
    Card { face_up: up, ..c }
}

/// The card with deal index `d`, dealt from a stock that held the whole deck
/// (so that it lies at position `51 - d`), as it lands on the tableau: face
/// up exactly when it is the last card its pile will receive, which is the
/// card that round `r` deals to pile `r`.
pub open spec fn dealt_card(stock: Seq<Card>, d: int) -> Card {
    turned(stock[51 - d], deal_column(d) == deal_round(d))
}

/// The tableau after one more card is dealt from `stock`.
pub open spec fn deal_step(tableau: Seq<Seq<Card>>, stock: Seq<Card>) -> Seq<Seq<Card>> {
    let d = 52 - stock.len();
    let i = deal_column(d);
    tableau.update(i, tableau[i].push(dealt_card(stock, d)))
}

/// The tableau once the deal is finished: `deal_step` repeated from
/// `tableau` and `stock` until 28 cards have been dealt.
pub open spec fn deal_repeat(tableau: Seq<Seq<Card>>, stock: Seq<Card>) -> Seq<Seq<Card>>
    decreases stock.len(),
{
    if stock.len() <= 24 || stock.len() > 52 {
        tableau
    } else {
        deal_repeat(deal_step(tableau, stock), stock.drop_last())
    }
}

/// The tableau that a deal step produced.
pub open spec fn deal_result_tableau(r: DealResult) -> Seq<Seq<Card>> {
    match r {
        DealResult::Dealing(s) => piles7(s.tableau),
        DealResult::Complete(s) => piles7(s.tableau),
    }
}

/// The stock that a deal step left.
pub open spec fn deal_result_stock(r: DealResult) -> Seq<Card> {
    match r {
        DealResult::Dealing(s) => s.stock@,
        DealResult::Complete(s) => s.stock@,
    }
}

/// `s` is a game freshly dealt from some shuffle of the deck: the deal of
/// [deal_repeat] onto an empty tableau, 24 cards left in the stock.
pub open spec fn dealt_from_shuffled(s: PlayingGameState) -> bool {
    &&& fresh_play(s)
    &&& exists|deck: Seq<Card>|
        #![trigger deal_repeat(empty_tableau(), deck)]
        deck.len() == 52 && deck.to_multiset() == Card::new_deck_view().to_multiset()
            && piles7(s.tableau) == deal_repeat(empty_tableau(), deck) && s.stock@ == deck.subrange(
            0,
            24,
        )
}

/// A game that has just started play: empty foundations and talon.
pub open spec fn fresh_play(s: PlayingGameState) -> bool {
    &&& s.talon@.len() == 0
    &&& forall|i: int| 0 <= i < 4 ==> (#[trigger] s.foundations[i])@.len() == 0
}

proof fn lemma_round_bounds(d: int)
    requires
        0 <= d < 28,
    ensures
        0 <= deal_round(d) < 7,
        round_start(deal_round(d)) <= d < round_start(deal_round(d) + 1),
        deal_round(d) <= deal_column(d) < 7,
{
    let r = deal_round(d);
    if r == 0 {
        assert(round_start(0) == 0);
        assert(round_start(1) == 7);
    } else if r == 1 {
        assert(round_start(1) == 7);
        assert(round_start(2) == 13);
    } else if r == 2 {
        assert(round_start(2) == 13);
        assert(round_start(3) == 18);
    } else if r == 3 {
        assert(round_start(3) == 18);
        assert(round_start(4) == 22);
    } else if r == 4 {
        assert(round_start(4) == 22);
        assert(round_start(5) == 25);
    } else if r == 5 {
        assert(round_start(5) == 25);
        assert(round_start(6) == 27);
    } else {
        assert(round_start(6) == 27);
        assert(round_start(7) == 28);
    }
}

/// A round `r` whose deals cover index `d` is the round of `d`.
proof fn lemma_round_unique(d: int, r: int)
    requires
        0 <= r < 7,
        round_start(r) <= d < round_start(r + 1),
    ensures
        deal_round(d) == r,
{
    assert(round_start(0) == 0);
    assert(round_start(1) == 7);
    assert(round_start(2) == 13);
    assert(round_start(3) == 18);
    assert(round_start(4) == 22);
    assert(round_start(5) == 25);
    assert(round_start(6) == 27);
    assert(round_start(7) == 28);
}

/// Round and column of the card with deal index `d`, found by walking the
/// rounds: round `r` holds `7 - r` deals.
fn round_and_column(d: usize) -> (r: (usize, usize))
    requires
        d < 28,
    ensures
        r.0 == deal_round(d as int),
        r.1 == deal_column(d as int),
{
    let mut round: usize = 0;
    let mut start: usize = 0;
    while start + (7 - round) <= d
        invariant
            round < 7,
            start <= d < 28,
            start == round_start(round as int),
        decreases 7 - round,
    {
        proof {
            assert(round_start(round as int + 1) == round_start(round as int) + 7 - round) by (nonlinear_arith);
            lemma_round_bounds(d as int);
            if round == 6 {
                assert(round_start(7) == 28);
            }
        }
        start = start + (7 - round);
        round = round + 1;
    }
    proof {
        assert(round_start(round as int + 1) == round_start(round as int) + 7 - round) by (nonlinear_arith);
        lemma_round_unique(d as int, round as int);
    }
    (round, round + (d - start))
}

/// Pile `i` of `piles` with `c` put on top.
fn push_onto(piles: &mut [Stack<Card>; 7], i: usize, c: Card)
    requires
        i < 7,
    ensures
        piles7(*final(piles)) == piles7(*old(piles)).update(i as int, old(piles)[i as int]@.push(c)),
{
    let mut p = from_slice(piles[i].as_slice());
    p.push(c);
    piles[i] = p;
    assert(piles7(*piles) =~= piles7(*old(piles)).update(i as int, old(piles)[i as int]@.push(c)));
}

/// The talon turned over to form a new stock: reversed, all face down.
pub open spec fn recycled(talon: Seq<Card>) -> Seq<Card> {
    Seq::new(talon.len(), |i: int| turned(talon[talon.len() - 1 - i], false))
}

/// `cs` with every card turned face up.
pub open spec fn all_face_up(cs: Seq<Card>) -> Seq<Card> {
    Seq::new(cs.len(), |i: int| turned(cs[i], true))
}

/// `t` is what drawing `n` cards from the stock of `s` gives.
pub open spec fn draw_result(s: PlayingGameState, n: int, t: PlayingGameState) -> bool {
    let len = s.stock@.len() as int;
    let k = if n < len {
        n
    } else {
        len
    };
    &&& t.tableau == s.tableau
    &&& t.foundations == s.foundations
    &&& if len == 0 {
        t.stock@ == recycled(s.talon@) && t.talon@.len() == 0
    } else {
        &&& t.stock@ == s.stock@.subrange(0, len - k)
        &&& t.talon@ == s.talon@ + all_face_up(s.stock@.subrange(len - k, len))
    }
}

// ---------------------------------------------------------------------------
// Runs and moves
// ---------------------------------------------------------------------------

/// `b` may lie on `a` in a tableau run: opposite colours, one rank lower.
pub open spec fn tableau_link(a: Card, b: Card) -> bool {
    a.suit.spec_color() != b.suit.spec_color() && b.rank.value() == a.rank.value() - 1
}

/// `b` may lie on `a` on a foundation: same suit, one rank higher.
pub open spec fn foundation_link(a: Card, b: Card) -> bool {
    a.suit == b.suit && b.rank.value() == a.rank.value() + 1
}

/// Every card of `cs` is face up.
pub open spec fn all_up(cs: Seq<Card>) -> bool {
    forall|i: int| 0 <= i < cs.len() ==> (#[trigger] cs[i]).face_up
}

/// `cs`, given bottom to top, may be taken from or laid on the pile kind
/// of `p`: all face up, and for a tableau a descending run of alternating
/// colours, for a foundation an ascending run of one suit. Nothing may be
/// taken as a run from the stock; a talon run is always valid.
pub open spec fn run_valid(p: PileRef, cs: Seq<Card>) -> bool {
    all_up(cs) && match p {
        PileRef::Tableau(_) => forall|i: int|
            0 <= i < cs.len() - 1 ==> tableau_link(#[trigger] cs[i], cs[i + 1]),
        PileRef::Foundation(_) => forall|i: int|
            0 <= i < cs.len() - 1 ==> foundation_link(#[trigger] cs[i], cs[i + 1]),
        PileRef::Stock => false,
        PileRef::Talon => true,
    }
}

/// The top `n` cards of the pile `src`, bottom to top.
pub open spec fn taken(s: PlayingGameState, src: PileRef, n: int) -> Seq<Card> {
    s.pile(src).subrange(s.pile(src).len() - n, s.pile(src).len() as int)
}

/// The pile `src` without its top `n` cards.
pub open spec fn remaining(s: PlayingGameState, src: PileRef, n: int) -> Seq<Card> {
    s.pile(src).subrange(0, s.pile(src).len() - n)
}

/// `cs` with its top card, if any, turned face up.
pub open spec fn flip_top(cs: Seq<Card>) -> Seq<Card> {
    if cs.len() == 0 {
        cs
    } else {
        cs.update(cs.len() - 1, turned(cs.last(), true))
    }
}

pub open spec fn invalid_input(field: &'static str, reason: &'static str) -> Error {
    Error::InvalidInput { field, reason }
}

pub open spec fn invalid_move(reason: &'static str) -> Error {
    Error::InvalidMove { reason }
}

/// Why moving `n` cards from `src` to `dst` in `s` is refused, checked in
/// this order; `None` when the move goes ahead.
pub open spec fn move_error(s: PlayingGameState, src: PileRef, n: int, dst: PileRef) -> Option<Error> {
    if n == 0 {
        Some(invalid_input("take_n", "cannot take 0 cards"))
    } else if src is Stock {
        Some(invalid_input("src", "cannot move cards from stock"))
    } else if src is Talon && n != 1 {
        Some(invalid_input("take_n", "cannot move more than 1 card from talon"))
    } else if dst is Foundation && n != 1 {
        Some(invalid_input("take_n", "cannot move more than 1 card to foundation"))
    } else if dst is Stock {
        Some(invalid_input("dst", "cannot move cards to stock"))
    } else if dst is Talon {
        Some(invalid_input("dst", "cannot move cards to talon"))
    } else if src == dst {
        None
    } else if !src.is_real() {
        Some(invalid_input("src", "pile does not exist"))
    } else if n > s.pile(src).len() {
        Some(invalid_input("take_n", "not enough cards in src pile"))
    } else if !run_valid(src, taken(s, src, n)) {
        Some(invalid_move("src sequence is invalid"))
    } else if !dst.is_real() {
        Some(invalid_input("dst", "pile does not exist"))
    } else if s.pile(dst).len() == 0 {
        if dst is Tableau && taken(s, src, n)[0].rank != Rank::King {
            Some(invalid_move("can only move a King to a space"))
        } else if dst is Foundation && taken(s, src, n)[0].rank != Rank::Ace {
            Some(invalid_move("dst sequence is invalid"))
        } else {
            None
        }
    } else if !run_valid(dst, seq![s.pile(dst).last(), taken(s, src, n)[0]]) {
        Some(invalid_move("dst sequence is invalid"))
    } else {
        None
    }
}

/// The pile `p` after `n` cards moved from `src` to `dst`: the source loses
/// them and shows its new top face up; the destination gains them on top.
pub open spec fn moved_pile(s: PlayingGameState, src: PileRef, n: int, dst: PileRef, p: PileRef) -> Seq<Card> {
    if p == src {
        flip_top(remaining(s, src, n))
    } else if p == dst {
        s.pile(dst) + taken(s, src, n)
    } else {
        s.pile(p)
    }
}

/// `t` holds exactly the piles that the move leaves.
pub open spec fn move_outcome(s: PlayingGameState, src: PileRef, n: int, dst: PileRef, t: PlayingGameState) -> bool {
    &&& forall|i: int| 0 <= i < 7 ==> (#[trigger] t.tableau[i])@ == moved_pile(s, src, n, dst, PileRef::Tableau(i as usize))
    &&& forall|i: int| 0 <= i < 4 ==> (#[trigger] t.foundations[i])@ == moved_pile(s, src, n, dst, PileRef::Foundation(i as usize))
    &&& t.stock@ == s.stock@
    &&& t.talon@ == moved_pile(s, src, n, dst, PileRef::Talon)
}

/// The move fills the last gap: it goes to a foundation, and afterwards
/// every foundation holds 13 cards.
pub open spec fn move_wins(s: PlayingGameState, src: PileRef, n: int, dst: PileRef) -> bool {
    dst is Foundation && forall|i: int| 0 <= i < 4 ==> #[trigger] moved_pile(s, src, n, dst, PileRef::Foundation(i as usize)).len() >= 13
}

/// The result that moving `n` cards from `src` to `dst` in `s` gives.
pub open spec fn move_result_ok(s: PlayingGameState, src: PileRef, n: int, dst: PileRef, r: MoveResult) -> bool {
    if src == dst {
        r == MoveResult::Playing(s)
    } else if move_wins(s, src, n, dst) {
        r matches MoveResult::Win(w) && forall|i: int| 0 <= i < 4 ==> (#[trigger] w.foundations[i])@ == moved_pile(s, src, n, dst, PileRef::Foundation(i as usize))
    } else {
        r matches MoveResult::Playing(t) && move_outcome(s, src, n, dst, t)
    }
}

/// The full contract of a move: the error when one applies, else the result.
pub open spec fn move_spec(s: PlayingGameState, src: PileRef, n: int, dst: PileRef, r: Result<MoveResult, Error>) -> bool {
    match move_error(s, src, n, dst) {
        Some(e) => r == Err::<MoveResult, Error>(e),
        None => r matches Ok(m) && move_result_ok(s, src, n, dst, m),
    }
}

/// Replaces the pile `p` of `s` by `v`.
fn set_pile(s: &mut PlayingGameState, p: PileRef, v: Vec<Card>)
    requires
        p.is_real(),
    ensures
        final(s).pile(p) == v@,
        forall|q: PileRef| q.is_real() && q != p ==> final(s).pile(q) == old(s).pile(q),
{
    match p {
        PileRef::Tableau(i) => {
            s.tableau[i] = v;
        },
        PileRef::Foundation(i) => {
            s.foundations[i] = v;
        },
        PileRef::Stock => {
            s.stock = v;
        },
        PileRef::Talon => {
            s.talon = v;
        },
    }
}

/// An attempted move that settles the search for a destination: it either
/// succeeds or is malformed. A move that breaks the rules of play does not.
pub open spec fn settles(e: Option<Error>) -> bool {
    e is None || e matches Some(Error::InvalidInput { .. })
}

/// The first foundation from `i` on where moving from `src` settles.
pub open spec fn scan_foundations(s: PlayingGameState, src: PileRef, n: int, i: int) -> Option<PileRef>
    decreases 4 - i,
{
    if i >= 4 {
        None
    } else if settles(move_error(s, src, n, PileRef::Foundation(i as usize))) {
        Some(PileRef::Foundation(i as usize))
    } else {
        scan_foundations(s, src, n, i + 1)
    }
}

/// The first tableau pile from `i` on, other than `src`, where moving from
/// `src` settles.
pub open spec fn scan_tableau(s: PlayingGameState, src: PileRef, n: int, i: int) -> Option<PileRef>
    decreases 7 - i,
{
    if i >= 7 {
        None
    } else if PileRef::Tableau(i as usize) != src && settles(move_error(s, src, n, PileRef::Tableau(i as usize))) {
        Some(PileRef::Tableau(i as usize))
    } else {
        scan_tableau(s, src, n, i + 1)
    }
}

/// Where an automatic move of `n` cards from `src` goes: the foundations
/// first (for a single card), then the tableau, each in index order.
pub open spec fn auto_target(s: PlayingGameState, src: PileRef, n: int) -> Option<PileRef> {
    if n == 1 && scan_foundations(s, src, n, 0) is Some {
        scan_foundations(s, src, n, 0)
    } else {
        scan_tableau(s, src, n, 0)
    }
}

// ---------------------------------------------------------------------------
// Safe moves to the foundations
// ---------------------------------------------------------------------------

/// Some foundation shows, on top, the card of `card`'s suit one rank below
/// it: `card` may go there.
pub open spec fn has_home(card: Card, f: Seq<Seq<Card>>) -> bool {
    exists|i: int|
        0 <= i < 4 && (#[trigger] f[i]).len() > 0 && f[i].last().suit == card.suit
            && f[i].last().rank.value() == card.rank.value() - 1
}

/// The pile `fi` has a top card of the colour opposite to `card`'s.
pub open spec fn opposite_top(card: Card, fi: Seq<Card>) -> bool {
    fi.len() > 0 && fi.last().suit.spec_color() == card.suit.spec_color().spec_opposite()
}

/// How many of the first `k` foundations show a card of the opposite colour.
pub open spec fn count_opposite(card: Card, f: Seq<Seq<Card>>, k: int) -> int
    decreases k,
{
    if k <= 0 {
        0
    } else {
        count_opposite(card, f, k - 1) + if opposite_top(card, f[k - 1]) {
            1int
        } else {
            0
        }
    }
}

/// Moving `card` to a foundation cannot block a later move: it is an Ace;
/// or it has a place on a foundation and either is a Two, or both
/// foundations of the opposite colour have reached at least the rank below
/// it.
pub open spec fn safe_for_foundation(card: Card, f: Seq<Seq<Card>>) -> bool {
    card.rank.value() == 1 || (has_home(card, f) && (card.rank.value() == 2 || (count_opposite(
        card,
        f,
        4,
    ) == 2 && forall|i: int|
        0 <= i < 4 && opposite_top(card, #[trigger] f[i]) ==> f[i].last().rank.value()
            >= card.rank.value() - 1)))
}

/// The piles whose top card is considered for an automatic move, by
/// position: the talon, then the tableau from left to right.
pub open spec fn auto_source(k: int) -> PileRef {
    if k == 0 {
        PileRef::Talon
    } else {
        PileRef::Tableau((k - 1) as usize)
    }
}

/// The first pile from position `k` on whose top card is safe to move to
/// a foundation.
pub open spec fn first_safe(s: PlayingGameState, k: int) -> Option<PileRef>
    decreases 8 - k,
{
    if k >= 8 {
        None
    } else if s.pile(auto_source(k)).len() > 0 && safe_for_foundation(
        s.pile(auto_source(k)).last(),
        piles4(s.foundations),
    ) {
        Some(auto_source(k))
    } else {
        first_safe(s, k + 1)
    }
}

/// What draining one safe card gives: the automatic move of the top card
/// of the first pile that has a safe one, or the game unchanged.
pub open spec fn drain_one(s: PlayingGameState, r: MoveResult) -> bool {
    match first_safe(s, 0) {
        Some(p) => auto_move_spec(s, p, 1, Ok(r)),
        None => r == MoveResult::Playing(s),
    }
}

/// The contract of an automatic move of `n` cards from `src`: a no-op from
/// a foundation or where no destination settles; otherwise the move to the
/// destination that [auto_target] picks.
pub open spec fn auto_move_spec(s: PlayingGameState, src: PileRef, n: int, r: Result<MoveResult, Error>) -> bool {
    if src is Foundation {
        r == Ok::<MoveResult, Error>(MoveResult::Playing(s))
    } else {
        match auto_target(s, src, n) {
            Some(t) => move_spec(s, src, n, t, r),
            None => r == Ok::<MoveResult, Error>(MoveResult::Playing(s)),
        }
    }
}

/// An automatic move to a foundation would happen: some pile's top card
/// is safe, and a destination takes it.
pub open spec fn auto_moves(s: PlayingGameState) -> bool {
    first_safe(s, 0) matches Some(p) && auto_target(s, p, 1) is Some
}

proof fn lemma_first_safe(s: PlayingGameState, k: int)
    requires
        0 <= k,
    ensures
        first_safe(s, k) matches Some(p) ==> ((p is Talon || (p is Tableau && p->Tableau_0 < 7))
            && s.pile(p).len() >= 1),
    decreases 8 - k,
{
    if k < 8 {
        lemma_first_safe(s, k + 1);
    }
}

proof fn lemma_scan_foundations(s: PlayingGameState, src: PileRef, n: int, i: int)
    requires
        0 <= i,
    ensures
        scan_foundations(s, src, n, i) matches Some(t) ==> (t is Foundation && t->Foundation_0 < 4
            && settles(move_error(s, src, n, t))),
    decreases 4 - i,
{
    if i < 4 {
        lemma_scan_foundations(s, src, n, i + 1);
    }
}

proof fn lemma_scan_tableau(s: PlayingGameState, src: PileRef, n: int, i: int)
    requires
        0 <= i,
    ensures
        scan_tableau(s, src, n, i) matches Some(t) ==> (t is Tableau && t->Tableau_0 < 7 && t != src
            && settles(move_error(s, src, n, t))),
    decreases 7 - i,
{
    if i < 7 {
        lemma_scan_tableau(s, src, n, i + 1);
    }
}

/// A single card automatically moved from the talon or a non-empty tableau
/// pile is never a malformed request.
proof fn lemma_auto_single_ok(s: PlayingGameState, src: PileRef)
    requires
        src is Talon || (src is Tableau && src->Tableau_0 < 7),
        s.pile(src).len() >= 1,
    ensures
        auto_target(s, src, 1) matches Some(t) ==> move_error(s, src, 1, t) is None,
{
    lemma_scan_foundations(s, src, 1, 0);
    lemma_scan_tableau(s, src, 1, 0);
}

impl GameRules {
    /// Deals one card from the stock onto the tableau.
    ///
    /// The number `d` of cards already dealt fixes where it goes: round
    /// `deal_round(d)`, pile `deal_column(d)`. The card is face up when it is
    /// the last its pile receives, face down otherwise. Once 28 cards are out
    /// the game begins, with empty foundations and talon.
    pub fn deal_one(state: InitialGameState) -> (r: DealResult)
        requires
            25 <= state.stock@.len() <= 52,
        ensures
            deal_result_tableau(r) == deal_step(piles7(state.tableau), state.stock@),
            deal_result_stock(r) == state.stock@.drop_last(),
            r is Complete <==> state.stock@.len() == 25,
            r matches DealResult::Complete(s) ==> fresh_play(s),
    {
        let mut tableau = state.tableau;
        let mut stock = state.stock;
        let ghost old_stock = stock@;
        let d = 52 - stock.len();
        let (round, column) = round_and_column(d);
        let mut card = crate::pile::take_one_vec_mut(&mut stock);
        card.face_up = column == round;
        proof {
            lemma_round_bounds(d as int);
        }
        push_onto(&mut tableau, column, card);
        assert(card == dealt_card(old_stock, d as int));
        if 52 - stock.len() == DEAL_N {
            DealResult::Complete(
                PlayingGameState { tableau, foundations: empty4(), stock, talon: Vec::new() },
            )
        } else {
            DealResult::Dealing(InitialGameState { tableau, stock })
        }
    }

    /// Deals the rest of the tableau at once. The result is the one that
    /// calling [GameRules::deal_one] until it completes would give.
    pub fn deal_all(state: InitialGameState) -> (r: PlayingGameState)
        requires
            25 <= state.stock@.len() <= 52,
        ensures
            piles7(r.tableau) == deal_repeat(piles7(state.tableau), state.stock@),
            r.stock@ == state.stock@.subrange(0, 24),
            fresh_play(r),
    {
        let ghost target = deal_repeat(piles7(state.tableau), state.stock@);
        let ghost full = state.stock@;
        let mut cur = state;
        loop
            invariant
                25 <= cur.stock@.len() <= 52,
                cur.stock@.len() <= full.len(),
                deal_repeat(piles7(cur.tableau), cur.stock@) == target,
                cur.stock@ == full.subrange(0, cur.stock@.len() as int),
                target == deal_repeat(piles7(state.tableau), state.stock@),
                full == state.stock@,
            decreases cur.stock@.len(),
        {
            let ghost tab = piles7(cur.tableau);
            let ghost stock = cur.stock@;
            assert(deal_repeat(tab, stock) == deal_repeat(deal_step(tab, stock), stock.drop_last()));
            match Self::deal_one(cur) {
                DealResult::Dealing(next) => {
                    assert(next.stock@ =~= full.subrange(0, next.stock@.len() as int));
                    cur = next;
                },
                DealResult::Complete(done) => {
                    assert(done.stock@ =~= full.subrange(0, 24));
                    assert(deal_repeat(piles7(done.tableau), done.stock@) == piles7(done.tableau));
                    return done;
                },
            }
        }
    }

    /// A new game, shuffled with a generator seeded from the operating
    /// system and fully dealt; none when no entropy is to be had.
    pub fn new_and_deal() -> (r: Option<PlayingGameState>)
        ensures
            r matches Some(p) ==> dealt_from_shuffled(p),
    {
        match InitialGameState::new() {
            Some(s) => Some(Self::deal_fresh(s)),
            None => None,
        }
    }

    /// A new game, shuffled with `rng` and fully dealt.
    pub fn new_and_deal_with_rng(rng: &mut SmallRng) -> (r: PlayingGameState)
        ensures
            dealt_from_shuffled(r),
    {
        Self::deal_fresh(InitialGameState::new_with_rng(rng))
    }

    fn deal_fresh(state: InitialGameState) -> (r: PlayingGameState)
        requires
            state.stock@.len() == 52,
            state.stock@.to_multiset() == Card::new_deck_view().to_multiset(),
            forall|i: int| 0 <= i < 7 ==> (#[trigger] state.tableau[i])@.len() == 0,
        ensures
            dealt_from_shuffled(r),
    {
        let ghost deck = state.stock@;
        assert forall|i: int| 0 <= i < 7 implies #[trigger] piles7(state.tableau)[i] == empty_tableau()[i] by {
            assert(state.tableau[i]@ =~= Seq::<Card>::empty());
        }
        assert(piles7(state.tableau) =~= empty_tableau());
        let r = Self::deal_all(state);
        proof {
            lemma_full_deal(deck);
        }
        r
    }

    /// Draws up to `n` cards from the stock onto the talon, face up; the top
    /// card of the stock ends up under the others drawn with it. When the
    /// stock is empty the talon is turned over instead: it becomes the stock,
    /// in reverse order and face down, and the talon is left empty. Never
    /// fails.
    pub fn draw_stock(state: PlayingGameState, n: usize) -> (r: Result<PlayingGameState, Error>)
        ensures
            r matches Ok(t) && draw_result(state, n as int, t),
    {
        let mut new_state = state;
        let len = new_state.stock.len();
        if len == 0 {
            let mut stock: Vec<Card> = Vec::new();
            let mut i: usize = new_state.talon.len();
            while i > 0
                invariant
                    i <= new_state.talon@.len(),
                    stock@ == recycled(new_state.talon@).subrange(0, new_state.talon@.len() - i),
                    new_state == state,
                decreases i,
            {
                i -= 1;
                let mut c = new_state.talon[i];
                c.face_up = false;
                stock.push(c);
                assert(stock@ =~= recycled(new_state.talon@).subrange(0, new_state.talon@.len() - i));
            }
            assert(stock@ =~= recycled(new_state.talon@));
            new_state.stock = stock;
            new_state.talon = Vec::new();
        } else {
            let k = if n < len {
                n
            } else {
                len
            };
            let take = crate::pile::take_n_vec_mut(&mut new_state.stock, k);
            let mut up: Vec<Card> = Vec::new();
            let mut i: usize = 0;
            while i < take.len()
                invariant
                    i <= take@.len(),
                    up@ == all_face_up(take@).subrange(0, i as int),
                decreases take@.len() - i,
            {
                let mut c = take[i];
                c.face_up = true;
                up.push(c);
                i += 1;
                assert(up@ =~= all_face_up(take@).subrange(0, i as int));
            }
            assert(up@ =~= all_face_up(take@));
            new_state.talon.append(&mut up);
        }
        Ok(new_state)
    }

    /// Moves the top `take_n` cards of `src` onto `dst`.
    ///
    /// The request is checked in the order that [move_error] lists, and the
    /// first failure is returned. Moving a pile onto itself changes nothing.
    /// Otherwise the source's new top card turns face up, and a move onto a
    /// foundation that completes all four wins the game.
    pub fn move_cards(state: PlayingGameState, src: PileRef, take_n: usize, dst: PileRef) -> (r: Result<MoveResult, Error>)
        ensures
            move_spec(state, src, take_n as int, dst, r),
    {
        match Self::check_move(&state, src, take_n, dst) {
            Some(e) => Err(e),
            None => if src == dst {
                Ok(MoveResult::Playing(state))
            } else {
                Ok(Self::apply_move(state, src, take_n, dst))
            },
        }
    }

    /// Moves `take_n` cards from `src` to the first destination that takes
    /// them; see [auto_target]. A malformed request is reported at once;
    /// where no destination takes the cards, or `src` is a foundation, the
    /// game is returned unchanged.
    pub fn auto_move_card(state: PlayingGameState, src: PileRef, take_n: usize) -> (r: Result<MoveResult, Error>)
        ensures
            auto_move_spec(state, src, take_n as int, r),
    {
        if let PileRef::Foundation(_) = src {
            return Ok(MoveResult::Playing(state));
        }
        match Self::find_auto_target(&state, src, take_n) {
            Err(e) => Err(e),
            Ok(Some(dst)) => Self::move_cards(state, src, take_n, dst),
            Ok(None) => Ok(MoveResult::Playing(state)),
        }
    }

    /// Whether `card_to_move` may safely go to a foundation now; see
    /// [safe_for_foundation]. False when no foundation takes it.
    pub fn is_safe_to_move_to_foundation(card_to_move: &Card, foundations: &[Stack<Card>; 4]) -> (r: bool)
        ensures
            r == safe_for_foundation(*card_to_move, piles4(*foundations)),
    {
        let ghost f = piles4(*foundations);
        let v = card_to_move.rank.face_value();
        if v == 1 {
            return true;
        }
        let prev = v - 1;
        let mut found = false;
        let mut i: usize = 0;
        while i < 4
            invariant
                i <= 4,
                f == piles4(*foundations),
                prev == card_to_move.rank.value() - 1,
                found ==> has_home(*card_to_move, f),
                !found ==> forall|j: int|
                    0 <= j < i ==> !((#[trigger] f[j]).len() > 0 && f[j].last().suit == card_to_move.suit
                        && f[j].last().rank.value() == card_to_move.rank.value() - 1),
            decreases 4 - i,
        {
            let fi = &foundations[i];
            let n = fi.len();
            if n > 0 {
                let top = fi[n - 1];
                if top.suit == card_to_move.suit && top.rank.face_value() == prev {
                    assert(f[i as int] == foundations[i as int]@);
                    found = true;
                }
            }
            assert(f[i as int] == foundations[i as int]@);
            i += 1;
        }
        if !found {
            return false;
        }
        if v == 2 {
            return true;
        }
        let want = card_to_move.suit.color().opposite();
        let mut matches: usize = 0;
        let mut i: usize = 0;
        while i < 4
            invariant
                i <= 4,
                f == piles4(*foundations),
                prev == card_to_move.rank.value() - 1,
                want == card_to_move.suit.spec_color().spec_opposite(),
                matches == count_opposite(*card_to_move, f, i as int),
                matches <= i,
                forall|j: int|
                    0 <= j < i && opposite_top(*card_to_move, #[trigger] f[j]) ==> f[j].last().rank.value()
                        >= prev,
            decreases 4 - i,
        {
            let fi = &foundations[i];
            let n = fi.len();
            assert(f[i as int] == foundations[i as int]@);
            if n > 0 {
                let top = fi[n - 1];
                if top.suit.color() == want {
                    if top.rank.face_value() >= prev {
                        matches += 1;
                    } else {
                        return false;
                    }
                }
            }
            i += 1;
        }
        matches == 2
    }

    /// Moves one card that is safe to move to a foundation: the top card of
    /// the talon or else of the first tableau pile that has one, moved as
    /// [GameRules::auto_move_card] would. When there is none the game is
    /// returned unchanged; see [drain_one].
    pub fn auto_move_to_foundation(state: PlayingGameState) -> (r: MoveResult)
        ensures
            drain_one(state, r),
    {
        match Self::find_safe_source(&state) {
            Some(pile_ref) => {
                proof {
                    lemma_first_safe(state, 0);
                    lemma_auto_single_ok(state, pile_ref);
                }
                let moved = Self::auto_move_card(state, pile_ref, 1);
                moved.unwrap()
            },
            None => MoveResult::Playing(state),
        }
    }

    /// The first pile, the talon and then the tableau from left to right,
    /// whose top card is safe to move to a foundation; see [first_safe].
    pub fn find_safe_source(state: &PlayingGameState) -> (r: Option<PileRef>)
        ensures
            r == first_safe(*state, 0),
    {
        let mut k: usize = 0;
        while k < 8
            invariant
                k <= 8,
                first_safe(*state, 0) == first_safe(*state, k as int),
            decreases 8 - k,
        {
            let pile_ref = if k == 0 {
                PileRef::Talon
            } else {
                PileRef::Tableau(k - 1)
            };
            assert(pile_ref == auto_source(k as int));
            let pile = state.get_stack(pile_ref).unwrap();
            let n = pile.len();
            if n > 0 {
                let card = pile[n - 1];
                if Self::is_safe_to_move_to_foundation(&card, &state.foundations) {
                    return Some(pile_ref);
                }
            }
            k += 1;
        }
        None
    }

    /// Whether [GameRules::auto_move_to_foundation] would move a card; see
    /// [auto_moves].
    pub fn can_auto_move(state: &PlayingGameState) -> (r: bool)
        ensures
            r == auto_moves(*state),
    {
        match Self::find_safe_source(state) {
            Some(p) => {
                proof {
                    lemma_first_safe(*state, 0);
                    lemma_auto_single_ok(*state, p);
                }
                match Self::find_auto_target(state, p, 1) {
                    Ok(Some(_)) => true,
                    _ => false,
                }
            },
            None => false,
        }
    }

    /// The destination an automatic move from `src` settles on, or the
    /// malformed-request error that stops the search; see [auto_target].
    pub fn find_auto_target(state: &PlayingGameState, src: PileRef, take_n: usize) -> (r: Result<Option<PileRef>, Error>)
        requires
            !(src is Foundation),
        ensures
            match auto_target(*state, src, take_n as int) {
                Some(t) => match move_error(*state, src, take_n as int, t) {
                    Some(e) => r == Err::<Option<PileRef>, Error>(e),
                    None => r == Ok::<Option<PileRef>, Error>(Some(t)),
                },
                None => r == Ok::<Option<PileRef>, Error>(None),
            },
    {
        let ghost n = take_n as int;
        if take_n == 1 {
            let mut i: usize = 0;
            while i < 4
                invariant
                    i <= 4,
                    n == take_n == 1,
                    !(src is Foundation),
                    scan_foundations(*state, src, n, 0) == scan_foundations(*state, src, n, i as int),
                decreases 4 - i,
            {
                let dst = PileRef::Foundation(i);
                assert(scan_foundations(*state, src, n, i as int) == if settles(move_error(*state, src, n, dst)) {
                    Some(dst)
                } else {
                    scan_foundations(*state, src, n, i + 1)
                });
                match Self::check_move(state, src, take_n, dst) {
                    Some(e) => {
                        if let Error::InvalidInput { .. } = e {
                            return Err(e);
                        }
                    },
                    None => {
                        return Ok(Some(dst));
                    },
                }
                i += 1;
            }
            assert(scan_foundations(*state, src, n, 4) is None);
        }
        let mut i: usize = 0;
        while i < 7
            invariant
                i <= 7,
                n == take_n,
                !(src is Foundation),
                scan_tableau(*state, src, n, 0) == scan_tableau(*state, src, n, i as int),
                auto_target(*state, src, n) == scan_tableau(*state, src, n, 0),
            decreases 7 - i,
        {
            let dst = PileRef::Tableau(i);
            assert(scan_tableau(*state, src, n, i as int) == if dst != src && settles(move_error(*state, src, n, dst)) {
                Some(dst)
            } else {
                scan_tableau(*state, src, n, i + 1)
            });
            if dst != src {
                match Self::check_move(state, src, take_n, dst) {
                    Some(e) => {
                        if let Error::InvalidInput { .. } = e {
                            return Err(e);
                        }
                    },
                    None => {
                        return Ok(Some(dst));
                    },
                }
            }
            i += 1;
        }
        Ok(None)
    }

    /// Why the move would be refused, without making it; see [move_error].
    pub fn check_move(state: &PlayingGameState, src: PileRef, take_n: usize, dst: PileRef) -> (r: Option<Error>)
        ensures
            r == move_error(*state, src, take_n as int, dst),
    {
        if take_n == 0 {
            return Some(Error::InvalidInput { field: "take_n", reason: "cannot take 0 cards" });
        }
        match src {
            PileRef::Tableau(_) | PileRef::Foundation(_) => {},
            PileRef::Stock => {
                return Some(Error::InvalidInput { field: "src", reason: "cannot move cards from stock" });
            },
            PileRef::Talon => {
                if take_n != 1 {
                    return Some(Error::InvalidInput { field: "take_n", reason: "cannot move more than 1 card from talon" });
                }
            },
        }
        match dst {
            PileRef::Tableau(_) => {},
            PileRef::Foundation(_) => {
                if take_n != 1 {
                    return Some(Error::InvalidInput { field: "take_n", reason: "cannot move more than 1 card to foundation" });
                }
            },
            PileRef::Stock => {
                return Some(Error::InvalidInput { field: "dst", reason: "cannot move cards to stock" });
            },
            PileRef::Talon => {
                return Some(Error::InvalidInput { field: "dst", reason: "cannot move cards to talon" });
            },
        }
        if src == dst {
            return None;
        }
        let ghost n = take_n as int;
        let src_stack = match state.get_stack(src) {
            Some(st) => st,
            None => {
                return Some(Error::InvalidInput { field: "src", reason: "pile does not exist" });
            },
        };
        if take_n > src_stack.len() {
            return Some(Error::InvalidInput { field: "take_n", reason: "not enough cards in src pile" });
        }
        let (_rest, take) = crate::pile::take_n_slice(src_stack.as_slice(), take_n);
        assert(take@ == taken(*state, src, n));
        if !Self::valid_seq(src, take) {
            return Some(Error::InvalidMove { reason: "src sequence is invalid" });
        }
        let dst_stack = match state.get_stack(dst) {
            Some(st) => st,
            None => {
                return Some(Error::InvalidInput { field: "dst", reason: "pile does not exist" });
            },
        };
        if dst_stack.len() == 0 {
            match dst {
                PileRef::Tableau(_) => {
                    if take[0].rank != Rank::King {
                        return Some(Error::InvalidMove { reason: "can only move a King to a space" });
                    }
                },
                PileRef::Foundation(_) => {
                    if take[0].rank != Rank::Ace {
                        return Some(Error::InvalidMove { reason: "dst sequence is invalid" });
                    }
                },
                PileRef::Stock => {},
                PileRef::Talon => {},
            }
        } else {
            let pair = [dst_stack[dst_stack.len() - 1], take[0]];
            assert(pair@ =~= seq![state.pile(dst).last(), taken(*state, src, n)[0]]);
            if !Self::valid_seq(dst, pair.as_slice()) {
                return Some(Error::InvalidMove { reason: "dst sequence is invalid" });
            }
        }
        None
    }

    /// Makes a move that [move_error] accepts between two different piles.
    fn apply_move(state: PlayingGameState, src: PileRef, take_n: usize, dst: PileRef) -> (r: MoveResult)
        requires
            move_error(state, src, take_n as int, dst) is None,
            src != dst,
        ensures
            move_result_ok(state, src, take_n as int, dst, r),
    {
        let ghost n = take_n as int;
        let src_stack = state.get_stack(src).unwrap();
        let (rest, take) = crate::pile::take_n_slice(src_stack.as_slice(), take_n);
        let mut new_src = from_slice(rest);
        let rest_len = new_src.len();
        if rest_len > 0 {
            let mut top = new_src[rest_len - 1];
            top.face_up = true;
            new_src.set(rest_len - 1, top);
        }
        assert(new_src@ =~= flip_top(remaining(state, src, n)));
        let dst_stack = state.get_stack(dst).unwrap();
        let mut new_dst = from_slice(dst_stack.as_slice());
        let mut moving = from_slice(take);
        new_dst.append(&mut moving);
        let ghost old_state = state;
        let mut new_state = state;
        set_pile(&mut new_state, src, new_src);
        let ghost mid = new_state;
        set_pile(&mut new_state, dst, new_dst);
        assert forall|q: PileRef| q.is_real() implies #[trigger] new_state.pile(q) == moved_pile(old_state, src, n, dst, q) by {
            if q == dst {
            } else if q == src {
                assert(mid.pile(q) == new_src@);
            } else {
                assert(mid.pile(q) == old_state.pile(q));
            }
        }
        assert(move_outcome(old_state, src, n, dst, new_state)) by {
            assert forall|i: int| 0 <= i < 7 implies (#[trigger] new_state.tableau[i])@ == moved_pile(old_state, src, n, dst, PileRef::Tableau(i as usize)) by {
                let q = PileRef::Tableau(i as usize);
                assert(q.is_real());
                assert(new_state.pile(q) == new_state.tableau[i]@);
            }
            assert forall|i: int| 0 <= i < 4 implies (#[trigger] new_state.foundations[i])@ == moved_pile(old_state, src, n, dst, PileRef::Foundation(i as usize)) by {
                let q = PileRef::Foundation(i as usize);
                assert(q.is_real());
                assert(new_state.pile(q) == new_state.foundations[i]@);
            }
            assert(new_state.pile(PileRef::Stock) == new_state.stock@);
            assert(new_state.pile(PileRef::Talon) == new_state.talon@);
        }
        match dst {
            PileRef::Foundation(_) => {
                let mut i: usize = 0;
                while i < 4
                    invariant
                        i <= 4,
                        dst is Foundation,
                        src != dst,
                        old_state == state,
                        n == take_n,
                        move_error(state, src, n, dst) is None,
                        move_outcome(old_state, src, n, dst, new_state),
                        forall|j: int| 0 <= j < i ==> (#[trigger] new_state.foundations[j])@.len() >= 13,
                    decreases 4 - i,
                {
                    if new_state.foundations[i].len() < 13 {
                        assert(!move_wins(old_state, src, n, dst)) by {
                            assert(new_state.foundations[i as int]@ == moved_pile(old_state, src, n, dst, PileRef::Foundation(i)));
                        }
                        return MoveResult::Playing(new_state);
                    }
                    i += 1;
                }
                assert(move_wins(old_state, src, n, dst)) by {
                    assert forall|j: int| 0 <= j < 4 implies #[trigger] moved_pile(old_state, src, n, dst, PileRef::Foundation(j as usize)).len() >= 13 by {
                        assert(new_state.foundations[j]@ == moved_pile(old_state, src, n, dst, PileRef::Foundation(j as usize)));
                    }
                }
                MoveResult::Win(WinGameState { foundations: new_state.foundations })
            },
            _ => MoveResult::Playing(new_state),
        }
    }

    /// Whether `cs`, given bottom to top, is a run that may be taken from or
    /// laid on the pile kind of `p`; see [run_valid].
    pub fn valid_seq(p: PileRef, cs: &[Card]) -> (r: bool)
        ensures
            r == run_valid(p, cs@),
    {
        let mut i: usize = 0;
        while i < cs.len()
            invariant
                i <= cs@.len(),
                forall|j: int| 0 <= j < i ==> (#[trigger] cs@[j]).face_up,
            decreases cs@.len() - i,
        {
            if !cs[i].face_up {
                assert(!all_up(cs@));
                return false;
            }
            i += 1;
        }
        match p {
            PileRef::Tableau(_) => {
                let mut i: usize = 1;
                while i < cs.len()
                    invariant
                        1 <= i,
                        i <= cs@.len() || cs@.len() == 0,
                        all_up(cs@),
                        forall|j: int| 0 <= j < i - 1 && j < cs@.len() - 1 ==> tableau_link(#[trigger] cs@[j], cs@[j + 1]),
                        p is Tableau,
                    decreases cs@.len() - i,
                {
                    let a = cs[i - 1];
                    let b = cs[i];
                    if a.suit.color() == b.suit.color() || a.rank.next() != Some(b.rank) {
                        assert(!tableau_link(cs@[i - 1], cs@[(i - 1) + 1]));
                        return false;
                    }
                    i += 1;
                }
                true
            },
            PileRef::Foundation(_) => {
                let mut i: usize = 1;
                while i < cs.len()
                    invariant
                        1 <= i,
                        i <= cs@.len() || cs@.len() == 0,
                        all_up(cs@),
                        forall|j: int| 0 <= j < i - 1 && j < cs@.len() - 1 ==> foundation_link(#[trigger] cs@[j], cs@[j + 1]),
                        p is Foundation,
                    decreases cs@.len() - i,
                {
                    let a = cs[i - 1];
                    let b = cs[i];
                    if a.suit != b.suit || a.rank.prev() != Some(b.rank) {
                        assert(!foundation_link(cs@[i - 1], cs@[(i - 1) + 1]));
                        return false;
                    }
                    i += 1;
                }
                true
            },
            PileRef::Stock => false,
            PileRef::Talon => true,
        }
    }
}

// ---------------------------------------------------------------------------
// Laws
// ---------------------------------------------------------------------------

/// Tableau and stock after `k` deal steps.
pub open spec fn deal_steps(tableau: Seq<Seq<Card>>, stock: Seq<Card>, k: nat) -> (Seq<Seq<Card>>, Seq<Card>)
    decreases k,
{
    if k == 0 {
        (tableau, stock)
    } else {
        let prev = deal_steps(tableau, stock, (k - 1) as nat);
        (deal_step(prev.0, prev.1), prev.1.drop_last())
    }
}

pub(crate) proof fn lemma_deal_steps_repeat(tableau: Seq<Seq<Card>>, stock: Seq<Card>, k: nat)
    requires
        25 <= stock.len() <= 52,
        k < stock.len() - 24,
    ensures
        deal_steps(tableau, stock, k).1 == stock.subrange(0, stock.len() - k),
        deal_repeat(deal_steps(tableau, stock, k).0, deal_steps(tableau, stock, k).1) == deal_repeat(tableau, stock),
    decreases k,
{
    if k > 0 {
        lemma_deal_steps_repeat(tableau, stock, (k - 1) as nat);
        let prev = deal_steps(tableau, stock, (k - 1) as nat);
        assert(prev.1.drop_last() =~= stock.subrange(0, stock.len() - k));
    } else {
        assert(stock.subrange(0, stock.len() as int) =~= stock);
    }
}

/// Calling [GameRules::deal_one] until it completes gives what
/// [GameRules::deal_all] gives: starting from any state it accepts, the
/// deal steps until 24 cards remain produce `deal_all`'s tableau and stock.
pub proof fn lemma_deal_one_until_complete(tableau: Seq<Seq<Card>>, stock: Seq<Card>)
    requires
        25 <= stock.len() <= 52,
    ensures
        deal_steps(tableau, stock, (stock.len() - 24) as nat) == (deal_repeat(tableau, stock), stock.subrange(0, 24)),
{
    let k = (stock.len() - 25) as nat;
    lemma_deal_steps_repeat(tableau, stock, k);
    let prev = deal_steps(tableau, stock, k);
    assert(prev.1.drop_last() =~= stock.subrange(0, 24));
    assert(deal_repeat(prev.0, prev.1) == deal_repeat(deal_step(prev.0, prev.1), prev.1.drop_last()));
    assert(((k + 1) as nat) == (stock.len() - 24) as nat);
}

/// Seven empty tableau piles.
pub open spec fn empty_tableau() -> Seq<Seq<Card>> {
    Seq::new(7, |i: int| Seq::<Card>::empty())
}

/// The deal index at which round `j` gives pile `i` its card.
pub open spec fn deal_index(j: int, i: int) -> int {
    round_start(j) + i - j
}

/// How many cards pile `i` holds after `k` deals from an empty tableau.
spec fn dealt_count(i: int, k: int) -> int {
    if k >= 28 {
        i + 1
    } else {
        let r = deal_round(k);
        let c = deal_column(k);
        (if i < r {
            i + 1
        } else {
            r
        }) + (if r <= i < c {
            1int
        } else {
            0
        })
    }
}

/// After `k` deals from `stock0` onto an empty tableau, pile `i` holds the
/// cards that rounds `0..dealt_count(i, k)` gave it.
spec fn dealt_shape(tab: Seq<Seq<Card>>, stock0: Seq<Card>, k: int) -> bool {
    &&& tab.len() == 7
    &&& forall|i: int| 0 <= i < 7 ==> (#[trigger] tab[i]).len() == dealt_count(i, k)
    &&& forall|i: int, j: int|
        0 <= i < 7 && 0 <= j < dealt_count(i, k) ==> #[trigger] tab[i][j] == dealt_card(
            stock0,
            deal_index(j, i),
        )
}

proof fn lemma_round_starts()
    ensures
        round_start(0) == 0,
        round_start(1) == 7,
        round_start(2) == 13,
        round_start(3) == 18,
        round_start(4) == 22,
        round_start(5) == 25,
        round_start(6) == 27,
        round_start(7) == 28,
{
}

proof fn lemma_count_step(i: int, k: int)
    requires
        0 <= i < 7,
        0 <= k < 28,
    ensures
        i == deal_column(k) ==> dealt_count(i, k) == deal_round(k) && dealt_count(i, k + 1)
            == deal_round(k) + 1,
        i != deal_column(k) ==> dealt_count(i, k + 1) == dealt_count(i, k),
        0 <= dealt_count(i, k) <= i + 1,
{
    lemma_round_starts();
    lemma_round_bounds(k);
    if k + 1 < 28 {
        lemma_round_bounds(k + 1);
    }
}

/// Round `j` gives pile `i` (for `j <= i`) the card with index
/// `deal_index(j, i)`, and that index belongs to round `j` and pile `i`.
proof fn lemma_deal_index(j: int, i: int)
    requires
        0 <= j <= i < 7,
    ensures
        0 <= deal_index(j, i) < 28,
        deal_round(deal_index(j, i)) == j,
        deal_column(deal_index(j, i)) == i,
{
    lemma_round_starts();
    assert(round_start(j + 1) == round_start(j) + 7 - j) by (nonlinear_arith);
    assert(0 <= round_start(j) <= 27) by {
        if j == 0 {
        } else if j == 1 {
        } else if j == 2 {
        } else if j == 3 {
        } else if j == 4 {
        } else if j == 5 {
        } else {
        }
    }
    lemma_round_unique(deal_index(j, i), j);
}

proof fn lemma_deal_shape(tab: Seq<Seq<Card>>, stock0: Seq<Card>, k: int)
    requires
        0 <= k <= 28,
        stock0.len() == 52,
        dealt_shape(tab, stock0, k),
    ensures
        dealt_shape(deal_repeat(tab, stock0.subrange(0, 52 - k)), stock0, 28),
    decreases 28 - k,
{
    let stock = stock0.subrange(0, 52 - k);
    if k < 28 {
        let next = deal_step(tab, stock);
        let c = deal_column(k);
        lemma_round_bounds(k);
        assert(stock.drop_last() =~= stock0.subrange(0, 52 - (k + 1)));
        assert(dealt_card(stock, k) == dealt_card(stock0, k));
        assert forall|i: int| 0 <= i < 7 implies (#[trigger] next[i]).len() == dealt_count(i, k + 1) by {
            lemma_count_step(i, k);
        }
        assert forall|i: int, j: int|
            0 <= i < 7 && 0 <= j < dealt_count(i, k + 1) implies #[trigger] next[i][j] == dealt_card(
            stock0,
            deal_index(j, i),
        ) by {
            lemma_count_step(i, k);
            if i == c && j == deal_round(k) {
                assert(deal_index(j, i) == k);
            }
        }
        lemma_deal_shape(next, stock0, k + 1);
    }
}

/// The deal gives each of the top 28 deck positions to exactly one tableau
/// slot: deal index `d` goes to round `deal_round(d)` of pile
/// `deal_column(d)`, and slot (round `j`, pile `i`, `j <= i`) receives deal
/// index `deal_index(j, i)` and no other. With [lemma_full_deal] this says
/// that a full deal holds every card of the deck once, the other 24 staying
/// in the stock.
pub proof fn lemma_deal_covers_deck()
    ensures
        forall|d: int|
            0 <= d < 28 ==> 0 <= #[trigger] deal_round(d) <= deal_column(d) < 7 && deal_index(
                deal_round(d),
                deal_column(d),
            ) == d,
        forall|j: int, i: int|
            0 <= j <= i < 7 ==> 0 <= #[trigger] deal_index(j, i) < 28 && deal_round(deal_index(j, i)) == j
                && deal_column(deal_index(j, i)) == i,
{
    assert forall|d: int| 0 <= d < 28 implies 0 <= #[trigger] deal_round(d) <= deal_column(d) < 7 && deal_index(
        deal_round(d),
        deal_column(d),
    ) == d by {
        lemma_round_bounds(d);
    }
    assert forall|j: int, i: int| 0 <= j <= i < 7 implies 0 <= #[trigger] deal_index(j, i) < 28 && deal_round(
        deal_index(j, i),
    ) == j && deal_column(deal_index(j, i)) == i by {
        lemma_deal_index(j, i);
    }
}

/// The sum of the pile sizes of a tableau.
pub open spec fn tableau_total(t: Seq<Seq<Card>>, k: int) -> int
    decreases k,
{
    if k <= 0 {
        0
    } else {
        tableau_total(t, k - 1) + t[k - 1].len()
    }
}

/// A full deal onto an empty tableau, from a stock of 52 cards: pile `i`
/// holds `i + 1` cards, the card that round `j` gave it from the deck's
/// position `51 - deal_index(j, i)`; only its top card is face up; the
/// tableau holds 28 cards, so that with the 24 left in the stock all 52
/// are accounted for.
pub proof fn lemma_full_deal(stock: Seq<Card>)
    requires
        stock.len() == 52,
    ensures
        deal_repeat(empty_tableau(), stock).len() == 7,
        forall|i: int| 0 <= i < 7 ==> (#[trigger] deal_repeat(empty_tableau(), stock)[i]).len() == i + 1,
        forall|i: int, j: int|
            0 <= j <= i < 7 ==> #[trigger] deal_repeat(empty_tableau(), stock)[i][j] == turned(
                stock[51 - deal_index(j, i)],
                j == i,
            ),
        forall|i: int, j: int|
            0 <= j <= i < 7 ==> (#[trigger] deal_repeat(empty_tableau(), stock)[i][j].face_up <==> j
                == i),
        tableau_total(deal_repeat(empty_tableau(), stock), 7) + 24 == 52,
{
    let t = deal_repeat(empty_tableau(), stock);
    assert forall|i: int| 0 <= i < 7 implies (#[trigger] empty_tableau()[i]).len() == dealt_count(i, 0) by {
        lemma_count_step(i, 0);
        lemma_round_starts();
    }
    assert(stock.subrange(0, 52) =~= stock);
    lemma_deal_shape(empty_tableau(), stock, 0);
    assert forall|i: int, j: int| 0 <= j <= i < 7 implies #[trigger] t[i][j] == turned(
        stock[51 - deal_index(j, i)],
        j == i,
    ) by {
        lemma_deal_index(j, i);
    }
    assert(tableau_total(t, 7) == 28) by {
        assert(t[0].len() == dealt_count(0, 28));
        assert(t[1].len() == dealt_count(1, 28));
        assert(t[2].len() == dealt_count(2, 28));
        assert(t[3].len() == dealt_count(3, 28));
        assert(t[4].len() == dealt_count(4, 28));
        assert(t[5].len() == dealt_count(5, 28));
        assert(t[6].len() == dealt_count(6, 28));
        assert(tableau_total(t, 0) == 0);
        assert(tableau_total(t, 1) == 1);
        assert(tableau_total(t, 2) == 3);
        assert(tableau_total(t, 3) == 6);
        assert(tableau_total(t, 4) == 10);
        assert(tableau_total(t, 5) == 15);
        assert(tableau_total(t, 6) == 21);
    }
}

/// One single-card draw on a (stock, talon) pair; see [draw_result].
pub open spec fn draw_one_pair(p: (Seq<Card>, Seq<Card>)) -> (Seq<Card>, Seq<Card>) {
    if p.0.len() == 0 {
        (recycled(p.1), Seq::empty())
    } else {
        (p.0.drop_last(), p.1.push(turned(p.0.last(), true)))
    }
}

/// `k` single-card draws on a (stock, talon) pair.
pub open spec fn draw_repeat(p: (Seq<Card>, Seq<Card>), k: nat) -> (Seq<Card>, Seq<Card>)
    decreases k,
{
    if k == 0 {
        p
    } else {
        draw_repeat(draw_one_pair(p), (k - 1) as nat)
    }
}

/// The top `k` cards of `stock`, from the top down, turned face up.
pub open spec fn drawn_up(stock: Seq<Card>, k: int) -> Seq<Card> {
    Seq::new(k as nat, |i: int| turned(stock[stock.len() - 1 - i], true))
}

/// A single-card draw acts on stock and talon as [draw_one_pair] says and
/// leaves the other piles alone.
pub proof fn lemma_draw_one(s: PlayingGameState, t: PlayingGameState)
    requires
        draw_result(s, 1, t),
    ensures
        (t.stock@, t.talon@) == draw_one_pair((s.stock@, s.talon@)),
        t.tableau == s.tableau,
        t.foundations == s.foundations,
{
    if s.stock@.len() > 0 {
        let len = s.stock@.len() as int;
        assert(s.stock@.subrange(0, len - 1) =~= s.stock@.drop_last());
        assert(all_face_up(s.stock@.subrange(len - 1, len)) =~= seq![turned(s.stock@.last(), true)]);
        assert(s.talon@ + seq![turned(s.stock@.last(), true)] =~= s.talon@.push(turned(s.stock@.last(), true)));
    } else {
        assert(t.talon@ =~= Seq::<Card>::empty());
    }
}

/// Successive single-card draws: when each state of `states` is what
/// [GameRules::draw_stock] with `n = 1` gives from the one before, the stock
/// and talon of the last are [draw_repeat] applied to those of the first.
pub proof fn lemma_draw_chain(states: Seq<PlayingGameState>)
    requires
        states.len() >= 1,
        forall|i: int| 0 <= i < states.len() - 1 ==> draw_result(#[trigger] states[i], 1, states[i + 1]),
    ensures
        (states.last().stock@, states.last().talon@) == draw_repeat(
            (states[0].stock@, states[0].talon@),
            (states.len() - 1) as nat,
        ),
    decreases states.len(),
{
    if states.len() > 1 {
        let rest = states.drop_first();
        assert forall|i: int| 0 <= i < rest.len() - 1 implies draw_result(#[trigger] rest[i], 1, rest[i + 1]) by {
            assert(rest[i] == states[i + 1]);
            assert(draw_result(states[i + 1], 1, states[i + 2]));
        }
        lemma_draw_chain(rest);
        lemma_draw_one(states[0], states[1]);
        assert(rest.last() == states.last());
        assert(((states.len() - 1) as nat - 1) as nat == (rest.len() - 1) as nat);
    }
}

proof fn lemma_draws_from_stock(stock: Seq<Card>, talon: Seq<Card>, k: nat)
    requires
        k <= stock.len(),
    ensures
        draw_repeat((stock, talon), k) == (stock.subrange(0, stock.len() - k), talon + drawn_up(stock, k as int)),
    decreases k,
{
    if k == 0 {
        assert(stock.subrange(0, stock.len() as int) =~= stock);
        assert(talon + drawn_up(stock, 0) =~= talon);
    } else {
        let next = draw_one_pair((stock, talon));
        lemma_draws_from_stock(next.0, next.1, (k - 1) as nat);
        assert(next.0.subrange(0, next.0.len() - (k - 1)) =~= stock.subrange(0, stock.len() - k));
        assert(next.1 + drawn_up(next.0, k - 1) =~= talon + drawn_up(stock, k as int));
    }
}

/// Drawing one card at a time from `stock` onto an empty talon until the
/// stock runs out leaves a talon that, read from the top down, is the
/// stock in the order it had (turned face up); one more draw turns the
/// talon over into a stock that is the starting one again, with every card
/// face down, and an empty talon.
pub proof fn lemma_draw_cycle(stock: Seq<Card>)
    ensures
        draw_repeat((stock, Seq::empty()), stock.len()).0.len() == 0,
        draw_repeat((stock, Seq::empty()), stock.len()).1 == drawn_up(stock, stock.len() as int),
        forall|i: int|
            0 <= i < stock.len() ==> same_card(
                #[trigger] draw_repeat((stock, Seq::empty()), stock.len()).1[stock.len() - 1 - i],
                stock[i],
            ),
        draw_repeat((stock, Seq::empty()), stock.len() + 1) == (
            Seq::new(stock.len(), |i: int| turned(stock[i], false)),
            Seq::<Card>::empty(),
        ),
{
    let n = stock.len();
    lemma_draws_from_stock(stock, Seq::empty(), n);
    assert(Seq::<Card>::empty() + drawn_up(stock, n as int) =~= drawn_up(stock, n as int));
    let full = draw_repeat((stock, Seq::empty()), n);
    assert(full.0 =~= Seq::<Card>::empty());
    lemma_draw_repeat_split((stock, Seq::empty()), n);
    assert(recycled(drawn_up(stock, n as int)) =~= Seq::new(n, |i: int| turned(stock[i], false)));
}

proof fn lemma_draw_repeat_split(p: (Seq<Card>, Seq<Card>), n: nat)
    ensures
        draw_repeat(p, n + 1) == draw_one_pair(draw_repeat(p, n)),
    decreases n,
{
    let q = draw_one_pair(p);
    assert(draw_repeat(p, n + 1) == draw_repeat(q, n));
    if n > 0 {
        lemma_draw_repeat_split(q, (n - 1) as nat);
        assert(draw_repeat(p, n) == draw_repeat(q, (n - 1) as nat));
    } else {
        assert(draw_repeat(q, 0) == q);
    }
}

/// Taking no cards is always refused, as malformed, whatever the piles.
pub proof fn lemma_take_zero(s: PlayingGameState, src: PileRef, dst: PileRef, r: Result<MoveResult, Error>)
    ensures
        move_spec(s, src, 0, dst, r) <==> r == Err::<MoveResult, Error>(
            invalid_input("take_n", "cannot take 0 cards"),
        ),
{
}

/// Moving cards from a pile onto itself, where the request is well formed
/// (at least one card; a tableau pile, or a foundation with one card),
/// always succeeds and changes nothing.
pub proof fn lemma_move_to_self(s: PlayingGameState, p: PileRef, n: int, r: Result<MoveResult, Error>)
    requires
        n >= 1,
        p is Tableau || (p is Foundation && n == 1),
    ensures
        move_spec(s, p, n, p, r) <==> r == Ok::<MoveResult, Error>(MoveResult::Playing(s)),
{
}

/// Onto an empty tableau pile a single face-up card moves if and only if
/// it is a King; any other rank is refused as an invalid move.
pub proof fn lemma_onto_empty_tableau(s: PlayingGameState, src: PileRef, i: usize)
    requires
        src is Talon || ((src is Tableau || src is Foundation) && src.is_real()),
        i < 7,
        src != PileRef::Tableau(i),
        s.tableau[i as int]@.len() == 0,
        s.pile(src).len() >= 1,
        s.pile(src).last().face_up,
    ensures
        s.pile(src).last().rank == Rank::King ==> move_error(s, src, 1, PileRef::Tableau(i)) is None,
        s.pile(src).last().rank != Rank::King ==> move_error(s, src, 1, PileRef::Tableau(i)) == Some(
            invalid_move("can only move a King to a space"),
        ),
{
    let t = taken(s, src, 1);
    assert(t =~= seq![s.pile(src).last()]);
}

/// Onto an empty foundation a single face-up card moves if and only if it
/// is an Ace; any other rank is refused as an invalid move.
pub proof fn lemma_onto_empty_foundation(s: PlayingGameState, src: PileRef, i: usize)
    requires
        src is Talon || ((src is Tableau || src is Foundation) && src.is_real()),
        i < 4,
        src != PileRef::Foundation(i),
        s.foundations[i as int]@.len() == 0,
        s.pile(src).len() >= 1,
        s.pile(src).last().face_up,
    ensures
        s.pile(src).last().rank == Rank::Ace ==> move_error(s, src, 1, PileRef::Foundation(i)) is None,
        s.pile(src).last().rank != Rank::Ace ==> move_error(s, src, 1, PileRef::Foundation(i)) == Some(
            invalid_move("dst sequence is invalid"),
        ),
{
    let t = taken(s, src, 1);
    assert(t =~= seq![s.pile(src).last()]);
}

/// A run with a face-down card in it is never valid, whatever the pile.
pub proof fn lemma_face_down_run(p: PileRef, cs: Seq<Card>, i: int)
    requires
        0 <= i < cs.len(),
        !cs[i].face_up,
    ensures
        !run_valid(p, cs),
{
}

/// An Ace is always safe to move to a foundation; a Two is safe exactly when
/// its suit's foundation shows the Ace; a black Three is safe only when
/// exactly two foundations show a red card and each of them has reached at
/// least a Two.
pub proof fn lemma_safety(card: Card, f: Seq<Seq<Card>>)
    ensures
        card.rank == Rank::Ace ==> safe_for_foundation(card, f),
        card.rank == Rank::Two ==> (safe_for_foundation(card, f) <==> has_home(card, f)),
        card.rank == Rank::Three && card.suit.spec_color() == Color::Black && safe_for_foundation(card, f)
            ==> count_opposite(card, f, 4) == 2 && forall|i: int|
            0 <= i < 4 && #[trigger] opposite_top(card, f[i]) ==> f[i].last().suit.spec_color() == Color::Red
                && f[i].last().rank.value() >= 2,
{
}

} // verus!
