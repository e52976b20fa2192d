//! The interaction state machine: turns a stream of input events into
//! calls of the rules engine and into cursor and selection states.
use crate::card::Card;
use crate::event::Modifiers;
use crate::game_state::{GameStateOption, InitialGameState, PileRef, PlayingGameState};
use crate::klondike::{
    auto_moves, deal_repeat, deal_step, deal_steps, draw_result, fresh_play, lemma_deal_steps_repeat,
    move_spec, GameRules,
};
use crate::game_state::{piles7, DealResult, Error, MoveResult};
use vstd::prelude::*;

verus! {

/// A span of time, in microseconds.
#[derive(Debug, Copy, Clone, PartialEq, Eq, Structural)]
pub struct Duration {
    pub micros: u64,
}

impl Duration {
    /// `ms` milliseconds.
    pub fn from_millis(ms: u64) -> (r: Duration)
        requires
            ms <= u64::MAX / 1000,
        ensures
            r.micros == ms * 1000,
    {
        Duration { micros: ms * 1000 }
    }

    /// `us` microseconds.
    pub fn from_micros(us: u64) -> (r: Duration)
        ensures
            r.micros == us,
    {
        Duration { micros: us }
    }
}

/// The time between two deals while dealing: 100 ms.
pub const DEAL_INTERVAL: u64 = 100_000;

/// The pause before the first automatic move: 300 ms.
pub const INITIAL_DELAY: u64 = 300_000;

/// The time between the first two automatic moves: 400 ms.
pub const INITIAL_MOVE_INTERVAL: u64 = 400_000;

/// How much shorter each following interval gets: 25 ms.
pub const MOVE_INTERVAL_DECREASE: u64 = 25_000;

/// The shortest interval between automatic moves: 50 ms.
pub const MIN_MOVE_INTERVAL: u64 = 50_000;

/// An arrow direction.
#[derive(Debug, Copy, Clone, PartialEq, Eq, Structural)]
pub enum Direction {
    Up,
    Down,
    Left,
    Right,
}

/// Where on the table a click landed: a pile, and for a tableau pile how
/// many cards lie above the clicked one.
#[derive(Debug, Copy, Clone, PartialEq, Eq, Structural)]
pub enum CardLocation {
    Tableau(usize, usize),
    Foundation(usize),
    Stock,
    Talon,
}

impl CardLocation {
    pub open spec fn spec_pile_ref(self) -> PileRef {
        match self {
            CardLocation::Tableau(p, _) => PileRef::Tableau(p),
            CardLocation::Foundation(p) => PileRef::Foundation(p),
            CardLocation::Stock => PileRef::Stock,
            CardLocation::Talon => PileRef::Talon,
        }
    }

    /// The pile clicked.
    pub fn pile_ref(&self) -> (r: PileRef)
        ensures
            r == self.spec_pile_ref(),
    {
        match self {
            CardLocation::Tableau(p, _) => PileRef::Tableau(*p),
            CardLocation::Foundation(p) => PileRef::Foundation(*p),
            CardLocation::Stock => PileRef::Stock,
            CardLocation::Talon => PileRef::Talon,
        }
    }

    /// For a tableau card, how many cards lie above it.
    pub fn n_from_bottom(&self) -> (r: Option<usize>)
        ensures
            r == match self {
                CardLocation::Tableau(_, n) => Some(*n),
                _ => None::<usize>,
            },
    {
        match self {
            CardLocation::Tableau(_, n) => Some(*n),
            _ => None,
        }
    }
}

/// The events the interaction layer reacts to.
#[derive(Debug, Copy, Clone, PartialEq, Eq, Structural)]
pub enum Event {
    /// Time has passed.
    Tick(Duration),
    /// An arrow, with the modifiers held.
    Direction { dir: Direction, modifier: Modifiers },
    /// Act on the pile under the cursor.
    Interact,
    /// Jump to a numbered pile.
    Goto(u8),
    /// Abandon the current selection or move.
    Cancel,
    /// A click, on a card or on nothing.
    Click(Option<CardLocation>),
}

/// Cards being dealt onto the tableau, one every [DEAL_INTERVAL].
#[derive(Debug, Copy, Clone, PartialEq, Eq, Structural)]
pub struct DealingState {
    pub since_last_deal: Duration,
}

/// The cursor rests on a pile.
pub type HoveringState = PileRef;

/// Cards picked up: a run from a tableau pile, or the talon's top card.
#[derive(Debug, Copy, Clone, PartialEq, Eq, Structural)]
pub enum SelectingState {
    Tableau { pile_n: usize, take_n: usize },
    Talon,
}

/// A move being aimed: `take_n` cards from `src` to `dst`.
#[derive(Debug, Copy, Clone, PartialEq, Eq, Structural)]
pub struct MovingState {
    pub src: PileRef,
    pub take_n: usize,
    pub dst: PileRef,
}

/// Safe cards going to the foundations on their own, faster and faster;
/// input is ignored meanwhile.
#[derive(Debug, Copy, Clone, PartialEq, Eq, Structural)]
pub struct AutoMovingState {
    pub since_last_move: Duration,
    pub interval: Duration,
    pub prev_pile_ref: PileRef,
}

/// The interaction state.
#[derive(Debug, Copy, Clone, PartialEq, Eq, Structural)]
pub enum UIState {
    Dealing(DealingState),
    Hovering(HoveringState),
    Selecting(SelectingState),
    Moving(MovingState),
    AutoMoving(AutoMovingState),
}

impl DealingState {
    /// Dealing from the start.
    pub fn new() -> (r: DealingState)
        ensures
            r.since_last_deal.micros == 0,
    {
        DealingState { since_last_deal: Duration { micros: 0 } }
    }
}

impl AutoMovingState {
    pub open spec fn spec_new(prev_pile_ref: PileRef) -> AutoMovingState {
        AutoMovingState {
            since_last_move: Duration { micros: (INITIAL_MOVE_INTERVAL - INITIAL_DELAY) as u64 },
            interval: Duration { micros: INITIAL_MOVE_INTERVAL },
            prev_pile_ref,
        }
    }

    /// Automatic moving about to start; the cursor goes back to
    /// `prev_pile_ref` when it ends.
    pub fn new(prev_pile_ref: PileRef) -> (r: AutoMovingState)
        ensures
            r == AutoMovingState::spec_new(prev_pile_ref),
    {
        AutoMovingState {
            since_last_move: Duration { micros: INITIAL_MOVE_INTERVAL - INITIAL_DELAY },
            interval: Duration { micros: INITIAL_MOVE_INTERVAL },
            prev_pile_ref,
        }
    }

    /// The interval is never shorter than the floor, and the elapsed time
    /// never reaches it.
    pub open spec fn wf(self) -> bool {
        &&& self.prev_pile_ref.is_real()
        &&& MIN_MOVE_INTERVAL <= self.interval.micros <= INITIAL_MOVE_INTERVAL
        &&& self.since_last_move.micros < self.interval.micros
    }
}

impl SelectingState {
    pub open spec fn wf(self) -> bool {
        match self {
            SelectingState::Tableau { pile_n, take_n } => pile_n < 7 && take_n >= 1,
            SelectingState::Talon => true,
        }
    }
}

impl UIState {
    /// Every pile the state names exists in a game in play.
    pub open spec fn wf(self) -> bool {
        match self {
            UIState::Dealing(_) => true,
            UIState::Hovering(p) => p.is_real(),
            UIState::Selecting(s) => s.wf(),
            UIState::Moving(m) => m.src.is_real() && m.dst.is_real() && m.take_n >= 1,
            UIState::AutoMoving(a) => a.wf(),
        }
    }
}

impl GameStateOption {
    /// A game being dealt has between 25 and 52 cards in its stock.
    pub open spec fn wf(self) -> bool {
        self matches GameStateOption::Initial(s) ==> 25 <= s.stock@.len() <= 52
    }
}

// ---------------------------------------------------------------------------
// Navigation
// ---------------------------------------------------------------------------

/// Where an arrow takes the cursor from pile `p`. The top row is stock,
/// talon, then the four foundations above tableau piles 3 to 6; moves off
/// the edge stay put.
pub open spec fn spec_hover_nav(p: PileRef, dir: Direction) -> PileRef {
    match p {
        PileRef::Stock => match dir {
            Direction::Right => PileRef::Talon,
            Direction::Down => PileRef::Tableau(0),
            _ => p,
        },
        PileRef::Talon => match dir {
            Direction::Up => p,
            Direction::Left => PileRef::Stock,
            Direction::Right => PileRef::Foundation(0),
            Direction::Down => PileRef::Tableau(1),
        },
        PileRef::Foundation(n) => match dir {
            Direction::Up => p,
            Direction::Left => if n == 0 {
                PileRef::Talon
            } else {
                PileRef::Foundation((n - 1) as usize)
            },
            Direction::Right => if n == 3 {
                p
            } else {
                PileRef::Foundation((n + 1) as usize)
            },
            Direction::Down => PileRef::Tableau((n + 3) as usize),
        },
        PileRef::Tableau(n) => match dir {
            Direction::Down => p,
            Direction::Up => if n == 0 {
                PileRef::Stock
            } else if n <= 2 {
                PileRef::Talon
            } else {
                PileRef::Foundation((n - 3) as usize)
            },
            Direction::Left => if n == 0 {
                p
            } else {
                PileRef::Tableau((n - 1) as usize)
            },
            Direction::Right => if n == 6 {
                p
            } else {
                PileRef::Tableau((n + 1) as usize)
            },
        },
    }
}

/// Moves the cursor from `p` by an arrow; see [spec_hover_nav].
pub fn hover_nav(p: PileRef, dir: Direction) -> (r: PileRef)
    requires
        p.is_real(),
    ensures
        r == spec_hover_nav(p, dir),
        r.is_real(),
{
    match p {
        PileRef::Stock => match dir {
            Direction::Right => PileRef::Talon,
            Direction::Down => PileRef::Tableau(0),
            _ => p,
        },
        PileRef::Talon => match dir {
            Direction::Up => p,
            Direction::Left => PileRef::Stock,
            Direction::Right => PileRef::Foundation(0),
            Direction::Down => PileRef::Tableau(1),
        },
        PileRef::Foundation(n) => match dir {
            Direction::Up => p,
            Direction::Left => if n == 0 {
                PileRef::Talon
            } else {
                PileRef::Foundation(n - 1)
            },
            Direction::Right => if n == 3 {
                p
            } else {
                PileRef::Foundation(n + 1)
            },
            Direction::Down => PileRef::Tableau(n + 3),
        },
        PileRef::Tableau(n) => match dir {
            Direction::Down => p,
            Direction::Up => if n == 0 {
                PileRef::Stock
            } else if n <= 2 {
                PileRef::Talon
            } else {
                PileRef::Foundation(n - 3)
            },
            Direction::Left => if n == 0 {
                p
            } else {
                PileRef::Tableau(n - 1)
            },
            Direction::Right => if n == 6 {
                p
            } else {
                PileRef::Tableau(n + 1)
            },
        },
    }
}

/// Where an arrow takes the destination of a move of `take_n` cards: the
/// same graph as the cursor's, except that nothing goes up to the stock or
/// talon, and a foundation is reachable only for a single card.
pub open spec fn spec_retarget(dst: PileRef, take_n: usize, dir: Direction) -> PileRef {
    match dst {
        PileRef::Stock => match dir {
            Direction::Right => PileRef::Foundation(0),
            Direction::Down => PileRef::Tableau(0),
            _ => dst,
        },
        PileRef::Tableau(n) => match dir {
            Direction::Up => if take_n == 1 && n > 2 {
                PileRef::Foundation((n - 3) as usize)
            } else {
                dst
            },
            Direction::Left => if n == 0 {
                dst
            } else {
                PileRef::Tableau((n - 1) as usize)
            },
            Direction::Right => if n == 6 {
                dst
            } else {
                PileRef::Tableau((n + 1) as usize)
            },
            Direction::Down => dst,
        },
        PileRef::Foundation(n) => match dir {
            Direction::Left => if n == 0 {
                dst
            } else {
                PileRef::Foundation((n - 1) as usize)
            },
            _ => spec_hover_nav(dst, dir),
        },
        PileRef::Talon => match dir {
            Direction::Left => dst,
            _ => spec_hover_nav(dst, dir),
        },
    }
}

/// Moves the destination of a move by an arrow; see [spec_retarget].
pub fn retarget(dst: PileRef, take_n: usize, dir: Direction) -> (r: PileRef)
    requires
        dst.is_real(),
    ensures
        r == spec_retarget(dst, take_n, dir),
        r.is_real(),
{
    match dst {
        PileRef::Stock => match dir {
            Direction::Right => PileRef::Foundation(0),
            Direction::Down => PileRef::Tableau(0),
            _ => dst,
        },
        PileRef::Tableau(n) => match dir {
            Direction::Up => if take_n == 1 && n > 2 {
                PileRef::Foundation(n - 3)
            } else {
                dst
            },
            Direction::Left => if n == 0 {
                dst
            } else {
                PileRef::Tableau(n - 1)
            },
            Direction::Right => if n == 6 {
                dst
            } else {
                PileRef::Tableau(n + 1)
            },
            Direction::Down => dst,
        },
        PileRef::Foundation(n) => match dir {
            Direction::Left => if n == 0 {
                dst
            } else {
                PileRef::Foundation(n - 1)
            },
            _ => hover_nav(dst, dir),
        },
        PileRef::Talon => match dir {
            Direction::Left => dst,
            _ => hover_nav(dst, dir),
        },
    }
}

/// The pile a Goto key names: 1 the stock, 2 the talon, 3 to 6 the
/// foundations; other keys name none.
pub open spec fn spec_goto(i: u8) -> Option<PileRef> {
    if i == 1 {
        Some(PileRef::Stock)
    } else if i == 2 {
        Some(PileRef::Talon)
    } else if 3 <= i <= 6 {
        Some(PileRef::Foundation((i - 3) as usize))
    } else {
        None
    }
}

/// The pile a Goto key names; see [spec_goto].
pub fn goto_pile(i: u8) -> (r: Option<PileRef>)
    ensures
        r == spec_goto(i),
        r matches Some(p) ==> p.is_real(),
{
    if i == 1 {
        Some(PileRef::Stock)
    } else if i == 2 {
        Some(PileRef::Talon)
    } else if 3 <= i && i <= 6 {
        Some(PileRef::Foundation((i - 3) as usize))
    } else {
        None
    }
}

// ---------------------------------------------------------------------------
// Effects on the game
// ---------------------------------------------------------------------------

/// The game state that a move result stands for.
pub open spec fn option_of(m: MoveResult) -> GameStateOption {
    match m {
        MoveResult::Playing(s) => GameStateOption::Playing(s),
        MoveResult::Win(w) => GameStateOption::Win(w),
    }
}

/// After the game changed to `g`: automatic moving (returning to
/// `auto_pile`) when a safe card is waiting, else hovering over `hover_pile`.
pub open spec fn after_change(g: GameStateOption, auto_pile: PileRef, hover_pile: PileRef) -> UIState {
    if g matches GameStateOption::Playing(t) && auto_moves(t) {
        UIState::AutoMoving(AutoMovingState::spec_new(auto_pile))
    } else {
        UIState::Hovering(hover_pile)
    }
}

/// `g1` is `s` after drawing one card.
pub open spec fn drew(s: PlayingGameState, g1: GameStateOption) -> bool {
    g1 matches GameStateOption::Playing(t) && draw_result(s, 1, t)
}

/// `g1` is `s` after an automatic move of `n` cards from `src`, which
/// succeeded exactly when `ok`; a failed one leaves the game as it was.
pub open spec fn auto_moved(s: PlayingGameState, src: PileRef, n: int, g1: GameStateOption, ok: bool) -> bool {
    exists|r: Result<MoveResult, Error>|
        #![trigger crate::klondike::auto_move_spec(s, src, n, r)]
        crate::klondike::auto_move_spec(s, src, n, r) && (ok <==> r is Ok) && (r matches Ok(m) ==> g1
            == option_of(m)) && (r is Err ==> g1 == GameStateOption::Playing(s))
}

/// `g1` is `s` after moving `n` cards from `src` to `dst`, which succeeded
/// exactly when `ok`; a failed move leaves the game as it was.
pub open spec fn moved(s: PlayingGameState, src: PileRef, n: int, dst: PileRef, g1: GameStateOption, ok: bool) -> bool {
    exists|r: Result<MoveResult, Error>|
        #![trigger move_spec(s, src, n, dst, r)]
        move_spec(s, src, n, dst, r) && (ok <==> r is Ok) && (r matches Ok(m) ==> g1 == option_of(m))
            && (r is Err ==> g1 == GameStateOption::Playing(s))
}

fn option_from(m: MoveResult) -> (r: GameStateOption)
    ensures
        r == option_of(m),
{
    match m {
        MoveResult::Playing(s) => GameStateOption::Playing(s),
        MoveResult::Win(w) => GameStateOption::Win(w),
    }
}

/// Takes the game out of `game`, leaving a placeholder to be overwritten.
fn take_game(game: &mut GameStateOption) -> (r: GameStateOption)
    ensures
        r == *old(game),
{
    let mut out = GameStateOption::Win(
        crate::game_state::WinGameState { foundations: crate::game_state::empty4() },
    );
    std::mem::swap(game, &mut out);
    out
}

/// The state to enter once the game has changed; see [after_change].
fn settle(game: &GameStateOption, auto_pile: PileRef, hover_pile: PileRef) -> (r: UIState)
    ensures
        r == after_change(*game, auto_pile, hover_pile),
{
    match game {
        GameStateOption::Playing(t) => if GameRules::can_auto_move(t) {
            UIState::AutoMoving(AutoMovingState::new(auto_pile))
        } else {
            UIState::Hovering(hover_pile)
        },
        _ => UIState::Hovering(hover_pile),
    }
}

/// Draws one card when the game is in play; reports whether it was.
fn try_draw(game: &mut GameStateOption) -> (played: bool)
    ensures
        played == (*old(game) is Playing),
        *old(game) matches GameStateOption::Playing(s) ==> drew(s, *final(game)),
        !played ==> *final(game) == *old(game),
{
    let g = take_game(game);
    match g {
        GameStateOption::Playing(p) => {
            let t = GameRules::draw_stock(p, 1).unwrap();
            *game = GameStateOption::Playing(t);
            true
        },
        other => {
            *game = other;
            false
        },
    }
}

/// Moves `n` cards from `src` automatically when the game is in play;
/// reports whether the move succeeded.
fn try_auto_move(game: &mut GameStateOption, src: PileRef, n: usize) -> (ok: bool)
    ensures
        *old(game) matches GameStateOption::Playing(s) ==> auto_moved(s, src, n as int, *final(game), ok),
        !(*old(game) is Playing) ==> !ok && *final(game) == *old(game),
{
    let g = take_game(game);
    match g {
        GameStateOption::Playing(p) => {
            let ghost s = p;
            if let PileRef::Foundation(_) = src {
                *game = GameStateOption::Playing(p);
                assert(crate::klondike::auto_move_spec(s, src, n as int, Ok(MoveResult::Playing(s))));
                return true;
            }
            match GameRules::find_auto_target(&p, src, n) {
                Err(e) => {
                    *game = GameStateOption::Playing(p);
                    assert(crate::klondike::auto_move_spec(s, src, n as int, Err(e)));
                    false
                },
                Ok(None) => {
                    *game = GameStateOption::Playing(p);
                    assert(crate::klondike::auto_move_spec(s, src, n as int, Ok(MoveResult::Playing(s))));
                    true
                },
                Ok(Some(t)) => {
                    let r = GameRules::move_cards(p, src, n, t);
                    assert(crate::klondike::auto_move_spec(s, src, n as int, r));
                    let m = r.unwrap();
                    *game = option_from(m);
                    true
                },
            }
        },
        other => {
            *game = other;
            false
        },
    }
}

/// Moves `n` cards from `src` to `dst` when the game is in play; reports
/// whether the move succeeded.
fn try_move(game: &mut GameStateOption, src: PileRef, n: usize, dst: PileRef) -> (ok: bool)
    ensures
        *old(game) matches GameStateOption::Playing(s) ==> moved(s, src, n as int, dst, *final(game), ok),
        !(*old(game) is Playing) ==> !ok && *final(game) == *old(game),
{
    let g = take_game(game);
    match g {
        GameStateOption::Playing(p) => {
            let ghost s = p;
            match GameRules::check_move(&p, src, n, dst) {
                Some(e) => {
                    *game = GameStateOption::Playing(p);
                    assert(move_spec(s, src, n as int, dst, Err(e)));
                    false
                },
                None => {
                    let r = GameRules::move_cards(p, src, n, dst);
                    assert(move_spec(s, src, n as int, dst, r));
                    let m = r.unwrap();
                    *game = option_from(m);
                    true
                },
            }
        },
        other => {
            *game = other;
            false
        },
    }
}

// ---------------------------------------------------------------------------
// Hovering
// ---------------------------------------------------------------------------

/// A shifted arrow while hovering over `p`: pick up the top card and aim it
/// at a neighbouring pile, or for a tableau pile of several cards start
/// selecting two (when the second is face up).
pub open spec fn hover_shift(p: PileRef, dir: Direction, g: GameStateOption) -> UIState {
    if !g.has_pile(p) || g.pile(p).len() == 0 {
        UIState::Hovering(p)
    } else {
        let pile = g.pile(p);
        let len = pile.len();
        match p {
            PileRef::Talon => match dir {
                Direction::Down => UIState::Moving(MovingState { src: p, take_n: 1, dst: PileRef::Tableau(1) }),
                Direction::Right => UIState::Moving(MovingState { src: p, take_n: 1, dst: PileRef::Foundation(0) }),
                _ => UIState::Hovering(p),
            },
            PileRef::Tableau(n) => match dir {
                Direction::Down => UIState::Hovering(p),
                Direction::Up => if len == 1 {
                    if n <= 2 {
                        UIState::Hovering(p)
                    } else {
                        UIState::Moving(MovingState { src: p, take_n: 1, dst: PileRef::Foundation((n - 3) as usize) })
                    }
                } else if !pile[len - 2].face_up {
                    UIState::Hovering(p)
                } else {
                    UIState::Selecting(SelectingState::Tableau { pile_n: n, take_n: 2 })
                },
                Direction::Left => if n == 0 {
                    UIState::Hovering(p)
                } else {
                    UIState::Moving(MovingState { src: p, take_n: 1, dst: PileRef::Tableau((n - 1) as usize) })
                },
                Direction::Right => if n == 6 {
                    UIState::Hovering(p)
                } else {
                    UIState::Moving(MovingState { src: p, take_n: 1, dst: PileRef::Tableau((n + 1) as usize) })
                },
            },
            _ => UIState::Hovering(p),
        }
    }
}

/// Selecting in tableau pile `n` down to the card with `k` cards above it:
/// the whole run from it, or only the top card when it is face down; when
/// the pile has no such card, `otherwise`.
pub open spec fn tableau_pick(n: usize, k: usize, pile: Seq<Card>, otherwise: UIState) -> UIState {
    if k >= pile.len() {
        otherwise
    } else if !pile[pile.len() - 1 - k].face_up {
        UIState::Selecting(SelectingState::Tableau { pile_n: n, take_n: 1 })
    } else {
        UIState::Selecting(SelectingState::Tableau { pile_n: n, take_n: (k + 1) as usize })
    }
}

/// A click at `loc` while hovering over `p`: the stock draws, the talon is
/// selected, a foundation hovered, a tableau card selected with the cards
/// above it; an empty pile is only hovered.
pub open spec fn hover_click(p: PileRef, loc: CardLocation, g0: GameStateOption, g1: GameStateOption, r: UIState) -> bool {
    let q = loc.spec_pile_ref();
    if !q.is_real() || !g0.has_pile(q) {
        g1 == g0 && r == UIState::Hovering(p)
    } else if g0.pile(q).len() == 0 && q != PileRef::Stock {
        g1 == g0 && r == UIState::Hovering(q)
    } else {
        match q {
            PileRef::Stock => match g0 {
                GameStateOption::Playing(s) => drew(s, g1) && r == after_change(g1, p, PileRef::Stock),
                _ => g1 == g0 && r == UIState::Hovering(PileRef::Stock),
            },
            PileRef::Talon => g1 == g0 && r == UIState::Selecting(SelectingState::Talon),
            PileRef::Foundation(_) => g1 == g0 && r == UIState::Hovering(q),
            PileRef::Tableau(n) => g1 == g0 && r == tableau_pick(n, loc->Tableau_1, g0.pile(q), UIState::Hovering(p)),
        }
    }
}

/// What an event does while hovering over `p`.
pub open spec fn hover_step(p: PileRef, e: Event, g0: GameStateOption, g1: GameStateOption, r: UIState) -> bool {
    match e {
        Event::Direction { dir, modifier } => g1 == g0 && r == if modifier.shift {
            hover_shift(p, dir, g0)
        } else {
            UIState::Hovering(spec_hover_nav(p, dir))
        },
        Event::Interact => match g0 {
            GameStateOption::Playing(s) => if p is Stock {
                drew(s, g1) && r == after_change(g1, p, p)
            } else {
                (auto_moved(s, p, 1, g1, true) && r == after_change(g1, p, p)) || (auto_moved(s, p, 1, g1, false)
                    && r == UIState::Hovering(p))
            },
            _ => g1 == g0 && r == UIState::Hovering(p),
        },
        Event::Goto(i) => g1 == g0 && r == UIState::Hovering(
            match spec_goto(i) {
                Some(q) => q,
                None => p,
            },
        ),
        Event::Click(Some(loc)) => hover_click(p, loc, g0, g1, r),
        _ => g1 == g0 && r == UIState::Hovering(p),
    }
}

/// The number of cards in pile `p`, if the game has it.
fn pile_len(game: &GameStateOption, p: PileRef) -> (r: Option<usize>)
    ensures
        r is Some <==> game.has_pile(p),
        r matches Some(n) ==> n == game.pile(p).len(),
{
    match game.get_stack(p) {
        Some(st) => Some(st.len()),
        None => None,
    }
}

/// Whether card `i` of pile `p` is face up.
fn face_up_at(game: &GameStateOption, p: PileRef, i: usize) -> (r: bool)
    requires
        game.has_pile(p),
        i < game.pile(p).len(),
    ensures
        r == game.pile(p)[i as int].face_up,
{
    let st = game.get_stack(p).unwrap();
    st[i].face_up
}

fn hover_shift_exec(p: PileRef, dir: Direction, game: &GameStateOption) -> (r: UIState)
    requires
        p.is_real(),
    ensures
        r == hover_shift(p, dir, *game),
        r.wf(),
{
    let len = match pile_len(game, p) {
        Some(n) => n,
        None => {
            return UIState::Hovering(p);
        },
    };
    if len == 0 {
        return UIState::Hovering(p);
    }
    match p {
        PileRef::Talon => match dir {
            Direction::Down => UIState::Moving(MovingState { src: p, take_n: 1, dst: PileRef::Tableau(1) }),
            Direction::Right => UIState::Moving(MovingState { src: p, take_n: 1, dst: PileRef::Foundation(0) }),
            _ => UIState::Hovering(p),
        },
        PileRef::Tableau(n) => match dir {
            Direction::Down => UIState::Hovering(p),
            Direction::Up => if len == 1 {
                if n <= 2 {
                    UIState::Hovering(p)
                } else {
                    UIState::Moving(MovingState { src: p, take_n: 1, dst: PileRef::Foundation(n - 3) })
                }
            } else if !face_up_at(game, p, len - 2) {
                UIState::Hovering(p)
            } else {
                UIState::Selecting(SelectingState::Tableau { pile_n: n, take_n: 2 })
            },
            Direction::Left => if n == 0 {
                UIState::Hovering(p)
            } else {
                UIState::Moving(MovingState { src: p, take_n: 1, dst: PileRef::Tableau(n - 1) })
            },
            Direction::Right => if n == 6 {
                UIState::Hovering(p)
            } else {
                UIState::Moving(MovingState { src: p, take_n: 1, dst: PileRef::Tableau(n + 1) })
            },
        },
        _ => UIState::Hovering(p),
    }
}

fn tableau_pick_exec(n: usize, k: usize, game: &GameStateOption, otherwise: UIState) -> (r: UIState)
    requires
        n < 7,
        game.has_pile(PileRef::Tableau(n)),
    ensures
        r == tableau_pick(n, k, game.pile(PileRef::Tableau(n)), otherwise),
{
    let p = PileRef::Tableau(n);
    let len = pile_len(game, p).unwrap();
    if k >= len {
        otherwise
    } else if !face_up_at(game, p, len - 1 - k) {
        UIState::Selecting(SelectingState::Tableau { pile_n: n, take_n: 1 })
    } else {
        UIState::Selecting(SelectingState::Tableau { pile_n: n, take_n: k + 1 })
    }
}

fn hover_click_exec(p: PileRef, loc: CardLocation, game: &mut GameStateOption) -> (r: UIState)
    requires
        p.is_real(),
        old(game).wf(),
    ensures
        hover_click(p, loc, *old(game), *final(game), r),
        r.wf(),
        final(game).wf(),
{
    let q = loc.pile_ref();
    let len = match q {
        PileRef::Tableau(n) if n >= 7 => {
            return UIState::Hovering(p);
        },
        PileRef::Foundation(n) if n >= 4 => {
            return UIState::Hovering(p);
        },
        _ => match pile_len(game, q) {
            Some(len) => len,
            None => {
                return UIState::Hovering(p);
            },
        },
    };
    if len == 0 && q != PileRef::Stock {
        return UIState::Hovering(q);
    }
    match q {
        PileRef::Stock => {
            if try_draw(game) {
                settle(game, p, PileRef::Stock)
            } else {
                UIState::Hovering(PileRef::Stock)
            }
        },
        PileRef::Talon => UIState::Selecting(SelectingState::Talon),
        PileRef::Foundation(_) => UIState::Hovering(q),
        PileRef::Tableau(n) => {
            let k = match loc {
                CardLocation::Tableau(_, k) => k,
                _ => 0,
            };
            tableau_pick_exec(n, k, game, UIState::Hovering(p))
        },
    }
}

impl PileRef {
    /// Reacts to `event` while hovering over this pile; see [hover_step].
    pub fn on(self, event: Event, game: &mut GameStateOption) -> (r: UIState)
        requires
            self.is_real(),
            old(game).wf(),
        ensures
            hover_step(self, event, *old(game), *final(game), r),
            r.wf(),
            final(game).wf(),
    {
        match event {
            Event::Direction { dir, modifier } => if modifier.shift {
                hover_shift_exec(self, dir, game)
            } else {
                UIState::Hovering(hover_nav(self, dir))
            },
            Event::Interact => {
                if let PileRef::Stock = self {
                    if try_draw(game) {
                        return settle(game, self, self);
                    }
                    return UIState::Hovering(self);
                }
                if try_auto_move(game, self, 1) {
                    settle(game, self, self)
                } else {
                    UIState::Hovering(self)
                }
            },
            Event::Goto(i) => match goto_pile(i) {
                Some(q) => UIState::Hovering(q),
                None => UIState::Hovering(self),
            },
            Event::Click(Some(loc)) => hover_click_exec(self, loc, game),
            _ => UIState::Hovering(self),
        }
    }
}

// ---------------------------------------------------------------------------
// Selecting
// ---------------------------------------------------------------------------

/// The pile and number of cards that a selection holds.
pub open spec fn sel_src(sel: SelectingState) -> (PileRef, usize) {
    match sel {
        SelectingState::Tableau { pile_n, take_n } => (PileRef::Tableau(pile_n), take_n),
        SelectingState::Talon => (PileRef::Talon, 1),
    }
}

/// An arrow while selecting. In a tableau pile: shifted Up takes one more
/// card (while one is left and face up), Up aims at the foundation above,
/// Down takes one fewer (leaving for hovering below two), Left and Right aim
/// at the neighbouring piles. From the talon: Right aims at the first
/// foundation, Down at the second tableau pile.
pub open spec fn select_dir(sel: SelectingState, dir: Direction, shift: bool, g: GameStateOption) -> UIState {
    match sel {
        SelectingState::Tableau { pile_n: n, take_n: k } => match dir {
            Direction::Up => if shift {
                let q = PileRef::Tableau(n);
                if !g.has_pile(q) || k >= g.pile(q).len() || !g.pile(q)[g.pile(q).len() - 1 - k].face_up {
                    UIState::Selecting(sel)
                } else {
                    UIState::Selecting(SelectingState::Tableau { pile_n: n, take_n: (k + 1) as usize })
                }
            } else if n <= 2 {
                UIState::Selecting(sel)
            } else {
                UIState::Moving(MovingState { src: PileRef::Tableau(n), take_n: k, dst: PileRef::Foundation((n - 3) as usize) })
            },
            Direction::Down => if k <= 2 {
                UIState::Hovering(PileRef::Tableau(n))
            } else {
                UIState::Selecting(SelectingState::Tableau { pile_n: n, take_n: (k - 1) as usize })
            },
            Direction::Left => if n == 0 {
                UIState::Selecting(sel)
            } else {
                UIState::Moving(MovingState { src: PileRef::Tableau(n), take_n: k, dst: PileRef::Tableau((n - 1) as usize) })
            },
            Direction::Right => if n == 6 {
                UIState::Selecting(sel)
            } else {
                UIState::Moving(MovingState { src: PileRef::Tableau(n), take_n: k, dst: PileRef::Tableau((n + 1) as usize) })
            },
        },
        SelectingState::Talon => match dir {
            Direction::Right => UIState::Moving(MovingState { src: PileRef::Talon, take_n: 1, dst: PileRef::Foundation(0) }),
            Direction::Down => UIState::Moving(MovingState { src: PileRef::Talon, take_n: 1, dst: PileRef::Tableau(1) }),
            _ => UIState::Selecting(sel),
        },
    }
}

/// The click lands on exactly the selected cards.
pub open spec fn clicks_selection(sel: SelectingState, loc: CardLocation) -> bool {
    match sel {
        SelectingState::Talon => loc is Talon,
        SelectingState::Tableau { pile_n, take_n } => loc matches CardLocation::Tableau(p, m) && p == pile_n
            && take_n == m + 1,
    }
}

/// A click while selecting: on the selection itself it moves the cards
/// automatically; on the stock it draws; on the talon it selects that
/// instead; on another pile it moves the selection there, and failing that
/// acts as a click while hovering over that pile.
pub open spec fn select_click(sel: SelectingState, loc: CardLocation, g0: GameStateOption, g1: GameStateOption, r: UIState) -> bool {
    let q = loc.spec_pile_ref();
    let (src, k) = sel_src(sel);
    if !q.is_real() {
        g1 == g0 && r == UIState::Selecting(sel)
    } else if g0 is Playing && clicks_selection(sel, loc) {
        let s = g0->Playing_0;
        (auto_moved(s, src, k as int, g1, true) && r == after_change(g1, q, q)) || (auto_moved(s, src, k as int, g1, false)
            && r == UIState::Hovering(q))
    } else {
        match q {
            PileRef::Stock => match g0 {
                GameStateOption::Playing(s) => drew(s, g1) && r == after_change(g1, q, q),
                _ => g1 == g0 && r == UIState::Hovering(q),
            },
            PileRef::Talon => g1 == g0 && r == UIState::Selecting(SelectingState::Talon),
            _ => match g0 {
                GameStateOption::Playing(s) => (moved(s, src, k as int, q, g1, true) && r == after_change(g1, q, q)) || (
                moved(s, src, k as int, q, g1, false) && hover_click(q, loc, g0, g1, r)),
                _ => hover_click(q, loc, g0, g1, r),
            },
        }
    }
}

/// What an event does while selecting.
pub open spec fn select_step(sel: SelectingState, e: Event, g0: GameStateOption, g1: GameStateOption, r: UIState) -> bool {
    let (src, k) = sel_src(sel);
    match e {
        Event::Direction { dir, modifier } => g1 == g0 && r == select_dir(sel, dir, modifier.shift, g0),
        Event::Interact => match g0 {
            GameStateOption::Playing(s) => (auto_moved(s, src, k as int, g1, true) && r == after_change(g1, src, src)) || (
            auto_moved(s, src, k as int, g1, false) && r == UIState::Selecting(sel)),
            _ => g1 == g0 && r == UIState::Selecting(sel),
        },
        Event::Goto(i) => g1 == g0 && r == match sel {
            SelectingState::Tableau { pile_n, take_n } => match spec_goto(i) {
                Some(q) => UIState::Moving(MovingState { src: PileRef::Tableau(pile_n), take_n, dst: q }),
                None => UIState::Selecting(sel),
            },
            SelectingState::Talon => UIState::Selecting(sel),
        },
        Event::Cancel => g1 == g0 && r == UIState::Hovering(src),
        Event::Click(Some(loc)) => select_click(sel, loc, g0, g1, r),
        _ => g1 == g0 && r == UIState::Selecting(sel),
    }
}

fn select_dir_exec(sel: SelectingState, dir: Direction, shift: bool, game: &GameStateOption) -> (r: UIState)
    requires
        sel.wf(),
    ensures
        r == select_dir(sel, dir, shift, *game),
        r.wf(),
{
    match sel {
        SelectingState::Tableau { pile_n: n, take_n: k } => match dir {
            Direction::Up => if shift {
                let q = PileRef::Tableau(n);
                match pile_len(game, q) {
                    None => UIState::Selecting(sel),
                    Some(len) => if k >= len || !face_up_at(game, q, len - 1 - k) {
                        UIState::Selecting(sel)
                    } else {
                        UIState::Selecting(SelectingState::Tableau { pile_n: n, take_n: k + 1 })
                    },
                }
            } else if n <= 2 {
                UIState::Selecting(sel)
            } else {
                UIState::Moving(MovingState { src: PileRef::Tableau(n), take_n: k, dst: PileRef::Foundation(n - 3) })
            },
            Direction::Down => if k <= 2 {
                UIState::Hovering(PileRef::Tableau(n))
            } else {
                UIState::Selecting(SelectingState::Tableau { pile_n: n, take_n: k - 1 })
            },
            Direction::Left => if n == 0 {
                UIState::Selecting(sel)
            } else {
                UIState::Moving(MovingState { src: PileRef::Tableau(n), take_n: k, dst: PileRef::Tableau(n - 1) })
            },
            Direction::Right => if n == 6 {
                UIState::Selecting(sel)
            } else {
                UIState::Moving(MovingState { src: PileRef::Tableau(n), take_n: k, dst: PileRef::Tableau(n + 1) })
            },
        },
        SelectingState::Talon => match dir {
            Direction::Right => UIState::Moving(MovingState { src: PileRef::Talon, take_n: 1, dst: PileRef::Foundation(0) }),
            Direction::Down => UIState::Moving(MovingState { src: PileRef::Talon, take_n: 1, dst: PileRef::Tableau(1) }),
            _ => UIState::Selecting(sel),
        },
    }
}

impl SelectingState {
    /// The pile and number of cards this selection holds.
    pub fn source(&self) -> (r: (PileRef, usize))
        ensures
            r == sel_src(*self),
    {
        match self {
            SelectingState::Tableau { pile_n, take_n } => (PileRef::Tableau(*pile_n), *take_n),
            SelectingState::Talon => (PileRef::Talon, 1),
        }
    }

    fn click(self, loc: CardLocation, game: &mut GameStateOption) -> (r: UIState)
        requires
            self.wf(),
            old(game).wf(),
        ensures
            select_click(self, loc, *old(game), *final(game), r),
            r.wf(),
            final(game).wf(),
    {
        let q = loc.pile_ref();
        let (src, k) = self.source();
        match q {
            PileRef::Tableau(n) if n >= 7 => {
                return UIState::Selecting(self);
            },
            PileRef::Foundation(n) if n >= 4 => {
                return UIState::Selecting(self);
            },
            _ => {},
        }
        let on_selection = match self {
            SelectingState::Talon => match loc {
                CardLocation::Talon => true,
                _ => false,
            },
            SelectingState::Tableau { pile_n, take_n } => match loc {
                CardLocation::Tableau(p, m) => p == pile_n && m < take_n && take_n - 1 == m,
                _ => false,
            },
        };
        let playing = match game {
            GameStateOption::Playing(_) => true,
            _ => false,
        };
        if playing && on_selection {
            if try_auto_move(game, src, k) {
                return settle(game, q, q);
            }
            return UIState::Hovering(q);
        }
        match q {
            PileRef::Stock => {
                if try_draw(game) {
                    settle(game, q, q)
                } else {
                    UIState::Hovering(q)
                }
            },
            PileRef::Talon => UIState::Selecting(SelectingState::Talon),
            _ => {
                if try_move(game, src, k, q) {
                    settle(game, q, q)
                } else {
                    hover_click_exec(q, loc, game)
                }
            },
        }
    }

    /// Reacts to `event` while these cards are selected; see [select_step].
    pub fn on(self, event: Event, game: &mut GameStateOption) -> (r: UIState)
        requires
            self.wf(),
            old(game).wf(),
        ensures
            select_step(self, event, *old(game), *final(game), r),
            r.wf(),
            final(game).wf(),
    {
        let (src, k) = self.source();
        match event {
            Event::Direction { dir, modifier } => select_dir_exec(self, dir, modifier.shift, game),
            Event::Interact => {
                let playing = match game {
                    GameStateOption::Playing(_) => true,
                    _ => false,
                };
                if !playing {
                    return UIState::Selecting(self);
                }
                if try_auto_move(game, src, k) {
                    settle(game, src, src)
                } else {
                    UIState::Selecting(self)
                }
            },
            Event::Goto(i) => match self {
                SelectingState::Tableau { pile_n, take_n } => match goto_pile(i) {
                    Some(q) => UIState::Moving(MovingState { src: PileRef::Tableau(pile_n), take_n, dst: q }),
                    None => UIState::Selecting(self),
                },
                SelectingState::Talon => UIState::Selecting(self),
            },
            Event::Cancel => UIState::Hovering(src),
            Event::Click(Some(loc)) => self.click(loc, game),
            _ => UIState::Selecting(self),
        }
    }
}

// ---------------------------------------------------------------------------
// Moving
// ---------------------------------------------------------------------------

/// The selection a click while moving hands over to: the talon, or the
/// source tableau pile down to the clicked card (keeping the count when the
/// click is not on a tableau card).
pub open spec fn move_selection(m: MovingState, loc: CardLocation) -> Option<SelectingState> {
    match m.src {
        PileRef::Talon => Some(SelectingState::Talon),
        PileRef::Tableau(n) => Some(
            SelectingState::Tableau {
                pile_n: n,
                take_n: match loc {
                    CardLocation::Tableau(_, j) => if j < usize::MAX {
                        (j + 1) as usize
                    } else {
                        m.take_n
                    },
                    _ => m.take_n,
                },
            },
        ),
        _ => None,
    }
}

/// What an event does while aiming a move: arrows and Goto re-aim it,
/// Interact makes it, Cancel drops it, a click goes back to selecting.
pub open spec fn move_step(m: MovingState, e: Event, g0: GameStateOption, g1: GameStateOption, r: UIState) -> bool {
    match e {
        Event::Direction { dir, .. } => g1 == g0 && r == UIState::Moving(
            MovingState { dst: spec_retarget(m.dst, m.take_n, dir), ..m },
        ),
        Event::Interact => match g0 {
            GameStateOption::Playing(s) => (moved(s, m.src, m.take_n as int, m.dst, g1, true) && r == after_change(
                g1,
                m.dst,
                m.dst,
            )) || (moved(s, m.src, m.take_n as int, m.dst, g1, false) && r == UIState::Hovering(m.src)),
            _ => g1 == g0 && r == UIState::Hovering(m.src),
        },
        Event::Goto(i) => g1 == g0 && r == if 3 <= i <= 6 {
            UIState::Moving(MovingState { dst: PileRef::Foundation((i - 3) as usize), ..m })
        } else {
            UIState::Moving(m)
        },
        Event::Cancel => g1 == g0 && r == UIState::Hovering(m.src),
        Event::Click(Some(loc)) => match move_selection(m, loc) {
            Some(sel) => select_click(sel, loc, g0, g1, r),
            None => g1 == g0 && r == UIState::Moving(m),
        },
        _ => g1 == g0 && r == UIState::Moving(m),
    }
}

impl MovingState {
    /// Reacts to `event` while aiming this move; see [move_step].
    pub fn on(self, event: Event, game: &mut GameStateOption) -> (r: UIState)
        requires
            self.src.is_real(),
            self.dst.is_real(),
            self.take_n >= 1,
            old(game).wf(),
        ensures
            move_step(self, event, *old(game), *final(game), r),
            r.wf(),
            final(game).wf(),
    {
        match event {
            Event::Direction { dir, .. } => UIState::Moving(
                MovingState { src: self.src, take_n: self.take_n, dst: retarget(self.dst, self.take_n, dir) },
            ),
            Event::Interact => {
                if try_move(game, self.src, self.take_n, self.dst) {
                    settle(game, self.dst, self.dst)
                } else {
                    UIState::Hovering(self.src)
                }
            },
            Event::Goto(i) => if 3 <= i && i <= 6 {
                UIState::Moving(MovingState { src: self.src, take_n: self.take_n, dst: PileRef::Foundation((i - 3) as usize) })
            } else {
                UIState::Moving(self)
            },
            Event::Cancel => UIState::Hovering(self.src),
            Event::Click(Some(loc)) => {
                let sel = match self.src {
                    PileRef::Talon => SelectingState::Talon,
                    PileRef::Tableau(n) => {
                        let take_n = match loc {
                            CardLocation::Tableau(_, j) => if j < usize::MAX {
                                j + 1
                            } else {
                                self.take_n
                            },
                            _ => self.take_n,
                        };
                        SelectingState::Tableau { pile_n: n, take_n }
                    },
                    _ => {
                        return UIState::Moving(self);
                    },
                };
                sel.click(loc, game)
            },
            _ => UIState::Moving(self),
        }
    }
}

// ---------------------------------------------------------------------------
// Dealing
// ---------------------------------------------------------------------------

/// `a + b`, or the largest `u64` when that overflows.
pub open spec fn sat_add(a: u64, b: u64) -> u64 {
    if a + b > u64::MAX {
        u64::MAX
    } else {
        (a + b) as u64
    }
}

fn add_saturating(a: u64, b: u64) -> (r: u64)
    ensures
        r == sat_add(a, b),
{
    if a > u64::MAX - b {
        u64::MAX
    } else {
        a + b
    }
}

/// `p` is the game that finishing the deal of `s` starts.
pub open spec fn finished_deal(s: InitialGameState, p: PlayingGameState) -> bool {
    &&& piles7(p.tableau) == deal_repeat(piles7(s.tableau), s.stock@)
    &&& p.stock@ == s.stock@.subrange(0, 24)
    &&& fresh_play(p)
}

/// Time passing while dealing: one card per [DEAL_INTERVAL] of the total
/// elapsed time, until the deal completes (then hovering over the stock, or
/// automatic moving when a safe card is out); the remainder is carried over.
/// A game that is not being dealt sends the cursor to the stock once an
/// interval has passed.
pub open spec fn dealing_tick(d: DealingState, dt: Duration, g0: GameStateOption, g1: GameStateOption, r: UIState) -> bool {
    let total = sat_add(d.since_last_deal.micros, dt.micros);
    match g0 {
        GameStateOption::Initial(s) => {
            let left = s.stock@.len() - 24;
            ||| (r matches UIState::Dealing(d2) && d2.since_last_deal.micros < DEAL_INTERVAL && exists|k: nat|
                #![trigger deal_steps(piles7(s.tableau), s.stock@, k)]
                k < left && total == d2.since_last_deal.micros + k * DEAL_INTERVAL && (g1 matches GameStateOption::Initial(s2)
                    && (piles7(s2.tableau), s2.stock@) == deal_steps(piles7(s.tableau), s.stock@, k)))
            ||| (total >= left * DEAL_INTERVAL && r == after_change(g1, PileRef::Stock, PileRef::Stock) && (
            g1 matches GameStateOption::Playing(p) && finished_deal(s, p)))
        },
        _ => g1 == g0 && r == if total >= DEAL_INTERVAL {
            UIState::Hovering(PileRef::Stock)
        } else {
            UIState::Dealing(DealingState { since_last_deal: Duration { micros: total } })
        },
    }
}

/// What an event does while dealing: time deals cards; Interact or a click
/// finishes the deal at once.
pub open spec fn dealing_step(d: DealingState, e: Event, g0: GameStateOption, g1: GameStateOption, r: UIState) -> bool {
    match e {
        Event::Tick(dt) => dealing_tick(d, dt, g0, g1, r),
        Event::Interact | Event::Click(_) => match g0 {
            GameStateOption::Initial(s) => g1 matches GameStateOption::Playing(p) && finished_deal(s, p) && r
                == after_change(g1, PileRef::Stock, PileRef::Stock),
            _ => g1 == g0 && r == UIState::Hovering(PileRef::Stock),
        },
        _ => g1 == g0 && r == UIState::Dealing(d),
    }
}

impl DealingState {
    /// Reacts to `event` while dealing; see [dealing_step].
    pub fn on(self, event: Event, game: &mut GameStateOption) -> (r: UIState)
        requires
            old(game).wf(),
        ensures
            dealing_step(self, event, *old(game), *final(game), r),
            r.wf(),
            final(game).wf(),
    {
        match event {
            Event::Tick(dt) => self.tick(dt, game),
            Event::Interact | Event::Click(_) => {
                let g = take_game(game);
                match g {
                    GameStateOption::Initial(s) => {
                        *game = GameStateOption::Playing(GameRules::deal_all(s));
                        settle(game, PileRef::Stock, PileRef::Stock)
                    },
                    other => {
                        *game = other;
                        UIState::Hovering(PileRef::Stock)
                    },
                }
            },
            _ => UIState::Dealing(self),
        }
    }

    fn tick(self, dt: Duration, game: &mut GameStateOption) -> (r: UIState)
        requires
            old(game).wf(),
        ensures
            dealing_tick(self, dt, *old(game), *final(game), r),
            r.wf(),
            final(game).wf(),
    {
        let total = add_saturating(self.since_last_deal.micros, dt.micros);
        let g = take_game(game);
        let mut cur = match g {
            GameStateOption::Initial(s) => s,
            other => {
                *game = other;
                if total >= DEAL_INTERVAL {
                    return UIState::Hovering(PileRef::Stock);
                }
                return UIState::Dealing(DealingState { since_last_deal: Duration { micros: total } });
            },
        };
        let ghost s0 = cur;
        let ghost tab0 = piles7(s0.tableau);
        let ghost stock0 = s0.stock@;
        let ghost left = stock0.len() - 24;
        let mut since = total;
        let ghost mut k: nat = 0;
        while since >= DEAL_INTERVAL
            invariant
                25 <= stock0.len() <= 52,
                left == stock0.len() - 24,
                k < left,
                total == sat_add(self.since_last_deal.micros, dt.micros),
                total == since + k * DEAL_INTERVAL,
                (piles7(cur.tableau), cur.stock@) == deal_steps(tab0, stock0, k),
                s0.stock@ == stock0,
                tab0 == piles7(s0.tableau),
                *old(game) == GameStateOption::Initial(s0),
            decreases since,
        {
            proof {
                lemma_deal_steps_repeat(tab0, stock0, k);
            }
            since = since - DEAL_INTERVAL;
            match GameRules::deal_one(cur) {
                DealResult::Dealing(next) => {
                    proof {
                        k = k + 1;
                    }
                    cur = next;
                },
                DealResult::Complete(done) => {
                    proof {
                        let prev = deal_steps(tab0, stock0, k);
                        assert(deal_repeat(prev.0, prev.1) == deal_repeat(deal_step(prev.0, prev.1), prev.1.drop_last()));
                        assert(done.stock@ =~= stock0.subrange(0, 24));
                        assert(deal_repeat(piles7(done.tableau), done.stock@) == piles7(done.tableau));
                        assert(k + 1 == left);
                        assert(total >= left * DEAL_INTERVAL);
                        assert(finished_deal(s0, done));
                    }
                    *game = GameStateOption::Playing(done);
                    return settle(game, PileRef::Stock, PileRef::Stock);
                },
            }
        }
        proof {
            lemma_deal_steps_repeat(tab0, stock0, k);
        }
        *game = GameStateOption::Initial(cur);
        UIState::Dealing(DealingState { since_last_deal: Duration { micros: since } })
    }
}

// ---------------------------------------------------------------------------
// Automatic moving
// ---------------------------------------------------------------------------

/// `g` is what `k` automatic moves, each made while one was possible, turn
/// `s` into.
pub open spec fn drains(s: PlayingGameState, g: GameStateOption, k: nat) -> bool
    decreases k,
{
    if k == 0 {
        g == GameStateOption::Playing(s)
    } else {
        exists|m: PlayingGameState, res: MoveResult|
            #![trigger crate::klondike::drain_one(m, res)]
            drains(s, GameStateOption::Playing(m), (k - 1) as nat) && auto_moves(m) && crate::klondike::drain_one(m, res)
                && g == option_of(res)
    }
}

/// The interval after `interval`: 25 ms shorter, but never under 50 ms.
pub open spec fn next_interval(interval: u64) -> u64 {
    if interval >= MIN_MOVE_INTERVAL + MOVE_INTERVAL_DECREASE {
        (interval - MOVE_INTERVAL_DECREASE) as u64
    } else {
        MIN_MOVE_INTERVAL
    }
}

/// How `time` splits into successive intervals, the first `interval` long
/// and each next one given by [next_interval]: the number `n` of whole
/// intervals, the time left over, and the interval that would come next.
pub open spec fn auto_ticks(time: u64, interval: u64) -> (nat, u64, u64)
    decreases time,
{
    if interval == 0 || time < interval {
        (0, time, interval)
    } else {
        let rest = auto_ticks((time - interval) as u64, next_interval(interval));
        (rest.0 + 1, rest.1, rest.2)
    }
}

/// The game may still move a safe card on its own.
pub open spec fn can_drain(g: GameStateOption) -> bool {
    g matches GameStateOption::Playing(t) && auto_moves(t)
}

/// `g` is what `k` automatic moves from `s` give, for a `k` of at most `n`
/// that falls short of `n` only when no further move is possible.
pub open spec fn drained_within(s: PlayingGameState, g: GameStateOption, n: nat) -> bool {
    exists|k: nat| k <= n && #[trigger] drains(s, g, k) && (k < n ==> !can_drain(g))
}

/// What an event does while cards move on their own. Time makes one
/// automatic move per whole interval elapsed (the first the current
/// interval, each next one 25 ms shorter down to 50 ms), stopping early
/// when none is possible or the game is won; then the cursor returns to
/// where it was, unless a move is still possible, in which case the
/// animation goes on with the leftover time and the next interval. Every
/// other event is ignored.
pub open spec fn auto_step(a: AutoMovingState, e: Event, g0: GameStateOption, g1: GameStateOption, r: UIState) -> bool {
    match e {
        Event::Tick(dt) => match g0 {
            GameStateOption::Playing(s) => {
                let ticks = auto_ticks(sat_add(a.since_last_move.micros, dt.micros), a.interval.micros);
                &&& drained_within(s, g1, ticks.0)
                &&& (r is AutoMoving <==> can_drain(g1))
                &&& r is AutoMoving ==> r == UIState::AutoMoving(
                    AutoMovingState {
                        since_last_move: Duration { micros: ticks.1 },
                        interval: Duration { micros: ticks.2 },
                        prev_pile_ref: a.prev_pile_ref,
                    },
                )
                &&& !(r is AutoMoving) ==> r == UIState::Hovering(a.prev_pile_ref)
            },
            _ => g1 == g0 && r == UIState::Hovering(a.prev_pile_ref),
        },
        _ => g1 == g0 && r == UIState::AutoMoving(a),
    }
}

impl AutoMovingState {
    /// Reacts to `event` during automatic moving; see [auto_step].
    pub fn on(self, event: Event, game: &mut GameStateOption) -> (r: UIState)
        requires
            self.wf(),
            old(game).wf(),
        ensures
            auto_step(self, event, *old(game), *final(game), r),
            r.wf(),
            final(game).wf(),
    {
        match event {
            Event::Tick(dt) => self.tick(dt, game),
            _ => UIState::AutoMoving(self),
        }
    }

    fn tick(self, dt: Duration, game: &mut GameStateOption) -> (r: UIState)
        requires
            self.wf(),
            old(game).wf(),
        ensures
            auto_step(self, Event::Tick(dt), *old(game), *final(game), r),
            r.wf(),
            final(game).wf(),
    {
        let g = take_game(game);
        let mut cur = match g {
            GameStateOption::Playing(p) => p,
            other => {
                *game = other;
                return UIState::Hovering(self.prev_pile_ref);
            },
        };
        let ghost s0 = cur;
        let ghost mut k: nat = 0;
        let total = add_saturating(self.since_last_move.micros, dt.micros);
        let ghost ticks = auto_ticks(total, self.interval.micros);
        let mut since = total;
        let mut interval = self.interval.micros;
        while since >= interval
            invariant
                MIN_MOVE_INTERVAL <= interval <= INITIAL_MOVE_INTERVAL,
                drains(s0, GameStateOption::Playing(cur), k),
                ticks.0 == k + auto_ticks(since, interval).0,
                ticks.1 == auto_ticks(since, interval).1,
                ticks.2 == auto_ticks(since, interval).2,
                ticks == auto_ticks(sat_add(self.since_last_move.micros, dt.micros), self.interval.micros),
                *old(game) == GameStateOption::Playing(s0),
                self.wf(),
            decreases since,
        {
            let ghost rest = auto_ticks((since - interval) as u64, next_interval(interval));
            assert(auto_ticks(since, interval) == (rest.0 + 1, rest.1, rest.2));
            since = since - interval;
            interval = if interval >= MIN_MOVE_INTERVAL + MOVE_INTERVAL_DECREASE {
                interval - MOVE_INTERVAL_DECREASE
            } else {
                MIN_MOVE_INTERVAL
            };
            if !GameRules::can_auto_move(&cur) {
                *game = GameStateOption::Playing(cur);
                assert(drains(s0, *game, k));
                assert(drained_within(s0, *game, ticks.0));
                return UIState::Hovering(self.prev_pile_ref);
            }
            let ghost before = cur;
            let res = GameRules::auto_move_to_foundation(cur);
            proof {
                let k1: nat = k + 1;
                assert(((k1 - 1) as nat) == k);
                assert(drains(s0, GameStateOption::Playing(before), ((k1 - 1) as nat)));
                assert(crate::klondike::drain_one(before, res));
                assert(drains(s0, option_of(res), k1));
                k = k1;
            }
            match res {
                MoveResult::Playing(next) => {
                    cur = next;
                },
                MoveResult::Win(w) => {
                    *game = GameStateOption::Win(w);
                    assert(drains(s0, *game, k));
                    assert(drained_within(s0, *game, ticks.0));
                    return UIState::Hovering(self.prev_pile_ref);
                },
            }
        }
        let moving = GameRules::can_auto_move(&cur);
        *game = GameStateOption::Playing(cur);
        assert(drains(s0, *game, k));
        assert(drained_within(s0, *game, ticks.0));
        if moving {
            UIState::AutoMoving(
                AutoMovingState {
                    since_last_move: Duration { micros: since },
                    interval: Duration { micros: interval },
                    prev_pile_ref: self.prev_pile_ref,
                },
            )
        } else {
            UIState::Hovering(self.prev_pile_ref)
        }
    }
}

// ---------------------------------------------------------------------------
// The whole machine
// ---------------------------------------------------------------------------

/// What an event does in state `u`.
pub open spec fn ui_step(u: UIState, e: Event, g0: GameStateOption, g1: GameStateOption, r: UIState) -> bool {
    match u {
        UIState::Dealing(d) => dealing_step(d, e, g0, g1, r),
        UIState::Hovering(p) => hover_step(p, e, g0, g1, r),
        UIState::Selecting(s) => select_step(s, e, g0, g1, r),
        UIState::Moving(m) => move_step(m, e, g0, g1, r),
        UIState::AutoMoving(a) => auto_step(a, e, g0, g1, r),
    }
}

impl UIState {
    pub open spec fn new_spec() -> UIState {
        UIState::Dealing(DealingState { since_last_deal: Duration { micros: 0 } })
    }

    /// The state a new game starts in: dealing, with no time elapsed.
    pub fn new() -> (r: UIState)
        ensures
            r == UIState::new_spec(),
    {
        UIState::Dealing(DealingState::new())
    }

    /// Reacts to `event`, changing `game` only through the rules engine;
    /// see [ui_step].
    pub fn on(self, event: Event, game: &mut GameStateOption) -> (r: UIState)
        requires
            self.wf(),
            old(game).wf(),
        ensures
            ui_step(self, event, *old(game), *final(game), r),
            r.wf(),
            final(game).wf(),
    {
        match self {
            UIState::Dealing(s) => s.on(event, game),
            UIState::Hovering(s) => s.on(event, game),
            UIState::Selecting(s) => s.on(event, game),
            UIState::Moving(s) => s.on(event, game),
            UIState::AutoMoving(s) => s.on(event, game),
        }
    }
}

} // verus!
