//! A game in progress: the game, the interaction state, and what each key does.
use crate::card::Card;
use crate::event::{KeyCode, Modifiers};
use crate::game_state::{GameStateOption, InitialGameState};
use crate::ui_state::{ui_step, CardLocation, Direction, Duration, Event, UIState};
use rand::rngs::SmallRng;
use vstd::prelude::*;

verus! {

/// What a key press asks for.
#[derive(Debug, Copy, Clone, PartialEq, Eq, Structural)]
pub enum Command {
    /// Hand an event to the interaction state machine.
    Ui(Event),
    /// Start a new game.
    Restart,
    /// Leave the program.
    Quit,
    /// Nothing.
    Ignore,
}

/// The key bindings: arrows or WASD move (with the modifiers held), Enter
/// or Space interact, digits 1 to 9 jump, C cancels, R restarts, Q or
/// Ctrl+C quits.
pub open spec fn key_command(code: KeyCode, m: Modifiers) -> Command {
    match code {
        KeyCode::Up => Command::Ui(Event::Direction { dir: Direction::Up, modifier: m }),
        KeyCode::Down => Command::Ui(Event::Direction { dir: Direction::Down, modifier: m }),
        KeyCode::Left => Command::Ui(Event::Direction { dir: Direction::Left, modifier: m }),
        KeyCode::Right => Command::Ui(Event::Direction { dir: Direction::Right, modifier: m }),
        KeyCode::Enter => Command::Ui(Event::Interact),
        KeyCode::Char(c) => if c == 'c' && m.ctrl {
            Command::Quit
        } else if c == 'w' || c == 'W' {
            Command::Ui(Event::Direction { dir: Direction::Up, modifier: m })
        } else if c == 's' || c == 'S' {
            Command::Ui(Event::Direction { dir: Direction::Down, modifier: m })
        } else if c == 'a' || c == 'A' {
            Command::Ui(Event::Direction { dir: Direction::Left, modifier: m })
        } else if c == 'd' || c == 'D' {
            Command::Ui(Event::Direction { dir: Direction::Right, modifier: m })
        } else if c == ' ' {
            Command::Ui(Event::Interact)
        } else if '1' <= c && c <= '9' {
            Command::Ui(Event::Goto(((c as u32) - ('0' as u32)) as u8))
        } else if c == 'c' || c == 'C' {
            Command::Ui(Event::Cancel)
        } else if c == 'r' || c == 'R' {
            Command::Restart
        } else if c == 'q' {
            Command::Quit
        } else {
            Command::Ignore
        },
        _ => Command::Ignore,
    }
}

/// The command a key press stands for; see [key_command].
pub fn command_for_key(code: KeyCode, m: Modifiers) -> (r: Command)
    ensures
        r == key_command(code, m),
{
    match code {
        KeyCode::Up => Command::Ui(Event::Direction { dir: Direction::Up, modifier: m }),
        KeyCode::Down => Command::Ui(Event::Direction { dir: Direction::Down, modifier: m }),
        KeyCode::Left => Command::Ui(Event::Direction { dir: Direction::Left, modifier: m }),
        KeyCode::Right => Command::Ui(Event::Direction { dir: Direction::Right, modifier: m }),
        KeyCode::Enter => Command::Ui(Event::Interact),
        KeyCode::Char(c) => if c == 'c' && m.ctrl {
            Command::Quit
        } else if c == 'w' || c == 'W' {
            Command::Ui(Event::Direction { dir: Direction::Up, modifier: m })
        } else if c == 's' || c == 'S' {
            Command::Ui(Event::Direction { dir: Direction::Down, modifier: m })
        } else if c == 'a' || c == 'A' {
            Command::Ui(Event::Direction { dir: Direction::Left, modifier: m })
        } else if c == 'd' || c == 'D' {
            Command::Ui(Event::Direction { dir: Direction::Right, modifier: m })
        } else if c == ' ' {
            Command::Ui(Event::Interact)
        } else if '1' <= c && c <= '9' {
            Command::Ui(Event::Goto(((c as u32) - ('0' as u32)) as u8))
        } else if c == 'c' || c == 'C' {
            Command::Ui(Event::Cancel)
        } else if c == 'r' || c == 'R' {
            Command::Restart
        } else if c == 'q' {
            Command::Quit
        } else {
            Command::Ignore
        },
        _ => Command::Ignore,
    }
}

/// `g` is a game about to be dealt from a shuffled deck.
pub open spec fn fresh_game(g: GameStateOption) -> bool {
    g matches GameStateOption::Initial(s) && s.stock@.len() == 52 && s.stock@.to_multiset()
        == Card::new_deck_view().to_multiset() && forall|i: int| 0 <= i < 7 ==> (#[trigger] s.tableau[i])@.len() == 0
}

/// A game in progress with its interaction state and shuffling generator.
pub struct GameComponent {
    pub game: GameStateOption,
    pub ui: UIState,
    pub rng: SmallRng,
}

impl GameComponent {
    /// Both states are well formed.
    pub open spec fn wf(&self) -> bool {
        self.game.wf() && self.ui.wf()
    }

    /// A new game dealing a game shuffled with `rng`.
    pub fn new(rng: SmallRng) -> (r: GameComponent)
        ensures
            r.wf(),
            fresh_game(r.game),
            r.ui == UIState::new_spec(),
    {
        let mut rng = rng;
        let initial = InitialGameState::new_with_rng(&mut rng);
        GameComponent { game: GameStateOption::Initial(initial), ui: UIState::new(), rng }
    }

    /// Starts a new, freshly shuffled game.
    pub fn handle_reset(&mut self)
        ensures
            final(self).wf(),
            fresh_game(final(self).game),
            final(self).ui == UIState::new_spec(),
    {
        let initial = InitialGameState::new_with_rng(&mut self.rng);
        self.game = GameStateOption::Initial(initial);
        self.ui = UIState::new();
    }

    /// Hands `event` to the interaction state machine.
    pub fn handle_event(&mut self, event: Event)
        requires
            old(self).wf(),
        ensures
            final(self).wf(),
            ui_step(old(self).ui, event, old(self).game, final(self).game, final(self).ui),
    {
        let ui = self.ui;
        self.ui = ui.on(event, &mut self.game);
    }

    /// Acts on a key press; returns false when the program should end.
    pub fn handle_key(&mut self, code: KeyCode, m: Modifiers) -> (go_on: bool)
        requires
            old(self).wf(),
        ensures
            final(self).wf(),
            go_on == (key_command(code, m) != Command::Quit),
            key_command(code, m) matches Command::Ui(e) ==> ui_step(
                old(self).ui,
                e,
                old(self).game,
                final(self).game,
                final(self).ui,
            ),
            key_command(code, m) is Restart ==> (fresh_game(final(self).game) && final(self).ui == UIState::new_spec()),
            (key_command(code, m) is Ignore || key_command(code, m) is Quit) ==> (final(self).game
                == old(self).game && final(self).ui == old(self).ui),
    {
        match command_for_key(code, m) {
            Command::Ui(e) => {
                self.handle_event(e);
                true
            },
            Command::Restart => {
                self.handle_reset();
                true
            },
            Command::Quit => false,
            Command::Ignore => true,
        }
    }

    /// Lets `dt` pass.
    pub fn handle_tick(&mut self, dt: Duration)
        requires
            old(self).wf(),
        ensures
            final(self).wf(),
            ui_step(old(self).ui, Event::Tick(dt), old(self).game, final(self).game, final(self).ui),
    {
        self.handle_event(Event::Tick(dt));
    }

    /// Acts on a click at `loc`, or on nothing.
    pub fn handle_click(&mut self, loc: Option<CardLocation>)
        requires
            old(self).wf(),
        ensures
            final(self).wf(),
            ui_step(old(self).ui, Event::Click(loc), old(self).game, final(self).game, final(self).ui),
    {
        self.handle_event(Event::Click(loc));
    }
}

} // verus!
