//! Device-independent input: the keys, modifiers and presses that a
//! terminal or browser front end reports.
use vstd::prelude::*;

verus! {

/// A key on the keyboard.
#[derive(Debug, Copy, Clone, PartialEq, Eq, Structural)]
pub enum KeyCode {
    Char(char),
    F(u8),
    Backspace,
    Enter,
    Left,
    Right,
    Up,
    Down,
    Tab,
    Delete,
    Home,
    End,
    PageUp,
    PageDown,
    Esc,
    Unknown,
}

/// The modifier keys held during a press.
#[derive(Debug, Copy, Clone, PartialEq, Eq, Structural)]
pub struct Modifiers {
    pub ctrl: bool,
    pub alt: bool,
    pub shift: bool,
}

/// A raw input event.
#[derive(Debug, Copy, Clone, PartialEq, Eq, Structural)]
pub enum Event {
    /// A key press with the modifiers held.
    KeyPress(KeyCode, Modifiers),
    /// A mouse press at a column and row of the screen.
    MousePress(u16, u16, Modifiers),
    Unknown,
}

/// Whether a component acted on an event.
#[derive(Debug, Copy, Clone, PartialEq, Eq, Structural)]
pub enum EventState {
    Consumed,
    NotConsumed,
}

} // verus!
