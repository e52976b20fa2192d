//! Rules engine and interaction state machine for Klondike solitaire.
pub mod card;
pub mod pile;
pub mod game_state;
pub mod klondike;
pub mod event;
pub mod ui_state;
pub mod component;
