//! Transition engine of a turn-based card game: a state, a closed vocabulary
//! of commands, effect modules that describe each behaviour as a weighted set
//! of deterministic transforms, a resolver that samples and applies one
//! transform, and a move generator that lists the legal commands of the
//! current decision point.
//!
//! Contracts are stated over the values of the types (`StateView` and the
//! like). `actions::apply_action::step` says what resolving a command does,
//! `move_generation::possible_actions::possible_actions` what the move
//! generator offers, and `theorems` holds what follows for every state.

pub mod ability_ids;
pub mod actions;
pub mod attack_ids;
pub mod attacks;
pub mod card_ids;
pub mod database;
pub mod deck;
pub mod game;
pub mod move_generation;
pub mod players;
pub mod rng;
pub mod state;
pub mod text;
pub mod theorems;
pub mod tool_ids;
pub mod types;
pub mod util;

pub use deck::Deck;
pub use game::Game;
pub use move_generation::generate_possible_actions;
pub use state::State;
