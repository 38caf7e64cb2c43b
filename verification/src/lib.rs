//! A cellular automaton on a bounded rectangular board: the generation rule,
//! resizing, manual editing, and a plain-text snapshot format.

pub mod board;
pub mod game;
pub mod laws;
pub mod snapshot;
pub mod text;
