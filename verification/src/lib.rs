//! The rules of a shell command history.
//!
//! `history` decides what is recorded, which database statements say so and what
//! their replies mean. `autopilot` turns text into the key events that type it.
pub mod autopilot;
pub mod history;
pub mod text;
