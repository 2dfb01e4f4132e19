//! A real-time multiplayer arena on a bounded grid.
//!
//! Players join a game, each on a cell of the grid, and move one cell at a
//! time. A periodic tick rewards every player who stands alone on a cell and
//! penalises and relocates those who share one, then tells every player
//! where they stand and what their score is.

pub mod census;
pub mod client;
pub mod game;
pub mod grid;
pub mod message;
mod outside;
pub mod render;
pub mod tick;
pub mod wire;

pub use client::{Client, ClientState, PENALTY, REWARD};
pub use game::{Game, GameError, GameView, COLORS, MAX_ID};
pub use grid::{Direction, Field, Position};
pub use message::{DecodeError, Message};
pub use render::Draw;
