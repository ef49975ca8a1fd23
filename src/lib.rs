//! Rules engine for a two-player throwing game on a 7x7 board: move
//! validation, legal-move generation and the game's turn lifecycle.
pub mod board;
pub mod coord;
pub mod game;
pub mod laws;
pub mod rules;

pub use board::{Board, Piece, Player, Square};
pub use coord::{BoardCoordinate, Direction};
pub use game::{Game, LegalMove};
pub use rules::{ExtraThrows, Move, Rejection};
