//! The rules of chess for a game between two players: which moves are legal, what a
//! move does to the board, and when a game is won or drawn.
//!
//! `movement` and `position` state the rules over sequences and numbers; `laws` and
//! `material` prove what follows from them; `piece`, `coordinate` and `chess_board`
//! hold the code that plays by them.

pub mod chess_board;
pub mod coordinate;
pub mod laws;
pub mod material;
pub mod movement;
pub mod piece;
pub mod position;

pub use chess_board::ChessBoard;
pub use coordinate::Coordinate;
pub use piece::{Color, Piece};
