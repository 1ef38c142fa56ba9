//! The data model: players, coordinates, pieces, moves and the board.

pub mod board;
pub mod mv;
pub mod piece;
pub mod setup;
pub mod types;

pub use board::{Board, BoardRecord, BoardView};
pub use mv::Move;
pub use piece::{MoveStep, Piece, PieceKind};
pub use setup::setup_from_strings;
pub use types::{PlayerConfig, PlayerId, Position};
