//! A game in progress: the position, the side to move and the moves so far.

pub mod play;
pub mod replay;

pub use play::{Game, GameStatus, KifuData, Outcome, PerspectiveMode, Turn};
pub use replay::ReplayViewer;
