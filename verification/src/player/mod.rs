//! Sources of moves: the search engines and the simpler players.

pub mod ai;
pub mod controller;

pub use ai::RandomAI;
pub use controller::PlayerController;
