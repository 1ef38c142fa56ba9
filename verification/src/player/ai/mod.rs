//! The computer players and what they are built from.

pub mod alpha_beta;
pub mod clock;
pub mod config;
pub mod eval;
pub mod evaluator;
pub mod minimax;
pub mod ordering;
pub mod pst;
pub mod random;
pub mod see;
pub mod tt;

pub use alpha_beta::AlphaBetaAI;
pub use minimax::MinimaxAI;
pub use random::RandomAI;
