//! The interface between a game and whoever decides the moves of one side.

use vstd::prelude::*;
use crate::model::board::Board;
use crate::model::mv::Move;
use super::ai::alpha_beta::Thinking;

verus! {

/// A source of moves for one side: an engine, a person at a terminal, a
/// remote peer.
pub trait PlayerController {
    /// The move that the controller makes on `board`, of which
    /// `legal_moves` are the legal ones; nothing if it resigns.
    fn choose_move(&mut self, board: &Board, legal_moves: &[Move]) -> (r: Option<Move>)
        requires
            board.wf(),
    ;

    /// The name of the player, for display.
    fn name(&self) -> (n: &str);

    /// Whether the player decides on this machine.
    fn is_local(&self) -> (b: bool);

    /// What the player reports of how it found its last move, if it reports
    /// anything. A player that says nothing else of itself reports nothing.
    fn diagnostics(&self) -> (t: Option<Thinking>)
        default_ensures
            t is None,
    {
        None
    }
}

} // verus!
