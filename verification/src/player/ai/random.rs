//! The player that picks any legal move.

use vstd::prelude::*;
use rand::seq::SliceRandom;
use crate::model::board::Board;
use crate::model::mv::Move;
use crate::model::types::PlayerId;
use crate::player::controller::PlayerController;

verus! {

/// Calls `SliceRandom::choose` of the rand crate on the moves, with the
/// generator of `rand::thread_rng()`: one of the moves, picked at random, or
/// nothing if there is none. Which one comes back is not claimed.
#[verifier::external_body]
fn choose_any(moves: &[Move]) -> (r: Option<Move>)
    ensures
        r is None <==> moves@.len() == 0,
        r matches Some(m) ==> moves@.contains(m),
{
    moves.choose(&mut rand::thread_rng()).copied()
}

/// A player that picks one of the legal moves at random.
pub struct RandomAI {
    pub name: String,
}

impl RandomAI {
    pub fn new(_player_id: PlayerId, name: &str) -> (ai: Self)
        ensures
            ai.name@ == name@,
    {
        RandomAI { name: name.to_string() }
    }
}

impl PlayerController for RandomAI {
    /// One of the legal moves, and nothing only if there is none.
    fn choose_move(&mut self, _board: &Board, legal_moves: &[Move]) -> (r: Option<Move>)
        ensures
            r is None <==> legal_moves@.len() == 0,
            r matches Some(m) ==> legal_moves@.contains(m),
    {
        choose_any(legal_moves)
    }

    fn name(&self) -> (n: &str)
        ensures
            n@ == self.name@,
    {
        self.name.as_str()
    }

    fn is_local(&self) -> (b: bool)
        ensures
            b,
    {
        true
    }
}

} // verus!
