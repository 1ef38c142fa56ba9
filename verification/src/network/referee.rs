//! The decisions of the relay server: whose move counts, and whether it is
//! legal.

use vstd::prelude::*;
use crate::logic::rules::{apply_move, legal, legal_moves, successor};
use crate::model::board::{Board, BoardRecord};
use crate::model::mv::Move;
use crate::model::types::PlayerId;
use crate::player::ai::alpha_beta::contains_move;

verus! {

/// What the server makes of a move that a client sent.
#[derive(Debug, Clone, Copy, PartialEq, Eq, Structural)]
pub enum Verdict {
    /// The move was made: both clients are told the new position.
    Accepted,
    /// The move is not legal: the sender is told so.
    Illegal,
    /// It is not the sender's turn: nothing happens.
    Ignored,
}

/// The game that the server relays.
pub struct Referee {
    pub board: Board,
    pub next_player: PlayerId,
}

impl Referee {
    /// A game that starts on `board` with the first player to move.
    pub fn new(board: Board) -> (r: Self)
        ensures
            r.board == board,
            r.next_player == PlayerId::Player1,
    {
        Referee { board, next_player: PlayerId::Player1 }
    }

    /// Takes a move that `sender` sent. The move of the side that is to
    /// move is made if it is legal; any other move changes nothing.
    pub fn submit(&mut self, sender: PlayerId, mv: Move) -> (v: Verdict)
        requires
            old(self).board.wf(),
        ensures
            final(self).board.wf(),
            v == if sender != old(self).next_player {
                Verdict::Ignored
            } else if legal(old(self).board@, sender).contains(mv) {
                Verdict::Accepted
            } else {
                Verdict::Illegal
            },
            v == Verdict::Accepted ==> final(self).board@ == successor(
                old(self).board@,
                mv,
                sender,
            ) && final(self).board.record() == (BoardRecord {
                last_move: Some(mv),
                ..old(self).board.record()
            }) && final(self).next_player == sender.other(),
            v != Verdict::Accepted ==> final(self).board == old(self).board,
            v != Verdict::Accepted ==> final(self).next_player == old(self).next_player,
    {
        if sender != self.next_player {
            return Verdict::Ignored;
        }
        let moves = legal_moves(&self.board, sender);
        if contains_move(&moves, &mv) {
            self.board = apply_move(&self.board, &mv, sender);
            self.next_player = sender.opponent();
            Verdict::Accepted
        } else {
            Verdict::Illegal
        }
    }
}

} // verus!
