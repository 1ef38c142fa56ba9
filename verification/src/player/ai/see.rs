//! Static exchange evaluation: a cheap guess at what a capture wins or loses.

use vstd::prelude::*;
use crate::model::board::{Board, BoardView};
use crate::model::mv::Move;
use crate::model::types::{PlayerId, Position};
use super::eval::{around, material_value, piece_val, sum_around, Nearby};

verus! {

/// The number of pieces of `defender` that stand within two squares of
/// `target` in each direction, the square `target` itself left out.
pub open spec fn defenders_near(v: BoardView, target: Position, defender: PlayerId) -> int {
    around(v, target, 2, defender, Nearby::Friend)
}

/// The guess at the material result of a move for `player`. A board move of
/// a piece onto an enemy piece wins the value of the piece that is taken;
/// where another piece of the enemy stands within two squares of it, the
/// taker is counted as lost in return. Any other move is guessed at 0.
pub open spec fn exchange_value(v: BoardView, mv: Move, player: PlayerId) -> int {
    match mv {
        Move::Drop { .. } => 0,
        Move::Normal { from, to, .. } => match (v.piece_at(to), v.piece_at(from)) {
            (Some(target), Some(attacker)) => if target.owner == player {
                0
            } else if defenders_near(v, to, player.other()) > 0 {
                material_value(target.kind) - material_value(attacker.kind)
            } else {
                material_value(target.kind)
            },
            _ => 0,
        },
    }
}

/// The number of pieces of `defender` within two squares of `target`, the
/// square `target` itself left out.
pub fn count_defenders_simple(board: &Board, target: Position, defender: PlayerId) -> (n: usize)
    requires
        board.wf(),
    ensures
        n == defenders_near(board@, target, defender),
{
    sum_around(board, target, 2, defender, Nearby::Friend) as usize
}

/// The guess at the material result of a move for `player`.
pub fn static_exchange_eval(board: &Board, mv: &Move, player: PlayerId) -> (r: i32)
    requires
        board.wf(),
    ensures
        r == exchange_value(board@, *mv, player),
        -20000 <= r <= 20000,
{
    let (from, to) = match mv {
        Move::Normal { from, to, .. } => (*from, *to),
        Move::Drop { .. } => {
            return 0;
        },
    };
    let captured_piece = match board.get_piece(to) {
        Some(p) => {
            if p.owner != player {
                piece_val(p.kind)
            } else {
                return 0;
            }
        },
        None => {
            return 0;
        },
    };
    let attacker = match board.get_piece(from) {
        Some(p) => piece_val(p.kind),
        None => {
            return 0;
        },
    };
    let defenders = count_defenders_simple(board, to, player.opponent());
    if defenders > 0 {
        captured_piece - attacker
    } else {
        captured_piece
    }
}

} // verus!
