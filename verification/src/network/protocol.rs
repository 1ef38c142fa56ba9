//! The messages between a client and the relay server.

use vstd::prelude::*;
use crate::model::board::Board;
use crate::model::mv::Move;
use crate::model::types::PlayerId;

verus! {

/// A message of the protocol.
#[derive(Debug)]
pub enum NetMessage {
    /// Client to server: a player asks for a game.
    Join { name: String },
    /// Client to server: the player makes a move.
    MakeMove { mv: Move },
    /// Client to server: the player gives up.
    Resign,
    /// Server to client: the side that the player has, and the board.
    Welcome { player_id: PlayerId, board: Board },
    /// Server to client: an opponent has joined.
    MatchFound { opponent_name: String },
    /// Server to client: the position after a move.
    Update { board: Board, last_move: Option<Move>, next_player: PlayerId },
    /// Server to client: the game has ended.
    GameOver { winner: PlayerId, reason: String },
    /// Server to client: something went wrong.
    Error { message: String },
}

} // verus!
