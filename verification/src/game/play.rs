//! The state of a game and the step from one turn to the next.

use vstd::prelude::*;
use crate::logic::rules::{
    apply_move, checkmated, is_checkmate, legal, legal_moves, successor,
};
use crate::logic::zobrist::ZobristHasher;
use crate::model::board::{Board, BoardRecord};
use crate::model::mv::Move;
use crate::model::types::PlayerId;

verus! {

/// The record of a game: the name of the layout it started from, the names
/// of the players and the moves, the first player's first.
#[derive(Debug)]
pub struct KifuData {
    pub board_setup: String,
    pub player1_name: String,
    pub player2_name: String,
    pub moves: Vec<Move>,
}

/// From whose side the board is shown.
#[derive(Debug, Clone, Copy, PartialEq, Eq, Structural)]
pub enum PerspectiveMode {
    /// Always from the side of the given player.
    Fixed(PlayerId),
    /// From the side of whoever is to move.
    AutoFlip,
}

/// Whether a game goes on.
#[derive(Debug, Clone, Copy, PartialEq, Eq, Structural)]
pub enum GameStatus {
    /// The side to move has a legal move.
    Ongoing,
    /// The side to move is checkmated.
    Checkmate { winner: PlayerId },
    /// The side to move has no legal move and is not in check.
    NoMoves { winner: PlayerId },
}

/// What a turn led to.
#[derive(Debug, Clone, Copy, PartialEq, Eq, Structural)]
pub enum Turn {
    /// The move was made and the other side is to move.
    Moved,
    /// The side to move resigned.
    Resigned { winner: PlayerId },
}

/// A game in progress.
pub struct Game {
    pub board: Board,
    pub current_player: PlayerId,
    pub perspective_mode: PerspectiveMode,
    /// The moves made so far.
    pub history: Vec<Move>,
    /// The name of the layout from which the game started.
    pub board_setup: String,
}

/// The status of a position with `player` to move.
pub open spec fn status_of(v: crate::model::board::BoardView, player: PlayerId) -> GameStatus {
    if legal(v, player).len() > 0 {
        GameStatus::Ongoing
    } else if checkmated(v, player) {
        GameStatus::Checkmate { winner: player.other() }
    } else {
        GameStatus::NoMoves { winner: player.other() }
    }
}

impl Game {
    /// A game that starts on `board` with the first player to move.
    pub fn new(board: Board) -> (g: Self)
        ensures
            g.board == board,
            g.current_player == PlayerId::Player1,
            g.perspective_mode == PerspectiveMode::AutoFlip,
            g.history@ == Seq::<Move>::empty(),
            g.board_setup@ == "Unknown"@,
    {
        Game {
            board,
            current_player: PlayerId::Player1,
            perspective_mode: PerspectiveMode::AutoFlip,
            history: Vec::new(),
            board_setup: "Unknown".to_string(),
        }
    }

    /// A game that starts on `board`, which came from the named layout.
    pub fn with_setup(board: Board, board_setup: String) -> (g: Self)
        ensures
            g.board == board,
            g.current_player == PlayerId::Player1,
            g.perspective_mode == PerspectiveMode::AutoFlip,
            g.history@ == Seq::<Move>::empty(),
            g.board_setup == board_setup,
    {
        Game {
            board,
            current_player: PlayerId::Player1,
            perspective_mode: PerspectiveMode::AutoFlip,
            history: Vec::new(),
            board_setup,
        }
    }

    /// From whose side the board is shown now.
    pub fn perspective(&self) -> (p: PlayerId)
        ensures
            p == match self.perspective_mode {
                PerspectiveMode::Fixed(q) => q,
                PerspectiveMode::AutoFlip => self.current_player,
            },
    {
        match self.perspective_mode {
            PerspectiveMode::Fixed(q) => q,
            PerspectiveMode::AutoFlip => self.current_player,
        }
    }

    /// Whether the game goes on, and who has won if it does not.
    pub fn status(&self) -> (s: GameStatus)
        requires
            self.board.wf(),
        ensures
            s == status_of(self.board@, self.current_player),
    {
        let moves = legal_moves(&self.board, self.current_player);
        if moves.len() > 0 {
            GameStatus::Ongoing
        } else if is_checkmate(&self.board, self.current_player) {
            GameStatus::Checkmate { winner: self.current_player.opponent() }
        } else {
            GameStatus::NoMoves { winner: self.current_player.opponent() }
        }
    }

    /// Takes the answer of the side to move. A move is made on the board and
    /// recorded, and the turn passes; no answer is a resignation and leaves
    /// the game as it is.
    pub fn advance(&mut self, choice: Option<Move>) -> (t: Turn)
        requires
            old(self).board.wf(),
        ensures
            final(self).board.wf(),
            final(self).perspective_mode == old(self).perspective_mode,
            final(self).board_setup == old(self).board_setup,
            match choice {
                Some(mv) => {
                    &&& t == Turn::Moved
                    &&& final(self).board@ == successor(
                        old(self).board@,
                        mv,
                        old(self).current_player,
                    )
                    &&& final(self).board.record() == (BoardRecord {
                        last_move: Some(mv),
                        ..old(self).board.record()
                    })
                    &&& final(self).current_player == old(self).current_player.other()
                    &&& final(self).history@ == old(self).history@.push(mv)
                },
                None => {
                    &&& t == Turn::Resigned { winner: old(self).current_player.other() }
                    &&& final(self).board == old(self).board
                    &&& final(self).current_player == old(self).current_player
                    &&& final(self).history@ == old(self).history@
                },
            },
    {
        match choice {
            Some(mv) => {
                self.board = apply_move(&self.board, &mv, self.current_player);
                self.history.push(mv);
                self.current_player = self.current_player.opponent();
                Turn::Moved
            },
            None => Turn::Resigned { winner: self.current_player.opponent() },
        }
    }
}

/// How an unattended game stands.
#[derive(Debug, Clone, Copy, PartialEq, Eq, Structural)]
pub enum Outcome {
    /// The game goes on.
    Open,
    /// The game is drawn: by the move limit, by repetition or by stalemate.
    Draw,
    /// The given side has won by checkmate.
    Won(PlayerId),
}

/// How an unattended game stands after `move_count` moves, with a limit of
/// `max_moves`: a draw at the limit, a draw where the recorded hash of the
/// position occurs four times in its history, and where the side to move has
/// no legal move a win of the other side if it is in check and a draw if not.
pub open spec fn outcome_of(game: &Game, move_count: nat, max_moves: nat) -> Outcome {
    if move_count >= max_moves {
        Outcome::Draw
    } else if crate::logic::zobrist::occurrences(
        game.board.record().history,
        game.board.record().zobrist_hash,
    ) >= 4 {
        Outcome::Draw
    } else if legal(game.board@, game.current_player).len() > 0 {
        Outcome::Open
    } else if crate::logic::rules::in_check(game.board@, game.current_player) {
        Outcome::Won(game.current_player.other())
    } else {
        Outcome::Draw
    }
}

impl Game {
    /// Takes the answer of the side to move as `advance` does, and keeps the
    /// books of the board with the given hasher: the hash of the position that
    /// was left joins the history and the hash of the new position is
    /// recorded, so that repetitions can be counted.
    pub fn advance_recorded(&mut self, hasher: &ZobristHasher, choice: Option<Move>) -> (t: Turn)
        requires
            old(self).board.wf(),
        ensures
            final(self).board.wf(),
            final(self).perspective_mode == old(self).perspective_mode,
            final(self).board_setup == old(self).board_setup,
            match choice {
                Some(mv) => {
                    &&& t == Turn::Moved
                    &&& final(self).board@ == successor(
                        old(self).board@,
                        mv,
                        old(self).current_player,
                    )
                    &&& final(self).board.record() == (BoardRecord {
                        last_move: Some(mv),
                        zobrist_hash: hasher@.position_hash(
                            final(self).board@,
                            final(self).current_player,
                        ),
                        history: old(self).board.record().history.push(
                            hasher@.position_hash(old(self).board@, old(self).current_player),
                        ),
                    })
                    &&& final(self).current_player == old(self).current_player.other()
                    &&& final(self).history@ == old(self).history@.push(mv)
                },
                None => {
                    &&& t == Turn::Resigned { winner: old(self).current_player.other() }
                    &&& final(self).board == old(self).board
                    &&& final(self).current_player == old(self).current_player
                    &&& final(self).history@ == old(self).history@
                },
            },
    {
        match choice {
            Some(mv) => {
                self.board = hasher.apply_move_recorded(&self.board, &mv, self.current_player);
                self.history.push(mv);
                self.current_player = self.current_player.opponent();
                Turn::Moved
            },
            None => Turn::Resigned { winner: self.current_player.opponent() },
        }
    }

    /// How the game stands if nobody attends it.
    pub fn outcome(&self, move_count: usize, max_moves: usize) -> (o: Outcome)
        requires
            self.board.wf(),
        ensures
            o == outcome_of(self, move_count as nat, max_moves as nat),
    {
        if move_count >= max_moves {
            return Outcome::Draw;
        }
        let hash = self.board.zobrist_hash();
        if crate::logic::zobrist::repetition_count(&self.board, hash) >= 4 {
            return Outcome::Draw;
        }
        if legal_moves(&self.board, self.current_player).len() > 0 {
            Outcome::Open
        } else if crate::logic::rules::is_in_check(&self.board, self.current_player) {
            Outcome::Won(self.current_player.opponent())
        } else {
            Outcome::Draw
        }
    }
}

/// The turns at which the score swung by more than 2000 against the turn
/// before, in ascending order.
pub open spec fn swings(scores: Seq<i32>, n: nat) -> Seq<usize>
    decreases n,
{
    if n <= 1 {
        Seq::empty()
    } else {
        let rest = swings(scores, (n - 1) as nat);
        let d = scores[n - 1] - scores[n - 2];
        if d > 2000 || d < -2000 {
            rest.push((n - 1) as usize)
        } else {
            rest
        }
    }
}

/// The turns at which the score swung by more than 2000 against the turn
/// before.
pub fn critical_moments(scores: &Vec<i32>) -> (r: Vec<usize>)
    ensures
        r@ == swings(scores@, scores@.len()),
{
    let mut r: Vec<usize> = Vec::new();
    let mut i: usize = 1;
    if scores.len() < 2 {
        return r;
    }
    while i < scores.len()
        invariant
            1 <= i <= scores@.len(),
            r@ == swings(scores@, i as nat),
        decreases scores@.len() - i,
    {
        let d: i64 = scores[i] as i64 - scores[i - 1] as i64;
        if d > 2000 || d < -2000 {
            r.push(i);
        }
        i += 1;
    }
    r
}

} // verus!
