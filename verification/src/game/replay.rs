//! Replaying a recorded game move by move.

use vstd::prelude::*;
use crate::logic::rules::{apply_move, successor};
use crate::model::board::{Board, BoardView};
use crate::model::mv::Move;
use crate::model::setup::{
    fair_rows, get_chess_setup, get_fair_setup, get_reversed_fair_setup,
    get_reversed_mixed_setup, get_shogi_setup, get_standard_mixed_setup, layout_position,
    layout_width, lemma_layouts_fit, chess_rows, reversed_fair_rows, reversed_mixed_rows, setup_from_strings,
    shogi_rows, standard_mixed_rows, texts_of,
};
use crate::model::types::PlayerId;
use crate::text::same_text;
use super::play::KifuData;

verus! {

/// The side that makes the move with the given number, counted from 0: the
/// first player makes the moves with even numbers.
pub open spec fn mover_of(i: int) -> PlayerId {
    if i % 2 == 0 {
        PlayerId::Player1
    } else {
        PlayerId::Player2
    }
}

/// Whether `boards` are the positions of a game with the given moves: one
/// more than there are moves, each the successor of the one before under the
/// move between them.
pub open spec fn replays(boards: Seq<Board>, moves: Seq<Move>) -> bool {
    &&& boards.len() == moves.len() + 1
    &&& forall|i: int| 0 <= i < boards.len() ==> (#[trigger] boards[i]).wf()
    &&& forall|i: int|
        0 <= i < moves.len() ==> (#[trigger] boards[i + 1])@ == successor(
            boards[i]@,
            moves[i],
            mover_of(i),
        )
}

/// The rows of the layout with the given name; an unknown name gives the fair
/// layout.
pub open spec fn rows_named(name: Seq<char>) -> Seq<&'static str> {
    if name == "StandardMixed"@ {
        standard_mixed_rows()
    } else if name == "ReversedMixed"@ {
        reversed_mixed_rows()
    } else if name == "ShogiOnly"@ {
        shogi_rows()
    } else if name == "ChessOnly"@ {
        chess_rows()
    } else if name == "Fair"@ {
        fair_rows()
    } else if name == "ReversedFair"@ {
        reversed_fair_rows()
    } else {
        fair_rows()
    }
}

/// Whether the first and the second player play shogi in the layout with the
/// given name.
pub open spec fn families_named(name: Seq<char>) -> (bool, bool) {
    if name == "StandardMixed"@ {
        (true, false)
    } else if name == "ReversedMixed"@ {
        (false, true)
    } else if name == "ShogiOnly"@ {
        (true, true)
    } else if name == "ChessOnly"@ {
        (false, false)
    } else if name == "Fair"@ {
        (true, true)
    } else if name == "ReversedFair"@ {
        (false, false)
    } else {
        (true, true)
    }
}

/// Steps through the positions of a recorded game.
pub struct ReplayViewer {
    kifu: KifuData,
    history: Vec<Move>,
    boards: Vec<Board>,
    current_index: usize,
}

/// The positions of a game that starts on `initial` and goes through `moves`.
fn replay_from(initial: Board, moves: &Vec<Move>) -> (boards: Vec<Board>)
    requires
        initial.wf(),
    ensures
        replays(boards@, moves@),
        boards@[0] == initial,
{
    let mut boards: Vec<Board> = Vec::new();
    let mut board = initial.clone();
    boards.push(initial);
    let mut current_player = PlayerId::Player1;
    let mut i: usize = 0;
    while i < moves.len()
        invariant
            i <= moves@.len(),
            boards@.len() == i + 1,
            boards@[0] == initial,
            board.wf(),
            board@ == boards@[i as int]@,
            current_player == mover_of(i as int),
            forall|j: int| 0 <= j < boards@.len() ==> (#[trigger] boards@[j]).wf(),
            forall|j: int|
                0 <= j < i ==> (#[trigger] boards@[j + 1])@ == successor(
                    boards@[j]@,
                    moves@[j],
                    mover_of(j),
                ),
        decreases moves@.len() - i,
    {
        board = apply_move(&board, &moves[i], current_player);
        boards.push(board.clone());
        current_player = current_player.opponent();
        i += 1;
    }
    boards
}

impl ReplayViewer {
    /// The invariant of the viewer: its positions replay its moves and it
    /// points at one of them.
    pub closed spec fn wf(&self) -> bool {
        replays(self.boards@, self.history@) && self.current_index < self.boards@.len()
    }

    /// The moves of the game.
    pub closed spec fn moves(&self) -> Seq<Move> {
        self.history@
    }

    /// The positions of the game, the initial one first.
    pub closed spec fn positions(&self) -> Seq<Board> {
        self.boards@
    }

    /// The number of the position that is shown.
    pub closed spec fn index(&self) -> nat {
        self.current_index as nat
    }

    /// The record from which the viewer was made.
    pub closed spec fn source(&self) -> KifuData {
        self.kifu
    }

    /// A viewer of the recorded game, on the layout that the record names.
    pub fn new(kifu_data: KifuData) -> (v: Self)
        ensures
            v.wf(),
            v.moves() == kifu_data.moves@,
            v.index() == 0,
            v.source() == kifu_data,
            v.positions()[0]@ == layout_position(
                texts_of(rows_named(kifu_data.board_setup@)),
                families_named(kifu_data.board_setup@).0,
                families_named(kifu_data.board_setup@).1,
            ),
    {
        let board = Self::board_from_setup(kifu_data.board_setup.as_str());
        let boards = replay_from(board, &kifu_data.moves);
        let history = crate::player::ai::minimax::moves_of(kifu_data.moves.as_slice());
        ReplayViewer { kifu: kifu_data, history, boards, current_index: 0 }
    }

    /// The board of the layout with the given name; an unknown name gives the
    /// fair layout.
    pub fn board_from_setup(setup: &str) -> (b: Board)
        ensures
            b.wf(),
            b@ == layout_position(
                texts_of(rows_named(setup@)),
                families_named(setup@).0,
                families_named(setup@).1,
            ),
    {
        proof {
            lemma_layouts_fit();
        }
        let (rows, p1_shogi, p2_shogi) = if same_text(setup, "StandardMixed") {
            (get_standard_mixed_setup(), true, false)
        } else if same_text(setup, "ReversedMixed") {
            (get_reversed_mixed_setup(), false, true)
        } else if same_text(setup, "ShogiOnly") {
            (get_shogi_setup(), true, true)
        } else if same_text(setup, "ChessOnly") {
            (get_chess_setup(), false, false)
        } else if same_text(setup, "Fair") {
            (get_fair_setup(), true, true)
        } else if same_text(setup, "ReversedFair") {
            (get_reversed_fair_setup(), false, false)
        } else {
            (get_fair_setup(), true, true)
        };
        setup_from_strings(rows.as_slice(), p1_shogi, p2_shogi).unwrap()
    }

    /// A viewer of a game that starts on `initial_board` and goes through
    /// `history`.
    pub fn with_initial_board(history: Vec<Move>, initial_board: Board) -> (v: Self)
        requires
            initial_board.wf(),
        ensures
            v.wf(),
            v.moves() == history@,
            v.positions()[0] == initial_board,
            v.index() == 0,
    {
        let boards = replay_from(initial_board, &history);
        ReplayViewer {
            kifu: KifuData {
                board_setup: "Unknown".to_string(),
                player1_name: "?".to_string(),
                player2_name: "?".to_string(),
                moves: Vec::new(),
            },
            history,
            boards,
            current_index: 0,
        }
    }

    /// The number of the position that is shown, from 0 for the initial one.
    pub fn current_index(&self) -> (i: usize)
        ensures
            i == self.index(),
    {
        self.current_index
    }

    /// The number of moves of the game.
    pub fn move_count(&self) -> (n: usize)
        ensures
            n == self.moves().len(),
    {
        self.history.len()
    }

    /// The position that is shown.
    pub fn current_board(&self) -> (b: &Board)
        requires
            self.wf(),
        ensures
            *b == self.positions()[self.index() as int],
            b.wf(),
    {
        &self.boards[self.current_index]
    }

    /// The move that led to the position that is shown, if it is not the
    /// initial one.
    pub fn last_move(&self) -> (m: Option<Move>)
        requires
            self.wf(),
        ensures
            m == if self.index() > 0 {
                Some(self.moves()[self.index() - 1])
            } else {
                None
            },
    {
        if self.current_index > 0 {
            Some(self.history[self.current_index - 1])
        } else {
            None
        }
    }

    /// The side that is to move in the position that is shown.
    pub fn next_player(&self) -> (p: PlayerId)
        ensures
            p == mover_of(self.index() as int),
    {
        if self.current_index % 2 == 0 {
            PlayerId::Player1
        } else {
            PlayerId::Player2
        }
    }

    /// Goes one move forward, unless the last position is shown.
    pub fn step_forward(&mut self)
        requires
            old(self).wf(),
        ensures
            final(self).wf(),
            final(self).moves() == old(self).moves(),
            final(self).positions() == old(self).positions(),
            final(self).index() == if old(self).index() < old(self).moves().len() {
                old(self).index() + 1
            } else {
                old(self).index()
            },
    {
        if self.current_index < self.history.len() {
            self.current_index += 1;
        }
    }

    /// Goes one move back, unless the initial position is shown.
    pub fn step_back(&mut self)
        requires
            old(self).wf(),
        ensures
            final(self).wf(),
            final(self).moves() == old(self).moves(),
            final(self).positions() == old(self).positions(),
            final(self).index() == if old(self).index() > 0 {
                (old(self).index() - 1) as nat
            } else {
                old(self).index()
            },
    {
        if self.current_index > 0 {
            self.current_index -= 1;
        }
    }

    /// The record from which the viewer was made.
    pub fn kifu(&self) -> (k: &KifuData)
        ensures
            *k == self.source(),
    {
        &self.kifu
    }
}

} // verus!
