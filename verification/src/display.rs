//! What a rendering of the board has to know beside the board, and the
//! decisions of a rendering that do not touch the screen.

use vstd::prelude::*;
use crate::model::mv::Move;
use crate::model::types::{PlayerId, Position};

verus! {

/// The state of the display.
#[derive(Debug)]
pub struct DisplayState {
    pub cursor: Position,
    pub selected: Option<Position>,
    pub highlights: Vec<Position>,
    pub status_msg: Option<String>,
    pub hand_mode: bool,
    pub hand_index: usize,
    pub last_move: Option<Move>,
    pub perspective: PlayerId,
    pub show_cursor: bool,
}

impl Default for DisplayState {
    fn default() -> (s: Self)
        ensures
            s.cursor == (Position { x: 0, y: 0 }),
            s.selected is None,
            s.highlights@.len() == 0,
            s.status_msg is None,
            !s.hand_mode,
            s.hand_index == 0,
            s.last_move is None,
            s.perspective == PlayerId::Player1,
            s.show_cursor,
    {
        DisplayState {
            cursor: Position { x: 0, y: 0 },
            selected: None,
            highlights: Vec::new(),
            status_msg: None,
            hand_mode: false,
            hand_index: 0,
            last_move: None,
            perspective: PlayerId::Player1,
            show_cursor: true,
        }
    }
}

/// How a square is framed on the screen.
#[derive(Debug, Clone, Copy, PartialEq, Eq, Structural)]
pub enum Frame {
    /// The cursor is on the square: `[ ]`.
    Cursor,
    /// The square is selected: `| |`.
    Selected,
    /// The square is a destination of the selected piece: `( )`.
    Highlight,
    /// The last move touched the square: `{ }`.
    LastMove,
    /// Nothing of these.
    Plain,
}

/// Whether a move starts or ends on a square.
pub open spec fn touches(mv: Move, pos: Position) -> bool {
    match mv {
        Move::Normal { from, to, .. } => from == pos || to == pos,
        Move::Drop { to, .. } => to == pos,
    }
}

/// The file or rank of the board that stands at place `i` on the screen,
/// where the board has `size` of them: the first player sees them in their
/// order, the second player turned around.
pub open spec fn shown_at(perspective: PlayerId, size: nat, i: nat) -> int {
    match perspective {
        PlayerId::Player1 => i as int,
        PlayerId::Player2 => size - 1 - i,
    }
}

impl DisplayState {
    /// The state of a display that has shown nothing yet.
    pub fn new() -> (s: Self)
        ensures
            s.cursor == (Position { x: 0, y: 0 }),
            s.selected is None,
            s.highlights@.len() == 0,
            s.status_msg is None,
            !s.hand_mode,
            s.hand_index == 0,
            s.last_move is None,
            s.perspective == PlayerId::Player1,
            s.show_cursor,
    {
        DisplayState {
            cursor: Position { x: 0, y: 0 },
            selected: None,
            highlights: Vec::new(),
            status_msg: None,
            hand_mode: false,
            hand_index: 0,
            last_move: None,
            perspective: PlayerId::Player1,
            show_cursor: true,
        }
    }

    /// How a square is framed: the first of cursor, selection, highlight
    /// and last move that applies.
    pub open spec fn frame_of(&self, pos: Position) -> Frame {
        if self.show_cursor && self.cursor == pos && !self.hand_mode {
            Frame::Cursor
        } else if self.selected == Some(pos) {
            Frame::Selected
        } else if self.highlights@.contains(pos) {
            Frame::Highlight
        } else if self.last_move is Some && touches(self.last_move->0, pos) {
            Frame::LastMove
        } else {
            Frame::Plain
        }
    }

    /// How a square is framed.
    pub fn frame(&self, pos: Position) -> (f: Frame)
        ensures
            f == self.frame_of(pos),
    {
        if self.show_cursor && self.cursor == pos && !self.hand_mode {
            return Frame::Cursor;
        }
        if let Some(s) = self.selected {
            if s == pos {
                return Frame::Selected;
            }
        }
        let mut i: usize = 0;
        while i < self.highlights.len()
            invariant
                i <= self.highlights@.len(),
                !(self.show_cursor && self.cursor == pos && !self.hand_mode),
                self.selected != Some(pos),
                forall|j: int| 0 <= j < i ==> self.highlights@[j] != pos,
            decreases self.highlights@.len() - i,
        {
            if self.highlights[i] == pos {
                proof {
                    assert(self.highlights@[i as int] == pos);
                    assert(self.highlights@.contains(pos));
                }
                return Frame::Highlight;
            }
            i += 1;
        }
        if let Some(mv) = self.last_move {
            let hit = match mv {
                Move::Normal { from, to, .. } => from == pos || to == pos,
                Move::Drop { to, .. } => to == pos,
            };
            if hit {
                return Frame::LastMove;
            }
        }
        Frame::Plain
    }

    /// The file or rank of the board that stands at place `i` on the screen.
    pub fn board_index(&self, size: usize, i: usize) -> (r: usize)
        requires
            i < size,
        ensures
            r == shown_at(self.perspective, size as nat, i as nat),
            r < size,
    {
        match self.perspective {
            PlayerId::Player1 => i,
            PlayerId::Player2 => size - 1 - i,
        }
    }
}

} // verus!
