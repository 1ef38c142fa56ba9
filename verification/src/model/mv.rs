//! Moves: a piece travelling on the board, or a piece entering from a hand.

use vstd::prelude::*;
use vstd::string::*;
use crate::text::append_text;
use super::piece::PieceKind;
use super::types::Position;

verus! {

/// One move of one side.
#[derive(Debug, Clone, Copy, PartialEq, Eq, Hash, Structural)]
pub enum Move {
    /// The piece on `from` goes to `to`, turning into `promote` if that is given.
    Normal { from: Position, to: Position, promote: Option<PieceKind> },
    /// A piece of `kind` leaves the mover's hand and lands on `to`.
    Drop { kind: PieceKind, to: Position },
}

impl Move {
    /// The square on which the move ends.
    pub open spec fn target(self) -> Position {
        match self {
            Move::Normal { to, .. } => to,
            Move::Drop { to, .. } => to,
        }
    }

    /// Whether the move is a board move that promotes.
    pub open spec fn promotes(self) -> bool {
        self matches Move::Normal { promote: Some(_), .. }
    }

    /// The move in words: `(x, y) -> (x, y)` for a board move, followed by
    /// ` (promote to Kind)` if it promotes, and `Drop Kind at (x, y)` for a
    /// drop.
    pub open spec fn text(self) -> Seq<char> {
        match self {
            Move::Normal { from, to, promote } => from.text() + " -> "@ + to.text() + match promote {
                Some(kind) => " (promote to "@ + kind.name_text() + ")"@,
                None => Seq::empty(),
            },
            Move::Drop { kind, to } => "Drop "@ + kind.name_text() + " at "@ + to.text(),
        }
    }

    /// The move in words.
    pub fn to_text(&self) -> (r: String)
        ensures
            r@ == self.text(),
    {
        let mut r = String::new();
        match self {
            Move::Normal { from, to, promote } => {
                from.write_to(&mut r);
                append_text(&mut r, " -> ");
                to.write_to(&mut r);
                if let Some(kind) = promote {
                    append_text(&mut r, " (promote to ");
                    append_text(&mut r, kind.name());
                    append_text(&mut r, ")");
                }
            },
            Move::Drop { kind, to } => {
                append_text(&mut r, "Drop ");
                append_text(&mut r, kind.name());
                append_text(&mut r, " at ");
                to.write_to(&mut r);
            },
        }
        proof {
            assert(r@ =~= self.text());
        }
        r
    }

    /// The square on which the move ends.
    pub fn destination(&self) -> (p: Position)
        ensures
            p == self.target(),
    {
        match self {
            Move::Normal { to, .. } => *to,
            Move::Drop { to, .. } => *to,
        }
    }

    /// Whether the move is a board move that promotes.
    pub fn is_promotion(&self) -> (b: bool)
        ensures
            b == self.promotes(),
    {
        match self {
            Move::Normal { promote, .. } => promote.is_some(),
            Move::Drop { .. } => false,
        }
    }
}

} // verus!
