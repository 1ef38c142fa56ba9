//! Players, per-player capabilities and board coordinates.

use vstd::prelude::*;
use vstd::string::*;
use crate::text::{append_decimal, append_text, decimal};

verus! {

/// One of the two sides. `Player1` moves towards rank 0, `Player2` away from it.
#[derive(Debug, Clone, Copy, PartialEq, Eq, Hash, Structural)]
pub enum PlayerId {
    Player1,
    Player2,
}

impl Default for PlayerId {
    fn default() -> (r: Self)
        ensures
            r == PlayerId::Player1,
    {
        PlayerId::Player1
    }
}

impl PlayerId {
    /// The other side.
    pub open spec fn other(self) -> PlayerId {
        match self {
            PlayerId::Player1 => PlayerId::Player2,
            PlayerId::Player2 => PlayerId::Player1,
        }
    }

    /// 0 for the first player, 1 for the second.
    pub open spec fn index(self) -> int {
        match self {
            PlayerId::Player1 => 0,
            PlayerId::Player2 => 1,
        }
    }

    /// The direction in which this side's pieces advance along the rank axis.
    pub open spec fn forward(self) -> int {
        match self {
            PlayerId::Player1 => -1,
            PlayerId::Player2 => 1,
        }
    }

    pub fn opponent(self) -> (r: PlayerId)
        ensures
            r == self.other(),
    {
        match self {
            PlayerId::Player1 => PlayerId::Player2,
            PlayerId::Player2 => PlayerId::Player1,
        }
    }
}

/// What a side is allowed to do.
#[derive(Debug, Clone, Copy, PartialEq, Eq, Structural)]
pub struct PlayerConfig {
    /// May take enemy pieces.
    pub can_capture: bool,
    /// May promote pieces in the promotion zone.
    pub can_promote: bool,
    /// May place pieces from the hand onto the board.
    pub can_drop: bool,
    /// Taken pieces go to the hand instead of leaving the game.
    pub keep_captured: bool,
}

impl PlayerConfig {
    /// The capabilities of a shogi-style side: everything is allowed.
    pub open spec fn shogi_spec() -> PlayerConfig {
        PlayerConfig { can_capture: true, can_promote: true, can_drop: true, keep_captured: true }
    }

    /// The capabilities of a chess-style side: it captures, but neither drops,
    /// keeps what it takes, nor promotes in a zone (its pawn promotes by itself).
    pub open spec fn chess_spec() -> PlayerConfig {
        PlayerConfig {
            can_capture: true,
            can_promote: false,
            can_drop: false,
            keep_captured: false,
        }
    }

    pub fn shogi() -> (r: Self)
        ensures
            r == Self::shogi_spec(),
    {
        PlayerConfig { can_capture: true, can_promote: true, can_drop: true, keep_captured: true }
    }

    pub fn chess() -> (r: Self)
        ensures
            r == Self::chess_spec(),
    {
        PlayerConfig {
            can_capture: true,
            can_promote: false,
            can_drop: false,
            keep_captured: false,
        }
    }
}

impl Default for PlayerConfig {
    fn default() -> (r: Self)
        ensures
            r == PlayerConfig::shogi_spec(),
    {
        PlayerConfig::shogi()
    }
}

/// A square, counted from 0: `x` is the file, `y` the rank.
#[derive(Debug, Clone, Copy, PartialEq, Eq, Hash, Structural)]
pub struct Position {
    pub x: usize,
    pub y: usize,
}

impl Default for Position {
    fn default() -> (r: Self)
        ensures
            r == (Position { x: 0, y: 0 }),
    {
        Position { x: 0, y: 0 }
    }
}

impl Position {
    pub fn new(x: usize, y: usize) -> (r: Self)
        ensures
            r == (Position { x, y }),
    {
        Position { x, y }
    }

    /// The square written as `(x, y)`.
    pub open spec fn text(self) -> Seq<char> {
        seq!['('] + decimal(self.x as nat) + seq![',', ' '] + decimal(self.y as nat) + seq![')']
    }

    /// Appends the square, written as `(x, y)`, to a text.
    pub fn write_to(&self, out: &mut String)
        ensures
            final(out)@ == old(out)@ + self.text(),
    {
        proof {
            reveal_strlit("(");
            reveal_strlit(", ");
            reveal_strlit(")");
        }
        append_text(out, "(");
        append_decimal(out, self.x);
        append_text(out, ", ");
        append_decimal(out, self.y);
        append_text(out, ")");
        proof {
            assert("("@ =~= seq!['(']);
            assert(", "@ =~= seq![',', ' ']);
            assert(")"@ =~= seq![')']);
            assert(out@ =~= old(out)@ + self.text());
        }
    }

    /// The square written as `(x, y)`.
    pub fn to_text(&self) -> (r: String)
        ensures
            r@ == self.text(),
    {
        let mut r = String::new();
        self.write_to(&mut r);
        proof {
            assert(r@ =~= self.text());
        }
        r
    }
}

} // verus!
