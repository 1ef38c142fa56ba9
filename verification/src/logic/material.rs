//! A plain material count, for players that need no more.

use vstd::prelude::*;
use crate::model::board::{Board, BoardView};
use crate::model::piece::{PieceKind, PIECE_KINDS};
use crate::model::types::{PlayerId, Position};

verus! {

/// The plain value of a kind, in hundredths of a pawn.
pub open spec fn plain_value(kind: PieceKind) -> int {
    match kind {
        PieceKind::S_King | PieceKind::C_King => 100000,
        PieceKind::S_Rook | PieceKind::C_Rook => 900,
        PieceKind::S_Bishop | PieceKind::C_Bishop => 800,
        PieceKind::C_Queen => 1000,
        PieceKind::S_Gold
        | PieceKind::S_ProSilver
        | PieceKind::S_ProKnight
        | PieceKind::S_ProLance
        | PieceKind::S_ProPawn => 600,
        PieceKind::S_Silver | PieceKind::C_Knight => 500,
        PieceKind::S_Knight => 400,
        PieceKind::S_Lance => 300,
        PieceKind::S_Pawn | PieceKind::C_Pawn => 100,
        PieceKind::S_ProRook | PieceKind::S_ProBishop => 1100,
    }
}

/// The plain value of a kind.
pub fn get_piece_value(kind: PieceKind) -> (v: i32)
    ensures
        v == plain_value(kind),
        100 <= v <= 100000,
{
    match kind {
        PieceKind::S_King | PieceKind::C_King => 100000,
        PieceKind::S_Rook | PieceKind::C_Rook => 900,
        PieceKind::S_Bishop | PieceKind::C_Bishop => 800,
        PieceKind::C_Queen => 1000,
        PieceKind::S_Gold
        | PieceKind::S_ProSilver
        | PieceKind::S_ProKnight
        | PieceKind::S_ProLance
        | PieceKind::S_ProPawn => 600,
        PieceKind::S_Silver | PieceKind::C_Knight => 500,
        PieceKind::S_Knight => 400,
        PieceKind::S_Lance => 300,
        PieceKind::S_Pawn | PieceKind::C_Pawn => 100,
        PieceKind::S_ProRook | PieceKind::S_ProBishop => 1100,
    }
}

/// `x` counted for `player` if `owner` is that side, against it otherwise.
pub open spec fn signed_for(player: PlayerId, owner: PlayerId, x: int) -> int {
    if owner == player {
        x
    } else {
        -x
    }
}

/// What the piece on square `p` counts for from the point of view of `player`.
pub open spec fn square_balance(v: BoardView, p: Position, player: PlayerId) -> int {
    match v.piece_at(p) {
        Some(piece) => signed_for(player, piece.owner, plain_value(piece.kind)),
        None => 0,
    }
}

/// The balance of the first `x` squares of rank `y`.
pub open spec fn rank_balance(v: BoardView, player: PlayerId, y: nat, x: nat) -> int
    decreases x,
{
    if x == 0 {
        0
    } else {
        rank_balance(v, player, y, (x - 1) as nat) + square_balance(
            v,
            Position { x: (x - 1) as usize, y: y as usize },
            player,
        )
    }
}

/// The balance of the first `y` ranks.
pub open spec fn board_balance(v: BoardView, player: PlayerId, y: nat) -> int
    decreases y,
{
    if y == 0 {
        0
    } else {
        board_balance(v, player, (y - 1) as nat) + rank_balance(v, player, (y - 1) as nat, v.width)
    }
}

/// What one piece of a kind in hand counts for: its plain value and a tenth
/// more, rounded down.
pub open spec fn plain_hand_unit(kind: PieceKind) -> int {
    plain_value(kind) * 11 / 10
}

/// The balance of the first `k` kinds in the hand of `owner`, from the point
/// of view of `player`.
pub open spec fn hand_balance(v: BoardView, player: PlayerId, owner: PlayerId, k: nat) -> int
    decreases k,
{
    if k == 0 {
        0
    } else {
        hand_balance(v, player, owner, (k - 1) as nat) + signed_for(
            player,
            owner,
            plain_hand_unit(PieceKind::at(k - 1)) * v.hand_count(owner, PieceKind::at(k - 1)),
        )
    }
}

/// The material balance of a position from the point of view of `player`:
/// the plain values of its pieces less those of the other side, pieces in
/// hand counted a tenth higher.
pub open spec fn material_balance(v: BoardView, player: PlayerId) -> int {
    board_balance(v, player, v.height) + hand_balance(
        v,
        player,
        PlayerId::Player1,
        PIECE_KINDS as nat,
    ) + hand_balance(v, player, PlayerId::Player2, PIECE_KINDS as nat)
}

/// A number cut to the range of `i32`.
pub open spec fn cut_to_i32(x: int) -> int {
    if x < i32::MIN {
        i32::MIN as int
    } else if x > i32::MAX {
        i32::MAX as int
    } else {
        x
    }
}

proof fn lemma_unit_times_count(unit: int, count: int)
    requires
        0 <= unit <= 110000,
        0 <= count <= 0x1_0000_0000_0000_0000,
    ensures
        0 <= unit * count <= 110000 * 0x1_0000_0000_0000_0000,
{
    assert(0 <= unit * count <= 110000 * 0x1_0000_0000_0000_0000) by (nonlinear_arith)
        requires
            0 <= unit <= 110000,
            0 <= count <= 0x1_0000_0000_0000_0000,
    ;
}

/// The balance of the hand of `owner` from the point of view of `player`.
fn hand_balance_of(board: &Board, player: PlayerId, owner: PlayerId) -> (r: i128)
    requires
        board.wf(),
    ensures
        r == hand_balance(board@, player, owner, PIECE_KINDS as nat),
        -20 * 110000 * 0x1_0000_0000_0000_0000 <= r <= 20 * 110000 * 0x1_0000_0000_0000_0000,
{
    let mut total: i128 = 0;
    let mut k: usize = 0;
    while k < PIECE_KINDS
        invariant
            board.wf(),
            k <= PIECE_KINDS,
            total == hand_balance(board@, player, owner, k as nat),
            -k * 110000 * 0x1_0000_0000_0000_0000 <= total <= k * 110000 * 0x1_0000_0000_0000_0000,
        decreases PIECE_KINDS - k,
    {
        let kind = PieceKind::from_index(k);
        let count = board.hand_count(owner, kind);
        let unit: i128 = (get_piece_value(kind) as i128 * 11) / 10;
        proof {
            lemma_unit_times_count(unit as int, count as int);
        }
        let worth = unit * (count as i128);
        if owner == player {
            total = total + worth;
        } else {
            total = total - worth;
        }
        k += 1;
    }
    total
}

/// The material balance of the position on `board` from the point of view of
/// `player`, cut to the range of the result.
pub fn evaluate(board: &Board, player: PlayerId) -> (r: i32)
    requires
        board.wf(),
    ensures
        r == cut_to_i32(material_balance(board@, player)),
{
    proof {
        board.lemma_view_wf();
    }
    let mut total: i128 = 0;
    let mut y: usize = 0;
    while y < board.height()
        invariant
            board.wf(),
            board@.wf(),
            y <= board@.height,
            total == board_balance(board@, player, y as nat),
            -900000 * y <= total <= 900000 * y,
        decreases board@.height - y,
    {
        let mut row: i128 = 0;
        let mut x: usize = 0;
        while x < board.width()
            invariant
                board.wf(),
                board@.wf(),
                y < board@.height,
                x <= board@.width,
                row == rank_balance(board@, player, y as nat, x as nat),
                -100000 * x <= row <= 100000 * x,
            decreases board@.width - x,
        {
            if let Some(piece) = board.get_piece(Position::new(x, y)) {
                let val = get_piece_value(piece.kind) as i128;
                if piece.owner == player {
                    row = row + val;
                } else {
                    row = row - val;
                }
            }
            x += 1;
        }
        total = total + row;
        y += 1;
    }
    total = total + hand_balance_of(board, player, PlayerId::Player1);
    total = total + hand_balance_of(board, player, PlayerId::Player2);
    if total < i32::MIN as i128 {
        i32::MIN
    } else if total > i32::MAX as i128 {
        i32::MAX
    } else {
        total as i32
    }
}

} // verus!
