//! Piece-square tables: what a piece is worth more or less for standing where
//! it stands. The tables are written for the first player, rank 0 first; the
//! second player reads them turned by half a turn.

use vstd::prelude::*;
use crate::model::piece::PieceKind;
use crate::model::types::PlayerId;

verus! {

/// Pawns gain as they advance and hold the centre files.
pub const MG_PAWN: [i32; 81] = [
    15, 15, 15, 15, 15, 15, 15, 15, 15,
    10, 10, 10, 10, 10, 10, 10, 10, 10,
    5, 5, 5, 5, 5, 5, 5, 5, 5,
    2, 2, 2, 10, 10, 2, 2, 2, 2,
    1, 1, 2, 10, 10, 2, 1, 1, 1,
    0, 0, 0, 5, 5, 0, 0, 0, 0,
    0, 0, 0, -5, -5, 0, 0, 0, 0,
    0, 0, 0, -5, -5, 0, 0, 0, 0,
    0, 0, 0, 0, 0, 0, 0, 0, 0,
];

/// Lances gain on the far ranks and lose on the rank before their own.
pub const MG_LANCE: [i32; 81] = [
    20, 20, 20, 20, 20, 20, 20, 20, 20,
    10, 10, 10, 10, 10, 10, 10, 10, 10,
    5, 5, 5, 5, 5, 5, 5, 5, 5,
    0, 0, 0, 0, 0, 0, 0, 0, 0,
    0, 0, 0, 0, 0, 0, 0, 0, 0,
    0, 0, 0, 0, 0, 0, 0, 0, 0,
    0, 0, 0, 0, 0, 0, 0, 0, 0,
    -5, -5, -5, -5, -5, -5, -5, -5, -5,
    0, 0, 0, 5, 5, 0, 0, 0, 0,
];

/// Knights gain where they can jump into the far ranks.
pub const MG_KNIGHT: [i32; 81] = [
    10, 10, 10, 10, 10, 10, 10, 10, 10,
    10, 10, 10, 10, 10, 10, 10, 10, 10,
    15, 15, 15, 15, 15, 15, 15, 15, 15,
    5, 5, 10, 10, 10, 10, 10, 5, 5,
    0, 0, 5, 5, 5, 5, 5, 0, 0,
    0, 0, 0, 0, 0, 0, 0, 0, 0,
    0, 0, 0, 0, 0, 0, 0, 0, 0,
    0, 5, 0, 0, 0, 0, 0, 5, 0,
    0, -10, 0, 0, 0, 0, 0, -10, 0,
];

/// Silver generals gain towards the front and the centre.
pub const MG_SILVER: [i32; 81] = [
    10, 10, 10, 10, 10, 10, 10, 10, 10,
    5, 5, 5, 5, 5, 5, 5, 5, 5,
    5, 5, 5, 5, 5, 5, 5, 5, 5,
    2, 2, 10, 10, 10, 10, 10, 2, 2,
    0, 2, 5, 5, 5, 5, 5, 2, 0,
    0, 0, 0, 0, 0, 0, 0, 0, 0,
    0, 0, 0, 0, 0, 0, 0, 0, 0,
    0, 0, 0, 0, 0, 0, 0, 0, 0,
    -5, -5, -5, -5, -5, -5, -5, -5, -5,
];

/// Gold generals, and what promotes to their movement, gain forward and lose at home.
pub const MG_GOLD: [i32; 81] = [
    10, 10, 10, 10, 10, 10, 10, 10, 10,
    5, 5, 5, 5, 5, 5, 5, 5, 5,
    0, 0, 0, 0, 0, 0, 0, 0, 0,
    0, 0, 2, 2, 2, 2, 2, 0, 0,
    0, 0, 2, 5, 5, 5, 2, 0, 0,
    0, 0, 1, 2, 2, 2, 1, 0, 0,
    0, 0, 0, 0, 0, 0, 0, 0, 0,
    0, 0, 0, 0, 0, 0, 0, 0, 0,
    -5, -5, -5, -5, -5, -5, -5, -5, -5,
];

/// Kings are safest in the corners of their own ranks.
pub const MG_KING: [i32; 81] = [
    -30, -40, -40, -40, -40, -40, -40, -40, -30,
    -30, -40, -40, -40, -40, -40, -40, -40, -30,
    -30, -40, -40, -40, -40, -40, -40, -40, -30,
    -30, -40, -40, -40, -40, -40, -40, -40, -30,
    -10, -20, -20, -20, -20, -20, -20, -20, -10,
    0, -10, -10, -10, -10, -10, -10, -10, 0,
    10, 0, 0, 0, 0, 0, 0, 0, 10,
    20, 10, 0, 0, 0, 0, 0, 10, 20,
    30, 40, 30, 10, 0, 10, 30, 40, 30,
];

/// Bishops, rooks, their promoted forms and the queen gain in the centre and in the far ranks.
pub const MG_GENERIC: [i32; 81] = [
    10, 10, 10, 10, 10, 10, 10, 10, 10,
    5, 5, 5, 5, 10, 5, 5, 5, 5,
    0, 0, 0, 5, 5, 5, 0, 0, 0,
    -5, 0, 5, 10, 10, 10, 5, 0, -5,
    -5, 0, 5, 10, 10, 10, 5, 0, -5,
    -5, 0, 0, 5, 5, 5, 0, 0, -5,
    -5, -5, 0, 0, 0, 0, 0, -5, -5,
    -5, -5, -5, -5, -5, -5, -5, -5, -5,
    -10, -10, -10, -10, -10, -10, -10, -10, -10,
];

/// The table of a kind.
pub open spec fn table_of(kind: PieceKind) -> Seq<i32> {
    match kind {
        PieceKind::S_Pawn | PieceKind::C_Pawn => MG_PAWN@,
        PieceKind::S_Lance => MG_LANCE@,
        PieceKind::S_Knight | PieceKind::C_Knight => MG_KNIGHT@,
        PieceKind::S_Silver => MG_SILVER@,
        PieceKind::S_Gold
        | PieceKind::S_ProPawn
        | PieceKind::S_ProLance
        | PieceKind::S_ProKnight
        | PieceKind::S_ProSilver => MG_GOLD@,
        PieceKind::S_King | PieceKind::C_King => MG_KING@,
        PieceKind::S_Bishop
        | PieceKind::C_Bishop
        | PieceKind::S_Rook
        | PieceKind::C_Rook
        | PieceKind::S_ProBishop
        | PieceKind::S_ProRook
        | PieceKind::C_Queen => MG_GENERIC@,
    }
}

/// The positional bonus of a piece of `kind` of `player` on the square with
/// number `idx` (rank times 9 plus file). The second player reads the entry
/// of the square mirrored in both rank and file, number 80 minus `idx`. A
/// number past the table gives 0.
pub open spec fn pst_value(kind: PieceKind, idx: int, player: PlayerId) -> int {
    let look = match player {
        PlayerId::Player1 => idx,
        PlayerId::Player2 => 80 - idx,
    };
    if 0 <= look < 81 {
        table_of(kind)[look] as int
    } else {
        0
    }
}

/// No entry of any table is beyond 40 either way.
pub proof fn lemma_pst_value_bounds(kind: PieceKind, idx: int, player: PlayerId)
    ensures
        -40 <= pst_value(kind, idx, player) <= 40,
{
}

/// The positional bonus of a piece of `kind` of `player` on the square with
/// number `idx`.
pub fn get_pst_value(kind: PieceKind, idx: usize, player: PlayerId) -> (r: i32)
    ensures
        r == pst_value(kind, idx as int, player),
{
    let look: usize = match player {
        PlayerId::Player1 => idx,
        PlayerId::Player2 => {
            if idx > 80 {
                return 0;
            }
            80 - idx
        },
    };
    if look >= 81 {
        return 0;
    }
    match kind {
        PieceKind::S_Pawn | PieceKind::C_Pawn => MG_PAWN[look],
        PieceKind::S_Lance => MG_LANCE[look],
        PieceKind::S_Knight | PieceKind::C_Knight => MG_KNIGHT[look],
        PieceKind::S_Silver => MG_SILVER[look],
        PieceKind::S_Gold
        | PieceKind::S_ProPawn
        | PieceKind::S_ProLance
        | PieceKind::S_ProKnight
        | PieceKind::S_ProSilver => MG_GOLD[look],
        PieceKind::S_King | PieceKind::C_King => MG_KING[look],
        PieceKind::S_Bishop
        | PieceKind::C_Bishop
        | PieceKind::S_Rook
        | PieceKind::C_Rook
        | PieceKind::S_ProBishop
        | PieceKind::S_ProRook
        | PieceKind::C_Queen => MG_GENERIC[look],
    }
}

} // verus!
