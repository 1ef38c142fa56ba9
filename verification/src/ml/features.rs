//! The layout of the input of a learned evaluator: for each square of a 9 by
//! 9 board one entry for "empty" and one for each kind of each side, then
//! the counts of the kinds that can be in hand, then the side to move.

use vstd::prelude::*;
use crate::model::board::{Board, BoardView};
use crate::model::piece::PieceKind;
use crate::model::types::{PlayerId, Position};

verus! {

/// The number of entries for each square: empty, 20 kinds of the own side,
/// 20 kinds of the other side.
pub const NUM_PIECE_TYPES: usize = 41;

/// The number of kinds that are counted in each hand.
pub const NUM_HAND_KINDS: usize = 11;

/// The count at which a hand entry is full.
pub const MAX_HAND_COUNT: usize = 18;

/// The entry of a kind among the entries of a square, for a piece of the
/// side from whose point of view the position is described.
pub open spec fn kind_entry(kind: PieceKind) -> int {
    match kind {
        PieceKind::S_Pawn => 1,
        PieceKind::S_Lance => 2,
        PieceKind::S_Knight => 3,
        PieceKind::S_Silver => 4,
        PieceKind::S_Gold => 5,
        PieceKind::S_Bishop => 6,
        PieceKind::S_Rook => 7,
        PieceKind::S_King => 8,
        PieceKind::S_ProPawn => 9,
        PieceKind::S_ProLance => 10,
        PieceKind::S_ProKnight => 11,
        PieceKind::S_ProSilver => 12,
        PieceKind::S_ProBishop => 13,
        PieceKind::S_ProRook => 14,
        PieceKind::C_Pawn => 15,
        PieceKind::C_Knight => 16,
        PieceKind::C_Bishop => 17,
        PieceKind::C_Rook => 18,
        PieceKind::C_Queen => 19,
        PieceKind::C_King => 20,
    }
}

/// The entry of a piece among the entries of its square: that of its kind,
/// 20 further on for a piece of the other side.
pub open spec fn piece_entry(kind: PieceKind, owner: PlayerId, perspective: PlayerId) -> int {
    if owner == perspective {
        kind_entry(kind)
    } else {
        kind_entry(kind) + 20
    }
}

/// The entry that is set for a square: 0 for an empty square, else that of
/// its piece.
pub open spec fn square_entry(v: BoardView, p: Position, perspective: PlayerId) -> int {
    match v.piece_at(p) {
        Some(piece) => piece_entry(piece.kind, piece.owner, perspective),
        None => 0,
    }
}

/// The kinds that are counted in a hand, in the order of their entries.
pub open spec fn hand_kinds() -> Seq<PieceKind> {
    seq![
        PieceKind::S_Pawn,
        PieceKind::S_Lance,
        PieceKind::S_Knight,
        PieceKind::S_Silver,
        PieceKind::S_Gold,
        PieceKind::S_Bishop,
        PieceKind::S_Rook,
        PieceKind::C_Pawn,
        PieceKind::C_Knight,
        PieceKind::C_Bishop,
        PieceKind::C_Rook,
    ]
}

/// Describes positions as input for a learned evaluator.
pub struct BoardFeatureExtractor;

impl BoardFeatureExtractor {
    /// The entry of a piece among the entries of its square.
    pub fn piece_to_index(kind: PieceKind, owner: PlayerId, perspective: PlayerId) -> (i: usize)
        ensures
            i == piece_entry(kind, owner, perspective),
            1 <= i < NUM_PIECE_TYPES,
    {
        let base_idx: usize = match kind {
            PieceKind::S_Pawn => 1,
            PieceKind::S_Lance => 2,
            PieceKind::S_Knight => 3,
            PieceKind::S_Silver => 4,
            PieceKind::S_Gold => 5,
            PieceKind::S_Bishop => 6,
            PieceKind::S_Rook => 7,
            PieceKind::S_King => 8,
            PieceKind::S_ProPawn => 9,
            PieceKind::S_ProLance => 10,
            PieceKind::S_ProKnight => 11,
            PieceKind::S_ProSilver => 12,
            PieceKind::S_ProBishop => 13,
            PieceKind::S_ProRook => 14,
            PieceKind::C_Pawn => 15,
            PieceKind::C_Knight => 16,
            PieceKind::C_Bishop => 17,
            PieceKind::C_Rook => 18,
            PieceKind::C_Queen => 19,
            PieceKind::C_King => 20,
        };
        if owner == perspective {
            base_idx
        } else {
            base_idx + 20
        }
    }

    /// The entry that is set for a square.
    pub fn encode_square(board: &Board, pos: Position, perspective: PlayerId) -> (i: usize)
        requires
            board.wf(),
        ensures
            i == square_entry(board@, pos, perspective),
            i < NUM_PIECE_TYPES,
    {
        match board.get_piece(pos) {
            Some(piece) => Self::piece_to_index(piece.kind, piece.owner, perspective),
            None => 0,
        }
    }

    /// The counts of the hand of `player`, one for each kind that is counted,
    /// none above the count at which an entry is full.
    pub fn encode_hand(board: &Board, player: PlayerId) -> (counts: Vec<usize>)
        requires
            board.wf(),
        ensures
            counts@.len() == NUM_HAND_KINDS,
            forall|i: int|
                0 <= i < NUM_HAND_KINDS ==> #[trigger] counts@[i] == if board@.hand_count(
                    player,
                    hand_kinds()[i],
                ) < MAX_HAND_COUNT {
                    board@.hand_count(player, hand_kinds()[i])
                } else {
                    MAX_HAND_COUNT as nat
                },
    {
        let kinds = vec![
            PieceKind::S_Pawn,
            PieceKind::S_Lance,
            PieceKind::S_Knight,
            PieceKind::S_Silver,
            PieceKind::S_Gold,
            PieceKind::S_Bishop,
            PieceKind::S_Rook,
            PieceKind::C_Pawn,
            PieceKind::C_Knight,
            PieceKind::C_Bishop,
            PieceKind::C_Rook,
        ];
        assert(kinds@ =~= hand_kinds());
        let mut counts: Vec<usize> = Vec::new();
        let mut i: usize = 0;
        while i < kinds.len()
            invariant
                board.wf(),
                kinds@ == hand_kinds(),
                i <= kinds@.len(),
                counts@.len() == i,
                forall|j: int|
                    0 <= j < i ==> #[trigger] counts@[j] == if board@.hand_count(
                        player,
                        hand_kinds()[j],
                    ) < MAX_HAND_COUNT {
                        board@.hand_count(player, hand_kinds()[j])
                    } else {
                        MAX_HAND_COUNT as nat
                    },
            decreases kinds@.len() - i,
        {
            let n = board.hand_count(player, kinds[i]);
            counts.push(
                if n < MAX_HAND_COUNT {
                    n
                } else {
                    MAX_HAND_COUNT
                },
            );
            i += 1;
        }
        counts
    }

    /// The number of entries of a description: 41 for each of 81 squares, 11
    /// for each hand and one for the side to move.
    pub fn feature_size() -> (n: usize)
        ensures
            n == 9 * 9 * 41 + 2 * 11 + 1,
    {
        9 * 9 * NUM_PIECE_TYPES + 2 * NUM_HAND_KINDS + 1
    }
}

} // verus!
