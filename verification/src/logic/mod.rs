//! The rules: which moves a side may make, what a move does to a position,
//! and when a king is attacked.

pub mod material;
pub mod movegen;
pub mod promotion;
pub mod reach;
pub mod rules;
pub mod shape;
pub mod soundness;
pub mod zobrist;

pub use material::evaluate;
pub use movegen::{
    add_normal_moves, get_chess_pawn_moves, get_piece_moves, has_pawn_in_column, offset_pos,
    pseudo_legal_moves,
};
pub use rules::{apply_move, is_checkmate, is_in_check, is_stalemate, legal_moves};
pub use zobrist::ZobristHasher;
