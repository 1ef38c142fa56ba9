use hybrid_board::model::{Board, Piece, PieceKind, PlayerId, Position};
use hybrid_board::player::ai::eval::{evaluate, piece_val};

#[test]
fn test_piece_values() {
    // Verify relative values
    assert!(piece_val(PieceKind::S_Rook) > piece_val(PieceKind::S_Gold));
    assert!(piece_val(PieceKind::S_Gold) > piece_val(PieceKind::S_Pawn));
    assert!(piece_val(PieceKind::C_Queen) > piece_val(PieceKind::S_Rook));
}

#[test]
fn test_eval_material_balance() {
    let mut board = Board::new(9, 9);
    // Empty board score should be 0
    assert_eq!(evaluate(&board), 0);

    // Add P1 Pawn
    board.place_piece(
        Position { x: 0, y: 0 },
        Piece {
            kind: PieceKind::S_Pawn,
            owner: PlayerId::Player1,
            is_shogi: true,
        },
    );
    let score_p1 = evaluate(&board);
    assert!(score_p1 > 0);

    // Add P2 Pawn (offsetting)
    board.place_piece(
        Position { x: 0, y: 8 },
        Piece {
            kind: PieceKind::S_Pawn,
            owner: PlayerId::Player2,
            is_shogi: true,
        },
    );
    // Should be roughly balanced
    let score_balanced = evaluate(&board);
    assert!(score_balanced.abs() < 200); // PST diff is small
}
