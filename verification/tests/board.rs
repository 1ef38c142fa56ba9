use hybrid_board::logic::apply_move;
use hybrid_board::model::{Board, Move, Piece, PieceKind, PlayerId, Position};

#[test]
fn test_board_manipulation() {
    let mut board = Board::new(9, 9);
    let pos = Position { x: 4, y: 4 };
    let piece = Piece {
        kind: PieceKind::S_Pawn,
        owner: PlayerId::Player1,
        is_shogi: true,
    };

    // Place & Get
    board.place_piece(pos, piece);
    assert_eq!(board.get_piece(pos).unwrap().kind, PieceKind::S_Pawn);

    // Remove
    let removed = board.remove_piece(pos);
    assert!(removed.is_some());
    assert!(board.get_piece(pos).is_none());
}

#[test]
fn test_hand_manipulation() {
    let mut board = Board::new(9, 9);
    let p1 = PlayerId::Player1;
    let kind = PieceKind::S_Gold;

    // Add
    board.add_to_hand(p1, kind);
    assert_eq!(board.hand_count(p1, kind), 1);

    board.add_to_hand(p1, kind);
    assert_eq!(board.hand_count(p1, kind), 2);

    // Remove
    assert!(board.remove_from_hand(p1, kind));
    assert_eq!(board.hand_count(p1, kind), 1);

    // Remove last
    assert!(board.remove_from_hand(p1, kind));
    assert_eq!(board.hand_count(p1, kind), 0);

    // Remove from empty
    assert!(!board.remove_from_hand(p1, kind));
}

#[test]
fn test_find_king() {
    let mut board = Board::new(9, 9);
    let p1 = PlayerId::Player1;
    let pos = Position { x: 4, y: 8 };

    board.place_piece(
        pos,
        Piece {
            kind: PieceKind::S_King,
            owner: p1,
            is_shogi: true,
        },
    );

    assert_eq!(board.find_king(p1), Some(pos));
    assert_eq!(board.find_king(PlayerId::Player2), None);
}

#[test]
fn a_piece_cannot_be_placed_off_the_grid() {
    let mut board = Board::new(3, 4);
    let piece = Piece::new(PieceKind::S_Gold, PlayerId::Player1);
    assert!(board.place_piece(Position::new(2, 3), piece));
    assert!(!board.place_piece(Position::new(3, 0), piece));
    assert!(!board.place_piece(Position::new(0, 4), piece));
    assert!(!board.place_piece(Position::new(usize::MAX, usize::MAX), piece));
    assert!(board.get_piece(Position::new(3, 0)).is_none());
    assert!(board.get_piece(Position::new(0, 4)).is_none());
    assert_eq!(board.get_piece(Position::new(2, 3)), Some(&piece));
    let mut count = 0;
    for y in 0..9 {
        for x in 0..9 {
            if board.get_piece(Position::new(x, y)).is_some() {
                count += 1;
            }
        }
    }
    assert_eq!(count, 1);
}

#[test]
fn a_move_to_a_square_off_the_grid_changes_nothing() {
    let mut board = Board::new(5, 5);
    let rook = Piece::new(PieceKind::S_Rook, PlayerId::Player1);
    board.place_piece(Position::new(4, 2), rook);
    board.add_to_hand(PlayerId::Player1, PieceKind::S_Pawn);
    let away = Move::Normal {
        from: Position::new(4, 2),
        to: Position::new(5, 2),
        promote: None,
    };
    let next = apply_move(&board, &away, PlayerId::Player1);
    assert_eq!(next.get_piece(Position::new(4, 2)), Some(&rook));
    assert!(next.get_piece(Position::new(5, 2)).is_none());
    assert_eq!(next.hand_count(PlayerId::Player1, PieceKind::S_Pawn), 1);
    let drop = Move::Drop {
        kind: PieceKind::S_Pawn,
        to: Position::new(2, 7),
    };
    let next = apply_move(&board, &drop, PlayerId::Player1);
    assert_eq!(next.hand_count(PlayerId::Player1, PieceKind::S_Pawn), 1);
    assert!(next.get_piece(Position::new(2, 7)).is_none());
    assert_eq!(next.get_piece(Position::new(4, 2)), Some(&rook));
    // on the grid the same moves are carried out
    let along = Move::Normal {
        from: Position::new(4, 2),
        to: Position::new(0, 2),
        promote: None,
    };
    let next = apply_move(&board, &along, PlayerId::Player1);
    assert!(next.get_piece(Position::new(4, 2)).is_none());
    assert_eq!(next.get_piece(Position::new(0, 2)), Some(&rook));
    let drop = Move::Drop {
        kind: PieceKind::S_Pawn,
        to: Position::new(2, 3),
    };
    let next = apply_move(&board, &drop, PlayerId::Player1);
    assert_eq!(next.hand_count(PlayerId::Player1, PieceKind::S_Pawn), 0);
    assert!(next.get_piece(Position::new(2, 3)).is_some());
}
