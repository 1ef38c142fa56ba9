use hybrid_board::logic::{
    apply_move, get_piece_moves, has_pawn_in_column, is_checkmate, is_in_check, is_stalemate,
    legal_moves, offset_pos, pseudo_legal_moves,
};
use hybrid_board::model::{Board, Move, Piece, PieceKind, PlayerConfig, PlayerId, Position};

fn normal(fx: usize, fy: usize, tx: usize, ty: usize, promote: Option<PieceKind>) -> Move {
    Move::Normal {
        from: Position::new(fx, fy),
        to: Position::new(tx, ty),
        promote,
    }
}

#[test]
fn offset_stays_on_the_board() {
    let board = Board::new(9, 8);
    assert_eq!(offset_pos(Position::new(0, 0), -1, 0, &board), None);
    assert_eq!(offset_pos(Position::new(0, 0), 0, -1, &board), None);
    assert_eq!(
        offset_pos(Position::new(0, 0), 1, 2, &board),
        Some(Position::new(1, 2))
    );
    assert_eq!(offset_pos(Position::new(8, 7), 1, 0, &board), None);
    assert_eq!(offset_pos(Position::new(8, 7), 0, 1, &board), None);
    assert_eq!(
        offset_pos(Position::new(9, 8), -1, -1, &board),
        Some(Position::new(8, 7))
    );
}

#[test]
fn king_in_the_corner_has_three_moves() {
    let mut board = Board::new(9, 9);
    let king = Piece::new(PieceKind::S_King, PlayerId::Player1);
    board.place_piece(Position::new(0, 8), king);
    let moves = get_piece_moves(&board, Position::new(0, 8), &king);
    assert_eq!(
        moves,
        vec![
            normal(0, 8, 0, 7, None),
            normal(0, 8, 1, 7, None),
            normal(0, 8, 1, 8, None),
        ]
    );
}

#[test]
fn rook_slides_until_blocked_and_takes_the_blocker() {
    let mut board = Board::new(9, 9);
    let rook = Piece::new(PieceKind::C_Rook, PlayerId::Player1);
    board.set_player_config(PlayerId::Player1, PlayerConfig::chess());
    board.place_piece(Position::new(0, 8), rook);
    board.place_piece(
        Position::new(0, 5),
        Piece::new(PieceKind::S_Pawn, PlayerId::Player2),
    );
    board.place_piece(
        Position::new(3, 8),
        Piece::new(PieceKind::C_Pawn, PlayerId::Player1),
    );
    let moves = get_piece_moves(&board, Position::new(0, 8), &rook);
    assert_eq!(
        moves,
        vec![
            normal(0, 8, 0, 7, None),
            normal(0, 8, 0, 6, None),
            normal(0, 8, 0, 5, None),
            normal(0, 8, 1, 8, None),
            normal(0, 8, 2, 8, None),
        ]
    );
}

#[test]
fn a_side_that_may_not_capture_stops_before_the_enemy() {
    let mut board = Board::new(9, 9);
    let rook = Piece::new(PieceKind::C_Rook, PlayerId::Player1);
    board.set_player_config(
        PlayerId::Player1,
        PlayerConfig {
            can_capture: false,
            can_promote: false,
            can_drop: false,
            keep_captured: false,
        },
    );
    board.place_piece(Position::new(0, 8), rook);
    board.place_piece(
        Position::new(0, 6),
        Piece::new(PieceKind::S_Pawn, PlayerId::Player2),
    );
    board.place_piece(
        Position::new(1, 8),
        Piece::new(PieceKind::S_Pawn, PlayerId::Player2),
    );
    let moves = get_piece_moves(&board, Position::new(0, 8), &rook);
    assert_eq!(moves, vec![normal(0, 8, 0, 7, None)]);
}

#[test]
fn promotion_is_offered_in_the_zone_and_forced_where_the_piece_would_be_stuck() {
    let mut board = Board::new(9, 9);
    let silver = Piece::new(PieceKind::S_Silver, PlayerId::Player1);
    board.place_piece(Position::new(4, 3), silver);
    let moves = get_piece_moves(&board, Position::new(4, 3), &silver);
    // forward three squares enter the zone: promoting first, then plain
    assert_eq!(
        moves,
        vec![
            normal(4, 3, 3, 2, Some(PieceKind::S_ProSilver)),
            normal(4, 3, 3, 2, None),
            normal(4, 3, 4, 2, Some(PieceKind::S_ProSilver)),
            normal(4, 3, 4, 2, None),
            normal(4, 3, 5, 2, Some(PieceKind::S_ProSilver)),
            normal(4, 3, 5, 2, None),
            normal(4, 3, 3, 4, None),
            normal(4, 3, 5, 4, None),
        ]
    );

    // the second player's zone is mirrored: ranks 6 to 8 on nine ranks
    let mut board = Board::new(9, 9);
    let pawn = Piece::new(PieceKind::S_Pawn, PlayerId::Player2);
    board.place_piece(Position::new(4, 5), pawn);
    assert_eq!(
        get_piece_moves(&board, Position::new(4, 5), &pawn),
        vec![
            normal(4, 5, 4, 6, Some(PieceKind::S_ProPawn)),
            normal(4, 5, 4, 6, None),
        ]
    );
    let mut board = Board::new(9, 9);
    board.place_piece(Position::new(4, 7), pawn);
    assert_eq!(
        get_piece_moves(&board, Position::new(4, 7), &pawn),
        vec![normal(4, 7, 4, 8, Some(PieceKind::S_ProPawn))]
    );
    // a knight is stuck on the last two ranks
    let mut board = Board::new(9, 9);
    let knight = Piece::new(PieceKind::S_Knight, PlayerId::Player1);
    board.place_piece(Position::new(4, 3), knight);
    assert_eq!(
        get_piece_moves(&board, Position::new(4, 3), &knight),
        vec![
            normal(4, 3, 3, 1, Some(PieceKind::S_ProKnight)),
            normal(4, 3, 5, 1, Some(PieceKind::S_ProKnight)),
        ]
    );
}

#[test]
fn a_side_that_may_not_promote_gets_plain_moves_only() {
    let mut board = Board::new(9, 9);
    board.set_player_config(PlayerId::Player1, PlayerConfig::chess());
    let pawn = Piece::new(PieceKind::S_Pawn, PlayerId::Player1);
    board.place_piece(Position::new(4, 1), pawn);
    assert_eq!(
        get_piece_moves(&board, Position::new(4, 1), &pawn),
        vec![normal(4, 1, 4, 0, None)]
    );
}

#[test]
fn lance_has_one_move_to_the_last_rank_and_it_promotes() {
    let mut board = Board::new(9, 9);
    let lance = Piece::new(PieceKind::S_Lance, PlayerId::Player1);
    board.place_piece(Position::new(2, 3), lance);
    let moves = legal_moves(&board, PlayerId::Player1);
    let to_last: Vec<&Move> = moves
        .iter()
        .filter(|m| matches!(m, Move::Normal { to, .. } if to.y == 0))
        .collect();
    assert_eq!(to_last, vec![&normal(2, 3, 2, 0, Some(PieceKind::S_ProLance))]);
    // ranks 2 and 1 offer both variants
    assert_eq!(moves.len(), 5);
}

#[test]
fn chess_pawn_advances_two_from_its_start_rank_and_takes_diagonally() {
    let mut board = Board::new(9, 9);
    let pawn = Piece::new(PieceKind::C_Pawn, PlayerId::Player1);
    board.place_piece(Position::new(4, 6), pawn);
    board.place_piece(
        Position::new(3, 5),
        Piece::new(PieceKind::S_Pawn, PlayerId::Player2),
    );
    board.place_piece(
        Position::new(5, 5),
        Piece::new(PieceKind::S_Gold, PlayerId::Player1),
    );
    assert_eq!(
        get_piece_moves(&board, Position::new(4, 6), &pawn),
        vec![
            normal(4, 6, 4, 5, None),
            normal(4, 6, 4, 4, None),
            normal(4, 6, 3, 5, None),
        ]
    );
    // blocked directly ahead: no advance at all
    board.place_piece(
        Position::new(4, 5),
        Piece::new(PieceKind::S_Pawn, PlayerId::Player2),
    );
    assert_eq!(
        get_piece_moves(&board, Position::new(4, 6), &pawn),
        vec![normal(4, 6, 3, 5, None)]
    );
}

#[test]
fn chess_pawn_of_the_second_player_promotes_on_the_last_rank_of_the_board() {
    let mut board = Board::new(9, 8);
    let pawn = Piece::new(PieceKind::C_Pawn, PlayerId::Player2);
    board.place_piece(Position::new(0, 6), pawn);
    board.place_piece(
        Position::new(1, 7),
        Piece::new(PieceKind::C_Rook, PlayerId::Player1),
    );
    assert_eq!(
        get_piece_moves(&board, Position::new(0, 6), &pawn),
        vec![
            normal(0, 6, 0, 7, Some(PieceKind::C_Queen)),
            normal(0, 6, 0, 7, Some(PieceKind::C_Rook)),
            normal(0, 6, 0, 7, Some(PieceKind::C_Bishop)),
            normal(0, 6, 0, 7, Some(PieceKind::C_Knight)),
            normal(0, 6, 1, 7, Some(PieceKind::C_Queen)),
            normal(0, 6, 1, 7, Some(PieceKind::C_Rook)),
            normal(0, 6, 1, 7, Some(PieceKind::C_Bishop)),
            normal(0, 6, 1, 7, Some(PieceKind::C_Knight)),
        ]
    );
}

#[test]
fn drops_go_to_empty_squares_and_pawns_never_double_up() {
    let mut board = Board::new(3, 3);
    board.place_piece(
        Position::new(0, 2),
        Piece::new(PieceKind::S_Pawn, PlayerId::Player1),
    );
    board.place_piece(
        Position::new(1, 1),
        Piece::new(PieceKind::S_ProPawn, PlayerId::Player1),
    );
    board.place_piece(
        Position::new(2, 0),
        Piece::new(PieceKind::S_Pawn, PlayerId::Player2),
    );
    board.add_to_hand(PlayerId::Player1, PieceKind::S_Pawn);
    assert!(has_pawn_in_column(&board, PlayerId::Player1, 0));
    assert!(!has_pawn_in_column(&board, PlayerId::Player1, 1));
    assert!(!has_pawn_in_column(&board, PlayerId::Player1, 2));
    let drops: Vec<Move> = pseudo_legal_moves(&board, PlayerId::Player1)
        .into_iter()
        .filter(|m| matches!(m, Move::Drop { .. }))
        .collect();
    let drop = |x: usize, y: usize| Move::Drop {
        kind: PieceKind::S_Pawn,
        to: Position::new(x, y),
    };
    assert_eq!(
        drops,
        vec![drop(1, 0), drop(2, 1), drop(1, 2), drop(2, 2)]
    );

    // a side that may not drop has none
    board.set_player_config(PlayerId::Player1, PlayerConfig::chess());
    assert!(pseudo_legal_moves(&board, PlayerId::Player1)
        .iter()
        .all(|m| matches!(m, Move::Normal { .. })));
}

#[test]
fn capture_goes_to_the_hand_under_its_unpromoted_kind() {
    let mut board = Board::new(9, 9);
    board.place_piece(
        Position::new(4, 4),
        Piece::new(PieceKind::S_Gold, PlayerId::Player1),
    );
    board.place_piece(
        Position::new(4, 3),
        Piece::new(PieceKind::S_ProPawn, PlayerId::Player2),
    );
    let mv = normal(4, 4, 4, 3, None);
    let next = apply_move(&board, &mv, PlayerId::Player1);
    assert!(next.get_piece(Position::new(4, 4)).is_none());
    assert_eq!(
        next.get_piece(Position::new(4, 3)),
        Some(&Piece::new(PieceKind::S_Gold, PlayerId::Player1))
    );
    assert_eq!(next.hand_count(PlayerId::Player1, PieceKind::S_Pawn), 1);
    assert_eq!(next.hand_count(PlayerId::Player1, PieceKind::S_ProPawn), 0);
    assert_eq!(next.last_move(), Some(mv));
    // the board that was moved on is untouched
    assert!(board.get_piece(Position::new(4, 4)).is_some());
    assert_eq!(board.last_move(), None);

    // a side that does not keep captures gains nothing
    board.set_player_config(PlayerId::Player1, PlayerConfig::chess());
    let next = apply_move(&board, &mv, PlayerId::Player1);
    assert_eq!(next.hand_count(PlayerId::Player1, PieceKind::S_Pawn), 0);
}

#[test]
fn promotion_changes_the_kind_and_drop_uses_up_the_hand() {
    let mut board = Board::new(9, 9);
    board.place_piece(
        Position::new(5, 1),
        Piece::new(PieceKind::C_Pawn, PlayerId::Player1),
    );
    let next = apply_move(
        &board,
        &normal(5, 1, 5, 0, Some(PieceKind::C_Knight)),
        PlayerId::Player1,
    );
    assert_eq!(
        next.get_piece(Position::new(5, 0)),
        Some(&Piece {
            kind: PieceKind::C_Knight,
            owner: PlayerId::Player1,
            is_shogi: false
        })
    );

    board.add_to_hand(PlayerId::Player2, PieceKind::S_Silver);
    let drop = Move::Drop {
        kind: PieceKind::S_Silver,
        to: Position::new(0, 0),
    };
    let next = apply_move(&board, &drop, PlayerId::Player2);
    assert_eq!(
        next.get_piece(Position::new(0, 0)),
        Some(&Piece::new(PieceKind::S_Silver, PlayerId::Player2))
    );
    assert_eq!(next.hand_count(PlayerId::Player2, PieceKind::S_Silver), 0);

    // without the piece in hand nothing lands
    let next = apply_move(&board, &drop, PlayerId::Player1);
    assert!(next.get_piece(Position::new(0, 0)).is_none());
    // a move from an empty square changes nothing but the last move
    let idle = normal(8, 8, 8, 7, None);
    let next = apply_move(&board, &idle, PlayerId::Player1);
    assert!(next.get_piece(Position::new(8, 7)).is_none());
    assert_eq!(next.last_move(), Some(idle));
}

fn back_rank_mate() -> Board {
    // second player's king in the corner, first player's rook gives check
    // along the rank, a gold covers the squares next to the king
    let mut board = Board::new(9, 9);
    board.place_piece(
        Position::new(0, 0),
        Piece::new(PieceKind::S_King, PlayerId::Player2),
    );
    board.place_piece(
        Position::new(8, 0),
        Piece::new(PieceKind::S_Rook, PlayerId::Player1),
    );
    board.place_piece(
        Position::new(1, 2),
        Piece::new(PieceKind::S_Gold, PlayerId::Player1),
    );
    board.place_piece(
        Position::new(0, 2),
        Piece::new(PieceKind::S_Gold, PlayerId::Player1),
    );
    board.place_piece(
        Position::new(4, 8),
        Piece::new(PieceKind::S_King, PlayerId::Player1),
    );
    board
}

#[test]
fn check_and_checkmate_are_told_apart_from_stalemate() {
    let board = back_rank_mate();
    assert!(is_in_check(&board, PlayerId::Player2));
    assert!(!is_in_check(&board, PlayerId::Player1));
    assert!(legal_moves(&board, PlayerId::Player2).is_empty());
    assert!(is_checkmate(&board, PlayerId::Player2));
    assert!(!is_stalemate(&board, PlayerId::Player2));
    assert!(!is_checkmate(&board, PlayerId::Player1));

    // two rooks hold the squares next to the king, none attacks the king
    let mut quiet = Board::new(9, 9);
    quiet.place_piece(
        Position::new(0, 0),
        Piece::new(PieceKind::S_King, PlayerId::Player2),
    );
    quiet.place_piece(
        Position::new(8, 1),
        Piece::new(PieceKind::S_Rook, PlayerId::Player1),
    );
    quiet.place_piece(
        Position::new(1, 8),
        Piece::new(PieceKind::C_Rook, PlayerId::Player1),
    );
    assert!(!is_in_check(&quiet, PlayerId::Player2));
    assert!(legal_moves(&quiet, PlayerId::Player2).is_empty());
    assert!(is_stalemate(&quiet, PlayerId::Player2));
    assert!(!is_checkmate(&quiet, PlayerId::Player2));
}

#[test]
fn a_side_without_a_king_is_never_in_check() {
    let mut board = Board::new(9, 9);
    board.place_piece(
        Position::new(8, 0),
        Piece::new(PieceKind::S_Rook, PlayerId::Player1),
    );
    assert!(!is_in_check(&board, PlayerId::Player2));
    assert!(!is_checkmate(&board, PlayerId::Player2));
}

#[test]
fn no_legal_move_leaves_the_own_king_in_check() {
    let mut board = Board::new(9, 9);
    board.place_piece(
        Position::new(4, 8),
        Piece::new(PieceKind::S_King, PlayerId::Player1),
    );
    board.place_piece(
        Position::new(4, 7),
        Piece::new(PieceKind::S_Gold, PlayerId::Player1),
    );
    board.place_piece(
        Position::new(4, 0),
        Piece::new(PieceKind::S_Rook, PlayerId::Player2),
    );
    board.place_piece(
        Position::new(8, 0),
        Piece::new(PieceKind::S_King, PlayerId::Player2),
    );
    board.add_to_hand(PlayerId::Player1, PieceKind::S_Pawn);
    for player in [PlayerId::Player1, PlayerId::Player2] {
        let legal = legal_moves(&board, player);
        assert!(!legal.is_empty());
        for mv in &legal {
            let next = apply_move(&board, mv, player);
            assert!(!is_in_check(&next, player));
        }
        // and every pseudo-legal move that is left out does
        for mv in pseudo_legal_moves(&board, player) {
            if !legal.contains(&mv) {
                assert!(is_in_check(&apply_move(&board, &mv, player), player));
            }
        }
    }
    // the pinned gold may not leave the file
    let legal = legal_moves(&board, PlayerId::Player1);
    assert!(!legal.contains(&normal(4, 7, 3, 7, None)));
    assert!(legal.contains(&normal(4, 7, 4, 6, None)));
}
