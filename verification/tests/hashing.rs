use hybrid_board::logic::zobrist::{repetition_count, rotate_left, ZobristHasher};
use hybrid_board::model::{Board, Move, Piece, PieceKind, PlayerConfig, PlayerId, Position};

fn counting_hasher() -> ZobristHasher {
    let pieces: Vec<u64> = (0..3240u64).map(|i| (i + 1) * 0x9E37_79B9_7F4A_7C15).collect();
    let hand: Vec<u64> = (0..40u64).map(|i| (i + 7) * 0xC2B2_AE3D_27D4_EB4F).collect();
    ZobristHasher::from_keys(pieces, hand, 0xDEAD_BEEF_0BAD_F00D).unwrap()
}

fn piece_key(owner: u64, x: u64, y: u64, kind: u64) -> u64 {
    (((owner * 81 + y * 9 + x) * 20 + kind) + 1).wrapping_mul(0x9E37_79B9_7F4A_7C15)
}

fn hand_key(owner: u64, kind: u64) -> u64 {
    ((owner * 20 + kind) + 7).wrapping_mul(0xC2B2_AE3D_27D4_EB4F)
}

#[test]
fn keys_must_be_complete() {
    assert!(ZobristHasher::from_keys(vec![0; 3239], vec![0; 40], 1).is_none());
    assert!(ZobristHasher::from_keys(vec![0; 3240], vec![0; 41], 1).is_none());
    assert!(ZobristHasher::from_keys(vec![0; 3240], vec![0; 40], 1).is_some());
}

#[test]
fn rotation_wraps_the_bits_around() {
    assert_eq!(rotate_left(1, 1), 2);
    assert_eq!(rotate_left(0x8000_0000_0000_0001, 1), 3);
    assert_eq!(rotate_left(0xABCD, 0), 0xABCD);
    assert_eq!(rotate_left(0xABCD, 64), 0xABCD);
    assert_eq!(rotate_left(0xABCD, 68), 0xABCD0);
    assert_eq!(rotate_left(0x0123_4567_89AB_CDEF, 32), 0x89AB_CDEF_0123_4567);
}

#[test]
fn hash_is_the_xor_of_the_keys_of_what_is_there() {
    let hasher = counting_hasher();
    let mut board = Board::new(9, 9);
    assert_eq!(hasher.compute_hash(&board, PlayerId::Player1), 0);
    assert_eq!(
        hasher.compute_hash(&board, PlayerId::Player2),
        0xDEAD_BEEF_0BAD_F00D
    );

    // S_Gold has index 3, C_Pawn index 19, S_Pawn index 7
    board.place_piece(
        Position::new(4, 8),
        Piece::new(PieceKind::S_Gold, PlayerId::Player1),
    );
    board.place_piece(
        Position::new(2, 1),
        Piece::new(PieceKind::C_Pawn, PlayerId::Player2),
    );
    let placed = piece_key(0, 4, 8, 3) ^ piece_key(1, 2, 1, 19);
    assert_eq!(hasher.compute_hash(&board, PlayerId::Player1), placed);

    board.add_to_hand(PlayerId::Player2, PieceKind::S_Pawn);
    let one = placed ^ hand_key(1, 7).rotate_left(1);
    assert_eq!(hasher.compute_hash(&board, PlayerId::Player1), one);
    board.add_to_hand(PlayerId::Player2, PieceKind::S_Pawn);
    let two = placed ^ hand_key(1, 7).rotate_left(2);
    assert_eq!(hasher.compute_hash(&board, PlayerId::Player1), two);
    assert_eq!(
        hasher.compute_hash(&board, PlayerId::Player2),
        two ^ 0xDEAD_BEEF_0BAD_F00D
    );
    // two in hand is not the same as none
    assert_ne!(two, placed);
}

#[test]
fn the_same_piece_hashes_differently_for_each_owner_and_square() {
    let hasher = counting_hasher();
    let mut a = Board::new(9, 9);
    a.place_piece(
        Position::new(3, 3),
        Piece::new(PieceKind::S_Pawn, PlayerId::Player1),
    );
    let mut b = Board::new(9, 9);
    b.place_piece(
        Position::new(3, 3),
        Piece::new(PieceKind::S_Pawn, PlayerId::Player2),
    );
    let mut c = Board::new(9, 9);
    c.place_piece(
        Position::new(3, 4),
        Piece::new(PieceKind::S_Pawn, PlayerId::Player1),
    );
    let ha = hasher.compute_hash(&a, PlayerId::Player1);
    let hb = hasher.compute_hash(&b, PlayerId::Player1);
    let hc = hasher.compute_hash(&c, PlayerId::Player1);
    assert_ne!(ha, hb);
    assert_ne!(ha, hc);
    assert_ne!(hb, hc);
}

#[test]
fn hash_ignores_last_move_history_recorded_hash_and_capabilities() {
    let hasher = ZobristHasher::new();
    let mut board = Board::new(9, 9);
    board.place_piece(
        Position::new(4, 4),
        Piece::new(PieceKind::S_Rook, PlayerId::Player1),
    );
    board.add_to_hand(PlayerId::Player1, PieceKind::S_Gold);
    let first = hasher.compute_hash(&board, PlayerId::Player2);
    assert_eq!(hasher.compute_hash(&board, PlayerId::Player2), first);

    let mut other = board.clone();
    other.set_last_move(Some(Move::Drop {
        kind: PieceKind::S_Gold,
        to: Position::new(0, 0),
    }));
    other.push_history(17);
    other.set_zobrist_hash(99);
    other.set_player_config(PlayerId::Player2, PlayerConfig::chess());
    assert_eq!(hasher.compute_hash(&other, PlayerId::Player2), first);
    assert_eq!(other.zobrist_hash(), 99);
    assert_eq!(other.history(), &vec![17]);
    assert_eq!(board.history(), &Vec::<u64>::new());
    // a piece placed and taken away again leaves the hash where it was
    other.place_piece(
        Position::new(0, 0),
        Piece::new(PieceKind::S_Pawn, PlayerId::Player2),
    );
    assert_ne!(hasher.compute_hash(&other, PlayerId::Player2), first);
    other.remove_piece(Position::new(0, 0));
    assert_eq!(hasher.compute_hash(&other, PlayerId::Player2), first);
}

#[test]
fn repetitions_are_counted_in_the_history() {
    let mut board = Board::new(9, 9);
    assert_eq!(repetition_count(&board, 5), 0);
    for h in [5, 6, 5, 7, 5] {
        board.push_history(h);
    }
    assert_eq!(repetition_count(&board, 5), 3);
    assert_eq!(repetition_count(&board, 6), 1);
    assert_eq!(repetition_count(&board, 8), 0);
}

#[test]
fn hand_counts_fold_in_with_period_64() {
    let hasher = counting_hasher();
    let mut board = Board::new(9, 9);
    let mut seen = Vec::new();
    for n in 1..=65u32 {
        board.add_to_hand(PlayerId::Player1, PieceKind::S_Pawn);
        let h = hasher.compute_hash(&board, PlayerId::Player1);
        assert_eq!(h, hand_key(0, 7).rotate_left(n));
        seen.push(h);
    }
    // every count up to 63 has a value of its own, and none is that of the
    // empty hand
    for i in 0..63 {
        assert_ne!(seen[i], 0);
        for j in 0..i {
            assert_ne!(seen[i], seen[j], "counts {} and {}", i + 1, j + 1);
        }
    }
    // the count 64 leaves the key as it is, and 65 meets 1 again
    assert_eq!(seen[63], hand_key(0, 7));
    assert_eq!(seen[64], seen[0]);
}
