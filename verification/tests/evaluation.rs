use hybrid_board::logic::material::{evaluate as material, get_piece_value};
use hybrid_board::model::{Board, Move, Piece, PieceKind, PlayerId, Position};
use hybrid_board::player::ai::eval::{
    calc_king_safety, calculate_mobility, count_enemy_attackers, count_king_escape_squares,
    count_passed_pawns, count_rooks_on_open_files, count_total_material, detect_game_phase,
    detect_tactical_patterns, development_score, enhanced_king_safety, evaluate, evaluate_with,
    hand_material, has_bishop_pair, pawn_structure, piece_val, GamePhase, HandcraftedEvaluator,
};
use hybrid_board::player::ai::evaluator::Evaluator;
use hybrid_board::player::ai::pst::get_pst_value;
use hybrid_board::player::ai::see::{count_defenders_simple, static_exchange_eval};

fn put(board: &mut Board, x: usize, y: usize, kind: PieceKind, owner: PlayerId) {
    board.place_piece(Position::new(x, y), Piece::new(kind, owner));
}

const P1: PlayerId = PlayerId::Player1;
const P2: PlayerId = PlayerId::Player2;

#[test]
fn material_values_of_all_kinds() {
    let expected = [
        (PieceKind::S_King, 20000),
        (PieceKind::S_Rook, 1000),
        (PieceKind::S_Bishop, 800),
        (PieceKind::S_Gold, 600),
        (PieceKind::S_Silver, 500),
        (PieceKind::S_Knight, 400),
        (PieceKind::S_Lance, 300),
        (PieceKind::S_Pawn, 100),
        (PieceKind::S_ProRook, 1500),
        (PieceKind::S_ProBishop, 1200),
        (PieceKind::S_ProSilver, 700),
        (PieceKind::S_ProKnight, 700),
        (PieceKind::S_ProLance, 700),
        (PieceKind::S_ProPawn, 700),
        (PieceKind::C_King, 20000),
        (PieceKind::C_Queen, 1800),
        (PieceKind::C_Rook, 1000),
        (PieceKind::C_Bishop, 800),
        (PieceKind::C_Knight, 500),
        (PieceKind::C_Pawn, 100),
    ];
    for (kind, value) in expected {
        assert_eq!(piece_val(kind), value);
    }
}

#[test]
fn square_tables_are_mirrored_for_the_second_player() {
    assert_eq!(get_pst_value(PieceKind::S_Pawn, 0, P1), 15);
    assert_eq!(get_pst_value(PieceKind::S_Pawn, 80, P2), 15);
    assert_eq!(get_pst_value(PieceKind::S_Pawn, 80, P1), 0);
    assert_eq!(get_pst_value(PieceKind::S_Pawn, 30, P1), 10);
    assert_eq!(get_pst_value(PieceKind::C_Pawn, 50, P2), 10);
    assert_eq!(get_pst_value(PieceKind::S_King, 73, P1), 40);
    assert_eq!(get_pst_value(PieceKind::C_King, 7, P2), 40);
    assert_eq!(get_pst_value(PieceKind::S_King, 0, P1), -30);
    assert_eq!(get_pst_value(PieceKind::S_Knight, 73, P1), -10);
    assert_eq!(get_pst_value(PieceKind::C_Queen, 40, P1), 10);
    assert_eq!(get_pst_value(PieceKind::S_ProPawn, 72, P1), -5);
    assert_eq!(get_pst_value(PieceKind::S_Lance, 76, P1), 5);
    assert_eq!(get_pst_value(PieceKind::S_Silver, 29, P1), 10);
    // past the table
    assert_eq!(get_pst_value(PieceKind::S_Pawn, 81, P1), 0);
    assert_eq!(get_pst_value(PieceKind::S_Pawn, 81, P2), 0);
    assert_eq!(get_pst_value(PieceKind::S_Pawn, usize::MAX, P2), 0);
}

#[test]
fn a_single_pawn_is_scored_term_by_term() {
    let mut board = Board::new(9, 9);
    put(&mut board, 0, 0, PieceKind::S_Pawn, P1);
    // material 100, square bonus 15, isolated pawn -20, passed pawn +50
    assert_eq!(pawn_structure(&board), -20);
    assert_eq!(count_passed_pawns(&board, P1), 1);
    assert_eq!(detect_tactical_patterns(&board, P1), 50);
    assert_eq!(calculate_mobility(&board, P1), 0);
    assert_eq!(evaluate(&board), 145);

    // the same for the second player, mirrored
    let mut board = Board::new(9, 9);
    put(&mut board, 8, 8, PieceKind::S_Pawn, P2);
    assert_eq!(pawn_structure(&board), 20);
    assert_eq!(evaluate(&board), -145);
}

#[test]
fn symmetric_pawns_of_each_kind_balance() {
    let mut board = Board::new(9, 9);
    put(&mut board, 2, 6, PieceKind::S_Pawn, P1);
    put(&mut board, 6, 2, PieceKind::S_Pawn, P2);
    put(&mut board, 5, 6, PieceKind::C_Pawn, P1);
    put(&mut board, 3, 2, PieceKind::C_Pawn, P2);
    let score = evaluate(&board);
    assert!(score.abs() < 50, "score {}", score);
    // the first player's chess pawn stands on its start rank and has one
    // more move: twice a mobility point
    assert_eq!(score, 2);

    let mut board = Board::new(9, 9);
    put(&mut board, 2, 5, PieceKind::S_Pawn, P1);
    put(&mut board, 6, 3, PieceKind::S_Pawn, P2);
    put(&mut board, 5, 5, PieceKind::C_Pawn, P1);
    put(&mut board, 3, 3, PieceKind::C_Pawn, P2);
    assert_eq!(evaluate(&board), 0);
}

#[test]
fn pawn_structure_counts_doubled_and_isolated_pawns() {
    let mut board = Board::new(9, 9);
    // first player: three pawns in file 4, none next to them
    put(&mut board, 4, 6, PieceKind::S_Pawn, P1);
    put(&mut board, 4, 5, PieceKind::C_Pawn, P1);
    put(&mut board, 4, 4, PieceKind::S_Pawn, P1);
    assert_eq!(pawn_structure(&board), -(20 * 2 + 20));
    // a pawn in the next file ends the isolation of both files
    put(&mut board, 5, 6, PieceKind::S_Pawn, P1);
    assert_eq!(pawn_structure(&board), -40);
    // second player: one isolated pawn in the last file
    put(&mut board, 8, 2, PieceKind::S_Pawn, P2);
    assert_eq!(pawn_structure(&board), -40 + 20);
    // promoted pawns do not count
    put(&mut board, 0, 0, PieceKind::S_ProPawn, P2);
    assert_eq!(pawn_structure(&board), -20);
}

#[test]
fn phase_follows_the_material_on_the_board() {
    let mut board = Board::new(9, 9);
    assert_eq!(count_total_material(&board), 0);
    assert_eq!(detect_game_phase(&board), GamePhase::Endgame);
    for x in 0..4 {
        put(&mut board, x, 0, PieceKind::S_Rook, P2);
    }
    assert_eq!(count_total_material(&board), 4000);
    assert_eq!(detect_game_phase(&board), GamePhase::Endgame);
    put(&mut board, 4, 0, PieceKind::S_Pawn, P1);
    assert_eq!(detect_game_phase(&board), GamePhase::Midgame);
    for x in 0..4 {
        put(&mut board, x, 8, PieceKind::C_Rook, P1);
    }
    assert_eq!(count_total_material(&board), 8100);
    assert_eq!(detect_game_phase(&board), GamePhase::Opening);
}

#[test]
fn king_safety_counts_defenders_escapes_and_attackers() {
    let mut board = Board::new(9, 9);
    let king = Position::new(4, 8);
    put(&mut board, 4, 8, PieceKind::S_King, P1);
    put(&mut board, 3, 8, PieceKind::S_Gold, P1);
    put(&mut board, 5, 8, PieceKind::S_Lance, P1);
    put(&mut board, 4, 7, PieceKind::S_Pawn, P1);
    put(&mut board, 3, 7, PieceKind::C_Bishop, P1);
    put(&mut board, 5, 7, PieceKind::S_Pawn, P2);
    put(&mut board, 4, 6, PieceKind::S_Rook, P2);
    put(&mut board, 2, 6, PieceKind::C_Bishop, P2);
    put(&mut board, 6, 8, PieceKind::S_Pawn, P2);
    put(&mut board, 0, 0, PieceKind::C_Queen, P2);
    // defenders: gold 40, lance 20, pawn 15, bishop 10
    assert_eq!(calc_king_safety(&board, king, P1, GamePhase::Midgame), 85);
    assert_eq!(calc_king_safety(&board, king, P1, GamePhase::Opening), 170);
    assert_eq!(calc_king_safety(&board, king, P1, GamePhase::Endgame), 42);
    // of five neighbours on the board one is held by the enemy, none is empty
    assert_eq!(count_king_escape_squares(&board, king, P1), 1);
    // attackers within two squares: pawn 1, rook 3, bishop 2, pawn 1
    assert_eq!(count_enemy_attackers(&board, king, P1), 7);
    assert_eq!(
        enhanced_king_safety(&board, king, P1, GamePhase::Midgame),
        85 + 15 - 210
    );
    // a king alone in the middle has eight escapes
    let mut open = Board::new(9, 9);
    put(&mut open, 4, 4, PieceKind::C_King, P2);
    assert_eq!(count_king_escape_squares(&open, Position::new(4, 4), P2), 8);
    assert_eq!(
        enhanced_king_safety(&open, Position::new(4, 4), P2, GamePhase::Opening),
        120
    );
}

#[test]
fn mobility_weighs_captures_and_promotions_and_is_capped() {
    let mut board = Board::new(9, 9);
    put(&mut board, 4, 3, PieceKind::S_Pawn, P1);
    // one move into the zone: promoting (2) and plain (1)
    assert_eq!(calculate_mobility(&board, P1), 6);
    put(&mut board, 4, 2, PieceKind::S_Pawn, P2);
    // both variants capture now (3 each)
    assert_eq!(calculate_mobility(&board, P1), 12);
    // the second player's pawn captures without promoting
    assert_eq!(calculate_mobility(&board, P2), 6);
    // a gold in hand can go to each of the 79 empty squares
    board.add_to_hand(P1, PieceKind::S_Gold);
    assert_eq!(calculate_mobility(&board, P1), 2 * (6 + 79));
    // a second kind in hand reaches the cap
    board.add_to_hand(P1, PieceKind::S_Silver);
    assert_eq!(calculate_mobility(&board, P1), 200);
}

#[test]
fn tactical_patterns() {
    let mut board = Board::new(9, 9);
    put(&mut board, 0, 6, PieceKind::S_Pawn, P1);
    put(&mut board, 1, 6, PieceKind::C_Pawn, P1);
    put(&mut board, 1, 2, PieceKind::S_Pawn, P2);
    put(&mut board, 2, 7, PieceKind::S_Pawn, P2);
    // file 0 is free ahead, file 1 is blocked, for both sides
    assert_eq!(count_passed_pawns(&board, P1), 1);
    // the second player's pawn on file 2 has passed everything
    assert_eq!(count_passed_pawns(&board, P2), 1);

    assert!(!has_bishop_pair(&board, P1));
    put(&mut board, 5, 5, PieceKind::S_Bishop, P1);
    assert!(!has_bishop_pair(&board, P1));
    put(&mut board, 6, 5, PieceKind::C_Bishop, P1);
    assert!(has_bishop_pair(&board, P1));
    assert!(!has_bishop_pair(&board, P2));

    put(&mut board, 0, 8, PieceKind::S_Rook, P1);
    put(&mut board, 8, 8, PieceKind::C_Rook, P1);
    put(&mut board, 7, 8, PieceKind::S_ProRook, P1);
    put(&mut board, 2, 0, PieceKind::S_Rook, P2);
    assert_eq!(count_rooks_on_open_files(&board, P1), 2);
    assert_eq!(count_rooks_on_open_files(&board, P2), 0);
    assert_eq!(detect_tactical_patterns(&board, P1), 50 + 30 + 80);
    assert_eq!(detect_tactical_patterns(&board, P2), 50);
}

#[test]
fn development_counts_only_in_the_opening() {
    let mut board = Board::new(9, 9);
    put(&mut board, 1, 8, PieceKind::S_Knight, P1);
    put(&mut board, 2, 8, PieceKind::C_Bishop, P1);
    put(&mut board, 3, 8, PieceKind::S_Gold, P1);
    put(&mut board, 4, 7, PieceKind::S_Rook, P1);
    put(&mut board, 1, 0, PieceKind::C_Rook, P2);
    assert_eq!(development_score(&board, P1, GamePhase::Opening), -20);
    assert_eq!(development_score(&board, P2, GamePhase::Opening), -10);
    assert_eq!(development_score(&board, P1, GamePhase::Midgame), 0);
    assert_eq!(development_score(&board, P1, GamePhase::Endgame), 0);
}

#[test]
fn hands_are_worth_more_than_the_board() {
    let mut board = Board::new(9, 9);
    board.add_to_hand(P1, PieceKind::S_Gold);
    board.add_to_hand(P1, PieceKind::S_Gold);
    board.add_to_hand(P1, PieceKind::S_Pawn);
    assert_eq!(hand_material(&board, P1, 1100), 2 * 660 + 110);
    assert_eq!(hand_material(&board, P1, 1250), 2 * 750 + 125);
    assert_eq!(hand_material(&board, P1, 1001), 2 * 600 + 100);
    assert_eq!(hand_material(&board, P2, 1100), 0);
    // two kinds in hand and every square free: mobility is at its cap
    assert_eq!(evaluate(&board), 1430 + 200);
    assert_eq!(evaluate_with(&board, 1200), 1560 + 200);
    let mut e = HandcraftedEvaluator::with_hand_multiplier(1200);
    assert_eq!(e.evaluate(&board), 1760);
    assert_eq!(e.name(), "Handcrafted");
    let mut e = HandcraftedEvaluator::new();
    assert_eq!(e.evaluate(&board), 1630);
}

#[test]
fn plain_material_balance() {
    let mut board = Board::new(9, 9);
    assert_eq!(material(&board, P1), 0);
    put(&mut board, 0, 0, PieceKind::S_Rook, P1);
    put(&mut board, 1, 0, PieceKind::S_ProBishop, P2);
    put(&mut board, 2, 0, PieceKind::S_King, P2);
    assert_eq!(material(&board, P1), 900 - 1100 - 100000);
    assert_eq!(material(&board, P2), -(900 - 1100 - 100000));
    board.add_to_hand(P1, PieceKind::S_Knight);
    board.add_to_hand(P1, PieceKind::S_Knight);
    board.add_to_hand(P2, PieceKind::S_Pawn);
    assert_eq!(material(&board, P1), 900 - 1100 - 100000 + 2 * 440 - 110);
    assert_eq!(get_piece_value(PieceKind::C_Queen), 1000);
    assert_eq!(get_piece_value(PieceKind::S_Lance), 300);
}

#[test]
fn exchange_is_guessed_from_the_two_pieces() {
    let mut board = Board::new(9, 9);
    put(&mut board, 4, 4, PieceKind::S_Silver, P1);
    put(&mut board, 4, 3, PieceKind::S_Rook, P2);
    put(&mut board, 0, 0, PieceKind::S_Gold, P2);
    let capture = Move::Normal {
        from: Position::new(4, 4),
        to: Position::new(4, 3),
        promote: None,
    };
    // the square itself is left out of the count
    assert_eq!(count_defenders_simple(&board, Position::new(4, 3), P2), 0);
    assert_eq!(count_defenders_simple(&board, Position::new(4, 3), P1), 1);
    assert_eq!(count_defenders_simple(&board, Position::new(1, 1), P2), 1);
    assert_eq!(count_defenders_simple(&board, Position::new(2, 2), P2), 2);
    assert_eq!(count_defenders_simple(&board, Position::new(3, 2), P2), 1);
    assert_eq!(count_defenders_simple(&board, Position::new(6, 6), P2), 0);
    assert_eq!(count_defenders_simple(&board, Position::new(8, 8), P2), 0);
    // nothing stands by the rook: it is won whole
    assert_eq!(static_exchange_eval(&board, &capture, P1), 1000);
    // with a pawn two squares away the silver is counted as lost in return
    put(&mut board, 6, 1, PieceKind::S_Pawn, P2);
    assert_eq!(count_defenders_simple(&board, Position::new(4, 3), P2), 1);
    assert_eq!(static_exchange_eval(&board, &capture, P1), 1000 - 500);
    // not a capture for the owner of the piece on the square
    assert_eq!(static_exchange_eval(&board, &capture, P2), 0);
    let quiet = Move::Normal {
        from: Position::new(4, 4),
        to: Position::new(3, 3),
        promote: None,
    };
    assert_eq!(static_exchange_eval(&board, &quiet, P1), 0);
    let from_nowhere = Move::Normal {
        from: Position::new(8, 8),
        to: Position::new(4, 3),
        promote: None,
    };
    assert_eq!(static_exchange_eval(&board, &from_nowhere, P1), 0);
    let drop = Move::Drop {
        kind: PieceKind::S_Pawn,
        to: Position::new(4, 3),
    };
    assert_eq!(static_exchange_eval(&board, &drop, P1), 0);
}

#[test]
fn an_undefended_pawn_is_won_whole() {
    let mut board = Board::new(9, 9);
    put(&mut board, 4, 4, PieceKind::C_Queen, P1);
    put(&mut board, 4, 3, PieceKind::S_Pawn, P2);
    let capture = Move::Normal {
        from: Position::new(4, 4),
        to: Position::new(4, 3),
        promote: None,
    };
    assert_eq!(static_exchange_eval(&board, &capture, P1), 100);
    // a second pawn beside the first defends it
    put(&mut board, 5, 3, PieceKind::S_Pawn, P2);
    assert_eq!(static_exchange_eval(&board, &capture, P1), 100 - 1800);
    // a piece of the taker's own side does not
    let mut other = Board::new(9, 9);
    put(&mut other, 4, 4, PieceKind::C_Queen, P1);
    put(&mut other, 4, 3, PieceKind::S_Pawn, P2);
    put(&mut other, 5, 3, PieceKind::S_Pawn, P1);
    assert_eq!(static_exchange_eval(&other, &capture, P1), 100);
}
