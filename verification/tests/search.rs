use hybrid_board::game::{Game, Outcome, Turn};
use hybrid_board::logic::{apply_move, is_in_check, legal_moves, ZobristHasher};
use hybrid_board::model::setup::{get_fair_setup, get_shogi_setup, setup_from_strings};
use hybrid_board::model::{Board, Move, Piece, PieceKind, PlayerId, Position};
use hybrid_board::player::ai::alpha_beta::{
    classify_bound, is_losing_capture, is_over_budget, late_move_reduction, limit_score, mate_score, probe_entry,
    quiet_score, reduced_depth, repetition_score, select_tactical, settle_move, should_try_null_move,
    stand_pat, terminal_score, AIStrength, AlphaBetaAI, Probe,
};
use hybrid_board::player::ai::eval::HandcraftedEvaluator;
use hybrid_board::player::ai::evaluator::Evaluator;
use hybrid_board::player::ai::tt::{Bound, TTEntry};
use hybrid_board::player::PlayerController;
use std::time::{Duration, Instant};

fn lopsided() -> Board {
    let mut board = Board::new(9, 9);
    board.place_piece(
        Position::new(4, 8),
        Piece::new(PieceKind::S_King, PlayerId::Player1),
    );
    board.place_piece(
        Position::new(4, 0),
        Piece::new(PieceKind::S_King, PlayerId::Player2),
    );
    board.place_piece(
        Position::new(0, 8),
        Piece::new(PieceKind::S_Rook, PlayerId::Player1),
    );
    board.place_piece(
        Position::new(8, 8),
        Piece::new(PieceKind::C_Queen, PlayerId::Player1),
    );
    board
}

fn light(player: PlayerId) -> AlphaBetaAI<HandcraftedEvaluator> {
    AlphaBetaAI::new(player, "Engine", AIStrength::Light, None, true)
}

#[test]
fn scores_are_cut_to_the_score_limit() {
    assert_eq!(limit_score(0), 0);
    assert_eq!(limit_score(200000), 200000);
    assert_eq!(limit_score(200001), 200000);
    assert_eq!(limit_score(i32::MAX), 200000);
    assert_eq!(limit_score(-200001), -200000);
    assert_eq!(limit_score(i32::MIN), -200000);
    assert_eq!(stand_pat(123, PlayerId::Player1), 123);
    assert_eq!(stand_pat(123, PlayerId::Player2), -123);
    assert_eq!(stand_pat(i32::MIN, PlayerId::Player2), 2147483648);
    assert_eq!(stand_pat(i32::MIN, PlayerId::Player1), -2147483648);
}

#[test]
fn mate_is_worse_the_more_depth_is_left() {
    assert_eq!(mate_score(0), -199900);
    assert_eq!(mate_score(1), -199901);
    assert_eq!(mate_score(6), -199906);
    assert_eq!(mate_score(100), -200000);
    assert_eq!(mate_score(101), -200000);
    assert_eq!(mate_score(usize::MAX), -200000);
    assert_eq!(terminal_score(true, 500), -200000);
    assert_eq!(terminal_score(true, 3), -199903);
    assert_eq!(terminal_score(false, 3), 0);
}

#[test]
fn repetition_is_a_draw_at_four_and_a_penalty_at_three_at_the_root() {
    assert_eq!(repetition_score(0, 0), None);
    assert_eq!(repetition_score(2, 0), None);
    assert_eq!(repetition_score(3, 0), Some(-100));
    assert_eq!(repetition_score(3, 1), None);
    assert_eq!(repetition_score(4, 0), Some(0));
    assert_eq!(repetition_score(4, 5), Some(0));
    assert_eq!(repetition_score(9, 2), Some(0));
}

#[test]
fn stored_results_cut_or_narrow_by_their_bound() {
    let entry = |depth, score, bound| TTEntry {
        hash: 1,
        depth,
        score,
        bound,
    };
    // too shallow: ignored
    assert_eq!(
        probe_entry(&entry(2, 50, Bound::Exact), 3, -10, 10),
        Probe::Narrow(-10)
    );
    assert_eq!(
        probe_entry(&entry(3, 50, Bound::Exact), 3, -10, 10),
        Probe::Cut(50)
    );
    // lower bound inside the window raises alpha
    assert_eq!(
        probe_entry(&entry(4, 5, Bound::Lower), 3, -10, 10),
        Probe::Narrow(5)
    );
    assert_eq!(
        probe_entry(&entry(4, -20, Bound::Lower), 3, -10, 10),
        Probe::Narrow(-10)
    );
    // lower bound at or above beta closes the window
    assert_eq!(
        probe_entry(&entry(4, 10, Bound::Lower), 3, -10, 10),
        Probe::Cut(10)
    );
    // upper bound below beta ends the search, at or above it does not
    assert_eq!(
        probe_entry(&entry(4, 9, Bound::Upper), 3, -10, 10),
        Probe::Cut(9)
    );
    assert_eq!(
        probe_entry(&entry(4, 10, Bound::Upper), 3, -10, 10),
        Probe::Narrow(-10)
    );
    // stored scores are cut to the limit
    assert_eq!(
        probe_entry(&entry(4, i32::MAX, Bound::Exact), 3, -10, 10),
        Probe::Cut(200000)
    );
}

#[test]
fn bound_follows_from_where_the_score_fell() {
    assert_eq!(classify_bound(-11, -10, 10), Bound::Upper);
    assert_eq!(classify_bound(-10, -10, 10), Bound::Upper);
    assert_eq!(classify_bound(-9, -10, 10), Bound::Exact);
    assert_eq!(classify_bound(9, -10, 10), Bound::Exact);
    assert_eq!(classify_bound(10, -10, 10), Bound::Lower);
    assert_eq!(classify_bound(11, -10, 10), Bound::Lower);
}

#[test]
fn pruning_decisions() {
    assert!(should_try_null_move(AIStrength::Strong, false, 3, 500));
    assert!(!should_try_null_move(AIStrength::Light, false, 3, 500));
    assert!(!should_try_null_move(AIStrength::Strong, true, 3, 500));
    assert!(!should_try_null_move(AIStrength::Strong, false, 2, 500));
    assert!(!should_try_null_move(AIStrength::Strong, false, 3, 100000));
    assert!(!should_try_null_move(AIStrength::Strong, false, 3, -100000));
    assert!(should_try_null_move(AIStrength::Strong, false, 3, -99999));

    assert_eq!(late_move_reduction(3, 4, false, false, false), 1);
    assert_eq!(late_move_reduction(2, 4, false, false, false), 0);
    assert_eq!(late_move_reduction(3, 3, false, false, false), 0);
    assert_eq!(late_move_reduction(3, 4, true, false, false), 0);
    assert_eq!(late_move_reduction(3, 4, false, true, false), 0);
    assert_eq!(late_move_reduction(3, 4, false, false, true), 0);

    assert_eq!(reduced_depth(5, 0), 4);
    assert_eq!(reduced_depth(5, 1), 3);
    assert_eq!(reduced_depth(2, 0), 1);
    assert_eq!(reduced_depth(2, 1), 1);
    assert_eq!(reduced_depth(1, 0), 1);
}

#[test]
fn losing_captures_are_recognised() {
    let mut board = Board::new(9, 9);
    board.place_piece(
        Position::new(4, 4),
        Piece::new(PieceKind::S_Rook, PlayerId::Player1),
    );
    board.place_piece(
        Position::new(4, 2),
        Piece::new(PieceKind::S_Pawn, PlayerId::Player2),
    );
    board.place_piece(
        Position::new(0, 4),
        Piece::new(PieceKind::S_Bishop, PlayerId::Player2),
    );
    let take = |x: usize, y: usize| Move::Normal {
        from: Position::new(4, 4),
        to: Position::new(x, y),
        promote: None,
    };
    // nothing stands by the pawn or by the bishop: both are won whole
    assert!(!is_losing_capture(&board, &take(4, 2), PlayerId::Player1));
    assert!(!is_losing_capture(&board, &take(0, 4), PlayerId::Player1));
    // a gold beside the pawn: rook (1000) takes pawn (100), guessed at -900
    board.place_piece(
        Position::new(5, 1),
        Piece::new(PieceKind::S_Gold, PlayerId::Player2),
    );
    assert!(is_losing_capture(&board, &take(4, 2), PlayerId::Player1));
    // a lance beside the bishop: rook takes bishop (800), guessed at -200
    board.place_piece(
        Position::new(1, 6),
        Piece::new(PieceKind::S_Lance, PlayerId::Player2),
    );
    assert!(is_losing_capture(&board, &take(0, 4), PlayerId::Player1));
    // a quiet move and a drop are never skipped
    assert!(!is_losing_capture(&board, &take(4, 3), PlayerId::Player1));
    assert!(!is_losing_capture(
        &board,
        &Move::Drop {
            kind: PieceKind::S_Pawn,
            to: Position::new(0, 0)
        },
        PlayerId::Player1
    ));
    // pawn takes rook: worth far more than the taker
    board.place_piece(
        Position::new(4, 5),
        Piece::new(PieceKind::S_Pawn, PlayerId::Player2),
    );
    let pawn_takes = Move::Normal {
        from: Position::new(4, 5),
        to: Position::new(4, 4),
        promote: None,
    };
    assert!(!is_losing_capture(&board, &pawn_takes, PlayerId::Player2));
}

#[test]
fn tactical_moves_are_captures_promotions_and_early_checking_drops() {
    let mut board = Board::new(9, 9);
    board.place_piece(
        Position::new(4, 0),
        Piece::new(PieceKind::S_King, PlayerId::Player2),
    );
    board.place_piece(
        Position::new(0, 4),
        Piece::new(PieceKind::S_Rook, PlayerId::Player1),
    );
    board.place_piece(
        Position::new(0, 2),
        Piece::new(PieceKind::S_Pawn, PlayerId::Player2),
    );
    board.add_to_hand(PlayerId::Player1, PieceKind::S_Gold);
    let moves = legal_moves(&board, PlayerId::Player1);
    let capture = Move::Normal {
        from: Position::new(0, 4),
        to: Position::new(0, 2),
        promote: None,
    };
    let capture_promoting = Move::Normal {
        from: Position::new(0, 4),
        to: Position::new(0, 2),
        promote: Some(PieceKind::S_ProRook),
    };
    let checking_drop = Move::Drop {
        kind: PieceKind::S_Gold,
        to: Position::new(4, 1),
    };
    let quiet_drop = Move::Drop {
        kind: PieceKind::S_Gold,
        to: Position::new(8, 8),
    };
    let quiet = Move::Normal {
        from: Position::new(0, 4),
        to: Position::new(1, 4),
        promote: None,
    };
    let early = select_tactical(&board, &moves, PlayerId::Player1, 0);
    assert!(early.contains(&capture));
    assert!(early.contains(&capture_promoting));
    assert!(early.contains(&checking_drop));
    assert!(!early.contains(&quiet_drop));
    assert!(!early.contains(&quiet));
    for mv in &early {
        if let Move::Drop { .. } = mv {
            assert!(is_in_check(
                &apply_move(&board, mv, PlayerId::Player1),
                PlayerId::Player2
            ));
        }
    }
    let late = select_tactical(&board, &moves, PlayerId::Player1, 4);
    assert!(late.contains(&capture));
    assert!(late.iter().all(|m| matches!(m, Move::Normal { .. })));
}

#[test]
fn the_move_handed_out_is_legal_or_the_first_legal_move() {
    let a = Move::Drop {
        kind: PieceKind::S_Pawn,
        to: Position::new(0, 0),
    };
    let b = Move::Drop {
        kind: PieceKind::S_Pawn,
        to: Position::new(1, 0),
    };
    let c = Move::Drop {
        kind: PieceKind::S_Pawn,
        to: Position::new(2, 0),
    };
    let legal = vec![a, b];
    assert_eq!(settle_move(Some(b), &legal), (Some(b), false));
    assert_eq!(settle_move(Some(c), &legal), (Some(a), true));
    assert_eq!(settle_move(None, &legal), (Some(a), true));
    assert_eq!(settle_move(Some(c), &vec![]), (None, false));
    assert_eq!(settle_move(None, &vec![]), (None, false));
}

#[test]
fn fourth_repetition_is_a_draw_whatever_the_material() {
    let mut ai = light(PlayerId::Player1);
    let mut board = lopsided();
    // the side to move is a rook and a queen up: far from a draw
    let plain = ai.negamax(&board, 1, -200000, 200000, PlayerId::Player1, 0);
    assert!(plain > 1000);

    let hash = ai.hash_of(&board, PlayerId::Player1);
    for _ in 0..3 {
        board.push_history(hash);
    }
    // three earlier occurrences: a small penalty at the root only
    assert_eq!(
        ai.negamax(&board, 2, -200000, 200000, PlayerId::Player1, 0),
        -100
    );
    assert_ne!(
        ai.negamax(&board, 1, -200000, 200000, PlayerId::Player1, 1),
        -100
    );
    board.push_history(hash);
    assert_eq!(
        ai.negamax(&board, 2, -200000, 200000, PlayerId::Player1, 0),
        0
    );
    assert_eq!(
        ai.negamax(&board, 2, -200000, 200000, PlayerId::Player1, 3),
        0
    );
    // the history of another side to move does not count
    assert_ne!(
        ai.negamax(&board, 1, -200000, 200000, PlayerId::Player2, 1),
        0
    );
}

#[test]
fn checkmate_and_stalemate_are_scored_at_the_node() {
    let mut mate = Board::new(9, 9);
    mate.place_piece(
        Position::new(0, 0),
        Piece::new(PieceKind::S_King, PlayerId::Player2),
    );
    mate.place_piece(
        Position::new(8, 0),
        Piece::new(PieceKind::S_Rook, PlayerId::Player1),
    );
    mate.place_piece(
        Position::new(8, 1),
        Piece::new(PieceKind::C_Rook, PlayerId::Player1),
    );
    let mut ai = light(PlayerId::Player2);
    assert_eq!(
        ai.negamax(&mate, 2, -200000, 200000, PlayerId::Player2, 0),
        -199902
    );
    assert_eq!(ai.search_root(&mate), None);

    let mut stale = Board::new(9, 9);
    stale.place_piece(
        Position::new(0, 0),
        Piece::new(PieceKind::S_King, PlayerId::Player2),
    );
    stale.place_piece(
        Position::new(8, 1),
        Piece::new(PieceKind::S_Rook, PlayerId::Player1),
    );
    stale.place_piece(
        Position::new(1, 8),
        Piece::new(PieceKind::C_Rook, PlayerId::Player1),
    );
    let mut ai = light(PlayerId::Player2);
    assert_eq!(
        ai.negamax(&stale, 2, -200000, 200000, PlayerId::Player2, 0),
        0
    );
    assert_eq!(ai.search_root(&stale), None);
}

#[test]
fn search_finds_the_mate_in_one() {
    let mut board = Board::new(9, 9);
    board.place_piece(
        Position::new(0, 0),
        Piece::new(PieceKind::S_King, PlayerId::Player2),
    );
    board.place_piece(
        Position::new(8, 1),
        Piece::new(PieceKind::C_Rook, PlayerId::Player1),
    );
    board.place_piece(
        Position::new(7, 5),
        Piece::new(PieceKind::S_Rook, PlayerId::Player1),
    );
    board.place_piece(
        Position::new(4, 8),
        Piece::new(PieceKind::S_King, PlayerId::Player1),
    );
    let mut ai = light(PlayerId::Player1);
    ai.set_time_limit_ms(10_000);
    let score = ai.negamax(&board, 2, -200000, 200000, PlayerId::Player1, 0);
    assert_eq!(score, 199901);
}

#[test]
fn search_returns_a_legal_move_from_the_initial_layout_in_time() {
    let rows = get_fair_setup();
    let board = setup_from_strings(&rows, true, true).unwrap();
    let mut ai = light(PlayerId::Player1);
    ai.set_time_limit_ms(50);
    let started = Instant::now();
    let mv = ai.choose_move(&board, &[]).unwrap();
    let spent = started.elapsed();
    assert!(legal_moves(&board, PlayerId::Player1).contains(&mv));
    assert!(spent < Duration::from_millis(50) + Duration::from_secs(15));
    let thinking = ai.last_thinking().unwrap();
    assert!(thinking.nodes > 0);
}

#[test]
fn search_falls_back_to_the_first_legal_move_when_time_is_up() {
    let rows = get_shogi_setup();
    let board = setup_from_strings(&rows, true, true).unwrap();
    let mut ai = light(PlayerId::Player2);
    ai.set_time_limit_ms(0);
    let mv = ai.search_root(&board);
    let legal = legal_moves(&board, PlayerId::Player2);
    let thinking = ai.last_thinking().unwrap();
    if thinking.fallback {
        assert_eq!(mv, Some(legal[0]));
        assert_eq!(thinking.depth, 0);
        assert_eq!(thinking.score, 0);
    } else {
        assert!(legal.contains(&mv.unwrap()));
    }
}

struct Flat;

impl Evaluator for Flat {
    fn evaluate(&mut self, _board: &Board) -> i32 {
        i32::MIN
    }

    fn name(&self) -> String {
        "Flat".to_string()
    }
}

#[test]
fn search_works_with_any_evaluator() {
    let mut ai = AlphaBetaAI::with_evaluator(PlayerId::Player1, "Odd", AIStrength::Light, Flat);
    assert_eq!(ai.evaluator_name(), "Flat");
    assert_eq!(ai.name(), "Odd");
    assert!(ai.is_local());
    let board = lopsided();
    ai.set_time_limit_ms(20);
    let score = ai.qsearch(&board, -200000, 200000, PlayerId::Player1);
    assert_eq!(score, -200000);
    let score = ai.qsearch(&board, -200000, 200000, PlayerId::Player2);
    assert_eq!(score, 200000);
    let mv = ai.search_root(&board).unwrap();
    assert!(legal_moves(&board, PlayerId::Player1).contains(&mv));

    let engine = light(PlayerId::Player2);
    assert_eq!(engine.evaluator_name(), "Handcrafted");
}

#[test]
fn repetitions_are_found_in_a_history_written_with_the_same_keys() {
    let hasher = ZobristHasher::new();
    let mut board = lopsided();
    board.set_zobrist_hash(hasher.compute_hash(&board, PlayerId::Player1));
    let mut game = Game::new(board);
    let step = |fx: usize, fy: usize, tx: usize, ty: usize| Move::Normal {
        from: Position::new(fx, fy),
        to: Position::new(tx, ty),
        promote: None,
    };
    // the kings step aside and back: after four plies the position repeats
    let cycle = [step(4, 8, 3, 8), step(4, 0, 3, 0), step(3, 8, 4, 8), step(3, 0, 4, 0)];
    for round in 1..=4 {
        assert_eq!(game.outcome(0, 500), Outcome::Open, "round {}", round);
        for mv in cycle {
            assert!(legal_moves(&game.board, game.current_player).contains(&mv));
            assert_eq!(game.advance_recorded(&hasher, Some(mv)), Turn::Moved);
        }
        assert_eq!(
            game.board.zobrist_hash(),
            hasher.compute_hash(&game.board, PlayerId::Player1)
        );
        assert_eq!(
            hybrid_board::logic::zobrist::repetition_count(&game.board, game.board.zobrist_hash()),
            round
        );
    }
    assert_eq!(game.board.history().len(), 16);
    assert_eq!(game.outcome(0, 500), Outcome::Draw);

    // an engine with the same keys sees the draw, one with other keys does not
    let mut same = AlphaBetaAI::with_hasher(
        PlayerId::Player1,
        "Same",
        AIStrength::Light,
        HandcraftedEvaluator::new(),
        hasher.clone(),
    );
    assert_eq!(same.hash_of(&game.board, PlayerId::Player1), game.board.zobrist_hash());
    assert_eq!(
        same.negamax(&game.board, 1, -200000, 200000, PlayerId::Player1, 0),
        0
    );
    let mut other = light(PlayerId::Player1);
    assert!(other.negamax(&game.board, 1, -200000, 200000, PlayerId::Player1, 0) > 1000);
    assert!(same.diagnostics().is_none());
    same.set_time_limit_ms(0);
    let _ = same.search_root(&game.board);
    assert_eq!(same.diagnostics(), same.last_thinking());
    assert!(same.diagnostics().is_some());
}

#[test]
fn a_stored_exact_result_ends_a_shallower_search_at_once() {
    let mut ai = light(PlayerId::Player1);
    let board = lopsided();
    let deep = ai.negamax(&board, 2, -200000, 200000, PlayerId::Player1, 0);
    assert!(deep > -200000 && deep < 200000);
    // the result of depth 2 is exact within the full window and serves depth 1
    assert_eq!(
        ai.negamax(&board, 1, -200000, 200000, PlayerId::Player1, 0),
        deep
    );
    assert_eq!(
        ai.negamax(&board, 2, -5, 5, PlayerId::Player1, 3),
        deep
    );
}

struct Fixed(i32);

impl Evaluator for Fixed {
    fn evaluate(&mut self, _board: &Board) -> i32 {
        self.0
    }

    fn name(&self) -> String {
        "Fixed".to_string()
    }
}

#[test]
fn a_quiet_position_is_scored_at_the_stand_pat_score_within_the_window() {
    assert_eq!(quiet_score(37, PlayerId::Player1, -10, 100), 37);
    assert_eq!(quiet_score(37, PlayerId::Player2, -100, 100), -37);
    assert_eq!(quiet_score(37, PlayerId::Player1, 50, 100), 50);
    assert_eq!(quiet_score(37, PlayerId::Player1, -10, 20), 20);
    assert_eq!(quiet_score(37, PlayerId::Player1, -10, 37), 37);
    assert_eq!(quiet_score(i32::MAX, PlayerId::Player1, -10, 200100), 200100);
    assert_eq!(quiet_score(i32::MIN, PlayerId::Player1, -200100, 10), -200100);
    assert_eq!(quiet_score(i32::MIN, PlayerId::Player2, -10, i32::MAX), i32::MAX);
    assert_eq!(quiet_score(i32::MIN, PlayerId::Player1, i32::MIN, 10), i32::MIN);
    // a closed or inverted window: the upper limit, or else the lower
    assert_eq!(quiet_score(37, PlayerId::Player1, 50, 20), 20);
    assert_eq!(quiet_score(7, PlayerId::Player1, 50, 20), 50);

    // two kings far apart: no capture, no promotion, nothing in hand
    let mut board = Board::new(9, 9);
    board.place_piece(
        Position::new(4, 8),
        Piece::new(PieceKind::S_King, PlayerId::Player1),
    );
    board.place_piece(
        Position::new(4, 0),
        Piece::new(PieceKind::S_King, PlayerId::Player2),
    );
    let mut ai =
        AlphaBetaAI::with_evaluator(PlayerId::Player1, "Fixed", AIStrength::Light, Fixed(37));
    assert_eq!(ai.evaluator_name(), "Fixed");
    assert_eq!(ai.qsearch(&board, -10, 100, PlayerId::Player1), 37);
    assert_eq!(ai.qsearch(&board, -100, 100, PlayerId::Player2), -37);
    assert_eq!(ai.qsearch(&board, 50, 100, PlayerId::Player1), 50);
    assert_eq!(ai.qsearch(&board, -10, 20, PlayerId::Player1), 20);
    assert_eq!(ai.qsearch_depth(&board, -10, 100, PlayerId::Player1, 8), 37);
    assert_eq!(ai.qsearch_depth(&board, -10, 100, PlayerId::Player1, 20), 37);

    // with something to take the search looks further, and stays in the window
    board.place_piece(
        Position::new(4, 7),
        Piece::new(PieceKind::S_Gold, PlayerId::Player2),
    );
    for (alpha, beta) in [(-10, 100), (40, 60), (-50, 0), (37, 38)] {
        let score = ai.qsearch(&board, alpha, beta, PlayerId::Player1);
        let floor = alpha.max(37).min(beta);
        assert!(score == beta || (floor <= score && score < beta), "{} {}", alpha, beta);
    }
    // nodes are counted: a search reports more than none
    ai.set_time_limit_ms(0);
    let _ = ai.search_root(&board);
    assert!(ai.last_thinking().unwrap().nodes > 0);
}

fn cornered(attackers: &[(usize, usize, PieceKind)]) -> Board {
    let mut board = Board::new(9, 9);
    board.place_piece(
        Position::new(0, 8),
        Piece::new(PieceKind::S_King, PlayerId::Player1),
    );
    for (x, y, kind) in attackers {
        board.place_piece(
            Position::new(*x, *y),
            Piece::new(*kind, PlayerId::Player2),
        );
    }
    board
}

#[test]
fn a_fresh_engine_scores_stalemate_and_mate_at_the_node() {
    let stale = cornered(&[(1, 6, PieceKind::C_Queen)]);
    assert!(legal_moves(&stale, PlayerId::Player1).is_empty());
    assert!(!is_in_check(&stale, PlayerId::Player1));
    let mut ai = light(PlayerId::Player1);
    let hash = ai.hash_of(&stale, PlayerId::Player1);
    assert!(ai.table_entry(hash).is_none());
    assert_eq!(
        ai.negamax(&stale, 1, -200000, 200000, PlayerId::Player1, 0),
        0
    );
    // nothing was searched, so nothing was stored
    assert!(ai.table_entry(hash).is_none());

    let mate = cornered(&[(0, 7, PieceKind::S_Gold), (0, 5, PieceKind::S_Lance)]);
    assert!(legal_moves(&mate, PlayerId::Player1).is_empty());
    assert!(is_in_check(&mate, PlayerId::Player1));
    let mut ai = light(PlayerId::Player1);
    assert_eq!(
        ai.negamax(&mate, 1, -200000, 200000, PlayerId::Player1, 0),
        -199901
    );
    assert_eq!(
        ai.negamax(&mate, 300, i32::MIN, i32::MAX, PlayerId::Player1, 7),
        -200000
    );
}

#[test]
fn a_search_leaves_its_result_in_the_table() {
    let board = lopsided();
    for (alpha, beta) in [(-200000, 200000), (-50, 50), (100000, 100001), (i32::MIN, i32::MAX)] {
        for player in [PlayerId::Player1, PlayerId::Player2] {
            let mut ai = light(player);
            let hash = ai.hash_of(&board, player);
            let score = ai.negamax(&board, 2, alpha, beta, player, 0);
            let (entry, best) = ai.table_entry(hash).unwrap();
            assert_eq!(entry.hash, hash);
            assert_eq!(entry.depth, 2);
            assert_eq!(entry.score, score);
            let bound = if score <= alpha {
                Bound::Upper
            } else if score >= beta {
                Bound::Lower
            } else {
                Bound::Exact
            };
            assert_eq!(entry.bound, bound, "{} {}", alpha, beta);
            assert_eq!(best.is_some(), score > -200000);
            if let Some(mv) = best {
                assert!(legal_moves(&board, player).contains(&mv));
            }
        }
    }
    // one iteration of the deepening search hands out what the table proposes
    let mut ai = light(PlayerId::Player1);
    let hash = ai.hash_of(&board, PlayerId::Player1);
    let (score, proposed) = ai.deepen(&board, 1);
    let (entry, best) = ai.table_entry(hash).unwrap();
    assert_eq!((entry.depth, entry.score, entry.bound), (1, score, Bound::Exact));
    assert_eq!(proposed, best);
    assert!(proposed.is_some());
}

#[test]
fn the_fourth_repetition_is_a_draw_for_every_window_and_depth() {
    let mut ai = light(PlayerId::Player2);
    let mut board = lopsided();
    let hash = ai.hash_of(&board, PlayerId::Player2);
    for _ in 0..4 {
        board.push_history(hash);
    }
    for (depth, alpha, beta, ply) in [
        (0, -1, 1, 0),
        (1, 5, 10, 3),
        (7, i32::MIN, i32::MAX, 0),
        (500, i32::MAX, i32::MIN, usize::MAX),
        (usize::MAX, 300000, 300001, 1),
    ] {
        assert_eq!(
            ai.negamax(&board, depth, alpha, beta, PlayerId::Player2, ply),
            0
        );
    }
}

#[test]
fn the_quiescence_search_stays_within_any_window() {
    let mut board = lopsided();
    board.place_piece(
        Position::new(4, 7),
        Piece::new(PieceKind::S_Gold, PlayerId::Player2),
    );
    for eval in [i32::MIN, -250000, 0, 37, 250000, i32::MAX] {
        let mut ai =
            AlphaBetaAI::with_evaluator(PlayerId::Player1, "Fixed", AIStrength::Light, Fixed(eval));
        for (alpha, beta) in [
            (200050, 200100),
            (-200100, -200050),
            (-10, 10),
            (i32::MIN + 1, i32::MAX),
            (5, 5),
        ] {
            for player in [PlayerId::Player1, PlayerId::Player2] {
                let score = ai.qsearch(&board, alpha, beta, player);
                assert!(alpha <= score && score <= beta, "{} {} {}", eval, alpha, beta);
                let stand = if player == PlayerId::Player1 {
                    eval as i64
                } else {
                    -(eval as i64)
                };
                if stand >= beta as i64 {
                    assert_eq!(score, beta);
                }
                assert!(score as i64 >= stand.min(beta as i64));
                let leaf = ai.qsearch_depth(&board, alpha, beta, player, 8);
                assert_eq!(leaf as i64, stand.max(alpha as i64).min(beta as i64));
            }
        }
    }
}

/// Scores a position by the pieces on the board alone: 100 for each piece of
/// the first player, -100 for each piece of the second.
struct Count;

impl Evaluator for Count {
    fn evaluate(&mut self, board: &Board) -> i32 {
        let mut total = 0;
        for y in 0..9 {
            for x in 0..9 {
                if let Some(piece) = board.get_piece(Position::new(x, y)) {
                    total += if piece.owner == PlayerId::Player1 { 100 } else { -100 };
                }
            }
        }
        total
    }

    fn name(&self) -> String {
        "Count".to_string()
    }
}

fn hanging_pawn() -> Board {
    let mut board = Board::new(9, 9);
    board.place_piece(
        Position::new(4, 0),
        Piece::new(PieceKind::S_King, PlayerId::Player2),
    );
    board.place_piece(
        Position::new(0, 4),
        Piece::new(PieceKind::S_Rook, PlayerId::Player1),
    );
    board.place_piece(
        Position::new(0, 2),
        Piece::new(PieceKind::S_Pawn, PlayerId::Player2),
    );
    board
}

#[test]
fn the_quiescence_search_takes_what_hangs() {
    let board = hanging_pawn();
    let mut ai = AlphaBetaAI::with_evaluator(PlayerId::Player1, "Count", AIStrength::Light, Count);
    // one piece against two: -100 as it stands, 0 once the pawn is taken
    assert_eq!(ai.qsearch_depth(&board, -1000, 1000, PlayerId::Player1, 8), -100);
    assert_eq!(ai.qsearch(&board, -1000, 1000, PlayerId::Player1), 0);
    // the capture reaches an upper limit of -50: the limit is the score
    assert_eq!(ai.qsearch(&board, -1000, -50, PlayerId::Player1), -50);
    // a lower limit above what the capture gives stays
    assert_eq!(ai.qsearch(&board, 30, 1000, PlayerId::Player1), 30);
    // the other side has nothing to take
    assert_eq!(ai.qsearch(&board, -1000, 1000, PlayerId::Player2), 100);
    // the table is left alone
    let hash = ai.hash_of(&board, PlayerId::Player1);
    assert!(ai.table_entry(hash).is_none());
}

#[test]
fn the_score_is_the_best_of_the_negated_scores_of_the_successors() {
    let board = hanging_pawn();
    let mut ai = AlphaBetaAI::with_evaluator(PlayerId::Player1, "Count", AIStrength::Light, Count);
    let hash = ai.hash_of(&board, PlayerId::Player1);
    let score = ai.negamax(&board, 1, -200000, 200000, PlayerId::Player1, 0);
    // every successor is searched by hand, with an engine of its own
    let mut best = -200000;
    let mut best_move = None;
    for mv in legal_moves(&board, PlayerId::Player1) {
        let next = apply_move(&board, &mv, PlayerId::Player1);
        let mut fresh =
            AlphaBetaAI::with_evaluator(PlayerId::Player1, "Count", AIStrength::Light, Count);
        let reply = -fresh.qsearch(&next, -200000, 200000, PlayerId::Player2);
        if reply > best {
            best = reply;
            best_move = Some(mv);
        }
    }
    assert_eq!(best, 0);
    assert_eq!(score, best);
    let (entry, stored) = ai.table_entry(hash).unwrap();
    assert_eq!((entry.depth, entry.score, entry.bound), (1, 0, Bound::Exact));
    let stored = stored.unwrap();
    let next = apply_move(&board, &stored, PlayerId::Player1);
    let mut fresh =
        AlphaBetaAI::with_evaluator(PlayerId::Player1, "Count", AIStrength::Light, Count);
    assert_eq!(-fresh.qsearch(&next, -200000, 200000, PlayerId::Player2), score);
    assert!(best_move.is_some());
    match stored {
        Move::Normal { to, .. } => assert_eq!(to, Position::new(0, 2)),
        Move::Drop { .. } => panic!("nothing is in hand"),
    }
}

#[test]
fn two_engines_with_the_same_keys_search_alike() {
    let hasher = ZobristHasher::new();
    let board = lopsided();
    for strength in [AIStrength::Light, AIStrength::Strong] {
        let mut one = AlphaBetaAI::with_hasher(
            PlayerId::Player1,
            "One",
            strength,
            HandcraftedEvaluator::new(),
            hasher.clone(),
        );
        let mut two = AlphaBetaAI::with_hasher(
            PlayerId::Player1,
            "Two",
            strength,
            HandcraftedEvaluator::new(),
            hasher.clone(),
        );
        let hash = one.hash_of(&board, PlayerId::Player1);
        for depth in 1..=3 {
            let a = one.deepen(&board, depth);
            let b = two.deepen(&board, depth);
            assert_eq!(a, b);
            assert_eq!(one.table_entry(hash), two.table_entry(hash));
        }
    }
}

#[test]
fn only_a_reading_above_the_budget_ends_the_search() {
    assert!(!is_over_budget(0, 0));
    assert!(!is_over_budget(5, 5));
    assert!(is_over_budget(6, 5));
    assert!(!is_over_budget(999, 1000));
    assert!(is_over_budget(u128::MAX, 1000));
}

#[test]
fn a_search_with_time_left_runs_every_depth_of_its_strength() {
    let mut board = Board::new(3, 3);
    board.place_piece(
        Position::new(2, 2),
        Piece::new(PieceKind::S_King, PlayerId::Player1),
    );
    board.place_piece(
        Position::new(0, 0),
        Piece::new(PieceKind::S_King, PlayerId::Player2),
    );
    let mut ai = AlphaBetaAI::with_evaluator(PlayerId::Player1, "Count", AIStrength::Light, Count);
    ai.set_time_limit_ms(u128::MAX);
    let mv = ai.search_root(&board).unwrap();
    let thinking = ai.last_thinking().unwrap();
    assert!(!thinking.fallback);
    assert_eq!(thinking.depth, 4);
    assert!(legal_moves(&board, PlayerId::Player1).contains(&mv));
    let hash = ai.hash_of(&board, PlayerId::Player1);
    let (entry, stored) = ai.table_entry(hash).unwrap();
    assert_eq!(entry.depth, 4);
    assert_eq!(entry.score, thinking.score);
    assert_eq!(stored, Some(mv));
}
