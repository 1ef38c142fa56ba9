use hybrid_board::display::DisplayState;
use hybrid_board::game::{Game, Outcome, PerspectiveMode};
use hybrid_board::logic::legal_moves;
use hybrid_board::model::setup::{get_shogi_setup, setup_from_strings};
use hybrid_board::model::{Board, Move, Piece, PieceKind, PlayerId, Position};
use hybrid_board::network::addr::sanitize_addr;
use hybrid_board::network::referee::{Referee, Verdict};
use hybrid_board::player::ai::alpha_beta::AIStrength;
use hybrid_board::player::ai::config::{default_evaluator_type, SearchConfig};
use hybrid_board::ui::input::{
    answer_promotion, cycle_hand, destinations_from, held_kinds, move_cursor, moves_between,
    promotion_question, Key, PromotionQuestion, Reaction,
};
use hybrid_board::ui::kifu_selector::{
    extract_timestamp_from_filename, truncate, visible_end, KifuFileInfo, KifuSelector,
};
use hybrid_board::ui::selection::{create_player_controllers, Pairing, Seat};
use std::path::PathBuf;

const P1: PlayerId = PlayerId::Player1;
const P2: PlayerId = PlayerId::Player2;

fn normal(fx: usize, fy: usize, tx: usize, ty: usize, promote: Option<PieceKind>) -> Move {
    Move::Normal {
        from: Position::new(fx, fy),
        to: Position::new(tx, ty),
        promote,
    }
}

#[test]
fn addresses_are_cleaned_up() {
    assert_eq!(sanitize_addr("localhost"), "localhost:8080");
    assert_eq!(sanitize_addr("  example.org:9000 \n"), "example.org:9000");
    assert_eq!(sanitize_addr("http://example.org/play/now"), "example.org:8080");
    assert_eq!(sanitize_addr("tcp://10.0.0.1:7000/"), "10.0.0.1:7000");
    assert_eq!(sanitize_addr("a/b://c"), "c:8080");
    assert_eq!(sanitize_addr("x://y://z"), "y:");
    assert_eq!(sanitize_addr(""), ":8080");
    assert_eq!(sanitize_addr("   "), ":8080");
    assert_eq!(sanitize_addr("://"), ":8080");
    assert_eq!(sanitize_addr("host :1"), "host :1");
}

#[test]
fn texts_are_cut_with_an_ellipsis() {
    assert_eq!(truncate("StandardMixed", 15), "StandardMixed");
    assert_eq!(truncate("StandardMixed", 13), "StandardMixed");
    assert_eq!(truncate("StandardMixed", 12), "StandardMix…");
    assert_eq!(truncate("歩兵と香車", 3), "歩兵…");
    assert_eq!(truncate("abc", 1), "…");
    assert_eq!(truncate("abc", 0), "…");
    assert_eq!(truncate("", 0), "");
}

#[test]
fn timestamps_are_read_from_file_names() {
    assert_eq!(
        extract_timestamp_from_filename("selfplay_results_20260107_214954.json"),
        Some("2026-01-07 21:49:54".to_string())
    );
    assert_eq!(
        extract_timestamp_from_filename("a_20260107_2149.json"),
        Some("2026-01-07".to_string())
    );
    assert_eq!(
        extract_timestamp_from_filename("game_of_mine.json.json"),
        Some("of mine".to_string())
    );
    assert_eq!(
        extract_timestamp_from_filename("x__"),
        Some(" ".to_string())
    );
    assert_eq!(extract_timestamp_from_filename("game.json"), None);
    assert_eq!(extract_timestamp_from_filename("my_game.json"), None);
    assert_eq!(extract_timestamp_from_filename(""), None);
}

fn info(n: usize) -> KifuFileInfo {
    KifuFileInfo {
        path: PathBuf::from(format!("kifu/{}.json", n)),
        filename: format!("{}.json", n),
        board_setup: "Fair".to_string(),
        player1: "A".to_string(),
        player2: "B".to_string(),
        move_count: n,
        timestamp: format!("{:04}", n),
    }
}

#[test]
fn the_list_scrolls_with_the_cursor() {
    let mut selector = KifuSelector::with_files((0..30).map(info).collect());
    assert_eq!(selector.len(), 30);
    assert_eq!(selector.visible_rows(), 20);
    assert_eq!(selector.current().unwrap().move_count, 0);
    selector.move_up();
    assert_eq!((selector.selected_index(), selector.scroll_offset()), (0, 0));
    for _ in 0..19 {
        selector.move_down();
    }
    assert_eq!((selector.selected_index(), selector.scroll_offset()), (19, 0));
    selector.move_down();
    assert_eq!((selector.selected_index(), selector.scroll_offset()), (20, 1));
    for _ in 0..20 {
        selector.move_down();
    }
    assert_eq!((selector.selected_index(), selector.scroll_offset()), (29, 10));
    assert_eq!(selector.current().unwrap().move_count, 29);
    assert_eq!(selector.file(3).filename, "3.json");
    for _ in 0..19 {
        selector.move_up();
    }
    assert_eq!((selector.selected_index(), selector.scroll_offset()), (10, 10));
    selector.move_up();
    assert_eq!((selector.selected_index(), selector.scroll_offset()), (9, 9));
    assert_eq!(visible_end(9, 20, 30), 29);
    assert_eq!(visible_end(10, 20, 30), 30);
    assert_eq!(visible_end(25, 20, 30), 30);
    assert_eq!(visible_end(40, 20, 30), 30);
    assert_eq!(visible_end(usize::MAX, usize::MAX, 30), 30);

    let mut empty = KifuSelector::with_files(vec![]);
    assert!(empty.current().is_none());
    empty.move_down();
    empty.move_up();
    assert_eq!((empty.selected_index(), empty.scroll_offset()), (0, 0));
}

#[test]
fn menu_choices_stand_for_pairings() {
    assert_eq!(
        create_player_controllers("1"),
        Some(Pairing {
            first: Seat::Human,
            second: Seat::Human,
            perspective: PerspectiveMode::AutoFlip
        })
    );
    assert_eq!(
        create_player_controllers("2"),
        Some(Pairing {
            first: Seat::Human,
            second: Seat::Engine(AIStrength::Light),
            perspective: PerspectiveMode::Fixed(P1)
        })
    );
    assert_eq!(
        create_player_controllers("3").unwrap().second,
        Seat::Engine(AIStrength::Strong)
    );
    assert_eq!(
        create_player_controllers("4").unwrap().first,
        Seat::Engine(AIStrength::Strong)
    );
    assert_eq!(create_player_controllers("5"), None);
    assert_eq!(create_player_controllers(""), None);
    assert_eq!(create_player_controllers("11"), None);
}

#[test]
fn settings_have_defaults() {
    let config = SearchConfig::default();
    assert_eq!((config.max_depth_light, config.max_depth_strong), (2, 4));
    assert_eq!(default_evaluator_type(), "Handcrafted");
}

#[test]
fn the_referee_accepts_legal_moves_of_the_side_to_move() {
    let board = setup_from_strings(&get_shogi_setup(), true, true).unwrap();
    let mut referee = Referee::new(board);
    let first = normal(6, 6, 6, 5, None);
    let reply = normal(2, 2, 2, 3, None);
    assert_eq!(referee.submit(P2, reply), Verdict::Ignored);
    assert_eq!(referee.submit(P1, normal(6, 6, 6, 4, None)), Verdict::Illegal);
    assert_eq!(referee.next_player, P1);
    assert!(referee.board.get_piece(Position::new(6, 6)).is_some());
    assert_eq!(referee.submit(P1, first), Verdict::Accepted);
    assert_eq!(referee.next_player, P2);
    assert_eq!(referee.board.last_move(), Some(first));
    assert_eq!(referee.submit(P1, first), Verdict::Ignored);
    assert_eq!(referee.submit(P2, reply), Verdict::Accepted);
    assert_eq!(referee.next_player, P1);
}

#[test]
fn unattended_games_end_by_limit_repetition_mate_or_stalemate() {
    let board = setup_from_strings(&get_shogi_setup(), true, true).unwrap();
    let mut game = Game::new(board);
    assert_eq!(game.outcome(0, 500), Outcome::Open);
    assert_eq!(game.outcome(499, 500), Outcome::Open);
    assert_eq!(game.outcome(500, 500), Outcome::Draw);
    game.board.set_zobrist_hash(77);
    for _ in 0..3 {
        game.board.push_history(77);
    }
    assert_eq!(game.outcome(10, 500), Outcome::Open);
    game.board.push_history(77);
    assert_eq!(game.outcome(10, 500), Outcome::Draw);

    let mut mate = Board::new(9, 9);
    mate.place_piece(Position::new(0, 0), Piece::new(PieceKind::S_King, P1));
    mate.place_piece(Position::new(8, 0), Piece::new(PieceKind::S_Rook, P2));
    mate.place_piece(Position::new(8, 1), Piece::new(PieceKind::C_Rook, P2));
    assert_eq!(Game::new(mate).outcome(3, 500), Outcome::Won(P2));

    let mut stale = Board::new(9, 9);
    stale.place_piece(Position::new(0, 0), Piece::new(PieceKind::S_King, P1));
    stale.place_piece(Position::new(8, 1), Piece::new(PieceKind::S_Rook, P2));
    stale.place_piece(Position::new(1, 8), Piece::new(PieceKind::C_Rook, P2));
    assert_eq!(Game::new(stale).outcome(3, 500), Outcome::Draw);
}

#[test]
fn the_cursor_moves_as_the_player_sees_the_board() {
    let at = Position::new(4, 4);
    assert_eq!(move_cursor(at, P1, 9, 9, Key::Up), Position::new(4, 3));
    assert_eq!(move_cursor(at, P1, 9, 9, Key::Down), Position::new(4, 5));
    assert_eq!(move_cursor(at, P1, 9, 9, Key::Left), Position::new(3, 4));
    assert_eq!(move_cursor(at, P1, 9, 9, Key::Right), Position::new(5, 4));
    assert_eq!(move_cursor(at, P2, 9, 9, Key::Up), Position::new(4, 5));
    assert_eq!(move_cursor(at, P2, 9, 9, Key::Down), Position::new(4, 3));
    assert_eq!(move_cursor(at, P2, 9, 9, Key::Left), Position::new(5, 4));
    assert_eq!(move_cursor(at, P2, 9, 9, Key::Right), Position::new(3, 4));
    assert_eq!(move_cursor(at, P1, 9, 9, Key::Confirm), at);
    let corner = Position::new(0, 0);
    assert_eq!(move_cursor(corner, P1, 9, 9, Key::Up), corner);
    assert_eq!(move_cursor(corner, P1, 9, 9, Key::Left), corner);
    let far = Position::new(8, 7);
    assert_eq!(move_cursor(far, P1, 9, 8, Key::Down), far);
    assert_eq!(move_cursor(far, P1, 9, 8, Key::Right), far);
    assert_eq!(move_cursor(far, P2, 9, 8, Key::Up), far);
    assert_eq!(move_cursor(corner, P1, 0, 0, Key::Down), corner);

    assert_eq!(cycle_hand(0, 3, Key::Right), 1);
    assert_eq!(cycle_hand(2, 3, Key::Right), 0);
    assert_eq!(cycle_hand(0, 3, Key::Left), 2);
    assert_eq!(cycle_hand(7, 3, Key::Left), 0);
    assert_eq!(cycle_hand(5, 0, Key::Left), 5);
}

#[test]
fn promotion_questions_and_answers() {
    let plain = normal(4, 3, 4, 2, None);
    let promoting = normal(4, 3, 4, 2, Some(PieceKind::S_ProSilver));
    let shogi = vec![promoting, plain];
    assert_eq!(promotion_question(&shogi), PromotionQuestion::YesOrNo);
    assert_eq!(answer_promotion(&shogi, 'y'), Some(promoting));
    assert_eq!(answer_promotion(&shogi, 'n'), Some(plain));
    assert_eq!(answer_promotion(&shogi, '1'), None);
    let chess: Vec<Move> = [
        PieceKind::C_Queen,
        PieceKind::C_Rook,
        PieceKind::C_Bishop,
        PieceKind::C_Knight,
    ]
    .iter()
    .map(|k| normal(5, 1, 5, 0, Some(*k)))
    .collect();
    assert_eq!(promotion_question(&chess), PromotionQuestion::Numbered);
    assert_eq!(answer_promotion(&chess, '1'), Some(chess[0]));
    assert_eq!(answer_promotion(&chess, '4'), Some(chess[3]));
    assert_eq!(answer_promotion(&chess, '5'), None);
    assert_eq!(answer_promotion(&chess, '0'), None);
    assert_eq!(answer_promotion(&chess, 'y'), None);
}

#[test]
fn keys_lead_to_a_move() {
    let mut board = Board::new(9, 9);
    board.place_piece(Position::new(4, 3), Piece::new(PieceKind::S_Silver, P1));
    board.place_piece(Position::new(4, 8), Piece::new(PieceKind::S_King, P1));
    board.place_piece(Position::new(0, 0), Piece::new(PieceKind::S_King, P2));
    board.add_to_hand(P1, PieceKind::S_Pawn);
    board.add_to_hand(P1, PieceKind::C_Rook);
    let moves = legal_moves(&board, P1);
    assert_eq!(
        held_kinds(&board, P1),
        vec![PieceKind::C_Rook, PieceKind::S_Pawn]
    );
    assert_eq!(held_kinds(&board, P2), vec![]);

    let mut state = DisplayState::new();
    state.cursor = Position::new(4, 3);
    assert_eq!(state.handle_key(&board, P1, &moves, Key::Other), Reaction::Continue);
    // select the silver
    assert_eq!(state.handle_key(&board, P1, &moves, Key::Confirm), Reaction::Continue);
    assert_eq!(state.selected, Some(Position::new(4, 3)));
    assert_eq!(state.highlights, destinations_from(&moves, Position::new(4, 3)));
    assert_eq!(state.highlights.len(), 8);
    // a square it cannot go to: nothing
    assert_eq!(state.handle_key(&board, P1, &moves, Key::Down), Reaction::Continue);
    assert_eq!(state.handle_key(&board, P1, &moves, Key::Confirm), Reaction::Continue);
    // back and behind to the left: one variant
    assert_eq!(state.handle_key(&board, P1, &moves, Key::Left), Reaction::Continue);
    assert_eq!(state.cursor, Position::new(3, 4));
    assert_eq!(
        state.handle_key(&board, P1, &moves, Key::Confirm),
        Reaction::Play(normal(4, 3, 3, 4, None))
    );
    // straight ahead into the zone: two variants
    state.cursor = Position::new(4, 2);
    assert_eq!(
        state.handle_key(&board, P1, &moves, Key::Confirm),
        Reaction::AskPromotion {
            from: Position::new(4, 3),
            to: Position::new(4, 2)
        }
    );
    assert_eq!(
        moves_between(&moves, Position::new(4, 3), Position::new(4, 2)).len(),
        2
    );
    // confirm on the selected square ends the selection
    state.cursor = Position::new(4, 3);
    assert_eq!(state.handle_key(&board, P1, &moves, Key::Confirm), Reaction::Continue);
    assert_eq!(state.selected, None);
    assert!(state.highlights.is_empty());
    // an enemy piece or an empty square is not selected
    state.cursor = Position::new(0, 0);
    assert_eq!(state.handle_key(&board, P1, &moves, Key::Confirm), Reaction::Continue);
    assert_eq!(state.selected, None);

    // the hand
    state.cursor = Position::new(7, 7);
    assert_eq!(state.handle_key(&board, P1, &moves, Key::ToggleHand), Reaction::Continue);
    assert!(state.hand_mode);
    assert_eq!(state.handle_key(&board, P1, &moves, Key::Right), Reaction::Continue);
    assert_eq!(state.hand_index, 1);
    assert_eq!(state.cursor, Position::new(7, 7));
    assert_eq!(
        state.handle_key(&board, P1, &moves, Key::Confirm),
        Reaction::Play(Move::Drop {
            kind: PieceKind::S_Pawn,
            to: Position::new(7, 7)
        })
    );
    assert!(!state.hand_mode);
    // a drop onto an occupied square is not played
    state.cursor = Position::new(4, 8);
    state.handle_key(&board, P1, &moves, Key::ToggleHand);
    assert_eq!(state.handle_key(&board, P1, &moves, Key::Confirm), Reaction::Continue);
    assert!(!state.hand_mode);
    // nothing in hand: the hand is not entered
    let theirs = legal_moves(&board, P2);
    assert_eq!(state.handle_key(&board, P2, &theirs, Key::ToggleHand), Reaction::Continue);
    assert!(!state.hand_mode);
    // cancel and quit
    state.selected = Some(Position::new(4, 3));
    state.hand_mode = true;
    assert_eq!(state.handle_key(&board, P1, &moves, Key::Cancel), Reaction::Continue);
    assert_eq!((state.selected, state.hand_mode), (None, false));
    assert_eq!(state.handle_key(&board, P1, &moves, Key::Quit), Reaction::Resign);
}

#[test]
fn timestamps_are_read_from_directory_names() {
    use_dir("20260107_214954", Some("2026-01-07"));
    use_dir("a_20260107_214954", Some("2026-01-07 21:49:54"));
    use_dir("20260107", Some("2026-01-07"));
    use_dir("run_20260107", Some("2026-01-07"));
    use_dir("2026010x_20260108", Some("2026-01-08"));
    use_dir("ShogiOnly", None);
    use_dir("2026010x", None);
    use_dir("a_b", None);
    use_dir("", None);
}

fn use_dir(name: &str, expected: Option<&str>) {
    assert_eq!(
        hybrid_board::ui::kifu_selector::extract_timestamp_from_dir_name(name),
        expected.map(|s| s.to_string()),
        "{}",
        name
    );
}
