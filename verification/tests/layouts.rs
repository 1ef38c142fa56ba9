use hybrid_board::game::replay::ReplayViewer;
use hybrid_board::game::{Game, GameStatus, KifuData, PerspectiveMode, Turn};
use hybrid_board::logic::legal_moves;
use hybrid_board::model::setup::{
    get_chess_setup, get_fair_setup, get_reversed_fair_setup, get_reversed_mixed_setup,
    get_shogi_setup, get_standard_mixed_setup, parse_piece_kind, setup_from_strings, split_words,
};
use hybrid_board::model::{Board, Move, Piece, PieceKind, PlayerConfig, PlayerId, Position};

const P1: PlayerId = PlayerId::Player1;
const P2: PlayerId = PlayerId::Player2;

fn at(board: &Board, x: usize, y: usize) -> Option<(PieceKind, PlayerId)> {
    board
        .get_piece(Position::new(x, y))
        .map(|p| (p.kind, p.owner))
}

fn count(board: &Board) -> usize {
    let mut n = 0;
    for y in 0..board.height() {
        for x in 0..board.width() {
            if board.get_piece(Position::new(x, y)).is_some() {
                n += 1;
            }
        }
    }
    n
}

#[test]
fn words_are_split_at_blanks() {
    assert_eq!(split_words(""), Vec::<&str>::new());
    assert_eq!(split_words("   "), Vec::<&str>::new());
    assert_eq!(split_words("a"), vec!["a"]);
    assert_eq!(split_words(" cp  K\t.\n"), vec!["cp", "K", "."]);
    assert_eq!(split_words("L N S"), vec!["L", "N", "S"]);
}

#[test]
fn words_name_kinds_by_family() {
    assert_eq!(parse_piece_kind("K", true), Some(PieceKind::S_King));
    assert_eq!(parse_piece_kind("k", false), Some(PieceKind::C_King));
    assert_eq!(parse_piece_kind("G", true), Some(PieceKind::S_Gold));
    assert_eq!(parse_piece_kind("G", false), None);
    assert_eq!(parse_piece_kind("Q", true), None);
    assert_eq!(parse_piece_kind("q", false), Some(PieceKind::C_Queen));
    assert_eq!(parse_piece_kind("l", true), Some(PieceKind::S_Lance));
    assert_eq!(parse_piece_kind("s", true), Some(PieceKind::S_Silver));
    assert_eq!(parse_piece_kind("n", true), Some(PieceKind::S_Knight));
    assert_eq!(parse_piece_kind("n", false), Some(PieceKind::C_Knight));
    assert_eq!(parse_piece_kind("r", true), Some(PieceKind::S_Rook));
    assert_eq!(parse_piece_kind("b", false), Some(PieceKind::C_Bishop));
    assert_eq!(parse_piece_kind("P", true), Some(PieceKind::S_Pawn));
    // two letters with c are chess whatever the side plays
    assert_eq!(parse_piece_kind("cp", true), Some(PieceKind::C_Pawn));
    assert_eq!(parse_piece_kind("CK", true), Some(PieceKind::C_King));
    assert_eq!(parse_piece_kind("Cq", false), Some(PieceKind::C_Queen));
    assert_eq!(parse_piece_kind("cr", true), Some(PieceKind::C_Rook));
    assert_eq!(parse_piece_kind("cb", true), Some(PieceKind::C_Bishop));
    assert_eq!(parse_piece_kind("cn", true), Some(PieceKind::C_Knight));
    assert_eq!(parse_piece_kind("cx", true), None);
    assert_eq!(parse_piece_kind("x", true), None);
    // only the first letter of a longer word counts
    assert_eq!(parse_piece_kind("pawn", true), Some(PieceKind::S_Pawn));
}

#[test]
fn shogi_layout() {
    let board = setup_from_strings(&get_shogi_setup(), true, true).unwrap();
    assert_eq!((board.width(), board.height()), (9, 9));
    assert_eq!(count(&board), 40);
    assert_eq!(at(&board, 4, 8), Some((PieceKind::S_King, P1)));
    assert_eq!(at(&board, 4, 0), Some((PieceKind::S_King, P2)));
    assert_eq!(at(&board, 1, 7), Some((PieceKind::S_Bishop, P1)));
    assert_eq!(at(&board, 7, 7), Some((PieceKind::S_Rook, P1)));
    assert_eq!(at(&board, 1, 1), Some((PieceKind::S_Rook, P2)));
    assert_eq!(at(&board, 0, 6), Some((PieceKind::S_Pawn, P1)));
    assert_eq!(at(&board, 8, 2), Some((PieceKind::S_Pawn, P2)));
    assert_eq!(at(&board, 4, 4), None);
    assert!(board.get_piece(Position::new(4, 8)).unwrap().is_shogi);
    assert_eq!(board.get_player_config(P1), PlayerConfig::shogi());
    assert_eq!(board.get_player_config(P2), PlayerConfig::shogi());
    assert_eq!(board.find_king(P1), Some(Position::new(4, 8)));
    assert_eq!(legal_moves(&board, P1).len(), 30);
    assert_eq!(legal_moves(&board, P2).len(), 30);
}

#[test]
fn chess_layout_has_eight_ranks() {
    let board = setup_from_strings(&get_chess_setup(), false, false).unwrap();
    assert_eq!((board.width(), board.height()), (9, 8));
    assert_eq!(count(&board), 36);
    assert_eq!(at(&board, 4, 7), Some((PieceKind::C_King, P1)));
    assert_eq!(at(&board, 3, 0), Some((PieceKind::C_Queen, P2)));
    assert_eq!(at(&board, 0, 6), Some((PieceKind::C_Pawn, P1)));
    assert!(!board.get_piece(Position::new(4, 7)).unwrap().is_shogi);
    assert_eq!(board.get_player_config(P1), PlayerConfig::chess());
    assert_eq!(board.get_player_config(P2), PlayerConfig::chess());
    // nine pawns with two advances each, two knights with two jumps each
    assert_eq!(legal_moves(&board, P1).len(), 22);
}

#[test]
fn mixed_and_fair_layouts() {
    let board = setup_from_strings(&get_standard_mixed_setup(), true, false).unwrap();
    assert_eq!((board.width(), board.height()), (9, 9));
    assert_eq!(at(&board, 4, 8), Some((PieceKind::S_King, P1)));
    assert_eq!(at(&board, 4, 0), Some((PieceKind::C_King, P2)));
    assert_eq!(at(&board, 0, 1), Some((PieceKind::C_Pawn, P2)));
    assert_eq!(count(&board), 20 + 18);

    let board = setup_from_strings(&get_reversed_mixed_setup(), false, true).unwrap();
    assert_eq!((board.width(), board.height()), (9, 8));
    assert_eq!(at(&board, 4, 7), Some((PieceKind::C_King, P1)));
    assert_eq!(at(&board, 4, 0), Some((PieceKind::S_King, P2)));

    let board = setup_from_strings(&get_fair_setup(), true, true).unwrap();
    assert_eq!(at(&board, 4, 8), Some((PieceKind::S_King, P1)));
    assert_eq!(at(&board, 8, 8), Some((PieceKind::C_Queen, P1)));
    assert_eq!(at(&board, 5, 0), Some((PieceKind::C_Queen, P2)));
    assert_eq!(at(&board, 7, 7), Some((PieceKind::C_Rook, P1)));
    assert_eq!(at(&board, 7, 1), Some((PieceKind::C_Bishop, P2)));
    assert_eq!(at(&board, 5, 6), Some((PieceKind::C_Pawn, P1)));
    assert_eq!(count(&board), 40);

    let board = setup_from_strings(&get_reversed_fair_setup(), false, false).unwrap();
    // single letters are chess kinds here: G, S and L name nothing
    assert_eq!(at(&board, 4, 8), Some((PieceKind::C_King, P1)));
    assert_eq!(at(&board, 5, 8), None);
    assert_eq!(at(&board, 7, 8), Some((PieceKind::C_Knight, P1)));
    assert_eq!(at(&board, 4, 6), Some((PieceKind::C_Pawn, P1)));
}

#[test]
fn layouts_beyond_nine_by_nine_are_refused() {
    assert!(setup_from_strings(&[". . . . . . . . . ."], true, true).is_none());
    assert!(setup_from_strings(&["."; 10], true, true).is_none());
    // the first row decides the width; words beyond it are ignored
    let board = setup_from_strings(&[". .", "K p P"], true, true).unwrap();
    assert_eq!((board.width(), board.height()), (2, 2));
    assert_eq!(at(&board, 0, 1), Some((PieceKind::S_King, P1)));
    assert_eq!(at(&board, 1, 1), Some((PieceKind::S_Pawn, P2)));
    assert_eq!(count(&board), 2);
    let empty = setup_from_strings(&[], true, true).unwrap();
    assert_eq!((empty.width(), empty.height()), (0, 0));
}

#[test]
fn a_game_passes_the_turn_and_records_the_moves() {
    let board = setup_from_strings(&get_shogi_setup(), true, true).unwrap();
    let mut game = Game::with_setup(board, "ShogiOnly".to_string());
    assert_eq!(game.current_player, P1);
    assert_eq!(game.perspective(), P1);
    assert_eq!(game.status(), GameStatus::Ongoing);
    let mv = Move::Normal {
        from: Position::new(6, 6),
        to: Position::new(6, 5),
        promote: None,
    };
    assert_eq!(game.advance(Some(mv)), Turn::Moved);
    assert_eq!(game.current_player, P2);
    assert_eq!(game.perspective(), P2);
    assert_eq!(game.history, vec![mv]);
    assert_eq!(game.board.last_move(), Some(mv));
    assert!(game.board.get_piece(Position::new(6, 5)).is_some());
    assert_eq!(game.advance(None), Turn::Resigned { winner: P1 });
    assert_eq!(game.current_player, P2);
    assert_eq!(game.history.len(), 1);
    game.perspective_mode = PerspectiveMode::Fixed(P1);
    assert_eq!(game.perspective(), P1);

    let fresh = Game::new(Board::new(9, 9));
    assert_eq!(fresh.board_setup, "Unknown");
    assert_eq!(fresh.perspective_mode, PerspectiveMode::AutoFlip);
    assert_eq!(fresh.status(), GameStatus::NoMoves { winner: P2 });
}

#[test]
fn a_mated_side_loses_the_game() {
    let mut board = Board::new(9, 9);
    board.place_piece(Position::new(0, 0), Piece::new(PieceKind::S_King, P1));
    board.place_piece(Position::new(8, 0), Piece::new(PieceKind::S_Rook, P2));
    board.place_piece(Position::new(8, 1), Piece::new(PieceKind::C_Rook, P2));
    let game = Game::new(board);
    assert_eq!(game.status(), GameStatus::Checkmate { winner: P2 });
}

#[test]
fn a_record_is_replayed_move_by_move() {
    let first = Move::Normal {
        from: Position::new(6, 6),
        to: Position::new(6, 5),
        promote: None,
    };
    let second = Move::Normal {
        from: Position::new(2, 2),
        to: Position::new(2, 3),
        promote: None,
    };
    let kifu = KifuData {
        board_setup: "ShogiOnly".to_string(),
        player1_name: "A".to_string(),
        player2_name: "B".to_string(),
        moves: vec![first, second],
    };
    let mut viewer = ReplayViewer::new(kifu);
    assert_eq!(viewer.move_count(), 2);
    assert_eq!(viewer.current_index(), 0);
    assert_eq!(viewer.last_move(), None);
    assert_eq!(viewer.next_player(), P1);
    assert_eq!(at(viewer.current_board(), 6, 6), Some((PieceKind::S_Pawn, P1)));
    viewer.step_back();
    assert_eq!(viewer.current_index(), 0);
    viewer.step_forward();
    assert_eq!(viewer.last_move(), Some(first));
    assert_eq!(viewer.next_player(), P2);
    assert_eq!(at(viewer.current_board(), 6, 6), None);
    assert_eq!(at(viewer.current_board(), 6, 5), Some((PieceKind::S_Pawn, P1)));
    viewer.step_forward();
    assert_eq!(at(viewer.current_board(), 2, 3), Some((PieceKind::S_Pawn, P2)));
    viewer.step_forward();
    assert_eq!(viewer.current_index(), 2);
    viewer.step_back();
    assert_eq!(viewer.current_index(), 1);
    assert_eq!(viewer.kifu().player2_name, "B");

    let board = ReplayViewer::board_from_setup("ChessOnly");
    assert_eq!(board.height(), 8);
    let board = ReplayViewer::board_from_setup("no such layout");
    assert_eq!(at(&board, 8, 8), Some((PieceKind::C_Queen, P1)));
    let board = ReplayViewer::board_from_setup("StandardMixed");
    assert_eq!(at(&board, 4, 0), Some((PieceKind::C_King, P2)));

    let mut start = Board::new(3, 3);
    start.place_piece(Position::new(1, 2), Piece::new(PieceKind::S_Gold, P1));
    let step = Move::Normal {
        from: Position::new(1, 2),
        to: Position::new(1, 1),
        promote: None,
    };
    let mut viewer = ReplayViewer::with_initial_board(vec![step], start);
    viewer.step_forward();
    assert_eq!(at(viewer.current_board(), 1, 1), Some((PieceKind::S_Gold, P1)));
}
