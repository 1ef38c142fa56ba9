use hybrid_board::display::{DisplayState, Frame};
use hybrid_board::game::play::critical_moments;
use hybrid_board::logic::legal_moves;
use hybrid_board::model::{Board, Move, Piece, PieceKind, PlayerId, Position};
use hybrid_board::player::ai::minimax::MinimaxAI;
use hybrid_board::player::ai::ordering::{move_order_key, sort_moves};
use hybrid_board::player::ai::RandomAI;
use hybrid_board::player::PlayerController;
use hybrid_board::text::same_text;

const P1: PlayerId = PlayerId::Player1;
const P2: PlayerId = PlayerId::Player2;

fn normal(fx: usize, fy: usize, tx: usize, ty: usize, promote: Option<PieceKind>) -> Move {
    Move::Normal {
        from: Position::new(fx, fy),
        to: Position::new(tx, ty),
        promote,
    }
}

fn small_fight() -> Board {
    let mut board = Board::new(9, 9);
    board.place_piece(Position::new(4, 8), Piece::new(PieceKind::S_King, P1));
    board.place_piece(Position::new(4, 0), Piece::new(PieceKind::S_King, P2));
    board.place_piece(Position::new(0, 4), Piece::new(PieceKind::S_Rook, P1));
    board.place_piece(Position::new(8, 4), Piece::new(PieceKind::S_Gold, P2));
    board
}

#[test]
fn random_player_picks_one_of_the_moves() {
    let board = small_fight();
    let moves = legal_moves(&board, P1);
    let mut ai = RandomAI::new(P1, "Random");
    assert_eq!(ai.name(), "Random");
    assert!(ai.is_local());
    for _ in 0..20 {
        let mv = ai.choose_move(&board, &moves).unwrap();
        assert!(moves.contains(&mv));
    }
    assert_eq!(ai.choose_move(&board, &[]), None);
    // over many draws more than one move comes up
    let first = ai.choose_move(&board, &moves);
    assert!((0..200).any(|_| ai.choose_move(&board, &moves) != first));
}

#[test]
fn minimax_player_takes_what_hangs() {
    let board = small_fight();
    let moves = legal_moves(&board, P1);
    let mut ai = MinimaxAI::new(P1, "Minimax");
    assert_eq!(ai.depth, 3);
    assert_eq!(ai.name(), "Minimax");
    ai.depth = 2;
    let mv = ai.choose_move(&board, &moves).unwrap();
    assert!(moves.contains(&mv));
    assert!(matches!(mv, Move::Normal { to, .. } if to == Position::new(8, 4)));
    assert_eq!(ai.choose_move(&board, &[]), None);
    // at depth 0 the value is the material balance
    assert_eq!(ai.minimax(&board, 0, i32::MIN, i32::MAX, true, P1), 900 - 600);
    // at depth 1 the rook takes the gold
    assert_eq!(ai.minimax(&board, 1, i32::MIN, i32::MAX, true, P1), 900 + 660);
    // with a closed window the first move that is tried decides: the capture
    assert_eq!(ai.minimax(&board, 1, 5, 5, true, P1), 900 + 660);
    assert_eq!(ai.minimax(&board, 1, i32::MAX, i32::MIN, true, P1), 900 + 660);
    assert_eq!(ai.minimax(&board, 0, 7, 3, false, P2), 900 - 600);
}

#[test]
fn moves_are_ordered_by_killers_captures_and_promotions() {
    let mut board = Board::new(9, 9);
    board.place_piece(Position::new(4, 3), Piece::new(PieceKind::S_Silver, P1));
    board.place_piece(Position::new(3, 2), Piece::new(PieceKind::S_Pawn, P2));
    let quiet_a = normal(4, 3, 3, 4, None);
    let quiet_b = normal(4, 3, 5, 4, None);
    let promo = normal(4, 3, 4, 2, Some(PieceKind::S_ProSilver));
    let capture = normal(4, 3, 3, 2, None);
    let capture_promo = normal(4, 3, 3, 2, Some(PieceKind::S_ProSilver));
    let none = (None, None);
    assert_eq!(move_order_key(&board, &none, &quiet_a), 0);
    assert_eq!(move_order_key(&board, &none, &promo), -5000);
    assert_eq!(move_order_key(&board, &none, &capture), -10000);
    assert_eq!(move_order_key(&board, &none, &capture_promo), -15000);
    let killers = (Some(quiet_b), Some(promo));
    assert_eq!(move_order_key(&board, &killers, &quiet_b), -20000);
    assert_eq!(move_order_key(&board, &killers, &promo), -24000);

    let mut moves = vec![quiet_a, promo, quiet_b, capture, capture_promo];
    sort_moves(&board, &mut moves, &none);
    assert_eq!(moves, vec![capture_promo, capture, promo, quiet_a, quiet_b]);
    let mut moves = vec![quiet_a, promo, quiet_b, capture, capture_promo];
    sort_moves(&board, &mut moves, &killers);
    assert_eq!(moves, vec![promo, quiet_b, capture_promo, capture, quiet_a]);

    let ai = MinimaxAI::new(P1, "Minimax");
    let mut moves = vec![quiet_b, quiet_a, capture];
    ai.order_moves(&board, &mut moves);
    assert_eq!(moves, vec![capture, quiet_b, quiet_a]);
    let mut none_at_all: Vec<Move> = vec![];
    ai.order_moves(&board, &mut none_at_all);
    assert!(none_at_all.is_empty());
}

#[test]
fn squares_are_framed_by_what_matters_most() {
    let mut state = DisplayState::new();
    let here = Position::new(2, 3);
    let there = Position::new(5, 5);
    state.cursor = here;
    state.selected = Some(here);
    state.highlights = vec![there, here];
    state.last_move = Some(normal(5, 5, 2, 3, None));
    assert_eq!(state.frame(here), Frame::Cursor);
    assert_eq!(state.frame(there), Frame::Highlight);
    state.show_cursor = false;
    assert_eq!(state.frame(here), Frame::Selected);
    state.selected = None;
    assert_eq!(state.frame(here), Frame::Highlight);
    state.highlights.clear();
    assert_eq!(state.frame(here), Frame::LastMove);
    assert_eq!(state.frame(there), Frame::LastMove);
    assert_eq!(state.frame(Position::new(0, 0)), Frame::Plain);
    state.last_move = Some(Move::Drop {
        kind: PieceKind::S_Pawn,
        to: there,
    });
    assert_eq!(state.frame(here), Frame::Plain);
    assert_eq!(state.frame(there), Frame::LastMove);
    state.show_cursor = true;
    state.hand_mode = true;
    assert_eq!(state.frame(here), Frame::Plain);

    let state = DisplayState::default();
    assert_eq!(state.board_index(9, 0), 0);
    assert_eq!(state.board_index(9, 8), 8);
    let mut state = DisplayState::new();
    state.perspective = P2;
    assert_eq!(state.board_index(9, 0), 8);
    assert_eq!(state.board_index(9, 8), 0);
    assert_eq!(state.board_index(8, 3), 4);
}

#[test]
fn large_swings_of_the_score_are_found() {
    assert_eq!(critical_moments(&vec![]), Vec::<usize>::new());
    assert_eq!(critical_moments(&vec![5000]), Vec::<usize>::new());
    assert_eq!(
        critical_moments(&vec![0, 2000, 4001, 2000, -1, i32::MAX, i32::MIN]),
        vec![2, 3, 4, 5, 6]
    );
    assert_eq!(critical_moments(&vec![0, 2000, 0, -2000]), Vec::<usize>::new());
}

#[test]
fn texts_are_compared_letter_by_letter() {
    assert!(same_text("", ""));
    assert!(same_text("Fair", "Fair"));
    assert!(!same_text("Fair", "fair"));
    assert!(!same_text("Fair", "Fair "));
    assert!(same_text("歩兵", "歩兵"));
    assert!(!same_text("歩兵", "歩"));
}

struct FirstMove;

impl PlayerController for FirstMove {
    fn choose_move(&mut self, _board: &Board, legal_moves: &[Move]) -> Option<Move> {
        legal_moves.first().copied()
    }

    fn name(&self) -> &str {
        "First"
    }

    fn is_local(&self) -> bool {
        false
    }
}

#[test]
fn controllers_can_be_written_outside_the_library() {
    let board = small_fight();
    let moves = legal_moves(&board, P2);
    let mut players: Vec<Box<dyn PlayerController>> = vec![
        Box::new(FirstMove),
        Box::new(RandomAI::new(P2, "Random")),
        Box::new(MinimaxAI::new(P2, "Minimax")),
    ];
    for player in players.iter_mut() {
        let mv = player.choose_move(&board, &moves).unwrap();
        assert!(moves.contains(&mv));
    }
    assert_eq!(players[0].name(), "First");
    assert!(players.iter().all(|p| p.diagnostics().is_none()));
    assert!(!players[0].is_local());
    assert!(players[2].is_local());
}

#[test]
fn squares_and_moves_are_written_in_words() {
    assert_eq!(Position::new(0, 0).to_text(), "(0, 0)");
    assert_eq!(Position::new(3, 12).to_text(), "(3, 12)");
    assert_eq!(
        Position::new(usize::MAX, 1000).to_text(),
        format!("({}, 1000)", usize::MAX)
    );
    assert_eq!(normal(1, 1, 1, 0, None).to_text(), "(1, 1) -> (1, 0)");
    assert_eq!(
        normal(1, 1, 1, 0, Some(PieceKind::S_ProPawn)).to_text(),
        "(1, 1) -> (1, 0) (promote to S_ProPawn)"
    );
    assert_eq!(
        Move::Drop {
            kind: PieceKind::C_Queen,
            to: Position::new(8, 7)
        }
        .to_text(),
        "Drop C_Queen at (8, 7)"
    );
    let mut out = String::from("n=");
    hybrid_board::text::append_decimal(&mut out, 9070);
    assert_eq!(out, "n=9070");
    for kind in [PieceKind::S_King, PieceKind::S_ProLance, PieceKind::C_Knight] {
        assert_eq!(kind.name(), format!("{:?}", kind));
    }
    assert_eq!(PieceKind::S_Pawn.display_char(), '歩');
    assert_eq!(PieceKind::C_Queen.display_char(), 'Q');
    assert_eq!(Piece::new(PieceKind::S_ProPawn, P1).display_char(), 'と');
}
