use hybrid_board::ml::features::BoardFeatureExtractor;
use hybrid_board::ml::model_registry::{ModelMetadata, ModelRegistry, ModelType};
use hybrid_board::model::{Board, Piece, PieceKind, PlayerId, Position};
use std::path::PathBuf;

#[test]
fn test_feature_size() {
    let expected = 9 * 9 * 41 + 22 + 1;
    assert_eq!(BoardFeatureExtractor::feature_size(), expected);
}

#[test]
fn test_registry() {
    let mut registry = ModelRegistry::new();

    let metadata = ModelMetadata {
        name: "test_model".to_string(),
        model_type: ModelType::ONNX,
        path: PathBuf::from("models/test.onnx"),
        version: Some("1.0".to_string()),
        created_at: None,
    };

    registry.register(metadata.clone());

    assert_eq!(
        registry.get("test_model").map(|m| &m.name),
        Some(&"test_model".to_string())
    );
    assert_eq!(registry.list().len(), 1);
}

#[test]
fn registering_a_name_again_replaces_the_model() {
    let mut registry = ModelRegistry::default();
    let model = |name: &str, version: &str| ModelMetadata {
        name: name.to_string(),
        model_type: ModelType::ONNX,
        path: PathBuf::from(format!("models/{}.onnx", name)),
        version: Some(version.to_string()),
        created_at: None,
    };
    assert!(registry.get("a").is_none());
    registry.register(model("a", "1"));
    registry.register(model("b", "1"));
    registry.register(model("a", "2"));
    let names: Vec<&str> = registry.list().iter().map(|m| m.name.as_str()).collect();
    assert_eq!(names, vec!["a", "b"]);
    assert_eq!(registry.get("a").unwrap().version, Some("2".to_string()));
    assert_eq!(
        registry.get("b").unwrap().path,
        PathBuf::from("models/b.onnx")
    );
    assert!(registry.get("c").is_none());
    assert!(registry.get("").is_none());
}

#[test]
fn pieces_of_the_other_side_come_twenty_entries_later() {
    let p1 = PlayerId::Player1;
    let p2 = PlayerId::Player2;
    assert_eq!(
        BoardFeatureExtractor::piece_to_index(PieceKind::S_Pawn, p1, p1),
        1
    );
    assert_eq!(
        BoardFeatureExtractor::piece_to_index(PieceKind::S_Pawn, p2, p1),
        21
    );
    assert_eq!(
        BoardFeatureExtractor::piece_to_index(PieceKind::S_King, p2, p2),
        8
    );
    assert_eq!(
        BoardFeatureExtractor::piece_to_index(PieceKind::C_King, p1, p2),
        40
    );
    assert_eq!(
        BoardFeatureExtractor::piece_to_index(PieceKind::C_Pawn, p1, p1),
        15
    );
}

#[test]
fn squares_and_hands_are_described() {
    let mut board = Board::new(9, 9);
    board.place_piece(
        Position::new(3, 3),
        Piece::new(PieceKind::S_Gold, PlayerId::Player2),
    );
    assert_eq!(
        BoardFeatureExtractor::encode_square(&board, Position::new(0, 0), PlayerId::Player1),
        0
    );
    assert_eq!(
        BoardFeatureExtractor::encode_square(&board, Position::new(3, 3), PlayerId::Player1),
        25
    );
    assert_eq!(
        BoardFeatureExtractor::encode_square(&board, Position::new(3, 3), PlayerId::Player2),
        5
    );
    for _ in 0..20 {
        board.add_to_hand(PlayerId::Player1, PieceKind::S_Pawn);
    }
    board.add_to_hand(PlayerId::Player1, PieceKind::C_Rook);
    board.add_to_hand(PlayerId::Player1, PieceKind::S_King);
    assert_eq!(
        BoardFeatureExtractor::encode_hand(&board, PlayerId::Player1),
        vec![18, 0, 0, 0, 0, 0, 0, 0, 0, 0, 1]
    );
    assert_eq!(
        BoardFeatureExtractor::encode_hand(&board, PlayerId::Player2),
        vec![0; 11]
    );
}
