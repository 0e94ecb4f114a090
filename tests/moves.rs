use fen_moves::board::{ChessMove, PieceKind, Side, Sq};
use fen_moves::engine::{legal_move_records, position_error_from, FenError, Position};
use fen_moves::record::{MoveKind, OutputRecord};

fn moves_of(fen: &str) -> Vec<ChessMove> {
    Position::from_fen(fen).expect("valid position").legal_moves()
}

fn sq(name: &str) -> Sq {
    let b = name.as_bytes();
    Sq { index: (b[1] - b'1') * 8 + (b[0] - b'a') }
}

fn has_castle(moves: &[ChessMove], king: &str, rook: &str) -> bool {
    moves.iter().any(|m| *m == ChessMove::Castle { king: sq(king), rook: sq(rook) })
}

fn record(kind: MoveKind, role: &str, from: &str, capture: Option<&str>, to: &str, promotion: Option<&str>) -> (MoveKind, String, String, Option<String>, String, Option<String>) {
    (
        kind,
        role.to_string(),
        from.to_string(),
        capture.map(|c| c.to_string()),
        to.to_string(),
        promotion.map(|p| p.to_string()),
    )
}

fn flat(r: &OutputRecord) -> (MoveKind, String, String, Option<String>, String, Option<String>) {
    (r.kind, r.role.clone(), r.from.clone(), r.capture.clone(), r.to.clone(), r.promotion.clone())
}

#[test]
fn test_standard() {
    let r = legal_move_records("rnbqkbnr/pppppppp/8/8/8/8/PPPPPPPP/RNBQKBNR w KQkq - 0 1");
    assert!(r.is_ok());
}

#[test]
fn test_invalid_fen() {
    assert!(legal_move_records("invalid").is_err());
}

#[test]
fn test_correct_castle() {
    let records = legal_move_records("r3k2r/8/8/8/3q4/p4p1p/P4P1P/4K2R w Kkq - 0 1").unwrap();
    let got: Vec<_> = records.iter().map(flat).collect();
    let expected = vec![
        record(MoveKind::Normal, "King", "E1", None, "F1", None),
        record(MoveKind::Castle, "King", "E1", None, "G1", None),
        record(MoveKind::Normal, "Rook", "H1", None, "F1", None),
        record(MoveKind::Normal, "Rook", "H1", None, "G1", None),
    ];
    assert_eq!(got, expected);
}

#[test]
fn start_position_has_twenty_moves() {
    let moves = moves_of("rnbqkbnr/pppppppp/8/8/8/8/PPPPPPPP/RNBQKBNR w KQkq - 0 1");
    assert_eq!(moves.len(), 20);
}

#[test]
fn start_position_order_is_canonical() {
    let records = legal_move_records("rnbqkbnr/pppppppp/8/8/8/8/PPPPPPPP/RNBQKBNR w KQkq - 0 1").unwrap();
    let firsts: Vec<(String, String)> = records.iter().take(4).map(|r| (r.from.clone(), r.to.clone())).collect();
    assert_eq!(
        firsts,
        vec![
            ("B1".to_string(), "A3".to_string()),
            ("B1".to_string(), "C3".to_string()),
            ("G1".to_string(), "F3".to_string()),
            ("G1".to_string(), "H3".to_string()),
        ]
    );
    assert_eq!(records[4].from, "A2");
    assert_eq!(records[4].to, "A3");
    assert_eq!(records[5].to, "A4");
}

#[test]
fn same_position_twice_gives_same_order() {
    let fen = "r3k2r/p1ppqpb1/bn2pnp1/3PN3/1p2P3/2N2Q1p/PPPBBPPP/R3K2R w KQkq - 0 1";
    let a = moves_of(fen);
    let b = moves_of(fen);
    assert_eq!(a, b);
    assert_eq!(a.len(), 48);
}

#[test]
fn promotion_expands_to_four_pieces() {
    let moves = moves_of("4k3/P7/8/8/8/8/8/4K3 w - - 0 1");
    let promos: Vec<Option<PieceKind>> = moves
        .iter()
        .filter_map(|m| match m {
            ChessMove::Normal { from, to, promotion, .. } if *from == sq("a7") && *to == sq("a8") => Some(*promotion),
            _ => None,
        })
        .collect();
    assert_eq!(promos.len(), 4);
    for k in [PieceKind::Queen, PieceKind::Rook, PieceKind::Bishop, PieceKind::Knight] {
        assert!(promos.contains(&Some(k)));
    }
}

#[test]
fn pinned_piece_cannot_move_off_the_line() {
    let moves = moves_of("4r2k/8/8/8/8/8/4B3/4K3 w - - 0 1");
    assert!(moves.iter().all(|m| match m {
        ChessMove::Normal { from, .. } => *from != sq("e2"),
        _ => true,
    }));
    let rook_pinned = moves_of("4r2k/8/8/8/8/8/4R3/4K3 w - - 0 1");
    let from_e2: Vec<&ChessMove> = rook_pinned
        .iter()
        .filter(|m| matches!(m, ChessMove::Normal { from, .. } if *from == sq("e2")))
        .collect();
    assert_eq!(from_e2.len(), 6);
}

#[test]
fn castling_needs_the_right() {
    let both = moves_of("r3k2r/8/8/8/8/8/8/R3K2R w KQkq - 0 1");
    assert!(has_castle(&both, "e1", "h1"));
    assert!(has_castle(&both, "e1", "a1"));
    let queen_only = moves_of("r3k2r/8/8/8/8/8/8/R3K2R w Qkq - 0 1");
    assert!(!has_castle(&queen_only, "e1", "h1"));
    assert!(has_castle(&queen_only, "e1", "a1"));
}

#[test]
fn castling_needs_an_empty_path() {
    let moves = moves_of("r3k2r/8/8/8/8/8/8/R3KB1R w KQkq - 0 1");
    assert!(!has_castle(&moves, "e1", "h1"));
    assert!(has_castle(&moves, "e1", "a1"));
}

#[test]
fn castling_out_of_check_is_refused() {
    let moves = moves_of("r3k3/8/8/4r3/8/8/8/R3K2R w KQ - 0 1");
    assert!(!has_castle(&moves, "e1", "h1"));
    assert!(!has_castle(&moves, "e1", "a1"));
}

#[test]
fn castling_through_an_attacked_square_is_refused() {
    let moves = moves_of("4k3/8/8/5r2/8/8/8/R3K2R w KQ - 0 1");
    assert!(!has_castle(&moves, "e1", "h1"));
    assert!(has_castle(&moves, "e1", "a1"));
}

#[test]
fn nine_squares_in_a_rank_is_invalid_placement() {
    let r = Position::from_fen("rnbqkbnr/ppppppppp/8/8/8/8/PPPPPPPP/RNBQKBNR w KQkq - 0 1");
    assert_eq!(r.err(), Some(FenError::InvalidPlacement));
}

#[test]
fn opponent_in_check_is_illegal() {
    let r = Position::from_fen("4k3/8/8/8/8/8/4R3/4K3 w - - 0 1");
    assert_eq!(r.err(), Some(FenError::IllegalPosition));
}

#[test]
fn invalid_word_is_a_structural_error() {
    let e = Position::from_fen("invalid").err();
    assert!(matches!(e, Some(FenError::InvalidPlacement) | Some(FenError::FieldCountMismatch)));
}

#[test]
fn empty_input_is_field_count_mismatch() {
    assert_eq!(legal_move_records("").err(), Some(FenError::FieldCountMismatch));
}

#[test]
fn bad_color_castling_ep_and_counters() {
    let base = "rnbqkbnr/pppppppp/8/8/8/8/PPPPPPPP/RNBQKBNR";
    assert_eq!(Position::from_fen(&format!("{base} x KQkq - 0 1")).err(), Some(FenError::InvalidColor));
    assert_eq!(Position::from_fen(&format!("{base} w KQxq - 0 1")).err(), Some(FenError::InvalidCastling));
    assert_eq!(Position::from_fen(&format!("{base} w KQkq z9 0 1")).err(), Some(FenError::InvalidEnPassant));
    assert_eq!(Position::from_fen(&format!("{base} w KQkq - x 1")).err(), Some(FenError::InvalidCounter));
    assert_eq!(Position::from_fen(&format!("{base} w KQkq - 0 x")).err(), Some(FenError::InvalidCounter));
}

#[test]
fn missing_counters_default() {
    let moves = moves_of("rnbqkbnr/pppppppp/8/8/8/8/PPPPPPPP/RNBQKBNR w KQkq -");
    assert_eq!(moves.len(), 20);
}

#[test]
fn en_passant_from_the_adjacent_pawn() {
    let moves = moves_of("4k3/8/8/2PpP3/8/8/8/4K3 w - d6 0 1");
    let eps: Vec<&ChessMove> = moves.iter().filter(|m| matches!(m, ChessMove::EnPassant { .. })).collect();
    assert_eq!(eps.len(), 2);
    assert!(eps.contains(&&ChessMove::EnPassant { from: sq("c5"), to: sq("d6") }));
    assert!(eps.contains(&&ChessMove::EnPassant { from: sq("e5"), to: sq("d6") }));
}

#[test]
fn en_passant_with_discovered_check_is_refused() {
    let moves = moves_of("4k3/8/8/K2pP2r/8/8/8/8 w - d6 0 1");
    assert!(!moves.iter().any(|m| matches!(m, ChessMove::EnPassant { .. })));
}

#[test]
fn attack_queries_on_the_board() {
    let pos = Position::from_fen("4k3/8/8/8/3q4/8/8/4K3 w - - 0 1").unwrap();
    assert!(pos.is_attacked(sq("d1"), Side::Black));
    assert!(pos.is_attacked(sq("a7"), Side::Black));
    assert!(pos.is_attacked(sq("e3"), Side::Black));
    assert!(!pos.is_attacked(sq("e2"), Side::Black));
    assert!(pos.is_attacked(sq("d2"), Side::White));
    assert_eq!(pos.piece_at(sq("e1")).map(|p| p.role), Some(PieceKind::King));
    assert_eq!(pos.piece_at(sq("e2")), None);
}

#[test]
fn no_moves_when_mated() {
    let moves = moves_of("rnb1kbnr/pppp1ppp/8/4p3/6Pq/5P2/PPPPP2P/RNBQKBNR w KQkq - 1 3");
    assert!(moves.is_empty());
}

#[test]
fn en_passant_square_on_wrong_rank_is_refused() {
    let r = Position::from_fen("rnbqkbnr/pppppppp/8/8/8/8/PPPPPPPP/RNBQKBNR w KQkq e4 0 1");
    assert_eq!(r.err(), Some(FenError::InvalidEnPassant));
}

#[test]
fn castling_right_without_rook_is_refused() {
    let r = Position::from_fen("4k3/8/8/8/8/8/8/4K3 w K - 0 1");
    assert_eq!(r.err(), Some(FenError::InvalidCastling));
}

#[test]
fn two_white_kings_is_illegal() {
    let r = Position::from_fen("4k3/8/8/8/8/8/8/3KK3 w - - 0 1");
    assert_eq!(r.err(), Some(FenError::IllegalPosition));
}

#[test]
fn pawn_on_back_rank_is_illegal() {
    let r = Position::from_fen("4k2P/8/8/8/8/8/8/4K3 w - - 0 1");
    assert_eq!(r.err(), Some(FenError::IllegalPosition));
}

#[test]
fn reason_bits_map_to_errors() {
    assert_eq!(position_error_from(32), FenError::InvalidEnPassant);
    assert_eq!(position_error_from(16), FenError::InvalidCastling);
    assert_eq!(position_error_from(48), FenError::InvalidEnPassant);
    assert_eq!(position_error_from(64), FenError::IllegalPosition);
    assert_eq!(position_error_from(64 | 32), FenError::IllegalPosition);
    assert_eq!(position_error_from(0), FenError::IllegalPosition);
}

#[test]
fn position_queries() {
    let pos = Position::from_fen("r3k2r/8/8/3pP3/8/8/8/R3K2R w Kq d6 0 1").unwrap();
    assert_eq!(pos.turn(), Side::White);
    assert_eq!(pos.king_square(Side::White), Some(sq("e1")));
    assert_eq!(pos.king_square(Side::Black), Some(sq("e8")));
    assert_eq!(pos.en_passant_target(), Some(sq("d6")));
    let c = pos.castling_rights();
    assert!(c.white_king_side && !c.white_queen_side && !c.black_king_side && c.black_queen_side);
    let st = pos.state();
    assert_eq!(st.squares.len(), 64);
    assert!(st.castling.has(Side::Black, false));
}

#[test]
fn promotions_come_queen_rook_bishop_knight() {
    let records = legal_move_records("4k3/P7/8/8/8/8/8/4K3 w - - 0 1").unwrap();
    let promos: Vec<String> = records
        .iter()
        .filter(|r| r.from == "A7")
        .map(|r| r.promotion.clone().unwrap())
        .collect();
    assert_eq!(promos, vec!["Queen", "Rook", "Bishop", "Knight"]);
}

#[test]
fn pawn_on_seventh_promotes_four_ways_only() {
    let records = legal_move_records("8/4P3/8/8/8/8/k7/4K3 w - - 0 1").unwrap();
    let e7: Vec<&OutputRecord> = records.iter().filter(|r| r.from == "E7" && r.to == "E8").collect();
    assert_eq!(e7.len(), 4);
    for r in &e7 {
        assert_eq!(r.kind, MoveKind::Normal);
        assert_eq!(r.role, "Pawn");
        assert_eq!(r.capture, None);
    }
    let promos: Vec<&str> = e7.iter().map(|r| r.promotion.as_deref().unwrap()).collect();
    assert_eq!(promos, vec!["Queen", "Rook", "Bishop", "Knight"]);
    assert!(!records.iter().any(|r| r.role == "Pawn" && r.to.ends_with('8') && r.promotion.is_none()));
}

#[test]
fn lone_rook_castle_and_its_suppressions() {
    let castles = |fen: &str| {
        legal_move_records(fen)
            .unwrap()
            .iter()
            .filter(|r| r.kind == MoveKind::Castle && r.from == "E1" && r.to == "G1")
            .count()
    };
    assert_eq!(castles("4k3/8/8/8/8/8/8/4K2R w K - 0 1"), 1);
    assert_eq!(castles("4k3/8/8/8/8/8/8/4K2R w - - 0 1"), 0);
    assert_eq!(castles("4k3/8/8/8/8/8/8/4KN1R w K - 0 1"), 0);
    assert_eq!(castles("4k3/8/8/8/8/8/4r3/4K2R w K - 0 1"), 0);
}

#[test]
fn en_passant_scenarios() {
    let eps = |fen: &str| -> Vec<(String, String)> {
        legal_move_records(fen)
            .unwrap()
            .iter()
            .filter(|r| r.kind == MoveKind::EnPassant)
            .map(|r| (r.from.clone(), r.to.clone()))
            .collect()
    };
    assert!(eps("8/8/8/K2pP2r/8/8/8/7k w - d6 0 2").is_empty());
    assert_eq!(
        eps("rnbqkbnr/ppp1p1pp/8/3pPp2/8/8/PPPP1PPP/RNBQKBNR w KQkq f6 0 3"),
        vec![("E5".to_string(), "F6".to_string())]
    );
}
