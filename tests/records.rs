use fen_moves::board::{ChessMove, PieceKind, Sq};
use fen_moves::record::{castle_target, kind_name, role_name, square_name, MoveKind, OutputRecord};

#[test]
fn square_names() {
    assert_eq!(square_name(Sq { index: 0 }), "A1");
    assert_eq!(square_name(Sq { index: 4 }), "E1");
    assert_eq!(square_name(Sq { index: 63 }), "H8");
    assert_eq!(square_name(Sq { index: 20 }), "E3");
}

#[test]
fn role_and_kind_names() {
    assert_eq!(role_name(PieceKind::King), "King");
    assert_eq!(role_name(PieceKind::Knight), "Knight");
    assert_eq!(kind_name(MoveKind::EnPassant), "EnPassant");
    assert_eq!(kind_name(MoveKind::Put), "Put");
}

#[test]
fn castle_targets() {
    assert_eq!(castle_target(Sq { index: 4 }, Sq { index: 7 }), Sq { index: 6 });
    assert_eq!(castle_target(Sq { index: 4 }, Sq { index: 0 }), Sq { index: 2 });
    assert_eq!(castle_target(Sq { index: 60 }, Sq { index: 63 }), Sq { index: 62 });
    assert_eq!(castle_target(Sq { index: 60 }, Sq { index: 56 }), Sq { index: 58 });
}

#[test]
fn serialize_each_kind() {
    let n = OutputRecord::from_move(&ChessMove::Normal {
        role: PieceKind::Pawn,
        from: Sq { index: 48 },
        capture: Some(PieceKind::Rook),
        to: Sq { index: 57 },
        promotion: Some(PieceKind::Queen),
    });
    assert_eq!(n.kind, MoveKind::Normal);
    assert_eq!(n.role, "Pawn");
    assert_eq!(n.from, "A7");
    assert_eq!(n.capture.as_deref(), Some("Rook"));
    assert_eq!(n.to, "B8");
    assert_eq!(n.promotion.as_deref(), Some("Queen"));

    let e = OutputRecord::from_move(&ChessMove::EnPassant { from: Sq { index: 36 }, to: Sq { index: 43 } });
    assert_eq!((e.role.as_str(), e.from.as_str(), e.to.as_str()), ("Pawn", "E5", "D6"));
    assert_eq!(e.capture.as_deref(), Some("Pawn"));
    assert_eq!(e.promotion, None);

    let c = OutputRecord::from_move(&ChessMove::Castle { king: Sq { index: 60 }, rook: Sq { index: 56 } });
    assert_eq!((c.kind, c.role.as_str(), c.from.as_str(), c.to.as_str()), (MoveKind::Castle, "King", "E8", "C8"));
    assert_eq!(c.capture, None);

    let p = OutputRecord::from_move(&ChessMove::Put { role: PieceKind::Knight, to: Sq { index: 27 } });
    assert_eq!((p.kind, p.role.as_str(), p.from.as_str(), p.to.as_str()), (MoveKind::Put, "Knight", "Hand", "D4"));
}
