use skakarlak::moves::{EngineMove, PieceKind};
use skakarlak::order::{order, promise};

#[test]
fn test_captures_first() {
    let mut moves: Vec<EngineMove> = Vec::new();

    moves.push(EngineMove::Normal {
        role: PieceKind::Bishop,
        from: 32,
        capture: None,
        to: 41,
        promotion: None,
    });

    moves.push(EngineMove::Normal {
        role: PieceKind::Bishop,
        from: 32,
        capture: Some(PieceKind::Knight),
        to: 41,
        promotion: None,
    });

    let moves = order(moves, 0);

    assert!(matches!(
        moves[0],
        EngineMove::Normal { capture: Some(PieceKind::Knight), .. }
    ));
    assert!(matches!(moves[1], EngineMove::Normal { capture: None, .. }));
}

#[test]
fn preserve_first_move() {
    let mut moves: Vec<EngineMove> = Vec::new();

    moves.push(EngineMove::Normal {
        role: PieceKind::Bishop,
        from: 32,
        capture: None,
        to: 41,
        promotion: None,
    });

    moves.push(EngineMove::Normal {
        role: PieceKind::Bishop,
        from: 32,
        capture: None,
        to: 41,
        promotion: None,
    });

    moves.push(EngineMove::Normal {
        role: PieceKind::Bishop,
        from: 32,
        capture: Some(PieceKind::Knight),
        to: 41,
        promotion: None,
    });

    let moves = order(moves, 1);

    assert!(matches!(moves[0], EngineMove::Normal { capture: None, .. }));
    assert!(matches!(
        moves[1],
        EngineMove::Normal { capture: Some(PieceKind::Knight), .. }
    ));
    assert!(matches!(moves[2], EngineMove::Normal { capture: None, .. }));
}

#[test]
fn promise_buckets() {
    let cap_promote = EngineMove::Normal {
        role: PieceKind::Pawn,
        from: 48,
        capture: Some(PieceKind::Rook),
        to: 57,
        promotion: Some(PieceKind::Queen),
    };
    let promote = EngineMove::Normal {
        role: PieceKind::Pawn,
        from: 48,
        capture: None,
        to: 56,
        promotion: Some(PieceKind::Queen),
    };
    let en_passant = EngineMove::EnPassant { from: 28, to: 21 };
    let capture = EngineMove::Normal {
        role: PieceKind::Pawn,
        from: 28,
        capture: Some(PieceKind::Queen),
        to: 35,
        promotion: None,
    };
    let castle = EngineMove::Castle { king: 4, rook: 7 };
    let quiet = EngineMove::Normal {
        role: PieceKind::Knight,
        from: 1,
        capture: None,
        to: 18,
        promotion: None,
    };
    let put = EngineMove::Put { role: PieceKind::Knight, to: 18 };

    assert_eq!(promise(&cap_promote), 10000);
    assert_eq!(promise(&promote), 9000);
    assert_eq!(promise(&en_passant), 8000);
    // pawn takes queen: 7000 + 900 - 100
    assert_eq!(promise(&capture), 7800);
    assert_eq!(promise(&castle), 6000);
    assert_eq!(promise(&quiet), 5000);
    assert_eq!(promise(&put), 0);
}

#[test]
fn order_keeps_the_same_moves() {
    // three moves, pinned prefix of one: the tail is sorted by
    // falling promise and nothing is lost or invented
    let quiet = EngineMove::Normal {
        role: PieceKind::Knight,
        from: 1,
        capture: None,
        to: 18,
        promotion: None,
    };
    let capture = EngineMove::Normal {
        role: PieceKind::Knight,
        from: 1,
        capture: Some(PieceKind::Rook),
        to: 18,
        promotion: None,
    };
    let castle = EngineMove::Castle { king: 4, rook: 7 };
    let moves = vec![quiet, castle, capture];

    let sorted = order(moves.clone(), 1);

    assert_eq!(sorted.len(), 3);
    assert_eq!(sorted[0], quiet);
    assert_eq!(sorted[1], capture);
    assert_eq!(sorted[2], castle);
    for m in &moves {
        assert!(sorted.contains(m));
    }
}
