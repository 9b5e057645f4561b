use shakmaty::fen::Fen;
use shakmaty::{Board, CastlingMode, Chess, Position};
use skakarlak::moves::{Color, PieceKind, PlacedPiece};
use skakarlak::phase::Phase;
use skakarlak::pst::position_score;
use std::str::FromStr;

fn parse_fen(fen_str: &str) -> Chess {
    Fen::from_str(fen_str)
        .unwrap()
        .into_position(CastlingMode::Standard)
        .unwrap()
}

fn conv_role(r: shakmaty::Role) -> PieceKind {
    match r {
        shakmaty::Role::Pawn => PieceKind::Pawn,
        shakmaty::Role::Knight => PieceKind::Knight,
        shakmaty::Role::Bishop => PieceKind::Bishop,
        shakmaty::Role::Rook => PieceKind::Rook,
        shakmaty::Role::Queen => PieceKind::Queen,
        shakmaty::Role::King => PieceKind::King,
    }
}

fn placed(sq: shakmaty::Square, piece: shakmaty::Piece) -> PlacedPiece {
    PlacedPiece {
        color: if piece.color == shakmaty::Color::White {
            Color::White
        } else {
            Color::Black
        },
        role: conv_role(piece.role),
        square: u32::from(sq) as u8,
    }
}

fn total_score_for_color(board: &Board, phase: &Phase, color: Color) -> i64 {
    let mut total: i64 = 0;
    for (square, piece) in board.clone() {
        let p = placed(square, piece);
        if p.color == color {
            total += position_score(p, phase) as i64;
        }
    }
    total
}

#[test]
fn test_same_score_for_black_and_white() {
    let fens = [
        "rnbqkbnr/pppppppp/8/8/8/8/PPPPPPPP/RNBQKBNR w KQkq - 0 1",
        "r1b1kb1r/pppp1ppp/5q2/4n3/3KP3/2N3PN/PPP4P/R1BQ1B1R b kq - 0 1",
        "4k3/8/8/3p4/3P4/8/8/4K3 w - - 0 1",
        "rnb1kbnr/pppppppp/8/8/8/8/PPPPPPPP/RNB1KBNR w KQkq - 0 1",
        "3q1r1k/2p4p/1p1pBrp1/p2Pp3/2PnP3/5PP1/PP1Q2K1/5R1R w - - 1 0",
        "8/2p3N1/6p1/5PB1/pp2Rn2/7k/P1p2K1P/3r4 w - - 1 0",
        "k7/1p1rr1pp/pR1p1p2/Q1pq4/P7/8/2P3PP/1R4K1 w - - 1 0",
        "6k1/ppp2ppp/8/2n2K1P/2P2P1P/2Bpr3/PP4r1/4RR2 b - - 0 1",
    ];

    for line in fens {
        let pos = parse_fen(line);
        let phase = Phase::new(&pos);

        let board = pos.board().clone();
        let board_rotated = {
            let mut new = board.clone();
            new.rotate_180();
            new.swap_colors();
            new
        };

        assert_eq!(
            total_score_for_color(&board, &phase, Color::White),
            total_score_for_color(&board_rotated, &phase, Color::Black),
            "Failed on {}",
            line
        );
    }
}

#[test]
fn position_score_exact_values() {
    // a white knight in its corner reads -60 from both tables, at
    // any phase
    let knight = PlacedPiece { color: Color::White, role: PieceKind::Knight, square: 0 };
    let opening = Phase::from_sum(24);
    let endgame = Phase::from_sum(0);
    assert_eq!(position_score(knight, &opening), -60);
    assert_eq!(position_score(knight, &endgame), -50);

    // a black piece reads the board upside down: the same knight on
    // h8 for black scores the same
    let black_knight = PlacedPiece { color: Color::Black, role: PieceKind::Knight, square: 63 };
    assert_eq!(position_score(black_knight, &opening), -60);
    assert_eq!(position_score(black_knight, &endgame), -50);
}

#[test]
fn position_score_blends_by_phase() {
    // a white pawn on a7: 5 in the middle-game table, 90 in the
    // endgame table; at material sum 12 the opening weight is
    // 362/1024, so the blend rounds (5*362 + 90*662)/1024 = 59.95
    let pawn = PlacedPiece { color: Color::White, role: PieceKind::Pawn, square: 48 };
    let mid = Phase::from_sum(12);
    assert_eq!(position_score(pawn, &mid), 60);
}
