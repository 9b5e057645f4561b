use shakmaty::fen::Fen;
use shakmaty::zobrist::{Zobrist64, ZobristHash};
use shakmaty::{CastlingMode, Chess, EnPassantMode, Position};
use skakarlak::moves::{EngineMove, PieceKind};
use skakarlak::pack::{get_bound, get_depth, get_move, get_score, matches_zobrist, pack};
use skakarlak::transposition::Bound;
use std::str::FromStr;

fn conv_role(r: shakmaty::Role) -> PieceKind {
    match r {
        shakmaty::Role::Pawn => PieceKind::Pawn,
        shakmaty::Role::Knight => PieceKind::Knight,
        shakmaty::Role::Bishop => PieceKind::Bishop,
        shakmaty::Role::Rook => PieceKind::Rook,
        shakmaty::Role::Queen => PieceKind::Queen,
        shakmaty::Role::King => PieceKind::King,
    }
}

fn from_shakmaty_move(m: &shakmaty::Move) -> EngineMove {
    match *m {
        shakmaty::Move::Normal { role, from, capture, to, promotion } => EngineMove::Normal {
            role: conv_role(role),
            from: u32::from(from) as u8,
            capture: capture.map(conv_role),
            to: u32::from(to) as u8,
            promotion: promotion.map(conv_role),
        },
        shakmaty::Move::EnPassant { from, to } => EngineMove::EnPassant {
            from: u32::from(from) as u8,
            to: u32::from(to) as u8,
        },
        shakmaty::Move::Castle { king, rook } => EngineMove::Castle {
            king: u32::from(king) as u8,
            rook: u32::from(rook) as u8,
        },
        shakmaty::Move::Put { role, to } => EngineMove::Put {
            role: conv_role(role),
            to: u32::from(to) as u8,
        },
    }
}

fn parse_fen(fen_str: &str) -> Chess {
    Fen::from_str(fen_str)
        .unwrap()
        .into_position(CastlingMode::Standard)
        .unwrap()
}

#[test]
fn test_simple() {
    let fens = [
        "rnbqkbnr/pppppppp/8/8/8/8/PPPPPPPP/RNBQKBNR w KQkq - 0 1",
        "r1b1kb1r/pppp1ppp/5q2/4n3/3KP3/2N3PN/PPP4P/R1BQ1B1R b kq - 0 1",
        "4k3/8/8/3p4/3P4/8/8/4K3 w - - 0 1",
        "rnb1kbnr/pppppppp/8/8/8/8/PPPPPPPP/RNB1KBNR w KQkq - 0 1",
        "3q1r1k/2p4p/1p1pBrp1/p2Pp3/2PnP3/5PP1/PP1Q2K1/5R1R w - - 1 0",
        "8/2p3N1/6p1/5PB1/pp2Rn2/7k/P1p2K1P/3r4 w - - 1 0",
        "k7/1p1rr1pp/pR1p1p2/Q1pq4/P7/8/2P3PP/1R4K1 w - - 1 0",
        "6k1/ppp2ppp/8/2n2K1P/2P2P1P/2Bpr3/PP4r1/4RR2 b - - 0 1",
    ];

    for line in fens {
        let pos = parse_fen(line);
        let zobrist_hash: Zobrist64 = pos.zobrist_hash(EnPassantMode::Legal);
        println!("zobrist_hash: {:016x}", zobrist_hash.0);
        let depth = rand::random::<u8>();
        let score = rand::random::<i32>();
        let bound = match rand::random::<u8>() % 3 {
            0 => Bound::Exact,
            1 => Bound::Upper,
            2 => Bound::Lower,
            _ => unreachable!(),
        };
        let mv = from_shakmaty_move(&pos.legal_moves()[0]);

        let packed_rep = pack(zobrist_hash.0, &mv, score, depth, bound);

        assert!(matches_zobrist(packed_rep, zobrist_hash.0));
        assert_eq!(get_depth(packed_rep), depth);
        assert_eq!(get_score(packed_rep), score);
        assert_eq!(get_bound(packed_rep), bound);
        assert_eq!(get_move(packed_rep), mv);
    }
}

#[test]
fn pack_round_trips_every_move_shape() {
    let key: u64 = 0xDEAD_BEEF_1234_5678;
    let cases = [
        EngineMove::Normal {
            role: PieceKind::Pawn,
            from: 52,
            capture: Some(PieceKind::Rook),
            to: 61,
            promotion: Some(PieceKind::Queen),
        },
        EngineMove::Normal {
            role: PieceKind::Knight,
            from: 1,
            capture: None,
            to: 18,
            promotion: None,
        },
        EngineMove::EnPassant { from: 28, to: 21 },
        EngineMove::Castle { king: 4, rook: 7 },
        EngineMove::Put { role: PieceKind::Bishop, to: 33 },
    ];
    for (i, mv) in cases.iter().enumerate() {
        let score = -1000 + (i as i32) * 517;
        let depth = 3 + i as u8;
        let bound = match i % 3 {
            0 => Bound::Exact,
            1 => Bound::Lower,
            _ => Bound::Upper,
        };
        let packed = pack(key, mv, score, depth, bound);
        assert_ne!(packed, 0);
        assert!(matches_zobrist(packed, key));
        assert_eq!(get_depth(packed), depth);
        assert_eq!(get_score(packed), score);
        assert_eq!(get_bound(packed), bound);
        assert_eq!(get_move(packed), *mv);
    }
}

#[test]
fn distinct_fragments_do_not_match() {
    let mv = EngineMove::Castle { king: 4, rook: 7 };
    let k1: u64 = 0x1111_0000_0000_0000;
    let k2: u64 = 0x1111_2222_0000_0000;
    let packed = pack(k1, &mv, 42, 9, Bound::Exact);
    assert!(matches_zobrist(packed, k1));
    assert!(!matches_zobrist(packed, k2));
    // the low 16 bits of the key are not part of the fragment
    assert!(matches_zobrist(packed, k1 | 0xFFFF));
}
