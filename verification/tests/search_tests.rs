use shakmaty::fen::Fen;
use shakmaty::zobrist::{Zobrist64, ZobristHash};
use shakmaty::{CastlingMode, Chess, EnPassantMode};
use shakmaty::Position;
use skakarlak::SearchControl;
use skakarlak::SearchInfo;
use skakarlak::eval::SCORE_MIN;
use skakarlak::moves::{EngineMove, PieceKind};
use skakarlak::quiescence::{QUIESCENCE_FUEL, quiescence};
use skakarlak::search::{Searcher, negamax};
use skakarlak::transposition::FastTranspositionTable;
use std::str::FromStr;

fn parse_fen(fen_str: &str) -> Chess {
    Fen::from_str(fen_str)
        .unwrap()
        .into_position(CastlingMode::Standard)
        .unwrap()
}

fn conv_role(r: PieceKind) -> shakmaty::Role {
    match r {
        PieceKind::Pawn => shakmaty::Role::Pawn,
        PieceKind::Knight => shakmaty::Role::Knight,
        PieceKind::Bishop => shakmaty::Role::Bishop,
        PieceKind::Rook => shakmaty::Role::Rook,
        PieceKind::Queen => shakmaty::Role::Queen,
        PieceKind::King => shakmaty::Role::King,
    }
}

fn sq(n: u8) -> shakmaty::Square {
    shakmaty::Square::new(n as u32)
}

fn to_shakmaty_move(m: &EngineMove) -> shakmaty::Move {
    match *m {
        EngineMove::Normal { role, from, capture, to, promotion } => shakmaty::Move::Normal {
            role: conv_role(role),
            from: sq(from),
            capture: capture.map(conv_role),
            to: sq(to),
            promotion: promotion.map(conv_role),
        },
        EngineMove::EnPassant { from, to } => shakmaty::Move::EnPassant { from: sq(from), to: sq(to) },
        EngineMove::Castle { king, rook } => shakmaty::Move::Castle { king: sq(king), rook: sq(rook) },
        EngineMove::Put { role, to } => shakmaty::Move::Put { role: conv_role(role), to: sq(to) },
    }
}

fn is_legal(pos: &Chess, m: &EngineMove) -> bool {
    pos.legal_moves().contains(&to_shakmaty_move(m))
}

#[test]
fn fixed_depth_search_reports_each_iteration() {
    // ToDepth(4) from the initial position: four Info records,
    // depths 1..4, then one best move
    let pos = parse_fen("rnbqkbnr/pppppppp/8/8/8/8/PPPPPPPP/RNBQKBNR w KQkq - 0 1");
    let mut searcher = Searcher::new(10);
    let mut session = searcher.begin(pos.clone(), &SearchControl::ToDepth(4));
    let mut infos = Vec::new();
    while !session.finished() {
        infos.push(searcher.iterate(&mut session));
    }
    assert_eq!(infos.len(), 4);
    for (i, info) in infos.iter().enumerate() {
        match info {
            SearchInfo::Info { depth, pv, .. } => {
                assert_eq!(*depth as usize, i + 1);
                assert!(pv.len() <= *depth as usize);
                assert!(!pv.is_empty());
            },
            _ => panic!("iterations report Info records"),
        }
    }
    // the chosen move is one of the legal moves of the position
    assert!(is_legal(&pos, &session.best.move_));
}

#[test]
fn stopping_after_one_iteration_still_has_a_best_move() {
    // a deep request abandoned after the first finished iteration
    // keeps that iteration's best move
    let pos = parse_fen("rnbqkbnr/pppppppp/8/8/8/8/PPPPPPPP/RNBQKBNR w KQkq - 0 1");
    let mut searcher = Searcher::new(10);
    let mut session = searcher.begin(pos.clone(), &SearchControl::ToDepth(6));
    let info = searcher.iterate(&mut session);
    match info {
        SearchInfo::Info { depth, score, .. } => {
            assert_eq!(depth, 1);
            assert_eq!(score, session.best.score);
        },
        _ => panic!("iterations report Info records"),
    }
    assert!(session.best.score > SCORE_MIN);
    assert!(is_legal(&pos, &session.best.move_));
}

#[test]
fn two_searches_in_a_row_each_find_a_move() {
    let mut searcher = Searcher::new(10);
    let first = parse_fen("rnbqkbnr/pppppppp/8/8/8/8/PPPPPPPP/RNBQKBNR w KQkq - 0 1");
    let second = parse_fen("rnb1kbnr/pppppppp/8/8/8/8/PPPPPPPP/RNB1KBNR w KQkq - 0 1");

    let mut s1 = searcher.begin(first.clone(), &SearchControl::ToDepth(2));
    while !s1.finished() {
        searcher.iterate(&mut s1);
    }
    assert!(is_legal(&first, &s1.best.move_));

    let mut s2 = searcher.begin(second.clone(), &SearchControl::ToDepth(2));
    while !s2.finished() {
        searcher.iterate(&mut s2);
    }
    assert!(is_legal(&second, &s2.best.move_));
}

#[test]
fn quiescence_sees_through_the_exchange() {
    // white may not read off an advantage in the middle of a queen
    // trade: with quiescence behind a one-ply search the score stays
    // near equality (each queen is protected by its king)
    let pos = parse_fen("3qk3/8/8/8/8/8/3QK3/8 w - - 0 1");
    let mut searcher = Searcher::new(10);
    let mut session = searcher.begin(pos, &SearchControl::ToDepth(1));
    let info = searcher.iterate(&mut session);
    let score = match info {
        SearchInfo::Info { score, .. } => score,
        _ => panic!("iterations report Info records"),
    };
    assert!(
        score.abs() < 200,
        "a queen trade should read close to equal, got {}",
        score
    );
}

#[test]
fn quiescence_resolves_a_hanging_queen() {
    // black queen en prise on d4, white to move: standing pat reads
    // a queen down, the capture search wins her back
    let pos = parse_fen("4k3/8/8/8/3q4/4P3/8/4K3 w - - 0 1");
    let stand_pat = skakarlak::eval::evaluate(&pos, 0);
    assert!(stand_pat < -600, "a queen down at the stand pat, got {}", stand_pat);
    let score = quiescence(&pos, SCORE_MIN, i32::MAX, 0, QUIESCENCE_FUEL);
    assert!(
        score > 0 && score < 400,
        "after the capture white is a pawn up, got {}",
        score
    );
}

#[test]
fn root_moves_can_be_stepped_one_by_one() {
    // an iteration driven root move by root move, so a caller can
    // check the clock and the command channel between moves
    let pos = parse_fen("rnbqkbnr/pppppppp/8/8/8/8/PPPPPPPP/RNBQKBNR w KQkq - 0 1");
    let mut searcher = Searcher::new(10);
    let mut session = searcher.begin(pos.clone(), &SearchControl::ToDepth(2));

    let mut root = searcher.begin_iteration(&session);
    assert_eq!(root.moves.len(), 20);
    assert_eq!(root.next, 0);
    let mut steps = 0;
    while !root.finished() {
        searcher.search_root_move(&session, &mut root);
        steps += 1;
    }
    assert!(steps <= 20);
    let info = searcher.finish_iteration(&mut session, &root);
    match info {
        SearchInfo::Info { depth, pv, score, .. } => {
            assert_eq!(depth, 1);
            assert_eq!(pv[0], session.best.move_);
            assert_eq!(score, session.best.score);
        },
        _ => panic!("a finished iteration reports an Info record"),
    }
    assert_eq!(session.next_depth, 2);
    assert!(is_legal(&pos, &session.best.move_));

    // abandoning the second iteration midway keeps the first's best
    let committed = session.best.move_;
    let mut root2 = searcher.begin_iteration(&session);
    searcher.search_root_move(&session, &mut root2);
    drop(root2);
    assert_eq!(session.best.move_, committed);
    assert_eq!(session.next_depth, 2);
}

#[test]
fn table_backed_search_stays_in_its_window() {
    let pos = parse_fen("r1b1kb1r/pppp1ppp/5q2/4n3/3KP3/2N3PN/PPP4P/R1BQ1B1R b kq - 0 1");
    let mut tt = FastTranspositionTable::new(10);
    let mut nodes: u64 = 0;
    let hash: Zobrist64 = pos.zobrist_hash(EnPassantMode::Legal);
    let score = negamax(&pos, 3, -500, 500, 0, &mut tt, &mut nodes, hash.0);
    assert!((SCORE_MIN..=i32::MAX).contains(&score));
    assert!(nodes > 0);
}
