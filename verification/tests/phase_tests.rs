use shakmaty::fen::Fen;
use shakmaty::{CastlingMode, Chess};
use skakarlak::phase::{PHASE_SCALE, Phase, calculate_phase};
use std::str::FromStr;

fn parse_fen(fen_str: &str) -> Chess {
    Fen::from_str(fen_str)
        .unwrap()
        .into_position(CastlingMode::Standard)
        .unwrap()
}

#[test]
fn phase_test_phase_opening() {
    let pos = Chess::default();
    let phase = Phase::new(&pos);
    assert_eq!(phase.opening(), PHASE_SCALE);
    assert_eq!(phase.endgame(), 0);
}

#[test]
fn phase_test_phase_endgame() {
    // Only kings and pawns
    let pos = parse_fen("4k3/8/8/3p4/3P4/8/8/4K3 w - - 0 1");
    let phase = Phase::new(&pos);
    assert_eq!(phase.opening(), 0);
    assert_eq!(phase.endgame(), PHASE_SCALE);
}

#[test]
fn phase_test_phase_middlegame() {
    // Remove both queens from opening position
    let pos = parse_fen("rnb1kbnr/pppppppp/8/8/8/8/PPPPPPPP/RNB1KBNR w KQkq - 0 1");
    let phase = Phase::new(&pos);
    assert!(
        phase.opening() > 0 && phase.opening() < PHASE_SCALE,
        "Opening must be strictly between 0 and the scale"
    );
    assert!(
        phase.endgame() > 0 && phase.endgame() < PHASE_SCALE,
        "Endgame must be strictly between 0 and the scale"
    );
}

#[test]
fn pst_test_phase_opening() {
    // Standard chess opening position
    let pos = Chess::default();
    let phase = calculate_phase(&pos);
    assert_eq!(phase, 0, "Opening phase should be 0, got {}", phase);
}

#[test]
fn pst_test_phase_endgame() {
    // Only kings and pawns
    let pos = parse_fen("4k3/8/8/3p4/3P4/8/8/4K3 w - - 0 1");
    let phase = calculate_phase(&pos);
    assert_eq!(
        phase, PHASE_SCALE,
        "Endgame phase should be the full scale, got {}",
        phase
    );
}

#[test]
fn pst_test_phase_middlegame() {
    // Remove both queens from opening position
    let pos = parse_fen("rnb1kbnr/pppppppp/8/8/8/8/PPPPPPPP/RNB1KBNR w KQkq - 0 1");
    let phase = calculate_phase(&pos);
    assert!(
        phase > 0 && phase < PHASE_SCALE,
        "Middlegame phase should be between 0 and the scale, got {}",
        phase
    );
}

#[test]
fn from_sum_matches_weight_table() {
    // the square-root table at its ends and in the middle
    let full = Phase::from_sum(24);
    assert_eq!(full.opening(), 1024);
    let none = Phase::from_sum(0);
    assert_eq!(none.opening(), 0);
    let half = Phase::from_sum(12);
    // floor(1024 * (12/24)^1.5) = 362
    assert_eq!(half.opening(), 362);
    assert_eq!(half.endgame(), 1024 - 362);
    // sums above the starting material clamp
    let over = Phase::from_sum(40);
    assert_eq!(over.opening(), 1024);
}
