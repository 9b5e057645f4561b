use vstd::prelude::*;

use crate::moves::{Color, PlacedPiece, PieceKind, placed_wf};
use crate::phase::{PHASE_SCALE, Phase};

verus! {

pub const PAWN_TABLE: [i32; 64] = [
    0, 0, 0, 0, 0, 0, 0, 0,
    40, 40, 40, 40, 40, 40, 40, 40,
    15, 15, 20, 25, 25, 20, 15, 15,
    5, 5, 10, 20, 20, 10, 5, 5,
    0, 0, 5, 15, 15, 5, 0, 0,
    5, -5, -10, 0, 0, -10, -5, 5,
    5, 10, 10, -15, -15, 10, 10, 5,
    0, 0, 0, 0, 0, 0, 0, 0,
];

pub const PAWN_ENDGAME_TABLE: [i32; 64] = [
    0, 0, 0, 0, 0, 0, 0, 0,
    15, 15, 15, 15, 15, 15, 15, 15,
    30, 30, 30, 30, 30, 30, 30, 30,
    45, 45, 45, 45, 45, 45, 45, 45,
    60, 60, 60, 60, 60, 60, 60, 60,
    75, 75, 75, 75, 75, 75, 75, 75,
    90, 90, 90, 90, 90, 90, 90, 90,
    0, 0, 0, 0, 0, 0, 0, 0,
];

pub const KNIGHT_TABLE: [i32; 64] = [
    -60, -40, -30, -30, -30, -30, -40, -60,
    -40, -20, 0, 5, 5, 0, -20, -40,
    -30, 5, 15, 20, 20, 15, 5, -30,
    -30, 10, 20, 30, 30, 20, 10, -30,
    -30, 10, 20, 30, 30, 20, 10, -30,
    -30, 5, 15, 20, 20, 15, 5, -30,
    -40, -20, 0, 5, 5, 0, -20, -40,
    -60, -40, -30, -30, -30, -30, -40, -60,
];

pub const KNIGHT_ENDGAME_TABLE: [i32; 64] = [
    -50, -40, -30, -30, -30, -30, -40, -50,
    -40, -25, -10, -5, -5, -10, -25, -40,
    -30, -10, 0, 5, 5, 0, -10, -30,
    -30, -5, 5, 10, 10, 5, -5, -30,
    -30, -5, 5, 10, 10, 5, -5, -30,
    -30, -10, 0, 5, 5, 0, -10, -30,
    -40, -25, -10, -5, -5, -10, -25, -40,
    -50, -40, -30, -30, -30, -30, -40, -50,
];

pub const BISHOP_TABLE: [i32; 64] = [
    -20, -10, -10, -10, -10, -10, -10, -20,
    -10, 5, 0, 0, 0, 0, 5, -10,
    -10, 0, 10, 15, 15, 10, 0, -10,
    -10, 5, 15, 20, 20, 15, 5, -10,
    -10, 5, 15, 20, 20, 15, 5, -10,
    -10, 0, 10, 15, 15, 10, 0, -10,
    -10, 5, 0, 0, 0, 0, 5, -10,
    -20, -10, -10, -10, -10, -10, -10, -20,
];

pub const BISHOP_ENDGAME_TABLE: [i32; 64] = [
    -10, 0, 0, 0, 0, 0, 0, -10,
    0, 5, 5, 5, 5, 5, 5, 0,
    0, 5, 10, 10, 10, 10, 5, 0,
    0, 5, 10, 20, 20, 10, 5, 0,
    0, 5, 10, 20, 20, 10, 5, 0,
    0, 5, 10, 10, 10, 10, 5, 0,
    0, 5, 5, 5, 5, 5, 5, 0,
    -10, 0, 0, 0, 0, 0, 0, -10,
];

pub const ROOK_TABLE: [i32; 64] = [
    0, 0, 5, 10, 10, 5, 0, 0,
    5, 10, 15, 20, 20, 15, 10, 5,
    -5, 0, 0, 5, 5, 0, 0, -5,
    -5, 0, 0, 5, 5, 0, 0, -5,
    -5, 0, 0, 5, 5, 0, 0, -5,
    -5, 0, 0, 5, 5, 0, 0, -5,
    5, 10, 10, 15, 15, 10, 10, 5,
    0, 0, 5, 10, 10, 5, 0, 0,
];

pub const ROOK_ENDGAME_TABLE: [i32; 64] = [
    0, 5, 10, 15, 15, 10, 5, 0,
    5, 10, 15, 20, 20, 15, 10, 5,
    0, 5, 10, 15, 15, 10, 5, 0,
    0, 5, 10, 15, 15, 10, 5, 0,
    0, 5, 10, 15, 15, 10, 5, 0,
    0, 5, 10, 15, 15, 10, 5, 0,
    5, 10, 15, 20, 20, 15, 10, 5,
    0, 5, 10, 15, 15, 10, 5, 0,
];

pub const QUEEN_TABLE: [i32; 64] = [
    -30, -20, -20, -10, -10, -20, -20, -30,
    -20, -10, -5, -5, -5, -5, -10, -20,
    -20, -5, 0, 0, 0, 0, -5, -20,
    -10, -5, 0, 5, 5, 0, -5, -10,
    -10, -5, 0, 5, 5, 0, -5, -10,
    -20, -5, 0, 0, 0, 0, -5, -20,
    -20, -10, -5, -5, -5, -5, -10, -20,
    -30, -20, -20, -10, -10, -20, -20, -30,
];

pub const QUEEN_ENDGAME_TABLE: [i32; 64] = [
    -10, -5, -5, 0, 0, -5, -5, -10,
    -5, 0, 5, 5, 5, 5, 0, -5,
    -5, 5, 10, 10, 10, 10, 5, -5,
    0, 5, 10, 15, 15, 10, 5, 0,
    0, 5, 10, 15, 15, 10, 5, 0,
    -5, 5, 10, 10, 10, 10, 5, -5,
    -5, 0, 5, 5, 5, 5, 0, -5,
    -10, -5, -5, 0, 0, -5, -5, -10,
];

pub const KING_TABLE: [i32; 64] = [
    20, 30, 10, 0, 0, 10, 30, 20,
    20, 20, 0, 0, 0, 0, 20, 20,
    -10, -20, -20, -20, -20, -20, -20, -10,
    -20, -30, -30, -40, -40, -30, -30, -20,
    -30, -40, -40, -50, -50, -40, -40, -30,
    -30, -40, -40, -50, -50, -40, -40, -30,
    -30, -40, -40, -50, -50, -40, -40, -30,
    -30, -40, -40, -50, -50, -40, -40, -30,
];

pub const KING_ENDGAME_TABLE: [i32; 64] = [
    -50, -40, -30, -20, -20, -30, -40, -50,
    -30, -20, -10, 0, 0, -10, -20, -30,
    -30, -10, 20, 30, 30, 20, -10, -30,
    -30, -10, 30, 40, 40, 30, -10, -30,
    -30, -10, 30, 40, 40, 30, -10, -30,
    -30, -10, 20, 30, 30, 20, -10, -30,
    -30, -30, 0, 0, 0, 0, -30, -30,
    -50, -30, -30, -30, -30, -30, -30, -50,
];


/// The mid-game table entry for a role, read at a table square.
pub open spec fn spec_table_mg(role: PieceKind, sq: int) -> i32 {
    match role {
        PieceKind::Pawn => PAWN_TABLE[sq],
        PieceKind::Knight => KNIGHT_TABLE[sq],
        PieceKind::Bishop => BISHOP_TABLE[sq],
        PieceKind::Rook => ROOK_TABLE[sq],
        PieceKind::Queen => QUEEN_TABLE[sq],
        PieceKind::King => KING_TABLE[sq],
    }
}

/// The end-game table entry for a role, read at a table square.
pub open spec fn spec_table_eg(role: PieceKind, sq: int) -> i32 {
    match role {
        PieceKind::Pawn => PAWN_ENDGAME_TABLE[sq],
        PieceKind::Knight => KNIGHT_ENDGAME_TABLE[sq],
        PieceKind::Bishop => BISHOP_ENDGAME_TABLE[sq],
        PieceKind::Rook => ROOK_ENDGAME_TABLE[sq],
        PieceKind::Queen => QUEEN_ENDGAME_TABLE[sq],
        PieceKind::King => KING_ENDGAME_TABLE[sq],
    }
}

/// The square from which a piece reads its tables: black pieces read
/// the board upside down.
pub open spec fn spec_table_square(color: Color, sq: int) -> int {
    if color == Color::Black {
        63 - sq
    } else {
        sq
    }
}

/// Division by the phase scale, rounded to the nearest integer with
/// halves away from zero.
pub open spec fn spec_round_scale(n: int) -> int {
    if n >= 0 {
        (n + 512) / 1024
    } else {
        0 - ((512 - n) / 1024)
    }
}

/// The positional score of a piece of `role` and `color` on `sq`:
/// mid-game and end-game table entries blended by the opening weight
/// and rounded to the nearest centipawn.
pub open spec fn spec_position_score(color: Color, role: PieceKind, sq: int, opening_q: int) -> int {
    spec_round_scale(
        spec_table_mg(role, spec_table_square(color, sq)) * opening_q + spec_table_eg(
            role,
            spec_table_square(color, sq),
        ) * (1024 - opening_q),
    )
}

/// Every table entry lies within a pawn's worth of centipawns.
pub proof fn lemma_table_bounds(role: PieceKind, sq: int)
    requires
        0 <= sq < 64,
    ensures
        -100 <= spec_table_mg(role, sq) <= 100,
        -100 <= spec_table_eg(role, sq) <= 100,
{
    assert(forall|i: int| 0 <= i < 64 ==> -100 <= #[trigger] PAWN_TABLE[i] <= 100);
    assert(forall|i: int| 0 <= i < 64 ==> -100 <= #[trigger] PAWN_ENDGAME_TABLE[i] <= 100);
    assert(forall|i: int| 0 <= i < 64 ==> -100 <= #[trigger] KNIGHT_TABLE[i] <= 100);
    assert(forall|i: int| 0 <= i < 64 ==> -100 <= #[trigger] KNIGHT_ENDGAME_TABLE[i] <= 100);
    assert(forall|i: int| 0 <= i < 64 ==> -100 <= #[trigger] BISHOP_TABLE[i] <= 100);
    assert(forall|i: int| 0 <= i < 64 ==> -100 <= #[trigger] BISHOP_ENDGAME_TABLE[i] <= 100);
    assert(forall|i: int| 0 <= i < 64 ==> -100 <= #[trigger] ROOK_TABLE[i] <= 100);
    assert(forall|i: int| 0 <= i < 64 ==> -100 <= #[trigger] ROOK_ENDGAME_TABLE[i] <= 100);
    assert(forall|i: int| 0 <= i < 64 ==> -100 <= #[trigger] QUEEN_TABLE[i] <= 100);
    assert(forall|i: int| 0 <= i < 64 ==> -100 <= #[trigger] QUEEN_ENDGAME_TABLE[i] <= 100);
    assert(forall|i: int| 0 <= i < 64 ==> -100 <= #[trigger] KING_TABLE[i] <= 100);
    assert(forall|i: int| 0 <= i < 64 ==> -100 <= #[trigger] KING_ENDGAME_TABLE[i] <= 100);
}

/// A positional score never exceeds the table bounds.
pub proof fn lemma_position_score_range(color: Color, role: PieceKind, sq: int, opening_q: int)
    requires
        0 <= sq < 64,
        0 <= opening_q <= 1024,
    ensures
        -100 <= spec_position_score(color, role, sq, opening_q) <= 100,
{
    let ts = spec_table_square(color, sq);
    let mg = spec_table_mg(role, ts) as int;
    let eg = spec_table_eg(role, ts) as int;
    lemma_table_bounds(role, ts);
    let n = mg * opening_q + eg * (1024 - opening_q);
    assert((-100) * opening_q <= mg * opening_q <= 100 * opening_q) by (nonlinear_arith)
        requires
            -100 <= mg <= 100,
            0 <= opening_q,
    ;
    assert((-100) * (1024 - opening_q) <= eg * (1024 - opening_q) <= 100 * (1024 - opening_q))
        by (nonlinear_arith)
        requires
            -100 <= eg <= 100,
            opening_q <= 1024,
    ;
    assert(-102400 <= n <= 102400);
    if n >= 0 {
        assert((n + 512) / 1024 <= 100) by (nonlinear_arith)
            requires
                0 <= n <= 102400,
        ;
    } else {
        assert((512 - n) / 1024 <= 100) by (nonlinear_arith)
            requires
                -102400 <= n < 0,
        ;
    }
}

/// Table symmetry: a white piece on the mirrored square scores what
/// the same black piece scores on the unmirrored square, at any phase.
pub proof fn lemma_position_score_mirror(role: PieceKind, sq: int, opening_q: int)
    requires
        0 <= sq < 64,
    ensures
        spec_position_score(Color::White, role, 63 - sq, opening_q) == spec_position_score(
            Color::Black,
            role,
            sq,
            opening_q,
        ),
{
}

/// The positional score of a piece on its square, blended by phase.
pub fn position_score(p: PlacedPiece, phase: &Phase) -> (v: i32)
    requires
        placed_wf(p),
        phase.wf(),
    ensures
        v == spec_position_score(p.color, p.role, p.square as int, phase.opening_weight()),
        -100 <= v <= 100,
{
    let ghost ts = spec_table_square(p.color, p.square as int);
    let sq: usize = if p.color == Color::Black {
        63 - (p.square as usize)
    } else {
        p.square as usize
    };
    let (mg, eg): (i32, i32) = match p.role {
        PieceKind::Pawn => (PAWN_TABLE[sq], PAWN_ENDGAME_TABLE[sq]),
        PieceKind::Knight => (KNIGHT_TABLE[sq], KNIGHT_ENDGAME_TABLE[sq]),
        PieceKind::Bishop => (BISHOP_TABLE[sq], BISHOP_ENDGAME_TABLE[sq]),
        PieceKind::Rook => (ROOK_TABLE[sq], ROOK_ENDGAME_TABLE[sq]),
        PieceKind::Queen => (QUEEN_TABLE[sq], QUEEN_ENDGAME_TABLE[sq]),
        PieceKind::King => (KING_TABLE[sq], KING_ENDGAME_TABLE[sq]),
    };
    let oq = phase.opening();
    proof {
        assert(sq as int == ts);
        assert(mg == spec_table_mg(p.role, ts) && eg == spec_table_eg(p.role, ts));
        lemma_table_bounds(p.role, ts);
        lemma_position_score_range(p.color, p.role, p.square as int, phase.opening_weight());
        assert((-100) * oq <= mg * oq <= 100 * oq && (-100) * (1024 - oq) <= eg * (1024 - oq)
            <= 100 * (1024 - oq)) by (nonlinear_arith)
            requires
                -100 <= mg <= 100,
                -100 <= eg <= 100,
                0 <= oq <= 1024,
        ;
    }
    let n: i32 = mg * oq + eg * (1024 - oq);
    if n >= 0 {
        (((n as u32) + 512) / 1024) as i32
    } else {
        0 - ((((512 - n) as u32) / 1024) as i32)
    }
}

} // verus!
