use vstd::prelude::*;

use crate::moves::{Color, PlacedPiece, PieceKind, placed_all_wf, placed_wf};
use crate::phase::{Phase, spec_material_sum, spec_opening_weight};
use crate::pst::{
    lemma_position_score_mirror, lemma_position_score_range, position_score, spec_position_score,
};

verus! {

/// The least score a search ever returns. `i32::MIN` itself is never
/// used, so that every score can be negated.
pub const SCORE_MIN: i32 = i32::MIN + 1;

/// The greatest score a search ever returns.
pub const SCORE_MAX: i32 = i32::MAX;

/// The material value of a role, in centipawns.
pub open spec fn spec_material(r: PieceKind) -> int {
    match r {
        PieceKind::Pawn => 100,
        PieceKind::Knight => 320,
        PieceKind::Bishop => 330,
        PieceKind::Rook => 500,
        PieceKind::Queen => 900,
        PieceKind::King => 0,
    }
}

pub fn material_score(r: PieceKind) -> (v: i32)
    ensures
        v == spec_material(r),
{
    match r {
        PieceKind::Pawn => 100,
        PieceKind::Knight => 320,
        PieceKind::Bishop => 330,
        PieceKind::Rook => 500,
        PieceKind::Queen => 900,
        PieceKind::King => 0,
    }
}

/// Material plus positional value of one piece at a given phase.
pub open spec fn spec_piece_total(p: PlacedPiece, opening_q: int) -> int {
    spec_material(p.role) + spec_position_score(p.color, p.role, p.square as int, opening_q)
}

/// The board score from the side to move's perspective: every piece
/// counts positively for the side to move and negatively against it.
pub open spec fn spec_board_score(pieces: Seq<PlacedPiece>, turn: Color, opening_q: int) -> int
    decreases pieces.len(),
{
    if pieces.len() == 0 {
        0
    } else {
        spec_board_score(pieces.drop_last(), turn, opening_q) + (if pieces.last().color == turn {
            spec_piece_total(pieces.last(), opening_q)
        } else {
            -spec_piece_total(pieces.last(), opening_q)
        })
    }
}

/// The opening weight of a board, from its remaining material.
pub open spec fn spec_board_phase(pieces: Seq<PlacedPiece>) -> int {
    spec_opening_weight(
        if spec_material_sum(pieces) > 24 {
            24int
        } else {
            spec_material_sum(pieces)
        },
    )
}

/// The static evaluation: a mate score for a checkmated side to move,
/// zero for any other finished game, and the phased board score
/// otherwise.
pub open spec fn spec_evaluate(
    checkmate: bool,
    gameover: bool,
    turn: Color,
    pieces: Seq<PlacedPiece>,
    ply: u8,
) -> int {
    if checkmate {
        SCORE_MIN + ply
    } else if gameover {
        0
    } else {
        spec_board_score(pieces, turn, spec_board_phase(pieces))
    }
}

pub proof fn lemma_piece_total_range(p: PlacedPiece, opening_q: int)
    requires
        placed_wf(p),
        0 <= opening_q <= 1024,
    ensures
        -1000 <= spec_piece_total(p, opening_q) <= 1000,
{
    lemma_position_score_range(p.color, p.role, p.square as int, opening_q);
}

pub proof fn lemma_board_score_bounds(pieces: Seq<PlacedPiece>, turn: Color, opening_q: int)
    requires
        placed_all_wf(pieces),
        0 <= opening_q <= 1024,
    ensures
        -1000 * pieces.len() <= spec_board_score(pieces, turn, opening_q) <= 1000 * pieces.len(),
    decreases pieces.len(),
{
    if pieces.len() > 0 {
        lemma_board_score_bounds(pieces.drop_last(), turn, opening_q);
        lemma_piece_total_range(pieces.last(), opening_q);
    }
}

/// The evaluation always lies strictly inside the score range: above
/// `i32::MIN + 1 - 1` and no higher than `i32::MAX`.
pub proof fn lemma_evaluate_range(
    checkmate: bool,
    gameover: bool,
    turn: Color,
    pieces: Seq<PlacedPiece>,
    ply: u8,
)
    requires
        placed_all_wf(pieces),
        pieces.len() <= 64,
    ensures
        SCORE_MIN <= spec_evaluate(checkmate, gameover, turn, pieces, ply) <= SCORE_MAX,
{
    if !checkmate && !gameover {
        crate::phase::lemma_material_sum_bounds(pieces);
        lemma_board_score_bounds(pieces, turn, spec_board_phase(pieces));
    }
}

/// The static evaluation of a board handed over as plain values.
pub fn evaluate_board(
    checkmate: bool,
    gameover: bool,
    turn: Color,
    pieces: &Vec<PlacedPiece>,
    ply: u8,
) -> (v: i32)
    requires
        pieces@.len() <= 64,
        placed_all_wf(pieces@),
    ensures
        v == spec_evaluate(checkmate, gameover, turn, pieces@, ply),
{
    if checkmate {
        return SCORE_MIN + (ply as i32);
    }
    if gameover {
        return 0;
    }
    let phase = Phase::of_pieces(pieces);
    let ghost oq = phase.opening_weight();
    let mut total: i32 = 0;
    let mut i: usize = 0;
    while i < pieces.len()
        invariant
            i <= pieces@.len() <= 64,
            placed_all_wf(pieces@),
            phase.wf(),
            oq == phase.opening_weight(),
            total == spec_board_score(pieces@.take(i as int), turn, oq),
            -1000 * i <= total <= 1000 * i,
        decreases pieces@.len() - i,
    {
        let p = pieces[i];
        let piece_total = material_score(p.role) + position_score(p, &phase);
        proof {
            lemma_piece_total_range(p, oq);
            assert(pieces@.take(i + 1).drop_last() =~= pieces@.take(i as int));
            assert(pieces@.take(i + 1).last() == pieces@[i as int]);
        }
        if p.color == turn {
            total = total + piece_total;
        } else {
            total = total - piece_total;
        }
        i = i + 1;
    }
    proof {
        assert(pieces@.take(pieces@.len() as int) =~= pieces@);
    }
    total
}

/// A board rotated a half turn with its colors swapped.
pub open spec fn spec_mirror_piece(p: PlacedPiece) -> PlacedPiece {
    PlacedPiece {
        color: if p.color == Color::White {
            Color::Black
        } else {
            Color::White
        },
        role: p.role,
        square: (63 - p.square) as u8,
    }
}

pub open spec fn spec_mirror_board(pieces: Seq<PlacedPiece>) -> Seq<PlacedPiece> {
    pieces.map_values(|p: PlacedPiece| spec_mirror_piece(p))
}

/// The positional score a color receives over a whole board.
pub open spec fn spec_color_pst_sum(pieces: Seq<PlacedPiece>, c: Color, opening_q: int) -> int
    decreases pieces.len(),
{
    if pieces.len() == 0 {
        0
    } else {
        spec_color_pst_sum(pieces.drop_last(), c, opening_q) + (if pieces.last().color == c {
            spec_position_score(
                pieces.last().color,
                pieces.last().role,
                pieces.last().square as int,
                opening_q,
            )
        } else {
            0
        })
    }
}

/// The static evaluation of a position: a mate score when the side
/// to move is checkmated, zero for any other finished game, and the
/// phase-blended material and positional balance otherwise, always
/// from the side to move's perspective.
pub fn evaluate(pos: &shakmaty::Chess, ply: u8) -> (v: i32)
    ensures
        v == spec_evaluate(
            crate::chess::checkmate_of(*pos),
            crate::chess::gameover_of(*pos),
            crate::chess::turn_of(*pos),
            crate::chess::board_of(*pos),
            ply,
        ),
        SCORE_MIN <= v <= SCORE_MAX,
{
    let checkmate = crate::chess::is_checkmate(pos);
    let gameover = crate::chess::is_game_over(pos);
    let t = crate::chess::turn(pos);
    let pieces = crate::chess::board_pieces(pos);
    proof {
        lemma_evaluate_range(checkmate, gameover, t, pieces@, ply);
    }
    evaluate_board(checkmate, gameover, t, &pieces, ply)
}

/// Color symmetry of the evaluation tables: whatever positional score
/// the white pieces collect on a board, the black pieces collect on
/// the board rotated a half turn with colors swapped, at any phase.
pub proof fn lemma_color_symmetry(pieces: Seq<PlacedPiece>, opening_q: int)
    requires
        placed_all_wf(pieces),
    ensures
        spec_color_pst_sum(pieces, Color::White, opening_q) == spec_color_pst_sum(
            spec_mirror_board(pieces),
            Color::Black,
            opening_q,
        ),
    decreases pieces.len(),
{
    let mirrored = spec_mirror_board(pieces);
    if pieces.len() == 0 {
        assert(mirrored.len() == 0);
    } else {
        let p = pieces.last();
        let q = mirrored.last();
        assert(q == spec_mirror_piece(p));
        assert(mirrored.drop_last() =~= spec_mirror_board(pieces.drop_last()));
        assert(placed_all_wf(pieces.drop_last()));
        lemma_color_symmetry(pieces.drop_last(), opening_q);
        if p.color == Color::White {
            lemma_position_score_mirror(p.role, 63 - p.square as int, opening_q);
        }
    }
}

} // verus!
