use vstd::prelude::*;

use crate::moves::{PlacedPiece, PieceKind};

verus! {

/// Fixed-point scale for game-phase weights: a weight of
/// `PHASE_SCALE` stands for 1, a weight of 0 for 0.
pub const PHASE_SCALE: i32 = 1024;

/// The material sum of the starting position: knights and bishops
/// count 1, rooks 2, queens 4, over both colors.
pub const STARTING_SUM: u32 = 24;

/// How much a piece contributes to the remaining-material sum.
pub open spec fn spec_phase_weight(r: PieceKind) -> int {
    match r {
        PieceKind::Knight => 1,
        PieceKind::Bishop => 1,
        PieceKind::Rook => 2,
        PieceKind::Queen => 4,
        _ => 0,
    }
}

fn phase_weight(r: PieceKind) -> (w: u32)
    ensures
        w == spec_phase_weight(r),
{
    match r {
        PieceKind::Knight => 1,
        PieceKind::Bishop => 1,
        PieceKind::Rook => 2,
        PieceKind::Queen => 4,
        _ => 0,
    }
}

/// The remaining-material sum of a board.
pub open spec fn spec_material_sum(pieces: Seq<PlacedPiece>) -> int
    decreases pieces.len(),
{
    if pieces.len() == 0 {
        0
    } else {
        spec_material_sum(pieces.drop_last()) + spec_phase_weight(pieces.last().role)
    }
}

pub proof fn lemma_material_sum_bounds(pieces: Seq<PlacedPiece>)
    ensures
        0 <= spec_material_sum(pieces) <= 4 * pieces.len(),
    decreases pieces.len(),
{
    if pieces.len() > 0 {
        lemma_material_sum_bounds(pieces.drop_last());
    }
}

/// The square of the opening weight, before the square root:
/// `PHASE_SCALE^2 * (sum / STARTING_SUM)^3`, as an exact integer
/// scaled by `13824 = STARTING_SUM^3`, rounded down.
pub open spec fn phase_square(sum: int) -> int {
    1024 * 1024 * sum * sum * sum / 13824
}

/// The opening weight for a material sum clamped to 0..=24: the
/// integer square root of `phase_square`, which makes the weight
/// `PHASE_SCALE * (sum / 24)^1.5` rounded down to the scale.
pub open spec fn spec_opening_weight(sum: int) -> int {
    if sum <= 0 {
        0
    } else if sum == 1 {
        8
    } else if sum == 2 {
        24
    } else if sum == 3 {
        45
    } else if sum == 4 {
        69
    } else if sum == 5 {
        97
    } else if sum == 6 {
        128
    } else if sum == 7 {
        161
    } else if sum == 8 {
        197
    } else if sum == 9 {
        235
    } else if sum == 10 {
        275
    } else if sum == 11 {
        317
    } else if sum == 12 {
        362
    } else if sum == 13 {
        408
    } else if sum == 14 {
        456
    } else if sum == 15 {
        505
    } else if sum == 16 {
        557
    } else if sum == 17 {
        610
    } else if sum == 18 {
        665
    } else if sum == 19 {
        721
    } else if sum == 20 {
        778
    } else if sum == 21 {
        838
    } else if sum == 22 {
        898
    } else if sum == 23 {
        960
    } else {
        1024
    }
}

/// The table above is the integer square root of `phase_square`:
/// for each sum the weight `w` satisfies `w^2 <= phase_square < (w+1)^2`.
pub proof fn lemma_opening_weight_is_sqrt(sum: int)
    requires
        0 <= sum <= 24,
    ensures
        spec_opening_weight(sum) * spec_opening_weight(sum) <= phase_square(sum),
        phase_square(sum) < (spec_opening_weight(sum) + 1) * (spec_opening_weight(sum) + 1),
{
    if sum == 0 {
        assert(1024 * 1024 * sum * sum * sum / 13824 == 0) by (nonlinear_arith)
            requires
                sum == 0,
        ;
        assert(spec_opening_weight(sum) * spec_opening_weight(sum) == 0 && (
        spec_opening_weight(sum) + 1) * (spec_opening_weight(sum) + 1) == 1) by (nonlinear_arith)
            requires
                spec_opening_weight(sum) == 0,
        ;
    } else if sum == 1 {
        assert(1024 * 1024 * sum * sum * sum / 13824 == 75) by (nonlinear_arith)
            requires
                sum == 1,
        ;
        assert(spec_opening_weight(sum) * spec_opening_weight(sum) == 64 && (
        spec_opening_weight(sum) + 1) * (spec_opening_weight(sum) + 1) == 81) by (nonlinear_arith)
            requires
                spec_opening_weight(sum) == 8,
        ;
    } else if sum == 2 {
        assert(1024 * 1024 * sum * sum * sum / 13824 == 606) by (nonlinear_arith)
            requires
                sum == 2,
        ;
        assert(spec_opening_weight(sum) * spec_opening_weight(sum) == 576 && (
        spec_opening_weight(sum) + 1) * (spec_opening_weight(sum) + 1) == 625) by (nonlinear_arith)
            requires
                spec_opening_weight(sum) == 24,
        ;
    } else if sum == 3 {
        assert(1024 * 1024 * sum * sum * sum / 13824 == 2048) by (nonlinear_arith)
            requires
                sum == 3,
        ;
        assert(spec_opening_weight(sum) * spec_opening_weight(sum) == 2025 && (
        spec_opening_weight(sum) + 1) * (spec_opening_weight(sum) + 1) == 2116) by (nonlinear_arith)
            requires
                spec_opening_weight(sum) == 45,
        ;
    } else if sum == 4 {
        assert(1024 * 1024 * sum * sum * sum / 13824 == 4854) by (nonlinear_arith)
            requires
                sum == 4,
        ;
        assert(spec_opening_weight(sum) * spec_opening_weight(sum) == 4761 && (
        spec_opening_weight(sum) + 1) * (spec_opening_weight(sum) + 1) == 4900) by (nonlinear_arith)
            requires
                spec_opening_weight(sum) == 69,
        ;
    } else if sum == 5 {
        assert(1024 * 1024 * sum * sum * sum / 13824 == 9481) by (nonlinear_arith)
            requires
                sum == 5,
        ;
        assert(spec_opening_weight(sum) * spec_opening_weight(sum) == 9409 && (
        spec_opening_weight(sum) + 1) * (spec_opening_weight(sum) + 1) == 9604) by (nonlinear_arith)
            requires
                spec_opening_weight(sum) == 97,
        ;
    } else if sum == 6 {
        assert(1024 * 1024 * sum * sum * sum / 13824 == 16384) by (nonlinear_arith)
            requires
                sum == 6,
        ;
        assert(spec_opening_weight(sum) * spec_opening_weight(sum) == 16384 && (
        spec_opening_weight(sum) + 1) * (spec_opening_weight(sum) + 1) == 16641) by (nonlinear_arith)
            requires
                spec_opening_weight(sum) == 128,
        ;
    } else if sum == 7 {
        assert(1024 * 1024 * sum * sum * sum / 13824 == 26017) by (nonlinear_arith)
            requires
                sum == 7,
        ;
        assert(spec_opening_weight(sum) * spec_opening_weight(sum) == 25921 && (
        spec_opening_weight(sum) + 1) * (spec_opening_weight(sum) + 1) == 26244) by (nonlinear_arith)
            requires
                spec_opening_weight(sum) == 161,
        ;
    } else if sum == 8 {
        assert(1024 * 1024 * sum * sum * sum / 13824 == 38836) by (nonlinear_arith)
            requires
                sum == 8,
        ;
        assert(spec_opening_weight(sum) * spec_opening_weight(sum) == 38809 && (
        spec_opening_weight(sum) + 1) * (spec_opening_weight(sum) + 1) == 39204) by (nonlinear_arith)
            requires
                spec_opening_weight(sum) == 197,
        ;
    } else if sum == 9 {
        assert(1024 * 1024 * sum * sum * sum / 13824 == 55296) by (nonlinear_arith)
            requires
                sum == 9,
        ;
        assert(spec_opening_weight(sum) * spec_opening_weight(sum) == 55225 && (
        spec_opening_weight(sum) + 1) * (spec_opening_weight(sum) + 1) == 55696) by (nonlinear_arith)
            requires
                spec_opening_weight(sum) == 235,
        ;
    } else if sum == 10 {
        assert(1024 * 1024 * sum * sum * sum / 13824 == 75851) by (nonlinear_arith)
            requires
                sum == 10,
        ;
        assert(spec_opening_weight(sum) * spec_opening_weight(sum) == 75625 && (
        spec_opening_weight(sum) + 1) * (spec_opening_weight(sum) + 1) == 76176) by (nonlinear_arith)
            requires
                spec_opening_weight(sum) == 275,
        ;
    } else if sum == 11 {
        assert(1024 * 1024 * sum * sum * sum / 13824 == 100958) by (nonlinear_arith)
            requires
                sum == 11,
        ;
        assert(spec_opening_weight(sum) * spec_opening_weight(sum) == 100489 && (
        spec_opening_weight(sum) + 1) * (spec_opening_weight(sum) + 1) == 101124) by (nonlinear_arith)
            requires
                spec_opening_weight(sum) == 317,
        ;
    } else if sum == 12 {
        assert(1024 * 1024 * sum * sum * sum / 13824 == 131072) by (nonlinear_arith)
            requires
                sum == 12,
        ;
        assert(spec_opening_weight(sum) * spec_opening_weight(sum) == 131044 && (
        spec_opening_weight(sum) + 1) * (spec_opening_weight(sum) + 1) == 131769) by (nonlinear_arith)
            requires
                spec_opening_weight(sum) == 362,
        ;
    } else if sum == 13 {
        assert(1024 * 1024 * sum * sum * sum / 13824 == 166646) by (nonlinear_arith)
            requires
                sum == 13,
        ;
        assert(spec_opening_weight(sum) * spec_opening_weight(sum) == 166464 && (
        spec_opening_weight(sum) + 1) * (spec_opening_weight(sum) + 1) == 167281) by (nonlinear_arith)
            requires
                spec_opening_weight(sum) == 408,
        ;
    } else if sum == 14 {
        assert(1024 * 1024 * sum * sum * sum / 13824 == 208137) by (nonlinear_arith)
            requires
                sum == 14,
        ;
        assert(spec_opening_weight(sum) * spec_opening_weight(sum) == 207936 && (
        spec_opening_weight(sum) + 1) * (spec_opening_weight(sum) + 1) == 208849) by (nonlinear_arith)
            requires
                spec_opening_weight(sum) == 456,
        ;
    } else if sum == 15 {
        assert(1024 * 1024 * sum * sum * sum / 13824 == 256000) by (nonlinear_arith)
            requires
                sum == 15,
        ;
        assert(spec_opening_weight(sum) * spec_opening_weight(sum) == 255025 && (
        spec_opening_weight(sum) + 1) * (spec_opening_weight(sum) + 1) == 256036) by (nonlinear_arith)
            requires
                spec_opening_weight(sum) == 505,
        ;
    } else if sum == 16 {
        assert(1024 * 1024 * sum * sum * sum / 13824 == 310689) by (nonlinear_arith)
            requires
                sum == 16,
        ;
        assert(spec_opening_weight(sum) * spec_opening_weight(sum) == 310249 && (
        spec_opening_weight(sum) + 1) * (spec_opening_weight(sum) + 1) == 311364) by (nonlinear_arith)
            requires
                spec_opening_weight(sum) == 557,
        ;
    } else if sum == 17 {
        assert(1024 * 1024 * sum * sum * sum / 13824 == 372660) by (nonlinear_arith)
            requires
                sum == 17,
        ;
        assert(spec_opening_weight(sum) * spec_opening_weight(sum) == 372100 && (
        spec_opening_weight(sum) + 1) * (spec_opening_weight(sum) + 1) == 373321) by (nonlinear_arith)
            requires
                spec_opening_weight(sum) == 610,
        ;
    } else if sum == 18 {
        assert(1024 * 1024 * sum * sum * sum / 13824 == 442368) by (nonlinear_arith)
            requires
                sum == 18,
        ;
        assert(spec_opening_weight(sum) * spec_opening_weight(sum) == 442225 && (
        spec_opening_weight(sum) + 1) * (spec_opening_weight(sum) + 1) == 443556) by (nonlinear_arith)
            requires
                spec_opening_weight(sum) == 665,
        ;
    } else if sum == 19 {
        assert(1024 * 1024 * sum * sum * sum / 13824 == 520267) by (nonlinear_arith)
            requires
                sum == 19,
        ;
        assert(spec_opening_weight(sum) * spec_opening_weight(sum) == 519841 && (
        spec_opening_weight(sum) + 1) * (spec_opening_weight(sum) + 1) == 521284) by (nonlinear_arith)
            requires
                spec_opening_weight(sum) == 721,
        ;
    } else if sum == 20 {
        assert(1024 * 1024 * sum * sum * sum / 13824 == 606814) by (nonlinear_arith)
            requires
                sum == 20,
        ;
        assert(spec_opening_weight(sum) * spec_opening_weight(sum) == 605284 && (
        spec_opening_weight(sum) + 1) * (spec_opening_weight(sum) + 1) == 606841) by (nonlinear_arith)
            requires
                spec_opening_weight(sum) == 778,
        ;
    } else if sum == 21 {
        assert(1024 * 1024 * sum * sum * sum / 13824 == 702464) by (nonlinear_arith)
            requires
                sum == 21,
        ;
        assert(spec_opening_weight(sum) * spec_opening_weight(sum) == 702244 && (
        spec_opening_weight(sum) + 1) * (spec_opening_weight(sum) + 1) == 703921) by (nonlinear_arith)
            requires
                spec_opening_weight(sum) == 838,
        ;
    } else if sum == 22 {
        assert(1024 * 1024 * sum * sum * sum / 13824 == 807670) by (nonlinear_arith)
            requires
                sum == 22,
        ;
        assert(spec_opening_weight(sum) * spec_opening_weight(sum) == 806404 && (
        spec_opening_weight(sum) + 1) * (spec_opening_weight(sum) + 1) == 808201) by (nonlinear_arith)
            requires
                spec_opening_weight(sum) == 898,
        ;
    } else if sum == 23 {
        assert(1024 * 1024 * sum * sum * sum / 13824 == 922889) by (nonlinear_arith)
            requires
                sum == 23,
        ;
        assert(spec_opening_weight(sum) * spec_opening_weight(sum) == 921600 && (
        spec_opening_weight(sum) + 1) * (spec_opening_weight(sum) + 1) == 923521) by (nonlinear_arith)
            requires
                spec_opening_weight(sum) == 960,
        ;
    } else {
        assert(1024 * 1024 * sum * sum * sum / 13824 == 1048576) by (nonlinear_arith)
            requires
                sum == 24,
        ;
        assert(spec_opening_weight(sum) * spec_opening_weight(sum) == 1048576 && (
        spec_opening_weight(sum) + 1) * (spec_opening_weight(sum) + 1) == 1050625) by (nonlinear_arith)
            requires
                spec_opening_weight(sum) == 1024,
        ;
    }
}

/// The remaining-material sum of a board, added up.
pub fn material_sum(pieces: &Vec<PlacedPiece>) -> (s: u32)
    requires
        pieces@.len() <= 64,
    ensures
        s == spec_material_sum(pieces@),
{
    let mut sum: u32 = 0;
    let mut i: usize = 0;
    proof {
        lemma_material_sum_bounds(pieces@);
    }
    while i < pieces.len()
        invariant
            i <= pieces@.len() <= 64,
            sum == spec_material_sum(pieces@.take(i as int)),
            sum <= 4 * i,
        decreases pieces@.len() - i,
    {
        proof {
            lemma_material_sum_bounds(pieces@.take(i as int));
            assert(pieces@.take(i + 1).drop_last() =~= pieces@.take(i as int));
            assert(pieces@.take(i + 1).last() == pieces@[i as int]);
        }
        sum = sum + phase_weight(pieces[i].role);
        i = i + 1;
    }
    proof {
        assert(pieces@.take(pieces@.len() as int) =~= pieces@);
    }
    sum
}

/// The linear endgame measure, on the fixed-point scale: 0 with the
/// starting material on the board, `PHASE_SCALE` with none of it.
pub open spec fn spec_linear_endgame(sum: int) -> int {
    if sum >= 24 {
        0
    } else {
        1024 - 1024 * sum / 24
    }
}

/// How far a position has moved towards the endgame, on the
/// fixed-point scale: 0 at the start, `PHASE_SCALE` with only kings
/// and pawns left, strictly between otherwise.
pub fn calculate_phase(pos: &shakmaty::Chess) -> (v: i32)
    ensures
        v == spec_linear_endgame(spec_material_sum(crate::chess::board_of(*pos))),
        0 <= v <= PHASE_SCALE,
{
    let pieces = crate::chess::board_pieces(pos);
    let sum = material_sum(&pieces);
    proof {
        lemma_material_sum_bounds(pieces@);
        assert(4 * pieces@.len() <= 256);
    }
    if sum >= 24 {
        0
    } else {
        proof {
            assert(1024 * sum / 24 <= 1024) by (nonlinear_arith)
                requires
                    0 <= sum < 24,
            ;
        }
        1024 - (1024 * sum / 24) as i32
    }
}

/// How far the game has progressed from the opening towards the
/// endgame, as a fixed-point weight.
pub struct Phase {
    opening_q: i32,
}

impl Phase {
    /// The opening weight held by this phase, 0..=PHASE_SCALE.
    pub closed spec fn opening_weight(&self) -> int {
        self.opening_q as int
    }

    pub open spec fn wf(&self) -> bool {
        0 <= self.opening_weight() <= 1024
    }

    /// The phase of a board with the given remaining-material sum;
    /// sums above the starting 24 count as 24.
    pub fn from_sum(sum: u32) -> (p: Phase)
        ensures
            p.wf(),
            p.opening_weight() == spec_opening_weight(if sum > 24 {
                24int
            } else {
                sum as int
            }),
    {
        let s: u32 = if sum > 24 {
            24
        } else {
            sum
        };
        let w: i32 = if s == 0 {
            0
        } else if s == 1 {
            8
        } else if s == 2 {
            24
        } else if s == 3 {
            45
        } else if s == 4 {
            69
        } else if s == 5 {
            97
        } else if s == 6 {
            128
        } else if s == 7 {
            161
        } else if s == 8 {
            197
        } else if s == 9 {
            235
        } else if s == 10 {
            275
        } else if s == 11 {
            317
        } else if s == 12 {
            362
        } else if s == 13 {
            408
        } else if s == 14 {
            456
        } else if s == 15 {
            505
        } else if s == 16 {
            557
        } else if s == 17 {
            610
        } else if s == 18 {
            665
        } else if s == 19 {
            721
        } else if s == 20 {
            778
        } else if s == 21 {
            838
        } else if s == 22 {
            898
        } else if s == 23 {
            960
        } else {
            1024
        };
        Phase { opening_q: w }
    }

    /// The phase of a board: computed from its remaining material.
    pub fn of_pieces(pieces: &Vec<PlacedPiece>) -> (p: Phase)
        requires
            pieces@.len() <= 64,
        ensures
            p.wf(),
            p.opening_weight() == spec_opening_weight(if spec_material_sum(pieces@) > 24 {
                24int
            } else {
                spec_material_sum(pieces@)
            }),
    {
        Phase::from_sum(material_sum(pieces))
    }

    /// The phase of a position.
    pub fn new(pos: &shakmaty::Chess) -> (p: Phase)
        ensures
            p.wf(),
            p.opening_weight() == spec_opening_weight(
                if spec_material_sum(crate::chess::board_of(*pos)) > 24 {
                    24int
                } else {
                    spec_material_sum(crate::chess::board_of(*pos))
                },
            ),
    {
        let pieces = crate::chess::board_pieces(pos);
        Phase::of_pieces(&pieces)
    }

    /// How close the game still is to the opening:
    /// `PHASE_SCALE` at the start, 0 with only kings and pawns left.
    pub fn opening(&self) -> (w: i32)
        ensures
            w == self.opening_weight(),
    {
        self.opening_q
    }

    /// How close the game is to the endgame: the complement of
    /// [`Phase::opening`] within the scale.
    pub fn endgame(&self) -> (w: i32)
        requires
            self.wf(),
        ensures
            w == PHASE_SCALE - self.opening_weight(),
    {
        1024 - self.opening_q
    }
}

/// The phase weight at the boundaries and strictly between them:
/// the starting material gives a pure opening, bare kings and pawns
/// a pure endgame, and anything in between lies strictly inside.
pub proof fn lemma_phase_boundaries(sum: int)
    ensures
        sum <= 0 ==> spec_opening_weight(sum) == 0,
        sum >= 24 ==> spec_opening_weight(if sum > 24 {
            24int
        } else {
            sum
        }) == 1024,
        0 < sum < 24 ==> 0 < spec_opening_weight(sum) < 1024,
{
}

} // verus!
