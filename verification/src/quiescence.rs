use vstd::prelude::*;

use crate::chess::{capture_moves, captures_of, legal_of, play, play_of};
use crate::eval::{SCORE_MAX, SCORE_MIN, evaluate};
use crate::moves::{EngineMove, moves_wf};
use crate::negamax::spec_leaf_value;

verus! {

/// How many captures deep the quiescence extension may go. Real
/// capture sequences are far shorter: each capture removes a piece.
pub const QUIESCENCE_FUEL: u8 = 32;

/// The true quiescence value of a position: the better of standing
/// pat on the static evaluation and the best negated value of a
/// capture, while fuel lasts.
pub open spec fn qvalue(p: shakmaty::Chess, ply: int, fuel: u8) -> int
    decreases fuel, 1int, 0int,
{
    if fuel == 0 {
        spec_leaf_value(p, ply)
    } else {
        let caps = qcap_max(p, captures_of(p), captures_of(p).len() as int, ply, fuel);
        if spec_leaf_value(p, ply) > caps {
            spec_leaf_value(p, ply)
        } else {
            caps
        }
    }
}

/// The best negated quiescence value among the first `n` captures.
pub open spec fn qcap_max(
    p: shakmaty::Chess,
    moves: Seq<EngineMove>,
    n: int,
    ply: int,
    fuel: u8,
) -> int
    decreases fuel, 0int, (if n >= 0 { n } else { 0 }),
{
    if n <= 0 || fuel == 0 {
        SCORE_MIN as int
    } else {
        let rest = qcap_max(p, moves, n - 1, ply, fuel);
        let here = -qvalue(play_of(p, moves[n - 1]), ply + 1, (fuel - 1) as u8);
        if here > rest {
            here
        } else {
            rest
        }
    }
}

pub proof fn lemma_qvalue_range(p: shakmaty::Chess, ply: int, fuel: u8)
    ensures
        SCORE_MIN <= qvalue(p, ply, fuel) <= SCORE_MAX,
    decreases fuel, 1int, 0int,
{
    if fuel != 0 {
        lemma_qcap_max_range(p, captures_of(p), captures_of(p).len() as int, ply, fuel);
    }
}

proof fn lemma_qcap_max_range(p: shakmaty::Chess, moves: Seq<EngineMove>, n: int, ply: int, fuel: u8)
    ensures
        SCORE_MIN <= qcap_max(p, moves, n, ply, fuel) <= SCORE_MAX,
    decreases fuel, 0int, (if n >= 0 { n } else { 0 }),
{
    if n > 0 && fuel != 0 {
        lemma_qcap_max_range(p, moves, n - 1, ply, fuel);
        lemma_qvalue_range(play_of(p, moves[n - 1]), ply + 1, (fuel - 1) as u8);
    }
}

/// The quiescence search: extends the evaluation through capture
/// sequences so that a score is never read off in the middle of an
/// exchange. Fail-hard: the result is the true quiescence value
/// clamped into the `[alpha, beta]` window.
pub fn quiescence(pos: &shakmaty::Chess, alpha: i32, beta: i32, ply: u8, fuel: u8) -> (r: i32)
    requires
        SCORE_MIN <= alpha < beta <= SCORE_MAX,
        ply as int + fuel as int <= 255,
    ensures
        alpha <= r <= beta,
        r == ({
            let q = qvalue(*pos, ply as int, fuel);
            if q <= alpha {
                alpha as int
            } else if q >= beta {
                beta as int
            } else {
                q
            }
        }),
    decreases fuel,
{
    proof {
        lemma_qvalue_range(*pos, ply as int, fuel);
    }
    let ghost q = qvalue(*pos, ply as int, fuel);
    let stand_pat = evaluate(pos, ply);
    if stand_pat >= beta {
        proof {
            if fuel != 0 {
                assert(q >= spec_leaf_value(*pos, ply as int));
            }
        }
        return beta;
    }
    if fuel == 0 {
        if stand_pat > alpha {
            return stand_pat;
        } else {
            return alpha;
        }
    }
    let mut a: i32 = if stand_pat > alpha {
        stand_pat
    } else {
        alpha
    };
    let caps = capture_moves(pos);
    let n = caps.len();
    let mut i: usize = 0;
    while i < n
        invariant
            0 <= i <= n == caps@.len(),
            caps@ == captures_of(*pos),
            moves_wf(caps@),
            forall|k: int| 0 <= k < caps@.len() ==> legal_of(*pos).contains(#[trigger] caps@[k]),
            SCORE_MIN <= alpha <= a < beta <= SCORE_MAX,
            ply as int + fuel as int <= 255,
            fuel >= 1,
            stand_pat == spec_leaf_value(*pos, ply as int),
            stand_pat < beta,
            a as int == ({
                let partial = (if stand_pat as int > qcap_max(
                    *pos,
                    caps@,
                    i as int,
                    ply as int,
                    fuel,
                ) {
                    stand_pat as int
                } else {
                    qcap_max(*pos, caps@, i as int, ply as int, fuel)
                });
                if partial <= alpha {
                    alpha as int
                } else {
                    partial
                }
            }),
            qcap_max(*pos, caps@, i as int, ply as int, fuel) < beta,
        decreases n - i,
    {
        let mv = caps[i];
        let child = play(pos, &mv);
        let ghost qc = qvalue(play_of(*pos, mv), ply as int + 1, (fuel - 1) as u8);
        let child_score = quiescence(&child, -beta, -a, ply + 1, fuel - 1);
        let score = -child_score;
        proof {
            lemma_qvalue_range(play_of(*pos, mv), ply as int + 1, (fuel - 1) as u8);
            assert(qcap_max(*pos, caps@, i + 1, ply as int, fuel) == (if -qc > qcap_max(
                *pos,
                caps@,
                i as int,
                ply as int,
                fuel,
            ) {
                -qc
            } else {
                qcap_max(*pos, caps@, i as int, ply as int, fuel)
            }));
        }
        if score >= beta {
            proof {
                lemma_qcap_max_monotone(*pos, caps@, i + 1, n as int, ply as int, fuel);
            }
            return beta;
        }
        if score > a {
            a = score;
        }
        i = i + 1;
    }
    a
}

proof fn lemma_qcap_max_monotone(
    p: shakmaty::Chess,
    moves: Seq<EngineMove>,
    i: int,
    n: int,
    ply: int,
    fuel: u8,
)
    requires
        i <= n,
    ensures
        qcap_max(p, moves, i, ply, fuel) <= qcap_max(p, moves, n, ply, fuel),
    decreases (if n >= 0 { n } else { 0 }),
{
    if n > 0 && i < n {
        lemma_qcap_max_monotone(p, moves, i, n - 1, ply, fuel);
    }
}

} // verus!
