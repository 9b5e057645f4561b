use vstd::prelude::*;

use crate::chess::{
    board_of, checkmate_of, gameover_of, is_game_over, legal_moves, legal_of, play, play_of, turn_of,
};
use crate::eval::{SCORE_MAX, SCORE_MIN, evaluate, spec_evaluate};
use crate::moves::{EngineMove, move_wf, moves_wf};
use crate::order::order;

verus! {

/// The static evaluation of a position, clamped to the score range.
/// On a real board the evaluation already lies inside the range, so
/// the clamp changes nothing there.
pub open spec fn spec_leaf_value(p: shakmaty::Chess, ply: int) -> int {
    let v = spec_evaluate(checkmate_of(p), gameover_of(p), turn_of(p), board_of(p), ply as u8);
    if v < SCORE_MIN {
        SCORE_MIN as int
    } else if v > SCORE_MAX {
        SCORE_MAX as int
    } else {
        v
    }
}

/// The true negamax value of a position searched `depth` plies deep:
/// the clamped evaluation at the horizon or at the end of the game,
/// else the best of the negated values of the successor positions.
/// An empty move list leaves the floor `SCORE_MIN`.
pub open spec fn minimax(p: shakmaty::Chess, depth: u8, ply: int) -> int
    decreases depth, 1int, 0int,
{
    if depth == 0 || gameover_of(p) {
        spec_leaf_value(p, ply)
    } else {
        children_max(p, legal_of(p), legal_of(p).len() as int, depth, ply)
    }
}

/// The best negated child value among the first `n` moves of `moves`,
/// played from `p`; `SCORE_MIN` when no move has been seen.
pub open spec fn children_max(
    p: shakmaty::Chess,
    moves: Seq<EngineMove>,
    n: int,
    depth: u8,
    ply: int,
) -> int
    decreases depth, 0int, (if n >= 0 { n } else { 0 }),
{
    if n <= 0 || depth == 0 {
        SCORE_MIN as int
    } else {
        let rest = children_max(p, moves, n - 1, depth, ply);
        let here = -minimax(play_of(p, moves[n - 1]), (depth - 1) as u8, ply + 1);
        if here > rest {
            here
        } else {
            rest
        }
    }
}

/// Every searched value lies in the closed score range.
pub proof fn lemma_minimax_range(p: shakmaty::Chess, depth: u8, ply: int)
    ensures
        SCORE_MIN <= minimax(p, depth, ply) <= SCORE_MAX,
    decreases depth, 1int, 0int,
{
    if depth == 0 || gameover_of(p) {
    } else {
        lemma_children_max_range(p, legal_of(p), legal_of(p).len() as int, depth, ply);
    }
}

pub proof fn lemma_children_max_range(
    p: shakmaty::Chess,
    moves: Seq<EngineMove>,
    n: int,
    depth: u8,
    ply: int,
)
    ensures
        SCORE_MIN <= children_max(p, moves, n, depth, ply) <= SCORE_MAX,
    decreases depth, 0int, (if n >= 0 { n } else { 0 }),
{
    if n <= 0 || depth == 0 {
    } else {
        lemma_children_max_range(p, moves, n - 1, depth, ply);
        lemma_minimax_range(play_of(p, moves[n - 1]), (depth - 1) as u8, ply + 1);
    }
}

/// The running maximum only grows with more moves.
proof fn lemma_children_max_monotone(
    p: shakmaty::Chess,
    moves: Seq<EngineMove>,
    i: int,
    n: int,
    depth: u8,
    ply: int,
)
    requires
        i <= n,
    ensures
        children_max(p, moves, i, depth, ply) <= children_max(p, moves, n, depth, ply),
    decreases (if n >= 0 { n } else { 0 }),
{
    if n > 0 && i < n {
        lemma_children_max_monotone(p, moves, i, n - 1, depth, ply);
    }
}

/// The running maximum dominates each negated child value.
proof fn lemma_children_max_ge_each(
    p: shakmaty::Chess,
    moves: Seq<EngineMove>,
    n: int,
    depth: u8,
    ply: int,
    i: int,
)
    requires
        0 <= i < n,
        depth >= 1,
    ensures
        children_max(p, moves, n, depth, ply) >= -minimax(
            play_of(p, moves[i]),
            (depth - 1) as u8,
            ply + 1,
        ),
    decreases n,
{
    if i < n - 1 {
        lemma_children_max_ge_each(p, moves, n - 1, depth, ply, i);
    }
}

/// The running maximum is the floor or one of the negated child
/// values.
proof fn lemma_children_max_achieved(
    p: shakmaty::Chess,
    moves: Seq<EngineMove>,
    n: int,
    depth: u8,
    ply: int,
)
    requires
        depth >= 1,
    ensures
        children_max(p, moves, n, depth, ply) == SCORE_MIN || exists|i: int|
            0 <= i < n && children_max(p, moves, n, depth, ply) == -minimax(
                play_of(p, #[trigger] moves[i]),
                (depth - 1) as u8,
                ply + 1,
            ),
    decreases (if n >= 0 { n } else { 0 }),
{
    if n > 0 {
        lemma_children_max_achieved(p, moves, n - 1, depth, ply);
        let rest = children_max(p, moves, n - 1, depth, ply);
        let here = -minimax(play_of(p, moves[n - 1]), (depth - 1) as u8, ply + 1);
        if here > rest {
            assert(children_max(p, moves, n, depth, ply) == here);
        } else {
            if rest != SCORE_MIN {
                let i = choose|i: int|
                    0 <= i < n - 1 && rest == -minimax(
                        play_of(p, #[trigger] moves[i]),
                        (depth - 1) as u8,
                        ply + 1,
                    );
                assert(children_max(p, moves, n, depth, ply) == -minimax(
                    play_of(p, moves[i]),
                    (depth - 1) as u8,
                    ply + 1,
                ));
            }
        }
    }
}

/// Reordering the move list does not change the best child value.
pub proof fn lemma_children_max_permutation(
    p: shakmaty::Chess,
    s1: Seq<EngineMove>,
    s2: Seq<EngineMove>,
    depth: u8,
    ply: int,
)
    requires
        depth >= 1,
        s1.to_multiset() == s2.to_multiset(),
    ensures
        children_max(p, s1, s1.len() as int, depth, ply) == children_max(
            p,
            s2,
            s2.len() as int,
            depth,
            ply,
        ),
{
    broadcast use vstd::seq_lib::group_to_multiset_ensures;

    lemma_children_max_le_of_multiset(p, s1, s2, depth, ply);
    lemma_children_max_le_of_multiset(p, s2, s1, depth, ply);
}

proof fn lemma_children_max_le_of_multiset(
    p: shakmaty::Chess,
    s1: Seq<EngineMove>,
    s2: Seq<EngineMove>,
    depth: u8,
    ply: int,
)
    requires
        depth >= 1,
        s1.to_multiset() == s2.to_multiset(),
    ensures
        children_max(p, s1, s1.len() as int, depth, ply) <= children_max(
            p,
            s2,
            s2.len() as int,
            depth,
            ply,
        ),
{
    broadcast use vstd::seq_lib::group_to_multiset_ensures;

    let v1 = children_max(p, s1, s1.len() as int, depth, ply);
    lemma_children_max_achieved(p, s1, s1.len() as int, depth, ply);
    lemma_children_max_range(p, s2, s2.len() as int, depth, ply);
    if v1 != SCORE_MIN {
        let i = choose|i: int|
            0 <= i < s1.len() && v1 == -minimax(
                play_of(p, #[trigger] s1[i]),
                (depth - 1) as u8,
                ply + 1,
            );
        assert(s1.contains(s1[i]));
        assert(s1.to_multiset().count(s1[i]) > 0);
        assert(s2.contains(s1[i]));
        let j = choose|j: int| 0 <= j < s2.len() && s2[j] == s1[i];
        lemma_children_max_ge_each(p, s2, s2.len() as int, depth, ply, j);
    }
}

/// Alpha-beta negamax over the full game tree, without the
/// transposition table: the score and the line of play it expects.
///
/// The score relates to the true value `minimax(pos, depth, ply)` by
/// the usual fail-soft window reading: inside the window it is that
/// value itself; at or below `alpha` it is an upper bound on it; at
/// or above `beta` a lower bound. Over the full window the score is
/// the true value exactly.
pub fn negamax(
    pos: &shakmaty::Chess,
    depth: u8,
    alpha: i32,
    beta: i32,
    ply: u8,
    nodes: &mut u64,
) -> (r: (i32, Vec<EngineMove>))
    requires
        SCORE_MIN <= alpha < beta <= SCORE_MAX,
        ply as int + depth as int <= 255,
    ensures
        SCORE_MIN <= r.0 <= SCORE_MAX,
        r.1@.len() <= depth,
        moves_wf(r.1@),
        *final(nodes) >= *old(nodes),
        alpha < r.0 < beta ==> r.0 == minimax(*pos, depth, ply as int),
        r.0 <= alpha ==> minimax(*pos, depth, ply as int) <= r.0,
        r.0 >= beta ==> minimax(*pos, depth, ply as int) >= r.0,
        alpha == SCORE_MIN && beta == SCORE_MAX ==> r.0 == minimax(*pos, depth, ply as int),
    decreases depth,
{
    proof {
        lemma_minimax_range(*pos, depth, ply as int);
    }
    if *nodes < u64::MAX {
        *nodes = *nodes + 1;
    }
    if depth == 0 || is_game_over(pos) {
        let v = evaluate(pos, ply);
        return (v, Vec::new());
    }
    let legal = legal_moves(pos);
    let ghost legal_seq = legal@;
    let moves = order(legal, 0);
    proof {
        crate::moves::lemma_moves_wf_of_multiset(legal_seq, moves@);
        lemma_children_max_permutation(*pos, moves@, legal_seq, depth, ply as int);
    }
    let n = moves.len();
    let mut best_score: i32 = SCORE_MIN;
    let mut best_line: Vec<EngineMove> = Vec::new();
    let mut a: i32 = alpha;
    let mut i: usize = 0;
    while i < n
        invariant
            0 <= i <= n == moves@.len(),
            moves_wf(moves@),
            moves@.to_multiset() == legal_seq.to_multiset(),
            legal_seq == legal_of(*pos),
            depth >= 1,
            !gameover_of(*pos),
            ply as int + depth as int <= 255,
            SCORE_MIN <= alpha < beta <= SCORE_MAX,
            SCORE_MIN <= best_score < beta,
            a == (if best_score > alpha {
                best_score
            } else {
                alpha
            }),
            children_max(*pos, moves@, i as int, depth, ply as int) <= best_score,
            best_score <= (if alpha as int > children_max(*pos, moves@, i as int, depth, ply as int) {
                alpha as int
            } else {
                children_max(*pos, moves@, i as int, depth, ply as int)
            }),
            best_line@.len() <= depth,
            moves_wf(best_line@),
            *nodes >= *old(nodes),
        decreases n - i,
    {
        let mv = moves[i];
        proof {
            broadcast use vstd::seq_lib::group_to_multiset_ensures;

            assert(moves@.contains(mv));
            assert(moves@.to_multiset().count(mv) > 0);
            assert(legal_seq.contains(mv));
        }
        let new_pos = play(pos, &mv);
        let (child_score, child_line) = negamax(
            &new_pos,
            depth - 1,
            -beta,
            -a,
            ply + 1,
            nodes,
        );
        let score = -child_score;
        let ghost tc = minimax(play_of(*pos, mv), (depth - 1) as u8, ply as int + 1);
        proof {
            lemma_minimax_range(play_of(*pos, mv), (depth - 1) as u8, ply as int + 1);
            // the fail-soft facts from the child, negated
            if -beta < child_score < -a {
                assert(score == -tc);
            } else if child_score <= -beta {
                assert(tc <= child_score);
                assert(score >= beta);
                assert(-tc >= score);
            } else {
                assert(child_score >= -a);
                assert(tc >= child_score);
                assert(-tc <= score <= a);
            }
            assert(children_max(*pos, moves@, i + 1, depth, ply as int) == (if -tc > children_max(
                *pos,
                moves@,
                i as int,
                depth,
                ply as int,
            ) {
                -tc
            } else {
                children_max(*pos, moves@, i as int, depth, ply as int)
            }));
        }
        if score > best_score {
            best_score = score;
            let mut line: Vec<EngineMove> = Vec::new();
            line.push(mv);
            let mut rest = child_line;
            line.append(&mut rest);
            best_line = line;
        }
        if score > a {
            a = score;
        }
        i = i + 1;
        if a >= beta {
            // beta cutoff: the remaining moves can only raise the true
            // value further
            proof {
                lemma_children_max_monotone(*pos, moves@, i as int, n as int, depth, ply as int);
                lemma_children_max_permutation(*pos, moves@, legal_seq, depth, ply as int);
                assert(best_score >= beta);
                assert(children_max(*pos, moves@, i as int, depth, ply as int) >= best_score);
                assert(minimax(*pos, depth, ply as int) >= best_score);
                if alpha == SCORE_MIN && beta == SCORE_MAX {
                    assert(best_score == SCORE_MAX);
                    lemma_minimax_range(*pos, depth, ply as int);
                }
            }
            return (best_score, best_line);
        }
        proof {
            lemma_children_max_monotone(*pos, moves@, i - 1, i as int, depth, ply as int);
        }
    }
    proof {
        lemma_children_max_permutation(*pos, moves@, legal_seq, depth, ply as int);
    }
    (best_score, best_line)
}

} // verus!
