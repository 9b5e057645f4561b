use vstd::prelude::*;

use crate::chess::{
    gameover_of, is_game_over, legal_moves, legal_of, play, play_of, zobrist, zobrist_of,
};
use crate::eval::{SCORE_MAX, SCORE_MIN};
use crate::moves::{
    EngineMove, find_move, lemma_all_contained_of_multiset, lemma_moves_wf_of_multiset, move_wf,
    moves_wf,
};
use crate::order::{lemma_swap_multiset, order};
use crate::quiescence::{QUIESCENCE_FUEL, quiescence, qvalue};
use crate::transposition::{
    Bound, FastTranspositionTable, TTEntry, lemma_store_lookup_round_trip, spec_lookup,
};
use crate::{SearchControl, SearchInfo};

verus! {

/// The deepest iteration the coordinator will run: with the
/// quiescence extension behind it, the ply counter stays within its
/// eight bits.
pub const MAX_SEARCH_DEPTH: u8 = 223;

/// Whether a stored entry settles a node searched with this window:
/// it must be at least as deep, and its bound must cut — an exact
/// score outright, a lower bound at or above beta, an upper bound at
/// or below alpha. A score below the floor never cuts: it could not
/// have come from a search and may not be negated.
pub open spec fn spec_probe_cuts(probe: Option<TTEntry>, depth: u8, alpha: i32, beta: i32) -> bool {
    probe matches Some(e) && probe->0.depth >= depth && probe->0.score >= SCORE_MIN && (
    probe->0.bound == Bound::Exact || (probe->0.bound == Bound::Lower && probe->0.score >= beta) || (
    probe->0.bound == Bound::Upper && probe->0.score <= alpha))
}

/// Alpha-beta negamax through the transposition table: probes the
/// table for an earlier result deep enough to cut off, searches the
/// successors best-first with the remembered move in front, extends
/// through captures at the horizon, and stores what it found.
///
/// The table may return results of other searches (and, rarely, of
/// other positions whose keys share a slot and fragment), so the
/// score is pinned only to the window; the exact-value reading of
/// the search belongs to the table-free form in [`crate::negamax`].
/// What is pinned: a cutting probe is returned as it stands and
/// changes nothing; a terminal node is the quiescence value clamped
/// to the window; and any other node leaves its slot holding the
/// returned score at this depth, under the bound rule, with a legal
/// best move.
pub fn negamax(
    pos: &shakmaty::Chess,
    depth: u8,
    alpha: i32,
    beta: i32,
    ply: u8,
    tt: &mut FastTranspositionTable,
    nodes: &mut u64,
    hash: u64,
) -> (r: i32)
    requires
        old(tt).wf(),
        SCORE_MIN <= alpha < beta <= SCORE_MAX,
        ply as int + depth as int + QUIESCENCE_FUEL as int <= 255,
        hash == zobrist_of(*pos),
    ensures
        final(tt).wf(),
        final(tt).size() == old(tt).size(),
        SCORE_MIN <= r <= SCORE_MAX,
        *final(nodes) >= *old(nodes),
        spec_probe_cuts(
            spec_lookup(old(tt).slots(), old(tt).size(), hash),
            depth,
            alpha,
            beta,
        ) ==> r == spec_lookup(old(tt).slots(), old(tt).size(), hash)->0.score && *final(tt)
            == *old(tt) && *final(nodes) == *old(nodes),
        !spec_probe_cuts(spec_lookup(old(tt).slots(), old(tt).size(), hash), depth, alpha, beta)
            && (depth == 0 || gameover_of(*pos)) ==> ({
            let q = qvalue(*pos, ply as int, QUIESCENCE_FUEL);
            &&& r == (if q <= alpha {
                alpha as int
            } else if q >= beta {
                beta as int
            } else {
                q
            })
            &&& *final(tt) == *old(tt)
            &&& *final(nodes) == (if *old(nodes) < u64::MAX {
                *old(nodes) + 1
            } else {
                *old(nodes) as int
            })
        }),
        !spec_probe_cuts(spec_lookup(old(tt).slots(), old(tt).size(), hash), depth, alpha, beta)
            && depth >= 1 && !gameover_of(*pos) ==> ({
            let stored = spec_lookup(final(tt).slots(), final(tt).size(), hash);
            &&& stored matches Some(e)
            &&& stored->0.score == r
            &&& stored->0.depth == depth
            &&& legal_of(*pos).contains(stored->0.best_move)
            &&& stored->0.bound == (if r <= alpha {
                Bound::Upper
            } else if r >= beta {
                Bound::Lower
            } else {
                Bound::Exact
            })
        }),
    decreases depth,
{
    let probe = tt.lookup(hash);
    if let Some(entry) = &probe {
        if entry.depth >= depth && entry.score >= SCORE_MIN {
            match entry.bound {
                Bound::Exact => {
                    return entry.score;
                },
                Bound::Lower => {
                    if entry.score >= beta {
                        return entry.score;
                    }
                },
                Bound::Upper => {
                    if entry.score <= alpha {
                        return entry.score;
                    }
                },
            }
        }
    }
    if *nodes < u64::MAX {
        *nodes = *nodes + 1;
    }
    if depth == 0 || is_game_over(pos) {
        return quiescence(pos, alpha, beta, ply, QUIESCENCE_FUEL);
    }
    let mut moves = legal_moves(pos);
    let ghost legal_seq = moves@;
    let mut start: usize = 0;
    if let Some(entry) = &probe {
        if let Some(idx) = find_move(&moves, &entry.best_move) {
            if idx != 0 {
                let ghost before = moves@;
                let m0 = moves[0];
                let mi = moves[idx];
                moves[0] = mi;
                moves[idx] = m0;
                proof {
                    lemma_swap_multiset(before, 0, idx as int);
                    assert(moves@ == before.update(0, mi).update(idx as int, m0));
                }
            }
            start = 1;
        }
    }
    let moves = order(moves, start);
    proof {
        lemma_moves_wf_of_multiset(legal_seq, moves@);
        lemma_all_contained_of_multiset(legal_seq, moves@);
    }
    let n = moves.len();
    let mut best_score: i32 = SCORE_MIN;
    let mut best_move: EngineMove = moves[0];
    let mut a: i32 = alpha;
    let mut i: usize = 0;
    while i < n
        invariant
            0 <= i <= n == moves@.len(),
            moves_wf(moves@),
            forall|k: int| 0 <= k < moves@.len() ==> legal_of(*pos).contains(#[trigger] moves@[k]),
            SCORE_MIN <= alpha <= a < beta <= SCORE_MAX,
            SCORE_MIN <= best_score <= SCORE_MAX,
            move_wf(best_move),
            legal_of(*pos).contains(best_move),
            ply as int + depth as int + QUIESCENCE_FUEL as int <= 255,
            depth >= 1,
            !gameover_of(*pos),
            !spec_probe_cuts(
                spec_lookup(old(tt).slots(), old(tt).size(), hash),
                depth,
                alpha,
                beta,
            ),
            hash == zobrist_of(*pos),
            tt.wf(),
            tt.size() == old(tt).size(),
            *nodes >= *old(nodes),
        decreases n - i,
    {
        let mv = moves[i];
        let child = play(pos, &mv);
        let child_hash = zobrist(&child);
        let child_score = negamax(&child, depth - 1, -beta, -a, ply + 1, tt, nodes, child_hash);
        let score = -child_score;
        if score > best_score {
            best_score = score;
            best_move = mv;
        }
        if score > a {
            a = score;
        }
        if a >= beta {
            // beta cutoff: the score is a lower bound on this node
            let ghost pre = tt.slots();
            tt.store(hash, best_score, depth, Bound::Lower, &best_move);
            proof {
                lemma_store_lookup_round_trip(
                    pre,
                    tt.size(),
                    hash,
                    best_move,
                    best_score,
                    depth,
                    Bound::Lower,
                );
                assert(best_score >= beta);
            }
            return best_score;
        }
        i = i + 1;
    }
    let bound = if best_score <= alpha {
        Bound::Upper
    } else if best_score >= beta {
        Bound::Lower
    } else {
        Bound::Exact
    };
    let ghost pre = tt.slots();
    tt.store(hash, best_score, depth, bound, &best_move);
    proof {
        lemma_store_lookup_round_trip(pre, tt.size(), hash, best_move, best_score, depth, bound);
    }
    best_score
}

/// A line of moves that can be played out from a position: each move
/// is legal in the position where it is played.
pub open spec fn line_playable(p: shakmaty::Chess, line: Seq<EngineMove>) -> bool
    decreases line.len(),
{
    line.len() == 0 || (legal_of(p).contains(line[0]) && line_playable(
        play_of(p, line[0]),
        line.drop_first(),
    ))
}

/// The position a line of legal moves leads to.
pub open spec fn play_line(p: shakmaty::Chess, line: Seq<EngineMove>) -> shakmaty::Chess
    decreases line.len(),
{
    if line.len() == 0 {
        p
    } else {
        play_line(play_of(p, line[0]), line.drop_first())
    }
}

/// Extending a playable line by a move that is legal at its end
/// keeps it playable and plays out to that move's successor.
proof fn lemma_line_push(p: shakmaty::Chess, line: Seq<EngineMove>, m: EngineMove)
    requires
        line_playable(p, line),
        legal_of(play_line(p, line)).contains(m),
    ensures
        line_playable(p, line.push(m)),
        play_line(p, line.push(m)) == play_of(play_line(p, line), m),
    decreases line.len(),
{
    if line.len() == 0 {
        assert(line.push(m)[0] == m);
        assert(line.push(m).drop_first() =~= Seq::<EngineMove>::empty());
        assert(play_line(p, line) == p);
        assert(line_playable(play_of(p, m), Seq::<EngineMove>::empty()));
        assert(line_playable(p, line.push(m)));
        assert(play_line(p, line.push(m)) == play_line(play_of(p, m), Seq::<EngineMove>::empty()));
    } else {
        assert(line.push(m)[0] == line[0]);
        assert(line.push(m).drop_first() =~= line.drop_first().push(m));
        lemma_line_push(play_of(p, line[0]), line.drop_first(), m);
        assert(line_playable(play_of(p, line[0]), line.push(m).drop_first()));
        assert(line_playable(p, line.push(m)));
        assert(play_line(p, line.push(m)) == play_line(
            play_of(p, line[0]),
            line.push(m).drop_first(),
        ));
    }
}

impl FastTranspositionTable {
    /// The principal variation: plays the given best move, then
    /// follows the stored best moves from position to position. The
    /// head is the given move; every later move is exactly what the
    /// table stores under the hash of the line so far. The walk
    /// stops when the depth is spent, the table has nothing, or a
    /// stored move is not legal where it would be played (a slot
    /// shared with another position can hand back a stranger's
    /// move).
    pub fn pv(&self, pos: &shakmaty::Chess, best_move: Option<EngineMove>, depth: u8) -> (r: Vec<
        EngineMove,
    >)
        requires
            self.wf(),
            best_move is Some ==> move_wf(best_move->0),
        ensures
            r@.len() <= depth,
            moves_wf(r@),
            line_playable(*pos, r@),
            depth >= 1 && best_move is Some && legal_of(*pos).contains(best_move->0) ==> r@.len()
                >= 1 && r@[0] == best_move->0,
            r@.len() == 0 ==> best_move is None || depth == 0 || !legal_of(*pos).contains(
                best_move->0,
            ),
            forall|i: int|
                1 <= i < r@.len() ==> Some(#[trigger] r@[i]) == self.stored_move(
                    zobrist_of(play_line(*pos, r@.take(i))),
                ),
            1 <= r@.len() < depth ==> (self.stored_move(zobrist_of(play_line(*pos, r@))) matches
            Some(m) ==> !legal_of(play_line(*pos, r@)).contains(m)),
    {
        let mv0 = match best_move {
            Some(m) => m,
            None => {
                return Vec::new();
            },
        };
        if depth == 0 {
            return Vec::new();
        }
        let first_legal = legal_moves(pos);
        if find_move(&first_legal, &mv0).is_none() {
            return Vec::new();
        }
        let mut pv: Vec<EngineMove> = Vec::new();
        pv.push(mv0);
        let mut cur = play(pos, &mv0);
        proof {
            lemma_line_push(*pos, Seq::<EngineMove>::empty(), mv0);
            assert(pv@ =~= Seq::<EngineMove>::empty().push(mv0));
        }
        let mut d = depth - 1;
        let mut next: Option<EngineMove> = if d == 0 {
            None
        } else {
            self.best_move(zobrist(&cur))
        };
        let mut done = false;
        while !done && d > 0
            invariant
                self.wf(),
                pv@.len() + d == depth,
                pv@.len() >= 1,
                pv@[0] == mv0,
                moves_wf(pv@),
                line_playable(*pos, pv@),
                cur == play_line(*pos, pv@),
                next is Some ==> move_wf(next->0),
                forall|i: int|
                    1 <= i < pv@.len() ==> Some(#[trigger] pv@[i]) == self.stored_move(
                        zobrist_of(play_line(*pos, pv@.take(i))),
                    ),
                !done && d > 0 ==> next == self.stored_move(zobrist_of(cur)),
                done ==> (self.stored_move(zobrist_of(cur)) matches Some(m) ==> !legal_of(
                    cur,
                ).contains(m)),
            decreases d, (if done {
                0int
            } else {
                1int
            }),
        {
            match next {
                None => {
                    done = true;
                },
                Some(mv) => {
                    let legal = legal_moves(&cur);
                    match find_move(&legal, &mv) {
                        None => {
                            done = true;
                        },
                        Some(_) => {
                            let ghost prefix = pv@;
                            proof {
                                lemma_line_push(*pos, pv@, mv);
                            }
                            pv.push(mv);
                            proof {
                                assert forall|i: int| 1 <= i < pv@.len() implies Some(
                                    #[trigger] pv@[i],
                                ) == self.stored_move(zobrist_of(play_line(*pos, pv@.take(i)))) by {
                                    assert(pv@.take(i) =~= prefix.take(i));
                                    if i == prefix.len() {
                                        assert(prefix.take(i) =~= prefix);
                                    }
                                }
                            }
                            cur = play(&cur, &mv);
                            d = d - 1;
                            if d > 0 {
                                next = self.best_move(zobrist(&cur));
                            }
                        },
                    }
                },
            }
        }
        pv
    }
}

/// The best move found so far, with its score.
#[derive(Clone, Copy)]
pub struct Best {
    pub move_: EngineMove,
    pub score: i32,
}

/// One search request being deepened iteration by iteration.
pub struct SearchSession {
    pub position: shakmaty::Chess,
    pub hash: u64,
    pub best: Best,
    pub next_depth: u8,
    pub max_depth: u8,
}

impl SearchSession {
    pub open spec fn wf(&self) -> bool {
        &&& move_wf(self.best.move_)
        &&& legal_of(self.position).contains(self.best.move_)
        &&& SCORE_MIN <= self.best.score <= SCORE_MAX
        &&& self.hash == zobrist_of(self.position)
        &&& 1 <= self.next_depth
        &&& self.max_depth <= MAX_SEARCH_DEPTH
    }

    /// Whether every requested iteration has run.
    pub fn finished(&self) -> (r: bool)
        ensures
            r == (self.next_depth > self.max_depth),
    {
        self.next_depth > self.max_depth
    }
}

/// One iteration of deepening in flight: the ordered root moves of
/// the session's position, how many of them have been searched, the
/// running best, and the nodes spent so far. The caller may poll
/// for interrupts and the clock between root moves.
pub struct RootSearch {
    pub depth: u8,
    pub moves: Vec<EngineMove>,
    pub next: usize,
    pub best: Best,
    pub nodes: u64,
}

impl RootSearch {
    /// Sound against its session: the right depth, root moves all
    /// legal, the running best a legal move with a score in range.
    pub open spec fn wf(&self, s: &SearchSession) -> bool {
        &&& self.depth == s.next_depth
        &&& 1 <= self.depth <= MAX_SEARCH_DEPTH
        &&& self.next <= self.moves@.len()
        &&& moves_wf(self.moves@)
        &&& (forall|k: int|
            0 <= k < self.moves@.len() ==> legal_of(s.position).contains(#[trigger] self.moves@[k]))
        &&& move_wf(self.best.move_)
        &&& legal_of(s.position).contains(self.best.move_)
        &&& SCORE_MIN <= self.best.score <= SCORE_MAX
    }

    /// Whether every root move of this iteration has been searched.
    pub fn finished(&self) -> (r: bool)
        ensures
            r == (self.next >= self.moves@.len()),
    {
        self.next >= self.moves.len()
    }
}

/// Runs search requests: owns the transposition table across
/// searches and deepens one session at a time, one root move at a
/// time. The caller decides between root moves and between
/// iterations whether time is spent or a command interrupts.
pub struct Searcher {
    tt: FastTranspositionTable,
}

impl Searcher {
    pub closed spec fn wf(&self) -> bool {
        self.tt.wf()
    }

    /// What a lookup of `key` in the owned table would find.
    pub closed spec fn table_view(&self, key: u64) -> Option<TTEntry> {
        spec_lookup(self.tt.slots(), self.tt.size(), key)
    }

    /// A searcher with a fresh table of `2^size_power` slots.
    pub fn new(size_power: u8) -> (s: Self)
        requires
            1 <= size_power < 32,
        ensures
            s.wf(),
            forall|key: u64| s.table_view(key) is None,
    {
        let tt = FastTranspositionTable::new(size_power);
        proof {
            crate::transposition::lemma_cleared_table_reads_empty(&tt);
        }
        Searcher { tt }
    }

    /// Forgets every stored entry: afterwards every lookup, under
    /// every key, reads empty.
    pub fn reset(&mut self)
        requires
            old(self).wf(),
        ensures
            final(self).wf(),
            forall|key: u64| final(self).table_view(key) is None,
    {
        self.tt.clear();
        proof {
            crate::transposition::lemma_cleared_table_reads_empty(&self.tt);
        }
    }

    /// Opens a session for a position with at least one legal move:
    /// the best move starts as the first legal one with the floor
    /// score, and iterations will run from depth 1 up to the depth
    /// the control asks for, capped at `MAX_SEARCH_DEPTH` — a time
    /// budget leaves the cap as the only limit, the caller's clock
    /// cutting the deepening short.
    pub fn begin(&self, position: shakmaty::Chess, control: &SearchControl) -> (s: SearchSession)
        requires
            legal_of(position).len() > 0,
        ensures
            s.wf(),
            s.next_depth == 1,
            s.position == position,
            s.best.move_ == legal_of(position)[0],
            s.best.score == SCORE_MIN,
            (*control) matches SearchControl::ToDepth(d) ==> s.max_depth == (if d
                > MAX_SEARCH_DEPTH {
                MAX_SEARCH_DEPTH
            } else {
                d
            }),
            (*control) matches SearchControl::TimeLimit(_) ==> s.max_depth == MAX_SEARCH_DEPTH,
    {
        let moves = legal_moves(&position);
        let hash = zobrist(&position);
        let max_depth = match control {
            SearchControl::ToDepth(d) => {
                if *d > MAX_SEARCH_DEPTH {
                    MAX_SEARCH_DEPTH
                } else {
                    *d
                }
            },
            SearchControl::TimeLimit(_) => MAX_SEARCH_DEPTH,
        };
        proof {
            assert(legal_of(position).contains(legal_of(position)[0]));
        }
        SearchSession {
            position,
            hash,
            best: Best { move_: moves[0], score: SCORE_MIN },
            next_depth: 1,
            max_depth,
        }
    }

    /// Lines up one iteration at the session's next depth: the legal
    /// moves of the position, with the table's remembered move in
    /// front and the rest ordered by promise, none searched yet, and
    /// the running best starting from the session's move at the
    /// floor score.
    pub fn begin_iteration(&self, s: &SearchSession) -> (rs: RootSearch)
        requires
            self.wf(),
            s.wf(),
            s.next_depth <= s.max_depth,
            legal_of(s.position).len() > 0,
        ensures
            rs.wf(s),
            rs.next == 0,
            rs.nodes == 0,
            rs.best.move_ == s.best.move_,
            rs.best.score == SCORE_MIN,
            rs.moves@.len() == legal_of(s.position).len(),
    {
        let mut moves = legal_moves(&s.position);
        let ghost legal_seq = moves@;
        let mut start: usize = 0;
        if let Some(hint) = self.tt.best_move(s.hash) {
            if let Some(idx) = find_move(&moves, &hint) {
                if idx != 0 {
                    let ghost before = moves@;
                    let m0 = moves[0];
                    let mi = moves[idx];
                    moves[0] = mi;
                    moves[idx] = m0;
                    proof {
                        lemma_swap_multiset(before, 0, idx as int);
                        assert(moves@ == before.update(0, mi).update(idx as int, m0));
                    }
                }
                start = 1;
            }
        }
        let moves = order(moves, start);
        proof {
            lemma_moves_wf_of_multiset(legal_seq, moves@);
            lemma_all_contained_of_multiset(legal_seq, moves@);
            broadcast use vstd::seq_lib::group_to_multiset_ensures;

        }
        RootSearch {
            depth: s.next_depth,
            moves,
            next: 0,
            best: Best { move_: s.best.move_, score: SCORE_MIN },
            nodes: 0,
        }
    }

    /// Searches the iteration's next root move, the window's floor
    /// rising with the running best: alpha stays at the score floor,
    /// beta is the negated best, an aspiration-like tightening at the
    /// root. When the best already stands at the score ceiling the
    /// remaining moves are skipped.
    pub fn search_root_move(&mut self, s: &SearchSession, rs: &mut RootSearch)
        requires
            old(self).wf(),
            s.wf(),
            old(rs).wf(s),
            old(rs).next < old(rs).moves@.len(),
        ensures
            final(self).wf(),
            final(rs).wf(s),
            final(rs).depth == old(rs).depth,
            final(rs).moves@ == old(rs).moves@,
            final(rs).next > old(rs).next,
            final(rs).nodes >= old(rs).nodes,
            final(rs).best.score >= old(rs).best.score,
            final(rs).best.move_ == old(rs).best.move_ || final(rs).best.move_
                == old(rs).moves@[old(rs).next as int],
    {
        let total = rs.moves.len();
        if rs.best.score == SCORE_MAX {
            // nothing can improve on the ceiling: skip the rest
            rs.next = total;
            return ;
        }
        let mv = rs.moves[rs.next];
        let child = play(&s.position, &mv);
        let child_hash = zobrist(&child);
        let mut nodes = rs.nodes;
        let child_score = negamax(
            &child,
            rs.depth - 1,
            SCORE_MIN,
            -rs.best.score,
            1,
            &mut self.tt,
            &mut nodes,
            child_hash,
        );
        rs.nodes = nodes;
        let score = -child_score;
        if score > rs.best.score {
            rs.best = Best { move_: mv, score };
        }
        rs.next = rs.next + 1;
    }

    /// Commits a finished iteration: the session takes over its
    /// best, the table keeps the root's record — the committed score
    /// at this depth, exact, with the committed move — and the
    /// caller gets the iteration's report, whose line of play starts
    /// with the committed move.
    pub fn finish_iteration(&mut self, s: &mut SearchSession, rs: &RootSearch) -> (info:
        SearchInfo)
        requires
            old(self).wf(),
            old(s).wf(),
            old(s).next_depth <= old(s).max_depth,
            rs.wf(old(s)),
            rs.next >= rs.moves@.len(),
        ensures
            final(self).wf(),
            final(s).wf(),
            final(s).position == old(s).position,
            final(s).hash == old(s).hash,
            final(s).max_depth == old(s).max_depth,
            final(s).next_depth == old(s).next_depth + 1,
            final(s).best == rs.best,
            final(self).table_view(old(s).hash) == Some(
                TTEntry {
                    score: rs.best.score,
                    depth: old(s).next_depth,
                    bound: Bound::Exact,
                    best_move: rs.best.move_,
                },
            ),
            info matches SearchInfo::Info { depth, ref pv, score, nodes } && depth == old(
                s,
            ).next_depth && pv@.len() <= depth && line_playable(old(s).position, pv@) && pv@.len()
                >= 1 && pv@[0] == rs.best.move_ && score == rs.best.score && nodes == rs.nodes,
    {
        let depth = s.next_depth;
        s.best = rs.best;
        let ghost pre = self.tt.slots();
        self.tt.store(s.hash, s.best.score, depth, Bound::Exact, &s.best.move_);
        proof {
            lemma_store_lookup_round_trip(
                pre,
                self.tt.size(),
                s.hash,
                s.best.move_,
                s.best.score,
                depth,
                Bound::Exact,
            );
        }
        let pv = self.tt.pv(&s.position, Some(s.best.move_), depth);
        s.next_depth = depth + 1;
        SearchInfo::Info { depth, pv, score: s.best.score, nodes: rs.nodes }
    }

    /// Runs one whole iteration of deepening: every root move at the
    /// session's next depth, then the commit. A caller that needs to
    /// poll between root moves drives [`Searcher::begin_iteration`],
    /// [`Searcher::search_root_move`] and [`Searcher::finish_iteration`]
    /// itself.
    pub fn iterate(&mut self, s: &mut SearchSession) -> (info: SearchInfo)
        requires
            old(self).wf(),
            old(s).wf(),
            old(s).next_depth <= old(s).max_depth,
            legal_of(old(s).position).len() > 0,
        ensures
            final(self).wf(),
            final(s).wf(),
            final(s).position == old(s).position,
            final(s).max_depth == old(s).max_depth,
            final(s).next_depth == old(s).next_depth + 1,
            legal_of(old(s).position).contains(final(s).best.move_),
            final(self).table_view(old(s).hash) == Some(
                TTEntry {
                    score: final(s).best.score,
                    depth: old(s).next_depth,
                    bound: Bound::Exact,
                    best_move: final(s).best.move_,
                },
            ),
            info matches SearchInfo::Info { depth, ref pv, score, nodes } && depth == old(
                s,
            ).next_depth && pv@.len() <= depth && line_playable(old(s).position, pv@) && pv@.len()
                >= 1 && pv@[0] == final(s).best.move_ && score == final(s).best.score,
    {
        let mut rs = self.begin_iteration(s);
        while rs.next < rs.moves.len()
            invariant
                self.wf(),
                s.wf(),
                s == old(s),
                rs.wf(s),
            decreases rs.moves@.len() - rs.next,
        {
            self.search_root_move(s, &mut rs);
        }
        self.finish_iteration(s, &rs)
    }
}

} // verus!
