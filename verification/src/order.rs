use vstd::prelude::*;

use crate::eval::{material_score, spec_material};
use crate::moves::EngineMove;
use vstd::seq_lib::to_multiset_update;

verus! {

/// How promising a move looks, before any search: higher is tried
/// first. Captures that promote come first, then plain promotions,
/// en passant, captures ranked by victim value minus attacker value,
/// castling, quiet moves, and piece drops last.
pub open spec fn spec_promise(m: EngineMove) -> int {
    match m {
        EngineMove::Normal { role, capture, promotion, .. } => {
            if capture is Some && promotion is Some {
                10000
            } else if promotion is Some {
                9000
            } else if capture is Some {
                7000 + spec_material(capture->0) - spec_material(role)
            } else {
                5000
            }
        },
        EngineMove::EnPassant { .. } => 8000,
        EngineMove::Castle { .. } => 6000,
        EngineMove::Put { .. } => 0,
    }
}

pub fn promise(m: &EngineMove) -> (v: i32)
    ensures
        v == spec_promise(*m),
{
    match m {
        EngineMove::Normal { role, capture, promotion, .. } => {
            match (capture, promotion) {
                (Some(_), Some(_)) => 10000,
                (None, Some(_)) => 9000,
                (Some(victim), None) => 7000 + material_score(*victim) - material_score(*role),
                (None, None) => 5000,
            }
        },
        EngineMove::EnPassant { .. } => 8000,
        EngineMove::Castle { .. } => 6000,
        EngineMove::Put { .. } => 0,
    }
}

/// The tail from `start` on is ordered by falling promise.
pub open spec fn tail_sorted(s: Seq<EngineMove>, start: int) -> bool {
    forall|i: int, j: int|
        start <= i <= j < s.len() ==> spec_promise(#[trigger] s[i]) >= spec_promise(#[trigger] s[j])
}

pub proof fn lemma_swap_multiset(s: Seq<EngineMove>, i: int, j: int)
    requires
        0 <= i < s.len(),
        0 <= j < s.len(),
        i != j,
    ensures
        s.update(i, s[j]).update(j, s[i]).to_multiset() == s.to_multiset(),
{
    broadcast use vstd::multiset::group_multiset_axioms;
    broadcast use vstd::seq_lib::group_to_multiset_ensures;

    let a = s[i];
    let b = s[j];
    let s1 = s.update(i, b);
    to_multiset_update(s, i, b);
    to_multiset_update(s1, j, a);
    assert(s1[j] == b);
    assert(s.to_multiset().count(a) > 0);
    assert(s1.to_multiset().count(b) > 0);
    assert(s1.update(j, a).to_multiset() =~= s.to_multiset());
}

/// Sorts the tail `moves[start_index..]` by falling promise; the
/// prefix `moves[..start_index]` is kept exactly as it was, and the
/// result holds the same moves as the input.
pub fn order(moves: Vec<EngineMove>, start_index: usize) -> (r: Vec<EngineMove>)
    requires
        start_index <= moves@.len(),
    ensures
        r@.len() == moves@.len(),
        r@.subrange(0, start_index as int) == moves@.subrange(0, start_index as int),
        r@.to_multiset() == moves@.to_multiset(),
        tail_sorted(r@, start_index as int),
{
    let mut r = moves;
    let ghost orig = r@;
    let len = r.len();
    let mut i: usize = start_index;
    while i < len
        invariant
            start_index <= i <= len == r@.len(),
            len == orig.len(),
            forall|k: int| 0 <= k < start_index ==> r@[k] == orig[k],
            r@.to_multiset() == orig.to_multiset(),
            forall|a: int, b: int|
                start_index <= a <= b < i ==> spec_promise(#[trigger] r@[a]) >= spec_promise(
                    #[trigger] r@[b],
                ),
            forall|a: int, b: int|
                start_index <= a < i <= b < len ==> spec_promise(#[trigger] r@[a]) >= spec_promise(
                    #[trigger] r@[b],
                ),
        decreases len - i,
    {
        // find the most promising move in the unsorted tail
        let mut best: usize = i;
        let mut j: usize = i + 1;
        while j < len
            invariant
                i <= best < j <= len == r@.len(),
                forall|k: int|
                    i <= k < j ==> spec_promise(r@[best as int]) >= spec_promise(#[trigger] r@[k]),
            decreases len - j,
        {
            if promise(&r[j]) > promise(&r[best]) {
                best = j;
            }
            j = j + 1;
        }
        let ghost before = r@;
        if best != i {
            let mi = r[i];
            let mb = r[best];
            r[i] = mb;
            r[best] = mi;
            proof {
                lemma_swap_multiset(before, i as int, best as int);
                assert(r@ == before.update(i as int, mb).update(best as int, mi));
            }
        }
        proof {
            assert forall|k: int| i < k < len implies spec_promise(r@[i as int]) >= spec_promise(
                #[trigger] r@[k],
            ) by {
                if best != i {
                    if k == best {
                        assert(r@[k] == before[i as int]);
                    } else {
                        assert(r@[k] == before[k]);
                    }
                } else {
                }
            }
            assert forall|a: int, b: int|
                start_index <= a < i + 1 <= b < len implies spec_promise(#[trigger] r@[a])
                >= spec_promise(#[trigger] r@[b]) by {
                if a < i {
                    assert(r@[a] == before[a]);
                    if best != i && b == best {
                        assert(r@[b] == before[i as int]);
                        assert(spec_promise(before[a]) >= spec_promise(before[i as int]));
                    } else {
                        assert(r@[b] == before[b]);
                    }
                }
            }
            assert forall|a: int, b: int|
                start_index <= a <= b < i + 1 implies spec_promise(#[trigger] r@[a])
                >= spec_promise(#[trigger] r@[b]) by {
                if a < i {
                    assert(r@[a] == before[a]);
                }
                if b < i {
                    assert(r@[b] == before[b]);
                }
            }
        }
        i = i + 1;
    }
    proof {
        assert(r@.subrange(0, start_index as int) =~= orig.subrange(0, start_index as int));
        assert(tail_sorted(r@, start_index as int));
    }
    r
}

} // verus!
