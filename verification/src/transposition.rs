use vstd::prelude::*;

use crate::moves::{EngineMove, move_wf};
use crate::pack::{
    entry_wf, get_bound, get_depth, get_move, get_score, lemma_get_move_wf, lemma_pack_round_trip,
    matches_zobrist, pack, spec_get_bound, spec_get_depth, spec_get_move, spec_get_score,
    spec_matches_zobrist, spec_pack,
};

verus! {

/// How a stored score relates to the true search value of its node:
/// exact, a lower bound (fail-high), or an upper bound (fail-low).
#[derive(Clone, Copy, Debug, PartialEq, Eq, Structural, Hash)]
pub enum Bound {
    Exact,
    Lower,
    Upper,
}

/// The 2-bit encoding of a bound in a packed entry.
pub open spec fn spec_bound_index(b: Bound) -> u8 {
    match b {
        Bound::Exact => 0,
        Bound::Lower => 1,
        Bound::Upper => 2,
    }
}

#[verifier::when_used_as_spec(spec_bound_index)]
pub fn bound_index(b: Bound) -> (i: u8)
    ensures
        i == spec_bound_index(b),
{
    match b {
        Bound::Exact => 0,
        Bound::Lower => 1,
        Bound::Upper => 2,
    }
}

/// The bound encoded by a 2-bit value; 3 encodes nothing.
pub open spec fn spec_bound_of_index(i: u8) -> Option<Bound> {
    if i == 0 {
        Some(Bound::Exact)
    } else if i == 1 {
        Some(Bound::Lower)
    } else if i == 2 {
        Some(Bound::Upper)
    } else {
        None
    }
}

/// A fixed run of 128-bit atomic cells. Entries are read and written
/// whole, so a reader never sees half an entry.
#[verifier::external_body]
pub struct AtomicSlots {
    cells: Vec<portable_atomic::AtomicU128>,
}

/// The values held by the cells of a slot array.
pub uninterp spec fn slots_of(t: AtomicSlots) -> Seq<u128>;

impl AtomicSlots {
    /// Relies on `portable_atomic::AtomicU128::new`: a fresh array of
    /// zeroed cells.
    #[verifier::external_body]
    pub fn new(len: usize) -> (t: AtomicSlots)
        ensures
            slots_of(t) == Seq::new(len as nat, |i: int| 0u128),
    {
        let mut cells = Vec::with_capacity(len);
        for _ in 0..len {
            cells.push(portable_atomic::AtomicU128::new(0));
        }
        AtomicSlots { cells }
    }

    #[verifier::external_body]
    pub fn len(&self) -> (n: usize)
        ensures
            n == slots_of(*self).len(),
    {
        self.cells.len()
    }

    /// Relies on `portable_atomic::AtomicU128::load`: the value last
    /// stored in the cell, there being no other writer while it is
    /// borrowed here.
    #[verifier::external_body]
    pub fn load(&self, i: usize) -> (v: u128)
        requires
            i < slots_of(*self).len(),
        ensures
            v == slots_of(*self)[i as int],
    {
        self.cells[i].load(core::sync::atomic::Ordering::Relaxed)
    }

    /// Relies on `portable_atomic::AtomicU128::store`: writes one cell
    /// whole and leaves the others be.
    #[verifier::external_body]
    pub fn store(&mut self, i: usize, v: u128)
        requires
            i < slots_of(*old(self)).len(),
        ensures
            slots_of(*final(self)) == slots_of(*old(self)).update(i as int, v),
    {
        self.cells[i].store(v, core::sync::atomic::Ordering::Relaxed);
    }
}

/// A complete entry read back from the table.
#[derive(Clone, Copy, Debug, PartialEq, Eq, Structural)]
pub struct TTEntry {
    pub score: i32,
    pub depth: u8,
    pub bound: Bound,
    pub best_move: EngineMove,
}

/// The slot an entry for `key` lives in: the top `size_power` bits of
/// the key.
pub open spec fn spec_slot_index(key: u64, size_power: u8) -> int {
    (key >> ((64 - size_power) as u64)) as int
}

/// What a lookup of `key` finds in `slots`: the entry decoded from
/// the slot's cell, if the cell is neither empty nor holding another
/// key's fragment. An all-zero cell is empty; no packed entry is all
/// zero, since every packed move has a nonzero role or kind field.
pub open spec fn spec_lookup(slots: Seq<u128>, size_power: u8, key: u64) -> Option<TTEntry> {
    let e = slots[spec_slot_index(key, size_power)];
    if e != 0 && spec_matches_zobrist(e, key) {
        Some(
            TTEntry {
                score: spec_get_score(e),
                depth: spec_get_depth(e),
                bound: spec_get_bound(e)->0,
                best_move: spec_get_move(e)->0,
            },
        )
    } else {
        None
    }
}

proof fn lemma_slot_index_in_range(key: u64, size_power: u8)
    requires
        1 <= size_power < 32,
    ensures
        0 <= spec_slot_index(key, size_power) < (1u64 << size_power as u64),
        (1u64 << size_power as u64) <= 0x8000_0000,
{
    assert((key >> ((64 - size_power) as u64)) < (1u64 << size_power as u64) && (1u64
        << size_power as u64) <= 0x8000_0000) by (bit_vector)
        requires
            1 <= size_power < 32,
    ;
}

/// A fixed-size hash-indexed store of packed search results, keyed by
/// the 64-bit zobrist hash: `2^size_power` slots, each holding one
/// packed entry, indexed by the top bits of the key, always-replace
/// on store.
pub struct FastTranspositionTable {
    table: AtomicSlots,
    size_power: u8,
}

impl FastTranspositionTable {
    /// The packed entries of the table.
    pub closed spec fn slots(&self) -> Seq<u128> {
        slots_of(self.table)
    }

    /// The configured size exponent.
    pub closed spec fn size(&self) -> u8 {
        self.size_power
    }

    /// The table is intact: its length matches its exponent and every
    /// occupied slot decodes.
    pub open spec fn wf(&self) -> bool {
        &&& 1 <= self.size() < 32
        &&& self.slots().len() == (1u64 << self.size() as u64)
        &&& forall|i: int|
            0 <= i < self.slots().len() ==> (#[trigger] self.slots()[i] == 0 || entry_wf(
                self.slots()[i],
            ))
    }

    /// A fresh table of `2^size_power` empty slots.
    pub fn new(size_power: u8) -> (t: Self)
        requires
            1 <= size_power < 32,
        ensures
            t.wf(),
            t.size() == size_power,
            forall|i: int| 0 <= i < t.slots().len() ==> #[trigger] t.slots()[i] == 0,
    {
        let len: usize = 1usize << (size_power as usize);
        proof {
            assert((1usize << (size_power as usize)) == (1u64 << size_power as u64))
                by (bit_vector)
                requires
                    1 <= size_power < 32,
            ;
        }
        let table = AtomicSlots::new(len);
        FastTranspositionTable { table, size_power }
    }

    fn index(&self, key: u64) -> (i: usize)
        requires
            self.wf(),
        ensures
            i == spec_slot_index(key, self.size()),
            i < self.slots().len(),
    {
        proof {
            lemma_slot_index_in_range(key, self.size_power);
        }
        (key >> ((64 - self.size_power) as u64)) as usize
    }

    /// The entry stored for `key`, if its slot holds that key's
    /// fragment.
    pub fn lookup(&self, key: u64) -> (r: Option<TTEntry>)
        requires
            self.wf(),
        ensures
            r == spec_lookup(self.slots(), self.size(), key),
            r is Some ==> move_wf(r->0.best_move),
    {
        let index = self.index(key);
        let entry = self.table.load(index);
        if entry != 0 && matches_zobrist(entry, key) {
            proof {
                assert(entry_wf(entry));
                lemma_get_move_wf(entry);
            }
            Some(
                TTEntry {
                    score: get_score(entry),
                    depth: get_depth(entry),
                    bound: get_bound(entry),
                    best_move: get_move(entry),
                },
            )
        } else {
            None
        }
    }

    /// Unconditionally overwrites the slot of `key` with the packed
    /// record.
    pub fn store(&mut self, key: u64, score: i32, depth: u8, bound: Bound, best_move: &EngineMove)
        requires
            old(self).wf(),
            move_wf(*best_move),
        ensures
            final(self).wf(),
            final(self).size() == old(self).size(),
            final(self).slots() == old(self).slots().update(
                spec_slot_index(key, old(self).size()),
                spec_pack(key, *best_move, score, depth, bound),
            ),
    {
        let index = self.index(key);
        let packed = pack(key, best_move, score, depth, bound);
        proof {
            lemma_pack_round_trip(key, *best_move, score, depth, bound);
        }
        self.table.store(index, packed);
    }

    /// The best move of the entry stored for `key`, if its slot
    /// holds that key's fragment.
    pub open spec fn stored_move(&self, key: u64) -> Option<EngineMove> {
        match spec_lookup(self.slots(), self.size(), key) {
            Some(e) => Some(e.best_move),
            None => None,
        }
    }

    /// The stored best move for `key`, if any.
    pub fn best_move(&self, key: u64) -> (r: Option<EngineMove>)
        requires
            self.wf(),
        ensures
            r == self.stored_move(key),
            r is Some ==> move_wf(r->0),
    {
        match self.lookup(key) {
            Some(e) => Some(e.best_move),
            None => None,
        }
    }

    /// Zeroes every slot.
    pub fn clear(&mut self)
        requires
            old(self).wf(),
        ensures
            final(self).wf(),
            final(self).size() == old(self).size(),
            forall|i: int| 0 <= i < final(self).slots().len() ==> #[trigger] final(self).slots()[i] == 0,
    {
        let len = self.table.len();
        let mut i: usize = 0;
        while i < len
            invariant
                i <= len == self.slots().len(),
                self.size() == old(self).size(),
                self.wf(),
                forall|k: int| 0 <= k < i ==> #[trigger] self.slots()[k] == 0,
            decreases len - i,
        {
            self.table.store(i, 0);
            i = i + 1;
        }
    }
}

/// Round trip through a slot array: what was stored under a key is
/// exactly what a lookup of that key then finds, and a store under a
/// key whose slot differs changes nothing for this key.
pub proof fn lemma_store_lookup_round_trip(
    slots: Seq<u128>,
    size_power: u8,
    key: u64,
    m: EngineMove,
    score: i32,
    depth: u8,
    bound: Bound,
)
    requires
        1 <= size_power < 32,
        slots.len() == (1u64 << size_power as u64),
        move_wf(m),
    ensures
        spec_lookup(
            slots.update(spec_slot_index(key, size_power), spec_pack(key, m, score, depth, bound)),
            size_power,
            key,
        ) == Some(TTEntry { score, depth, bound, best_move: m }),
        forall|other: u64|
            spec_slot_index(other, size_power) != spec_slot_index(key, size_power)
                ==> spec_lookup(
                slots.update(
                    spec_slot_index(key, size_power),
                    spec_pack(key, m, score, depth, bound),
                ),
                size_power,
                other,
            ) == spec_lookup(slots, size_power, other),
{
    lemma_slot_index_in_range(key, size_power);
    lemma_pack_round_trip(key, m, score, depth, bound);
    assert forall|other: u64|
        spec_slot_index(other, size_power) != spec_slot_index(key, size_power)
            implies spec_lookup(
            slots.update(spec_slot_index(key, size_power), spec_pack(key, m, score, depth, bound)),
            size_power,
            other,
        ) == spec_lookup(slots, size_power, other) by {
        lemma_slot_index_in_range(other, size_power);
    }
}

/// Collision behavior: when two keys with distinct fragments share a
/// slot, a store under the second hides the first entirely — the
/// first key then reads empty, the second reads its own record.
pub proof fn lemma_collision_last_writer_wins(
    slots: Seq<u128>,
    size_power: u8,
    key1: u64,
    key2: u64,
    m: EngineMove,
    score: i32,
    depth: u8,
    bound: Bound,
)
    requires
        1 <= size_power < 32,
        slots.len() == (1u64 << size_power as u64),
        move_wf(m),
        spec_slot_index(key1, size_power) == spec_slot_index(key2, size_power),
        key1 & crate::pack::ZOBRIST_MASK != key2 & crate::pack::ZOBRIST_MASK,
    ensures
        spec_lookup(
            slots.update(
                spec_slot_index(key2, size_power),
                spec_pack(key2, m, score, depth, bound),
            ),
            size_power,
            key1,
        ) is None,
        spec_lookup(
            slots.update(
                spec_slot_index(key2, size_power),
                spec_pack(key2, m, score, depth, bound),
            ),
            size_power,
            key2,
        ) == Some(TTEntry { score, depth, bound, best_move: m }),
{
    lemma_slot_index_in_range(key2, size_power);
    lemma_pack_round_trip(key2, m, score, depth, bound);
    let e = spec_pack(key2, m, score, depth, bound);
    crate::pack::lemma_distinct_fragment_no_match(e, key1, key2);
    lemma_store_lookup_round_trip(slots, size_power, key2, m, score, depth, bound);
}

/// After a table is cleared, every lookup under every key reads
/// empty.
pub proof fn lemma_cleared_table_reads_empty(t: &FastTranspositionTable)
    requires
        t.wf(),
        forall|i: int| 0 <= i < t.slots().len() ==> #[trigger] t.slots()[i] == 0,
    ensures
        forall|key: u64| spec_lookup(t.slots(), t.size(), key) is None,
{
    assert forall|key: u64| spec_lookup(t.slots(), t.size(), key) is None by {
        lemma_slot_index_in_range(key, t.size());
    }
}

} // verus!
