use vstd::prelude::*;

use crate::chess::{zobrist, zobrist_of};
use std::collections::HashMap;

verus! {

/// One opening-book move for a position, decoded from its two-byte
/// form: origin and target squares as plain numbers, the promotion
/// code (0 none, 1 knight, 2 bishop, 3 rook, 4 queen), and the
/// recorded weight.
#[derive(Clone, Copy, Debug, PartialEq, Eq, Structural)]
pub struct BookMove {
    pub from: u8,
    pub to: u8,
    pub promotion: u8,
    pub weight: u16,
}

/// The move encoded by the two big-endian move bytes and the two
/// big-endian weight bytes of a record: bits 0..6 the target square,
/// bits 6..12 the origin square, bits 12..16 the promotion code.
pub open spec fn spec_decode_book_move(b1: u8, b2: u8, w1: u8, w2: u8) -> BookMove {
    BookMove {
        from: (((((b1 as u16) << 8) | (b2 as u16)) >> 6) & 0x3F) as u8,
        to: ((((b1 as u16) << 8) | (b2 as u16)) & 0x3F) as u8,
        promotion: (((((b1 as u16) << 8) | (b2 as u16)) >> 12) & 0xF) as u8,
        weight: ((w1 as u16) << 8) | (w2 as u16),
    }
}

fn decode_book_move(b1: u8, b2: u8, w1: u8, w2: u8) -> (m: BookMove)
    ensures
        m == spec_decode_book_move(b1, b2, w1, w2),
        m.from < 64,
        m.to < 64,
        m.promotion < 16,
{
    let combined: u16 = ((b1 as u16) << 8u16) | (b2 as u16);
    let to: u8 = #[verifier::truncate] ((combined & 0x3F) as u8);
    let from: u8 = #[verifier::truncate] (((combined >> 6u16) & 0x3F) as u8);
    let promotion: u8 = #[verifier::truncate] (((combined >> 12u16) & 0xF) as u8);
    let weight: u16 = ((w1 as u16) << 8u16) | (w2 as u16);
    proof {
        let c = combined;
        assert(((c & 0x3F) as u8) < 64 && (((c >> 6u16) & 0x3F) as u8) < 64 && (((c >> 12u16)
            & 0xF) as u8) < 16) by (bit_vector);
    }
    BookMove { from, to, promotion, weight }
}

/// The big-endian 64-bit number held by eight bytes of `d` from
/// `off` on.
pub open spec fn spec_be_u64(d: Seq<u8>, off: int) -> u64 {
    ((d[off] as u64) << 56) | ((d[off + 1] as u64) << 48) | ((d[off + 2] as u64) << 40) | ((d[off
        + 3] as u64) << 32) | ((d[off + 4] as u64) << 24) | ((d[off + 5] as u64) << 16) | ((d[off
        + 6] as u64) << 8) | (d[off + 7] as u64)
}

/// The 16-byte records of a book file: a partial record at the end
/// is ignored.
pub open spec fn spec_record_count(data: Seq<u8>) -> int {
    data.len() as int / 16
}

pub open spec fn spec_record_key(data: Seq<u8>, i: int) -> u64 {
    spec_be_u64(data, 16 * i)
}

pub open spec fn spec_record_move(data: Seq<u8>, i: int) -> BookMove {
    spec_decode_book_move(data[16 * i + 8], data[16 * i + 9], data[16 * i + 10], data[16 * i + 11])
}

/// The book built from the first `n` records: each record appends
/// its move to the list of its position's key, in file order.
pub open spec fn spec_book(data: Seq<u8>, n: int) -> Map<u64, Seq<BookMove>>
    decreases (if n >= 0 { n } else { 0 }),
{
    if n <= 0 {
        Map::empty()
    } else {
        let m = spec_book(data, n - 1);
        let k = spec_record_key(data, n - 1);
        let prev = if m.contains_key(k) {
            m[k]
        } else {
            Seq::empty()
        };
        m.insert(k, prev.push(spec_record_move(data, n - 1)))
    }
}

/// An opening book: moves recorded for positions, keyed by the
/// position's 64-bit zobrist hash.
pub struct Book {
    positions: HashMap<u64, Vec<BookMove>>,
}

impl Book {
    /// The recorded moves, by position key.
    pub closed spec fn entries(&self) -> Map<u64, Seq<BookMove>> {
        self.positions@.map_values(|v: Vec<BookMove>| v@)
    }

    /// Reads a book from its binary form: 16-byte records holding a
    /// big-endian key, two big-endian move bytes, two big-endian
    /// weight bytes, and four ignored bytes. Trailing partial records
    /// are dropped.
    pub fn from_bytes(data: &[u8]) -> (b: Book)
        ensures
            b.entries() == spec_book(data@, spec_record_count(data@)),
    {
        broadcast use vstd::std_specs::hash::group_hash_axioms;

        let mut positions: HashMap<u64, Vec<BookMove>> = HashMap::new();
        let len: usize = data.len();
        let count: usize = len / 16;
        proof {
            assert(16 * count <= len) by (nonlinear_arith)
                requires
                    count == len / 16,
                    len >= 0,
            ;
        }
        let mut i: usize = 0;
        while i < count
            invariant
                i <= count == data@.len() / 16,
                len == data@.len(),
                16 * count <= len,
                vstd::std_specs::hash::obeys_key_model::<u64>(),
                vstd::std_specs::hash::builds_valid_hashers::<std::hash::RandomState>(),
                positions@.map_values(|v: Vec<BookMove>| v@) == spec_book(data@, i as int),
            decreases count - i,
        {
            let base: usize = 16 * i;
            let key: u64 = ((data[base] as u64) << 56u64) | ((data[base + 1] as u64) << 48u64) | ((
            data[base + 2] as u64) << 40u64) | ((data[base + 3] as u64) << 32u64) | ((data[base
                + 4] as u64) << 24u64) | ((data[base + 5] as u64) << 16u64) | ((data[base
                + 6] as u64) << 8u64) | (data[base + 7] as u64);
            let mv = decode_book_move(data[base + 8], data[base + 9], data[base + 10], data[base
                + 11]);
            let mut list: Vec<BookMove> = match positions.remove(&key) {
                Some(l) => l,
                None => Vec::new(),
            };
            list.push(mv);
            positions.insert(key, list);
            proof {
                assert(key == spec_record_key(data@, i as int));
                assert(mv == spec_record_move(data@, i as int));
                assert(positions@.map_values(|v: Vec<BookMove>| v@) =~= spec_book(
                    data@,
                    i + 1,
                ));
            }
            i = i + 1;
        }
        Book { positions }
    }

    /// The recorded moves for a position, in file order; empty when
    /// the book knows nothing of it.
    pub fn moves(&self, pos: &shakmaty::Chess) -> (r: Vec<BookMove>)
        ensures
            r@ == (if self.entries().contains_key(zobrist_of(*pos)) {
                self.entries()[zobrist_of(*pos)]
            } else {
                Seq::<BookMove>::empty()
            }),
    {
        broadcast use vstd::std_specs::hash::group_hash_axioms;

        let hash = zobrist(pos);
        let mut r: Vec<BookMove> = Vec::new();
        match self.positions.get(&hash) {
            None => r,
            Some(list) => {
                let mut j: usize = 0;
                while j < list.len()
                    invariant
                        j <= list@.len(),
                        r@ == list@.take(j as int),
                    decreases list@.len() - j,
                {
                    r.push(list[j]);
                    proof {
                        assert(r@ =~= list@.take(j + 1));
                    }
                    j = j + 1;
                }
                proof {
                    assert(list@.take(list@.len() as int) =~= list@);
                    assert(self.entries().contains_key(hash));
                    assert(self.entries()[hash] == list@);
                }
                r
            },
        }
    }
}

} // verus!
