use vstd::prelude::*;

use crate::moves::{EngineMove, PieceKind, move_wf, role_index, role_of_index, spec_role_index, spec_role_of_index};
use crate::transposition::{Bound, bound_index, spec_bound_index, spec_bound_of_index};

verus! {

/// A packed 128-bit transposition-table entry.
///
/// Layout, low bit to high bit:
/// - bits 0..23: the packed move (promotion 3, to 6, capture 3, from 6,
///   role 3, move type 2),
/// - bits 30..32: the bound,
/// - bits 32..64: the score (two's complement),
/// - bits 64..72: the depth,
/// - bits 80..128: the upper 48 bits of the zobrist key.
pub type PackedRep = u128;

/// The key bits kept in an entry: the upper 48 of the 64-bit zobrist key.
pub const ZOBRIST_MASK: u64 = 0xFFFF_FFFF_FFFF_0000;

/// Numeric value of an optional role: 0 when absent, 1..7 otherwise.
pub open spec fn spec_opt_role_index(o: Option<PieceKind>) -> u8 {
    match o {
        Some(r) => spec_role_index(r),
        None => 0,
    }
}

fn opt_role_index(o: Option<PieceKind>) -> (i: u8)
    ensures
        i == spec_opt_role_index(o),
{
    match o {
        Some(r) => role_index(r),
        None => 0,
    }
}

/// The optional role encoded by a 3-bit value; 7 encodes nothing.
pub open spec fn spec_opt_role_of_index(i: u8) -> Option<Option<PieceKind>> {
    if i == 0 {
        Some(None)
    } else {
        match spec_role_of_index(i) {
            Some(r) => Some(Some(r)),
            None => None,
        }
    }
}

/// The low 23 bits of an entry: the move.
pub open spec fn move_bits(m: EngineMove) -> u128 {
    match m {
        EngineMove::Normal { role, from, capture, to, promotion } => ((spec_role_index(role) as u128)
            << 18) | ((from as u128) << 12) | ((spec_opt_role_index(capture) as u128) << 9) | ((
        to as u128) << 3) | (spec_opt_role_index(promotion) as u128),
        EngineMove::EnPassant { from, to } => (1u128 << 21) | ((from as u128) << 12) | ((to as u128)
            << 3),
        EngineMove::Castle { king, rook } => (2u128 << 21) | ((king as u128) << 12) | ((rook as u128)
            << 3),
        EngineMove::Put { role, to } => (3u128 << 21) | ((spec_role_index(role) as u128) << 18) | ((
        to as u128) << 3),
    }
}

/// The score field of an entry: the two's-complement image of an `i32`
/// in the low 32 bits.
pub open spec fn score_bits(s: i32) -> u128 {
    if s >= 0 {
        s as u128
    } else {
        (s + 0x1_0000_0000) as u128
    }
}

/// The `i32` encoded by the low 32 bits of `b`.
pub open spec fn score_of_bits(b: u128) -> i32 {
    let low = b & 0xFFFF_FFFF;
    if low < 0x8000_0000 {
        low as i32
    } else {
        (low - 0x1_0000_0000) as i32
    }
}

/// A whole packed entry.
pub open spec fn spec_pack(zobrist: u64, m: EngineMove, score: i32, depth: u8, bound: Bound) -> u128 {
    (((zobrist & ZOBRIST_MASK) as u128) << 64) | ((depth as u128) << 64) | (score_bits(score)
        << 32) | ((spec_bound_index(bound) as u128) << 30) | move_bits(m)
}

pub open spec fn spec_get_depth(e: u128) -> u8 {
    ((e >> 64) & 0xFF) as u8
}

pub open spec fn spec_get_score(e: u128) -> i32 {
    score_of_bits(e >> 32)
}

/// The bound field of an entry, as a 2-bit value.
pub open spec fn bound_field(e: u128) -> u8 {
    ((e >> 30) & 0b11) as u8
}

pub open spec fn spec_get_bound(e: u128) -> Option<Bound> {
    spec_bound_of_index(bound_field(e))
}

/// The move encoded in the low bits of an entry, when those bits are
/// well formed: the role fields must name real roles.
pub open spec fn spec_get_move(e: u128) -> Option<EngineMove> {
    let tp = ((e >> 21) & 0b11) as u8;
    let role = ((e >> 18) & 0b111) as u8;
    let from = ((e >> 12) & 0b111111) as u8;
    let capture = ((e >> 9) & 0b111) as u8;
    let to = ((e >> 3) & 0b111111) as u8;
    let promotion = (e & 0b111) as u8;
    if tp == 0 {
        match (spec_role_of_index(role), spec_opt_role_of_index(capture), spec_opt_role_of_index(
            promotion,
        )) {
            (Some(r), Some(c), Some(p)) => Some(
                EngineMove::Normal { role: r, from, capture: c, to, promotion: p },
            ),
            _ => None,
        }
    } else if tp == 1 {
        Some(EngineMove::EnPassant { from, to })
    } else if tp == 2 {
        Some(EngineMove::Castle { king: from, rook: to })
    } else {
        match spec_role_of_index(role) {
            Some(r) => Some(EngineMove::Put { role: r, to }),
            None => None,
        }
    }
}

/// An entry whose move and bound fields decode.
pub open spec fn entry_wf(e: u128) -> bool {
    spec_get_move(e) is Some && spec_get_bound(e) is Some
}

#[inline(always)]
fn set_zobrist(entry: &mut PackedRep, zobrist: u64)
    ensures
        *final(entry) == *old(entry) | (((zobrist & ZOBRIST_MASK) as u128) << 64),
{
    *entry = *entry | (((zobrist & ZOBRIST_MASK) as u128) << 64);
}

/// Whether the key fragment stored in `entry` is that of `zobrist`.
pub fn matches_zobrist(entry: PackedRep, zobrist: u64) -> (r: bool)
    ensures
        r == spec_matches_zobrist(entry, zobrist),
{
    let a_zobrist: u64 = (#[verifier::truncate] ((entry >> 64) as u64)) & ZOBRIST_MASK;
    let b_zobrist: u64 = zobrist & ZOBRIST_MASK;
    a_zobrist == b_zobrist
}

pub open spec fn spec_matches_zobrist(entry: u128, zobrist: u64) -> bool {
    (((entry >> 64) as u64) & ZOBRIST_MASK) == (zobrist & ZOBRIST_MASK)
}

pub fn set_depth(entry: &mut PackedRep, depth: u8)
    ensures
        *final(entry) == *old(entry) | ((depth as u128) << 64),
{
    *entry = *entry | ((depth as u128) << 64);
}

pub fn get_depth(entry: PackedRep) -> (d: u8)
    ensures
        d == spec_get_depth(entry),
{
    proof {
        assert((entry >> 64) as u8 == ((entry >> 64) & 0xFF) as u8) by (bit_vector);
    }
    #[verifier::truncate] ((entry >> 64) as u8)
}

pub fn set_score(entry: &mut PackedRep, score: i32)
    ensures
        *final(entry) == *old(entry) | (score_bits(score) << 32),
{
    let bits: u128 = (#[verifier::truncate] (score as u128)) & 0xFFFF_FFFF;
    proof {
        assert(((score as u128) & 0xFFFF_FFFF) == (if score >= 0 {
            score as u128
        } else {
            (score + 0x1_0000_0000) as u128
        })) by (bit_vector);
    }
    *entry = *entry | (bits << 32);
}

pub fn get_score(entry: PackedRep) -> (s: i32)
    ensures
        s == spec_get_score(entry),
{
    proof {
        let shifted = entry >> 32;
        let low = shifted & 0xFFFF_FFFF;
        assert(shifted as i32 == (if low < 0x8000_0000 {
            low as i32
        } else {
            (low - 0x1_0000_0000) as i32
        })) by (bit_vector)
            requires
                shifted == entry >> 32,
                low == shifted & 0xFFFF_FFFF,
        ;
    }
    #[verifier::truncate] ((entry >> 32) as i32)
}

pub fn set_bound(entry: &mut PackedRep, bound: Bound)
    ensures
        *final(entry) == *old(entry) | ((spec_bound_index(bound) as u128) << 30),
{
    let i = bound_index(bound);
    *entry = *entry | ((i as u128) << 30);
}

/// The bound of an entry. The two bits must not hold the unused pattern.
pub fn get_bound(entry: PackedRep) -> (b: Bound)
    requires
        spec_get_bound(entry) is Some,
    ensures
        Some(b) == spec_get_bound(entry),
{
    let field: u8 = #[verifier::truncate] (((entry >> 30) & 0b11) as u8);
    proof {
        assert(((entry >> 30) & 0b11) as u8 == bound_field(entry)) by (bit_vector);
        assert(bound_field(entry) < 4) by (bit_vector);
    }
    if field == 0 {
        Bound::Exact
    } else if field == 1 {
        Bound::Lower
    } else {
        Bound::Upper
    }
}

#[inline(always)]
fn set_move(entry: &mut PackedRep, mv: &EngineMove)
    requires
        move_wf(*mv),
    ensures
        *final(entry) == *old(entry) | move_bits(*mv),
{
    let bits: u128 = match mv {
        EngineMove::Normal { role, from, capture, to, promotion } => ((role_index(*role) as u128) << 18)
            | ((*from as u128) << 12) | ((opt_role_index(*capture) as u128) << 9) | ((*to as u128)
            << 3) | (opt_role_index(*promotion) as u128),
        EngineMove::EnPassant { from, to } => (1u128 << 21) | ((*from as u128) << 12) | ((*to as u128)
            << 3),
        EngineMove::Castle { king, rook } => (2u128 << 21) | ((*king as u128) << 12) | ((*rook as u128)
            << 3),
        EngineMove::Put { role, to } => (3u128 << 21) | ((role_index(*role) as u128) << 18) | ((
        *to as u128) << 3),
    };
    *entry = *entry | bits;
}

/// Packs a whole transposition-table record into its 128-bit form.
pub fn pack(zobrist: u64, mv: &EngineMove, score: i32, depth: u8, bound: Bound) -> (r: PackedRep)
    requires
        move_wf(*mv),
    ensures
        r == spec_pack(zobrist, *mv, score, depth, bound),
{
    let mut entry: PackedRep = 0;

    set_zobrist(&mut entry, zobrist);
    set_depth(&mut entry, depth);
    set_score(&mut entry, score);
    set_bound(&mut entry, bound);
    set_move(&mut entry, mv);

    proof {
        let a = ((zobrist & ZOBRIST_MASK) as u128) << 64;
        assert(0u128 | a == a) by (bit_vector);
    }
    entry
}

/// The move stored in an entry whose move bits decode.
pub fn get_move(entry: PackedRep) -> (m: EngineMove)
    requires
        spec_get_move(entry) is Some,
    ensures
        Some(m) == spec_get_move(entry),
{
    let tp: u8 = #[verifier::truncate] (((entry >> 21) & 0b11) as u8);
    let role: u8 = #[verifier::truncate] (((entry >> 18) & 0b111) as u8);
    let from: u8 = #[verifier::truncate] (((entry >> 12) & 0b111111) as u8);
    let capture: u8 = #[verifier::truncate] (((entry >> 9) & 0b111) as u8);
    let to: u8 = #[verifier::truncate] (((entry >> 3) & 0b111111) as u8);
    let promotion: u8 = #[verifier::truncate] ((entry & 0b111) as u8);
    proof {
        assert((((entry >> 21) & 0b11) as u8) == (((entry >> 21) & 0b11) as u8) && (((entry >> 21)
            & 0b11) as u8) < 4 && (((entry >> 18) & 0b111) as u8) < 8 && (((entry >> 12) & 0b111111)
            as u8) < 64 && (((entry >> 9) & 0b111) as u8) < 8 && (((entry >> 3) & 0b111111) as u8)
            < 64 && ((entry & 0b111) as u8) < 8) by (bit_vector);
    }
    if tp == 0 {
        let r = role_of_index(role).unwrap();
        let c = opt_role_of_index(capture).unwrap();
        let p = opt_role_of_index(promotion).unwrap();
        EngineMove::Normal { role: r, from, capture: c, to, promotion: p }
    } else if tp == 1 {
        EngineMove::EnPassant { from, to }
    } else if tp == 2 {
        EngineMove::Castle { king: from, rook: to }
    } else {
        let r = role_of_index(role).unwrap();
        EngineMove::Put { role: r, to }
    }
}

fn opt_role_of_index(i: u8) -> (r: Option<Option<PieceKind>>)
    ensures
        r == spec_opt_role_of_index(i),
{
    if i == 0 {
        Some(None)
    } else {
        match role_of_index(i) {
            Some(r) => Some(Some(r)),
            None => None,
        }
    }
}

proof fn lemma_opt_role_round_trip(o: Option<PieceKind>)
    ensures
        spec_opt_role_of_index(spec_opt_role_index(o)) == Some(o),
{
}

/// The bounds of a packed move: it fits in the low 23 bits, and a
/// packed move is never zero (a normal move carries a 1-based role,
/// and every other kind carries a nonzero type tag).
proof fn lemma_move_bits_range(m: EngineMove)
    requires
        move_wf(m),
    ensures
        move_bits(m) < 0x800000,
        move_bits(m) != 0,
{
    match m {
        EngineMove::Normal { role, from, capture, to, promotion } => {
            let ri = spec_role_index(role);
            let f = from;
            let ci = spec_opt_role_index(capture);
            let t = to;
            let pi = spec_opt_role_index(promotion);
            assert(((ri as u128) << 18) | ((f as u128) << 12) | ((ci as u128) << 9) | ((t as u128)
                << 3) | (pi as u128) < 0x800000 && ((ri as u128) << 18) | ((f as u128) << 12) | ((
            ci as u128) << 9) | ((t as u128) << 3) | (pi as u128) != 0) by (bit_vector)
                requires
                    1 <= ri <= 6,
                    f < 64,
                    ci <= 6,
                    t < 64,
                    pi <= 6,
            ;
        },
        EngineMove::EnPassant { from, to } => {
            let f = from;
            let t = to;
            assert((1u128 << 21) | ((f as u128) << 12) | ((t as u128) << 3) < 0x800000 && (1u128
                << 21) | ((f as u128) << 12) | ((t as u128) << 3) != 0) by (bit_vector)
                requires
                    f < 64,
                    t < 64,
            ;
        },
        EngineMove::Castle { king, rook } => {
            let f = king;
            let t = rook;
            assert((2u128 << 21) | ((f as u128) << 12) | ((t as u128) << 3) < 0x800000 && (2u128
                << 21) | ((f as u128) << 12) | ((t as u128) << 3) != 0) by (bit_vector)
                requires
                    f < 64,
                    t < 64,
            ;
        },
        EngineMove::Put { role, to } => {
            let ri = spec_role_index(role);
            let t = to;
            assert((3u128 << 21) | ((ri as u128) << 18) | ((t as u128) << 3) < 0x800000 && (3u128
                << 21) | ((ri as u128) << 18) | ((t as u128) << 3) != 0) by (bit_vector)
                requires
                    1 <= ri <= 6,
                    t < 64,
            ;
        },
    }
}

/// Round trip: every field of a packed entry reads back exactly, the
/// key fragment matches, and the entry is nonzero and well formed.
pub proof fn lemma_pack_round_trip(zobrist: u64, m: EngineMove, score: i32, depth: u8, bound: Bound)
    requires
        move_wf(m),
    ensures
        spec_get_depth(spec_pack(zobrist, m, score, depth, bound)) == depth,
        spec_get_score(spec_pack(zobrist, m, score, depth, bound)) == score,
        spec_get_bound(spec_pack(zobrist, m, score, depth, bound)) == Some(bound),
        spec_get_move(spec_pack(zobrist, m, score, depth, bound)) == Some(m),
        spec_matches_zobrist(spec_pack(zobrist, m, score, depth, bound), zobrist),
        spec_pack(zobrist, m, score, depth, bound) != 0,
        entry_wf(spec_pack(zobrist, m, score, depth, bound)),
{
    let e = spec_pack(zobrist, m, score, depth, bound);
    let mb = move_bits(m);
    let sb = score_bits(score);
    let bi = spec_bound_index(bound);
    lemma_move_bits_range(m);
    assert(sb < 0x1_0000_0000);
    assert(bi <= 2);
    assert((((e >> 64) & 0xFF) as u8) == depth && ((e >> 32) & 0xFFFF_FFFF) == (sb & 0xFFFF_FFFF)
        && (((e >> 30) & 0b11) as u8) == bi && ((e >> 21) & 0b11) == ((mb >> 21) & 0b11) && ((e
        >> 18) & 0b111) == ((mb >> 18) & 0b111) && ((e >> 12) & 0b111111) == ((mb >> 12) & 0b111111)
        && ((e >> 9) & 0b111) == ((mb >> 9) & 0b111) && ((e >> 3) & 0b111111) == ((mb >> 3)
        & 0b111111) && (e & 0b111) == (mb & 0b111) && (((e >> 64) as u64) & ZOBRIST_MASK) == (
    zobrist & ZOBRIST_MASK) && e != 0) by (bit_vector)
        requires
            e == (((zobrist & ZOBRIST_MASK) as u128) << 64) | ((depth as u128) << 64) | (sb << 32)
                | ((bi as u128) << 30) | mb,
            mb < 0x800000,
            mb != 0,
            sb < 0x1_0000_0000,
            bi <= 2,
    ;
    // score
    assert(sb & 0xFFFF_FFFF == sb) by (bit_vector)
        requires
            sb < 0x1_0000_0000,
    ;
    let low = (e >> 32) & 0xFFFF_FFFF;
    assert(low == sb);
    if score >= 0 {
        assert(spec_get_score(e) == score);
    } else {
        assert(low == score + 0x1_0000_0000);
        assert(spec_get_score(e) == score);
    }
    // bound
    assert(spec_bound_of_index(spec_bound_index(bound)) == Some(bound));
    // move: each field of e's low region equals that of mb alone
    match m {
        EngineMove::Normal { role, from, capture, to, promotion } => {
            let ri = spec_role_index(role);
            let ci = spec_opt_role_index(capture);
            let pi = spec_opt_role_index(promotion);
            assert(((mb >> 21) & 0b11) == 0 && ((mb >> 18) & 0b111) == ri && ((mb >> 12) & 0b111111)
                == from && ((mb >> 9) & 0b111) == ci && ((mb >> 3) & 0b111111) == to && (mb & 0b111)
                == pi) by (bit_vector)
                requires
                    mb == ((ri as u128) << 18) | ((from as u128) << 12) | ((ci as u128) << 9) | ((
                    to as u128) << 3) | (pi as u128),
                    1 <= ri <= 6,
                    from < 64,
                    ci <= 6,
                    to < 64,
                    pi <= 6,
            ;
            lemma_opt_role_round_trip(capture);
            lemma_opt_role_round_trip(promotion);
            assert(spec_get_move(e) == Some(m));
        },
        EngineMove::EnPassant { from, to } => {
            assert(((mb >> 21) & 0b11) == 1 && ((mb >> 12) & 0b111111) == from && ((mb >> 3)
                & 0b111111) == to) by (bit_vector)
                requires
                    mb == (1u128 << 21) | ((from as u128) << 12) | ((to as u128) << 3),
                    from < 64,
                    to < 64,
            ;
            assert(spec_get_move(e) == Some(m));
        },
        EngineMove::Castle { king, rook } => {
            assert(((mb >> 21) & 0b11) == 2 && ((mb >> 12) & 0b111111) == king && ((mb >> 3)
                & 0b111111) == rook) by (bit_vector)
                requires
                    mb == (2u128 << 21) | ((king as u128) << 12) | ((rook as u128) << 3),
                    king < 64,
                    rook < 64,
            ;
            assert(spec_get_move(e) == Some(m));
        },
        EngineMove::Put { role, to } => {
            let ri = spec_role_index(role);
            assert(((mb >> 21) & 0b11) == 3 && ((mb >> 18) & 0b111) == ri && ((mb >> 3) & 0b111111)
                == to) by (bit_vector)
                requires
                    mb == (3u128 << 21) | ((ri as u128) << 18) | ((to as u128) << 3),
                    1 <= ri <= 6,
                    to < 64,
            ;
            assert(spec_get_move(e) == Some(m));
        },
    }
}

/// A move decoded from an entry always has its squares on the board:
/// the square fields are six bits wide.
pub proof fn lemma_get_move_wf(e: u128)
    requires
        spec_get_move(e) is Some,
    ensures
        move_wf(spec_get_move(e)->0),
{
    assert(((e >> 12) & 0b111111) < 64 && ((e >> 3) & 0b111111) < 64) by (bit_vector);
}

/// Entries packed under keys with distinct fragments never match each
/// other's key.
pub proof fn lemma_distinct_fragment_no_match(e: u128, z1: u64, z2: u64)
    requires
        spec_matches_zobrist(e, z2),
        z1 & ZOBRIST_MASK != z2 & ZOBRIST_MASK,
    ensures
        !spec_matches_zobrist(e, z1),
{
}

} // verus!
