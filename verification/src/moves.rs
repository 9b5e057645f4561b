use vstd::prelude::*;

verus! {

/// The kind of a chess piece. The numeric index (see [`role_index`])
/// runs from 1 for a pawn to 6 for a king; 0 is reserved to mean
/// "no piece" in packed encodings.
#[derive(Clone, Copy, Debug, PartialEq, Eq, Structural, Hash)]
pub enum PieceKind {
    Pawn,
    Knight,
    Bishop,
    Rook,
    Queen,
    King,
}

/// The 1-based numeric index of a role, as used by the packed
/// transposition-table encoding.
pub open spec fn spec_role_index(r: PieceKind) -> u8 {
    match r {
        PieceKind::Pawn => 1,
        PieceKind::Knight => 2,
        PieceKind::Bishop => 3,
        PieceKind::Rook => 4,
        PieceKind::Queen => 5,
        PieceKind::King => 6,
    }
}

#[verifier::when_used_as_spec(spec_role_index)]
pub fn role_index(r: PieceKind) -> (i: u8)
    ensures
        i == spec_role_index(r),
{
    match r {
        PieceKind::Pawn => 1,
        PieceKind::Knight => 2,
        PieceKind::Bishop => 3,
        PieceKind::Rook => 4,
        PieceKind::Queen => 5,
        PieceKind::King => 6,
    }
}

/// The role with the given 1-based index.
pub open spec fn spec_role_of_index(i: u8) -> Option<PieceKind> {
    if i == 1 {
        Some(PieceKind::Pawn)
    } else if i == 2 {
        Some(PieceKind::Knight)
    } else if i == 3 {
        Some(PieceKind::Bishop)
    } else if i == 4 {
        Some(PieceKind::Rook)
    } else if i == 5 {
        Some(PieceKind::Queen)
    } else if i == 6 {
        Some(PieceKind::King)
    } else {
        None
    }
}

pub fn role_of_index(i: u8) -> (r: Option<PieceKind>)
    ensures
        r == spec_role_of_index(i),
{
    if i == 1 {
        Some(PieceKind::Pawn)
    } else if i == 2 {
        Some(PieceKind::Knight)
    } else if i == 3 {
        Some(PieceKind::Bishop)
    } else if i == 4 {
        Some(PieceKind::Rook)
    } else if i == 5 {
        Some(PieceKind::Queen)
    } else if i == 6 {
        Some(PieceKind::King)
    } else {
        None
    }
}

/// A move, with squares as plain numbers 0..64 (a1 = 0 .. h8 = 63).
///
/// `Normal` covers ordinary moves, captures and promotions;
/// `EnPassant` and `Castle` are the two special forms; `Put` is a
/// piece drop, unused in standard chess but kept for shape.
#[derive(Clone, Copy, Debug, PartialEq, Eq, Structural, Hash)]
pub enum EngineMove {
    Normal { role: PieceKind, from: u8, capture: Option<PieceKind>, to: u8, promotion: Option<PieceKind> },
    EnPassant { from: u8, to: u8 },
    Castle { king: u8, rook: u8 },
    Put { role: PieceKind, to: u8 },
}

/// Well-formedness: every square is on the board.
pub open spec fn move_wf(m: EngineMove) -> bool {
    match m {
        EngineMove::Normal { from, to, .. } => from < 64 && to < 64,
        EngineMove::EnPassant { from, to } => from < 64 && to < 64,
        EngineMove::Castle { king, rook } => king < 64 && rook < 64,
        EngineMove::Put { to, .. } => to < 64,
    }
}

/// True iff the move captures a piece (a normal capture or en passant).
pub open spec fn spec_is_capture(m: EngineMove) -> bool {
    match m {
        EngineMove::Normal { capture, .. } => capture is Some,
        EngineMove::EnPassant { .. } => true,
        _ => false,
    }
}

pub fn is_capture(m: &EngineMove) -> (r: bool)
    ensures
        r == spec_is_capture(*m),
{
    match m {
        EngineMove::Normal { capture, .. } => capture.is_some(),
        EngineMove::EnPassant { .. } => true,
        _ => false,
    }
}

/// All squares of a move list lie on the board.
pub open spec fn moves_wf(s: Seq<EngineMove>) -> bool {
    forall|i: int| 0 <= i < s.len() ==> move_wf(#[trigger] s[i])
}

/// A list holding the same moves as a well-formed one is well formed.
pub proof fn lemma_moves_wf_of_multiset(s1: Seq<EngineMove>, s2: Seq<EngineMove>)
    requires
        moves_wf(s1),
        s1.to_multiset() == s2.to_multiset(),
    ensures
        moves_wf(s2),
{
    broadcast use vstd::seq_lib::group_to_multiset_ensures;

    assert forall|i: int| 0 <= i < s2.len() implies move_wf(#[trigger] s2[i]) by {
        assert(s2.contains(s2[i]));
        assert(s2.to_multiset().count(s2[i]) > 0);
        assert(s1.contains(s2[i]));
        let j = choose|j: int| 0 <= j < s1.len() && s1[j] == s2[i];
        assert(move_wf(s1[j]));
    }
}

/// The index of a move in a list, scanning from the front.
pub fn find_move(list: &Vec<EngineMove>, m: &EngineMove) -> (r: Option<usize>)
    ensures
        match r {
            Some(i) => i < list@.len() && list@[i as int] == *m,
            None => !list@.contains(*m),
        },
{
    let mut j: usize = 0;
    while j < list.len()
        invariant
            j <= list@.len(),
            forall|k: int| 0 <= k < j ==> list@[k] != *m,
        decreases list@.len() - j,
    {
        if list[j] == *m {
            return Some(j);
        }
        j = j + 1;
    }
    None
}

/// Everything in a list is also in any list with the same multiset.
pub proof fn lemma_all_contained_of_multiset(s1: Seq<EngineMove>, s2: Seq<EngineMove>)
    requires
        s1.to_multiset() == s2.to_multiset(),
    ensures
        forall|i: int| 0 <= i < s2.len() ==> s1.contains(#[trigger] s2[i]),
{
    broadcast use vstd::seq_lib::group_to_multiset_ensures;

    assert forall|i: int| 0 <= i < s2.len() implies s1.contains(#[trigger] s2[i]) by {
        assert(s2.contains(s2[i]));
        assert(s2.to_multiset().count(s2[i]) > 0);
    }
}

/// The side a piece belongs to.
#[derive(Clone, Copy, Debug, PartialEq, Eq, Structural)]
pub enum Color {
    White,
    Black,
}

/// A piece of a given color standing on a square (0..64).
#[derive(Clone, Copy, Debug, PartialEq, Eq, Structural)]
pub struct PlacedPiece {
    pub color: Color,
    pub role: PieceKind,
    pub square: u8,
}

pub open spec fn placed_wf(p: PlacedPiece) -> bool {
    p.square < 64
}

pub open spec fn placed_all_wf(s: Seq<PlacedPiece>) -> bool {
    forall|i: int| 0 <= i < s.len() ==> placed_wf(#[trigger] s[i])
}

} // verus!
