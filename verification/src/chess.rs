use vstd::prelude::*;

use crate::moves::{Color, PlacedPiece, move_wf, moves_wf, placed_all_wf};
use shakmaty::Position;
use shakmaty::zobrist::ZobristHash;

verus! {

#[verifier::external_type_specification]
#[verifier::external_body]
pub struct ExChess(shakmaty::Chess);

#[verifier::external_type_specification]
#[verifier::external_body]
pub struct ExShakmatyMove(shakmaty::Move);

#[verifier::external_type_specification]
#[verifier::external_body]
pub struct ExShakmatyRole(shakmaty::Role);

#[verifier::external_type_specification]
#[verifier::external_body]
pub struct ExShakmatySquare(shakmaty::Square);

#[verifier::external_type_specification]
#[verifier::external_body]
pub struct ExShakmatyPiece(shakmaty::Piece);

/// The legal moves of a position, as plain move values.
pub uninterp spec fn legal_of(p: shakmaty::Chess) -> Seq<crate::moves::EngineMove>;

/// The legal capture moves of a position, as plain move values.
pub uninterp spec fn captures_of(p: shakmaty::Chess) -> Seq<crate::moves::EngineMove>;

/// The pieces standing on the board of a position.
pub uninterp spec fn board_of(p: shakmaty::Chess) -> Seq<PlacedPiece>;

/// The side to move of a position.
pub uninterp spec fn turn_of(p: shakmaty::Chess) -> Color;

/// Whether the side to move is checkmated.
pub uninterp spec fn checkmate_of(p: shakmaty::Chess) -> bool;

/// Whether the game is over: checkmate, stalemate, insufficient
/// material, or a variant end.
pub uninterp spec fn gameover_of(p: shakmaty::Chess) -> bool;

/// The 64-bit zobrist hash of a position, including en-passant
/// legality.
pub uninterp spec fn zobrist_of(p: shakmaty::Chess) -> u64;

/// The position reached by playing a legal move.
pub uninterp spec fn play_of(p: shakmaty::Chess, m: crate::moves::EngineMove) -> shakmaty::Chess;

#[verifier::external_body]
fn from_sq(s: shakmaty::Square) -> u8 {
    u32::from(s) as u8
}

#[verifier::external_body]
fn from_role(r: shakmaty::Role) -> crate::moves::PieceKind {
    match r {
        shakmaty::Role::Pawn => crate::moves::PieceKind::Pawn,
        shakmaty::Role::Knight => crate::moves::PieceKind::Knight,
        shakmaty::Role::Bishop => crate::moves::PieceKind::Bishop,
        shakmaty::Role::Rook => crate::moves::PieceKind::Rook,
        shakmaty::Role::Queen => crate::moves::PieceKind::Queen,
        shakmaty::Role::King => crate::moves::PieceKind::King,
    }
}

#[verifier::external_body]
fn from_opt_role(o: Option<shakmaty::Role>) -> Option<crate::moves::PieceKind> {
    match o {
        Some(r) => Some(from_role(r)),
        None => None,
    }
}

#[verifier::external_body]
fn from_normal(
    role: shakmaty::Role,
    from: shakmaty::Square,
    capture: Option<shakmaty::Role>,
    to: shakmaty::Square,
    promotion: Option<shakmaty::Role>,
) -> crate::moves::EngineMove {
    crate::moves::EngineMove::Normal {
        role: from_role(role),
        from: from_sq(from),
        capture: from_opt_role(capture),
        to: from_sq(to),
        promotion: from_opt_role(promotion),
    }
}

#[verifier::external_body]
fn from_outside_move(m: &shakmaty::Move) -> crate::moves::EngineMove {
    match m {
        shakmaty::Move::Normal { role, from, capture, to, promotion } => from_normal(
            *role, *from, *capture, *to, *promotion,
        ),
        shakmaty::Move::EnPassant { from, to } => crate::moves::EngineMove::EnPassant {
            from: from_sq(*from), to: from_sq(*to),
        },
        shakmaty::Move::Castle { king, rook } => crate::moves::EngineMove::Castle {
            king: from_sq(*king), rook: from_sq(*rook),
        },
        shakmaty::Move::Put { role, to } => crate::moves::EngineMove::Put {
            role: from_role(*role), to: from_sq(*to),
        },
    }
}

#[verifier::external_body]
fn to_sq(s: u8) -> shakmaty::Square
    requires
        s < 64,
{
    shakmaty::Square::new(s as u32)
}

#[verifier::external_body]
fn to_role(r: crate::moves::PieceKind) -> shakmaty::Role {
    match r {
        crate::moves::PieceKind::Pawn => shakmaty::Role::Pawn,
        crate::moves::PieceKind::Knight => shakmaty::Role::Knight,
        crate::moves::PieceKind::Bishop => shakmaty::Role::Bishop,
        crate::moves::PieceKind::Rook => shakmaty::Role::Rook,
        crate::moves::PieceKind::Queen => shakmaty::Role::Queen,
        crate::moves::PieceKind::King => shakmaty::Role::King,
    }
}

#[verifier::external_body]
fn to_opt_role(o: &Option<crate::moves::PieceKind>) -> Option<shakmaty::Role> {
    match o {
        Some(r) => Some(to_role(*r)),
        None => None,
    }
}

#[verifier::external_body]
fn to_normal(
    role: crate::moves::PieceKind,
    from: u8,
    capture: &Option<crate::moves::PieceKind>,
    to: u8,
    promotion: &Option<crate::moves::PieceKind>,
) -> shakmaty::Move
    requires
        from < 64,
        to < 64,
{
    shakmaty::Move::Normal {
        role: to_role(role),
        from: to_sq(from),
        capture: to_opt_role(capture),
        to: to_sq(to),
        promotion: to_opt_role(promotion),
    }
}

#[verifier::external_body]
fn to_outside_move(m: &crate::moves::EngineMove) -> shakmaty::Move
    requires
        move_wf(*m),
{
    match m {
        crate::moves::EngineMove::Normal { role, from, capture, to, promotion } => to_normal(
            *role, *from, capture, *to, promotion,
        ),
        crate::moves::EngineMove::EnPassant { from, to } => shakmaty::Move::EnPassant {
            from: to_sq(*from), to: to_sq(*to),
        },
        crate::moves::EngineMove::Castle { king, rook } => shakmaty::Move::Castle {
            king: to_sq(*king), rook: to_sq(*rook),
        },
        crate::moves::EngineMove::Put { role, to } => shakmaty::Move::Put {
            role: to_role(*role), to: to_sq(*to),
        },
    }
}

/// Relies on `shakmaty::Position::legal_moves`: the legal moves of a
/// position, each with its squares on the board; a position with no
/// legal moves is game over by `shakmaty::Position::is_game_over`.
#[verifier::external_body]
pub(crate) fn legal_moves(p: &shakmaty::Chess) -> (r: Vec<crate::moves::EngineMove>)
    ensures
        r@ == legal_of(*p),
        moves_wf(r@),
        r@.len() == 0 ==> gameover_of(*p),
{
    let mut v = Vec::new();
    for m in p.legal_moves() {
        v.push(from_outside_move(&m));
    }
    v
}

/// Relies on `shakmaty::Position::capture_moves`: exactly the legal
/// moves that capture.
#[verifier::external_body]
pub(crate) fn capture_moves(p: &shakmaty::Chess) -> (r: Vec<crate::moves::EngineMove>)
    ensures
        r@ == captures_of(*p),
        moves_wf(r@),
        forall|i: int| 0 <= i < r@.len() ==> legal_of(*p).contains(#[trigger] r@[i]),
        forall|i: int| 0 <= i < r@.len() ==> crate::moves::spec_is_capture(#[trigger] r@[i]),
{
    let mut v = Vec::new();
    for m in p.capture_moves() {
        v.push(from_outside_move(&m));
    }
    v
}

/// Relies on `shakmaty::Board::iter`: the pieces on the 64 squares of
/// the board.
#[verifier::external_body]
pub(crate) fn board_pieces(p: &shakmaty::Chess) -> (r: Vec<PlacedPiece>)
    ensures
        r@ == board_of(*p),
        placed_all_wf(r@),
        r@.len() <= 64,
{
    let mut v = Vec::new();
    for (sq, piece) in p.board().clone() {
        v.push(from_board_piece(sq, piece));
    }
    v
}

#[verifier::external_body]
fn from_board_piece(sq: shakmaty::Square, piece: shakmaty::Piece) -> PlacedPiece {
    PlacedPiece {
        color: if piece.color == shakmaty::Color::White {
            Color::White
        } else {
            Color::Black
        },
        role: from_role(piece.role),
        square: from_sq(sq),
    }
}

/// Relies on `shakmaty::Position::turn`.
#[verifier::external_body]
pub(crate) fn turn(p: &shakmaty::Chess) -> (c: Color)
    ensures
        c == turn_of(*p),
{
    if p.turn() == shakmaty::Color::White {
        Color::White
    } else {
        Color::Black
    }
}

/// Relies on `shakmaty::Position::is_checkmate`; a checkmate has no
/// legal moves, so it is also game over.
#[verifier::external_body]
pub(crate) fn is_checkmate(p: &shakmaty::Chess) -> (r: bool)
    ensures
        r == checkmate_of(*p),
        r ==> gameover_of(*p),
{
    p.is_checkmate()
}

/// Relies on `shakmaty::Position::is_game_over`; a position that is
/// not game over has at least one legal move.
#[verifier::external_body]
pub(crate) fn is_game_over(p: &shakmaty::Chess) -> (r: bool)
    ensures
        r == gameover_of(*p),
        !r ==> legal_of(*p).len() > 0,
{
    p.is_game_over()
}

/// Relies on `shakmaty::zobrist::ZobristHash::zobrist_hash` with
/// en-passant mode `Legal`.
#[verifier::external_body]
pub(crate) fn zobrist(p: &shakmaty::Chess) -> (h: u64)
    ensures
        h == zobrist_of(*p),
{
    p.zobrist_hash::<shakmaty::zobrist::Zobrist64>(shakmaty::EnPassantMode::Legal).0
}

/// Relies on `shakmaty::Position::play_unchecked`, which expects a
/// legal move: the position after the move.
#[verifier::external_body]
pub(crate) fn play(p: &shakmaty::Chess, m: &crate::moves::EngineMove) -> (r: shakmaty::Chess)
    requires
        move_wf(*m),
        legal_of(*p).contains(*m),
    ensures
        r == play_of(*p, *m),
{
    let mut next = p.clone();
    next.play_unchecked(&to_outside_move(m));
    next
}

} // verus!
