use shakmaty::Chess;
use shakmaty::zobrist::{Zobrist64, ZobristHash};
use shakmaty::{EnPassantMode};
use skakarlak::book::{Book, BookMove};

fn record(key: u64, from: u8, to: u8, promotion: u8, weight: u16) -> [u8; 16] {
    let mut r = [0u8; 16];
    r[0..8].copy_from_slice(&key.to_be_bytes());
    let combined: u16 = ((promotion as u16) << 12) | ((from as u16) << 6) | (to as u16);
    r[8..10].copy_from_slice(&combined.to_be_bytes());
    r[10..12].copy_from_slice(&weight.to_be_bytes());
    r
}

#[test]
fn decodes_records_for_a_position() {
    let pos = Chess::default();
    let hash: Zobrist64 = pos.zobrist_hash(EnPassantMode::Legal);

    // e2e4 (squares 12 -> 28) and d2d4 (11 -> 27) for the start
    // position, one move for some other key
    let mut data = Vec::new();
    data.extend_from_slice(&record(hash.0, 12, 28, 0, 7));
    data.extend_from_slice(&record(0x1111_2222_3333_4444, 0, 1, 0, 9));
    data.extend_from_slice(&record(hash.0, 11, 27, 0, 3));

    let book = Book::from_bytes(&data);
    let moves = book.moves(&pos);
    assert_eq!(moves.len(), 2);
    assert_eq!(moves[0], BookMove { from: 12, to: 28, promotion: 0, weight: 7 });
    assert_eq!(moves[1], BookMove { from: 11, to: 27, promotion: 0, weight: 3 });
}

#[test]
fn unknown_positions_have_no_moves() {
    let data = record(0x1111_2222_3333_4444, 0, 1, 0, 9);
    let book = Book::from_bytes(&data);
    let pos = Chess::default();
    assert!(book.moves(&pos).is_empty());
}

#[test]
fn trailing_partial_records_are_ignored() {
    let pos = Chess::default();
    let hash: Zobrist64 = pos.zobrist_hash(EnPassantMode::Legal);
    let mut data = Vec::new();
    data.extend_from_slice(&record(hash.0, 12, 28, 0, 7));
    // nine stray bytes that do not make a record
    data.extend_from_slice(&hash.0.to_be_bytes());
    data.push(0xAB);
    let book = Book::from_bytes(&data);
    assert_eq!(book.moves(&pos).len(), 1);
}

#[test]
fn promotion_codes_come_through() {
    // a7a8 with each promotion code, recorded for the start position
    let pos = Chess::default();
    let hash: Zobrist64 = pos.zobrist_hash(EnPassantMode::Legal);
    let mut data = Vec::new();
    for code in 1..=4u8 {
        data.extend_from_slice(&record(hash.0, 48, 56, code, 100 + code as u16));
    }
    let book = Book::from_bytes(&data);
    let moves = book.moves(&pos);
    assert_eq!(moves.len(), 4);
    for (i, m) in moves.iter().enumerate() {
        let code = (i + 1) as u8;
        assert_eq!(*m, BookMove { from: 48, to: 56, promotion: code, weight: 100 + code as u16 });
    }
}
