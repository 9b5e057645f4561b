use skakarlak::moves::{EngineMove, PieceKind};
use skakarlak::transposition::{Bound, FastTranspositionTable};

fn some_move(from: u8, to: u8) -> EngineMove {
    EngineMove::Normal { role: PieceKind::Knight, from, capture: None, to, promotion: None }
}

#[test]
fn store_then_lookup_round_trips() {
    let mut tt = FastTranspositionTable::new(8);
    for _ in 0..64 {
        let key = rand::random::<u64>();
        let depth = rand::random::<u8>();
        let score = rand::random::<i32>();
        let bound = match rand::random::<u8>() % 3 {
            0 => Bound::Exact,
            1 => Bound::Lower,
            _ => Bound::Upper,
        };
        let mv = some_move(rand::random::<u8>() % 64, rand::random::<u8>() % 64);
        tt.store(key, score, depth, bound, &mv);
        let entry = tt.lookup(key).expect("a just-stored key reads back");
        assert_eq!(entry.score, score);
        assert_eq!(entry.depth, depth);
        assert_eq!(entry.bound, bound);
        assert_eq!(entry.best_move, mv);
    }
}

#[test]
fn stores_under_other_slots_do_not_interfere() {
    let mut tt = FastTranspositionTable::new(4);
    // top 4 bits pick the slot
    let k1: u64 = 0x1000_0000_0000_0000;
    let k2: u64 = 0x2000_0000_0000_0000;
    let m1 = some_move(1, 18);
    let m2 = some_move(6, 21);
    tt.store(k1, 11, 3, Bound::Exact, &m1);
    tt.store(k2, -7, 5, Bound::Lower, &m2);
    let e1 = tt.lookup(k1).unwrap();
    assert_eq!(e1.score, 11);
    assert_eq!(e1.best_move, m1);
    let e2 = tt.lookup(k2).unwrap();
    assert_eq!(e2.score, -7);
    assert_eq!(e2.best_move, m2);
}

#[test]
fn collision_keeps_only_the_later_store() {
    let mut tt = FastTranspositionTable::new(4);
    // same top 4 bits (same slot), different key fragments
    let k1: u64 = 0xA000_0000_0001_0000;
    let k2: u64 = 0xA000_0000_0002_0000;
    let m1 = some_move(1, 18);
    let m2 = some_move(6, 21);
    tt.store(k1, 100, 2, Bound::Exact, &m1);
    tt.store(k2, 200, 4, Bound::Upper, &m2);
    assert!(tt.lookup(k1).is_none());
    let e2 = tt.lookup(k2).unwrap();
    assert_eq!(e2.score, 200);
    assert_eq!(e2.depth, 4);
    assert_eq!(e2.bound, Bound::Upper);
    assert_eq!(e2.best_move, m2);
}

#[test]
fn empty_table_reads_nothing() {
    let tt = FastTranspositionTable::new(6);
    assert!(tt.lookup(0).is_none());
    assert!(tt.lookup(u64::MAX).is_none());
    assert!(tt.lookup(0x1234_5678_9ABC_DEF0).is_none());
    assert!(tt.best_move(42).is_none());
}

#[test]
fn clear_forgets_every_entry() {
    let mut tt = FastTranspositionTable::new(6);
    let keys = [0u64, 1 << 58, 0xFFFF_FFFF_FFFF_FFFF, 0x0123_4567_89AB_CDEF];
    for (i, k) in keys.iter().enumerate() {
        tt.store(*k, i as i32, i as u8, Bound::Exact, &some_move(1, 18));
    }
    tt.clear();
    for k in keys {
        assert!(tt.lookup(k).is_none());
    }
}
