use hybrid_board::model::{Move, PieceKind, Position};
use hybrid_board::player::ai::tt::{Bound, TranspositionTable};

fn drop_at(x: usize) -> Option<Move> {
    Some(Move::Drop {
        kind: PieceKind::S_Pawn,
        to: Position::new(x, 0),
    })
}

#[test]
fn table_has_one_slot_for_every_eighty_bytes() {
    assert_eq!(TranspositionTable::new(0).len(), 0);
    assert_eq!(TranspositionTable::new(1).len(), 13107);
    assert_eq!(TranspositionTable::new(2).len(), 26214);
}

#[test]
fn a_table_without_slots_keeps_nothing() {
    let mut tt = TranspositionTable::new(0);
    tt.store(1, 3, 50, Bound::Exact, None);
    assert!(tt.get(1).is_none());
    tt.clear();
    assert_eq!(tt.len(), 0);
}

#[test]
fn stored_results_are_read_back_under_their_hash_only() {
    let mut tt = TranspositionTable::new(1);
    assert!(tt.get(42).is_none());
    tt.store(42, 3, -75, Bound::Lower, drop_at(1));
    let (entry, mv) = tt.get(42).unwrap();
    assert_eq!(entry.hash, 42);
    assert_eq!(entry.depth, 3);
    assert_eq!(entry.score, -75);
    assert_eq!(entry.bound, Bound::Lower);
    assert_eq!(mv, drop_at(1));
    // another hash of the same slot finds nothing
    assert!(tt.get(42 + 13107).is_none());
    assert!(tt.get(43).is_none());
}

#[test]
fn deeper_results_are_kept_and_shallower_ones_refused() {
    let mut tt = TranspositionTable::new(1);
    tt.store(42, 3, 10, Bound::Exact, drop_at(1));
    // shallower, same position: refused
    tt.store(42, 2, 20, Bound::Upper, drop_at(2));
    assert_eq!(tt.get(42).unwrap().0.score, 10);
    // as deep: replaces
    tt.store(42, 3, 30, Bound::Upper, drop_at(3));
    let (entry, mv) = tt.get(42).unwrap();
    assert_eq!((entry.score, entry.bound, mv), (30, Bound::Upper, drop_at(3)));
    // another position in the same slot, shallower: refused
    let rival = 42 + 13107;
    tt.store(rival, 1, 40, Bound::Exact, None);
    assert!(tt.get(rival).is_none());
    assert!(tt.get(42).is_some());
    // another position in the same slot, deeper: takes the slot
    tt.store(rival, 5, 50, Bound::Exact, None);
    assert_eq!(tt.get(rival).unwrap().0.score, 50);
    assert!(tt.get(42).is_none());
}

#[test]
fn clearing_empties_every_slot() {
    let mut tt = TranspositionTable::new(1);
    tt.store(1, 1, 1, Bound::Exact, None);
    tt.store(2, 1, 1, Bound::Exact, None);
    tt.clear();
    assert!(tt.get(1).is_none());
    assert!(tt.get(2).is_none());
    assert_eq!(tt.len(), 13107);
}
