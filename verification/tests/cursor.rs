use spsc_benches::cursor::Cursor;

#[test]
fn a_new_cursor_starts_at_zero() {
    assert_eq!(Cursor::new(7), Cursor { mask: 7, offset: 0, peer: 0 });
}

#[test]
fn a_new_cursor_looks_empty_and_not_full() {
    let cursor = Cursor::new(3);
    assert!(cursor.is_empty());
    assert!(!cursor.is_full());
}

#[test]
fn a_single_slot_ring_always_looks_full() {
    let cursor = Cursor::new(0);
    assert!(cursor.is_full());
    assert!(cursor.is_empty());
}

#[test]
fn full_is_one_step_behind_the_peer() {
    let mut cursor = Cursor { mask: 3, offset: 2, peer: 3 };
    assert!(cursor.is_full());
    cursor.observe(0);
    assert!(!cursor.is_full());
    let wrapped = Cursor { mask: 3, offset: 3, peer: 0 };
    assert!(wrapped.is_full());
}

#[test]
fn observe_changes_only_the_peer() {
    let mut cursor = Cursor { mask: 15, offset: 4, peer: 1 };
    cursor.observe(9);
    assert_eq!(cursor, Cursor { mask: 15, offset: 4, peer: 9 });
    assert!(!cursor.is_empty());
    cursor.observe(4);
    assert!(cursor.is_empty());
}

#[test]
fn advance_returns_the_position_to_publish() {
    let mut cursor = Cursor { mask: 3, offset: 2, peer: 0 };
    assert_eq!(cursor.advance(), 3);
    assert_eq!(cursor, Cursor { mask: 3, offset: 3, peer: 0 });
    assert_eq!(cursor.advance(), 0);
    assert_eq!(cursor, Cursor { mask: 3, offset: 0, peer: 0 });
}

#[test]
fn settle_on_a_value_hands_it_on_and_moves() {
    let mut cursor = Cursor { mask: 3, offset: 2, peer: 0 };
    assert_eq!(cursor.settle(Some(41u32)), Some((41u32, 3)));
    assert_eq!(cursor, Cursor { mask: 3, offset: 3, peer: 0 });
    assert_eq!(cursor.settle(Some(42u32)), Some((42u32, 0)));
    assert_eq!(cursor, Cursor { mask: 3, offset: 0, peer: 0 });
}

#[test]
fn settle_on_an_empty_slot_stays_and_drops_the_view() {
    let mut cursor = Cursor { mask: 7, offset: 5, peer: 1 };
    assert_eq!(cursor.settle(None::<u32>), None);
    assert_eq!(cursor, Cursor { mask: 7, offset: 5, peer: 5 });
    assert!(cursor.is_empty());
}
