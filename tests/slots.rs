use tauri_plugin_sqlite::slots::HandleState;
use tauri_plugin_sqlite::slots::SlotTable;

#[test]
fn begin_on_empty_table_returns_zero() {
    let mut t: SlotTable<&str> = SlotTable::new();
    assert_eq!(t.begin("a"), 0);
    assert_eq!(t.len(), 1);
}

#[test]
fn commit_then_begin_reuses_slot_zero() {
    let mut t: SlotTable<u32> = SlotTable::new();
    assert_eq!(t.begin(10), 0);
    assert_eq!(t.retire(0), 10);
    assert_eq!(t.begin(11), 0);
    assert_eq!(t.len(), 1);
}

#[test]
fn consecutive_begins_get_distinct_handles() {
    let mut t: SlotTable<u32> = SlotTable::new();
    let a = t.begin(1);
    let b = t.begin(2);
    let c = t.begin(3);
    assert_eq!((a, b, c), (0, 1, 2));
}

#[test]
fn lowest_free_slot_is_taken_first() {
    let mut t: SlotTable<u32> = SlotTable::new();
    for i in 0..4u32 {
        t.begin(i);
    }
    assert_eq!(t.retire(2), 2);
    assert_eq!(t.retire(1), 1);
    assert_eq!(t.begin(7), 1);
    assert_eq!(t.begin(8), 2);
    assert_eq!(t.begin(9), 4);
}

#[test]
fn retired_handle_is_no_longer_open() {
    let mut t: SlotTable<u32> = SlotTable::new();
    let h = t.begin(5);
    assert!(t.is_handle_open(h));
    t.retire(h);
    assert!(!t.is_handle_open(h));
    assert!(!t.is_handle_open(17));
}

#[test]
fn transaction_mut_changes_only_its_slot() {
    let mut t: SlotTable<Vec<&str>> = SlotTable::new();
    let a = t.begin(vec![]);
    let b = t.begin(vec![]);
    t.transaction_mut(b).push("insert into t values (1)");
    assert_eq!(t.retire(b), vec!["insert into t values (1)"]);
    assert_eq!(t.retire(a), Vec::<&str>::new());
}

#[test]
fn handle_state_tells_misuse_apart() {
    let mut t: SlotTable<u32> = SlotTable::new();
    let h = t.begin(1);
    assert_eq!(t.handle_state(h), HandleState::Open);
    t.retire(h);
    assert_eq!(t.handle_state(h), HandleState::Closed);
    assert_eq!(t.handle_state(5), HandleState::OutOfRange);
}

#[test]
fn two_begins_hold_their_own_transactions() {
    let mut t: SlotTable<u32> = SlotTable::new();
    t.begin(0);
    t.begin(0);
    t.retire(0);
    let a = t.begin(10);
    let b = t.begin(20);
    assert_ne!(a, b);
    assert_eq!(t.retire(a), 10);
    assert_eq!(t.retire(b), 20);
}
