use christina::edit_history::{EditHistory, HistoryEntry, MAX_HISTORY_SIZE};

#[test]
fn test_basic_undo_redo() {
    let mut history = EditHistory::new();
    history.push(HistoryEntry::new("state1", (0, 0), "initial"));
    history.push(HistoryEntry::new("state2", (0, 5), "typing"));
    history.push(HistoryEntry::new("state3", (0, 10), "more typing"));
    assert_eq!(history.current().map(|e| e.message.as_str()), Some("state3"));
    let prev = history.undo();
    assert_eq!(prev.map(|e| e.message.as_str()), Some("state2"));
    let next = history.redo();
    assert_eq!(next.map(|e| e.message.as_str()), Some("state3"));
}

#[test]
fn test_undo_clears_redo() {
    let mut history = EditHistory::new();
    history.push(HistoryEntry::new("state1", (0, 0), "initial"));
    history.push(HistoryEntry::new("state2", (0, 5), "typing"));
    history.undo();
    assert_eq!(history.redo_len(), 1);
    history.push(HistoryEntry::new("state3", (0, 7), "new typing"));
    assert_eq!(history.redo_len(), 0);
}

#[test]
fn test_max_size() {
    let mut history = EditHistory::new();
    for i in 0..10 {
        history.push(HistoryEntry::new(&format!("state{}", i), (0, 0), "push"));
    }
    assert!(history.undo_len() <= MAX_HISTORY_SIZE);
}

#[test]
fn undo_stack_is_capped_at_fifty() {
    let mut history = EditHistory::new();
    for i in 0..80 {
        history.push(HistoryEntry::new(&format!("s{}", i), (0, i), "push"));
    }
    assert_eq!(history.undo_len(), 50);
    let entries = history.undo_entries();
    assert_eq!(entries[0].message, "s29");
    assert_eq!(entries[49].message, "s78");
    assert_eq!(history.current().map(|e| e.message.as_str()), Some("s79"));
}

#[test]
fn undo_then_redo_restores_state() {
    let mut history = EditHistory::new();
    history.push(HistoryEntry::new("a", (0, 1), "x"));
    history.push(HistoryEntry::new("b", (0, 2), "x"));
    history.undo();
    history.redo();
    assert_eq!(history.current().map(|e| e.message.as_str()), Some("b"));
    assert_eq!(history.undo_len(), 1);
    assert_eq!(history.redo_len(), 0);
}

#[test]
fn undo_past_the_start_leaves_no_current() {
    let mut history = EditHistory::new();
    history.push(HistoryEntry::new("only", (1, 2), "x"));
    assert!(history.undo().is_none());
    assert_eq!(history.redo_len(), 1);
    assert_eq!(history.redo().map(|e| e.cursor), Some((1, 2)));
}

#[test]
fn initialize_and_clear() {
    let mut history = EditHistory::new();
    history.push(HistoryEntry::new("a", (0, 0), "x"));
    history.initialize("fresh");
    assert_eq!(history.current().map(|e| e.message.as_str()), Some("fresh"));
    assert_eq!(history.undo_len(), 0);
    history.clear();
    assert!(history.current().is_none());
}

#[test]
fn from_parts_refuses_impossible_states() {
    let entry = HistoryEntry::new("x", (0, 0), "x");
    assert!(EditHistory::from_parts(vec![entry.clone()], vec![], None).is_none());
    let h = EditHistory::from_parts(vec![entry.clone()], vec![], Some(entry)).unwrap();
    assert_eq!(h.undo_len(), 1);
}
