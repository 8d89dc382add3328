use fsprompt::history::{HistoryManager, SelectionSnapshot};

fn snap(files: &[&str], dirs: &[&str]) -> SelectionSnapshot {
    SelectionSnapshot {
        selected_files: files.iter().map(|s| s.to_string()).collect(),
        expanded_dirs: dirs.iter().map(|s| s.to_string()).collect(),
    }
}

#[test]
fn history_starts_empty() {
    let h = HistoryManager::new(5);
    assert!(!h.can_undo());
    assert!(!h.can_redo());
}

#[test]
fn undo_returns_last_recorded_and_redo_undoes_it() {
    let mut h = HistoryManager::new(5);
    h.push(snap(&["a"], &[]));
    h.push(snap(&["a", "b"], &["d"]));
    assert!(h.can_undo());
    let prev = h.undo(snap(&["c"], &[])).unwrap();
    assert_eq!(prev.selected_files, vec!["a".to_string(), "b".to_string()]);
    assert_eq!(prev.expanded_dirs, vec!["d".to_string()]);
    assert!(h.can_redo());
    let next = h.redo(snap(&["x"], &[])).unwrap();
    assert_eq!(next.selected_files, vec!["c".to_string()]);
}

#[test]
fn push_clears_redo() {
    let mut h = HistoryManager::new(5);
    h.push(snap(&["a"], &[]));
    let _ = h.undo(snap(&["b"], &[]));
    assert!(h.can_redo());
    h.push(snap(&["c"], &[]));
    assert!(!h.can_redo());
    assert!(h.redo(snap(&["d"], &[])).is_none());
}

#[test]
fn depth_bound_drops_oldest() {
    let mut h = HistoryManager::new(2);
    h.push(snap(&["1"], &[]));
    h.push(snap(&["2"], &[]));
    h.push(snap(&["3"], &[]));
    let a = h.undo(snap(&["now"], &[])).unwrap();
    let b = h.undo(a.clone()).unwrap();
    assert_eq!(a.selected_files, vec!["3".to_string()]);
    assert_eq!(b.selected_files, vec!["2".to_string()]);
    assert!(h.undo(b).is_none());
}

#[test]
fn undo_on_empty_history_changes_nothing() {
    let mut h = HistoryManager::new(3);
    assert!(h.undo(snap(&["a"], &[])).is_none());
    assert!(!h.can_redo());
    assert!(!h.can_undo());
}
