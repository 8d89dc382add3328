use fsprompt::generator::{ProgressCount, ProgressStage, WorkerCommand, WorkerEvent};
use fsprompt::session::{shortcut_actions, KeyInput, Notice, Session, ShortcutAction};
use fsprompt::tree::TreeNode;
use fsprompt::types::{CanonicalPath, FileSize, OutputFormat, TokenCount};
use fsprompt::watcher::{merge_events, Debouncer, WatcherEvent, DEBOUNCE_MS};

fn no_fs(_: &CanonicalPath) -> Option<Vec<(String, TreeNode)>> {
    None
}

fn changed(paths: &[&str]) -> WatcherEvent {
    WatcherEvent::Changed(paths.iter().map(|s| s.to_string()).collect())
}

#[test]
fn merged_paths_sorted_by_components_once_each() {
    let r = merge_events(vec![changed(&["/p/b", "/p/a-b", "/p/a/b"]), changed(&["/p/a//b", "/p/b/"])]);
    match r {
        Some(WatcherEvent::Changed(paths)) => {
            assert_eq!(paths, vec!["/p/a/b".to_string(), "/p/a-b".to_string(), "/p/b".to_string()]);
        }
        _ => panic!("expected changes"),
    }
}

#[test]
fn errors_win_and_are_joined() {
    let r = merge_events(vec![
        changed(&["/p/a"]),
        WatcherEvent::Error("e1".to_string()),
        WatcherEvent::Error("e2".to_string()),
    ]);
    match r {
        Some(WatcherEvent::Error(m)) => assert_eq!(m, "e1, e2"),
        _ => panic!("expected an error"),
    }
    assert!(merge_events(vec![changed(&[])]).is_none());
    assert!(merge_events(Vec::new()).is_none());
}

#[test]
fn debouncer_holds_back_close_batches() {
    let mut d = Debouncer::new(DEBOUNCE_MS);
    assert!(d.check_events(Vec::new(), 0).is_none());
    assert!(d.check_events(vec![changed(&["/p/a"])], 1000).is_some());
    assert!(d.check_events(vec![changed(&["/p/b"])], 1200).is_none());
    assert!(d.check_events(vec![changed(&["/p/c"])], 1500).is_some());
    d.reset();
    assert!(d.check_events(vec![changed(&["/p/d"])], 1501).is_some());
}

fn node(path: &str, is_dir: bool) -> TreeNode {
    let size = if is_dir { None } else { Some(FileSize::from_bytes(8)) };
    TreeNode::new(CanonicalPath::new(path.to_string()), is_dir, size)
}

fn opened_session() -> Session {
    let mut s = Session::new(vec!["*.log".to_string()], true, OutputFormat::Markdown, 10);
    let listing = vec![
        ("main.rs".to_string(), node("/p/main.rs", false)),
        ("out.log".to_string(), node("/p/out.log", false)),
    ];
    let notice = s.open_root(CanonicalPath::new("/p".to_string()), node("/p", true), Some(listing));
    match notice {
        Notice::Success(m) => assert_eq!(m, "Loaded p"),
        _ => panic!("expected success"),
    }
    s
}

#[test]
fn generation_needs_a_selection() {
    let mut s = opened_session();
    assert!(s.generate_output().is_none());
    assert_eq!(
        s.error_message.as_deref(),
        Some("No files selected. Please select some files to generate output.")
    );
}

#[test]
fn generation_command_carries_the_selection() {
    let mut s = opened_session();
    assert_eq!(s.tree.roots[0].children.len(), 1);
    s.tree.select_all();
    match s.generate_output() {
        Some(WorkerCommand::GenerateOutput { root_path, selected_files, format, include_tree, ignore_patterns }) => {
            assert_eq!(root_path.as_path(), "/p");
            assert_eq!(selected_files.len(), 1);
            assert_eq!(selected_files[0].as_path(), "/p/main.rs");
            assert_eq!(format, OutputFormat::Markdown);
            assert!(include_tree);
            assert_eq!(ignore_patterns, "*.log");
        }
        _ => panic!("expected a command"),
    }
    assert!(s.output.generating);
    s.generation_not_started("closed");
    assert_eq!(s.error_message.as_deref(), Some("Failed to start generation: closed"));
    assert!(!s.output.generating);
}

#[test]
fn worker_events_update_the_session() {
    let mut s = opened_session();
    let n = s.apply_worker_event(WorkerEvent::Progress {
        stage: ProgressStage::ReadingFiles,
        progress: ProgressCount { current: 1, total: 2 },
    });
    assert!(n.is_none());
    assert!(s.current_progress.is_some());
    match s.apply_worker_event(WorkerEvent::OutputReady { content: "abc".to_string(), token_count: TokenCount::new(42) }) {
        Some(Notice::Success(m)) => assert_eq!(m, "Generated 42 tokens"),
        _ => panic!("expected success"),
    }
    assert_eq!(s.output.content.as_deref(), Some("abc"));
    assert!(s.current_progress.is_none());
    match s.apply_worker_event(WorkerEvent::Cancelled) {
        Some(Notice::Warning(m)) => assert_eq!(m, "Generation cancelled"),
        _ => panic!("expected a warning"),
    }
    match s.apply_worker_event(WorkerEvent::Error("boom".to_string())) {
        Some(Notice::Error(m)) => assert_eq!(m, "boom"),
        _ => panic!("expected an error"),
    }
    assert_eq!(s.error_message.as_deref(), Some("boom"));
}

#[test]
fn watcher_events_give_notices() {
    let mut s = opened_session();
    match s.apply_watcher_event(changed(&["/p/a"])) {
        Notice::Info(m) => assert_eq!(m, "1 file changed in the watched directory"),
        _ => panic!("expected info"),
    }
    assert!(s.files_changed);
    match s.apply_watcher_event(changed(&["/p/a", "/p/b", "/p/c"])) {
        Notice::Info(m) => assert_eq!(m, "3 files changed in the watched directory"),
        _ => panic!("expected info"),
    }
    match s.apply_watcher_event(WatcherEvent::Error("lost".to_string())) {
        Notice::Error(m) => assert_eq!(m, "Watcher error: lost"),
        _ => panic!("expected error"),
    }
}

#[test]
fn search_counts_case_insensitive_matches_without_overlap() {
    let mut s = opened_session();
    s.output.content = Some("aaaa AbA".to_string());
    s.search.query = "AA".to_string();
    s.search.current_match = 3;
    s.update_search_matches();
    assert_eq!(s.search.match_count, 2);
    assert_eq!(s.search.current_match, 0);
    s.search.query = "zz".to_string();
    s.search.current_match = 1;
    s.update_search_matches();
    assert_eq!(s.search.match_count, 0);
    assert_eq!(s.search.current_match, 1);
    s.search.query.clear();
    s.update_search_matches();
    assert_eq!((s.search.match_count, s.search.current_match), (0, 0));
}

#[test]
fn undo_and_redo_restore_selections() {
    let mut s = opened_session();
    let before = s.capture_snapshot();
    s.tree.select_all();
    assert!(s.record_if_changed(before));
    assert_eq!(s.tree.get_selected_files(), vec!["/p/main.rs".to_string()]);
    s.undo(&no_fs);
    assert!(s.tree.get_selected_files().is_empty());
    assert!(s.history.can_redo());
    s.redo(&no_fs);
    assert_eq!(s.tree.get_selected_files(), vec!["/p/main.rs".to_string()]);
    assert!(!s.history.can_redo());
    assert!(s.history.can_undo());
}

fn keys() -> KeyInput {
    KeyInput {
        ctrl: true, shift: false, focused: false,
        f: false, g: false, c: false, s: false, z: false, p: false, a: false, d: false, comma: false,
    }
}

#[test]
fn shortcuts() {
    let k = KeyInput { g: true, c: true, ..keys() };
    assert_eq!(shortcut_actions(k, true, false, true, true), vec![ShortcutAction::Generate]);
    assert_eq!(shortcut_actions(k, true, true, true, true), vec![ShortcutAction::Copy]);
    let k = KeyInput { shift: true, z: true, p: true, ..keys() };
    assert_eq!(
        shortcut_actions(k, false, false, false, false),
        vec![ShortcutAction::Redo, ShortcutAction::TogglePerfOverlay]
    );
    let k = KeyInput { ctrl: false, a: true, ..keys() };
    assert!(shortcut_actions(k, true, false, true, true).is_empty());
    let k = KeyInput { z: true, a: true, comma: true, ..keys() };
    assert_eq!(
        shortcut_actions(k, false, false, true, false),
        vec![ShortcutAction::Undo, ShortcutAction::SelectAll, ShortcutAction::ToggleSettings]
    );
}

#[test]
fn held_back_changes_are_reported_once_the_window_passes() {
    let mut d = Debouncer::new(DEBOUNCE_MS);
    assert!(d.check_events(vec![changed(&["/p/a"])], 1000).is_some());
    // Within the window: held back, not lost.
    assert!(d.check_events(vec![changed(&["/p/b"])], 1100).is_none());
    assert!(d.check_events(vec![changed(&["/p/c"])], 1300).is_none());
    assert!(d.check_events(Vec::new(), 1400).is_none());
    // The first call after the window reports them, even with no new events.
    match d.check_events(Vec::new(), 1500) {
        Some(WatcherEvent::Changed(paths)) => assert_eq!(paths, vec!["/p/b", "/p/c"]),
        other => panic!("expected the held-back changes, got {other:?}"),
    }
    assert!(d.check_events(Vec::new(), 1600).is_none());
    // Held-back changes merge with a new batch.
    assert!(d.check_events(vec![changed(&["/p/x"])], 1700).is_none());
    match d.check_events(vec![changed(&["/p/x", "/p/w"])], 2000) {
        Some(WatcherEvent::Changed(paths)) => assert_eq!(paths, vec!["/p/w", "/p/x"]),
        other => panic!("expected merged changes, got {other:?}"),
    }
    // Starting anew forgets what was held back.
    assert!(d.check_events(vec![changed(&["/p/y"])], 2100).is_none());
    d.reset();
    assert!(d.check_events(Vec::new(), 2200).is_none());
}
