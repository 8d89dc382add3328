use fsprompt::generator::ProgressStage;
use fsprompt::session::{
    common_patterns, generate_enabled, generate_tooltip, level_label, minimal_patterns, selection_level,
    stage_label, Notice, Session,
};
use fsprompt::tree::TreeNode;
use fsprompt::types::{CanonicalPath, FileSize, OutputFormat, TokenLevel};

fn no_fs(_: &CanonicalPath) -> Option<Vec<(String, TreeNode)>> {
    None
}

#[test]
fn selection_levels_and_labels() {
    assert_eq!(selection_level(9_999), TokenLevel::Low);
    assert_eq!(selection_level(10_000), TokenLevel::Medium);
    assert_eq!(selection_level(49_999), TokenLevel::Medium);
    assert_eq!(selection_level(50_000), TokenLevel::High);
    assert_eq!(level_label(TokenLevel::Medium), "Medium");
    assert_eq!(stage_label(ProgressStage::ReadingFiles), "Reading");
}

#[test]
fn generate_button_state() {
    assert!(generate_enabled(false, true, 2));
    assert!(!generate_enabled(true, true, 2));
    assert_eq!(generate_tooltip(false, true, 2), "Generate output (Ctrl+G)");
    assert_eq!(generate_tooltip(false, false, 0), "Select a directory first");
    assert_eq!(generate_tooltip(false, true, 0), "Select files to include");
    assert_eq!(generate_tooltip(true, true, 3), "Generating...");
}

#[test]
fn pattern_presets_and_editing() {
    assert_eq!(common_patterns(), vec![".*", "node_modules", "__pycache__", "target", "build", "dist"]);
    assert_eq!(minimal_patterns(), vec![".*", "node_modules"]);
    let mut s = Session::new(Vec::new(), false, OutputFormat::Xml, 4);
    s.add_pattern("  *.log  ");
    s.add_pattern("   ");
    s.add_pattern("tmp");
    assert_eq!(s.ignore_patterns, vec!["*.log".to_string(), "tmp".to_string()]);
    s.remove_pattern(0);
    s.remove_pattern(7);
    assert_eq!(s.ignore_patterns, vec!["tmp".to_string()]);
}

fn node(path: &str, is_dir: bool) -> TreeNode {
    let size = if is_dir { None } else { Some(FileSize::from_bytes(4)) };
    TreeNode::new(CanonicalPath::new(path.to_string()), is_dir, size)
}

#[test]
fn refresh_reloads_the_opened_directory() {
    let mut s = Session::new(Vec::new(), true, OutputFormat::Xml, 4);
    assert!(s.refresh(node("/p", true), None).is_none());
    let _ = s.open_root(CanonicalPath::new("/p".to_string()), node("/p", true), Some(Vec::new()));
    s.files_changed = true;
    match s.refresh(node("/p", true), Some(vec![("a.rs".to_string(), node("/p/a.rs", false))])) {
        Some(Notice::Success(m)) => assert_eq!(m, "Directory refreshed"),
        _ => panic!("expected success"),
    }
    assert!(!s.files_changed);
    assert_eq!(s.tree.roots[0].children.len(), 1);
}

#[test]
fn selection_changes_are_recorded_once() {
    let mut s = Session::new(Vec::new(), true, OutputFormat::Xml, 4);
    let _ = s.open_root(
        CanonicalPath::new("/p".to_string()),
        node("/p", true),
        Some(vec![("a.rs".to_string(), node("/p/a.rs", false))]),
    );
    let before = s.capture_snapshot();
    assert!(!s.record_if_changed(before.clone()));
    assert!(!s.history.can_undo());
    s.tree.select_all();
    assert!(s.record_if_changed(before));
    assert!(s.history.can_undo());
    s.undo(&no_fs);
    assert!(s.tree.get_selected_files().is_empty());
}

#[test]
fn search_status_text() {
    let mut s = Session::new(Vec::new(), true, OutputFormat::Xml, 4);
    assert_eq!(s.search_status(), None);
    s.output.content = Some("ab ab".to_string());
    s.search.query = "ab".to_string();
    s.update_search_matches();
    assert_eq!(s.search_status(), Some("1 / 2".to_string()));
    s.search.query = "zz".to_string();
    s.update_search_matches();
    assert_eq!(s.search_status(), Some("No matches".to_string()));
    s.search.active = true;
    s.close_search();
    assert!(!s.search.active && s.search.query.is_empty());
}
