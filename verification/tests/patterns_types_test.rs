use fsprompt::patterns::{compile_globs, glob_to_regex, PatternCache};
use fsprompt::types::{
    CanonicalPath, FileSize, FsEntry, FsEntryType, IgnorePattern, OutputFormat, OutputState,
    SearchState, SelectionState, SelectionTracker, Theme, TokenCount, TokenLevel,
    MEMORY_MAP_THRESHOLD,
};

#[test]
fn glob_regex_form() {
    assert_eq!(glob_to_regex("*.{txt,md}"), "^[^/]*\\.(txt|md)$");
    assert_eq!(glob_to_regex("a.rs"), "^a\\.rs$");
    assert_eq!(glob_to_regex("target/**"), "^target/[^/]*[^/]*$");
}

#[test]
fn invalid_globs_are_skipped() {
    let pats = vec!["[".to_string(), "*.rs".to_string()];
    let globs = compile_globs(&pats);
    assert_eq!(globs.len(), 1);
    assert_eq!(globs[0].as_str(), "*.rs");
}

#[test]
fn pattern_cache_without_patterns_matches_nothing() {
    let cache = PatternCache::new(&[]);
    assert!(!cache.matches("main.rs"));
}

#[test]
fn ignore_pattern_compiles_and_matches() {
    let p = IgnorePattern::new("*.log".to_string()).unwrap();
    assert_eq!(p.pattern, "*.log");
    assert!(p.matches("debug.log"));
    assert!(!p.matches("debug.txt"));
    assert!(IgnorePattern::new("[".to_string()).is_none());
}

#[test]
fn token_levels_and_estimates() {
    assert_eq!(TokenCount::new(999).level(), TokenLevel::Low);
    assert_eq!(TokenCount::new(1000).level(), TokenLevel::Medium);
    assert_eq!(TokenCount::new(9999).level(), TokenLevel::Medium);
    assert_eq!(TokenCount::new(10000).level(), TokenLevel::Medium);
    assert_eq!(TokenCount::new(10001).level(), TokenLevel::High);
    assert_eq!(TokenCount::from_chars(0).get(), 0);
    assert_eq!(TokenCount::from_chars(5).get(), 2);
}

#[test]
fn read_strategy_threshold() {
    assert_eq!(MEMORY_MAP_THRESHOLD, 256 * 1024);
    assert_eq!(FileSize::from_bytes(MEMORY_MAP_THRESHOLD - 1).bytes(), 262143);
    assert!(matches!(
        FileSize::from_bytes(MEMORY_MAP_THRESHOLD - 1).read_strategy(),
        fsprompt::types::FileReadStrategy::Direct
    ));
    assert!(matches!(
        FileSize::from_bytes(MEMORY_MAP_THRESHOLD).read_strategy(),
        fsprompt::types::FileReadStrategy::MemoryMapped
    ));
}

#[test]
fn fs_entry_kinds() {
    let f = FsEntry {
        path: CanonicalPath::new("/p/a".to_string()),
        name: "a".to_string(),
        entry_type: FsEntryType::File { size: FileSize::from_bytes(3) },
    };
    assert!(!f.is_dir());
    assert_eq!(f.file_size(), Some(FileSize::from_bytes(3)));
    let d = FsEntry {
        path: CanonicalPath::new("/p".to_string()),
        name: "p".to_string(),
        entry_type: FsEntryType::Directory,
    };
    assert!(d.is_dir());
    assert_eq!(d.file_size(), None);
}

#[test]
fn selection_tracker_checkpoint_bounds_history() {
    let mut t = SelectionTracker::default();
    t.selected.push(CanonicalPath::new("/p/a".to_string()));
    for _ in 0..25 {
        t.checkpoint();
    }
    assert_eq!(t.undo_stack.len(), SelectionTracker::MAX_HISTORY);
    assert!(t.redo_stack.is_empty());
    assert_eq!(t.undo_stack[0][0].as_path(), "/p/a");
}

#[test]
fn defaults() {
    assert_eq!(SelectionState::default(), SelectionState::Unchecked);
    assert_eq!(OutputFormat::default(), OutputFormat::Xml);
    assert_eq!(Theme::default(), Theme::System);
    let o = OutputState::default();
    assert!(o.content.is_none() && !o.generating);
    let s = SearchState::default();
    assert!(s.query.is_empty() && !s.active);
}
