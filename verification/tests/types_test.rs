use fsprompt::types::{FileReadStrategy, FileSize, SelectionTracker, TokenCount, TokenLevel};
use fsprompt::patterns::PatternCache;

#[test]
fn test_token_count() {
    let tokens = TokenCount::from_chars(4000);
    assert_eq!(tokens.get(), 1000);
    assert_eq!(tokens.level(), TokenLevel::Medium);
}

#[test]
fn test_file_size_strategy() {
    let small = FileSize::from_bytes(1024);
    assert!(matches!(small.read_strategy(), FileReadStrategy::Direct));

    let large = FileSize::from_bytes(512 * 1024);
    assert!(matches!(large.read_strategy(), FileReadStrategy::MemoryMapped));
}

#[test]
fn test_selection_tracker() {
    let tracker = SelectionTracker::default();
    assert!(tracker.selected.is_empty());
}

#[test]
fn test_pattern_cache() {
    let patterns = vec![
        "*.rs".to_string(),
        "target/**".to_string(),
        "*.{txt,md}".to_string(),
    ];

    let cache = PatternCache::new(&patterns);

    assert!(cache.matches("main.rs"));
    assert!(cache.matches("target/debug/build"));
    assert!(cache.matches("readme.txt"));
    assert!(cache.matches("doc.md"));
    assert!(!cache.matches("main.py"));
}
