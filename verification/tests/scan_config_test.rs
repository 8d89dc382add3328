use fsprompt::config::ConfigManager;
use fsprompt::paths::{is_within, join_path};
use fsprompt::scan::{build_tree_from_entries, estimate_from_sizes, read_decision, DirectoryEntry, ReadDecision};
use fsprompt::types::CanonicalPath;

fn cp(s: &str) -> CanonicalPath {
    CanonicalPath::new(s.to_string())
}

fn e(path: &str, is_dir: bool, parent: Option<&str>) -> DirectoryEntry {
    let name = path.rsplit('/').next().unwrap().to_string();
    DirectoryEntry { path: cp(path), is_dir, name, parent: parent.map(cp) }
}

#[test]
fn entries_grouped_under_parents_and_sorted() {
    let groups = build_tree_from_entries(vec![
        e("/p", true, None),
        e("/p/b.txt", false, Some("/p")),
        e("/p/src", true, Some("/p")),
        e("/p/src/z.rs", false, Some("/p/src")),
        e("/p/A.txt", false, Some("/p")),
        e("/p/src/a.rs", false, Some("/p/src")),
    ]);
    assert_eq!(groups.len(), 2);
    assert_eq!(groups[0].0.as_path(), "/p");
    let names: Vec<&str> = groups[0].1.iter().map(|x| x.name.as_str()).collect();
    assert_eq!(names, vec!["src", "A.txt", "b.txt"]);
    assert_eq!(groups[1].0.as_path(), "/p/src");
    let names: Vec<&str> = groups[1].1.iter().map(|x| x.name.as_str()).collect();
    assert_eq!(names, vec!["a.rs", "z.rs"]);
    assert!(build_tree_from_entries(Vec::new()).is_empty());
}

#[test]
fn read_decisions() {
    let root = cp("/p");
    match read_decision(&cp("/q/x"), &root, Some(1), 10) {
        ReadDecision::Refused(m) => assert_eq!(m, "Security error: path traversal detected"),
        _ => panic!("expected refusal"),
    }
    match read_decision(&cp("/p/x"), &root, None, 10) {
        ReadDecision::Unavailable(m) => {
            assert_eq!(m, "Failed to get metadata for /p/x: file may not exist or be inaccessible")
        }
        _ => panic!("expected unavailable"),
    }
    assert!(matches!(read_decision(&cp("/p/x"), &root, Some(11), 10), ReadDecision::MemoryMapped));
    assert!(matches!(read_decision(&cp("/p/x"), &root, Some(10), 10), ReadDecision::Direct));
    assert!(matches!(read_decision(&cp("/p"), &root, Some(0), 10), ReadDecision::Direct));
}

#[test]
fn containment_is_by_component() {
    assert!(is_within("/p/a", "/p"));
    assert!(is_within("/p", "/p"));
    assert!(!is_within("/pa", "/p"));
    assert!(is_within("/x", "/"));
    assert!(cp("/p/a/b").is_contained_within(&cp("/p/a")));
}

#[test]
fn config_file_location() {
    assert_eq!(
        ConfigManager::in_dir(Some("/home/u/.config".to_string())).config_path(),
        "/home/u/.config/fsprompt/config.json"
    );
    assert_eq!(ConfigManager::in_dir(None).config_path(), "./fsprompt/config.json");
    assert_eq!(ConfigManager::in_dir(Some("/".to_string())).config_path(), "/fsprompt/config.json");
    assert!(ConfigManager::new().config_path().ends_with("fsprompt/config.json"));
    assert_eq!(join_path("", "a"), "a");
    assert_eq!(join_path("b/", "a"), "b/a");
}

#[test]
fn selection_estimate_is_a_quarter_of_each_readable_size() {
    assert_eq!(estimate_from_sizes(&[]), 0);
    assert_eq!(estimate_from_sizes(&[Some(400), None, Some(7), Some(3)]), 101);
    assert_eq!(estimate_from_sizes(&[None, None]), 0);
    assert_eq!(estimate_from_sizes(&[Some(u64::MAX), Some(u64::MAX), Some(u64::MAX), Some(u64::MAX), Some(u64::MAX)]), usize::MAX);
}
