use fsprompt::dirtree::DirectoryTree;
use fsprompt::tree::TreeNode;
use fsprompt::types::{CanonicalPath, FileSize, SelectionState};

fn node(path: &str, is_dir: bool) -> TreeNode {
    let size = if is_dir { None } else { Some(FileSize::from_bytes(10)) };
    TreeNode::new(CanonicalPath::new(path.to_string()), is_dir, size)
}

fn entry(path: &str, is_dir: bool) -> (String, TreeNode) {
    let n = node(path, is_dir);
    (n.name.clone(), n)
}

fn no_fs(_: &CanonicalPath) -> Option<Vec<(String, TreeNode)>> {
    None
}

/// An in-memory file system: `/p` holds `src` and `top.txt`, `/p/src` holds `deep` and `a.rs`,
/// `/p/src/deep` holds `z.rs`.
fn mem_fs(p: &CanonicalPath) -> Option<Vec<(String, TreeNode)>> {
    match p.as_path() {
        "/p" => Some(vec![entry("/p/top.txt", false), entry("/p/src", true)]),
        "/p/src" => Some(vec![entry("/p/src/a.rs", false), entry("/p/src/deep", true)]),
        "/p/src/deep" => Some(vec![entry("/p/src/deep/z.rs", false)]),
        _ => None,
    }
}

fn depth_of(n: &TreeNode) -> usize {
    1 + n.children.iter().map(depth_of).max().unwrap_or(0)
}

fn src_tree() -> TreeNode {
    let mut src = node("/p/src", true);
    src.load_children(Some(vec![entry("/p/src/b.rs", false), entry("/p/src/a.rs", false)]));
    src
}

#[test]
fn new_node_takes_last_component_as_name() {
    let n = node("/p/src/main.rs", false);
    assert_eq!(n.name, "main.rs");
    assert_eq!(n.selection, SelectionState::Unchecked);
    assert!(!n.children_loaded);
    assert_eq!(n.file_size, Some(FileSize::from_bytes(10)));
    let d = node("/p/src", true);
    assert_eq!(d.file_size, None);
    assert!(d.needs_loading());
}

#[test]
fn loading_sorts_directories_first_then_by_lowercase_name() {
    let mut root = node("/p", true);
    root.load_children(Some(vec![
        entry("/p/Zeta.txt", false),
        entry("/p/alpha.txt", false),
        entry("/p/tests", true),
        entry("/p/Src", true),
    ]));
    let names: Vec<String> = root.children.iter().map(|c| c.name.clone()).collect();
    assert_eq!(names, vec!["Src", "tests", "alpha.txt", "Zeta.txt"]);
    assert!(root.children_loaded);
}

#[test]
fn unreadable_directory_keeps_its_children() {
    let mut d = node("/p/locked", true);
    d.load_children(None);
    assert!(d.children_loaded);
    assert!(d.children.is_empty());
}

#[test]
fn test_directory_selection_propagation_in_memory() {
    let mut src = src_tree();
    src.set_selection(SelectionState::Checked, &no_fs);
    assert!(src.expanded);
    assert!(src.children.iter().all(|c| c.selection == SelectionState::Checked));
    src.children[0].set_selection(SelectionState::Unchecked, &no_fs);
    src.update_parent_selection();
    assert_eq!(src.selection, SelectionState::Indeterminate);
    src.children[1].set_selection(SelectionState::Unchecked, &no_fs);
    src.update_parent_selection();
    assert_eq!(src.selection, SelectionState::Unchecked);
}

#[test]
fn debug_listing() {
    let src = src_tree();
    let text = src.debug_tree(0);
    let expected = "[DIR] src - Unchecked (path: /p/src)\n  (loaded: true, expanded: false, 2 children)\n  [FILE] a.rs - Unchecked (path: /p/src/a.rs)\n  [FILE] b.rs - Unchecked (path: /p/src/b.rs)\n";
    assert_eq!(text, expected);
}

#[test]
fn directory_tree_selection_and_snapshot() {
    let mut tree = DirectoryTree::new();
    let root = node("/p", true);
    tree.set_root(root, Some(vec![entry("/p/src", true), entry("/p/readme.md", false)]));
    assert_eq!(tree.roots.len(), 1);
    assert!(tree.roots[0].expanded);
    assert_eq!(tree.roots[0].children.len(), 2);
    tree.select_all();
    let selected: Vec<String> = tree.get_selected_files();
    assert_eq!(selected, vec!["/p/readme.md".to_string()]);
    let collected = tree.collect_selected_files();
    assert_eq!(collected.len(), 1);
    assert_eq!(collected[0].as_path(), "/p/readme.md");
    tree.deselect_all();
    assert!(tree.get_selected_files().is_empty());
}

#[test]
fn ignore_patterns_leave_out_matching_entries() {
    let mut tree = DirectoryTree::new();
    tree.set_ignore_patterns("node_modules, .*", &no_fs);
    tree.set_root(
        node("/p", true),
        Some(vec![
            entry("/p/file.rs", false),
            entry("/p/.hidden", false),
            entry("/p/node_modules", true),
        ]),
    );
    let names: Vec<String> = tree.roots[0].children.iter().map(|c| c.name.clone()).collect();
    assert_eq!(names, vec!["file.rs"]);
}

#[test]
fn flattened_rows_follow_expansion_and_search() {
    let mut tree = DirectoryTree::new();
    tree.set_root(node("/p", true), Some(vec![entry("/p/src", true), entry("/p/main.rs", false)]));
    tree.flatten_tree("");
    assert!(!tree.needs_flattening());
    let rows: Vec<String> = tree.flattened().iter().map(|r| r.name.clone()).collect();
    assert_eq!(rows, vec!["src", "main.rs"]);
    // An unloaded directory might hold a match, so it stays visible.
    tree.flatten_tree("main");
    let rows: Vec<String> = tree.flattened().iter().map(|r| r.name.clone()).collect();
    assert_eq!(rows, vec!["src", "main.rs"]);
    tree.load_at(&[0, 0], Some(Vec::new()));
    tree.flatten_tree("main");
    let rows: Vec<String> = tree.flattened().iter().map(|r| r.name.clone()).collect();
    assert_eq!(rows, vec!["main.rs"]);
}

#[test]
fn tree_text_of_the_widget() {
    let mut tree = DirectoryTree::new();
    tree.set_root(node("/p", true), Some(vec![entry("/p/src", true), entry("/p/main.rs", false)]));
    let text = tree.generate_tree_string();
    assert!(text.contains("p"));
    assert!(text.contains("main.rs"));
}

#[test]
fn checking_a_directory_loads_and_checks_its_subtree() {
    let mut root = node("/p", true);
    root.set_selection(SelectionState::Checked, &mem_fs);
    assert!(root.children_loaded && root.expanded);
    let src = &root.children[0];
    assert_eq!(src.name, "src");
    assert!(src.children_loaded && src.expanded);
    let deep = &src.children[0];
    assert_eq!(deep.name, "deep");
    assert!(deep.children_loaded && deep.expanded);
    assert_eq!(deep.children[0].selection, SelectionState::Checked);
    let mut tree = DirectoryTree::new();
    tree.set_root(node("/p", true), mem_fs(&CanonicalPath::new("/p".to_string())));
    assert!(tree.select_at(&[0, 0], SelectionState::Checked, &mem_fs));
    let files: Vec<String> = tree.collect_selected_files().iter().map(|p| p.as_path().to_string()).collect();
    assert_eq!(files, vec!["/p/src/deep/z.rs", "/p/src/a.rs"]);
}

#[test]
fn loading_on_check_stops_twenty_levels_down() {
    // Every directory lists itself again, as a symbolic link to an ancestor would.
    let cycle = |p: &CanonicalPath| Some(vec![entry(&format!("{}/loop", p.as_path()), true)]);
    let mut root = node("/c", true);
    root.set_selection(SelectionState::Checked, &cycle);
    assert_eq!(depth_of(&root), 21);
    let mut n = &root;
    for _ in 0..20 {
        assert!(n.children_loaded);
        n = &n.children[0];
    }
    assert!(!n.children_loaded);
    let mut shallow = node("/c", true);
    shallow.load_children_recursive(0, 2, &cycle);
    assert_eq!(depth_of(&shallow), 3);
    assert!(shallow.children[0].expanded);
    assert!(!shallow.children[0].children[0].children_loaded);
}

#[test]
fn unchecking_reads_nothing() {
    let mut root = node("/p", true);
    root.set_selection(SelectionState::Unchecked, &mem_fs);
    assert!(!root.children_loaded);
}

#[test]
fn changing_patterns_reloads_expanded_directories() {
    let mut tree = DirectoryTree::new();
    tree.set_root(node("/p", true), mem_fs(&CanonicalPath::new("/p".to_string())));
    // Expand and load src, then deep.
    assert_eq!(tree.toggle_expanded(&[0, 0]), Some(true));
    tree.load_at(&[0, 0], mem_fs(&CanonicalPath::new("/p/src".to_string())));
    assert_eq!(tree.toggle_expanded(&[0, 0, 0]), Some(true));
    tree.load_at(&[0, 0, 0], mem_fs(&CanonicalPath::new("/p/src/deep".to_string())));
    tree.set_ignore_patterns("*.txt, a.rs", &mem_fs);
    let root = &tree.roots[0];
    let names: Vec<String> = root.children.iter().map(|c| c.name.clone()).collect();
    assert_eq!(names, vec!["src"]);
    let src = &root.children[0];
    assert!(src.expanded && src.children_loaded);
    let src_names: Vec<String> = src.children.iter().map(|c| c.name.clone()).collect();
    assert_eq!(src_names, vec!["deep"]);
    let deep = &src.children[0];
    assert!(deep.expanded && deep.children_loaded);
    assert_eq!(deep.children[0].name, "z.rs");
}

#[test]
fn search_is_smart_case_subsequence() {
    let mut tree = DirectoryTree::new();
    tree.set_root(
        node("/p", true),
        Some(vec![entry("/p/MAIN.rs", false), entry("/p/lib.rs", false), entry("/p/Main.txt", false)]),
    );
    // A lowercase pattern ignores ASCII case and may skip characters.
    tree.flatten_tree("mrs");
    let rows: Vec<String> = tree.flattened().iter().map(|r| r.name.clone()).collect();
    assert_eq!(rows, vec!["MAIN.rs"]);
    // A pattern with a capital compares exactly.
    tree.flatten_tree("Ma");
    let rows: Vec<String> = tree.flattened().iter().map(|r| r.name.clone()).collect();
    assert_eq!(rows, vec!["Main.txt"]);
    tree.flatten_tree("");
    assert_eq!(tree.flattened().len(), 3);
}

#[test]
fn restoring_a_snapshot_gives_exactly_its_selection() {
    let mut tree = DirectoryTree::new();
    tree.set_root(node("/p", true), mem_fs(&CanonicalPath::new("/p".to_string())));
    assert!(tree.select_at(&[0, 1], SelectionState::Checked, &no_fs));
    let recorded = tree.get_selected_files();
    assert_eq!(recorded, vec!["/p/top.txt"]);
    assert!(tree.select_at(&[0, 1], SelectionState::Unchecked, &no_fs));
    assert!(tree.select_at(&[0, 0], SelectionState::Checked, &mem_fs));
    assert_eq!(tree.get_selected_files(), vec!["/p/src/deep/z.rs", "/p/src/a.rs"]);
    tree.restore_selection(&recorded, &[], &no_fs);
    assert_eq!(tree.get_selected_files(), vec!["/p/top.txt"]);
}

#[test]
fn selected_and_expanded_paths_are_listed_once() {
    let mut tree = DirectoryTree::new();
    tree.set_root(node("/p", true), Some(vec![entry("/p/a.rs", false), entry("/p/a.rs", false)]));
    assert!(tree.select_at(&[0, 0], SelectionState::Checked, &no_fs));
    assert!(tree.select_at(&[0, 1], SelectionState::Checked, &no_fs));
    assert_eq!(tree.collect_selected_files().len(), 2);
    assert_eq!(tree.get_selected_files(), vec!["/p/a.rs"]);
    assert_eq!(tree.get_expanded_dirs(), vec!["/p"]);
}

#[test]
fn restoring_reads_the_listed_directories() {
    let mut tree = DirectoryTree::new();
    tree.set_root(node("/p", true), mem_fs(&CanonicalPath::new("/p".to_string())));
    assert!(!tree.roots[0].children[0].children_loaded);
    tree.restore_selection(&["/p/src/a.rs".to_string()], &["/p".to_string(), "/p/src".to_string()], &mem_fs);
    let src = &tree.roots[0].children[0];
    assert!(src.children_loaded && src.expanded);
    assert_eq!(src.children[1].name, "a.rs");
    assert_eq!(src.children[1].selection, SelectionState::Checked);
    assert_eq!(src.selection, SelectionState::Indeterminate);
    // deep is not listed, so it stays unread.
    assert!(!src.children[0].children_loaded);
    assert_eq!(tree.get_selected_files(), vec!["/p/src/a.rs"]);
    assert_eq!(tree.get_expanded_dirs(), vec!["/p", "/p/src"]);
}

#[test]
fn restoring_stops_where_a_directory_lists_itself() {
    // The directory lists itself, as a link to itself would after canonicalisation.
    let selfish = |p: &CanonicalPath| Some(vec![(String::from("self"), node(p.as_path(), true))]);
    let mut tree = DirectoryTree::new();
    tree.set_root(node("/c", true), selfish(&CanonicalPath::new("/c".to_string())));
    tree.restore_selection(&[], &["/c".to_string()], &selfish);
    assert!(tree.roots[0].children[0].expanded);
    assert!(!tree.roots[0].children[0].children_loaded);
}

#[test]
fn the_empty_view_says_why() {
    let mut tree = DirectoryTree::new();
    tree.flatten_tree("");
    assert_eq!(tree.empty_status(""), Some("No directory selected".to_string()));
    let mut unloaded = DirectoryTree::new();
    unloaded.roots.push(node("/p", true));
    assert_eq!(unloaded.empty_status(""), Some("Loading directory contents...".to_string()));
    tree.set_root(node("/p", true), Some(Vec::new()));
    tree.flatten_tree("");
    assert_eq!(tree.empty_status(""), Some("Directory is empty".to_string()));
    tree.set_root(node("/p", true), Some(vec![entry("/p/a.rs", false)]));
    assert!(tree.should_flatten(""));
    tree.flatten_tree("zzz");
    assert_eq!(tree.empty_status("zzz"), Some("No files match your search".to_string()));
    tree.flatten_tree("");
    assert!(!tree.should_flatten(""));
    assert!(tree.should_flatten("a"));
    assert_eq!(tree.empty_status(""), None);
}
