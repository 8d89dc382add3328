use fsprompt::fstree::{generate_filtered_tree_string, generate_tree_string, DirNode};
use fsprompt::generator::{
    build_output, failure_message, finish_generation, language_for_extension, reading_finished,
    ProgressCount, ProgressStage, WorkerEvent,
};
use fsprompt::types::{CanonicalPath, OutputFormat};

fn cp(s: &str) -> CanonicalPath {
    CanonicalPath::new(s.to_string())
}

fn contents() -> Vec<(CanonicalPath, Result<String, String>)> {
    vec![
        (cp("/p/main.rs"), Ok("fn main() {}".to_string())),
        (cp("/p/lib.rs"), Ok("pub fn f() {}\n".to_string())),
        (cp("/p/gone.rs"), Err("No such file".to_string())),
    ]
}

#[test]
fn xml_output_exact() {
    let (out, failed) = build_output(OutputFormat::Xml, "", &contents(), &cp("/p"));
    let expected = "<?xml version=\"1.0\" encoding=\"UTF-8\"?>\n<codebase>\n  <files>\n    <file path=\"main.rs\">\n      <content><![CDATA[fn main() {}]]></content>\n    </file>\n    <file path=\"lib.rs\">\n      <content><![CDATA[pub fn f() {}\n]]></content>\n    </file>\n  </files>\n</codebase>";
    assert_eq!(out, expected);
    assert_eq!(failed, vec!["gone.rs".to_string()]);
}

#[test]
fn markdown_output_with_tree() {
    let (out, failed) = build_output(OutputFormat::Markdown, "TREE\n", &contents()[..1].to_vec(), &cp("/p"));
    let expected = "# Codebase Export\n\n## Directory Structure\n\n```\nTREE\n```\n\n## Files\n\n## File: main.rs\n```rust\nfn main() {}\n```\n\n";
    assert_eq!(out, expected);
    assert!(failed.is_empty());
}

#[test]
fn failure_warning_lists_files() {
    let msg = failure_message(&vec!["a.rs".to_string(), "b.rs".to_string()]);
    assert_eq!(msg, "Warning: Failed to read 2 file(s): a.rs, b.rs");
}

#[test]
fn languages_by_extension() {
    assert_eq!(language_for_extension("rs"), "rust");
    assert_eq!(language_for_extension("yml"), "yaml");
    assert_eq!(language_for_extension("unknown"), "");
}

#[test]
fn finishing_reports_warning_progress_and_output() {
    let events = finish_generation(OutputFormat::Xml, &cp("/p"), &contents(), None, "", false);
    assert_eq!(events.len(), 3);
    match &events[0] {
        WorkerEvent::Error(m) => assert_eq!(m, "Warning: Failed to read 1 file(s): gone.rs"),
        _ => panic!("expected the warning first"),
    }
    assert!(matches!(
        events[1],
        WorkerEvent::Progress { stage: ProgressStage::BuildingOutput, progress: ProgressCount { current: 1, total: 1 } }
    ));
    match &events[2] {
        WorkerEvent::OutputReady { content, token_count } => {
            assert!(content.contains("fn main() {}"));
            assert_eq!(token_count.get(), content.chars().count() / 4);
        }
        _ => panic!("expected the output last"),
    }
}

#[test]
fn cancelled_generation_reports_no_output() {
    let events = finish_generation(OutputFormat::Xml, &cp("/p"), &contents(), None, "", true);
    assert_eq!(events.len(), 1);
    assert!(matches!(reading_finished(true), WorkerEvent::Cancelled));
    assert!(matches!(
        reading_finished(false),
        WorkerEvent::Progress { stage: ProgressStage::BuildingOutput, progress: ProgressCount { current: 0, total: 1 } }
    ));
}

fn dir(name: &str, children: Vec<DirNode>) -> DirNode {
    DirNode { name: name.to_string(), is_dir: true, children }
}

fn file(name: &str) -> DirNode {
    DirNode { name: name.to_string(), is_dir: false, children: Vec::new() }
}

#[test]
fn tree_text_sorts_and_draws_connectors() {
    let root = dir("p", vec![file("b.rs"), dir("src", vec![file("main.rs")]), file("a.rs")]);
    let text = generate_tree_string(root);
    let expected = "└── 📁 p\n    ├── 📁 src\n    │   └── 📄 main.rs\n    ├── 📄 a.rs\n    └── 📄 b.rs\n";
    assert_eq!(text, expected);
}

#[test]
fn filtered_tree_text_leaves_out_ignored_entries() {
    let root = dir("p", vec![file("keep.rs"), dir("target", vec![file("x")]), file("skip.log")]);
    let text = generate_filtered_tree_string(root, &vec!["target".to_string(), "*.log".to_string()]);
    assert_eq!(text, "└── 📁 p\n    └── 📄 keep.rs\n");
}
