//! Building the prompt text (XML or Markdown) from the files that were read,
//! and the events a generation reports.

use vstd::prelude::*;
use crate::fstree::{generate_filtered_tree_string, render_fs, DirNode};
use crate::patterns::compiling_globs;
use crate::paths::{extension, extension_of_path, relative_path, relative_to, starts_with};
use crate::text::{comma_list, join, join_strings, decimal, ends_with_char, push_decimal, push_str, split_comma_list, str_ends_with_char, str_eq, views};
use crate::types::{CanonicalPath, OutputFormat, TokenCount};

verus! {

/// Commands sent to the worker.
#[derive(Debug)]
pub enum WorkerCommand {
    /// Generate output from selected files
    GenerateOutput {
        /// Root directory path
        root_path: CanonicalPath,
        /// Selected files
        selected_files: Vec<CanonicalPath>,
        /// Output format
        format: OutputFormat,
        /// Whether to include the directory tree
        include_tree: bool,
        /// Ignore patterns (comma-separated)
        ignore_patterns: String,
    },
    /// Cancel the current operation
    Cancel,
}

/// Stages of an output generation.
#[derive(Debug, Clone, Copy, PartialEq, Eq, Structural)]
pub enum ProgressStage {
    /// Scanning the filesystem
    ScanningFiles,
    /// Reading file contents
    ReadingFiles,
    /// Building the final output
    BuildingOutput,
}

/// Progress of a stage: items done out of a total.
#[derive(Debug, Clone, Copy, PartialEq, Eq, Structural)]
pub struct ProgressCount {
    /// Items done
    pub current: usize,
    /// Items in total
    pub total: usize,
}

/// Events sent by the worker.
#[derive(Debug)]
pub enum WorkerEvent {
    /// Progress update
    Progress {
        /// Current stage
        stage: ProgressStage,
        /// Progress count
        progress: ProgressCount,
    },
    /// Output generation complete
    OutputReady {
        /// Generated content
        content: String,
        /// Estimated token count
        token_count: TokenCount,
    },
    /// Error occurred
    Error(String),
    /// Operation cancelled
    Cancelled,
}

/// The fence language of a file extension in Markdown output; empty when unknown.
pub open spec fn language_of(ext: Seq<char>) -> Seq<char> {
    if ext == "rs"@ {
        "rust"@
    } else if ext == "js"@ {
        "javascript"@
    } else if ext == "ts"@ {
        "typescript"@
    } else if ext == "py"@ {
        "python"@
    } else if ext == "java"@ {
        "java"@
    } else if ext == "c"@ || ext == "h"@ {
        "c"@
    } else if ext == "cpp"@ || ext == "hpp"@ || ext == "cc"@ || ext == "cxx"@ {
        "cpp"@
    } else if ext == "cs"@ {
        "csharp"@
    } else if ext == "go"@ {
        "go"@
    } else if ext == "rb"@ {
        "ruby"@
    } else if ext == "php"@ {
        "php"@
    } else if ext == "swift"@ {
        "swift"@
    } else if ext == "kt"@ {
        "kotlin"@
    } else if ext == "scala"@ {
        "scala"@
    } else if ext == "r"@ {
        "r"@
    } else if ext == "m"@ {
        "objective-c"@
    } else if ext == "pl"@ {
        "perl"@
    } else if ext == "lua"@ {
        "lua"@
    } else if ext == "sh"@ || ext == "bash"@ {
        "bash"@
    } else if ext == "sql"@ {
        "sql"@
    } else if ext == "html"@ || ext == "htm"@ {
        "html"@
    } else if ext == "css"@ {
        "css"@
    } else if ext == "xml"@ {
        "xml"@
    } else if ext == "json"@ {
        "json"@
    } else if ext == "yaml"@ || ext == "yml"@ {
        "yaml"@
    } else if ext == "toml"@ {
        "toml"@
    } else if ext == "md"@ {
        "markdown"@
    } else {
        ""@
    }
}

/// The fence language of a file extension in Markdown output; empty when unknown.
pub fn language_for_extension(ext: &str) -> (r: &'static str)
    ensures
        r@ == language_of(ext@),
{
    if str_eq(ext, "rs") {
        "rust"
    } else if str_eq(ext, "js") {
        "javascript"
    } else if str_eq(ext, "ts") {
        "typescript"
    } else if str_eq(ext, "py") {
        "python"
    } else if str_eq(ext, "java") {
        "java"
    } else if str_eq(ext, "c") || str_eq(ext, "h") {
        "c"
    } else if str_eq(ext, "cpp") || str_eq(ext, "hpp") || str_eq(ext, "cc") || str_eq(ext, "cxx") {
        "cpp"
    } else if str_eq(ext, "cs") {
        "csharp"
    } else if str_eq(ext, "go") {
        "go"
    } else if str_eq(ext, "rb") {
        "ruby"
    } else if str_eq(ext, "php") {
        "php"
    } else if str_eq(ext, "swift") {
        "swift"
    } else if str_eq(ext, "kt") {
        "kotlin"
    } else if str_eq(ext, "scala") {
        "scala"
    } else if str_eq(ext, "r") {
        "r"
    } else if str_eq(ext, "m") {
        "objective-c"
    } else if str_eq(ext, "pl") {
        "perl"
    } else if str_eq(ext, "lua") {
        "lua"
    } else if str_eq(ext, "sh") || str_eq(ext, "bash") {
        "bash"
    } else if str_eq(ext, "sql") {
        "sql"
    } else if str_eq(ext, "html") || str_eq(ext, "htm") {
        "html"
    } else if str_eq(ext, "css") {
        "css"
    } else if str_eq(ext, "xml") {
        "xml"
    } else if str_eq(ext, "json") {
        "json"
    } else if str_eq(ext, "yaml") || str_eq(ext, "yml") {
        "yaml"
    } else if str_eq(ext, "toml") {
        "toml"
    } else if str_eq(ext, "md") {
        "markdown"
    } else {
        ""
    }
}

/// What is added after a file's content so that the closing marker starts a new line.
pub open spec fn line_end_fix(content: Seq<char>) -> Seq<char> {
    if ends_with_char(content, '\n') {
        Seq::empty()
    } else {
        seq!['\n']
    }
}

/// The XML element of one file: its path, then its content as character data.
pub open spec fn xml_file_entry(rel: Seq<char>, content: Seq<char>) -> Seq<char> {
    "    <file path=\""@ + rel + "\">\n"@ + "      <content><![CDATA["@ + content
        + "]]></content>\n"@ + "    </file>\n"@
}

/// The Markdown section of one file: a `## File:` heading, then the content fenced.
pub open spec fn md_file_entry(rel: Seq<char>, lang: Seq<char>, content: Seq<char>) -> Seq<char> {
    "## File: "@ + rel + "\n"@ + "```"@ + lang + "\n"@ + content + line_end_fix(content) + "```\n\n"@
}

/// The fence language of a file path.
pub open spec fn language_of_path(p: Seq<char>) -> Seq<char> {
    match extension_of_path(p) {
        Some(e) => language_of(e),
        None => language_of(Seq::empty()),
    }
}

/// The text that one read result adds to the output: nothing for a file that could not be read.
pub open spec fn entry_text(format: OutputFormat, e: (CanonicalPath, Result<String, String>), root: Seq<char>) -> Seq<char> {
    match e.1 {
        Ok(c) => match format {
            OutputFormat::Xml => xml_file_entry(relative_to(e.0@, root), c@),
            OutputFormat::Markdown => md_file_entry(
                relative_to(e.0@, root),
                language_of_path(e.0@),
                c@,
            ),
        },
        Err(_) => Seq::empty(),
    }
}

/// The texts of all read results, in order.
pub open spec fn file_entries(format: OutputFormat, entries: Seq<(CanonicalPath, Result<String, String>)>, root: Seq<char>) -> Seq<char>
    decreases entries.len(),
{
    if entries.len() == 0 {
        Seq::empty()
    } else {
        file_entries(format, entries.drop_last(), root) + entry_text(format, entries.last(), root)
    }
}

/// The relative paths of the files that could not be read, in order.
pub open spec fn failed_files(entries: Seq<(CanonicalPath, Result<String, String>)>, root: Seq<char>) -> Seq<Seq<char>>
    decreases entries.len(),
{
    if entries.len() == 0 {
        Seq::empty()
    } else if entries.last().1 is Err {
        failed_files(entries.drop_last(), root).push(relative_to(entries.last().0@, root))
    } else {
        failed_files(entries.drop_last(), root)
    }
}

/// The whole output: header, directory tree when there is one, then the files.
pub open spec fn output_text(format: OutputFormat, tree: Seq<char>, entries: Seq<(CanonicalPath, Result<String, String>)>, root: Seq<char>) -> Seq<char> {
    match format {
        OutputFormat::Xml => "<?xml version=\"1.0\" encoding=\"UTF-8\"?>\n<codebase>\n"@ + (if tree.len() > 0 {
            "  <directory_tree>\n"@ + "<![CDATA[\n"@ + tree + "]]>\n"@ + "  </directory_tree>\n\n"@
        } else {
            Seq::empty()
        }) + "  <files>\n"@ + file_entries(format, entries, root) + "  </files>\n</codebase>"@,
        OutputFormat::Markdown => "# Codebase Export\n\n"@ + (if tree.len() > 0 {
            "## Directory Structure\n\n```\n"@ + tree + "```\n\n"@
        } else {
            Seq::empty()
        }) + "## Files\n\n"@ + file_entries(format, entries, root),
    }
}

/// Whether `small` occurs in `big` starting at position `k`.
pub open spec fn occurs_at(big: Seq<char>, small: Seq<char>, k: int) -> bool {
    0 <= k && k + small.len() <= big.len() && big.subrange(k, k + small.len()) == small
}

proof fn lemma_occurs_in_concat(a: Seq<char>, b: Seq<char>, c: Seq<char>, small: Seq<char>, k: int)
    requires
        occurs_at(b, small, k),
    ensures
        occurs_at(a + b + c, small, a.len() + k),
{
    assert((a + b + c).subrange(a.len() + k, a.len() + k + small.len()) =~= b.subrange(k, k + small.len()));
}

proof fn lemma_entry_in_entries(format: OutputFormat, entries: Seq<(CanonicalPath, Result<String, String>)>, root: Seq<char>, i: int)
    requires
        0 <= i < entries.len(),
    ensures
        occurs_at(
            file_entries(format, entries, root),
            entry_text(format, entries[i], root),
            file_entries(format, entries.take(i), root).len() as int,
        ),
    decreases entries.len(),
{
    let fe = file_entries(format, entries, root);
    let d = entries.drop_last();
    if i == entries.len() - 1 {
        assert(entries.take(i) =~= d);
        let et = entry_text(format, entries[i], root);
        assert(et.subrange(0, et.len() as int) =~= et);
        lemma_occurs_in_concat(file_entries(format, d, root), entry_text(format, entries[i], root), Seq::empty(), entry_text(format, entries[i], root), 0);
        assert(file_entries(format, d, root) + entry_text(format, entries[i], root) + Seq::<char>::empty() =~= fe);
    } else {
        lemma_entry_in_entries(format, d, root, i);
        assert(d.take(i) =~= entries.take(i));
        assert(d[i] == entries[i]);
        lemma_occurs_in_concat(Seq::empty(), file_entries(format, d, root), entry_text(format, entries.last(), root), entry_text(format, entries[i], root), file_entries(format, d.take(i), root).len() as int);
        assert(Seq::<char>::empty() + file_entries(format, d, root) + entry_text(format, entries.last(), root) =~= fe);
    }
}

/// Every file that was read has its content in the output, in either format: the output
/// text holds the content, character for character, at some position.
pub proof fn law_read_content_in_output(format: OutputFormat, tree: Seq<char>, entries: Seq<(CanonicalPath, Result<String, String>)>, root: Seq<char>, i: int)
    requires
        0 <= i < entries.len(),
        entries[i].1 is Ok,
    ensures
        exists|k: int| occurs_at(output_text(format, tree, entries, root), entries[i].1->Ok_0@, k),
{
    let c = entries[i].1->Ok_0@;
    let e = entry_text(format, entries[i], root);
    let fe = file_entries(format, entries, root);
    lemma_entry_in_entries(format, entries, root, i);
    let k1 = file_entries(format, entries.take(i), root).len() as int;
    let rel = relative_to(entries[i].0@, root);
    let pre: Seq<char> = match format {
        OutputFormat::Xml => "    <file path=\""@ + rel + "\">\n"@ + "      <content><![CDATA["@,
        OutputFormat::Markdown => "## File: "@ + rel + "\n"@ + "```"@ + language_of_path(entries[i].0@) + "\n"@,
    };
    let post: Seq<char> = match format {
        OutputFormat::Xml => "]]></content>\n"@ + "    </file>\n"@,
        OutputFormat::Markdown => line_end_fix(c) + "```\n\n"@,
    };
    assert(e =~= pre + c + post);
    assert(occurs_at(c, c, 0)) by {
        assert(c.subrange(0, c.len() as int) =~= c);
    }
    lemma_occurs_in_concat(pre, c, post, c, 0);
    // The entry sits inside the file entries, and the content inside the entry.
    let k2 = k1 + pre.len();
    assert(fe.subrange(k2, k2 + c.len()) =~= fe.subrange(k1, k1 + e.len()).subrange(pre.len() as int, (pre.len() + c.len()) as int));
    assert(occurs_at(fe, c, k2));
    let head: Seq<char> = match format {
        OutputFormat::Xml => "<?xml version=\"1.0\" encoding=\"UTF-8\"?>\n<codebase>\n"@ + (if tree.len() > 0 {
            "  <directory_tree>\n"@ + "<![CDATA[\n"@ + tree + "]]>\n"@ + "  </directory_tree>\n\n"@
        } else {
            Seq::empty()
        }) + "  <files>\n"@,
        OutputFormat::Markdown => "# Codebase Export\n\n"@ + (if tree.len() > 0 {
            "## Directory Structure\n\n```\n"@ + tree + "```\n\n"@
        } else {
            Seq::empty()
        }) + "## Files\n\n"@,
    };
    let tail: Seq<char> = match format {
        OutputFormat::Xml => "  </files>\n</codebase>"@,
        OutputFormat::Markdown => Seq::empty(),
    };
    assert(output_text(format, tree, entries, root) =~= head + fe + tail);
    lemma_occurs_in_concat(head, fe, tail, c, k2);
}

/// The opening of a file's entry naming it `shown`, up to where its content starts.
pub open spec fn entry_opening(format: OutputFormat, shown: Seq<char>, path: Seq<char>) -> Seq<char> {
    match format {
        OutputFormat::Xml => "    <file path=\""@ + shown + "\">\n"@ + "      <content><![CDATA["@,
        OutputFormat::Markdown => "## File: "@ + shown + "\n"@ + "```"@ + language_of_path(path) + "\n"@,
    }
}

/// Each file that was read is named in the output by its path relative to the root: for a
/// file at `root/rel` (the root given without a trailing `/`), the output holds the entry
/// heading naming `rel` (`<file path="rel">` in XML, `## File: rel` in Markdown) followed
/// directly by the opening of its content and the content itself.
pub proof fn law_entries_named_relative_to_root(
    format: OutputFormat,
    tree: Seq<char>,
    entries: Seq<(CanonicalPath, Result<String, String>)>,
    root: Seq<char>,
    rel: Seq<char>,
    i: int,
)
    requires
        0 <= i < entries.len(),
        entries[i].1 is Ok,
        root.len() > 0,
        root.last() != '/',
        entries[i].0@ == root + seq!['/'] + rel,
    ensures
        exists|k: int|
            #[trigger] occurs_at(
                output_text(format, tree, entries, root),
                entry_opening(format, rel, entries[i].0@) + entries[i].1->Ok_0@,
                k,
            ),
{
    let p = entries[i].0@;
    assert(p != root) by {
        assert(p.len() == root.len() + 1 + rel.len());
    }
    assert(!starts_with(p, root) || root.last() != '/');
    assert(p.take(root.len() + 1 as int) =~= root.push('/'));
    assert(p.skip(root.len() + 1 as int) =~= rel);
    assert(relative_to(p, root) == rel);
    let c = entries[i].1->Ok_0@;
    let e = entry_text(format, entries[i], root);
    let fe = file_entries(format, entries, root);
    lemma_entry_in_entries(format, entries, root, i);
    let k1 = file_entries(format, entries.take(i), root).len() as int;
    let pre: Seq<char> = match format {
        OutputFormat::Xml => "    <file path=\""@ + rel + "\">\n"@ + "      <content><![CDATA["@,
        OutputFormat::Markdown => "## File: "@ + rel + "\n"@ + "```"@ + language_of_path(p) + "\n"@,
    };
    let post: Seq<char> = match format {
        OutputFormat::Xml => "]]></content>\n"@ + "    </file>\n"@,
        OutputFormat::Markdown => line_end_fix(c) + "```\n\n"@,
    };
    let pc = pre + c;
    assert(pre == entry_opening(format, rel, p));
    assert(e =~= Seq::<char>::empty() + pc + post);
    assert(occurs_at(pc, pc, 0)) by {
        assert(pc.subrange(0, pc.len() as int) =~= pc);
    }
    lemma_occurs_in_concat(Seq::empty(), pc, post, pc, 0);
    assert(fe.subrange(k1, k1 + pc.len()) =~= fe.subrange(k1, k1 + e.len()).subrange(0, pc.len() as int));
    assert(occurs_at(fe, pc, k1));
    let head: Seq<char> = match format {
        OutputFormat::Xml => "<?xml version=\"1.0\" encoding=\"UTF-8\"?>\n<codebase>\n"@ + (if tree.len() > 0 {
            "  <directory_tree>\n"@ + "<![CDATA[\n"@ + tree + "]]>\n"@ + "  </directory_tree>\n\n"@
        } else {
            Seq::empty()
        }) + "  <files>\n"@,
        OutputFormat::Markdown => "# Codebase Export\n\n"@ + (if tree.len() > 0 {
            "## Directory Structure\n\n```\n"@ + tree + "```\n\n"@
        } else {
            Seq::empty()
        }) + "## Files\n\n"@,
    };
    let tail: Seq<char> = match format {
        OutputFormat::Xml => "  </files>\n</codebase>"@,
        OutputFormat::Markdown => Seq::empty(),
    };
    assert(output_text(format, tree, entries, root) =~= head + fe + tail);
    lemma_occurs_in_concat(head, fe, tail, pc, k1);
}

/// The warning about files that could not be read.
pub open spec fn failure_warning(failed: Seq<Seq<char>>) -> Seq<char> {
    "Warning: Failed to read "@ + decimal(failed.len()) + " file(s): "@ + join(failed, ", "@)
}

fn push_entry(out: &mut String, failed: &mut Vec<String>, format: OutputFormat, e: &(CanonicalPath, Result<String, String>), root: &CanonicalPath)
    ensures
        final(out)@ == old(out)@ + entry_text(format, *e, root@),
        views(final(failed)@) == if e.1 is Err {
            views(old(failed)@).push(relative_to(e.0@, root@))
        } else {
            views(old(failed)@)
        },
{
    let rel = relative_path(e.0.as_path(), root.as_path());
    match &e.1 {
        Ok(content) => {
            let fix = !str_ends_with_char(content.as_str(), '\n');
            match format {
                OutputFormat::Xml => {
                    push_str(out, "    <file path=\"");
                    push_str(out, rel.as_str());
                    push_str(out, "\">\n");
                    push_str(out, "      <content><![CDATA[");
                    push_str(out, content.as_str());
                    push_str(out, "]]></content>\n");
                    push_str(out, "    </file>\n");
                    assert(out@ =~= old(out)@ + xml_file_entry(rel@, content@));
                },
                OutputFormat::Markdown => {
                    let lang = match extension(e.0.as_path()) {
                        Some(ext) => language_for_extension(ext.as_str()),
                        None => language_for_extension(""),
                    };
                    proof {
                        reveal_strlit("");
                        assert(("")@ =~= Seq::<char>::empty());
                        assert(lang@ == language_of_path(e.0@));
                    }
                    push_str(out, "## File: ");
                    push_str(out, rel.as_str());
                    push_str(out, "\n");
                    push_str(out, "```");
                    push_str(out, lang);
                    push_str(out, "\n");
                    push_str(out, content.as_str());
                    if fix {
                        push_str(out, "\n");
                    }
                    push_str(out, "```\n\n");
                    proof {
                        reveal_strlit("\n");
                        assert(("\n"@) =~= seq!['\n']);
                        assert(out@ =~= old(out)@ + md_file_entry(rel@, lang@, content@));
                    }
                },
            }
            proof {
                reveal_strlit("\n");
            }
            assert(out@ =~= old(out)@ + entry_text(format, *e, root@));
            assert(views(failed@) =~= views(old(failed)@));
        },
        Err(_) => {
            failed.push(rel);
            assert(views(failed@) =~= views(old(failed)@).push(relative_to(e.0@, root@)));
        },
    }
}

/// Builds the output text from the read results, and lists the files that could not be read.
pub fn build_output(format: OutputFormat, tree_string: &str, file_contents: &Vec<(CanonicalPath, Result<String, String>)>, root: &CanonicalPath) -> (r: (String, Vec<String>))
    ensures
        r.0@ == output_text(format, tree_string@, file_contents@, root@),
        views(r.1@) == failed_files(file_contents@, root@),
{
    let mut out = String::new();
    let mut failed: Vec<String> = Vec::new();
    let has_tree = tree_string.unicode_len() > 0;
    match format {
        OutputFormat::Xml => {
            push_str(&mut out, "<?xml version=\"1.0\" encoding=\"UTF-8\"?>\n<codebase>\n");
            if has_tree {
                push_str(&mut out, "  <directory_tree>\n");
                push_str(&mut out, "<![CDATA[\n");
                push_str(&mut out, tree_string);
                push_str(&mut out, "]]>\n");
                push_str(&mut out, "  </directory_tree>\n\n");
            }
            push_str(&mut out, "  <files>\n");
        },
        OutputFormat::Markdown => {
            push_str(&mut out, "# Codebase Export\n\n");
            if has_tree {
                push_str(&mut out, "## Directory Structure\n\n```\n");
                push_str(&mut out, tree_string);
                push_str(&mut out, "```\n\n");
            }
            push_str(&mut out, "## Files\n\n");
        },
    }
    let ghost head = out@;
    assert(file_entries(format, file_contents@.take(0), root@) =~= Seq::<char>::empty());
    for i in 0..file_contents.len()
        invariant
            out@ == head + file_entries(format, file_contents@.take(i as int), root@),
            views(failed@) == failed_files(file_contents@.take(i as int), root@),
    {
        push_entry(&mut out, &mut failed, format, &file_contents[i], root);
        assert(file_contents@.take(i + 1).drop_last() =~= file_contents@.take(i as int));
        assert(file_contents@.take(i + 1).last() == file_contents@[i as int]);
        assert(out@ =~= head + file_entries(format, file_contents@.take(i + 1), root@));
    }
    assert(file_contents@.take(file_contents@.len() as int) =~= file_contents@);
    match format {
        OutputFormat::Xml => {
            push_str(&mut out, "  </files>\n</codebase>");
        },
        OutputFormat::Markdown => {},
    }
    assert(out@ =~= output_text(format, tree_string@, file_contents@, root@));
    (out, failed)
}

/// The warning about the files that could not be read.
pub fn failure_message(failed: &Vec<String>) -> (r: String)
    ensures
        r@ == failure_warning(views(failed@)),
{
    let mut msg = String::new();
    push_str(&mut msg, "Warning: Failed to read ");
    push_decimal(&mut msg, failed.len());
    push_str(&mut msg, " file(s): ");
    let list = join_strings(failed, ", ");
    push_str(&mut msg, list.as_str());
    assert(msg@ =~= failure_warning(views(failed@)));
    msg
}

/// The event reported once the files have been read: cancellation, or the start of building.
pub fn reading_finished(cancelled: bool) -> (r: WorkerEvent)
    ensures
        cancelled ==> r is Cancelled,
        !cancelled ==> r == (WorkerEvent::Progress {
            stage: ProgressStage::BuildingOutput,
            progress: ProgressCount { current: 0, total: 1 },
        }),
{
    if cancelled {
        WorkerEvent::Cancelled
    } else {
        WorkerEvent::Progress {
            stage: ProgressStage::BuildingOutput,
            progress: ProgressCount { current: 0, total: 1 },
        }
    }
}

/// The tree text of a generation: the filtered tree when one was read, else nothing.
pub open spec fn tree_text(tree: Option<DirNode>, ignore_patterns: Seq<char>) -> Seq<char> {
    match tree {
        Some(t) => render_fs(t, Seq::empty(), true, 0, compiling_globs(comma_list(ignore_patterns))),
        None => Seq::empty(),
    }
}

/// Whether a generation warns about unread files.
pub open spec fn warns(cancelled: bool, entries: Seq<(CanonicalPath, Result<String, String>)>, root: Seq<char>) -> bool {
    !cancelled && failed_files(entries, root).len() > 0
}

/// The events that end a generation: a warning about unread files unless cancelled, the
/// completion of the building stage, and the output with its token estimate (a quarter of
/// its characters) unless cancelled.
pub fn finish_generation(
    format: OutputFormat,
    root: &CanonicalPath,
    file_contents: &Vec<(CanonicalPath, Result<String, String>)>,
    tree: Option<DirNode>,
    ignore_patterns: &str,
    cancelled: bool,
) -> (r: Vec<WorkerEvent>)
    ensures
        r@.len() == (if warns(cancelled, file_contents@, root@) { 1int } else { 0int }) + 1 + (if cancelled { 0int } else { 1int }),
        warns(cancelled, file_contents@, root@) ==> (r@[0] matches WorkerEvent::Error(m) && m@
            == failure_warning(failed_files(file_contents@, root@))),
        r@[if warns(cancelled, file_contents@, root@) { 1int } else { 0int }] == (WorkerEvent::Progress {
            stage: ProgressStage::BuildingOutput,
            progress: ProgressCount { current: 1, total: 1 },
        }),
        !cancelled ==> (r@.last() matches WorkerEvent::OutputReady { content, token_count }
            && content@ == output_text(format, tree_text(tree, ignore_patterns@), file_contents@, root@)
            && token_count.0 == content@.len() / 4),
{
    let ghost tree0 = tree;
    let tree_string = match tree {
        Some(t) => {
            let patterns = split_comma_list(ignore_patterns);
            generate_filtered_tree_string(t, &patterns)
        },
        None => String::new(),
    };
    assert(tree_string@ == tree_text(tree0, ignore_patterns@));
    let (output, failed) = build_output(format, tree_string.as_str(), file_contents, root);
    let mut events: Vec<WorkerEvent> = Vec::new();
    if failed.len() > 0 && !cancelled {
        events.push(WorkerEvent::Error(failure_message(&failed)));
    }
    let chars = output.as_str().unicode_len();
    events.push(
        WorkerEvent::Progress {
            stage: ProgressStage::BuildingOutput,
            progress: ProgressCount { current: 1, total: 1 },
        },
    );
    if !cancelled {
        events.push(WorkerEvent::OutputReady { content: output, token_count: TokenCount::new(chars / 4) });
    }
    events
}

} // verus!
