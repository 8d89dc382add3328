//! The state of a working session and its transitions: opening a directory, starting a
//! generation, taking the worker's and the watcher's events, searching the output,
//! recording, undoing and redoing selections, and the keyboard shortcuts.
//! What needs the screen, the disk or the clipboard is left to the caller, which
//! performs it and reports back.

use vstd::prelude::*;
use vstd::string::StringExecFns;
use crate::dirtree::{checked_in_roots, expanded_in_roots, files_in_roots, law_restore_round_trip, restored_and_updated, selected_in_roots, DirectoryTree};
use crate::generator::{ProgressCount, ProgressStage, WorkerCommand, WorkerEvent};
use crate::history::{law_undo_returns_last_recorded, spec_push, spec_redo, spec_undo, view_wf, HistoryManager, HistoryView, SelectionSnapshot};
use crate::paths::{file_name, file_name_of};
use crate::text::{chars_of, decimal, first_occurrences, law_first_occurrences, join, join_strings, lowercase_of, push_decimal, push_str, string_from_chars, to_lowercase, trim, trim_chars, views};
use crate::tree::{all_files, checked_files, law_restore_checks_listed_files, listing_view, load_result, TreeNode};
use crate::types::{path_views, CanonicalPath, OutputFormat, OutputState, TokenCount, TokenLevel};
use crate::watcher::WatcherEvent;

verus! {

/// A message for the user, with its kind.
#[derive(Debug)]
pub enum Notice {
    /// Something succeeded
    Success(String),
    /// For information
    Info(String),
    /// Something went partly wrong
    Warning(String),
    /// Something failed
    Error(String),
}

/// The view of a notice: its kind and text.
pub enum NoticeView {
    /// Something succeeded
    Success(Seq<char>),
    /// For information
    Info(Seq<char>),
    /// Something went partly wrong
    Warning(Seq<char>),
    /// Something failed
    Error(Seq<char>),
}

/// The view of a notice.
pub open spec fn notice_view(n: Notice) -> NoticeView {
    match n {
        Notice::Success(s) => NoticeView::Success(s@),
        Notice::Info(s) => NoticeView::Info(s@),
        Notice::Warning(s) => NoticeView::Warning(s@),
        Notice::Error(s) => NoticeView::Error(s@),
    }
}

/// Search in the generated output.
#[derive(Debug)]
pub struct OutputSearch {
    /// The query
    pub query: String,
    /// Number of matches of the query in the output
    pub match_count: usize,
    /// Index of the current match
    pub current_match: usize,
    /// Whether the search bar is open
    pub active: bool,
}

/// The state of a session.
#[derive(Debug)]
pub struct Session {
    /// The directory opened, if any
    pub root: Option<CanonicalPath>,
    /// The directory tree
    pub tree: DirectoryTree,
    /// Undo/redo history of selections
    pub history: HistoryManager,
    /// Generated output and its state
    pub output: OutputState,
    /// Progress of the running generation
    pub current_progress: Option<(ProgressStage, ProgressCount)>,
    /// Error message to display
    pub error_message: Option<String>,
    /// Whether files have changed since the last generation
    pub files_changed: bool,
    /// Whether the directory tree goes into the output
    pub include_tree: bool,
    /// Ignore patterns
    pub ignore_patterns: Vec<String>,
    /// The ignore patterns last applied
    pub saved_ignore_patterns: Vec<String>,
    /// Search in the output
    pub search: OutputSearch,
    /// Estimated tokens of the selection
    pub estimated_tokens: Option<usize>,
    /// Whether the settings panel is open
    pub show_settings: bool,
}

/// The message when a generation is asked for without a selection.
pub open spec fn no_selection_message() -> Seq<char> {
    "No files selected. Please select some files to generate output."@
}

/// The notice about changed files.
pub open spec fn change_message(n: nat) -> Seq<char> {
    if n == 1 {
        "1 file changed in the watched directory"@
    } else {
        decimal(n) + " files changed in the watched directory"@
    }
}

/// Occurrences of a non-empty needle from position `i` on, taken left to right without
/// overlap, as `str::matches` finds them.
pub open spec fn count_from(h: Seq<char>, n: Seq<char>, i: int) -> nat
    decreases h.len() - i,
{
    if n.len() == 0 || i < 0 || i + n.len() > h.len() {
        0
    } else if h.subrange(i, i + n.len()) == n {
        1 + count_from(h, n, i + n.len())
    } else {
        count_from(h, n, i + 1)
    }
}

/// The number of matches `str::matches` yields: for an empty needle one at each of the
/// `h.len() + 1` boundaries, otherwise the occurrences left to right without overlap.
pub open spec fn count_matches(h: Seq<char>, n: Seq<char>) -> nat {
    if n.len() == 0 {
        h.len() + 1
    } else {
        count_from(h, n, 0)
    }
}

/// A count as a `usize`, saturating.
pub open spec fn saturate(n: nat) -> usize {
    if n > usize::MAX {
        usize::MAX
    } else {
        n as usize
    }
}

proof fn lemma_count_from_bound(h: Seq<char>, n: Seq<char>, i: int)
    requires
        0 <= i <= h.len(),
    ensures
        count_from(h, n, i) <= h.len() - i,
    decreases h.len() - i,
{
    if n.len() > 0 && i + n.len() <= h.len() {
        if h.subrange(i, i + n.len()) == n {
            lemma_count_from_bound(h, n, i + n.len());
        } else {
            lemma_count_from_bound(h, n, i + 1);
        }
    }
}

fn matches_at(h: &Vec<char>, n: &Vec<char>, i: usize) -> (r: bool)
    requires
        i + n@.len() <= h@.len(),
    ensures
        r == (h@.subrange(i as int, i + n@.len()) == n@),
{
    assert(h@.len() == h.len());
    for k in 0..n.len()
        invariant
            i + n@.len() <= h@.len(),
            h@.len() <= usize::MAX,
            forall|j: int| 0 <= j < k ==> h@[i + j] == n@[j],
    {
        if h[i + k] != n[k] {
            assert(h@.subrange(i as int, i + n@.len())[k as int] != n@[k as int]);
            return false;
        }
    }
    assert(h@.subrange(i as int, i + n@.len()) =~= n@);
    true
}

/// Counts the matches of `needle` in `haystack`, as `str::matches(..).count()` does.
fn count_occurrences(haystack: &str, needle: &str) -> (r: usize)
    ensures
        r == saturate(count_matches(haystack@, needle@)),
{
    let h = chars_of(haystack);
    let n = chars_of(needle);
    if n.len() == 0 {
        return h.len().saturating_add(1);
    }
    let mut count: usize = 0;
    let mut i: usize = 0;
    proof {
        lemma_count_from_bound(h@, n@, 0);
    }
    while i <= h.len() && n.len() <= h.len() - i
        invariant
            n@.len() > 0,
            i <= h@.len(),
            count <= i,
            count_from(h@, n@, 0) == count + count_from(h@, n@, i as int),
        decreases h@.len() - i,
    {
        if matches_at(&h, &n, i) {
            count = count + 1;
            i = i + n.len();
        } else {
            i = i + 1;
        }
    }
    count
}

/// The command a generation sends, given the selected files.
pub open spec fn command_matches(cmd: WorkerCommand, root: Seq<char>, selected: Seq<Seq<char>>, format: OutputFormat, include_tree: bool, patterns: Seq<Seq<char>>) -> bool {
    match cmd {
        WorkerCommand::GenerateOutput { root_path, selected_files, format: f, include_tree: t, ignore_patterns } => {
            &&& root_path@ == root
            &&& path_views(selected_files@) == selected
            &&& f == format
            &&& t == include_tree
            &&& ignore_patterns@ == join(patterns, ","@)
        },
        WorkerCommand::Cancel => false,
    }
}

/// The actions a frame's key presses ask for, in the order they are taken.
#[derive(Debug, Clone, Copy, PartialEq, Eq, Structural)]
pub enum ShortcutAction {
    /// Open the output search
    SearchOutput,
    /// Generate the output
    Generate,
    /// Copy the output to the clipboard
    Copy,
    /// Save the output to a file
    Save,
    /// Undo the last selection change
    Undo,
    /// Redo the last undone selection change
    Redo,
    /// Show or hide the performance overlay
    TogglePerfOverlay,
    /// Select every file
    SelectAll,
    /// Deselect every file
    DeselectAll,
    /// Show or hide the settings
    ToggleSettings,
}

/// The keys and modifiers of one frame.
#[derive(Debug, Clone, Copy)]
pub struct KeyInput {
    /// Control (or command) held
    pub ctrl: bool,
    /// Shift held
    pub shift: bool,
    /// A text field has the keyboard focus
    pub focused: bool,
    /// F pressed
    pub f: bool,
    /// G pressed
    pub g: bool,
    /// C pressed
    pub c: bool,
    /// S pressed
    pub s: bool,
    /// Z pressed
    pub z: bool,
    /// P pressed
    pub p: bool,
    /// A pressed
    pub a: bool,
    /// D pressed
    pub d: bool,
    /// Comma pressed
    pub comma: bool,
}

/// The actions of a frame's key presses. Generating clears the output, so copy and save
/// are only taken when no generation was started in the same frame.
pub open spec fn shortcut_actions_of(k: KeyInput, has_output: bool, generating: bool, has_root: bool, has_selection: bool) -> Seq<ShortcutAction> {
    let search = k.ctrl && k.f && has_output && !k.focused;
    let generate = k.ctrl && k.g && !generating && has_root && has_selection;
    let output_left = has_output && !generate;
    let copy = k.ctrl && k.c && output_left;
    let save = k.ctrl && k.s && output_left;
    let undo = k.ctrl && !k.shift && k.z;
    let redo = k.ctrl && k.shift && k.z;
    let perf = k.ctrl && k.shift && k.p;
    let all = k.ctrl && k.a && has_root;
    let none = k.ctrl && k.d && has_root;
    let settings = k.ctrl && k.comma;
    (if search { seq![ShortcutAction::SearchOutput] } else { Seq::empty() })
        + (if generate { seq![ShortcutAction::Generate] } else { Seq::empty() })
        + (if copy { seq![ShortcutAction::Copy] } else { Seq::empty() })
        + (if save { seq![ShortcutAction::Save] } else { Seq::empty() })
        + (if undo { seq![ShortcutAction::Undo] } else { Seq::empty() })
        + (if redo { seq![ShortcutAction::Redo] } else { Seq::empty() })
        + (if perf { seq![ShortcutAction::TogglePerfOverlay] } else { Seq::empty() })
        + (if all { seq![ShortcutAction::SelectAll] } else { Seq::empty() })
        + (if none { seq![ShortcutAction::DeselectAll] } else { Seq::empty() })
        + (if settings { seq![ShortcutAction::ToggleSettings] } else { Seq::empty() })
}

proof fn lemma_actions_concat(a: Seq<ShortcutAction>, b: Seq<ShortcutAction>, x: ShortcutAction)
    ensures
        (a + b).contains(x) <==> a.contains(x) || b.contains(x),
        a.no_duplicates() && b.no_duplicates() && (forall|y: ShortcutAction| a.contains(y) ==> !b.contains(y))
            ==> (a + b).no_duplicates(),
{
    if a.contains(x) {
        let i = choose|i: int| 0 <= i < a.len() && a[i] == x;
        assert((a + b)[i] == x);
    }
    if b.contains(x) {
        let i = choose|i: int| 0 <= i < b.len() && b[i] == x;
        assert((a + b)[a.len() + i] == x);
    }
    if (a + b).contains(x) {
        let i = choose|i: int| 0 <= i < (a + b).len() && (a + b)[i] == x;
        if i < a.len() {
            assert(a[i] == x);
        } else {
            assert(b[i - a.len()] == x);
        }
    }
    if a.no_duplicates() && b.no_duplicates() && (forall|y: ShortcutAction| a.contains(y) ==> !b.contains(y)) {
        assert forall|i: int, j: int| 0 <= i < j < (a + b).len() implies (a + b)[i] != (a + b)[j] by {
            if i < a.len() && j >= a.len() {
                assert(a.contains(a[i]));
                assert(b[j - a.len()] == (a + b)[j]);
            }
        }
    }
}

proof fn lemma_one_action(c: bool, a: ShortcutAction, x: ShortcutAction)
    ensures
        (if c { seq![a] } else { Seq::<ShortcutAction>::empty() }).contains(x) <==> c && x == a,
        (if c { seq![a] } else { Seq::<ShortcutAction>::empty() }).no_duplicates(),
{
    if c {
        assert(seq![a][0] == a);
    }
}

/// The keyboard shortcuts, as the handler of each key decides them. With Ctrl held: F opens
/// the output search when there is output and no text field has the focus; G generates when
/// nothing is being generated, a directory is open and files are selected; C copies and S
/// saves whenever there is output (unless a generation starts in the same frame, which
/// replaces it), whatever has the focus; Z undoes, Shift+Z redoes, Shift+P toggles the
/// performance overlay; A and D select and deselect all when a directory is open; Comma
/// toggles the settings. Without Ctrl nothing happens, and no action is asked twice.
pub proof fn law_shortcuts_follow_keys(k: KeyInput, has_output: bool, generating: bool, has_root: bool, has_selection: bool)
    ensures
        ({
            let r = shortcut_actions_of(k, has_output, generating, has_root, has_selection);
            let generate = k.ctrl && k.g && !generating && has_root && has_selection;
            &&& r.no_duplicates()
            &&& !k.ctrl ==> r.len() == 0
            &&& r.contains(ShortcutAction::SearchOutput) <==> k.ctrl && k.f && has_output && !k.focused
            &&& r.contains(ShortcutAction::Generate) <==> generate
            &&& r.contains(ShortcutAction::Copy) <==> k.ctrl && k.c && has_output && !generate
            &&& r.contains(ShortcutAction::Save) <==> k.ctrl && k.s && has_output && !generate
            &&& r.contains(ShortcutAction::Undo) <==> k.ctrl && !k.shift && k.z
            &&& r.contains(ShortcutAction::Redo) <==> k.ctrl && k.shift && k.z
            &&& r.contains(ShortcutAction::TogglePerfOverlay) <==> k.ctrl && k.shift && k.p
            &&& r.contains(ShortcutAction::SelectAll) <==> k.ctrl && k.a && has_root
            &&& r.contains(ShortcutAction::DeselectAll) <==> k.ctrl && k.d && has_root
            &&& r.contains(ShortcutAction::ToggleSettings) <==> k.ctrl && k.comma
        }),
{
    let search = k.ctrl && k.f && has_output && !k.focused;
    let generate = k.ctrl && k.g && !generating && has_root && has_selection;
    let output_left = has_output && !generate;
    let conds = seq![
        search,
        generate,
        k.ctrl && k.c && output_left,
        k.ctrl && k.s && output_left,
        k.ctrl && !k.shift && k.z,
        k.ctrl && k.shift && k.z,
        k.ctrl && k.shift && k.p,
        k.ctrl && k.a && has_root,
        k.ctrl && k.d && has_root,
        k.ctrl && k.comma
    ];
    let acts = seq![
        ShortcutAction::SearchOutput,
        ShortcutAction::Generate,
        ShortcutAction::Copy,
        ShortcutAction::Save,
        ShortcutAction::Undo,
        ShortcutAction::Redo,
        ShortcutAction::TogglePerfOverlay,
        ShortcutAction::SelectAll,
        ShortcutAction::DeselectAll,
        ShortcutAction::ToggleSettings
    ];
    assert forall|i: int, j: int| 0 <= i < j < 10 implies acts[i] != acts[j] by {}
    lemma_collected(conds, acts, 10);
    let r = shortcut_actions_of(k, has_output, generating, has_root, has_selection);
    reveal_with_fuel(collected, 11);
    assert(r =~= collected(conds, acts, 10));
    assert(acts[0] == ShortcutAction::SearchOutput && acts[1] == ShortcutAction::Generate && acts[2] == ShortcutAction::Copy);
    assert(acts[3] == ShortcutAction::Save && acts[4] == ShortcutAction::Undo && acts[5] == ShortcutAction::Redo);
    assert(acts[6] == ShortcutAction::TogglePerfOverlay && acts[7] == ShortcutAction::SelectAll);
    assert(acts[8] == ShortcutAction::DeselectAll && acts[9] == ShortcutAction::ToggleSettings);
}

/// The actions of the first `n` conditions that hold, in order.
spec fn collected(conds: Seq<bool>, acts: Seq<ShortcutAction>, n: int) -> Seq<ShortcutAction>
    decreases n,
{
    if n <= 0 {
        Seq::empty()
    } else {
        collected(conds, acts, n - 1) + if conds[n - 1] {
            seq![acts[n - 1]]
        } else {
            Seq::empty()
        }
    }
}

proof fn lemma_collected(conds: Seq<bool>, acts: Seq<ShortcutAction>, n: int)
    requires
        0 <= n <= acts.len(),
        forall|i: int, j: int| 0 <= i < j < acts.len() ==> acts[i] != acts[j],
    ensures
        collected(conds, acts, n).no_duplicates(),
        forall|x: ShortcutAction|
            #[trigger] collected(conds, acts, n).contains(x) <==> exists|i: int| 0 <= i < n && conds[i] && x == acts[i],
        (forall|i: int| 0 <= i < n ==> !conds[i]) ==> collected(conds, acts, n).len() == 0,
    decreases n,
{
    if n > 0 {
        lemma_collected(conds, acts, n - 1);
        let acc = collected(conds, acts, n - 1);
        let piece = if conds[n - 1] { seq![acts[n - 1]] } else { Seq::<ShortcutAction>::empty() };
        assert forall|x: ShortcutAction| acc.contains(x) implies !piece.contains(x) by {
            lemma_one_action(conds[n - 1], acts[n - 1], x);
            if piece.contains(x) {
                let i = choose|i: int| 0 <= i < n - 1 && conds[i] && x == acts[i];
                assert(acts[i] != acts[n - 1]);
            }
        }
        lemma_one_action(conds[n - 1], acts[n - 1], acts[n - 1]);
        lemma_actions_concat(acc, piece, acts[n - 1]);
        assert forall|x: ShortcutAction|
            #[trigger] collected(conds, acts, n).contains(x) <==> exists|i: int| 0 <= i < n && conds[i] && x == acts[i] by {
            lemma_actions_concat(acc, piece, x);
            lemma_one_action(conds[n - 1], acts[n - 1], x);
            if exists|i: int| 0 <= i < n && conds[i] && x == acts[i] {
                let i = choose|i: int| 0 <= i < n && conds[i] && x == acts[i];
                if i < n - 1 {
                    assert(exists|j: int| 0 <= j < n - 1 && conds[j] && x == acts[j]);
                }
            }
        }
    }
}

fn push_if(v: &mut Vec<ShortcutAction>, cond: bool, a: ShortcutAction)
    ensures
        final(v)@ == old(v)@ + (if cond { seq![a] } else { Seq::empty() }),
{
    if cond {
        v.push(a);
    }
    assert(final(v)@ =~= old(v)@ + (if cond { seq![a] } else { Seq::empty() }));
}

/// The actions a frame's key presses ask for.
pub fn shortcut_actions(k: KeyInput, has_output: bool, generating: bool, has_root: bool, has_selection: bool) -> (r: Vec<ShortcutAction>)
    ensures
        r@ == shortcut_actions_of(k, has_output, generating, has_root, has_selection),
{
    let search = k.ctrl && k.f && has_output && !k.focused;
    let generate = k.ctrl && k.g && !generating && has_root && has_selection;
    let output_left = has_output && !generate;
    let mut r: Vec<ShortcutAction> = Vec::new();
    push_if(&mut r, search, ShortcutAction::SearchOutput);
    push_if(&mut r, generate, ShortcutAction::Generate);
    push_if(&mut r, k.ctrl && k.c && output_left, ShortcutAction::Copy);
    push_if(&mut r, k.ctrl && k.s && output_left, ShortcutAction::Save);
    push_if(&mut r, k.ctrl && !k.shift && k.z, ShortcutAction::Undo);
    push_if(&mut r, k.ctrl && k.shift && k.z, ShortcutAction::Redo);
    push_if(&mut r, k.ctrl && k.shift && k.p, ShortcutAction::TogglePerfOverlay);
    push_if(&mut r, k.ctrl && k.a && has_root, ShortcutAction::SelectAll);
    push_if(&mut r, k.ctrl && k.d && has_root, ShortcutAction::DeselectAll);
    push_if(&mut r, k.ctrl && k.comma, ShortcutAction::ToggleSettings);
    assert(r@ =~= shortcut_actions_of(k, has_output, generating, has_root, has_selection));
    r
}

/// The level shown for a selection's token estimate: low below 10,000, medium below
/// 50,000, high from there on.
pub open spec fn selection_level_of(estimate: nat) -> TokenLevel {
    if estimate < 10000 {
        TokenLevel::Low
    } else if estimate < 50000 {
        TokenLevel::Medium
    } else {
        TokenLevel::High
    }
}

/// The level shown for a selection's token estimate.
pub fn selection_level(estimate: usize) -> (r: TokenLevel)
    ensures
        r == selection_level_of(estimate as nat),
{
    if estimate < 10000 {
        TokenLevel::Low
    } else if estimate < 50000 {
        TokenLevel::Medium
    } else {
        TokenLevel::High
    }
}

/// The name of a token level.
pub open spec fn level_name(l: TokenLevel) -> Seq<char> {
    match l {
        TokenLevel::Low => "Low"@,
        TokenLevel::Medium => "Medium"@,
        TokenLevel::High => "High"@,
    }
}

/// The name of a token level.
pub fn level_label(level: TokenLevel) -> (r: &'static str)
    ensures
        r@ == level_name(level),
{
    match level {
        TokenLevel::Low => "Low",
        TokenLevel::Medium => "Medium",
        TokenLevel::High => "High",
    }
}

/// The short name of a generation stage.
pub open spec fn stage_name(stage: ProgressStage) -> Seq<char> {
    match stage {
        ProgressStage::ScanningFiles => "Scanning"@,
        ProgressStage::ReadingFiles => "Reading"@,
        ProgressStage::BuildingOutput => "Building"@,
    }
}

/// The short name of a generation stage.
pub fn stage_label(stage: ProgressStage) -> (r: &'static str)
    ensures
        r@ == stage_name(stage),
{
    match stage {
        ProgressStage::ScanningFiles => "Scanning",
        ProgressStage::ReadingFiles => "Reading",
        ProgressStage::BuildingOutput => "Building",
    }
}

/// Whether generating can start: not while generating, and only with a directory and a selection.
pub fn generate_enabled(generating: bool, has_root: bool, selected_count: usize) -> (r: bool)
    ensures
        r == (!generating && has_root && selected_count > 0),
{
    !generating && has_root && selected_count > 0
}

/// The hint on the generate button: how to generate, or what is missing first.
pub open spec fn generate_hint(generating: bool, has_root: bool, selected_count: nat) -> Seq<char> {
    if !generating && has_root && selected_count > 0 {
        "Generate output (Ctrl+G)"@
    } else if !has_root {
        "Select a directory first"@
    } else if selected_count == 0 {
        "Select files to include"@
    } else {
        "Generating..."@
    }
}

/// The hint on the generate button.
pub fn generate_tooltip(generating: bool, has_root: bool, selected_count: usize) -> (r: &'static str)
    ensures
        r@ == generate_hint(generating, has_root, selected_count as nat),
{
    if !generating && has_root && selected_count > 0 {
        "Generate output (Ctrl+G)"
    } else if !has_root {
        "Select a directory first"
    } else if selected_count == 0 {
        "Select files to include"
    } else {
        "Generating..."
    }
}

/// The ignore patterns of the "Common" preset.
pub open spec fn common_pattern_list() -> Seq<Seq<char>> {
    seq![".*"@, "node_modules"@, "__pycache__"@, "target"@, "build"@, "dist"@]
}

/// The ignore patterns of the "Minimal" preset.
pub open spec fn minimal_pattern_list() -> Seq<Seq<char>> {
    seq![".*"@, "node_modules"@]
}

/// The "Common" preset of ignore patterns.
pub fn common_patterns() -> (r: Vec<String>)
    ensures
        views(r@) == common_pattern_list(),
{
    let r = vec![
        String::from_str(".*"),
        String::from_str("node_modules"),
        String::from_str("__pycache__"),
        String::from_str("target"),
        String::from_str("build"),
        String::from_str("dist"),
    ];
    assert(views(r@) =~= common_pattern_list());
    r
}

/// The "Minimal" preset of ignore patterns.
pub fn minimal_patterns() -> (r: Vec<String>)
    ensures
        views(r@) == minimal_pattern_list(),
{
    let r = vec![String::from_str(".*"), String::from_str("node_modules")];
    assert(views(r@) =~= minimal_pattern_list());
    r
}

fn strings_same(a: &Vec<String>, b: &Vec<String>) -> (r: bool)
    ensures
        r == (views(a@) == views(b@)),
{
    if a.len() != b.len() {
        assert(views(a@).len() != views(b@).len());
        return false;
    }
    for i in 0..a.len()
        invariant
            a@.len() == b@.len(),
            forall|k: int| 0 <= k < i ==> a@[k]@ == b@[k]@,
    {
        if !crate::text::str_eq(a[i].as_str(), b[i].as_str()) {
            assert(views(a@)[i as int] != views(b@)[i as int]);
            return false;
        }
    }
    assert(views(a@) =~= views(b@));
    true
}

/// The snapshot of a tree's selection: its checked files and expanded directories.
pub open spec fn snapshot_of(tree: DirectoryTree, s: SelectionSnapshot) -> bool {
    &&& views(s.selected_files@) == first_occurrences(checked_in_roots(tree.root_nodes()))
    &&& views(s.expanded_dirs@) == first_occurrences(expanded_in_roots(tree.root_nodes()))
}

/// The tree after restoring a snapshot.
pub open spec fn restored<F: Fn(&CanonicalPath) -> Option<Vec<(String, TreeNode)>>>(
    old_tree: DirectoryTree,
    new_tree: DirectoryTree,
    s: SelectionSnapshot,
    loader: F,
) -> bool {
    &&& new_tree.root_nodes().len() == old_tree.root_nodes().len()
    &&& forall|i: int|
        0 <= i < old_tree.root_nodes().len() ==> #[trigger] restored_and_updated(
            old_tree.root_nodes()[i],
            new_tree.root_nodes()[i],
            views(s.selected_files@),
            views(s.expanded_dirs@),
            loader,
        )
    &&& new_tree.pattern_list() == old_tree.pattern_list()
}

impl Session {
    /// Well-formed: the history respects its depth bound.
    pub open spec fn wf(&self) -> bool {
        self.history.wf()
    }

    /// A session with no directory opened, the given ignore patterns and an undo history
    /// of at most `max_history` selections.
    pub fn new(ignore_patterns: Vec<String>, include_tree: bool, format: OutputFormat, max_history: usize) -> (r: Self)
        ensures
            r.wf(),
            r.root is None,
            r.tree.root_nodes().len() == 0,
            r.history@.past.len() == 0,
            r.history@.future.len() == 0,
            r.history@.max_depth == max_history,
            r.output.format == format,
            r.output.content is None,
            r.output.tokens is None,
            !r.output.generating,
            r.current_progress is None,
            r.error_message is None,
            !r.files_changed,
            r.include_tree == include_tree,
            views(r.ignore_patterns@) == views(ignore_patterns@),
            views(r.saved_ignore_patterns@) == views(ignore_patterns@),
            r.search.query@.len() == 0,
            r.search.match_count == 0,
            r.estimated_tokens is None,
            !r.show_settings,
    {
        let saved = crate::text::copy_strings(&ignore_patterns);
        Session {
            root: None,
            tree: DirectoryTree::new(),
            history: HistoryManager::new(max_history),
            output: OutputState { format, content: None, tokens: None, generating: false },
            current_progress: None,
            error_message: None,
            files_changed: false,
            include_tree,
            ignore_patterns,
            saved_ignore_patterns: saved,
            search: OutputSearch { query: String::new(), match_count: 0, current_match: 0, active: false },
            estimated_tokens: None,
            show_settings: false,
        }
    }

    /// Starts a generation of the selected files: without a selection the error message
    /// says so and nothing is sent; without a directory nothing happens; otherwise the
    /// output is cleared, the state marked as generating, and the command to send returned.
    pub fn generate_output(&mut self) -> (r: Option<WorkerCommand>)
        ensures
            final(self).tree == old(self).tree,
            final(self).history == old(self).history,
            final(self).root == old(self).root,
            final(self).output.format == old(self).output.format,
            ({
                let selected = selected_in_roots(old(self).tree.root_nodes());
                if selected.len() == 0 {
                    &&& r is None
                    &&& final(self).error_message matches Some(m) && m@ == no_selection_message()
                    &&& final(self).output == old(self).output
                    &&& final(self).current_progress == old(self).current_progress
                    &&& final(self).files_changed == old(self).files_changed
                } else if old(self).root is None {
                    &&& r is None
                    &&& final(self).error_message == old(self).error_message
                    &&& final(self).output == old(self).output
                    &&& final(self).current_progress == old(self).current_progress
                    &&& final(self).files_changed == old(self).files_changed
                } else {
                    &&& r matches Some(cmd) && command_matches(
                        cmd,
                        old(self).root.unwrap()@,
                        selected,
                        old(self).output.format,
                        old(self).include_tree,
                        views(old(self).ignore_patterns@),
                    )
                    &&& final(self).output.generating
                    &&& final(self).output.content is None
                    &&& final(self).output.tokens is None
                    &&& final(self).error_message is None
                    &&& final(self).current_progress is None
                    &&& !final(self).files_changed
                }
            }),
    {
        let selected_files = self.tree.collect_selected_files();
        if selected_files.len() == 0 {
            self.error_message = Some(
                String::from_str("No files selected. Please select some files to generate output."),
            );
            return None;
        }
        match &self.root {
            Some(root_path) => {
                let root_path = root_path.duplicate();
                self.output.generating = true;
                self.output.content = None;
                self.output.tokens = None;
                self.error_message = None;
                self.current_progress = None;
                self.files_changed = false;
                let ignore_patterns = join_strings(&self.ignore_patterns, ",");
                Some(WorkerCommand::GenerateOutput {
                    root_path,
                    selected_files,
                    format: self.output.format,
                    include_tree: self.include_tree,
                    ignore_patterns,
                })
            },
            None => None,
        }
    }

    /// The command of a generation could not be sent: the error message gives the reason
    /// and the state is no longer generating.
    pub fn generation_not_started(&mut self, reason: &str)
        ensures
            final(self).error_message matches Some(m) && m@ == "Failed to start generation: "@ + reason@,
            !final(self).output.generating,
            final(self).output.content == old(self).output.content,
            final(self).tree == old(self).tree,
            final(self).history == old(self).history,
    {
        let mut m = String::from_str("Failed to start generation: ");
        push_str(&mut m, reason);
        self.error_message = Some(m);
        self.output.generating = false;
    }

    /// Takes an event of the worker and returns the notice to show, if any: progress is
    /// recorded; finished output is stored with its token count; an error is shown while
    /// the generation goes on; a cancellation ends the generation.
    pub fn apply_worker_event(&mut self, event: WorkerEvent) -> (r: Option<Notice>)
        ensures
            final(self).tree == old(self).tree,
            final(self).history == old(self).history,
            final(self).root == old(self).root,
            final(self).output.format == old(self).output.format,
            match event {
                WorkerEvent::Progress { stage, progress } => {
                    &&& r is None
                    &&& final(self).current_progress == Some((stage, progress))
                    &&& final(self).output == old(self).output
                    &&& final(self).error_message == old(self).error_message
                },
                WorkerEvent::OutputReady { content, token_count } => {
                    &&& r matches Some(n) && notice_view(n) == NoticeView::Success(
                        "Generated "@ + decimal(token_count.0 as nat) + " tokens"@,
                    )
                    &&& final(self).output.content matches Some(c) && c@ == content@
                    &&& final(self).output.tokens == Some(token_count)
                    &&& !final(self).output.generating
                    &&& final(self).current_progress is None
                    &&& final(self).error_message == old(self).error_message
                },
                WorkerEvent::Error(msg) => {
                    &&& r matches Some(n) && notice_view(n) == NoticeView::Error(msg@)
                    &&& final(self).error_message matches Some(m) && m@ == msg@
                    &&& final(self).output == old(self).output
                    &&& final(self).current_progress == old(self).current_progress
                },
                WorkerEvent::Cancelled => {
                    &&& r matches Some(n) && notice_view(n) == NoticeView::Warning("Generation cancelled"@)
                    &&& !final(self).output.generating
                    &&& final(self).output.content == old(self).output.content
                    &&& final(self).output.tokens == old(self).output.tokens
                    &&& final(self).current_progress is None
                    &&& final(self).error_message matches Some(m) && m@ == "Generation cancelled"@
                },
            },
    {
        match event {
            WorkerEvent::Progress { stage, progress } => {
                self.current_progress = Some((stage, progress));
                None
            },
            WorkerEvent::OutputReady { content, token_count } => {
                self.output.content = Some(content);
                self.output.tokens = Some(token_count);
                self.output.generating = false;
                self.current_progress = None;
                let mut m = String::from_str("Generated ");
                push_decimal(&mut m, token_count.get());
                push_str(&mut m, " tokens");
                Some(Notice::Success(m))
            },
            WorkerEvent::Error(msg) => {
                self.error_message = Some(msg.clone());
                Some(Notice::Error(msg))
            },
            WorkerEvent::Cancelled => {
                self.output.generating = false;
                self.current_progress = None;
                self.error_message = Some(String::from_str("Generation cancelled"));
                Some(Notice::Warning(String::from_str("Generation cancelled")))
            },
        }
    }

    /// Takes an event of the filesystem watcher and returns the notice to show: changed
    /// files mark the output as out of date.
    pub fn apply_watcher_event(&mut self, event: WatcherEvent) -> (r: Notice)
        ensures
            final(self).tree == old(self).tree,
            final(self).output == old(self).output,
            match event {
                WatcherEvent::Changed(paths) => {
                    &&& final(self).files_changed
                    &&& notice_view(r) == NoticeView::Info(change_message(paths@.len()))
                },
                WatcherEvent::Error(e) => {
                    &&& final(self).files_changed == old(self).files_changed
                    &&& notice_view(r) == NoticeView::Error("Watcher error: "@ + e@)
                },
            },
    {
        match event {
            WatcherEvent::Changed(paths) => {
                self.files_changed = true;
                if paths.len() == 1 {
                    Notice::Info(String::from_str("1 file changed in the watched directory"))
                } else {
                    let mut m = String::new();
                    push_decimal(&mut m, paths.len());
                    push_str(&mut m, " files changed in the watched directory");
                    Notice::Info(m)
                }
            },
            WatcherEvent::Error(e) => {
                let mut m = String::from_str("Watcher error: ");
                push_str(&mut m, e.as_str());
                Notice::Error(m)
            },
        }
    }

    /// Counts the matches of the search query in the output, both lowercased: an empty
    /// query has none; on a non-zero count the current match goes back to the first.
    pub fn update_search_matches(&mut self)
        ensures
            final(self).search.query == old(self).search.query,
            final(self).search.active == old(self).search.active,
            final(self).output == old(self).output,
            final(self).tree == old(self).tree,
            if old(self).search.query@.len() == 0 {
                final(self).search.match_count == 0 && final(self).search.current_match == 0
            } else {
                match old(self).output.content {
                    Some(c) => {
                        let count = saturate(count_matches(lowercase_of(c@), lowercase_of(old(self).search.query@)));
                        &&& final(self).search.match_count == count
                        &&& final(self).search.current_match == (if count > 0 {
                            0
                        } else {
                            old(self).search.current_match
                        })
                    },
                    None => final(self).search == old(self).search,
                }
            },
    {
        if self.search.query.as_str().unicode_len() == 0 {
            self.search.match_count = 0;
            self.search.current_match = 0;
            return;
        }
        match &self.output.content {
            Some(content) => {
                let query = to_lowercase(self.search.query.as_str());
                let content_lower = to_lowercase(content.as_str());
                let count = count_occurrences(content_lower.as_str(), query.as_str());
                self.search.match_count = count;
                if count > 0 {
                    self.search.current_match = 0;
                }
            },
            None => {},
        }
    }

    /// The current selection: the checked files and the expanded directories.
    pub fn capture_snapshot(&self) -> (r: SelectionSnapshot)
        ensures
            snapshot_of(self.tree, r),
            r.wf(),
    {
        proof {
            law_first_occurrences(checked_in_roots(self.tree.root_nodes()));
            law_first_occurrences(expanded_in_roots(self.tree.root_nodes()));
        }
        SelectionSnapshot {
            selected_files: self.tree.get_selected_files(),
            expanded_dirs: self.tree.get_expanded_dirs(),
        }
    }

    /// Restores a recorded selection in the tree, reading what it needs through `loader`.
    pub fn restore_snapshot<F>(&mut self, snapshot: &SelectionSnapshot, loader: &F)
        where F: Fn(&CanonicalPath) -> Option<Vec<(String, TreeNode)>>
        requires
            forall|p: &CanonicalPath| call_requires(*loader, (p,)),
        ensures
            restored(old(self).tree, final(self).tree, *snapshot, *loader),
            final(self).history == old(self).history,
            final(self).output == old(self).output,
    {
        self.tree.restore_selection(snapshot.selected_files.as_slice(), snapshot.expanded_dirs.as_slice(), loader);
    }

    /// Records the current selection for undo, before a change is made to it, so that undo
    /// goes back to it.
    pub fn record_state(&mut self)
        requires
            old(self).wf(),
        ensures
            final(self).wf(),
            final(self).tree == old(self).tree,
            exists|s: SelectionSnapshot| snapshot_of(old(self).tree, s) && final(self).history@ == spec_push(old(self).history@, s),
    {
        let snapshot = self.capture_snapshot();
        self.history.push(snapshot);
    }

    /// Undoes the last selection change: the current selection goes on the redo stack and
    /// the one before is restored; with nothing to undo nothing changes.
    pub fn undo<F>(&mut self, loader: &F)
        where F: Fn(&CanonicalPath) -> Option<Vec<(String, TreeNode)>>
        requires
            old(self).wf(),
            forall|p: &CanonicalPath| call_requires(*loader, (p,)),
        ensures
            final(self).wf(),
            exists|cur: SelectionSnapshot| {
                &&& snapshot_of(old(self).tree, cur)
                &&& final(self).history@ == spec_undo(old(self).history@, cur).0
                &&& match spec_undo(old(self).history@, cur).1 {
                    Some(prev) => restored(old(self).tree, final(self).tree, prev, *loader),
                    None => final(self).tree == old(self).tree,
                }
            },
    {
        let current = self.capture_snapshot();
        let ghost cur = current;
        match self.history.undo(current) {
            Some(previous) => {
                self.restore_snapshot(&previous, loader);
            },
            None => {},
        }
        assert(snapshot_of(old(self).tree, cur));
    }

    /// Redoes the last undone selection change: the current selection goes on the undo
    /// stack and the undone one is restored; with nothing to redo nothing changes.
    pub fn redo<F>(&mut self, loader: &F)
        where F: Fn(&CanonicalPath) -> Option<Vec<(String, TreeNode)>>
        requires
            old(self).wf(),
            forall|p: &CanonicalPath| call_requires(*loader, (p,)),
        ensures
            final(self).wf(),
            exists|cur: SelectionSnapshot| {
                &&& snapshot_of(old(self).tree, cur)
                &&& final(self).history@ == spec_redo(old(self).history@, cur).0
                &&& match spec_redo(old(self).history@, cur).1 {
                    Some(next) => restored(old(self).tree, final(self).tree, next, *loader),
                    None => final(self).tree == old(self).tree,
                }
            },
    {
        let current = self.capture_snapshot();
        let ghost cur = current;
        match self.history.redo(current) {
            Some(next) => {
                self.restore_snapshot(&next, loader);
            },
            None => {},
        }
        assert(snapshot_of(old(self).tree, cur));
    }

    /// The text under the output search: nothing for an empty query, the position of the
    /// current match among the matches, or that there is none.
    pub fn search_status(&self) -> (r: Option<String>)
        requires
            self.search.current_match < usize::MAX,
        ensures
            self.search.query@.len() == 0 ==> r is None,
            self.search.query@.len() > 0 && self.search.match_count > 0 ==> (r matches Some(t) && t@
                == decimal((self.search.current_match + 1) as nat) + " / "@ + decimal(self.search.match_count as nat)),
            self.search.query@.len() > 0 && self.search.match_count == 0 ==> (r matches Some(t) && t@ == "No matches"@),
    {
        if self.search.query.as_str().unicode_len() == 0 {
            None
        } else if self.search.match_count > 0 {
            let mut t = String::new();
            push_decimal(&mut t, self.search.current_match + 1);
            push_str(&mut t, " / ");
            push_decimal(&mut t, self.search.match_count);
            Some(t)
        } else {
            Some(String::from_str("No matches"))
        }
    }

    /// Closes the output search and clears its query.
    pub fn close_search(&mut self)
        ensures
            !final(self).search.active,
            final(self).search.query@.len() == 0,
            final(self).search.match_count == old(self).search.match_count,
            final(self).output == old(self).output,
            final(self).tree == old(self).tree,
    {
        self.search.active = false;
        self.search.query = String::new();
    }

    /// Adds an ignore pattern typed in, trimmed; nothing is added when it is blank.
    pub fn add_pattern(&mut self, input: &str)
        ensures
            views(final(self).ignore_patterns@) == if trim(input@).len() == 0 {
                views(old(self).ignore_patterns@)
            } else {
                views(old(self).ignore_patterns@).push(trim(input@))
            },
            final(self).tree == old(self).tree,
    {
        let v = chars_of(input);
        let t = trim_chars(v.as_slice());
        if t.len() > 0 {
            let p = string_from_chars(t.as_slice());
            let ghost before = self.ignore_patterns@;
            self.ignore_patterns.push(p);
            assert(views(self.ignore_patterns@) =~= views(before).push(trim(input@)));
        }
    }

    /// Removes the ignore pattern at `index`, if there is one.
    pub fn remove_pattern(&mut self, index: usize)
        ensures
            views(final(self).ignore_patterns@) == if index < old(self).ignore_patterns@.len() {
                views(old(self).ignore_patterns@.remove(index as int))
            } else {
                views(old(self).ignore_patterns@)
            },
            final(self).tree == old(self).tree,
    {
        if index < self.ignore_patterns.len() {
            let _ = self.ignore_patterns.remove(index);
        }
    }

    /// Reloads the opened directory from a fresh root node and listing after files changed.
    pub fn refresh(&mut self, root_node: TreeNode, listing: Option<Vec<(String, TreeNode)>>) -> (r: Option<Notice>)
        ensures
            old(self).root is None ==> r is None && final(self).tree == old(self).tree
                && final(self).files_changed == old(self).files_changed,
            old(self).root is Some ==> {
                &&& r matches Some(n) && notice_view(n) == NoticeView::Success("Directory refreshed"@)
                &&& !final(self).files_changed
                &&& final(self).tree.root_nodes().len() == 1
                &&& load_result(
                    TreeNode { expanded: true, ..root_node },
                    final(self).tree.root_nodes()[0],
                    listing_view(listing),
                    old(self).tree.pattern_list(),
                )
            },
            final(self).root == old(self).root,
    {
        if self.root.is_none() {
            return None;
        }
        self.tree.set_root(root_node, listing);
        self.files_changed = false;
        Some(Notice::Success(String::from_str("Directory refreshed")))
    }

    /// After the tree was shown, records the selection it had before (`before`) for undo when
    /// its checked files differ from it now, so that undo goes back to `before`; tells whether
    /// it did.
    pub fn record_if_changed(&mut self, before: SelectionSnapshot) -> (r: bool)
        requires
            old(self).wf(),
        ensures
            final(self).wf(),
            final(self).tree == old(self).tree,
            r == (views(before.selected_files@) != first_occurrences(checked_in_roots(old(self).tree.root_nodes()))),
            !r ==> final(self).history == old(self).history,
            r ==> final(self).history@ == spec_push(old(self).history@, before),
    {
        let now = self.tree.get_selected_files();
        if strings_same(&before.selected_files, &now) {
            false
        } else {
            self.history.push(before);
            true
        }
    }

    /// Opens a directory: it becomes the root, the ignore patterns are applied, the root
    /// node is loaded from `listing`, and the notice names the directory.
    pub fn open_root(&mut self, root: CanonicalPath, root_node: TreeNode, listing: Option<Vec<(String, TreeNode)>>) -> (r: Notice)
        ensures
            final(self).root matches Some(p) && p@ == root@,
            !final(self).files_changed,
            final(self).tree.root_nodes().len() == 1,
            final(self).tree.pattern_list() == crate::patterns::compiling_globs(
                crate::text::comma_list(join(views(old(self).ignore_patterns@), ","@)),
            ),
            load_result(
                TreeNode { expanded: true, ..root_node },
                final(self).tree.root_nodes()[0],
                listing_view(listing),
                final(self).tree.pattern_list(),
            ),
            final(self).history == old(self).history,
            notice_view(r) == NoticeView::Success("Loaded "@ + match file_name_of(root@) {
                Some(n) => n,
                None => Seq::empty(),
            }),
    {
        let patterns = join_strings(&self.ignore_patterns, ",");
        // The root is set afresh right below, so nothing needs reading for the old one.
        self.tree.set_ignore_patterns(patterns.as_str(), &no_listing);
        self.tree.set_root(root_node, listing);
        self.files_changed = false;
        let mut m = String::from_str("Loaded ");
        match file_name(root.as_path()) {
            Some(n) => push_str(&mut m, n.as_str()),
            None => {},
        }
        self.root = Some(root);
        Notice::Success(m)
    }

    /// Applies the ignore patterns: they are compiled into the tree and remembered as
    /// applied, and the root, if any, is reloaded from `root_listing` (its node given
    /// afresh as `root_node`).
    pub fn apply_patterns(&mut self, root_node: Option<TreeNode>, root_listing: Option<Vec<(String, TreeNode)>>) -> (r: Notice)
        ensures
            final(self).tree.pattern_list() == crate::patterns::compiling_globs(
                crate::text::comma_list(join(views(old(self).ignore_patterns@), ","@)),
            ),
            views(final(self).saved_ignore_patterns@) == views(old(self).ignore_patterns@),
            root_node matches Some(n) ==> final(self).tree.root_nodes().len() == 1 && load_result(
                TreeNode { expanded: true, ..n },
                final(self).tree.root_nodes()[0],
                listing_view(root_listing),
                final(self).tree.pattern_list(),
            ),
            final(self).root == old(self).root,
            notice_view(r) == NoticeView::Success("Patterns applied"@),
    {
        let patterns = join_strings(&self.ignore_patterns, ",");
        self.tree.set_ignore_patterns(patterns.as_str(), &no_listing);
        self.saved_ignore_patterns = crate::text::copy_strings(&self.ignore_patterns);
        match root_node {
            Some(n) => self.tree.set_root(n, root_listing),
            None => {},
        }
        Notice::Success(String::from_str("Patterns applied"))
    }
}

/// Undo right after recording a selection gives that selection back: once it is restored in
/// the tree, every recorded file the tree holds is checked and no other file is.
pub proof fn law_undo_gives_back_recorded<F: Fn(&CanonicalPath) -> Option<Vec<(String, TreeNode)>>>(
    h: HistoryView,
    recorded: SelectionSnapshot,
    current: SelectionSnapshot,
    old_root: TreeNode,
    new_root: TreeNode,
    loader: F,
    p: Seq<char>,
)
    requires
        view_wf(h),
        h.max_depth > 0,
        crate::dirtree::restored_and_updated(
            old_root,
            new_root,
            views(spec_undo(spec_push(h, recorded), current).1.unwrap().selected_files@),
            views(spec_undo(spec_push(h, recorded), current).1.unwrap().expanded_dirs@),
            loader,
        ),
    ensures
        spec_undo(spec_push(h, recorded), current).1 == Some(recorded),
        views(recorded.selected_files@).contains(p) && all_files(new_root).contains(p) ==> checked_files(new_root).contains(p),
        checked_files(new_root).contains(p) ==> views(recorded.selected_files@).contains(p),
{
    law_undo_returns_last_recorded(h, recorded, current);
    let sel = views(recorded.selected_files@);
    let exp = views(recorded.expanded_dirs@);
    let (loaded, mid) = choose|loaded: TreeNode, mid: TreeNode|
        crate::tree::restore_loaded(old_root, loaded, exp, Seq::empty(), loader) && crate::tree::restored(
            loaded,
            mid,
            sel,
            exp,
        ) && crate::tree::parents_updated(mid, new_root);
    law_restore_checks_listed_files(loaded, mid, new_root, sel, exp, p);
}

/// Undo right after recording the selection from before a change gives that selection back:
/// once undo has restored it, what `capture_snapshot` reads from the tree (`captured`) lists
/// every recorded file the tree holds and only recorded files, each once; so when the recorded
/// files are all in the tree, the captured selection is, as a set, the recorded one.
pub proof fn law_undo_round_trip<F: Fn(&CanonicalPath) -> Option<Vec<(String, TreeNode)>>>(
    h: HistoryView,
    recorded: SelectionSnapshot,
    current: SelectionSnapshot,
    before: DirectoryTree,
    after: DirectoryTree,
    captured: SelectionSnapshot,
    loader: F,
    p: Seq<char>,
)
    requires
        view_wf(h),
        h.max_depth > 0,
        restored(before, after, spec_undo(spec_push(h, recorded), current).1.unwrap(), loader),
        snapshot_of(after, captured),
    ensures
        spec_undo(spec_push(h, recorded), current).1 == Some(recorded),
        views(captured.selected_files@).no_duplicates(),
        views(recorded.selected_files@).contains(p) && files_in_roots(after.root_nodes()).contains(p)
            ==> views(captured.selected_files@).contains(p),
        views(captured.selected_files@).contains(p) ==> views(recorded.selected_files@).contains(p),
        (forall|q: Seq<char>|
            views(recorded.selected_files@).contains(q) ==> files_in_roots(after.root_nodes()).contains(q))
            ==> (views(captured.selected_files@).contains(p) <==> views(recorded.selected_files@).contains(p)),
{
    law_undo_returns_last_recorded(h, recorded, current);
    law_restore_round_trip(
        before,
        after,
        views(recorded.selected_files@),
        views(recorded.expanded_dirs@),
        loader,
        p,
    );
}

/// A listing that reads nothing: no directory can be read.
fn no_listing(_dir: &CanonicalPath) -> (r: Option<Vec<(String, TreeNode)>>)
    ensures
        r is None,
{
    None
}

} // verus!
