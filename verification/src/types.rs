//! Domain types: token counts, file sizes, paths and selection states.

use vstd::prelude::*;
use crate::patterns::{compile_glob, glob_accepts, glob_compiles, glob_matches, GlobPattern};
use core::marker::PhantomData;

pub mod loading;

verus! {

/// Token count with type safety.
#[derive(Debug, Clone, Copy, PartialEq, Eq, PartialOrd, Ord)]
pub struct TokenCount(pub usize);

/// Token count levels for UI display.
#[derive(Debug, Clone, Copy, PartialEq, Eq, Structural)]
pub enum TokenLevel {
    /// Fewer than 1,000 tokens
    Low,
    /// 1,000 to 10,000 tokens
    Medium,
    /// More than 10,000 tokens
    High,
}

/// The level a raw token count falls into.
pub open spec fn level_of(count: nat) -> TokenLevel {
    if count < 1000 {
        TokenLevel::Low
    } else if count <= 10000 {
        TokenLevel::Medium
    } else {
        TokenLevel::High
    }
}

/// Token estimate for a number of characters: one token per four characters, rounded up.
pub open spec fn tokens_for_chars(chars: nat) -> nat {
    ((chars + 3) / 4) as nat
}

/// The rank of a level, from low to high.
pub open spec fn level_rank(l: TokenLevel) -> int {
    match l {
        TokenLevel::Low => 0,
        TokenLevel::Medium => 1,
        TokenLevel::High => 2,
    }
}

/// A larger count never shows a lower level, and the estimate of `4 n` characters is `n`
/// tokens while one more character adds a token.
pub proof fn law_levels_and_estimates(a: nat, b: nat, n: nat)
    requires
        a <= b,
    ensures
        level_rank(level_of(a)) <= level_rank(level_of(b)),
        tokens_for_chars(4 * n) == n,
        tokens_for_chars(4 * n + 1) == n + 1,
{
}

impl TokenCount {
    /// Creates a new token count.
    pub fn new(count: usize) -> (r: Self)
        ensures
            r.0 == count,
    {
        TokenCount(count)
    }

    /// Estimates tokens from a character count (one token per four characters, rounded up).
    pub fn from_chars(chars: usize) -> (r: Self)
        requires
            chars + 3 <= usize::MAX,
        ensures
            r.0 == tokens_for_chars(chars as nat),
    {
        TokenCount((chars + 3) / 4)
    }

    /// Gets the raw count.
    pub fn get(&self) -> (r: usize)
        ensures
            r == self.0,
    {
        self.0
    }

    /// Gets the estimation level.
    pub fn level(&self) -> (r: TokenLevel)
        ensures
            r == level_of(self.0 as nat),
    {
        if self.0 <= 999 {
            TokenLevel::Low
        } else if self.0 <= 10000 {
            TokenLevel::Medium
        } else {
            TokenLevel::High
        }
    }
}

} // verus!

verus! {

/// A canonical path: the text of a path that has been resolved (symlinks followed,
/// components normalized) before it reaches the library.
#[derive(Debug, Clone, PartialEq, Eq, Hash)]
pub struct CanonicalPath {
    path: String,
}

impl View for CanonicalPath {
    type V = Seq<char>;

    closed spec fn view(&self) -> Seq<char> {
        self.path@
    }
}

/// The texts of a sequence of paths.
pub open spec fn path_views(v: Seq<CanonicalPath>) -> Seq<Seq<char>> {
    v.map_values(|p: CanonicalPath| p@)
}

impl CanonicalPath {
    /// Wraps the text of an already resolved path.
    pub fn new(resolved: String) -> (r: Self)
        ensures
            r@ == resolved@,
    {
        CanonicalPath { path: resolved }
    }

    /// The text of the path.
    pub fn as_path(&self) -> (r: &str)
        ensures
            r@ == self@,
    {
        self.path.as_str()
    }

    /// Whether the path is `root` or lies below it, component-wise.
    pub fn is_contained_within(&self, root: &CanonicalPath) -> (r: bool)
        ensures
            r == crate::paths::within(self@, root@),
    {
        crate::paths::is_within(self.path.as_str(), root.path.as_str())
    }

    /// A copy of the path.
    pub fn duplicate(&self) -> (r: Self)
        ensures
            r@ == self@,
    {
        CanonicalPath { path: self.path.clone() }
    }
}

/// Copies a list of paths.
pub fn duplicate_paths(v: &Vec<CanonicalPath>) -> (r: Vec<CanonicalPath>)
    ensures
        path_views(r@) == path_views(v@),
{
    let mut r: Vec<CanonicalPath> = Vec::new();
    for i in 0..v.len()
        invariant
            r@.len() == i,
            forall|j: int| 0 <= j < i ==> #[trigger] r@[j]@ == v@[j]@,
    {
        r.push(v[i].duplicate());
    }
    assert(path_views(r@) =~= path_views(v@));
    r
}

/// Size from which a file is read through a memory map (256 KiB).
pub const MEMORY_MAP_THRESHOLD: u64 = 262144;

/// File size with type safety.
#[derive(Debug, Clone, Copy, PartialEq, Eq, PartialOrd, Ord)]
pub struct FileSize(pub u64);

/// File reading strategy.
#[derive(Debug, Clone, Copy, PartialEq, Eq, Structural)]
pub enum FileReadStrategy {
    /// Read the entire file into memory
    Direct,
    /// Use memory mapping
    MemoryMapped,
}

impl FileSize {
    /// Creates a file size from a byte count.
    pub fn from_bytes(bytes: u64) -> (r: Self)
        ensures
            r.0 == bytes,
    {
        FileSize(bytes)
    }

    /// The size in bytes.
    pub fn bytes(&self) -> (r: u64)
        ensures
            r == self.0,
    {
        self.0
    }

    /// Direct reads below 256 KiB, memory mapping from there on.
    pub fn read_strategy(&self) -> (r: FileReadStrategy)
        ensures
            r == (if self.0 < MEMORY_MAP_THRESHOLD {
                FileReadStrategy::Direct
            } else {
                FileReadStrategy::MemoryMapped
            }),
    {
        if self.0 < MEMORY_MAP_THRESHOLD {
            FileReadStrategy::Direct
        } else {
            FileReadStrategy::MemoryMapped
        }
    }
}

/// Type of filesystem entry with associated data.
#[derive(Debug, Clone)]
pub enum FsEntryType {
    /// Regular file with size
    File { size: FileSize },
    /// Directory
    Directory,
    /// Symbolic link (not followed)
    Symlink { target: String },
}

/// File system entry metadata (pure data, no UI state).
#[derive(Debug, Clone)]
pub struct FsEntry {
    /// Canonical path to the entry
    pub path: CanonicalPath,
    /// Display name
    pub name: String,
    /// Entry type
    pub entry_type: FsEntryType,
}

impl FsEntry {
    /// Whether this is a directory.
    pub fn is_dir(&self) -> (r: bool)
        ensures
            r == (self.entry_type is Directory),
    {
        match self.entry_type {
            FsEntryType::Directory => true,
            _ => false,
        }
    }

    /// The file size, if this is a file.
    pub fn file_size(&self) -> (r: Option<FileSize>)
        ensures
            r == (match self.entry_type {
                FsEntryType::File { size } => Some(size),
                _ => None,
            }),
    {
        match &self.entry_type {
            FsEntryType::File { size } => Some(*size),
            _ => None,
        }
    }
}

/// Selection state of a file or directory.
#[derive(Debug, Clone, Copy, PartialEq, Eq, Structural)]
pub enum SelectionState {
    /// Not selected
    Unchecked,
    /// Fully selected
    Checked,
    /// Partially selected (directories with mixed children)
    Indeterminate,
}

impl Default for SelectionState {
    fn default() -> (r: Self)
        ensures
            r == SelectionState::Unchecked,
    {
        SelectionState::Unchecked
    }
}

/// UI node that combines filesystem data with UI state.
#[derive(Debug)]
pub struct UiNode {
    /// The filesystem entry
    pub entry: FsEntry,
    /// Selection state
    pub selection: SelectionState,
    /// Whether this node matches the current search
    pub matches_search: bool,
    /// Children nodes (for directories)
    pub children: Vec<UiNode>,
    /// Whether the children have been loaded
    pub children_loaded: bool,
}

/// Progress stages of a request.
#[derive(Debug, Clone, Copy, PartialEq, Eq, Structural)]
pub enum ProgressStage {
    /// Discovering files
    Discovery,
    /// Reading file contents
    Reading,
    /// Building output
    Formatting,
    /// Complete
    Complete,
}

/// Progress update with detailed information.
#[derive(Debug, Clone)]
pub struct ProgressUpdate {
    /// Current stage
    pub stage: ProgressStage,
    /// Items completed
    pub completed: usize,
    /// Total items (if known)
    pub total: Option<usize>,
    /// Current item being processed
    pub current_item: Option<String>,
    /// Generated content
    pub content: Option<String>,
    /// Token count
    pub tokens: Option<TokenCount>,
    /// Whether generation is in progress
    pub generating: bool,
}

/// Loading state, tagged by one of the marker types of [`loading`].
#[derive(Debug)]
pub struct LoadingState<S> {
    phantom: PhantomData<S>,
}

/// Messages that can be sent to the worker.
#[derive(Debug)]
pub enum WorkerRequest {
    /// Scan a directory for entries
    ScanDirectory {
        /// Directory to scan
        path: CanonicalPath,
        /// Include hidden files
        include_hidden: bool,
    },
    /// Generate output from selected files
    GenerateOutput {
        /// Root directory
        root: CanonicalPath,
        /// Selected paths, each once
        selections: Vec<CanonicalPath>,
        /// Output configuration
        config: OutputConfig,
    },
    /// Cancel current operation
    Cancel,
}

/// Output generation configuration.
#[derive(Debug)]
pub struct OutputConfig {
    /// Output format
    pub format: OutputFormat,
    /// Ignore patterns
    pub ignore_patterns: Vec<IgnorePattern>,
    /// Include file contents
    pub include_contents: bool,
    /// Maximum file size to include
    pub max_file_size: Option<FileSize>,
}

/// A compiled ignore pattern together with its text.
#[derive(Debug)]
pub struct IgnorePattern {
    /// The pattern text as given
    pub pattern: String,
    compiled: GlobPattern,
}

impl IgnorePattern {
    /// The text the pattern was compiled from.
    pub closed spec fn compiled_from(&self) -> Seq<char> {
        self.compiled.source()
    }

    /// The text kept in the `pattern` field.
    pub closed spec fn text(&self) -> Seq<char> {
        self.pattern@
    }

    /// Compiles the pattern as a glob; `None` where it is not a valid glob.
    pub fn new(pattern: String) -> (r: Option<Self>)
        ensures
            r is Some == glob_compiles(pattern@),
            r matches Some(p) ==> p.text() == pattern@ && p.compiled_from() == pattern@,
    {
        match compile_glob(pattern.as_str()) {
            Some(compiled) => Some(IgnorePattern { pattern, compiled }),
            None => None,
        }
    }

    /// Whether the path matches the compiled pattern.
    pub fn matches(&self, path: &str) -> (r: bool)
        ensures
            r == glob_accepts(self.compiled_from(), path@),
    {
        glob_matches(&self.compiled, path)
    }
}

/// Worker responses.
#[derive(Debug)]
pub enum WorkerResponse {
    /// Directory entries found
    DirectoryEntries {
        /// Path that was scanned
        path: CanonicalPath,
        /// Found entries
        entries: Vec<FsEntry>,
    },
    /// Progress update
    Progress(ProgressUpdate),
    /// Output generated
    OutputReady {
        /// Generated content
        content: String,
        /// Token count
        tokens: TokenCount,
        /// Generation time in milliseconds
        generation_time_ms: u32,
    },
    /// Error occurred
    Error(WorkerError),
}

/// Output format options.
#[derive(Debug, Clone, Copy, PartialEq, Eq, Structural)]
pub enum OutputFormat {
    /// XML format
    Xml,
    /// Markdown format
    Markdown,
}

impl Default for OutputFormat {
    fn default() -> (r: Self)
        ensures
            r == OutputFormat::Xml,
    {
        OutputFormat::Xml
    }
}

/// Worker errors with specific variants.
#[derive(Debug, Clone)]
pub enum WorkerError {
    /// I/O error with path context
    Io { path: String, error: String },
    /// Invalid UTF-8 in file
    InvalidUtf8 { path: String },
    /// Pattern compilation failed
    InvalidPattern { pattern: String, error: String },
    /// Directory not found
    NotFound { path: String },
    /// Permission denied
    PermissionDenied { path: String },
    /// Operation cancelled
    Cancelled,
}

/// Tracks selections with undo/redo support.
#[derive(Debug)]
pub struct SelectionTracker {
    /// Current selections
    pub selected: Vec<CanonicalPath>,
    /// Undo stack
    pub undo_stack: Vec<Vec<CanonicalPath>>,
    /// Redo stack
    pub redo_stack: Vec<Vec<CanonicalPath>>,
}

/// The texts of each entry of a stack of path lists.
pub open spec fn stack_views(v: Seq<Vec<CanonicalPath>>) -> Seq<Seq<Seq<char>>> {
    v.map_values(|e: Vec<CanonicalPath>| path_views(e@))
}

impl SelectionTracker {
    /// Each selection, current or recorded, names no path twice.
    pub open spec fn wf(&self) -> bool {
        &&& path_views(self.selected@).no_duplicates()
        &&& forall|i: int| 0 <= i < self.undo_stack@.len() ==> (#[trigger] stack_views(self.undo_stack@)[i]).no_duplicates()
        &&& forall|i: int| 0 <= i < self.redo_stack@.len() ==> (#[trigger] stack_views(self.redo_stack@)[i]).no_duplicates()
    }
}

impl Default for SelectionTracker {
    fn default() -> (r: Self)
        ensures
            r.wf(),
            r.selected@.len() == 0,
            r.undo_stack@.len() == 0,
            r.redo_stack@.len() == 0,
    {
        SelectionTracker { selected: Vec::new(), undo_stack: Vec::new(), redo_stack: Vec::new() }
    }
}

impl SelectionTracker {
    /// Maximum undo history size.
    pub const MAX_HISTORY: usize = 20;

    /// Records the current selection for undo: the oldest entry is dropped once the
    /// history is full, and the redo stack is cleared.
    pub fn checkpoint(&mut self)
        ensures
            path_views(final(self).selected@) == path_views(old(self).selected@),
            stack_views(final(self).undo_stack@) == stack_views(
                if old(self).undo_stack@.len() >= 20 {
                    old(self).undo_stack@.drop_first()
                } else {
                    old(self).undo_stack@
                },
            ).push(path_views(old(self).selected@)),
            final(self).redo_stack@.len() == 0,
            old(self).wf() ==> final(self).wf(),
    {
        let ghost base = if old(self).undo_stack@.len() >= 20 {
            old(self).undo_stack@.drop_first()
        } else {
            old(self).undo_stack@
        };
        if self.undo_stack.len() >= Self::MAX_HISTORY {
            self.undo_stack.remove(0);
        }
        assert(self.undo_stack@ =~= base);
        let copy = duplicate_paths(&self.selected);
        self.undo_stack.push(copy);
        self.redo_stack.clear();
        assert(stack_views(self.undo_stack@) =~= stack_views(base).push(path_views(old(self).selected@)));
        proof {
            if old(self).wf() {
                let n = self.undo_stack@.len();
                assert forall|i: int| 0 <= i < n implies (#[trigger] stack_views(self.undo_stack@)[i]).no_duplicates() by {
                    if i == n - 1 {
                        assert(stack_views(self.undo_stack@)[i] == path_views(old(self).selected@));
                    } else if old(self).undo_stack@.len() >= 20 {
                        assert(stack_views(self.undo_stack@)[i] == stack_views(old(self).undo_stack@)[i + 1]);
                    } else {
                        assert(stack_views(self.undo_stack@)[i] == stack_views(old(self).undo_stack@)[i]);
                    }
                }
            }
        }
    }
}

/// Search state.
#[derive(Debug)]
pub struct SearchState {
    /// Current search query
    pub query: String,
    /// Search results (matching paths)
    pub results: Vec<CanonicalPath>,
    /// Whether the search is active
    pub active: bool,
}

impl SearchState {
    /// The results name no path twice.
    pub open spec fn wf(&self) -> bool {
        path_views(self.results@).no_duplicates()
    }
}

impl Default for SearchState {
    fn default() -> (r: Self)
        ensures
            r.wf(),
            r.query@.len() == 0,
            r.results@.len() == 0,
            !r.active,
    {
        SearchState { query: String::new(), results: Vec::new(), active: false }
    }
}

/// Output generation state.
#[derive(Debug)]
pub struct OutputState {
    /// Current output format
    pub format: OutputFormat,
    /// Generated content
    pub content: Option<String>,
    /// Token count
    pub tokens: Option<TokenCount>,
    /// Whether generation is in progress
    pub generating: bool,
}

impl Default for OutputState {
    fn default() -> (r: Self)
        ensures
            r.format == OutputFormat::Xml,
            r.content is None,
            r.tokens is None,
            !r.generating,
    {
        OutputState { format: OutputFormat::Xml, content: None, tokens: None, generating: false }
    }
}

/// Performance configuration.
#[derive(Debug, Clone)]
pub struct PerformanceConfig {
    /// Maximum concurrent file reads
    pub max_concurrent_reads: usize,
    /// File cache size limit in MB
    pub cache_size_mb: usize,
    /// Use memory mapping for large files
    pub use_mmap: bool,
}

/// UI theme preference.
#[derive(Debug, Clone, Copy, PartialEq, Eq, Structural)]
pub enum Theme {
    /// Light theme
    Light,
    /// Dark theme
    Dark,
    /// Follow the system
    System,
}

impl Default for Theme {
    fn default() -> (r: Self)
        ensures
            r == Theme::System,
    {
        Theme::System
    }
}

} // verus!
