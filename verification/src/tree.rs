//! The directory tree of the file selector: lazily loaded nodes with tri-state selection.
//!
//! Reading the filesystem is left to the caller: a node's listing is handed in as the entries
//! read from its directory (raw name and node), and the functions that tell which directory
//! to read next say where loading is still owed.

use vstd::prelude::*;
use crate::order::{chars_lt, entry_lt, lemma_seq_lt_order, seq_lt};
use crate::paths::{file_name, file_name_of};
use crate::patterns::{any_glob_accepts, any_glob_matches, glob_sources, GlobPattern};
use crate::sort::{insertion_sort, lemma_sort_permutes, lemma_sort_sorted, reverse_vec, sort_by, sorted_by, strict_weak_order};
use crate::text::{chars_of, lowercase_of, to_lowercase};
use crate::types::{path_views, CanonicalPath, FileSize, SelectionState};
use crate::fstree::{child_prefix, tree_line};
use crate::text::{decimal, push_decimal, push_str};

verus! {

/// A node in the directory tree.
#[derive(Debug)]
pub struct TreeNode {
    /// Canonical path to the file or directory
    pub canonical_path: CanonicalPath,
    /// Display name (file or folder name)
    pub name: String,
    /// Whether this is a directory
    pub is_dir: bool,
    /// Selection state
    pub selection: SelectionState,
    /// Whether the node is expanded (for directories)
    pub expanded: bool,
    /// Whether the children have been loaded
    pub children_loaded: bool,
    /// Child nodes (lazily loaded)
    pub children: Vec<TreeNode>,
    /// File size if this is a file
    pub file_size: Option<FileSize>,
}

/// The display name of a path: its last component, or the whole path when it has none.
pub open spec fn display_name(p: Seq<char>) -> Seq<char> {
    match file_name_of(p) {
        Some(n) => n,
        None => p,
    }
}

/// Directories first, then by lowercase name.
pub open spec fn tree_node_lt(a: TreeNode, b: TreeNode) -> bool {
    entry_lt(a.is_dir, lowercase_of(a.name@), b.is_dir, lowercase_of(b.name@))
}

/// The nodes of the listed entries whose raw name no pattern matches, in order.
pub open spec fn kept_entries(entries: Seq<(String, TreeNode)>, pats: Seq<Seq<char>>) -> Seq<TreeNode>
    decreases entries.len(),
{
    if entries.len() == 0 {
        Seq::empty()
    } else if any_glob_accepts(pats, entries.last().0@) {
        kept_entries(entries.drop_last(), pats)
    } else {
        kept_entries(entries.drop_last(), pats).push(entries.last().1)
    }
}

/// The children built from a directory listing: ignored entries left out, then sorted.
pub open spec fn listed_children(entries: Seq<(String, TreeNode)>, pats: Seq<Seq<char>>) -> Seq<TreeNode> {
    sort_by(kept_entries(entries, pats), |a: TreeNode, b: TreeNode| tree_node_lt(a, b))
}

/// The children a loading gives: the listed ones, or the old ones when the directory could not be read.
pub open spec fn children_from(old: Seq<TreeNode>, listing: Option<Seq<(String, TreeNode)>>, pats: Seq<Seq<char>>) -> Seq<TreeNode> {
    match listing {
        Some(l) => listed_children(l, pats),
        None => old,
    }
}

/// The views of an optional listing.
pub open spec fn listing_view(listing: Option<Vec<(String, TreeNode)>>) -> Option<Seq<(String, TreeNode)>> {
    match listing {
        Some(l) => Some(l@),
        None => None,
    }
}

/// `b` is `a` with at most its selection changed.
pub open spec fn same_but_selection(a: TreeNode, b: TreeNode) -> bool {
    &&& b.canonical_path == a.canonical_path
    &&& b.name == a.name
    &&& b.is_dir == a.is_dir
    &&& b.expanded == a.expanded
    &&& b.children_loaded == a.children_loaded
    &&& b.children@ == a.children@
    &&& b.file_size == a.file_size
}

/// `b` is `a` with at most its selection, expansion and children changed.
pub open spec fn same_entry(a: TreeNode, b: TreeNode) -> bool {
    &&& b.canonical_path == a.canonical_path
    &&& b.name == a.name
    &&& b.is_dir == a.is_dir
    &&& b.file_size == a.file_size
}

/// What loading a node's children does: nothing for a file or an already loaded directory;
/// otherwise the node is marked loaded and takes the children of the listing.
pub open spec fn load_result(old: TreeNode, new: TreeNode, listing: Option<Seq<(String, TreeNode)>>, pats: Seq<Seq<char>>) -> bool {
    if !old.is_dir || old.children_loaded {
        new == old
    } else {
        &&& same_entry(old, new)
        &&& new.selection == old.selection
        &&& new.expanded == old.expanded
        &&& new.children_loaded
        &&& new.children@ == children_from(old.children@, listing, pats)
    }
}

/// The state a directory takes from its children: checked when all are, unchecked when all
/// are, indeterminate otherwise.
pub open spec fn parent_state(cs: Seq<TreeNode>) -> SelectionState {
    if forall|i: int| 0 <= i < cs.len() ==> (#[trigger] cs[i]).selection == SelectionState::Checked {
        SelectionState::Checked
    } else if forall|i: int| 0 <= i < cs.len() ==> (#[trigger] cs[i]).selection == SelectionState::Unchecked {
        SelectionState::Unchecked
    } else {
        SelectionState::Indeterminate
    }
}

/// What setting a selection state does to a subtree: the node takes the state; unless the state
/// is indeterminate every loaded descendant takes it too; checking expands every directory.
pub open spec fn selection_applied(old: TreeNode, new: TreeNode, state: SelectionState) -> bool
    decreases old,
{
    &&& same_entry(old, new)
    &&& new.children_loaded == old.children_loaded
    &&& new.selection == state
    &&& new.expanded == (if state == SelectionState::Checked && old.is_dir {
        true
    } else {
        old.expanded
    })
    &&& if state == SelectionState::Indeterminate {
        new.children@ == old.children@
    } else {
        &&& new.children@.len() == old.children@.len()
        &&& forall|i: int|
            0 <= i < old.children@.len() ==> selection_applied(
                #[trigger] old.children@[i],
                new.children@[i],
                state,
            )
    }
}

/// Loading at the node that `path` leads to; nothing changes when the path leads nowhere.
pub open spec fn loaded_at(old: TreeNode, new: TreeNode, path: Seq<usize>, listing: Option<Seq<(String, TreeNode)>>, pats: Seq<Seq<char>>) -> bool
    decreases path.len(),
{
    if path.len() == 0 {
        load_result(old, new, listing, pats)
    } else if path[0] >= old.children@.len() {
        new == old
    } else {
        &&& same_entry(old, new)
        &&& new.selection == old.selection
        &&& new.expanded == old.expanded
        &&& new.children_loaded == old.children_loaded
        &&& new.children@.len() == old.children@.len()
        &&& forall|j: int|
            0 <= j < old.children@.len() && j != path[0] ==> #[trigger] new.children@[j]
                == old.children@[j]
        &&& loaded_at(
            old.children@[path[0] as int],
            new.children@[path[0] as int],
            path.drop_first(),
            listing,
            pats,
        )
    }
}

/// How deep checking a directory loads its subtree.
pub const CHECK_LOAD_DEPTH: usize = 20;

/// Loading a node's children once through `loader` (a directory's listing, `None` when it could
/// not be read): a node already loaded, or a file, stays as it is.
pub open spec fn loaded_once<F: Fn(&CanonicalPath) -> Option<Vec<(String, TreeNode)>>>(
    old: TreeNode,
    mid: TreeNode,
    pats: Seq<Seq<char>>,
    loader: F,
) -> bool {
    if !old.is_dir || old.children_loaded {
        mid == old
    } else {
        exists|r: Option<Vec<(String, TreeNode)>>|
            call_ensures(loader, (&old.canonical_path,), r) && #[trigger] load_result(
                old,
                mid,
                listing_view(r),
                pats,
            )
    }
}

/// Loading a subtree down to `max_depth`, the node itself being at `depth`: every directory
/// above that depth is loaded (once, through `loader`) and expanded, and its children are
/// loaded in turn; nothing at or below `max_depth` is read or changed.
pub open spec fn loaded_within<F: Fn(&CanonicalPath) -> Option<Vec<(String, TreeNode)>>>(
    old: TreeNode,
    new: TreeNode,
    depth: int,
    max_depth: int,
    pats: Seq<Seq<char>>,
    loader: F,
) -> bool
    decreases max_depth - depth,
{
    if !old.is_dir || depth >= max_depth {
        new == old
    } else {
        exists|mid: TreeNode|
            {
                &&& #[trigger] loaded_once(old, mid, pats, loader)
                &&& same_entry(mid, new)
                &&& new.selection == mid.selection
                &&& new.expanded
                &&& new.children_loaded
                &&& new.children@.len() == mid.children@.len()
                &&& forall|i: int|
                    0 <= i < mid.children@.len() ==> loaded_within(
                        #[trigger] mid.children@[i],
                        new.children@[i],
                        depth + 1,
                        max_depth,
                        pats,
                        loader,
                    )
            }
    }
}

/// Setting a selection state with loading: a checked directory first has its subtree loaded
/// `CHECK_LOAD_DEPTH` levels deep, then the state is applied as `selection_applied` says.
pub open spec fn selection_set<F: Fn(&CanonicalPath) -> Option<Vec<(String, TreeNode)>>>(
    old: TreeNode,
    new: TreeNode,
    state: SelectionState,
    pats: Seq<Seq<char>>,
    loader: F,
) -> bool {
    exists|mid: TreeNode|
        {
            &&& if state == SelectionState::Checked && old.is_dir {
                loaded_within(old, mid, 0, CHECK_LOAD_DEPTH as int, pats, loader)
            } else {
                mid == old
            }
            &&& #[trigger] selection_applied(mid, new, state)
        }
}

fn tree_node_before(a: &TreeNode, b: &TreeNode) -> (r: bool)
    ensures
        r == tree_node_lt(*a, *b),
{
    let la = to_lowercase(a.name.as_str());
    let lb = to_lowercase(b.name.as_str());
    let ka = chars_of(la.as_str());
    let kb = chars_of(lb.as_str());
    if a.is_dir && !b.is_dir {
        true
    } else if !a.is_dir && b.is_dir {
        false
    } else {
        chars_lt(&ka, &kb)
    }
}

/// The nodes of the entries that no pattern ignores, sorted.
fn build_children(entries: Vec<(String, TreeNode)>, pats: &[GlobPattern]) -> (r: Vec<TreeNode>)
    ensures
        r@ == listed_children(entries@, glob_sources(pats@)),
{
    let ghost s = entries@;
    let mut rev = reverse_vec(entries);
    let mut kept: Vec<TreeNode> = Vec::new();
    let mut n: usize = 0;
    assert(s.len() <= usize::MAX) by {
        assert(rev@.len() == rev.len());
    }
    while rev.len() > 0
        invariant
            rev@.reverse() == s.skip(n as int),
            n <= s.len(),
            s.len() <= usize::MAX,
            kept@ == kept_entries(s.take(n as int), glob_sources(pats@)),
        decreases rev@.len(),
    {
        let ghost r_old = rev@;
        let x = rev.pop().unwrap();
        proof {
            assert(r_old.reverse() =~= s.skip(n as int));
            assert(r_old.reverse()[0] == x);
            assert(s.skip(n as int)[0] == x);
            assert(rev@.reverse() =~= r_old.reverse().drop_first());
            assert(s.skip(n as int).drop_first() =~= s.skip(n + 1));
            assert(s.take(n + 1).drop_last() =~= s.take(n as int));
            assert(s.take(n + 1).last() == x);
        }
        let (raw_name, node) = x;
        if !any_glob_matches(pats, raw_name.as_str()) {
            kept.push(node);
        }
        n += 1;
    }
    assert(s.take(n as int) =~= s);
    insertion_sort(kept, tree_node_before, Ghost(|a: TreeNode, b: TreeNode| tree_node_lt(a, b)))
}

impl TreeNode {
    /// Creates an unselected, collapsed, unloaded node for a path; the size is kept for files only.
    /// The name is the path's last component, or the whole path when it has none.
    pub fn new(canonical_path: CanonicalPath, is_dir: bool, file_size: Option<FileSize>) -> (r: Self)
        ensures
            r.canonical_path@ == canonical_path@,
            r.name@ == display_name(canonical_path@),
            r.is_dir == is_dir,
            r.selection == SelectionState::Unchecked,
            !r.expanded,
            !r.children_loaded,
            r.children@.len() == 0,
            r.file_size == (if is_dir {
                None
            } else {
                file_size
            }),
    {
        let name = match file_name(canonical_path.as_path()) {
            Some(n) => n,
            None => canonical_path.as_path().to_owned(),
        };
        TreeNode {
            canonical_path,
            name,
            is_dir,
            selection: SelectionState::Unchecked,
            expanded: false,
            children_loaded: false,
            children: Vec::new(),
            file_size: if is_dir {
                None
            } else {
                file_size
            },
        }
    }

    /// Whether the node is a directory whose children are still to be read.
    pub fn needs_loading(&self) -> (r: bool)
        ensures
            r == (self.is_dir && !self.children_loaded),
    {
        self.is_dir && !self.children_loaded
    }

    /// Loads the children of a directory from its listing (`None` when it could not be read):
    /// entries whose raw name matches an ignore pattern are left out, directories come first,
    /// then names in lowercase order. Files and loaded directories are left as they are.
    pub fn load_children_with_patterns(
        &mut self,
        listing: Option<Vec<(String, TreeNode)>>,
        ignore_patterns: &[GlobPattern],
    )
        ensures
            load_result(*old(self), *final(self), listing_view(listing), glob_sources(ignore_patterns@)),
    {
        if !self.is_dir || self.children_loaded {
            return;
        }
        self.children_loaded = true;
        match listing {
            Some(entries) => {
                let children = build_children(entries, ignore_patterns);
                self.children = children;
            },
            None => {},
        }
    }

    /// Loads the children of a directory from its listing, with no ignore patterns.
    pub fn load_children(&mut self, listing: Option<Vec<(String, TreeNode)>>)
        ensures
            load_result(*old(self), *final(self), listing_view(listing), Seq::empty()),
    {
        let none: Vec<GlobPattern> = Vec::new();
        assert(glob_sources(none@) =~= Seq::<Seq<char>>::empty());
        self.load_children_with_patterns(listing, none.as_slice());
    }

    /// Applies a selection state to the subtree as it stands: the node takes it, and unless it
    /// is indeterminate every loaded descendant takes it as well; checking also expands every
    /// directory of the subtree.
    fn mark_selection(&mut self, state: SelectionState)
        ensures
            selection_applied(*old(self), *final(self), state),
        decreases *old(self),
    {
        self.selection = state;
        if state != SelectionState::Indeterminate {
            if state == SelectionState::Checked && self.is_dir {
                self.expanded = true;
            }
            let len = self.children.len();
            for i in 0..len
                invariant
                    self.children@.len() == len,
                    len == old(self).children@.len(),
                    same_entry(*old(self), *self),
                    self.children_loaded == old(self).children_loaded,
                    self.selection == state,
                    state != SelectionState::Indeterminate,
                    self.expanded == (if state == SelectionState::Checked && old(self).is_dir {
                        true
                    } else {
                        old(self).expanded
                    }),
                    forall|j: int|
                        0 <= j < i ==> selection_applied(
                            #[trigger] old(self).children@[j],
                            self.children@[j],
                            state,
                        ),
                    forall|j: int| i <= j < len ==> self.children@[j] == old(self).children@[j],
            {
                self.children[i].mark_selection(state);
            }
        }
    }

    /// Sets a directory's state from its children: checked when all are, unchecked when all
    /// are, indeterminate otherwise. Files and directories without children are left as they are.
    pub fn update_parent_selection(&mut self)
        ensures
            same_but_selection(*old(self), *final(self)),
            final(self).selection == (if !old(self).is_dir || old(self).children@.len() == 0 {
                old(self).selection
            } else {
                parent_state(old(self).children@)
            }),
    {
        if !self.is_dir || self.children.len() == 0 {
            return;
        }
        let mut all_checked = true;
        let mut all_unchecked = true;
        for i in 0..self.children.len()
            invariant
                all_checked == forall|j: int|
                    0 <= j < i ==> (#[trigger] self.children@[j]).selection
                        == SelectionState::Checked,
                all_unchecked == forall|j: int|
                    0 <= j < i ==> (#[trigger] self.children@[j]).selection
                        == SelectionState::Unchecked,
        {
            let s = self.children[i].selection;
            if s != SelectionState::Checked {
                all_checked = false;
            }
            if s != SelectionState::Unchecked {
                all_unchecked = false;
            }
        }
        self.selection = if all_checked {
            SelectionState::Checked
        } else if all_unchecked {
            SelectionState::Unchecked
        } else {
            SelectionState::Indeterminate
        };
    }

    /// Loads the children of the node that `path` (child indices) leads to; nothing changes
    /// when the path leads nowhere.
    pub fn load_children_at(
        &mut self,
        path: &[usize],
        listing: Option<Vec<(String, TreeNode)>>,
        ignore_patterns: &[GlobPattern],
    )
        ensures
            loaded_at(*old(self), *final(self), path@, listing_view(listing), glob_sources(ignore_patterns@)),
        decreases path@.len(),
    {
        if path.len() == 0 {
            self.load_children_with_patterns(listing, ignore_patterns);
            return;
        }
        let i = path[0];
        if i >= self.children.len() {
            return;
        }
        let mut rest: Vec<usize> = Vec::new();
        let mut k: usize = 1;
        while k < path.len()
            invariant
                1 <= k <= path@.len(),
                rest@ == path@.subrange(1, k as int),
            decreases path@.len() - k,
        {
            rest.push(path[k]);
            k += 1;
            assert(rest@ =~= path@.subrange(1, k as int));
        }
        assert(rest@ =~= path@.drop_first());
        self.children[i].load_children_at(rest.as_slice(), listing, ignore_patterns);
    }

    /// Loads the subtree down to `max_depth` (the node itself being at `current_depth`), reading
    /// each unloaded directory through `loader` with the ignore patterns, and expands every
    /// directory above that depth.
    pub fn load_children_recursive_with_patterns<F>(
        &mut self,
        current_depth: usize,
        max_depth: usize,
        ignore_patterns: &[GlobPattern],
        loader: &F,
    ) where F: Fn(&CanonicalPath) -> Option<Vec<(String, TreeNode)>>
        requires
            forall|p: &CanonicalPath| call_requires(*loader, (p,)),
        ensures
            loaded_within(
                *old(self),
                *final(self),
                current_depth as int,
                max_depth as int,
                glob_sources(ignore_patterns@),
                *loader,
            ),
        decreases max_depth - current_depth,
    {
        if !self.is_dir || current_depth >= max_depth {
            return;
        }
        let ghost pats = glob_sources(ignore_patterns@);
        if !self.children_loaded {
            let listing = loader(&self.canonical_path);
            let ghost lg = listing;
            self.load_children_with_patterns(listing, ignore_patterns);
            assert(call_ensures(*loader, (&old(self).canonical_path,), lg) && load_result(
                *old(self),
                *self,
                listing_view(lg),
                pats,
            ));
        }
        let ghost mid = *self;
        assert(loaded_once(*old(self), mid, pats, *loader));
        self.expanded = true;
        let len = self.children.len();
        for i in 0..len
            invariant
                self.children@.len() == len,
                len == mid.children@.len(),
                current_depth < max_depth,
                mid.is_dir,
                mid.children_loaded,
                pats == glob_sources(ignore_patterns@),
                forall|p: &CanonicalPath| call_requires(*loader, (p,)),
                same_entry(mid, *self),
                self.selection == mid.selection,
                self.expanded,
                self.children_loaded,
                forall|j: int|
                    0 <= j < i ==> loaded_within(
                        #[trigger] mid.children@[j],
                        self.children@[j],
                        current_depth + 1,
                        max_depth as int,
                        pats,
                        *loader,
                    ),
                forall|j: int| i <= j < len ==> self.children@[j] == mid.children@[j],
        {
            self.children[i].load_children_recursive_with_patterns(
                current_depth + 1,
                max_depth,
                ignore_patterns,
                loader,
            );
        }
    }

    /// Loads the subtree down to `max_depth` with no ignore patterns (see
    /// `load_children_recursive_with_patterns`).
    pub fn load_children_recursive<F>(&mut self, current_depth: usize, max_depth: usize, loader: &F)
        where F: Fn(&CanonicalPath) -> Option<Vec<(String, TreeNode)>>
        requires
            forall|p: &CanonicalPath| call_requires(*loader, (p,)),
        ensures
            loaded_within(
                *old(self),
                *final(self),
                current_depth as int,
                max_depth as int,
                Seq::empty(),
                *loader,
            ),
    {
        let none: Vec<GlobPattern> = Vec::new();
        assert(glob_sources(none@) =~= Seq::<Seq<char>>::empty());
        self.load_children_recursive_with_patterns(current_depth, max_depth, none.as_slice(), loader);
    }

    /// Sets the selection state with ignore patterns: the node takes it, and unless it is
    /// indeterminate every loaded descendant takes it too. Checking a directory first loads its
    /// subtree `CHECK_LOAD_DEPTH` levels deep through `loader`, and expands its directories.
    pub fn set_selection_with_patterns<F>(
        &mut self,
        state: SelectionState,
        patterns: &[GlobPattern],
        loader: &F,
    ) where F: Fn(&CanonicalPath) -> Option<Vec<(String, TreeNode)>>
        requires
            forall|p: &CanonicalPath| call_requires(*loader, (p,)),
        ensures
            selection_set(*old(self), *final(self), state, glob_sources(patterns@), *loader),
    {
        if state == SelectionState::Checked && self.is_dir {
            self.load_children_recursive_with_patterns(0, CHECK_LOAD_DEPTH, patterns, loader);
        }
        let ghost mid = *self;
        self.mark_selection(state);
        assert(selection_applied(mid, *self, state));
    }

    /// Sets the selection state with no ignore patterns (see `set_selection_with_patterns`).
    pub fn set_selection<F>(&mut self, state: SelectionState, loader: &F)
        where F: Fn(&CanonicalPath) -> Option<Vec<(String, TreeNode)>>
        requires
            forall|p: &CanonicalPath| call_requires(*loader, (p,)),
        ensures
            selection_set(*old(self), *final(self), state, Seq::empty(), *loader),
    {
        let none: Vec<GlobPattern> = Vec::new();
        assert(glob_sources(none@) =~= Seq::<Seq<char>>::empty());
        self.set_selection_with_patterns(state, none.as_slice(), loader);
    }
}

/// Updating directory states bottom-up: each directory with children, below as well as at
/// the node, takes the state its updated children give it.
pub open spec fn parents_updated(old: TreeNode, new: TreeNode) -> bool
    decreases old,
{
    if !old.is_dir || old.children@.len() == 0 {
        new == old
    } else {
        &&& same_entry(old, new)
        &&& new.expanded == old.expanded
        &&& new.children_loaded == old.children_loaded
        &&& new.children@.len() == old.children@.len()
        &&& forall|i: int|
            0 <= i < old.children@.len() ==> if (#[trigger] old.children@[i]).is_dir {
                parents_updated(old.children@[i], new.children@[i])
            } else {
                new.children@[i] == old.children@[i]
            }
        &&& new.selection == parent_state(new.children@)
    }
}

/// The files a selection covers, in pre-order: every checked file of the subtree, whatever
/// the state of the directories above it.
pub open spec fn selected_under(n: TreeNode) -> Seq<Seq<char>>
    decreases n, 1int,
{
    if n.is_dir {
        selected_list(n.children@)
    } else if n.selection == SelectionState::Checked {
        seq![n.canonical_path@]
    } else {
        Seq::empty()
    }
}

/// The covered files of a list of nodes, in order.
pub open spec fn selected_list(cs: Seq<TreeNode>) -> Seq<Seq<char>>
    decreases cs, 0int,
{
    if cs.len() == 0 {
        Seq::empty()
    } else {
        selected_list(cs.drop_last()) + selected_under(cs.last())
    }
}

/// The checked files of a subtree, in pre-order, whatever the state of their directories.
pub open spec fn checked_files(n: TreeNode) -> Seq<Seq<char>>
    decreases n, 1int,
{
    (if n.selection == SelectionState::Checked && !n.is_dir {
        seq![n.canonical_path@]
    } else {
        Seq::empty()
    }) + checked_files_list(n.children@)
}

/// The checked files of a list of nodes, in order.
pub open spec fn checked_files_list(cs: Seq<TreeNode>) -> Seq<Seq<char>>
    decreases cs, 0int,
{
    if cs.len() == 0 {
        Seq::empty()
    } else {
        checked_files_list(cs.drop_last()) + checked_files(cs.last())
    }
}

/// The expanded directories of a subtree, in pre-order.
pub open spec fn expanded_dirs(n: TreeNode) -> Seq<Seq<char>>
    decreases n, 1int,
{
    (if n.is_dir && n.expanded {
        seq![n.canonical_path@]
    } else {
        Seq::empty()
    }) + expanded_dirs_list(n.children@)
}

/// The expanded directories of a list of nodes, in order.
pub open spec fn expanded_dirs_list(cs: Seq<TreeNode>) -> Seq<Seq<char>>
    decreases cs, 0int,
{
    if cs.len() == 0 {
        Seq::empty()
    } else {
        expanded_dirs_list(cs.drop_last()) + expanded_dirs(cs.last())
    }
}

/// Restoring a recorded state on a subtree: a directory listed as expanded is expanded, a file
/// listed as selected is checked, and everything else keeps its state.
pub open spec fn restored(old: TreeNode, new: TreeNode, selected: Seq<Seq<char>>, expanded: Seq<Seq<char>>) -> bool
    decreases old,
{
    &&& same_entry(old, new)
    &&& new.children_loaded == old.children_loaded
    &&& new.expanded == (if old.is_dir && expanded.contains(old.canonical_path@) {
        true
    } else {
        old.expanded
    })
    &&& new.selection == (if old.is_dir {
        old.selection
    } else if selected.contains(old.canonical_path@) {
        SelectionState::Checked
    } else {
        SelectionState::Unchecked
    })
    &&& new.children@.len() == old.children@.len()
    &&& forall|i: int|
        0 <= i < old.children@.len() ==> restored(
            #[trigger] old.children@[i],
            new.children@[i],
            selected,
            expanded,
        )
}

/// How many of the listed paths are not among `above`.
pub open spec fn unused_count(listed: Seq<Seq<char>>, above: Seq<Seq<char>>) -> nat
    decreases listed.len(),
{
    if listed.len() == 0 {
        0
    } else {
        unused_count(listed.drop_last(), above) + if above.contains(listed.last()) {
            0nat
        } else {
            1nat
        }
    }
}

/// Taking one more path as used leaves no more unused ones, and fewer when it was listed.
pub proof fn lemma_unused_count_drops(listed: Seq<Seq<char>>, above: Seq<Seq<char>>, p: Seq<char>)
    requires
        !above.contains(p),
    ensures
        unused_count(listed, above.push(p)) <= unused_count(listed, above),
        listed.contains(p) ==> unused_count(listed, above.push(p)) < unused_count(listed, above),
    decreases listed.len(),
{
    if listed.len() > 0 {
        lemma_unused_count_drops(listed.drop_last(), above, p);
        let x = listed.last();
        assert(above.push(p).contains(x) <==> (above.contains(x) || x == p)) by {
            if above.push(p).contains(x) {
                let k = choose|k: int| 0 <= k < above.push(p).len() && above.push(p)[k] == x;
                if k < above.len() {
                    assert(above[k] == x);
                }
            }
            if above.contains(x) {
                let k = choose|k: int| 0 <= k < above.len() && above[k] == x;
                assert(above.push(p)[k] == x);
            }
            if x == p {
                assert(above.push(p)[above.len() as int] == x);
            }
        }
        if listed.contains(p) && x != p {
            let k = choose|k: int| 0 <= k < listed.len() && listed[k] == p;
            assert(listed.drop_last()[k] == p);
        }
    }
}

/// The children a restore works on below a listed directory: those it has when loaded, else
/// those its listing `r` gives (no ignore patterns).
pub open spec fn restore_listing(old: TreeNode, r: Option<Vec<(String, TreeNode)>>) -> Seq<TreeNode> {
    if old.children_loaded {
        old.children@
    } else {
        children_from(old.children@, listing_view(r), Seq::empty())
    }
}

/// Loading for a restore: each directory listed as expanded that is not loaded is read through
/// `loader` (with no ignore patterns), and so on below, its new children included. A listed
/// directory whose path is already that of a listed directory above it (`above`) is not read
/// again: reading it would repeat the same listing without end.
pub open spec fn restore_loaded<F: Fn(&CanonicalPath) -> Option<Vec<(String, TreeNode)>>>(
    old: TreeNode,
    new: TreeNode,
    expanded: Seq<Seq<char>>,
    above: Seq<Seq<char>>,
    loader: F,
) -> bool
    decreases unused_count(expanded, above), old,
{
    let p = old.canonical_path@;
    let listed = old.is_dir && expanded.contains(p);
    if listed && !above.contains(p) {
        proof {
            lemma_unused_count_drops(expanded, above, p);
        }
        &&& same_entry(old, new)
        &&& new.selection == old.selection
        &&& new.expanded == old.expanded
        &&& new.children_loaded
        &&& exists|r: Option<Vec<(String, TreeNode)>>|
            {
                let cs = #[trigger] restore_listing(old, r);
                &&& old.children_loaded || call_ensures(loader, (&old.canonical_path,), r)
                &&& new.children@.len() == cs.len()
                &&& forall|i: int|
                    0 <= i < cs.len() ==> restore_loaded(
                        cs[i],
                        #[trigger] new.children@[i],
                        expanded,
                        above.push(p),
                        loader,
                    )
            }
    } else {
        &&& same_entry(old, new)
        &&& new.selection == old.selection
        &&& new.expanded == old.expanded
        &&& new.children_loaded == old.children_loaded
        &&& new.children@.len() == old.children@.len()
        &&& forall|i: int|
            0 <= i < old.children@.len() ==> restore_loaded(
                #[trigger] old.children@[i],
                new.children@[i],
                expanded,
                above,
                loader,
            )
    }
}

/// The text of a subtree: one line per node, below a directory the lines of its loaded children.
pub open spec fn node_text(n: TreeNode, prefix: Seq<char>, is_last: bool) -> Seq<char>
    decreases n, 1int, 0int,
{
    tree_line(prefix, is_last, n.is_dir, n.name@) + if n.is_dir && n.children_loaded
        && n.children@.len() > 0 {
        node_text_list(n.children@, child_prefix(prefix, is_last), 0)
    } else {
        Seq::empty()
    }
}

/// The text of the nodes `cs[i..]`, the last one drawn as the last child.
pub open spec fn node_text_list(cs: Seq<TreeNode>, prefix: Seq<char>, i: int) -> Seq<char>
    decreases cs, 0int, cs.len() - i,
{
    if i < 0 || i >= cs.len() {
        Seq::empty()
    } else {
        node_text(cs[i], prefix, i == cs.len() - 1) + node_text_list(cs, prefix, i + 1)
    }
}

/// Whether a list of strings holds the given one.
pub fn list_contains(list: &[String], item: &str) -> (r: bool)
    ensures
        r == crate::text::views(list@).contains(item@),
{
    for i in 0..list.len()
        invariant
            forall|j: int| 0 <= j < i ==> list@[j]@ != item@,
    {
        if crate::text::str_eq(list[i].as_str(), item) {
            assert(crate::text::views(list@)[i as int] == item@);
            return true;
        }
    }
    proof {
        if crate::text::views(list@).contains(item@) {
            let k = choose|k: int| 0 <= k < crate::text::views(list@).len() && crate::text::views(list@)[k] == item@;
            assert(list@[k]@ == item@);
        }
    }
    false
}

impl TreeNode {
    /// Updates the state of every directory with children from its children, bottom-up.
    pub fn update_parent_states(&mut self)
        ensures
            parents_updated(*old(self), *final(self)),
        decreases *old(self),
    {
        if !self.is_dir || self.children.len() == 0 {
            return;
        }
        let len = self.children.len();
        for i in 0..len
            invariant
                self.children@.len() == len,
                len == old(self).children@.len(),
                len > 0,
                old(self).is_dir,
                same_entry(*old(self), *self),
                self.expanded == old(self).expanded,
                self.children_loaded == old(self).children_loaded,
                forall|j: int|
                    0 <= j < i ==> if (#[trigger] old(self).children@[j]).is_dir {
                        parents_updated(old(self).children@[j], self.children@[j])
                    } else {
                        self.children@[j] == old(self).children@[j]
                    },
                forall|j: int| i <= j < len ==> self.children@[j] == old(self).children@[j],
        {
            if self.children[i].is_dir {
                self.children[i].update_parent_states();
            }
        }
        self.update_parent_selection();
    }

    /// Appends the files this subtree's selection covers.
    pub fn collect_selected_into(&self, out: &mut Vec<CanonicalPath>)
        ensures
            path_views(final(out)@) == path_views(old(out)@) + selected_under(*self),
        decreases *self,
    {
        let descend = self.is_dir;
        if self.selection == SelectionState::Checked && !self.is_dir {
            out.push(self.canonical_path.duplicate());
            assert(path_views(out@) =~= path_views(old(out)@) + selected_under(*self));
            return;
        }
        if !descend {
            assert(path_views(out@) =~= path_views(old(out)@) + selected_under(*self));
            return;
        }
        let ghost start = path_views(out@);
        assert(selected_list(self.children@.take(0)) =~= Seq::<Seq<char>>::empty());
        for i in 0..self.children.len()
            invariant
                path_views(out@) == start + selected_list(self.children@.take(i as int)),
        {
            self.children[i].collect_selected_into(out);
            assert(self.children@.take(i + 1).drop_last() =~= self.children@.take(i as int));
            assert(path_views(out@) =~= start + selected_list(self.children@.take(i + 1)));
        }
        assert(self.children@.take(self.children@.len() as int) =~= self.children@);
    }

    /// Appends the paths of the checked files of this subtree.
    pub fn collect_checked_into(&self, out: &mut Vec<String>)
        ensures
            crate::text::views(final(out)@) == crate::text::views(old(out)@) + checked_files(*self),
        decreases *self,
    {
        if self.selection == SelectionState::Checked && !self.is_dir {
            out.push(self.canonical_path.as_path().to_owned());
        }
        let ghost start = crate::text::views(out@);
        assert(start =~= crate::text::views(old(out)@) + (if self.selection == SelectionState::Checked && !self.is_dir {
            seq![self.canonical_path@]
        } else {
            Seq::empty()
        }));
        assert(checked_files_list(self.children@.take(0)) =~= Seq::<Seq<char>>::empty());
        for i in 0..self.children.len()
            invariant
                crate::text::views(out@) == start + checked_files_list(self.children@.take(i as int)),
        {
            self.children[i].collect_checked_into(out);
            assert(self.children@.take(i + 1).drop_last() =~= self.children@.take(i as int));
            assert(crate::text::views(out@) =~= start + checked_files_list(self.children@.take(i + 1)));
        }
        assert(self.children@.take(self.children@.len() as int) =~= self.children@);
    }

    /// Appends the paths of the expanded directories of this subtree.
    pub fn collect_expanded_into(&self, out: &mut Vec<String>)
        ensures
            crate::text::views(final(out)@) == crate::text::views(old(out)@) + expanded_dirs(*self),
        decreases *self,
    {
        if self.is_dir && self.expanded {
            out.push(self.canonical_path.as_path().to_owned());
        }
        let ghost start = crate::text::views(out@);
        assert(start =~= crate::text::views(old(out)@) + (if self.is_dir && self.expanded {
            seq![self.canonical_path@]
        } else {
            Seq::empty()
        }));
        assert(expanded_dirs_list(self.children@.take(0)) =~= Seq::<Seq<char>>::empty());
        for i in 0..self.children.len()
            invariant
                crate::text::views(out@) == start + expanded_dirs_list(self.children@.take(i as int)),
        {
            self.children[i].collect_expanded_into(out);
            assert(self.children@.take(i + 1).drop_last() =~= self.children@.take(i as int));
            assert(crate::text::views(out@) =~= start + expanded_dirs_list(self.children@.take(i + 1)));
        }
        assert(self.children@.take(self.children@.len() as int) =~= self.children@);
    }

    /// Loads what a restore needs (see `restore_loaded`): each unloaded directory listed in
    /// `expanded_dirs` is read through `loader`, unless a listed directory above it (`above`)
    /// has its path.
    pub fn load_for_restore<F>(&mut self, expanded_dirs: &[String], above: &Vec<String>, loader: &F)
        where F: Fn(&CanonicalPath) -> Option<Vec<(String, TreeNode)>>
        requires
            forall|p: &CanonicalPath| call_requires(*loader, (p,)),
        ensures
            restore_loaded(
                *old(self),
                *final(self),
                crate::text::views(expanded_dirs@),
                crate::text::views(above@),
                *loader,
            ),
        decreases unused_count(crate::text::views(expanded_dirs@), crate::text::views(above@)), *old(self),
    {
        let ghost exp = crate::text::views(expanded_dirs@);
        let ghost ab = crate::text::views(above@);
        let ghost p = self.canonical_path@;
        let listed = self.is_dir && list_contains(expanded_dirs, self.canonical_path.as_path());
        if listed && !list_contains(above.as_slice(), self.canonical_path.as_path()) {
            proof {
                lemma_unused_count_drops(exp, ab, p);
            }
            let mut next_above = crate::text::copy_strings(above);
            next_above.push(self.canonical_path.as_path().to_owned());
            assert(crate::text::views(next_above@) =~= ab.push(p));
            let ghost lg: Option<Vec<(String, TreeNode)>> = None;
            if !self.children_loaded {
                let listing = loader(&self.canonical_path);
                proof {
                    lg = listing;
                }
                self.load_children(listing);
            }
            let ghost cs = self.children@;
            let len = self.children.len();
            for i in 0..len
                invariant
                    self.children@.len() == len,
                    len == cs.len(),
                    cs == (if old(self).children_loaded {
                        old(self).children@
                    } else {
                        children_from(old(self).children@, listing_view(lg), Seq::empty())
                    }),
                    forall|q: &CanonicalPath| call_requires(*loader, (q,)),
                    exp == crate::text::views(expanded_dirs@),
                    crate::text::views(next_above@) == ab.push(p),
                    ab == crate::text::views(above@),
                    unused_count(exp, ab.push(p)) < unused_count(exp, ab),
                    same_entry(*old(self), *self),
                    self.selection == old(self).selection,
                    self.expanded == old(self).expanded,
                    self.children_loaded,
                    forall|j: int|
                        0 <= j < i ==> restore_loaded(
                            cs[j],
                            #[trigger] self.children@[j],
                            exp,
                            ab.push(p),
                            *loader,
                        ),
                    forall|j: int| i <= j < len ==> self.children@[j] == cs[j],
            {
                self.children[i].load_for_restore(expanded_dirs, &next_above, loader);
            }
            assert(old(self).children_loaded || call_ensures(*loader, (&old(self).canonical_path,), lg));
            assert(cs == restore_listing(*old(self), lg));
        } else {
            let len = self.children.len();
            for i in 0..len
                invariant
                    self.children@.len() == len,
                    len == old(self).children@.len(),
                    forall|q: &CanonicalPath| call_requires(*loader, (q,)),
                    exp == crate::text::views(expanded_dirs@),
                    ab == crate::text::views(above@),
                    same_entry(*old(self), *self),
                    self.selection == old(self).selection,
                    self.expanded == old(self).expanded,
                    self.children_loaded == old(self).children_loaded,
                    forall|j: int|
                        0 <= j < i ==> restore_loaded(
                            #[trigger] old(self).children@[j],
                            self.children@[j],
                            exp,
                            ab,
                            *loader,
                        ),
                    forall|j: int| i <= j < len ==> self.children@[j] == old(self).children@[j],
            {
                self.children[i].load_for_restore(expanded_dirs, above, loader);
            }
        }
    }

    /// Restores a recorded state on this subtree: directories listed as expanded are expanded,
    /// files listed as selected are checked and every other file is unchecked. The listed
    /// directories are loaded first by `load_for_restore`.
    pub fn restore_state(&mut self, selected_files: &[String], expanded_dirs: &[String])
        ensures
            restored(*old(self), *final(self), crate::text::views(selected_files@), crate::text::views(expanded_dirs@)),
        decreases *old(self),
    {
        if self.is_dir && list_contains(expanded_dirs, self.canonical_path.as_path()) {
            self.expanded = true;
        }
        if !self.is_dir {
            self.selection = if list_contains(selected_files, self.canonical_path.as_path()) {
                SelectionState::Checked
            } else {
                SelectionState::Unchecked
            };
        }
        let len = self.children.len();
        for i in 0..len
            invariant
                self.children@.len() == len,
                len == old(self).children@.len(),
                same_entry(*old(self), *self),
                self.children_loaded == old(self).children_loaded,
                self.expanded == (if old(self).is_dir && crate::text::views(expanded_dirs@).contains(old(self).canonical_path@) {
                    true
                } else {
                    old(self).expanded
                }),
                self.selection == (if old(self).is_dir {
                    old(self).selection
                } else if crate::text::views(selected_files@).contains(old(self).canonical_path@) {
                    SelectionState::Checked
                } else {
                    SelectionState::Unchecked
                }),
                forall|j: int|
                    0 <= j < i ==> restored(
                        #[trigger] old(self).children@[j],
                        self.children@[j],
                        crate::text::views(selected_files@),
                        crate::text::views(expanded_dirs@),
                    ),
                forall|j: int| i <= j < len ==> self.children@[j] == old(self).children@[j],
        {
            self.children[i].restore_state(selected_files, expanded_dirs);
        }
    }

    /// Appends the text of this subtree.
    pub fn write_tree_text(&self, out: &mut String, prefix: &str, is_last: bool)
        ensures
            final(out)@ == old(out)@ + node_text(*self, prefix@, is_last),
        decreases *self,
    {
        push_str(out, prefix);
        if is_last {
            push_str(out, "└── ");
        } else {
            push_str(out, "├── ");
        }
        if self.is_dir {
            push_str(out, "📁");
        } else {
            push_str(out, "📄");
        }
        push_str(out, " ");
        push_str(out, self.name.as_str());
        push_str(out, "\n");
        proof {
            reveal_strlit(" ");
            reveal_strlit("\n");
        }
        assert(out@ =~= old(out)@ + tree_line(prefix@, is_last, self.is_dir, self.name@));
        if self.is_dir && self.children_loaded && self.children.len() > 0 {
            let mut new_prefix = String::new();
            push_str(&mut new_prefix, prefix);
            if is_last {
                push_str(&mut new_prefix, "    ");
            } else {
                push_str(&mut new_prefix, "│   ");
            }
            let ghost cp = child_prefix(prefix@, is_last);
            assert(new_prefix@ =~= cp);
            let count = self.children.len();
            let ghost before = out@;
            for i in 0..count
                invariant
                    count == self.children@.len(),
                    new_prefix@ == cp,
                    out@ + node_text_list(self.children@, cp, i as int) == before + node_text_list(
                        self.children@,
                        cp,
                        0,
                    ),
            {
                let ghost o1 = out@;
                self.children[i].write_tree_text(out, new_prefix.as_str(), i + 1 == count);
                assert(o1 + node_text_list(self.children@, cp, i as int) =~= out@ + node_text_list(
                    self.children@,
                    cp,
                    i + 1,
                ));
            }
            assert(out@ =~= before + node_text_list(self.children@, cp, 0));
        }
    }
}

/// The number of levels below a node.
pub open spec fn tree_height(n: TreeNode) -> nat
    decreases n, 1int,
{
    if n.children@.len() == 0 {
        0
    } else {
        1 + max_height(n.children@)
    }
}

/// The greatest height among a list of nodes.
pub open spec fn max_height(cs: Seq<TreeNode>) -> nat
    decreases cs, 0int,
{
    if cs.len() == 0 {
        0
    } else {
        let a = max_height(cs.drop_last());
        let b = tree_height(cs.last());
        if a >= b {
            a
        } else {
            b
        }
    }
}

pub proof fn lemma_max_height_le(cs: Seq<TreeNode>, i: int)
    requires
        0 <= i < cs.len(),
    ensures
        tree_height(cs[i]) <= max_height(cs),
    decreases cs.len(),
{
    if i < cs.len() - 1 {
        assert(cs.drop_last()[i] == cs[i]);
        lemma_max_height_le(cs.drop_last(), i);
    }
}

/// `s` repeated `n` times.
pub open spec fn repeat_text(s: Seq<char>, n: nat) -> Seq<char>
    decreases n,
{
    if n == 0 {
        Seq::empty()
    } else {
        repeat_text(s, (n - 1) as nat) + s
    }
}

/// The debug name of a selection state.
pub open spec fn selection_name(s: SelectionState) -> Seq<char> {
    match s {
        SelectionState::Unchecked => "Unchecked"@,
        SelectionState::Checked => "Checked"@,
        SelectionState::Indeterminate => "Indeterminate"@,
    }
}

/// The text of a boolean.
pub open spec fn bool_text(b: bool) -> Seq<char> {
    if b {
        "true"@
    } else {
        "false"@
    }
}

/// The lines of one node in the debug listing: kind, name, state and path, and for a
/// directory its loading, expansion and number of children.
pub open spec fn debug_head(n: TreeNode, indent: Seq<char>) -> Seq<char> {
    indent + "["@ + (if n.is_dir {
        "DIR"@
    } else {
        "FILE"@
    }) + "] "@ + n.name@ + " - "@ + selection_name(n.selection) + " (path: "@ + n.canonical_path@
        + ")\n"@ + (if n.is_dir {
        indent + "  (loaded: "@ + bool_text(n.children_loaded) + ", expanded: "@ + bool_text(
            n.expanded,
        ) + ", "@ + decimal(n.children@.len()) + " children)\n"@
    } else {
        Seq::empty()
    })
}

/// The debug listing of a subtree: the node's lines, then its children indented one more level.
pub open spec fn debug_text(n: TreeNode, depth: nat) -> Seq<char>
    decreases n, 1int, 0int,
{
    debug_head(n, repeat_text("  "@, depth)) + debug_text_list(n.children@, 0, depth + 1)
}

/// The debug listings of the nodes `cs[i..]`.
pub open spec fn debug_text_list(cs: Seq<TreeNode>, i: int, depth: nat) -> Seq<char>
    decreases cs, 0int, cs.len() - i,
{
    if i < 0 || i >= cs.len() {
        Seq::empty()
    } else {
        debug_text(cs[i], depth) + debug_text_list(cs, i + 1, depth)
    }
}

fn push_bool(out: &mut String, b: bool)
    ensures
        final(out)@ == old(out)@ + bool_text(b),
{
    if b {
        push_str(out, "true");
    } else {
        push_str(out, "false");
    }
}

impl TreeNode {
    fn debug_head_text(&self, indent: &str) -> (r: String)
        ensures
            r@ == debug_head(*self, indent@),
    {
        let mut result = String::new();
        push_str(&mut result, indent);
        push_str(&mut result, "[");
        if self.is_dir {
            push_str(&mut result, "DIR");
        } else {
            push_str(&mut result, "FILE");
        }
        push_str(&mut result, "] ");
        push_str(&mut result, self.name.as_str());
        push_str(&mut result, " - ");
        match self.selection {
            SelectionState::Unchecked => push_str(&mut result, "Unchecked"),
            SelectionState::Checked => push_str(&mut result, "Checked"),
            SelectionState::Indeterminate => push_str(&mut result, "Indeterminate"),
        }
        push_str(&mut result, " (path: ");
        push_str(&mut result, self.canonical_path.as_path());
        push_str(&mut result, ")\n");
        let ghost first = result@;
        if self.is_dir {
            push_str(&mut result, indent);
            push_str(&mut result, "  (loaded: ");
            push_bool(&mut result, self.children_loaded);
            push_str(&mut result, ", expanded: ");
            push_bool(&mut result, self.expanded);
            push_str(&mut result, ", ");
            push_decimal(&mut result, self.children.len());
            push_str(&mut result, " children)\n");
        }
        assert(result@ =~= debug_head(*self, indent@));
        result
    }

    /// The debug listing of this subtree, indented by `depth` levels.
    pub fn debug_tree(&self, depth: usize) -> (r: String)
        requires
            depth + tree_height(*self) <= usize::MAX,
        ensures
            r@ == debug_text(*self, depth as nat),
        decreases *self,
    {
        let mut indent = String::new();
        let mut k: usize = 0;
        while k < depth
            invariant
                k <= depth,
                indent@ == repeat_text("  "@, k as nat),
            decreases depth - k,
        {
            push_str(&mut indent, "  ");
            k += 1;
            assert(indent@ =~= repeat_text("  "@, k as nat));
        }
        let mut result = self.debug_head_text(indent.as_str());
        let ghost head = result@;
        let count = self.children.len();
        if count > 0 {
            assert(depth < usize::MAX);
        }
        for i in 0..count
            invariant
                count == self.children@.len(),
                count > 0 ==> depth + 1 + max_height(self.children@) <= usize::MAX,
                result@ + debug_text_list(self.children@, i as int, (depth + 1) as nat) == head
                    + debug_text_list(self.children@, 0, (depth + 1) as nat),
        {
            proof {
                lemma_max_height_le(self.children@, i as int);
            }
            let child = self.children[i].debug_tree(depth + 1);
            let ghost r1 = result@;
            push_str(&mut result, child.as_str());
            assert(r1 + debug_text_list(self.children@, i as int, (depth + 1) as nat) =~= result@
                + debug_text_list(self.children@, i + 1, (depth + 1) as nat));
        }
        assert(result@ =~= debug_text(*self, depth as nat));
        result
    }
}

/// The node that a path of child indices leads to, if any.
pub open spec fn node_at(n: TreeNode, path: Seq<usize>) -> Option<TreeNode>
    decreases path.len(),
{
    if path.len() == 0 {
        Some(n)
    } else if path[0] >= n.children@.len() {
        None
    } else {
        node_at(n.children@[path[0] as int], path.drop_first())
    }
}

/// `new` is `old` with the node that `path` leads to changed as `rel` says, and nothing else
/// changed; nothing changes when the path leads nowhere.
pub open spec fn changed_at(old: TreeNode, new: TreeNode, path: Seq<usize>, rel: spec_fn(TreeNode, TreeNode) -> bool) -> bool
    decreases path.len(),
{
    if path.len() == 0 {
        rel(old, new)
    } else if path[0] >= old.children@.len() {
        new == old
    } else {
        &&& same_entry(old, new)
        &&& new.selection == old.selection
        &&& new.expanded == old.expanded
        &&& new.children_loaded == old.children_loaded
        &&& new.children@.len() == old.children@.len()
        &&& forall|j: int|
            0 <= j < old.children@.len() && j != path[0] ==> #[trigger] new.children@[j]
                == old.children@[j]
        &&& changed_at(
            old.children@[path[0] as int],
            new.children@[path[0] as int],
            path.drop_first(),
            rel,
        )
    }
}

/// `b` is `a` with its expansion flipped.
pub open spec fn toggled(a: TreeNode, b: TreeNode) -> bool {
    &&& same_entry(a, b)
    &&& b.selection == a.selection
    &&& b.expanded == !a.expanded
    &&& b.children_loaded == a.children_loaded
    &&& b.children@ == a.children@
}

fn path_tail(path: &[usize]) -> (r: Vec<usize>)
    requires
        path@.len() > 0,
    ensures
        r@ == path@.drop_first(),
{
    let mut rest: Vec<usize> = Vec::new();
    let mut k: usize = 1;
    while k < path.len()
        invariant
            1 <= k <= path@.len(),
            rest@ == path@.subrange(1, k as int),
        decreases path@.len() - k,
    {
        rest.push(path[k]);
        k += 1;
        assert(rest@ =~= path@.subrange(1, k as int));
    }
    assert(rest@ =~= path@.drop_first());
    rest
}

impl TreeNode {
    /// Whether a path of child indices leads to a node.
    pub fn has_node_at(&self, path: &[usize]) -> (r: bool)
        ensures
            r == node_at(*self, path@) is Some,
        decreases path@.len(),
    {
        if path.len() == 0 {
            return true;
        }
        let i = path[0];
        if i >= self.children.len() {
            return false;
        }
        let rest = path_tail(path);
        self.children[i].has_node_at(rest.as_slice())
    }

    /// Flips the expansion of the node that `path` leads to; tells whether that node is now
    /// an expanded directory whose children are still to be read, or `None` when the path
    /// leads nowhere.
    pub fn toggle_expanded_at(&mut self, path: &[usize]) -> (r: Option<bool>)
        ensures
            changed_at(*old(self), *final(self), path@, |a: TreeNode, b: TreeNode| toggled(a, b)),
            match node_at(*old(self), path@) {
                Some(n) => r == Some(!n.expanded && !n.children_loaded),
                None => r is None,
            },
        decreases path@.len(),
    {
        if path.len() == 0 {
            self.expanded = !self.expanded;
            return Some(self.expanded && !self.children_loaded);
        }
        let i = path[0];
        if i >= self.children.len() {
            return None;
        }
        let rest = path_tail(path);
        self.children[i].toggle_expanded_at(rest.as_slice())
    }

    /// Sets the selection state of the node that `path` leads to (see
    /// `set_selection_with_patterns`); tells whether the path led to a node.
    pub fn set_selection_at<F>(
        &mut self,
        path: &[usize],
        state: SelectionState,
        patterns: &[GlobPattern],
        loader: &F,
    ) -> (r: bool) where F: Fn(&CanonicalPath) -> Option<Vec<(String, TreeNode)>>
        requires
            forall|p: &CanonicalPath| call_requires(*loader, (p,)),
        ensures
            changed_at(
                *old(self),
                *final(self),
                path@,
                |a: TreeNode, b: TreeNode| selection_set(a, b, state, glob_sources(patterns@), *loader),
            ),
            r == node_at(*old(self), path@) is Some,
        decreases path@.len(),
    {
        if path.len() == 0 {
            self.set_selection_with_patterns(state, patterns, loader);
            return true;
        }
        let i = path[0];
        if i >= self.children.len() {
            return false;
        }
        let rest = path_tail(path);
        self.children[i].set_selection_at(rest.as_slice(), state, patterns, loader)
    }
}

/// Every file of a subtree, loaded or not expanded, in pre-order.
pub open spec fn all_files(n: TreeNode) -> Seq<Seq<char>>
    decreases n, 1int,
{
    if n.is_dir {
        all_files_list(n.children@)
    } else {
        seq![n.canonical_path@]
    }
}

/// Every file of a list of nodes, in order.
pub open spec fn all_files_list(cs: Seq<TreeNode>) -> Seq<Seq<char>>
    decreases cs, 0int,
{
    if cs.len() == 0 {
        Seq::empty()
    } else {
        all_files_list(cs.drop_last()) + all_files(cs.last())
    }
}

/// Checking a node selects every file of its loaded subtree, and unchecking it selects none:
/// what `set_selection` leaves behind is covered by `collect_selected_files` exactly so.
pub proof fn law_selection_covers_subtree(old: TreeNode, new: TreeNode, state: SelectionState)
    requires
        selection_applied(old, new, state),
        state != SelectionState::Indeterminate,
    ensures
        state == SelectionState::Checked ==> selected_under(new) == all_files(old),
        state == SelectionState::Unchecked ==> selected_under(new) == Seq::<Seq<char>>::empty(),
        all_files(new) == all_files(old),
    decreases old, 1int,
{
    if old.is_dir {
        law_selection_covers_list(old.children@, new.children@, state);
    }
}

proof fn law_selection_covers_list(olds: Seq<TreeNode>, news: Seq<TreeNode>, state: SelectionState)
    requires
        olds.len() == news.len(),
        forall|i: int| 0 <= i < olds.len() ==> selection_applied(#[trigger] olds[i], news[i], state),
        state != SelectionState::Indeterminate,
    ensures
        state == SelectionState::Checked ==> selected_list(news) == all_files_list(olds),
        state == SelectionState::Unchecked ==> selected_list(news) == Seq::<Seq<char>>::empty(),
        all_files_list(news) == all_files_list(olds),
    decreases olds, 0int,
{
    if olds.len() > 0 {
        let k = olds.len() - 1;
        assert(selection_applied(olds[k], news[k], state));
        law_selection_covers_subtree(olds[k], news[k], state);
        assert(olds.drop_last().len() == news.drop_last().len());
        assert forall|i: int| 0 <= i < olds.drop_last().len() implies selection_applied(
            #[trigger] olds.drop_last()[i],
            news.drop_last()[i],
            state,
        ) by {
            assert(olds.drop_last()[i] == olds[i]);
            assert(news.drop_last()[i] == news[i]);
        }
        law_selection_covers_list(olds.drop_last(), news.drop_last(), state);
        if state == SelectionState::Unchecked {
            assert(selected_list(news) =~= Seq::<Seq<char>>::empty());
        }
    }
}

/// Checking a node through `set_selection` selects every file of the subtree it leaves behind
/// (loaded as far as checking loads), and unchecking it selects none.
pub proof fn law_checking_selects_loaded_subtree<F: Fn(&CanonicalPath) -> Option<Vec<(String, TreeNode)>>>(
    old: TreeNode,
    new: TreeNode,
    state: SelectionState,
    pats: Seq<Seq<char>>,
    loader: F,
)
    requires
        selection_set(old, new, state, pats, loader),
        state != SelectionState::Indeterminate,
    ensures
        state == SelectionState::Checked ==> selected_under(new) == all_files(new),
        state == SelectionState::Unchecked ==> selected_under(new) == Seq::<Seq<char>>::empty(),
{
    let mid = choose|mid: TreeNode|
        {
            &&& if state == SelectionState::Checked && old.is_dir {
                loaded_within(old, mid, 0, CHECK_LOAD_DEPTH as int, pats, loader)
            } else {
                mid == old
            }
            &&& #[trigger] selection_applied(mid, new, state)
        };
    law_selection_covers_subtree(mid, new, state);
}

/// After checking a node, every loaded node below it (and itself) is checked; after unchecking,
/// every one is unchecked: the state propagates to all descendants.
pub proof fn law_selection_propagates(old: TreeNode, new: TreeNode, state: SelectionState, path: Seq<usize>)
    requires
        selection_applied(old, new, state),
        state != SelectionState::Indeterminate,
        node_at(new, path) is Some,
    ensures
        node_at(new, path).unwrap().selection == state,
    decreases path.len(),
{
    if path.len() > 0 {
        let i = path[0] as int;
        assert(selection_applied(old.children@[i], new.children@[i], state));
        law_selection_propagates(old.children@[i], new.children@[i], state, path.drop_first());
    }
}

/// A directory whose children all agree takes their state; a directory with children in
/// different states becomes indeterminate.
pub proof fn law_parent_state_agrees(cs: Seq<TreeNode>, s: SelectionState)
    requires
        cs.len() > 0,
    ensures
        (forall|i: int| 0 <= i < cs.len() ==> (#[trigger] cs[i]).selection == s) ==> parent_state(cs) == s
            || s == SelectionState::Indeterminate,
        (exists|i: int, j: int|
            0 <= i < cs.len() && 0 <= j < cs.len() && (#[trigger] cs[i]).selection
                != (#[trigger] cs[j]).selection) ==> parent_state(cs) == SelectionState::Indeterminate,
{
    if forall|i: int| 0 <= i < cs.len() ==> (#[trigger] cs[i]).selection == s {
        assert(cs[0].selection == s);
    }
}

proof fn lemma_kept_entries(entries: Seq<(String, TreeNode)>, pats: Seq<Seq<char>>, x: TreeNode)
    ensures
        kept_entries(entries, pats).contains(x) <==> exists|i: int|
            0 <= i < entries.len() && (#[trigger] entries[i]).1 == x && !any_glob_accepts(pats, entries[i].0@),
    decreases entries.len(),
{
    let d = entries.drop_last();
    if entries.len() > 0 {
        lemma_kept_entries(d, pats, x);
        let k = kept_entries(entries, pats);
        let kd = kept_entries(d, pats);
        if k.contains(x) {
            if kd.contains(x) {
                let i = choose|i: int| 0 <= i < d.len() && (#[trigger] d[i]).1 == x && !any_glob_accepts(pats, d[i].0@);
                assert(entries[i] == d[i]);
            } else {
                let j = choose|j: int| 0 <= j < k.len() && k[j] == x;
                assert(k == kd.push(entries.last().1));
                assert(j == kd.len());
                assert(entries[entries.len() - 1] == entries.last());
            }
        }
        if exists|i: int| 0 <= i < entries.len() && (#[trigger] entries[i]).1 == x && !any_glob_accepts(pats, entries[i].0@) {
            let i = choose|i: int| 0 <= i < entries.len() && (#[trigger] entries[i]).1 == x && !any_glob_accepts(pats, entries[i].0@);
            if i < d.len() {
                assert(d[i] == entries[i]);
                let j = choose|j: int| 0 <= j < kd.len() && kd[j] == x;
                if any_glob_accepts(pats, entries.last().0@) {
                    assert(k[j] == x);
                } else {
                    assert(k[j] == x);
                }
            } else {
                assert(k == kd.push(x));
                assert(k[kd.len() as int] == x);
            }
        }
    }
}

/// Loading a directory leaves out exactly the ignored entries: a node is among the children
/// built from a listing if and only if it is listed under a raw name that no ignore pattern
/// matches.
pub proof fn law_listing_keeps_unignored(entries: Seq<(String, TreeNode)>, pats: Seq<Seq<char>>, x: TreeNode)
    ensures
        listed_children(entries, pats).contains(x) <==> exists|i: int|
            0 <= i < entries.len() && (#[trigger] entries[i]).1 == x && !any_glob_accepts(pats, entries[i].0@),
{
    broadcast use vstd::seq_lib::to_multiset_contains;

    let lt = |a: TreeNode, b: TreeNode| tree_node_lt(a, b);
    let kept = kept_entries(entries, pats);
    lemma_sort_permutes(kept, lt);
    lemma_kept_entries(entries, pats, x);
    assert(sort_by(kept, lt).to_multiset().count(x) == kept.to_multiset().count(x));
}

/// A text is in a concatenation exactly when it is in one of the parts.
pub proof fn lemma_concat_contains(a: Seq<Seq<char>>, b: Seq<Seq<char>>, p: Seq<char>)
    ensures
        (a + b).contains(p) <==> a.contains(p) || b.contains(p),
{
    if a.contains(p) {
        let i = choose|i: int| 0 <= i < a.len() && a[i] == p;
        assert((a + b)[i] == p);
    }
    if b.contains(p) {
        let i = choose|i: int| 0 <= i < b.len() && b[i] == p;
        assert((a + b)[a.len() + i] == p);
    }
    if (a + b).contains(p) {
        let i = choose|i: int| 0 <= i < (a + b).len() && (a + b)[i] == p;
        if i < a.len() {
            assert(a[i] == p);
        } else {
            assert(b[i - a.len()] == p);
        }
    }
}

proof fn lemma_updated_keeps_checked(old: TreeNode, new: TreeNode)
    requires
        parents_updated(old, new),
    ensures
        checked_files(new) == checked_files(old),
        all_files(new) == all_files(old),
    decreases old, 1int,
{
    if old.is_dir && old.children@.len() > 0 {
        lemma_updated_keeps_checked_list(old.children@, new.children@);
    }
}

proof fn lemma_updated_keeps_checked_list(olds: Seq<TreeNode>, news: Seq<TreeNode>)
    requires
        olds.len() == news.len(),
        forall|i: int|
            0 <= i < olds.len() ==> if (#[trigger] olds[i]).is_dir {
                parents_updated(olds[i], news[i])
            } else {
                news[i] == olds[i]
            },
    ensures
        checked_files_list(news) == checked_files_list(olds),
        all_files_list(news) == all_files_list(olds),
    decreases olds, 0int,
{
    if olds.len() > 0 {
        let k = olds.len() - 1;
        if olds[k].is_dir {
            lemma_updated_keeps_checked(olds[k], news[k]);
        }
        assert forall|i: int| 0 <= i < olds.drop_last().len() implies if (#[trigger] olds.drop_last()[i]).is_dir {
            parents_updated(olds.drop_last()[i], news.drop_last()[i])
        } else {
            news.drop_last()[i] == olds.drop_last()[i]
        } by {
            assert(olds.drop_last()[i] == olds[i]);
            assert(news.drop_last()[i] == news[i]);
        }
        lemma_updated_keeps_checked_list(olds.drop_last(), news.drop_last());
    }
}

proof fn lemma_restore_checks(old: TreeNode, new: TreeNode, sel: Seq<Seq<char>>, exp: Seq<Seq<char>>, p: Seq<char>)
    requires
        restored(old, new, sel, exp),
    ensures
        sel.contains(p) && all_files(old).contains(p) ==> checked_files(new).contains(p),
        checked_files(new).contains(p) ==> sel.contains(p),
        all_files(new) == all_files(old),
    decreases old, 1int,
{
    let own_old: Seq<Seq<char>> = if old.selection == SelectionState::Checked && !old.is_dir {
        seq![old.canonical_path@]
    } else {
        Seq::empty()
    };
    let own_new: Seq<Seq<char>> = if new.selection == SelectionState::Checked && !new.is_dir {
        seq![new.canonical_path@]
    } else {
        Seq::empty()
    };
    assert(checked_files(old) == own_old + checked_files_list(old.children@));
    assert(checked_files(new) == own_new + checked_files_list(new.children@));
    lemma_concat_contains(own_new, checked_files_list(new.children@), p);
    lemma_restore_checks_list(old.children@, new.children@, sel, exp, p);
    if !old.is_dir {
        if sel.contains(p) && all_files(old).contains(p) {
            assert(all_files(old)[0] == old.canonical_path@);
            assert(own_new[0] == p);
        }
        if own_new.contains(p) {
            assert(own_new[0] == p);
        }
    }
}

proof fn lemma_restore_checks_list(olds: Seq<TreeNode>, news: Seq<TreeNode>, sel: Seq<Seq<char>>, exp: Seq<Seq<char>>, p: Seq<char>)
    requires
        olds.len() == news.len(),
        forall|i: int| 0 <= i < olds.len() ==> restored(#[trigger] olds[i], news[i], sel, exp),
    ensures
        sel.contains(p) && all_files_list(olds).contains(p) ==> checked_files_list(news).contains(p),
        checked_files_list(news).contains(p) ==> sel.contains(p),
        all_files_list(news) == all_files_list(olds),
    decreases olds, 0int,
{
    if olds.len() > 0 {
        let k = olds.len() - 1;
        assert(restored(olds[k], news[k], sel, exp));
        lemma_restore_checks(olds[k], news[k], sel, exp, p);
        assert forall|i: int| 0 <= i < olds.drop_last().len() implies restored(#[trigger] olds.drop_last()[i], news.drop_last()[i], sel, exp) by {
            assert(olds.drop_last()[i] == olds[i]);
            assert(news.drop_last()[i] == news[i]);
        }
        lemma_restore_checks_list(olds.drop_last(), news.drop_last(), sel, exp, p);
        lemma_concat_contains(checked_files_list(olds.drop_last()), checked_files(olds.last()), p);
        lemma_concat_contains(checked_files_list(news.drop_last()), checked_files(news.last()), p);
        lemma_concat_contains(all_files_list(olds.drop_last()), all_files(olds.last()), p);
    }
}

/// Restoring a recorded selection (listed files checked, the others unchecked, then directory
/// states updated) gives back exactly the recorded files: every listed file the tree holds is
/// checked afterwards, and every checked file is a listed one.
pub proof fn law_restore_checks_listed_files(old: TreeNode, mid: TreeNode, new: TreeNode, selected: Seq<Seq<char>>, expanded: Seq<Seq<char>>, p: Seq<char>)
    requires
        restored(old, mid, selected, expanded),
        parents_updated(mid, new),
    ensures
        selected.contains(p) && all_files(new).contains(p) ==> checked_files(new).contains(p),
        checked_files(new).contains(p) ==> selected.contains(p),
{
    lemma_restore_checks(old, mid, selected, expanded, p);
    lemma_updated_keeps_checked(mid, new);
}

/// Directories first, then by lowercase name, is a strict weak order.
proof fn lemma_entry_order(a_dir: bool, a: Seq<char>, b_dir: bool, b: Seq<char>, c_dir: bool, c: Seq<char>)
    ensures
        !entry_lt(a_dir, a, a_dir, a),
        entry_lt(a_dir, a, b_dir, b) && entry_lt(b_dir, b, c_dir, c) ==> entry_lt(a_dir, a, c_dir, c),
        entry_lt(a_dir, a, c_dir, c) ==> entry_lt(a_dir, a, b_dir, b) || entry_lt(b_dir, b, c_dir, c),
{
    lemma_seq_lt_order(a, b, c);
    lemma_seq_lt_order(a, c, b);
    lemma_seq_lt_order(b, a, c);
    lemma_seq_lt_order(b, c, a);
    lemma_seq_lt_order(c, a, b);
    lemma_seq_lt_order(c, b, a);
}

proof fn lemma_tree_node_order()
    ensures
        strict_weak_order(|a: TreeNode, b: TreeNode| tree_node_lt(a, b)),
{
    let lt = |a: TreeNode, b: TreeNode| tree_node_lt(a, b);
    assert forall|a: TreeNode| #![trigger lt(a, a)] !lt(a, a) by {
        let k = lowercase_of(a.name@);
        lemma_entry_order(a.is_dir, k, a.is_dir, k, a.is_dir, k);
    }
    assert forall|a: TreeNode, b: TreeNode, c: TreeNode| #![trigger lt(a, b), lt(b, c)] lt(a, b) && lt(b, c) implies lt(a, c) by {
        lemma_entry_order(a.is_dir, lowercase_of(a.name@), b.is_dir, lowercase_of(b.name@), c.is_dir, lowercase_of(c.name@));
    }
    assert forall|a: TreeNode, b: TreeNode, c: TreeNode| #![trigger lt(a, c), lt(a, b), lt(b, c)] lt(a, c) implies lt(a, b) || lt(b, c) by {
        lemma_entry_order(a.is_dir, lowercase_of(a.name@), b.is_dir, lowercase_of(b.name@), c.is_dir, lowercase_of(c.name@));
    }
}

/// Loading a directory from a listing gives its entries in listing order: every directory
/// before every file, and within each group by the whole lowercase name in code point order
/// (no child is strictly before an earlier one); the children are exactly the entries that no
/// pattern ignores, each as often as it was listed.
pub proof fn law_loaded_children_sorted(old: TreeNode, new: TreeNode, entries: Seq<(String, TreeNode)>, pats: Seq<Seq<char>>)
    requires
        old.is_dir,
        !old.children_loaded,
        load_result(old, new, Some(entries), pats),
    ensures
        forall|i: int, j: int|
            0 <= i < j < new.children@.len() ==> {
                let a = #[trigger] new.children@[i];
                let b = #[trigger] new.children@[j];
                &&& !(b.is_dir && !a.is_dir)
                &&& (a.is_dir == b.is_dir ==> !seq_lt(lowercase_of(b.name@), lowercase_of(a.name@)))
            },
        new.children@.to_multiset() == kept_entries(entries, pats).to_multiset(),
{
    let lt = |a: TreeNode, b: TreeNode| tree_node_lt(a, b);
    lemma_tree_node_order();
    lemma_sort_sorted(kept_entries(entries, pats), lt);
    lemma_sort_permutes(kept_entries(entries, pats), lt);
    let c = new.children@;
    assert forall|i: int, j: int| 0 <= i < j < c.len() implies {
        let a = #[trigger] c[i];
        let b = #[trigger] c[j];
        &&& !(b.is_dir && !a.is_dir)
        &&& (a.is_dir == b.is_dir ==> !seq_lt(lowercase_of(b.name@), lowercase_of(a.name@)))
    } by {
        assert(!lt(c[j], c[i]));
    }
}

} // verus!
