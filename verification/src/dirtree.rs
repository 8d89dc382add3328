//! The directory tree widget's state: its root, ignore patterns and the flattened list of
//! visible rows.

use vstd::prelude::*;
use vstd::string::StringExecFns;
use crate::patterns::{compile_globs, compiling_globs, fuzzy_accepts, fuzzy_matches, glob_sources, GlobPattern};
use crate::text::{comma_list, first_occurrences, law_first_occurrences, split_comma_list, views, without_repeats};
use crate::tree::{all_files, changed_at, law_restore_checks_listed_files, lemma_concat_contains, loaded_at, node_at, restore_loaded, selection_applied, selection_set, toggled, children_from, checked_files, expanded_dirs, lemma_max_height_le, listing_view, load_result, max_height, node_text, parent_state, parents_updated, restored, same_entry, selected_under, tree_height, TreeNode};
use crate::types::{path_views, CanonicalPath, SelectionState};

verus! {

/// A visible row of the tree.
#[derive(Debug)]
pub struct FlattenedNode {
    /// Index path to the node: 0 for the root, then child indices
    pub node_path: Vec<usize>,
    /// Depth below the root's children (for indentation)
    pub depth: usize,
    /// Display name
    pub name: String,
    /// Whether this is a directory
    pub is_dir: bool,
    /// Whether the node is expanded
    pub is_expanded: bool,
    /// Selection state
    pub selection: SelectionState,
}

/// What a row shows: index path, depth, name, kind, expansion and selection.
pub type RowView = (Seq<usize>, int, Seq<char>, bool, bool, SelectionState);

/// The view of a row.
pub open spec fn row_view(f: FlattenedNode) -> RowView {
    (f.node_path@, f.depth as int, f.name@, f.is_dir, f.is_expanded, f.selection)
}

/// The views of a list of rows.
pub open spec fn row_views(v: Seq<FlattenedNode>) -> Seq<RowView> {
    v.map_values(|f: FlattenedNode| row_view(f))
}

/// Whether some node below matches the query; an unloaded directory might, so it counts as matching.
pub open spec fn has_matching_child(n: TreeNode, q: Seq<char>) -> bool
    decreases n, 0int, 0int,
{
    if !n.children_loaded {
        true
    } else {
        has_matching_in(n.children@, 0, q)
    }
}

/// Whether some node among `cs[i..]`, or below them, matches the query.
pub open spec fn has_matching_in(cs: Seq<TreeNode>, i: int, q: Seq<char>) -> bool
    decreases cs, cs.len() - i, 0int,
{
    if i < 0 || i >= cs.len() {
        false
    } else {
        fuzzy_accepts(cs[i].name@, q) || (cs[i].is_dir && has_matching_child(cs[i], q))
            || has_matching_in(cs, i + 1, q)
    }
}

/// Whether a node is shown for a query: always for an empty query, else when its name matches
/// or, for a directory, something below it does.
pub open spec fn shown(n: TreeNode, q: Seq<char>) -> bool {
    q.len() == 0 || fuzzy_accepts(n.name@, q) || (n.is_dir && has_matching_child(n, q))
}

/// The rows of a subtree: the node when shown, then, for an expanded loaded directory, the rows
/// of its children one level deeper.
pub open spec fn flat_rows(n: TreeNode, path: Seq<usize>, depth: int, q: Seq<char>) -> Seq<RowView>
    decreases n, 1int, 0int,
{
    if !shown(n, q) {
        Seq::empty()
    } else {
        seq![(path, depth, n.name@, n.is_dir, n.expanded, n.selection)] + if n.is_dir && n.expanded
            && n.children_loaded {
            flat_rows_list(n.children@, path, 0, depth + 1, q)
        } else {
            Seq::empty()
        }
    }
}

/// The rows of the nodes `cs[i..]`, whose parent is at `path`.
pub open spec fn flat_rows_list(cs: Seq<TreeNode>, path: Seq<usize>, i: int, depth: int, q: Seq<char>) -> Seq<RowView>
    decreases cs, 0int, cs.len() - i,
{
    if i < 0 || i >= cs.len() {
        Seq::empty()
    } else {
        flat_rows(cs[i], path.push(i as usize), depth, q) + flat_rows_list(cs, path, i + 1, depth, q)
    }
}

/// Setting a state on a whole loaded subtree, with no other change.
pub open spec fn marked_all(old: TreeNode, new: TreeNode, state: SelectionState) -> bool
    decreases old,
{
    &&& same_entry(old, new)
    &&& new.expanded == old.expanded
    &&& new.children_loaded == old.children_loaded
    &&& new.selection == state
    &&& if old.children_loaded {
        &&& new.children@.len() == old.children@.len()
        &&& forall|i: int|
            0 <= i < old.children@.len() ==> marked_all(
                #[trigger] old.children@[i],
                new.children@[i],
                state,
            )
    } else {
        new.children@ == old.children@
    }
}

/// Restoring a recorded state: loading what it needs through `loader` (see `restore_loaded`),
/// restoring, and then updating directory states bottom-up.
pub open spec fn restored_and_updated<F: Fn(&CanonicalPath) -> Option<Vec<(String, TreeNode)>>>(
    old: TreeNode,
    new: TreeNode,
    selected: Seq<Seq<char>>,
    expanded: Seq<Seq<char>>,
    loader: F,
) -> bool {
    exists|loaded: TreeNode, mid: TreeNode|
        #[trigger] restore_loaded(old, loaded, expanded, Seq::empty(), loader) && #[trigger] restored(
            loaded,
            mid,
            selected,
            expanded,
        ) && parents_updated(mid, new)
}

/// Setting a selection state at a node (with loading, see `selection_set`) and then updating
/// directory states bottom-up.
pub open spec fn selected_and_updated<F: Fn(&CanonicalPath) -> Option<Vec<(String, TreeNode)>>>(
    old: TreeNode,
    new: TreeNode,
    path: Seq<usize>,
    state: SelectionState,
    pats: Seq<Seq<char>>,
    loader: F,
) -> bool {
    exists|mid: TreeNode|
        changed_at(old, mid, path, |a: TreeNode, b: TreeNode| selection_set(a, b, state, pats, loader))
            && #[trigger] parents_updated(mid, new)
}

/// The index of the first node among `cs[i..]` with the path `p`, if any.
pub open spec fn path_index_from(cs: Seq<TreeNode>, p: Seq<char>, i: int) -> Option<int>
    decreases cs.len() - i,
{
    if i < 0 || i >= cs.len() {
        None
    } else if cs[i].canonical_path@ == p {
        Some(i)
    } else {
        path_index_from(cs, p, i + 1)
    }
}

/// Re-reading a directory under new ignore patterns: `base` is the node as it now stands
/// (without children), `prev_expanded` and `prev_children` what it held before. Its children
/// are read afresh through `loader` (none when it cannot be read) and filtered by `pats`; it
/// keeps its expansion; when it was expanded, each listed directory that was loaded before
/// (the first earlier child with its path) is re-read in turn with what that child held; the
/// node then takes its state from its new children. A file stays as it is.
pub open spec fn reread<F: Fn(&CanonicalPath) -> Option<Vec<(String, TreeNode)>>>(
    prev_expanded: bool,
    prev_children: Seq<TreeNode>,
    base: TreeNode,
    new: TreeNode,
    pats: Seq<Seq<char>>,
    loader: F,
) -> bool
    decreases prev_children,
{
    if !base.is_dir {
        new == base
    } else {
        exists|r: Option<Vec<(String, TreeNode)>>|
            #[trigger] call_ensures(loader, (&base.canonical_path,), r) && {
                let listed = children_from(Seq::empty(), listing_view(r), pats);
                &&& same_entry(base, new)
                &&& new.expanded == prev_expanded
                &&& new.children_loaded
                &&& new.children@.len() == listed.len()
                &&& forall|i: int|
                    0 <= i < listed.len() ==> {
                        let k = if prev_expanded && listed[i].is_dir {
                            path_index_from(prev_children, listed[i].canonical_path@, 0)
                        } else {
                            None
                        };
                        if k is Some && 0 <= k.unwrap() < prev_children.len()
                            && prev_children[k.unwrap()].children_loaded {
                            reread(
                                prev_children[k.unwrap()].expanded,
                                prev_children[k.unwrap()].children@,
                                listed[i],
                                #[trigger] new.children@[i],
                                pats,
                                loader,
                            )
                        } else {
                            new.children@[i] == listed[i]
                        }
                    }
                &&& new.selection == (if new.children@.len() == 0 {
                    base.selection
                } else {
                    parent_state(new.children@)
                })
            }
    }
}

/// What the tree view says when it has no rows to show (`None` when it has rows).
pub open spec fn empty_status_text(roots: Seq<TreeNode>, no_rows: bool, q: Seq<char>) -> Option<Seq<char>> {
    if !no_rows {
        None
    } else if roots.len() == 0 {
        Some("No directory selected"@)
    } else if !roots[0].children_loaded {
        Some("Loading directory contents..."@)
    } else if roots[0].children@.len() == 0 {
        Some("Directory is empty"@)
    } else if q.len() > 0 {
        Some("No files match your search"@)
    } else {
        Some("No files to display"@)
    }
}

/// The node of the first root that a row's index path leads to: 0 for the root, then child indices.
pub open spec fn row_target(roots: Seq<TreeNode>, node_path: Seq<usize>) -> Option<TreeNode> {
    if node_path.len() == 0 || roots.len() == 0 {
        None
    } else {
        node_at(roots[0], node_path.drop_first())
    }
}

/// The covered files of a list of roots, in order.
pub open spec fn selected_in_roots(rs: Seq<TreeNode>) -> Seq<Seq<char>>
    decreases rs.len(),
{
    if rs.len() == 0 {
        Seq::empty()
    } else {
        selected_in_roots(rs.drop_last()) + selected_under(rs.last())
    }
}

/// The checked files of a list of roots, in order.
pub open spec fn checked_in_roots(rs: Seq<TreeNode>) -> Seq<Seq<char>>
    decreases rs.len(),
{
    if rs.len() == 0 {
        Seq::empty()
    } else {
        checked_in_roots(rs.drop_last()) + checked_files(rs.last())
    }
}

/// Every file of a list of roots, in order.
pub open spec fn files_in_roots(rs: Seq<TreeNode>) -> Seq<Seq<char>>
    decreases rs.len(),
{
    if rs.len() == 0 {
        Seq::empty()
    } else {
        files_in_roots(rs.drop_last()) + all_files(rs.last())
    }
}

/// The expanded directories of a list of roots, in order.
pub open spec fn expanded_in_roots(rs: Seq<TreeNode>) -> Seq<Seq<char>>
    decreases rs.len(),
{
    if rs.len() == 0 {
        Seq::empty()
    } else {
        expanded_in_roots(rs.drop_last()) + expanded_dirs(rs.last())
    }
}

/// The text of a list of roots, each drawn as a last entry.
pub open spec fn text_of_roots(rs: Seq<TreeNode>) -> Seq<char>
    decreases rs.len(),
{
    if rs.len() == 0 {
        Seq::empty()
    } else {
        text_of_roots(rs.drop_last()) + node_text(rs.last(), Seq::empty(), true)
    }
}

fn set_selection_recursive(node: &mut TreeNode, state: SelectionState)
    ensures
        marked_all(*old(node), *final(node), state),
    decreases *old(node),
{
    node.selection = state;
    if node.children_loaded {
        let len = node.children.len();
        for i in 0..len
            invariant
                node.children@.len() == len,
                len == old(node).children@.len(),
                same_entry(*old(node), *node),
                node.expanded == old(node).expanded,
                node.children_loaded == old(node).children_loaded,
                node.selection == state,
                forall|j: int|
                    0 <= j < i ==> marked_all(#[trigger] old(node).children@[j], node.children@[j], state),
                forall|j: int| i <= j < len ==> node.children@[j] == old(node).children@[j],
        {
            set_selection_recursive(&mut node.children[i], state);
        }
    }
}

/// The index of the first node with the given path, if any.
fn path_index(cs: &Vec<TreeNode>, p: &CanonicalPath) -> (r: Option<usize>)
    ensures
        match r {
            Some(k) => k < cs@.len() && path_index_from(cs@, p@, 0) == Some(k as int),
            None => path_index_from(cs@, p@, 0) is None,
        },
{
    let mut i: usize = 0;
    while i < cs.len()
        invariant
            i <= cs@.len(),
            path_index_from(cs@, p@, 0) == path_index_from(cs@, p@, i as int),
        decreases cs@.len() - i,
    {
        if crate::text::str_eq(cs[i].canonical_path.as_path(), p.as_path()) {
            return Some(i);
        }
        i += 1;
    }
    None
}

/// Re-reads a directory under new ignore patterns, given what it held before (see `reread`).
fn reload_with_patterns<F>(
    prev_expanded: bool,
    prev_children: &Vec<TreeNode>,
    node: &mut TreeNode,
    patterns: &[GlobPattern],
    loader: &F,
) where F: Fn(&CanonicalPath) -> Option<Vec<(String, TreeNode)>>
    requires
        forall|p: &CanonicalPath| call_requires(*loader, (p,)),
    ensures
        reread(prev_expanded, prev_children@, *old(node), *final(node), glob_sources(patterns@), *loader),
    decreases prev_children@,
{
    if !node.is_dir {
        return;
    }
    let ghost pats = glob_sources(patterns@);
    let listing = loader(&node.canonical_path);
    let ghost lg = listing;
    node.children = Vec::new();
    node.children_loaded = false;
    node.load_children_with_patterns(listing, patterns);
    node.expanded = prev_expanded;
    let ghost listed = node.children@;
    assert(listed == children_from(Seq::empty(), listing_view(lg), pats));
    let len = node.children.len();
    for i in 0..len
        invariant
            node.children@.len() == len,
            len == listed.len(),
            listed == children_from(Seq::empty(), listing_view(lg), pats),
            pats == glob_sources(patterns@),
            forall|p: &CanonicalPath| call_requires(*loader, (p,)),
            same_entry(*old(node), *node),
            node.selection == old(node).selection,
            node.expanded == prev_expanded,
            node.children_loaded,
            forall|j: int|
                0 <= j < i ==> {
                    let k = if prev_expanded && listed[j].is_dir {
                        path_index_from(prev_children@, listed[j].canonical_path@, 0)
                    } else {
                        None
                    };
                    if k is Some && 0 <= k.unwrap() < prev_children@.len()
                        && prev_children@[k.unwrap()].children_loaded {
                        reread(
                            prev_children@[k.unwrap()].expanded,
                            prev_children@[k.unwrap()].children@,
                            listed[j],
                            #[trigger] node.children@[j],
                            pats,
                            *loader,
                        )
                    } else {
                        node.children@[j] == listed[j]
                    }
                },
            forall|j: int| i <= j < len ==> node.children@[j] == listed[j],
    {
        if prev_expanded && node.children[i].is_dir {
            match path_index(prev_children, &node.children[i].canonical_path) {
                Some(k) => {
                    if prev_children[k].children_loaded {
                        reload_with_patterns(
                            prev_children[k].expanded,
                            &prev_children[k].children,
                            &mut node.children[i],
                            patterns,
                            loader,
                        );
                    }
                },
                None => {},
            }
        }
    }
    node.update_parent_selection();
    assert(call_ensures(*loader, (&old(node).canonical_path,), lg));
}

fn has_matching_child_exec(node: &TreeNode, q: &str) -> (r: bool)
    ensures
        r == has_matching_child(*node, q@),
    decreases *node,
{
    if !node.children_loaded {
        return true;
    }
    let mut i: usize = 0;
    while i < node.children.len()
        invariant
            node.children_loaded,
            i <= node.children@.len(),
            has_matching_child(*node, q@) == has_matching_in(node.children@, i as int, q@),
        decreases node.children@.len() - i,
    {
        if fuzzy_matches(node.children[i].name.as_str(), q) {
            return true;
        }
        if node.children[i].is_dir && has_matching_child_exec(&node.children[i], q) {
            return true;
        }
        i += 1;
    }
    false
}

fn copy_path(p: &Vec<usize>) -> (r: Vec<usize>)
    ensures
        r@ == p@,
{
    let mut r: Vec<usize> = Vec::new();
    for i in 0..p.len()
        invariant
            r@ == p@.take(i as int),
    {
        r.push(p[i]);
        assert(r@ =~= p@.take(i + 1));
    }
    assert(p@.take(p@.len() as int) =~= p@);
    r
}

fn flatten_node(node: &TreeNode, out: &mut Vec<FlattenedNode>, node_path: &Vec<usize>, depth: usize, q: &str)
    requires
        depth + tree_height(*node) <= usize::MAX,
    ensures
        row_views(final(out)@) == row_views(old(out)@) + flat_rows(*node, node_path@, depth as int, q@),
    decreases *node,
{
    let show = q.unicode_len() == 0 || fuzzy_matches(node.name.as_str(), q) || (node.is_dir
        && has_matching_child_exec(node, q));
    if !show {
        assert(row_views(out@) =~= row_views(old(out)@) + flat_rows(*node, node_path@, depth as int, q@));
        return;
    }
    out.push(
        FlattenedNode {
            node_path: copy_path(node_path),
            depth,
            name: node.name.clone(),
            is_dir: node.is_dir,
            is_expanded: node.expanded,
            selection: node.selection,
        },
    );
    let ghost start = row_views(out@);
    assert(start =~= row_views(old(out)@) + seq![(node_path@, depth as int, node.name@, node.is_dir, node.expanded, node.selection)]);
    if node.is_dir && node.expanded && node.children_loaded {
        let count = node.children.len();
        if count > 0 {
            assert(depth < usize::MAX);
        }
        for i in 0..count
            invariant
                count == node.children@.len(),
                count > 0 ==> depth + 1 + max_height(node.children@) <= usize::MAX,
                row_views(out@) + flat_rows_list(node.children@, node_path@, i as int, depth + 1, q@)
                    == start + flat_rows_list(node.children@, node_path@, 0, depth + 1, q@),
        {
            proof {
                lemma_max_height_le(node.children@, i as int);
            }
            let mut child_path = copy_path(node_path);
            child_path.push(i);
            let ghost o1 = row_views(out@);
            flatten_node(&node.children[i], out, &child_path, depth + 1, q);
            assert(o1 + flat_rows_list(node.children@, node_path@, i as int, depth + 1, q@)
                =~= row_views(out@) + flat_rows_list(node.children@, node_path@, i + 1, depth + 1, q@));
        }
        assert(row_views(out@) =~= row_views(old(out)@) + flat_rows(*node, node_path@, depth as int, q@));
    } else {
        assert(row_views(out@) =~= row_views(old(out)@) + flat_rows(*node, node_path@, depth as int, q@));
    }
}

/// Directory tree widget state.
#[derive(Debug)]
pub struct DirectoryTree {
    /// Root nodes of the tree
    pub roots: Vec<TreeNode>,
    /// Ignore patterns that filter files and directories
    ignore_patterns: Vec<GlobPattern>,
    /// Flattened view of the visible nodes (cached)
    flattened_nodes: Vec<FlattenedNode>,
    /// Whether the flattened view needs rebuilding
    needs_flattening: bool,
}

impl DirectoryTree {
    /// The root nodes.
    pub closed spec fn root_nodes(&self) -> Seq<TreeNode> {
        self.roots@
    }

    /// The sources of the ignore patterns in force.
    pub closed spec fn pattern_list(&self) -> Seq<Seq<char>> {
        glob_sources(self.ignore_patterns@)
    }

    /// The cached rows.
    pub closed spec fn rows(&self) -> Seq<RowView> {
        row_views(self.flattened_nodes@)
    }

    /// Whether the cached rows are out of date.
    pub closed spec fn stale(&self) -> bool {
        self.needs_flattening
    }

    /// Creates an empty tree.
    pub fn new() -> (r: Self)
        ensures
            r.root_nodes().len() == 0,
            r.pattern_list().len() == 0,
            r.rows().len() == 0,
            r.stale(),
    {
        DirectoryTree {
            roots: Vec::new(),
            ignore_patterns: Vec::new(),
            flattened_nodes: Vec::new(),
            needs_flattening: true,
        }
    }

    /// The cached rows.
    pub fn flattened(&self) -> (r: &Vec<FlattenedNode>)
        ensures
            row_views(r@) == self.rows(),
    {
        &self.flattened_nodes
    }

    /// Whether the cached rows are out of date.
    pub fn needs_flattening(&self) -> (r: bool)
        ensures
            r == self.stale(),
    {
        self.needs_flattening
    }

    /// Whether the rows are to be rebuilt before the tree is shown with a search query: when
    /// they are out of date, and whenever a query is given.
    pub fn should_flatten(&self, search_query: &str) -> (r: bool)
        ensures
            r == (self.stale() || search_query@.len() > 0),
    {
        self.needs_flattening || search_query.unicode_len() > 0
    }

    /// The message the tree view shows in place of rows when there are none: why the tree is
    /// empty (no directory, not loaded yet, an empty directory, no match for the search, or
    /// nothing to show); `None` when there are rows.
    pub fn empty_status(&self, search_query: &str) -> (r: Option<String>)
        ensures
            r matches Some(m) ==> Some(m@) == empty_status_text(self.root_nodes(), self.rows().len() == 0, search_query@),
            r is None <==> empty_status_text(self.root_nodes(), self.rows().len() == 0, search_query@) is None,
    {
        if self.flattened_nodes.len() > 0 {
            None
        } else if self.roots.len() == 0 {
            Some(String::from_str("No directory selected"))
        } else if !self.roots[0].children_loaded {
            Some(String::from_str("Loading directory contents..."))
        } else if self.roots[0].children.len() == 0 {
            Some(String::from_str("Directory is empty"))
        } else if search_query.unicode_len() > 0 {
            Some(String::from_str("No files match your search"))
        } else {
            Some(String::from_str("No files to display"))
        }
    }

    /// Makes `root` the only root: it is expanded and its children are loaded from `listing`
    /// with the ignore patterns in force.
    pub fn set_root(&mut self, root: TreeNode, listing: Option<Vec<(String, TreeNode)>>)
        ensures
            final(self).root_nodes().len() == 1,
            load_result(
                TreeNode { expanded: true, ..root },
                final(self).root_nodes()[0],
                listing_view(listing),
                old(self).pattern_list(),
            ),
            final(self).pattern_list() == old(self).pattern_list(),
            final(self).rows() == old(self).rows(),
            final(self).stale(),
    {
        self.roots.clear();
        self.needs_flattening = true;
        let mut root = root;
        root.expanded = true;
        root.load_children_with_patterns(listing, self.ignore_patterns.as_slice());
        self.roots.push(root);
    }

    /// Sets the ignore patterns from a comma-separated list (entries trimmed, empty ones and
    /// invalid globs skipped), and, when the first root's children had been loaded, reloads
    /// them through `loader` under the new patterns, recursively through the directories that
    /// were expanded (see `reread`).
    pub fn set_ignore_patterns<F>(&mut self, patterns_str: &str, loader: &F)
        where F: Fn(&CanonicalPath) -> Option<Vec<(String, TreeNode)>>
        requires
            forall|p: &CanonicalPath| call_requires(*loader, (p,)),
        ensures
            final(self).pattern_list() == compiling_globs(comma_list(patterns_str@)),
            final(self).root_nodes().len() == old(self).root_nodes().len(),
            forall|i: int| 1 <= i < old(self).root_nodes().len() ==> final(self).root_nodes()[i] == old(self).root_nodes()[i],
            old(self).root_nodes().len() > 0 ==> {
                let r0 = old(self).root_nodes()[0];
                let r1 = final(self).root_nodes()[0];
                if r0.is_dir && r0.children_loaded {
                    reread(r0.expanded, r0.children@, r0, r1, final(self).pattern_list(), *loader)
                } else {
                    r1 == r0
                }
            },
            final(self).rows() == old(self).rows(),
            final(self).stale() == (old(self).stale() || old(self).root_nodes().len() > 0),
    {
        let list = split_comma_list(patterns_str);
        self.ignore_patterns = compile_globs(list.as_slice());
        if self.roots.len() > 0 {
            if self.roots[0].is_dir && self.roots[0].children_loaded {
                let ghost r0 = self.roots@[0];
                let mut olds: Vec<TreeNode> = Vec::new();
                std::mem::swap(&mut olds, &mut self.roots[0].children);
                let expanded = self.roots[0].expanded;
                let ghost base = self.roots@[0];
                reload_with_patterns(expanded, &olds, &mut self.roots[0], self.ignore_patterns.as_slice(), loader);
                assert(reread(r0.expanded, r0.children@, base, self.roots@[0], glob_sources(self.ignore_patterns@), *loader));
                assert(reread(r0.expanded, r0.children@, r0, self.roots@[0], glob_sources(self.ignore_patterns@), *loader));
            }
            self.needs_flattening = true;
        }
    }

    /// Rebuilds the visible rows for a search query (empty: every node is shown): the rows
    /// of the first root's children and of their expanded descendants. Nothing is rebuilt
    /// while there is no root, its children are not loaded, or it has none.
    pub fn flatten_tree(&mut self, search_query: &str)
        requires
            old(self).root_nodes().len() > 0 ==> tree_height(old(self).root_nodes()[0]) < usize::MAX,
        ensures
            final(self).root_nodes() == old(self).root_nodes(),
            final(self).pattern_list() == old(self).pattern_list(),
            if old(self).root_nodes().len() == 0 || !old(self).root_nodes()[0].children_loaded
                || old(self).root_nodes()[0].children@.len() == 0 {
                &&& final(self).rows().len() == 0
                &&& final(self).stale() == old(self).stale()
            } else {
                &&& final(self).rows() == flat_rows_list(
                    old(self).root_nodes()[0].children@,
                    seq![0usize],
                    0,
                    0,
                    search_query@,
                )
                &&& !final(self).stale()
            },
    {
        self.flattened_nodes = Vec::new();
        if self.roots.len() == 0 {
            return;
        }
        let root = &self.roots[0];
        if !root.children_loaded || root.children.len() == 0 {
            return;
        }
        let mut rows: Vec<FlattenedNode> = Vec::new();
        let base: Vec<usize> = vec![0];
        assert(base@ =~= seq![0usize]);
        let count = root.children.len();
        for i in 0..count
            invariant
                count == root.children@.len(),
                count > 0,
                1 + max_height(root.children@) < usize::MAX,
                base@ == seq![0usize],
                row_views(rows@) + flat_rows_list(root.children@, base@, i as int, 0, search_query@)
                    == flat_rows_list(root.children@, base@, 0, 0, search_query@),
        {
            proof {
                lemma_max_height_le(root.children@, i as int);
            }
            let mut child_path = copy_path(&base);
            child_path.push(i);
            let ghost o1 = row_views(rows@);
            flatten_node(&root.children[i], &mut rows, &child_path, 0, search_query);
            assert(o1 + flat_rows_list(root.children@, base@, i as int, 0, search_query@) =~= row_views(rows@)
                + flat_rows_list(root.children@, base@, i + 1, 0, search_query@));
        }
        assert(row_views(rows@) =~= flat_rows_list(root.children@, base@, 0, 0, search_query@));
        self.flattened_nodes = rows;
        self.needs_flattening = false;
    }

    /// Checks every loaded node of the tree.
    pub fn select_all(&mut self)
        ensures
            final(self).root_nodes().len() == old(self).root_nodes().len(),
            forall|i: int|
                0 <= i < old(self).root_nodes().len() ==> marked_all(
                    #[trigger] old(self).root_nodes()[i],
                    final(self).root_nodes()[i],
                    SelectionState::Checked,
                ),
            final(self).pattern_list() == old(self).pattern_list(),
            final(self).rows() == old(self).rows(),
            final(self).stale(),
    {
        self.mark_all(SelectionState::Checked);
    }

    /// Unchecks every loaded node of the tree.
    pub fn deselect_all(&mut self)
        ensures
            final(self).root_nodes().len() == old(self).root_nodes().len(),
            forall|i: int|
                0 <= i < old(self).root_nodes().len() ==> marked_all(
                    #[trigger] old(self).root_nodes()[i],
                    final(self).root_nodes()[i],
                    SelectionState::Unchecked,
                ),
            final(self).pattern_list() == old(self).pattern_list(),
            final(self).rows() == old(self).rows(),
            final(self).stale(),
    {
        self.mark_all(SelectionState::Unchecked);
    }

    fn mark_all(&mut self, state: SelectionState)
        ensures
            final(self).root_nodes().len() == old(self).root_nodes().len(),
            forall|i: int|
                0 <= i < old(self).root_nodes().len() ==> marked_all(
                    #[trigger] old(self).root_nodes()[i],
                    final(self).root_nodes()[i],
                    state,
                ),
            final(self).pattern_list() == old(self).pattern_list(),
            final(self).rows() == old(self).rows(),
            final(self).stale(),
    {
        let len = self.roots.len();
        for i in 0..len
            invariant
                self.root_nodes().len() == len,
                len == old(self).root_nodes().len(),
                self.pattern_list() == old(self).pattern_list(),
                self.rows() == old(self).rows(),
                forall|j: int|
                    0 <= j < i ==> marked_all(#[trigger] old(self).root_nodes()[j], self.root_nodes()[j], state),
                forall|j: int| i <= j < len ==> self.root_nodes()[j] == old(self).root_nodes()[j],
        {
            set_selection_recursive(&mut self.roots[i], state);
        }
        self.needs_flattening = true;
    }

    /// The files the selection covers, root by root, in pre-order.
    pub fn collect_selected_files(&self) -> (r: Vec<CanonicalPath>)
        ensures
            path_views(r@) == selected_in_roots(self.root_nodes()),
    {
        let mut out: Vec<CanonicalPath> = Vec::new();
        assert(path_views(out@) =~= selected_in_roots(self.root_nodes().take(0)));
        for i in 0..self.roots.len()
            invariant
                path_views(out@) == selected_in_roots(self.root_nodes().take(i as int)),
        {
            self.roots[i].collect_selected_into(&mut out);
            assert(self.root_nodes().take(i + 1).drop_last() =~= self.root_nodes().take(i as int));
        }
        assert(self.root_nodes().take(self.root_nodes().len() as int) =~= self.root_nodes());
        out
    }

    /// The text of the whole tree, each root drawn as a last entry.
    pub fn generate_tree_string(&self) -> (r: String)
        ensures
            r@ == text_of_roots(self.root_nodes()),
    {
        let mut out = String::new();
        assert(out@ =~= text_of_roots(self.root_nodes().take(0)));
        for i in 0..self.roots.len()
            invariant
                out@ == text_of_roots(self.root_nodes().take(i as int)),
        {
            self.roots[i].write_tree_text(&mut out, "", true);
            proof {
                reveal_strlit("");
            }
            assert(self.root_nodes().take(i + 1).drop_last() =~= self.root_nodes().take(i as int));
        }
        assert(self.root_nodes().take(self.root_nodes().len() as int) =~= self.root_nodes());
        out
    }

    /// The paths of the checked files, root by root, in pre-order, each once.
    pub fn get_selected_files(&self) -> (r: Vec<String>)
        ensures
            views(r@) == first_occurrences(checked_in_roots(self.root_nodes())),
    {
        let mut out: Vec<String> = Vec::new();
        assert(views(out@) =~= checked_in_roots(self.root_nodes().take(0)));
        for i in 0..self.roots.len()
            invariant
                views(out@) == checked_in_roots(self.root_nodes().take(i as int)),
        {
            self.roots[i].collect_checked_into(&mut out);
            assert(self.root_nodes().take(i + 1).drop_last() =~= self.root_nodes().take(i as int));
        }
        assert(self.root_nodes().take(self.root_nodes().len() as int) =~= self.root_nodes());
        without_repeats(out)
    }

    /// The paths of the expanded directories, root by root, in pre-order, each once.
    pub fn get_expanded_dirs(&self) -> (r: Vec<String>)
        ensures
            views(r@) == first_occurrences(expanded_in_roots(self.root_nodes())),
    {
        let mut out: Vec<String> = Vec::new();
        assert(views(out@) =~= expanded_in_roots(self.root_nodes().take(0)));
        for i in 0..self.roots.len()
            invariant
                views(out@) == expanded_in_roots(self.root_nodes().take(i as int)),
        {
            self.roots[i].collect_expanded_into(&mut out);
            assert(self.root_nodes().take(i + 1).drop_last() =~= self.root_nodes().take(i as int));
        }
        assert(self.root_nodes().take(self.root_nodes().len() as int) =~= self.root_nodes());
        without_repeats(out)
    }

    /// Restores a recorded state: the listed directories that are not loaded are read through
    /// `loader` (see `TreeNode::load_for_restore`), listed directories are expanded, listed files
    /// are checked and the other files unchecked, then every directory's state is taken from its
    /// children, bottom-up.
    pub fn restore_selection<F>(&mut self, selected_files: &[String], expanded_dirs: &[String], loader: &F)
        where F: Fn(&CanonicalPath) -> Option<Vec<(String, TreeNode)>>
        requires
            forall|p: &CanonicalPath| call_requires(*loader, (p,)),
        ensures
            final(self).root_nodes().len() == old(self).root_nodes().len(),
            forall|i: int|
                0 <= i < old(self).root_nodes().len() ==> #[trigger] restored_and_updated(
                    old(self).root_nodes()[i],
                    final(self).root_nodes()[i],
                    views(selected_files@),
                    views(expanded_dirs@),
                    *loader,
                ),
            final(self).pattern_list() == old(self).pattern_list(),
            final(self).rows() == old(self).rows(),
            final(self).stale(),
    {
        let len = self.roots.len();
        let none: Vec<String> = Vec::new();
        assert(views(none@) =~= Seq::<Seq<char>>::empty());
        let ghost mut loads: Seq<TreeNode> = Seq::empty();
        let ghost mut mids: Seq<TreeNode> = Seq::empty();
        for i in 0..len
            invariant
                self.root_nodes().len() == len,
                len == old(self).root_nodes().len(),
                mids.len() == i,
                loads.len() == i,
                views(none@) == Seq::<Seq<char>>::empty(),
                forall|p: &CanonicalPath| call_requires(*loader, (p,)),
                self.pattern_list() == old(self).pattern_list(),
                self.rows() == old(self).rows(),
                forall|j: int|
                    0 <= j < i ==> restore_loaded(
                        #[trigger] old(self).root_nodes()[j],
                        loads[j],
                        views(expanded_dirs@),
                        Seq::empty(),
                        *loader,
                    ),
                forall|j: int|
                    0 <= j < i ==> restored(
                        #[trigger] loads[j],
                        self.root_nodes()[j],
                        views(selected_files@),
                        views(expanded_dirs@),
                    ),
                forall|j: int| 0 <= j < i ==> mids[j] == self.root_nodes()[j],
                forall|j: int| i <= j < len ==> self.root_nodes()[j] == old(self).root_nodes()[j],
        {
            self.roots[i].load_for_restore(expanded_dirs, &none, loader);
            proof {
                loads = loads.push(self.root_nodes()[i as int]);
            }
            self.roots[i].restore_state(selected_files, expanded_dirs);
            proof {
                mids = mids.push(self.root_nodes()[i as int]);
            }
        }
        for i in 0..len
            invariant
                self.root_nodes().len() == len,
                len == old(self).root_nodes().len(),
                mids.len() == len,
                loads.len() == len,
                self.pattern_list() == old(self).pattern_list(),
                self.rows() == old(self).rows(),
                forall|j: int|
                    0 <= j < len ==> restore_loaded(
                        #[trigger] old(self).root_nodes()[j],
                        loads[j],
                        views(expanded_dirs@),
                        Seq::empty(),
                        *loader,
                    ),
                forall|j: int|
                    0 <= j < len ==> restored(
                        #[trigger] loads[j],
                        mids[j],
                        views(selected_files@),
                        views(expanded_dirs@),
                    ),
                forall|j: int| 0 <= j < i ==> parents_updated(#[trigger] mids[j], self.root_nodes()[j]),
                forall|j: int| i <= j < len ==> self.root_nodes()[j] == mids[j],
        {
            self.roots[i].update_parent_states();
        }
        self.needs_flattening = true;
        assert forall|i: int| 0 <= i < old(self).root_nodes().len() implies #[trigger] restored_and_updated(
            old(self).root_nodes()[i],
            self.root_nodes()[i],
            views(selected_files@),
            views(expanded_dirs@),
            *loader,
        ) by {
            assert(restore_loaded(old(self).root_nodes()[i], loads[i], views(expanded_dirs@), Seq::empty(), *loader));
            assert(restored(loads[i], mids[i], views(selected_files@), views(expanded_dirs@)));
            assert(parents_updated(mids[i], self.root_nodes()[i]));
        }
    }
}

impl DirectoryTree {
    fn row_tail(node_path: &[usize]) -> (r: Vec<usize>)
        requires
            node_path@.len() > 0,
        ensures
            r@ == node_path@.drop_first(),
    {
        let mut rest: Vec<usize> = Vec::new();
        let mut k: usize = 1;
        while k < node_path.len()
            invariant
                1 <= k <= node_path@.len(),
                rest@ == node_path@.subrange(1, k as int),
            decreases node_path@.len() - k,
        {
            rest.push(node_path[k]);
            k += 1;
            assert(rest@ =~= node_path@.subrange(1, k as int));
        }
        assert(rest@ =~= node_path@.drop_first());
        rest
    }

    /// Flips the expansion of the node a row's index path leads to, marking the rows stale;
    /// tells whether that node is now an expanded directory whose children are still to be
    /// read, or `None` when the path leads nowhere (and nothing changes).
    pub fn toggle_expanded(&mut self, node_path: &[usize]) -> (r: Option<bool>)
        ensures
            match row_target(old(self).root_nodes(), node_path@) {
                Some(n) => {
                    &&& r == Some(!n.expanded && !n.children_loaded)
                    &&& final(self).root_nodes().len() == old(self).root_nodes().len()
                    &&& changed_at(
                        old(self).root_nodes()[0],
                        final(self).root_nodes()[0],
                        node_path@.drop_first(),
                        |a: TreeNode, b: TreeNode| toggled(a, b),
                    )
                    &&& forall|i: int|
                        1 <= i < old(self).root_nodes().len() ==> final(self).root_nodes()[i]
                            == old(self).root_nodes()[i]
                    &&& final(self).stale()
                },
                None => r is None && final(self).root_nodes() == old(self).root_nodes()
                    && final(self).stale() == old(self).stale(),
            },
            final(self).pattern_list() == old(self).pattern_list(),
            final(self).rows() == old(self).rows(),
    {
        if node_path.len() == 0 || self.roots.len() == 0 {
            return None;
        }
        let rest = Self::row_tail(node_path);
        if !self.roots[0].has_node_at(rest.as_slice()) {
            return None;
        }
        let r = self.roots[0].toggle_expanded_at(rest.as_slice());
        self.needs_flattening = true;
        r
    }

    /// Loads, with the ignore patterns in force, the children of the node a row's index path
    /// leads to; nothing changes when the path leads nowhere.
    pub fn load_at(&mut self, node_path: &[usize], listing: Option<Vec<(String, TreeNode)>>)
        ensures
            final(self).root_nodes().len() == old(self).root_nodes().len(),
            (node_path@.len() == 0 || old(self).root_nodes().len() == 0) ==> final(self).root_nodes()
                == old(self).root_nodes(),
            (node_path@.len() > 0 && old(self).root_nodes().len() > 0) ==> loaded_at(
                old(self).root_nodes()[0],
                final(self).root_nodes()[0],
                node_path@.drop_first(),
                listing_view(listing),
                old(self).pattern_list(),
            ),
            forall|i: int|
                1 <= i < old(self).root_nodes().len() ==> final(self).root_nodes()[i]
                    == old(self).root_nodes()[i],
            final(self).pattern_list() == old(self).pattern_list(),
            final(self).rows() == old(self).rows(),
            final(self).stale() == old(self).stale(),
    {
        if node_path.len() == 0 || self.roots.len() == 0 {
            return;
        }
        let rest = Self::row_tail(node_path);
        self.roots[0].load_children_at(rest.as_slice(), listing, self.ignore_patterns.as_slice());
    }

    /// Sets the selection state of the node a row's index path leads to, with the ignore
    /// patterns in force (checking a directory loads its subtree through `loader`, see
    /// `TreeNode::set_selection_with_patterns`), then updates the directory states of the first
    /// root bottom-up and marks the rows stale; tells whether the path led to a node (nothing
    /// changes when it does not).
    pub fn select_at<F>(&mut self, node_path: &[usize], state: SelectionState, loader: &F) -> (r: bool)
        where F: Fn(&CanonicalPath) -> Option<Vec<(String, TreeNode)>>
        requires
            forall|p: &CanonicalPath| call_requires(*loader, (p,)),
        ensures
            r == row_target(old(self).root_nodes(), node_path@) is Some,
            final(self).root_nodes().len() == old(self).root_nodes().len(),
            r ==> selected_and_updated(
                old(self).root_nodes()[0],
                final(self).root_nodes()[0],
                node_path@.drop_first(),
                state,
                old(self).pattern_list(),
                *loader,
            ),
            r ==> final(self).stale(),
            !r ==> final(self).root_nodes() == old(self).root_nodes() && final(self).stale()
                == old(self).stale(),
            forall|i: int|
                1 <= i < old(self).root_nodes().len() ==> final(self).root_nodes()[i]
                    == old(self).root_nodes()[i],
            final(self).pattern_list() == old(self).pattern_list(),
            final(self).rows() == old(self).rows(),
    {
        if node_path.len() == 0 || self.roots.len() == 0 {
            return false;
        }
        let rest = Self::row_tail(node_path);
        if !self.roots[0].has_node_at(rest.as_slice()) {
            return false;
        }
        self.roots[0].set_selection_at(rest.as_slice(), state, self.ignore_patterns.as_slice(), loader);
        let ghost mid = self.roots@[0];
        self.roots[0].update_parent_states();
        self.needs_flattening = true;
        assert(parents_updated(mid, self.root_nodes()[0]));
        true
    }
}

impl Default for DirectoryTree {
    fn default() -> (r: Self)
        ensures
            r.root_nodes().len() == 0,
            r.pattern_list().len() == 0,
            r.rows().len() == 0,
            r.stale(),
    {
        Self::new()
    }
}

proof fn lemma_restore_roots<F: Fn(&CanonicalPath) -> Option<Vec<(String, TreeNode)>>>(
    olds: Seq<TreeNode>,
    news: Seq<TreeNode>,
    selected: Seq<Seq<char>>,
    expanded: Seq<Seq<char>>,
    loader: F,
    p: Seq<char>,
)
    requires
        olds.len() == news.len(),
        forall|i: int|
            0 <= i < olds.len() ==> #[trigger] restored_and_updated(olds[i], news[i], selected, expanded, loader),
    ensures
        selected.contains(p) && files_in_roots(news).contains(p) ==> checked_in_roots(news).contains(p),
        checked_in_roots(news).contains(p) ==> selected.contains(p),
    decreases olds.len(),
{
    if olds.len() > 0 {
        let k = olds.len() - 1;
        assert(restored_and_updated(olds[k], news[k], selected, expanded, loader));
        let (loaded, mid) = choose|loaded: TreeNode, mid: TreeNode|
            restore_loaded(olds[k], loaded, expanded, Seq::empty(), loader) && restored(
                loaded,
                mid,
                selected,
                expanded,
            ) && parents_updated(mid, news[k]);
        law_restore_checks_listed_files(loaded, mid, news[k], selected, expanded, p);
        assert forall|i: int| 0 <= i < olds.drop_last().len() implies #[trigger] restored_and_updated(
            olds.drop_last()[i],
            news.drop_last()[i],
            selected,
            expanded,
            loader,
        ) by {
            assert(olds.drop_last()[i] == olds[i] && news.drop_last()[i] == news[i]);
            assert(restored_and_updated(olds[i], news[i], selected, expanded, loader));
        }
        lemma_restore_roots(olds.drop_last(), news.drop_last(), selected, expanded, loader, p);
        assert(news.last() == news[k]);
        lemma_concat_contains(checked_in_roots(news.drop_last()), checked_files(news.last()), p);
        lemma_concat_contains(files_in_roots(news.drop_last()), all_files(news.last()), p);
        assert(checked_in_roots(news) == checked_in_roots(news.drop_last()) + checked_files(news.last()));
        assert(files_in_roots(news) == files_in_roots(news.drop_last()) + all_files(news.last()));
    } else {
        assert(checked_in_roots(news) =~= Seq::<Seq<char>>::empty());
        assert(files_in_roots(news) =~= Seq::<Seq<char>>::empty());
    }
}

/// Restoring a recorded selection and reading it back gives the recording: after
/// `restore_selection`, every listed path that is a file of the tree is among the selected
/// files (`get_selected_files`), and every selected file is listed; so when every listed path
/// is a file of the tree, the selected files are, as a set, the listed ones, each once.
pub proof fn law_restore_round_trip<F: Fn(&CanonicalPath) -> Option<Vec<(String, TreeNode)>>>(
    before: DirectoryTree,
    after: DirectoryTree,
    selected: Seq<Seq<char>>,
    expanded: Seq<Seq<char>>,
    loader: F,
    p: Seq<char>,
)
    requires
        after.root_nodes().len() == before.root_nodes().len(),
        forall|i: int|
            0 <= i < before.root_nodes().len() ==> #[trigger] restored_and_updated(
                before.root_nodes()[i],
                after.root_nodes()[i],
                selected,
                expanded,
                loader,
            ),
    ensures
        first_occurrences(checked_in_roots(after.root_nodes())).no_duplicates(),
        selected.contains(p) && files_in_roots(after.root_nodes()).contains(p) ==> first_occurrences(
            checked_in_roots(after.root_nodes()),
        ).contains(p),
        first_occurrences(checked_in_roots(after.root_nodes())).contains(p) ==> selected.contains(p),
        (forall|q: Seq<char>| selected.contains(q) ==> files_in_roots(after.root_nodes()).contains(q))
            ==> (first_occurrences(checked_in_roots(after.root_nodes())).contains(p) <==> selected.contains(p)),
{
    lemma_restore_roots(before.root_nodes(), after.root_nodes(), selected, expanded, loader, p);
    law_first_occurrences(checked_in_roots(after.root_nodes()));
}

proof fn lemma_match_among(cs: Seq<TreeNode>, i: int, j: int, q: Seq<char>)
    requires
        0 <= i <= j < cs.len(),
        fuzzy_accepts(cs[j].name@, q) || (cs[j].is_dir && has_matching_child(cs[j], q)),
    ensures
        has_matching_in(cs, i, q),
    decreases j - i,
{
    if i < j {
        lemma_match_among(cs, i + 1, j, q);
    }
}

proof fn lemma_node_at_step(n: TreeNode, path: Seq<usize>, k: int)
    requires
        1 <= k <= path.len(),
        path[0] < n.children@.len(),
    ensures
        node_at(n, path.take(k)) == node_at(n.children@[path[0] as int], path.drop_first().take(k - 1)),
{
    let t = path.take(k);
    assert(t[0] == path[0]);
    assert(t.drop_first() =~= path.drop_first().take(k - 1));
}

/// A directory holds a match for a search when some node below it, at any depth and reached
/// through directories, has a name the query fuzzily matches, or is a directory not read yet
/// (which might hold one): then it counts as holding a match.
pub proof fn law_search_finds_matches_at_any_depth(n: TreeNode, q: Seq<char>, path: Seq<usize>)
    requires
        path.len() >= 1,
        node_at(n, path) is Some,
        forall|k: int| 1 <= k < path.len() ==> (#[trigger] node_at(n, path.take(k))).unwrap().is_dir,
        fuzzy_accepts(node_at(n, path).unwrap().name@, q) || (node_at(n, path).unwrap().is_dir
            && !node_at(n, path).unwrap().children_loaded),
    ensures
        has_matching_child(n, q),
    decreases path.len(),
{
    if n.children_loaded {
        let j = path[0] as int;
        let c = n.children@[j];
        assert(path[0] < n.children@.len());
        let rest = path.drop_first();
        assert(node_at(n, path) == node_at(c, rest));
        if path.len() == 1 {
            assert(rest.len() == 0);
            assert(node_at(c, rest) == Some(c));
            lemma_match_among(n.children@, 0, j, q);
        } else {
            lemma_node_at_step(n, path, 1);
            assert(path.take(1).drop_first() =~= Seq::<usize>::empty());
            assert(node_at(n, path.take(1)) == Some(c));
            assert(c.is_dir);
            if c.children_loaded {
                assert forall|k: int| 1 <= k < rest.len() implies (#[trigger] node_at(c, rest.take(k))).unwrap().is_dir by {
                    lemma_node_at_step(n, path, k + 1);
                    assert(node_at(n, path.take(k + 1)).unwrap().is_dir);
                }
                law_search_finds_matches_at_any_depth(c, q, rest);
            }
            lemma_match_among(n.children@, 0, j, q);
        }
    }
}

/// For a non-empty query, a directory is shown when some node below it, at any depth and
/// reached through directories, matches (or is a directory not read yet); a file is shown
/// exactly when its own name matches.
pub proof fn law_search_shows_directories_of_matches(n: TreeNode, q: Seq<char>, path: Seq<usize>)
    requires
        n.is_dir,
        path.len() >= 1,
        node_at(n, path) is Some,
        forall|k: int| 1 <= k < path.len() ==> (#[trigger] node_at(n, path.take(k))).unwrap().is_dir,
        fuzzy_accepts(node_at(n, path).unwrap().name@, q) || (node_at(n, path).unwrap().is_dir
            && !node_at(n, path).unwrap().children_loaded),
    ensures
        shown(n, q),
        forall|f: TreeNode| !f.is_dir && q.len() > 0 ==> (shown(f, q) <==> fuzzy_accepts(f.name@, q)),
{
    law_search_finds_matches_at_any_depth(n, q, path);
}

/// `path` leads from `n`, through directories, to a node below it whose name the query
/// fuzzily matches, or to a directory not read yet.
pub open spec fn leads_to_match(n: TreeNode, q: Seq<char>, path: Seq<usize>) -> bool {
    &&& path.len() >= 1
    &&& node_at(n, path) is Some
    &&& forall|k: int| 1 <= k < path.len() ==> (#[trigger] node_at(n, path.take(k))).unwrap().is_dir
    &&& (fuzzy_accepts(node_at(n, path).unwrap().name@, q) || (node_at(n, path).unwrap().is_dir
        && !node_at(n, path).unwrap().children_loaded))
}

proof fn lemma_witness_child(n: TreeNode, q: Seq<char>)
    requires
        n.children_loaded,
        has_matching_child(n, q),
    ensures
        exists|path: Seq<usize>| leads_to_match(n, q, path),
    decreases n, 1int,
{
    lemma_witness_in(n, 0, q);
}

proof fn lemma_witness_in(n: TreeNode, i: int, q: Seq<char>)
    requires
        has_matching_in(n.children@, i, q),
    ensures
        exists|path: Seq<usize>| leads_to_match(n, q, path),
    decreases n, 0int, n.children@.len() - i,
{
    let cs = n.children@;
    assert(0 <= i < cs.len());
    assert(cs.len() == n.children.len());
    let c = cs[i];
    let head = seq![i as usize];
    assert(head[0] == i as usize);
    assert(node_at(n, head) == node_at(c, head.drop_first()));
    assert(head.drop_first() =~= Seq::<usize>::empty());
    if fuzzy_accepts(c.name@, q) || (c.is_dir && !c.children_loaded) {
        assert(leads_to_match(n, q, head));
    } else if c.is_dir && has_matching_child(c, q) {
        lemma_witness_child(c, q);
        let p = choose|p: Seq<usize>| leads_to_match(c, q, p);
        let full = head + p;
        assert(full[0] == i as usize);
        assert(full.drop_first() =~= p);
        assert(node_at(n, full) == node_at(c, p));
        assert forall|k: int| 1 <= k < full.len() implies (#[trigger] node_at(n, full.take(k))).unwrap().is_dir by {
            let t = full.take(k);
            assert(t[0] == i as usize);
            assert(t.drop_first() =~= p.take(k - 1));
            assert(node_at(n, t) == node_at(c, t.drop_first()));
            if k == 1 {
                assert(p.take(0) =~= Seq::<usize>::empty());
                assert(node_at(c, p.take(0)) == Some(c));
            } else {
                assert(node_at(c, p.take(k - 1)).unwrap().is_dir);
            }
        }
        assert(leads_to_match(n, q, full));
    } else {
        lemma_witness_in(n, i + 1, q);
    }
}

/// Conversely, a directory whose children are read holds a match for a search only when some
/// node below it, reached through directories, matches or is a directory not read yet.
pub proof fn law_search_matches_only_below(n: TreeNode, q: Seq<char>)
    requires
        n.children_loaded,
        has_matching_child(n, q),
    ensures
        exists|path: Seq<usize>| leads_to_match(n, q, path),
{
    lemma_witness_child(n, q);
}

} // verus!