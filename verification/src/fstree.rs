//! Text rendering of a directory tree read from the filesystem.

use vstd::prelude::*;
use crate::order::{chars_lt, entry_lt, seq_lt};
use crate::patterns::{any_glob_accepts, any_glob_matches, compile_globs, compiling_globs, glob_sources, GlobPattern};
use crate::sort::{insertion_sort, lemma_sort_related, sort_by};
use crate::text::{chars_of, push_str, views};

verus! {

/// Deepest level of a rendered tree; the root is at level 0.
pub const MAX_TREE_DEPTH: usize = 10;

/// A directory entry as read from the filesystem: its display name, whether it is a directory,
/// and the entries read from it (empty for files, unreadable directories, and below the
/// deepest rendered level).
#[derive(Debug)]
pub struct DirNode {
    /// Display name of the entry
    pub name: String,
    /// Whether the entry is a directory
    pub is_dir: bool,
    /// Entries of the directory, in the order they were read
    pub children: Vec<DirNode>,
}

/// Directories first, then by name in code point order.
pub open spec fn dir_node_lt(a: DirNode, b: DirNode) -> bool {
    entry_lt(a.is_dir, a.name@, b.is_dir, b.name@)
}

/// The entries that no pattern matches, in order.
pub open spec fn unignored(cs: Seq<DirNode>, pats: Seq<Seq<char>>) -> Seq<DirNode>
    decreases cs.len(),
{
    if cs.len() == 0 {
        cs
    } else if any_glob_accepts(pats, cs.last().name@) {
        unignored(cs.drop_last(), pats)
    } else {
        unignored(cs.drop_last(), pats).push(cs.last())
    }
}

/// The children of a directory as they are listed: sorted, then the ignored ones left out.
pub open spec fn arranged(cs: Seq<DirNode>, pats: Seq<Seq<char>>) -> Seq<DirNode> {
    unignored(sort_by(cs, |a: DirNode, b: DirNode| dir_node_lt(a, b)), pats)
}

/// One line of the tree: prefix, connector, icon, name.
pub open spec fn tree_line(prefix: Seq<char>, is_last: bool, is_dir: bool, name: Seq<char>) -> Seq<char> {
    prefix + (if is_last {
        "└── "@
    } else {
        "├── "@
    }) + (if is_dir {
        "📁"@
    } else {
        "📄"@
    }) + seq![' '] + name + seq!['\n']
}

/// The prefix of the lines below an entry.
pub open spec fn child_prefix(prefix: Seq<char>, is_last: bool) -> Seq<char> {
    prefix + (if is_last {
        "    "@
    } else {
        "│   "@
    })
}

/// The text of an entry and, for a directory, of its arranged children, down to the deepest level.
/// An entry that a pattern matches is left out with everything below it.
pub open spec fn render_fs(node: DirNode, prefix: Seq<char>, is_last: bool, depth: int, pats: Seq<Seq<char>>) -> Seq<char>
    decreases 11 - depth, 0int, 0int,
{
    if depth < 0 || depth > 10 {
        Seq::empty()
    } else if any_glob_accepts(pats, node.name@) {
        Seq::empty()
    } else {
        tree_line(prefix, is_last, node.is_dir, node.name@) + if node.is_dir {
            render_fs_list(
                arranged(node.children@, pats),
                child_prefix(prefix, is_last),
                0,
                depth + 1,
                pats,
            )
        } else {
            Seq::empty()
        }
    }
}

/// The text of the entries `cs[i..]`, the last one drawn as the last child.
pub open spec fn render_fs_list(cs: Seq<DirNode>, prefix: Seq<char>, i: int, depth: int, pats: Seq<Seq<char>>) -> Seq<char>
    decreases 11 - depth, 1int, cs.len() - i,
{
    if i < 0 || i >= cs.len() || depth > 11 {
        Seq::empty()
    } else {
        render_fs(cs[i], prefix, i == cs.len() - 1, depth, pats) + render_fs_list(
            cs,
            prefix,
            i + 1,
            depth,
            pats,
        )
    }
}

fn node_before(a: &DirNode, b: &DirNode) -> (r: bool)
    ensures
        r == dir_node_lt(*a, *b),
{
    let ka = chars_of(a.name.as_str());
    let kb = chars_of(b.name.as_str());
    if a.is_dir && !b.is_dir {
        true
    } else if !a.is_dir && b.is_dir {
        false
    } else {
        chars_lt(&ka, &kb)
    }
}

fn arrange(children: Vec<DirNode>, pats: &[GlobPattern]) -> (r: Vec<DirNode>)
    ensures
        r@ == arranged(children@, glob_sources(pats@)),
{
    let sorted = insertion_sort(
        children,
        node_before,
        Ghost(|a: DirNode, b: DirNode| dir_node_lt(a, b)),
    );
    let ghost s = sorted@;
    let mut sorted = sorted;
    let mut rev: Vec<DirNode> = Vec::new();
    while sorted.len() > 0
        invariant
            sorted@ + rev@.reverse() == s,
        decreases sorted@.len(),
    {
        let x = sorted.pop().unwrap();
        rev.push(x);
        assert(sorted@ + rev@.reverse() =~= s);
    }
    assert(rev@.reverse() =~= s);
    let mut kept: Vec<DirNode> = Vec::new();
    let mut n: usize = 0;
    assert(s.len() <= usize::MAX) by {
        assert(rev@.len() == rev.len());
    }
    while rev.len() > 0
        invariant
            rev@.reverse() == s.skip(n as int),
            n <= s.len(),
            s.len() <= usize::MAX,
            kept@ == unignored(s.take(n as int), glob_sources(pats@)),
        decreases rev@.len(),
    {
        let ghost r_old = rev@;
        let x = rev.pop().unwrap();
        proof {
            assert(r_old.reverse().len() > 0);
            assert(r_old.reverse()[0] == x);
            assert(s.skip(n as int)[0] == x);
            assert(rev@.reverse() =~= r_old.reverse().drop_first());
            assert(s.skip(n as int).drop_first() =~= s.skip(n + 1));
            assert(s.take(n + 1).drop_last() =~= s.take(n as int));
            assert(s.take(n + 1).last() == x);
        }
        if !any_glob_matches(pats, x.name.as_str()) {
            kept.push(x);
        }
        n += 1;
    }
    assert(s.take(n as int) =~= s);
    kept
}

fn render_node(out: &mut String, node: DirNode, prefix: &str, is_last: bool, depth: usize, pats: &[GlobPattern])
    ensures
        final(out)@ == old(out)@ + render_fs(node, prefix@, is_last, depth as int, glob_sources(pats@)),
    decreases 11 - depth,
{
    if depth > MAX_TREE_DEPTH {
        return;
    }
    if any_glob_matches(pats, node.name.as_str()) {
        return;
    }
    let ghost node0 = node;
    push_str(out, prefix);
    if is_last {
        push_str(out, "└── ");
    } else {
        push_str(out, "├── ");
    }
    if node.is_dir {
        push_str(out, "📁");
    } else {
        push_str(out, "📄");
    }
    push_str(out, " ");
    push_str(out, node.name.as_str());
    push_str(out, "\n");
    proof {
        reveal_strlit(" ");
        reveal_strlit("\n");
    }
    assert(out@ =~= old(out)@ + tree_line(prefix@, is_last, node.is_dir, node.name@));
    if node.is_dir {
        let mut new_prefix = String::new();
        push_str(&mut new_prefix, prefix);
        if is_last {
            push_str(&mut new_prefix, "    ");
        } else {
            push_str(&mut new_prefix, "│   ");
        }
        let ghost cp = child_prefix(prefix@, is_last);
        assert(new_prefix@ =~= cp);
        let kids = arrange(node.children, pats);
        let ghost ks = kids@;
        let count = kids.len();
        let mut kids = kids;
        let mut rev: Vec<DirNode> = Vec::new();
        while kids.len() > 0
            invariant
                kids@ + rev@.reverse() == ks,
            decreases kids@.len(),
        {
            let x = kids.pop().unwrap();
            rev.push(x);
            assert(kids@ + rev@.reverse() =~= ks);
        }
        assert(rev@.reverse() =~= ks);
        let ghost before = out@;
        let mut i: usize = 0;
        while rev.len() > 0
            invariant
                rev@.reverse() == ks.skip(i as int),
                i <= ks.len(),
                count == ks.len(),
                depth <= MAX_TREE_DEPTH,
                new_prefix@ == cp,
                out@ + render_fs_list(ks, cp, i as int, depth + 1, glob_sources(pats@))
                    == before + render_fs_list(ks, cp, 0, depth + 1, glob_sources(pats@)),
            decreases rev@.len(),
        {
            let ghost r_old = rev@;
            let x = rev.pop().unwrap();
            proof {
                assert(r_old.reverse().len() > 0);
                assert(r_old.reverse()[0] == x);
                assert(ks.skip(i as int)[0] == x);
                assert(rev@.reverse() =~= r_old.reverse().drop_first());
                assert(ks.skip(i as int).drop_first() =~= ks.skip(i + 1));
            }
            let ghost o1 = out@;
            render_node(out, x, new_prefix.as_str(), i + 1 == count, depth + 1, pats);
            assert(o1 + render_fs_list(ks, cp, i as int, depth + 1, glob_sources(pats@)) =~= out@
                + render_fs_list(ks, cp, i + 1, depth + 1, glob_sources(pats@)));
            i += 1;
        }
        assert(out@ =~= before + render_fs_list(ks, cp, 0, depth + 1, glob_sources(pats@)));
    } else {
        assert(out@ =~= old(out)@ + render_fs(node0, prefix@, is_last, depth as int, glob_sources(pats@)));
    }
}

/// The text of a directory tree: one line per entry, directories first and then by name,
/// down to ten levels below the root.
pub fn generate_tree_string(root: DirNode) -> (r: String)
    ensures
        r@ == render_fs(root, Seq::empty(), true, 0, Seq::empty()),
{
    let mut out = String::new();
    let none: Vec<GlobPattern> = Vec::new();
    render_node(&mut out, root, "", true, 0, none.as_slice());
    proof {
        reveal_strlit("");
    }
    assert(glob_sources(none@) =~= Seq::<Seq<char>>::empty());
    out
}

/// The text of a directory tree with the entries that match an ignore pattern left out,
/// together with everything below them; patterns that do not compile are skipped.
pub fn generate_filtered_tree_string(root: DirNode, ignore_patterns: &Vec<String>) -> (r: String)
    ensures
        r@ == render_fs(root, Seq::empty(), true, 0, compiling_globs(views(ignore_patterns@))),
{
    let pats = compile_globs(ignore_patterns.as_slice());
    let mut out = String::new();
    render_node(&mut out, root, "", true, 0, pats.as_slice());
    proof {
        reveal_strlit("");
    }
    out
}

/// Two entries that differ only inside ignored entries: the same name and kind, and, unless
/// a pattern ignores the entry, children that correspond one to one in the same way.
pub open spec fn alike_outside_ignored(a: DirNode, b: DirNode, pats: Seq<Seq<char>>) -> bool
    decreases a,
{
    &&& a.name@ == b.name@
    &&& a.is_dir == b.is_dir
    &&& (any_glob_accepts(pats, a.name@) || {
        &&& a.children@.len() == b.children@.len()
        &&& forall|i: int|
            0 <= i < a.children@.len() ==> alike_outside_ignored(
                #[trigger] a.children@[i],
                b.children@[i],
                pats,
            )
    })
}

proof fn lemma_unignored_related(s: Seq<DirNode>, t: Seq<DirNode>, pats: Seq<Seq<char>>)
    requires
        s.len() == t.len(),
        forall|i: int| 0 <= i < s.len() ==> #[trigger] alike_outside_ignored(s[i], t[i], pats),
    ensures
        unignored(s, pats).len() == unignored(t, pats).len(),
        forall|i: int|
            0 <= i < unignored(s, pats).len() ==> #[trigger] alike_outside_ignored(
                unignored(s, pats)[i],
                unignored(t, pats)[i],
                pats,
            ),
    decreases s.len(),
{
    if s.len() > 0 {
        let k = s.len() - 1;
        assert(alike_outside_ignored(s[k], t[k], pats));
        assert forall|i: int| 0 <= i < s.drop_last().len() implies #[trigger] alike_outside_ignored(
            s.drop_last()[i],
            t.drop_last()[i],
            pats,
        ) by {
            assert(s.drop_last()[i] == s[i] && t.drop_last()[i] == t[i]);
        }
        lemma_unignored_related(s.drop_last(), t.drop_last(), pats);
    }
}

proof fn lemma_arranged_related(a: Seq<DirNode>, b: Seq<DirNode>, pats: Seq<Seq<char>>)
    requires
        a.len() == b.len(),
        forall|i: int| 0 <= i < a.len() ==> #[trigger] alike_outside_ignored(a[i], b[i], pats),
    ensures
        arranged(a, pats).len() == arranged(b, pats).len(),
        forall|i: int|
            0 <= i < arranged(a, pats).len() ==> #[trigger] alike_outside_ignored(
                arranged(a, pats)[i],
                arranged(b, pats)[i],
                pats,
            ),
{
    let lt = |x: DirNode, y: DirNode| dir_node_lt(x, y);
    let rel = |x: DirNode, y: DirNode| alike_outside_ignored(x, y, pats);
    assert forall|x: DirNode, y: DirNode, z: DirNode, w: DirNode| #[trigger] rel(x, z) && #[trigger] rel(y, w)
        implies lt(x, y) == lt(z, w) by {}
    assert forall|i: int| 0 <= i < a.len() implies #[trigger] rel(a[i], b[i]) by {
        assert(alike_outside_ignored(a[i], b[i], pats));
    }
    lemma_sort_related(a, b, lt, rel);
    let sa = sort_by(a, lt);
    let sb = sort_by(b, lt);
    assert forall|i: int| 0 <= i < sa.len() implies #[trigger] alike_outside_ignored(sa[i], sb[i], pats) by {
        assert(rel(sa[i], sb[i]));
    }
    lemma_unignored_related(sa, sb, pats);
}

proof fn lemma_render_alike(a: DirNode, b: DirNode, prefix: Seq<char>, is_last: bool, depth: int, pats: Seq<Seq<char>>)
    requires
        alike_outside_ignored(a, b, pats),
    ensures
        render_fs(a, prefix, is_last, depth, pats) == render_fs(b, prefix, is_last, depth, pats),
    decreases 11 - depth, 0int, 0int,
{
    if 0 <= depth <= 10 && !any_glob_accepts(pats, a.name@) && a.is_dir {
        lemma_arranged_related(a.children@, b.children@, pats);
        lemma_render_list_alike(
            arranged(a.children@, pats),
            arranged(b.children@, pats),
            child_prefix(prefix, is_last),
            0,
            depth + 1,
            pats,
        );
    }
}

proof fn lemma_render_list_alike(cs: Seq<DirNode>, ds: Seq<DirNode>, prefix: Seq<char>, i: int, depth: int, pats: Seq<Seq<char>>)
    requires
        cs.len() == ds.len(),
        forall|j: int| 0 <= j < cs.len() ==> #[trigger] alike_outside_ignored(cs[j], ds[j], pats),
    ensures
        render_fs_list(cs, prefix, i, depth, pats) == render_fs_list(ds, prefix, i, depth, pats),
    decreases 11 - depth, 1int, cs.len() - i,
{
    if 0 <= i < cs.len() && depth <= 11 {
        assert(alike_outside_ignored(cs[i], ds[i], pats));
        lemma_render_alike(cs[i], ds[i], prefix, i == cs.len() - 1, depth, pats);
        lemma_render_list_alike(cs, ds, prefix, i + 1, depth, pats);
    }
}

/// Ignore patterns act at every depth: an entry that a pattern matches is drawn with nothing
/// of what it holds, wherever it lies in the tree, so two trees that differ only inside
/// ignored entries (at any depth) are drawn the same; and an ignored entry itself draws
/// nothing.
pub proof fn law_ignored_entries_hidden_at_any_depth(a: DirNode, b: DirNode, pats: Seq<Seq<char>>)
    requires
        alike_outside_ignored(a, b, pats),
    ensures
        render_fs(a, Seq::empty(), true, 0, pats) == render_fs(b, Seq::empty(), true, 0, pats),
        forall|n: DirNode, prefix: Seq<char>, is_last: bool, depth: int|
            any_glob_accepts(pats, n.name@) ==> #[trigger] render_fs(n, prefix, is_last, depth, pats).len() == 0,
{
    lemma_render_alike(a, b, Seq::empty(), true, 0, pats);
}

} // verus!
