//! Path text operations on canonical paths: absolute, `/`-separated, without `.` or `..`
//! components and without repeated or trailing separators (except the root `/` itself).

use vstd::prelude::*;
use crate::text::{chars_of, string_from_chars};

verus! {

/// Index of the last occurrence of `c` in `s`, or -1 when there is none.
pub open spec fn last_index_of(s: Seq<char>, c: char) -> int
    decreases s.len(),
{
    if s.len() == 0 {
        -1
    } else if s.last() == c {
        s.len() - 1
    } else {
        last_index_of(s.drop_last(), c)
    }
}

/// Whether `s` starts with `p`.
pub open spec fn starts_with(s: Seq<char>, p: Seq<char>) -> bool {
    p.len() <= s.len() && s.take(p.len() as int) == p
}

/// The last component of a path, as `Path::file_name` gives it: none for the root and for `..`.
pub open spec fn file_name_of(p: Seq<char>) -> Option<Seq<char>> {
    let name = p.skip(last_index_of(p, '/') + 1);
    if name.len() == 0 || name == seq!['.', '.'] {
        None
    } else {
        Some(name)
    }
}

/// The extension of a file name, as `Path::extension` gives it: the text after the last `.`,
/// none when there is no `.`, when the only `.` leads the name, or for `..`.
pub open spec fn extension_of_name(name: Seq<char>) -> Option<Seq<char>> {
    let i = last_index_of(name, '.');
    if name == seq!['.', '.'] || i <= 0 {
        None
    } else {
        Some(name.skip(i + 1))
    }
}

/// The extension of a path's file name.
pub open spec fn extension_of_path(p: Seq<char>) -> Option<Seq<char>> {
    match file_name_of(p) {
        Some(name) => extension_of_name(name),
        None => None,
    }
}

/// A path relative to `root`, as `path.strip_prefix(root).unwrap_or(path)` gives it:
/// the part after the root's components when the root is a component-wise prefix, else the path.
pub open spec fn relative_to(path: Seq<char>, root: Seq<char>) -> Seq<char> {
    if path == root {
        Seq::empty()
    } else if root.len() > 0 && root.last() == '/' && starts_with(path, root) {
        path.skip(root.len() as int)
    } else if starts_with(path, root.push('/')) {
        path.skip((root.len() + 1) as int)
    } else {
        path
    }
}

fn last_index(v: &Vec<char>, c: char) -> (r: Option<usize>)
    ensures
        r matches Some(i) ==> i < v.len() && i as int == last_index_of(v@, c),
        r is None ==> last_index_of(v@, c) == -1,
{
    let mut i = v.len();
    assert(v@.take(i as int) =~= v@);
    while i > 0
        invariant
            i <= v@.len(),
            last_index_of(v@, c) == last_index_of(v@.take(i as int), c),
        decreases i,
    {
        assert(v@.take(i as int).drop_last() =~= v@.take(i - 1));
        if v[i - 1] == c {
            return Some(i - 1);
        }
        i -= 1;
    }
    None
}

fn seq_starts_with(s: &Vec<char>, p: &Vec<char>) -> (r: bool)
    ensures
        r == starts_with(s@, p@),
{
    if p.len() > s.len() {
        return false;
    }
    for i in 0..p.len()
        invariant
            p@.len() <= s@.len(),
            forall|j: int| 0 <= j < i ==> s@[j] == p@[j],
    {
        if s[i] != p[i] {
            assert(s@.take(p@.len() as int)[i as int] != p@[i as int]);
            return false;
        }
    }
    assert(s@.take(p@.len() as int) =~= p@);
    true
}

fn skip_chars(v: &Vec<char>, k: usize) -> (r: Vec<char>)
    requires
        k <= v@.len(),
    ensures
        r@ == v@.skip(k as int),
{
    let mut r: Vec<char> = Vec::new();
    let mut i = k;
    while i < v.len()
        invariant
            k <= i <= v@.len(),
            r@ == v@.subrange(k as int, i as int),
        decreases v@.len() - i,
    {
        r.push(v[i]);
        i += 1;
        assert(r@ =~= v@.subrange(k as int, i as int));
    }
    assert(r@ =~= v@.skip(k as int));
    r
}

/// Whether the characters are `..`.
pub(crate) fn is_dot_dot(v: &Vec<char>) -> (r: bool)
    ensures
        r == (v@ == seq!['.', '.']),
{
    let r = v.len() == 2 && v[0] == '.' && v[1] == '.';
    if r {
        assert(v@ =~= seq!['.', '.']);
    }
    r
}

/// The last component of a path, if it has one.
pub fn file_name(path: &str) -> (r: Option<String>)
    ensures
        match r {
            Some(n) => file_name_of(path@) == Some(n@),
            None => file_name_of(path@) is None,
        },
{
    let v = chars_of(path);
    let start = match last_index(&v, '/') {
        Some(i) => i + 1,
        None => 0,
    };
    let name = skip_chars(&v, start);
    if name.len() == 0 || is_dot_dot(&name) {
        None
    } else {
        Some(string_from_chars(name.as_slice()))
    }
}

/// The extension of a path's file name, if it has one.
pub fn extension(path: &str) -> (r: Option<String>)
    ensures
        match r {
            Some(e) => extension_of_path(path@) == Some(e@),
            None => extension_of_path(path@) is None,
        },
{
    match file_name(path) {
        None => None,
        Some(name) => {
            let v = chars_of(name.as_str());
            if is_dot_dot(&v) {
                return None;
            }
            match last_index(&v, '.') {
                None => None,
                Some(i) => {
                    if i == 0 {
                        None
                    } else {
                        let e = skip_chars(&v, i + 1);
                        Some(string_from_chars(e.as_slice()))
                    }
                },
            }
        },
    }
}

/// The path relative to `root` when `root` is a component-wise prefix of it, else the path itself.
pub fn relative_path(path: &str, root: &str) -> (r: String)
    ensures
        r@ == relative_to(path@, root@),
{
    let p = chars_of(path);
    let rt = chars_of(root);
    if p.len() == rt.len() && seq_starts_with(&p, &rt) {
        assert(p@ =~= rt@);
        return String::new();
    }
    proof {
        if p@ == rt@ {
            assert(p@.take(rt@.len() as int) =~= p@);
        }
    }
    if rt.len() > 0 && rt[rt.len() - 1] == '/' && seq_starts_with(&p, &rt) {
        let rest = skip_chars(&p, rt.len());
        return string_from_chars(rest.as_slice());
    }
    let mut rs = rt.clone();
    rs.push('/');
    if seq_starts_with(&p, &rs) {
        let rest = skip_chars(&p, rs.len());
        return string_from_chars(rest.as_slice());
    }
    string_from_chars(p.as_slice())
}

/// Whether `path` lies within `root` (component-wise): it is `root` itself or below it.
pub open spec fn within(path: Seq<char>, root: Seq<char>) -> bool {
    path == root || (root.len() > 0 && root.last() == '/' && starts_with(path, root)) || starts_with(
        path,
        root.push('/'),
    )
}

/// Whether a path lies within a root directory, component-wise.
pub fn is_within(path: &str, root: &str) -> (r: bool)
    ensures
        r == within(path@, root@),
{
    let p = chars_of(path);
    let rt = chars_of(root);
    if p.len() == rt.len() && seq_starts_with(&p, &rt) {
        assert(p@ =~= rt@);
        return true;
    }
    proof {
        if p@ == rt@ {
            assert(p@.take(rt@.len() as int) =~= p@);
        }
    }
    if rt.len() > 0 && rt[rt.len() - 1] == '/' && seq_starts_with(&p, &rt) {
        return true;
    }
    let mut rs = rt.clone();
    rs.push('/');
    seq_starts_with(&p, &rs)
}

/// `base` with the relative path `name` appended, as `PathBuf::join` does it on Unix:
/// a separator goes between them unless `base` is empty or already ends with one.
pub open spec fn path_join(base: Seq<char>, name: Seq<char>) -> Seq<char> {
    if base.len() == 0 || base.last() == '/' {
        base + name
    } else {
        base.push('/') + name
    }
}

/// Appends a relative path to a base path.
pub fn join_path(base: &str, name: &str) -> (r: String)
    ensures
        r@ == path_join(base@, name@),
{
    let b = chars_of(base);
    let mut out = string_from_chars(b.as_slice());
    if b.len() > 0 && b[b.len() - 1] != '/' {
        crate::text::push_str(&mut out, "/");
        proof {
            reveal_strlit("/");
        }
        assert(out@ =~= base@.push('/'));
    }
    crate::text::push_str(&mut out, name);
    out
}

} // verus!
