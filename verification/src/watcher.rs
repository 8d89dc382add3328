//! Filesystem change events: debouncing and merging what the watcher reported.
//!
//! Paths are compared as `std::path::Path` compares them on Unix: by their components,
//! so that `a/b`, `a//b`, `a/./b` and `a/b/` are the same path.

use vstd::prelude::*;
use crate::order::{chars_lt, lemma_seq_lt_order, seq_lt};
use crate::paths::is_dot_dot;
use crate::sort::{insertion_sort, lemma_sort_sorted, sort_by, sorted_by, strict_weak_order};
use crate::text::{chars_of, join, join_strings, split_on, split_pieces, views};

verus! {

/// Events from the filesystem watcher.
#[derive(Debug, Clone)]
pub enum WatcherEvent {
    /// Files have changed in the watched directory
    Changed(Vec<String>),
    /// An error occurred while watching
    Error(String),
}

/// Time within which a second batch of events is held back, in milliseconds.
pub const DEBOUNCE_MS: u64 = 500;

/// A component of a Unix path.
pub enum Component {
    /// The leading `/`
    RootDir,
    /// A leading `.`
    CurDir,
    /// `..`
    ParentDir,
    /// Any other name
    Normal(Seq<char>),
}

/// The components that the pieces between separators give: empty pieces and `.` are
/// skipped, `..` is the parent, anything else a name.
pub open spec fn body_components(segs: Seq<Seq<char>>) -> Seq<Component>
    decreases segs.len(),
{
    if segs.len() == 0 {
        Seq::empty()
    } else {
        let prev = body_components(segs.drop_last());
        let s = segs.last();
        if s.len() == 0 || s == seq!['.'] {
            prev
        } else if s == seq!['.', '.'] {
            prev.push(Component::ParentDir)
        } else {
            prev.push(Component::Normal(s))
        }
    }
}

/// The components of a path, as `Path::components` yields them on Unix: the root first
/// for an absolute path, a `.` kept only at the start of a relative path, then the names.
pub open spec fn components(p: Seq<char>) -> Seq<Component> {
    let segs = split_on(p, '/');
    let rooted = p.len() > 0 && p[0] == '/';
    let head: Seq<Component> = if rooted {
        seq![Component::RootDir]
    } else if segs[0] == seq!['.'] {
        seq![Component::CurDir]
    } else {
        Seq::empty()
    };
    head + body_components(segs)
}

/// The rank of a component's kind, in the order `Component` derives.
pub open spec fn rank(c: Component) -> int {
    match c {
        Component::RootDir => 0,
        Component::CurDir => 1,
        Component::ParentDir => 2,
        Component::Normal(_) => 3,
    }
}

/// Strict order of components: by kind, names by code point.
pub open spec fn component_lt(a: Component, b: Component) -> bool {
    if rank(a) != rank(b) {
        rank(a) < rank(b)
    } else {
        match (a, b) {
            (Component::Normal(x), Component::Normal(y)) => seq_lt(x, y),
            _ => false,
        }
    }
}

/// Strict lexicographic order of component sequences.
pub open spec fn components_lt(a: Seq<Component>, b: Seq<Component>) -> bool
    decreases a.len(),
{
    if a.len() == 0 {
        b.len() > 0
    } else if b.len() == 0 {
        false
    } else if component_lt(a[0], b[0]) {
        true
    } else if component_lt(b[0], a[0]) {
        false
    } else {
        components_lt(a.drop_first(), b.drop_first())
    }
}

/// Strict order of paths, as `Path` orders them.
pub open spec fn path_lt(a: Seq<char>, b: Seq<char>) -> bool {
    components_lt(components(a), components(b))
}

/// The paths of a sorted list without the repeats of a path directly before: the first
/// of each run of equal paths stays, as `Vec::dedup` leaves it.
pub open spec fn dedup_paths(s: Seq<Seq<char>>) -> Seq<Seq<char>>
    decreases s.len(),
{
    if s.len() == 0 {
        Seq::empty()
    } else {
        let prev = dedup_paths(s.drop_last());
        if prev.len() > 0 && components(prev.last()) == components(s.last()) {
            prev
        } else {
            prev.push(s.last())
        }
    }
}

/// The changed paths of a batch, in order.
pub open spec fn changed_paths(events: Seq<WatcherEvent>) -> Seq<Seq<char>>
    decreases events.len(),
{
    if events.len() == 0 {
        Seq::empty()
    } else {
        match events.last() {
            WatcherEvent::Changed(paths) => changed_paths(events.drop_last()) + views(paths@),
            WatcherEvent::Error(_) => changed_paths(events.drop_last()),
        }
    }
}

/// The error messages of a batch, in order.
pub open spec fn error_messages(events: Seq<WatcherEvent>) -> Seq<Seq<char>>
    decreases events.len(),
{
    if events.len() == 0 {
        Seq::empty()
    } else {
        match events.last() {
            WatcherEvent::Changed(_) => error_messages(events.drop_last()),
            WatcherEvent::Error(e) => error_messages(events.drop_last()).push(e@),
        }
    }
}

/// What a merged batch reports: the errors joined by `, ` if there was any error;
/// otherwise the changed paths sorted and without repeats, if there was any; else nothing.
pub enum MergedView {
    /// Nothing to report
    Quiet,
    /// The joined error messages
    Failure(Seq<char>),
    /// The changed paths
    Changes(Seq<Seq<char>>),
}

/// The view of a merge result.
pub open spec fn merged_view(r: Option<WatcherEvent>) -> MergedView {
    match r {
        None => MergedView::Quiet,
        Some(WatcherEvent::Error(e)) => MergedView::Failure(e@),
        Some(WatcherEvent::Changed(paths)) => MergedView::Changes(views(paths@)),
    }
}

/// What merging a batch of events reports.
pub open spec fn merge_of(events: Seq<WatcherEvent>) -> MergedView {
    let errors = error_messages(events);
    let paths = changed_paths(events);
    if errors.len() > 0 {
        MergedView::Failure(join(errors, ", "@))
    } else if paths.len() > 0 {
        MergedView::Changes(dedup_paths(sort_by(paths, |a: Seq<char>, b: Seq<char>| path_lt(a, b))))
    } else {
        MergedView::Quiet
    }
}

/// A path component as the code holds it.
enum Comp {
    Root,
    Cur,
    Parent,
    Name(Vec<char>),
}

spec fn comp_view(c: Comp) -> Component {
    match c {
        Comp::Root => Component::RootDir,
        Comp::Cur => Component::CurDir,
        Comp::Parent => Component::ParentDir,
        Comp::Name(v) => Component::Normal(v@),
    }
}

spec fn comp_views(s: Seq<Comp>) -> Seq<Component> {
    s.map_values(|c: Comp| comp_view(c))
}

fn is_dot(v: &Vec<char>) -> (r: bool)
    ensures
        r == (v@ == seq!['.']),
{
    let r = v.len() == 1 && v[0] == '.';
    proof {
        let dot: Seq<char> = seq!['.'];
        assert(dot.len() == 1 && dot[0] == '.');
        if r {
            assert(v@ =~= dot);
        }
    }
    r
}

proof fn lemma_split_starts(s: Seq<char>, sep: char)
    ensures
        split_on(s, sep).len() >= 1,
        s.len() > 0 && s[0] == sep ==> split_on(s, sep).len() >= 2 && split_on(s, sep)[0].len() == 0,
    decreases s.len(),
{
    if s.len() > 0 {
        lemma_split_starts(s.drop_last(), sep);
        if s.len() > 1 && s[0] == sep {
            assert(s.drop_last()[0] == sep);
        }
    }
}

/// The components of a path.
fn path_components(p: &str) -> (r: Vec<Comp>)
    ensures
        comp_views(r@) == components(p@),
{
    let v = chars_of(p);
    let segs = split_pieces(&v, '/');
    proof {
        lemma_split_starts(v@, '/');
    }
    let ghost segs_view = split_on(p@, '/');
    let mut r: Vec<Comp> = Vec::new();
    let rooted = v.len() > 0 && v[0] == '/';
    if rooted {
        r.push(Comp::Root);
    } else if is_dot(&segs[0]) {
        r.push(Comp::Cur);
    }
    let ghost head = comp_views(r@);
    assert(head == components(p@).take(head.len() as int)) by {
        assert(segs@[0]@ == segs_view[0]);
    }
    assert(body_components(segs_view.take(0)) =~= Seq::<Component>::empty());
    for i in 0..segs.len()
        invariant
            segs@.len() == segs_view.len(),
            forall|k: int| 0 <= k < segs@.len() ==> #[trigger] segs@[k]@ == segs_view[k],
            segs_view == split_on(p@, '/'),
            comp_views(r@) == head + body_components(segs_view.take(i as int)),
    {
        assert(segs_view.take(i + 1).drop_last() =~= segs_view.take(i as int));
        assert(segs_view.take(i + 1).last() == segs@[i as int]@);
        let s = &segs[i];
        if s.len() == 0 || is_dot(s) {
        } else if is_dot_dot(s) {
            let ghost prev = comp_views(r@);
            r.push(Comp::Parent);
            assert(comp_views(r@) =~= prev.push(Component::ParentDir));
            assert(body_components(segs_view.take(i + 1)) == body_components(segs_view.take(i as int)).push(Component::ParentDir));
            assert(comp_views(r@) =~= head + body_components(segs_view.take(i + 1)));
        } else {
            let ghost prev = comp_views(r@);
            let name = s.clone();
            assert(name@ =~= s@);
            r.push(Comp::Name(name));
            assert(comp_views(r@) =~= prev.push(Component::Normal(s@)));
            assert(body_components(segs_view.take(i + 1)) == body_components(segs_view.take(i as int)).push(Component::Normal(s@)));
            assert(comp_views(r@) =~= head + body_components(segs_view.take(i + 1)));
        }
    }
    assert(segs_view.take(segs_view.len() as int) =~= segs_view);
    assert(comp_views(r@) =~= components(p@));
    r
}

fn comp_rank(c: &Comp) -> (r: u8)
    ensures
        r == rank(comp_view(*c)),
{
    match c {
        Comp::Root => 0,
        Comp::Cur => 1,
        Comp::Parent => 2,
        Comp::Name(_) => 3,
    }
}

fn comp_less(a: &Comp, b: &Comp) -> (r: bool)
    ensures
        r == component_lt(comp_view(*a), comp_view(*b)),
{
    let ra = comp_rank(a);
    let rb = comp_rank(b);
    if ra != rb {
        ra < rb
    } else {
        match (a, b) {
            (Comp::Name(x), Comp::Name(y)) => chars_lt(x, y),
            _ => false,
        }
    }
}

fn comps_less(a: &Vec<Comp>, b: &Vec<Comp>) -> (r: bool)
    ensures
        r == components_lt(comp_views(a@), comp_views(b@)),
{
    let mut i: usize = 0;
    assert(comp_views(a@).skip(0) =~= comp_views(a@) && comp_views(b@).skip(0) =~= comp_views(b@));
    while i < a.len() && i < b.len()
        invariant
            i <= a@.len(),
            i <= b@.len(),
            forall|k: int|
                0 <= k < i ==> !component_lt(comp_view(#[trigger] a@[k]), comp_view(b@[k]))
                    && !component_lt(comp_view(b@[k]), comp_view(a@[k])),
            components_lt(comp_views(a@), comp_views(b@)) == components_lt(
                comp_views(a@).skip(i as int),
                comp_views(b@).skip(i as int),
            ),
        decreases a@.len() - i,
    {
        let ghost sa = comp_views(a@).skip(i as int);
        let ghost sb = comp_views(b@).skip(i as int);
        assert(sa[0] == comp_view(a@[i as int]));
        assert(sb[0] == comp_view(b@[i as int]));
        if comp_less(&a[i], &b[i]) {
            return true;
        }
        if comp_less(&b[i], &a[i]) {
            return false;
        }
        assert(sa.drop_first() =~= comp_views(a@).skip(i + 1));
        assert(sb.drop_first() =~= comp_views(b@).skip(i + 1));
        i += 1;
    }
    let ghost sa = comp_views(a@).skip(i as int);
    let ghost sb = comp_views(b@).skip(i as int);
    i == a.len() && i < b.len()
}

/// Whether two character sequences are the same.
fn chars_same(x: &Vec<char>, y: &Vec<char>) -> (r: bool)
    ensures
        r == (x@ == y@),
{
    if x.len() != y.len() {
        return false;
    }
    for i in 0..x.len()
        invariant
            x@.len() == y@.len(),
            forall|k: int| 0 <= k < i ==> x@[k] == y@[k],
    {
        if x[i] != y[i] {
            return false;
        }
    }
    assert(x@ =~= y@);
    true
}

/// Whether two component lists are the same.
fn comps_same(a: &Vec<Comp>, b: &Vec<Comp>) -> (r: bool)
    ensures
        r == (comp_views(a@) == comp_views(b@)),
{
    if a.len() != b.len() {
        assert(comp_views(a@).len() != comp_views(b@).len());
        return false;
    }
    for i in 0..a.len()
        invariant
            a@.len() == b@.len(),
            forall|k: int| 0 <= k < i ==> comp_view(#[trigger] a@[k]) == comp_view(b@[k]),
    {
        let same = match (&a[i], &b[i]) {
            (Comp::Root, Comp::Root) => true,
            (Comp::Cur, Comp::Cur) => true,
            (Comp::Parent, Comp::Parent) => true,
            (Comp::Name(x), Comp::Name(y)) => chars_same(x, y),
            _ => false,
        };
        if !same {
            assert(comp_views(a@)[i as int] != comp_views(b@)[i as int]);
            return false;
        }
    }
    assert(comp_views(a@) =~= comp_views(b@));
    true
}

fn path_less(a: &String, b: &String) -> (r: bool)
    ensures
        r == path_lt(a@, b@),
{
    let ca = path_components(a.as_str());
    let cb = path_components(b.as_str());
    comps_less(&ca, &cb)
}

/// Merges a batch of events: errors win and are joined by `, `; otherwise the changed
/// paths are sorted by `Path` order and each path is kept once.
pub fn merge_events(events: Vec<WatcherEvent>) -> (r: Option<WatcherEvent>)
    ensures
        merged_view(r) == merge_of(events@),
{
    let mut all_paths: Vec<String> = Vec::new();
    let mut errors: Vec<String> = Vec::new();
    let ghost evs = events@;
    let mut events = events;
    let mut rest: Vec<WatcherEvent> = Vec::new();
    while events.len() > 0
        invariant
            evs == events@ + rest@.reverse(),
        decreases events@.len(),
    {
        let e = events.pop().unwrap();
        rest.push(e);
        assert(evs =~= events@ + rest@.reverse());
    }
    assert(rest@.reverse() =~= evs);
    let ghost n: int = 0;
    while rest.len() > 0
        invariant
            0 <= n <= evs.len(),
            rest@.reverse() == evs.skip(n),
            views(all_paths@) == changed_paths(evs.take(n)),
            views(errors@) == error_messages(evs.take(n)),
        decreases rest@.len(),
    {
        let ghost before = rest@;
        let e = rest.pop().unwrap();
        proof {
            assert(before.reverse().len() == before.len());
            assert(evs.skip(n).len() > 0);
            assert(before.reverse()[0] == e);
            assert(evs.skip(n)[0] == e);
            assert(evs.take(n + 1).drop_last() =~= evs.take(n));
            assert(evs.take(n + 1).last() == e);
            assert(rest@.reverse() =~= before.reverse().drop_first());
            assert(evs.skip(n).drop_first() =~= evs.skip(n + 1));
        }
        match e {
            WatcherEvent::Changed(paths) => {
                let ghost p0 = views(all_paths@);
                let mut paths = paths;
                all_paths.append(&mut paths);
                proof {
                    assert(views(all_paths@) =~= p0 + views(paths@.take(0)) + views(
                        all_paths@.skip(p0.len() as int),
                    ));
                }
                assert(views(all_paths@) =~= changed_paths(evs.take(n + 1)));
            },
            WatcherEvent::Error(msg) => {
                errors.push(msg);
                assert(views(errors@) =~= error_messages(evs.take(n)).push(errors@.last()@));
            },
        }
        proof {
            n = n + 1;
        }
    }
    assert(evs.take(n) =~= evs);
    if errors.len() > 0 {
        let msg = join_strings(&errors, ", ");
        return Some(WatcherEvent::Error(msg));
    }
    if all_paths.len() == 0 {
        return None;
    }
    let ghost unsorted = all_paths@;
    let ghost lt = |a: String, b: String| path_lt(a@, b@);
    let sorted = insertion_sort(all_paths, path_less, Ghost(lt));
    proof {
        lemma_sort_views(unsorted);
    }
    let ghost sv = views(sorted@);
    let mut kept: Vec<String> = Vec::new();
    let mut kept_comps: Vec<Comp> = Vec::new();
    for i in 0..sorted.len()
        invariant
            sv == views(sorted@),
            views(kept@) == dedup_paths(sv.take(i as int)),
            kept@.len() > 0 ==> comp_views(kept_comps@) == components(kept@.last()@),
    {
        assert(sv.take(i + 1).drop_last() =~= sv.take(i as int));
        assert(sv.take(i + 1).last() == sorted@[i as int]@);
        let comps = path_components(sorted[i].as_str());
        let repeat = kept.len() > 0 && comps_same(&kept_comps, &comps);
        if !repeat {
            kept.push(sorted[i].clone());
            kept_comps = comps;
            assert(views(kept@) =~= dedup_paths(sv.take(i as int)).push(sorted@[i as int]@));
        }
    }
    assert(sv.take(sv.len() as int) =~= sv);
    Some(WatcherEvent::Changed(kept))
}

/// Sorting strings by `path_lt` sorts their views the same way.
proof fn lemma_sort_views(s: Seq<String>)
    ensures
        views(sort_by(s, |a: String, b: String| path_lt(a@, b@))) == sort_by(
            views(s),
            |a: Seq<char>, b: Seq<char>| path_lt(a, b),
        ),
    decreases s.len(),
{
    let lt1 = |a: String, b: String| path_lt(a@, b@);
    let lt2 = |a: Seq<char>, b: Seq<char>| path_lt(a, b);
    if s.len() > 0 {
        lemma_sort_views(s.drop_last());
        assert(views(s).drop_last() =~= views(s.drop_last()));
        lemma_insert_views(sort_by(s.drop_last(), lt1), s.last());
    }
}

proof fn lemma_insert_views(s: Seq<String>, x: String)
    ensures
        views(crate::sort::insert_by(s, x, |a: String, b: String| path_lt(a@, b@)))
            == crate::sort::insert_by(views(s), x@, |a: Seq<char>, b: Seq<char>| path_lt(a, b)),
    decreases s.len(),
{
    let lt1 = |a: String, b: String| path_lt(a@, b@);
    let lt2 = |a: Seq<char>, b: Seq<char>| path_lt(a, b);
    if s.len() == 0 {
        assert(views(seq![x]) =~= seq![x@]);
    } else {
        assert(views(s).drop_last() =~= views(s.drop_last()));
        assert(views(s).last() == s.last()@);
        if lt1(x, s.last()) {
            lemma_insert_views(s.drop_last(), x);
            assert(views(crate::sort::insert_by(s.drop_last(), x, lt1).push(s.last())) =~= views(
                crate::sort::insert_by(s.drop_last(), x, lt1),
            ).push(s.last()@));
        } else {
            assert(views(s.push(x)) =~= views(s).push(x@));
        }
    }
}

proof fn lemma_component_order(a: Component, b: Component, c: Component)
    ensures
        !component_lt(a, a),
        component_lt(a, b) && component_lt(b, c) ==> component_lt(a, c),
        a != b ==> component_lt(a, b) || component_lt(b, a),
        !(component_lt(a, b) && component_lt(b, a)),
{
    match (a, b, c) {
        (Component::Normal(x), Component::Normal(y), Component::Normal(z)) => {
            lemma_seq_lt_order(x, y, z);
        },
        (Component::Normal(x), Component::Normal(y), _) => {
            lemma_seq_lt_order(x, y, y);
        },
        (Component::Normal(x), _, _) => {
            lemma_seq_lt_order(x, x, x);
        },
        _ => {},
    }
}

proof fn lemma_components_order(a: Seq<Component>, b: Seq<Component>, c: Seq<Component>)
    ensures
        !components_lt(a, a),
        components_lt(a, b) && components_lt(b, c) ==> components_lt(a, c),
        a != b ==> components_lt(a, b) || components_lt(b, a),
        !(components_lt(a, b) && components_lt(b, a)),
    decreases a.len(),
{
    if a.len() > 0 {
        lemma_component_order(a[0], a[0], a[0]);
        lemma_components_order(a.drop_first(), a.drop_first(), a.drop_first());
        if b.len() > 0 {
            if c.len() > 0 {
                lemma_component_order(a[0], b[0], c[0]);
                lemma_component_order(b[0], c[0], a[0]);
                lemma_component_order(c[0], a[0], b[0]);
                lemma_components_order(a.drop_first(), b.drop_first(), c.drop_first());
            } else {
                lemma_component_order(a[0], b[0], b[0]);
                lemma_components_order(a.drop_first(), b.drop_first(), b.drop_first());
            }
            if a != b && a[0] == b[0] && a.drop_first() == b.drop_first() {
                assert(a =~= seq![a[0]] + a.drop_first());
                assert(b =~= seq![b[0]] + b.drop_first());
            }
        }
    } else if b.len() == 0 {
        assert(a =~= b);
    }
}

/// Path order is a strict weak order: paths with the same components are equivalent.
proof fn lemma_path_order()
    ensures
        strict_weak_order(|a: Seq<char>, b: Seq<char>| path_lt(a, b)),
{
    let lt = |a: Seq<char>, b: Seq<char>| path_lt(a, b);
    assert forall|a: Seq<char>| #![trigger lt(a, a)] !lt(a, a) by {
        lemma_components_order(components(a), components(a), components(a));
    }
    assert forall|a: Seq<char>, b: Seq<char>, c: Seq<char>| #![trigger lt(a, b), lt(b, c)] lt(a, b) && lt(b, c) implies lt(a, c) by {
        lemma_components_order(components(a), components(b), components(c));
    }
    assert forall|a: Seq<char>, b: Seq<char>, c: Seq<char>| #![trigger lt(a, c), lt(a, b), lt(b, c)] lt(a, c) implies lt(a, b) || lt(b, c) by {
        let (ka, kb, kc) = (components(a), components(b), components(c));
        lemma_components_order(ka, kb, kc);
        lemma_components_order(kb, kc, ka);
        lemma_components_order(kc, ka, kb);
        lemma_components_order(kb, ka, kc);
        lemma_components_order(ka, kc, kb);
        lemma_components_order(kc, kb, ka);
    }
}

/// Keeping the first of each run of equal paths in a sorted list leaves a strictly
/// ascending list, whose last path is the same as the input's last.
proof fn lemma_dedup_ascending(s: Seq<Seq<char>>)
    requires
        sorted_by(s, |a: Seq<char>, b: Seq<char>| path_lt(a, b)),
    ensures
        forall|i: int, j: int|
            0 <= i < j < dedup_paths(s).len() ==> path_lt(#[trigger] dedup_paths(s)[i], #[trigger] dedup_paths(s)[j]),
        s.len() > 0 ==> dedup_paths(s).len() > 0 && components(dedup_paths(s).last()) == components(s.last()),
    decreases s.len(),
{
    let lt = |a: Seq<char>, b: Seq<char>| path_lt(a, b);
    if s.len() > 0 {
        let d = s.drop_last();
        assert(sorted_by(d, lt)) by {
            assert forall|i: int, j: int| 0 <= i < j < d.len() implies !lt(#[trigger] d[j], #[trigger] d[i]) by {
                assert(d[i] == s[i] && d[j] == s[j]);
            }
        }
        lemma_dedup_ascending(d);
        let prev = dedup_paths(d);
        let r = dedup_paths(s);
        if prev.len() > 0 && components(prev.last()) == components(s.last()) {
            assert(r == prev);
        } else {
            assert(r == prev.push(s.last()));
            if prev.len() > 0 {
                let kl = components(prev.last());
                let ks = components(s.last());
                assert(!lt(s[s.len() - 1], s[s.len() - 2]));
                assert(components(d.last()) == kl);
                lemma_components_order(kl, ks, ks);
                assert(components_lt(kl, ks));
                assert forall|i: int, j: int| 0 <= i < j < r.len() implies path_lt(#[trigger] r[i], #[trigger] r[j]) by {
                    if j == r.len() - 1 {
                        if i < prev.len() - 1 {
                            assert(path_lt(prev[i], prev[prev.len() - 1]));
                            lemma_components_order(components(prev[i]), kl, ks);
                        }
                    } else {
                        assert(r[i] == prev[i] && r[j] == prev[j]);
                    }
                }
            }
        }
    }
}

/// The paths a merged batch reports are in strictly ascending `Path` order: sorted, and no
/// two of them are the same path.
pub proof fn law_merged_paths_ascending(events: Seq<WatcherEvent>)
    ensures
        merge_of(events) matches MergedView::Changes(paths) ==> forall|i: int, j: int|
            0 <= i < j < paths.len() ==> path_lt(#[trigger] paths[i], #[trigger] paths[j]),
{
    let lt = |a: Seq<char>, b: Seq<char>| path_lt(a, b);
    lemma_path_order();
    lemma_sort_sorted(changed_paths(events), lt);
    lemma_dedup_ascending(sort_by(changed_paths(events), lt));
}

/// What the debouncer does with the batch drained at `now`, given when it last reported
/// (`last`), the events it holds back (`pending`) and its window: the pending events and the
/// batch are taken together; nothing is reported when there are none, or while the window
/// since the last report is still open (they are all held back); otherwise they are merged
/// and reported, nothing is held back any more, and `now` becomes the last report.
/// The result is the new last report, the new held-back events and what is reported.
pub open spec fn debounce_step(
    last: Option<u64>,
    pending: Seq<WatcherEvent>,
    window: u64,
    events: Seq<WatcherEvent>,
    now: u64,
) -> (Option<u64>, Seq<WatcherEvent>, MergedView) {
    let all = pending + events;
    if all.len() == 0 {
        (last, all, MergedView::Quiet)
    } else if last matches Some(l) && (if now >= l { now - l } else { 0 }) < window {
        (last, all, MergedView::Quiet)
    } else {
        (Some(now), Seq::empty(), merge_of(all))
    }
}

/// Debounces batches of watcher events: a batch that comes within the window of the last
/// report is held back and reported, merged with what follows, once the window has passed.
#[derive(Debug)]
pub struct Debouncer {
    last_event: Option<u64>,
    debounce_ms: u64,
    pending: Vec<WatcherEvent>,
}

impl Debouncer {
    /// When the last batch was reported, in milliseconds of a monotonic clock.
    pub closed spec fn last_report(&self) -> Option<u64> {
        self.last_event
    }

    /// The debounce time in milliseconds.
    pub closed spec fn window(&self) -> u64 {
        self.debounce_ms
    }

    /// The events held back, not reported yet.
    pub closed spec fn held_back(&self) -> Seq<WatcherEvent> {
        self.pending@
    }

    /// A debouncer that has reported nothing yet and holds nothing back, with the given
    /// debounce time.
    pub fn new(debounce_ms: u64) -> (r: Self)
        ensures
            r.last_report() is None,
            r.held_back().len() == 0,
            r.window() == debounce_ms,
    {
        Debouncer { last_event: None, debounce_ms, pending: Vec::new() }
    }

    /// Forgets the last report and the held-back events, as when watching starts anew.
    pub fn reset(&mut self)
        ensures
            final(self).last_report() is None,
            final(self).held_back().len() == 0,
            final(self).window() == old(self).window(),
    {
        self.last_event = None;
        self.pending = Vec::new();
    }

    /// Takes the batch of events drained at `now_ms` (see `debounce_step`): the held-back
    /// events and the batch are reported together, merged, once the debounce time since the
    /// last report has passed; before that they are all held back for a later call.
    pub fn check_events(&mut self, events: Vec<WatcherEvent>, now_ms: u64) -> (r: Option<WatcherEvent>)
        ensures
            final(self).window() == old(self).window(),
            ({
                let step = debounce_step(
                    old(self).last_report(),
                    old(self).held_back(),
                    old(self).window(),
                    events@,
                    now_ms,
                );
                &&& final(self).last_report() == step.0
                &&& final(self).held_back() == step.1
                &&& merged_view(r) == step.2
            }),
    {
        let mut all: Vec<WatcherEvent> = Vec::new();
        std::mem::swap(&mut all, &mut self.pending);
        let mut events = events;
        all.append(&mut events);
        if all.len() == 0 {
            self.pending = all;
            return None;
        }
        match self.last_event {
            Some(last) => {
                if now_ms.saturating_sub(last) < self.debounce_ms {
                    self.pending = all;
                    return None;
                }
            },
            None => {},
        }
        self.last_event = Some(now_ms);
        merge_events(all)
    }
}

/// Nothing drained is lost: a non-empty batch held back within the window is reported, merged
/// with what was held before, by the first later call made once the window has passed, even
/// when that call drains no new event.
pub proof fn law_held_back_changes_are_reported_later(
    last: u64,
    pending: Seq<WatcherEvent>,
    window: u64,
    events: Seq<WatcherEvent>,
    now: u64,
    later: u64,
)
    requires
        events.len() > 0,
        last <= now,
        now - last < window,
        later >= last + window,
    ensures
        ({
            let first = debounce_step(Some(last), pending, window, events, now);
            let second = debounce_step(first.0, first.1, window, Seq::empty(), later);
            &&& first.2 == MergedView::Quiet
            &&& first.1 == pending + events
            &&& second.2 == merge_of(pending + events)
            &&& second.0 == Some(later)
            &&& second.1.len() == 0
        }),
{
    let all = pending + events;
    assert(all.len() > 0);
    assert(all + Seq::<WatcherEvent>::empty() =~= all);
}

} // verus!
