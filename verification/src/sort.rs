//! Stable insertion sort by a strict order.

use vstd::prelude::*;

verus! {

/// Inserts `x` into `sorted` after every element that `x` is not strictly before.
pub open spec fn insert_by<T>(sorted: Seq<T>, x: T, lt: spec_fn(T, T) -> bool) -> Seq<T>
    decreases sorted.len(),
{
    if sorted.len() == 0 {
        seq![x]
    } else if lt(x, sorted.last()) {
        insert_by(sorted.drop_last(), x, lt).push(sorted.last())
    } else {
        sorted.push(x)
    }
}

/// The stable sort of `s` by the strict order `lt`: elements are inserted one by one,
/// each after the elements it is not strictly before, as `slice::sort_by` orders them.
pub open spec fn sort_by<T>(s: Seq<T>, lt: spec_fn(T, T) -> bool) -> Seq<T>
    decreases s.len(),
{
    if s.len() == 0 {
        s
    } else {
        insert_by(sort_by(s.drop_last(), lt), s.last(), lt)
    }
}

proof fn lemma_insert_at<T>(sorted: Seq<T>, x: T, lt: spec_fn(T, T) -> bool, j: int)
    requires
        0 <= j <= sorted.len(),
        forall|k: int| j <= k < sorted.len() ==> lt(x, #[trigger] sorted[k]),
        j == 0 || !lt(x, sorted[j - 1]),
    ensures
        insert_by(sorted, x, lt) == sorted.take(j).push(x) + sorted.skip(j),
    decreases sorted.len(),
{
    if sorted.len() == 0 {
        assert(sorted.take(j).push(x) + sorted.skip(j) =~= seq![x]);
    } else if j == sorted.len() {
        assert(!lt(x, sorted.last()));
        assert(sorted.take(j) =~= sorted);
        assert(sorted.take(j).push(x) + sorted.skip(j) =~= sorted.push(x));
    } else {
        assert(lt(x, sorted.last()));
        let d = sorted.drop_last();
        assert forall|k: int| j <= k < d.len() implies lt(x, #[trigger] d[k]) by {
            assert(d[k] == sorted[k]);
        }
        if j > 0 {
            assert(d[j - 1] == sorted[j - 1]);
        }
        lemma_insert_at(d, x, lt, j);
        assert(d.take(j) =~= sorted.take(j));
        assert((d.take(j).push(x) + d.skip(j)).push(sorted.last()) =~= sorted.take(j).push(x)
            + sorted.skip(j));
    }
}

proof fn lemma_insert_permutes<T>(s: Seq<T>, x: T, lt: spec_fn(T, T) -> bool)
    ensures
        insert_by(s, x, lt).to_multiset() == s.to_multiset().insert(x),
    decreases s.len(),
{
    broadcast use vstd::seq_lib::to_multiset_build, vstd::multiset::group_multiset_axioms;

    if s.len() == 0 {
        assert(seq![x] =~= s.push(x));
    } else {
        let d = s.drop_last();
        assert(s =~= d.push(s.last()));
        if lt(x, s.last()) {
            lemma_insert_permutes(d, x, lt);
            assert(insert_by(s, x, lt).to_multiset() =~= s.to_multiset().insert(x));
        }
    }
}

/// Sorting keeps the elements: the sorted sequence holds each element as often as the input.
pub proof fn lemma_sort_permutes<T>(s: Seq<T>, lt: spec_fn(T, T) -> bool)
    ensures
        sort_by(s, lt).to_multiset() == s.to_multiset(),
    decreases s.len(),
{
    broadcast use vstd::seq_lib::to_multiset_build;

    if s.len() > 0 {
        lemma_sort_permutes(s.drop_last(), lt);
        lemma_insert_permutes(sort_by(s.drop_last(), lt), s.last(), lt);
        assert(s =~= s.drop_last().push(s.last()));
    }
}

/// A strict weak order: irreflexive, transitive, and whatever lies strictly between two
/// comparable elements is comparable to one of them.
pub open spec fn strict_weak_order<T>(lt: spec_fn(T, T) -> bool) -> bool {
    &&& forall|a: T| #![trigger lt(a, a)] !lt(a, a)
    &&& forall|a: T, b: T, c: T| #![trigger lt(a, b), lt(b, c)] lt(a, b) && lt(b, c) ==> lt(a, c)
    &&& forall|a: T, b: T, c: T| #![trigger lt(a, c), lt(a, b), lt(b, c)] lt(a, c) ==> lt(a, b) || lt(b, c)
}

/// No element is strictly before an earlier one.
pub open spec fn sorted_by<T>(s: Seq<T>, lt: spec_fn(T, T) -> bool) -> bool {
    forall|i: int, j: int| 0 <= i < j < s.len() ==> !lt(#[trigger] s[j], #[trigger] s[i])
}

proof fn lemma_insert_sorted<T>(s: Seq<T>, x: T, lt: spec_fn(T, T) -> bool, b: T)
    requires
        strict_weak_order(lt),
        sorted_by(s, lt),
    ensures
        sorted_by(insert_by(s, x, lt), lt),
        (forall|k: int| 0 <= k < s.len() ==> !lt(b, #[trigger] s[k])) && !lt(b, x) ==> forall|k: int|
            0 <= k < insert_by(s, x, lt).len() ==> !lt(b, #[trigger] insert_by(s, x, lt)[k]),
    decreases s.len(),
{
    let r = insert_by(s, x, lt);
    if s.len() == 0 {
        assert(r =~= seq![x]);
    } else {
        let d = s.drop_last();
        let last = s.last();
        assert(sorted_by(d, lt)) by {
            assert forall|i: int, j: int| 0 <= i < j < d.len() implies !lt(#[trigger] d[j], #[trigger] d[i]) by {
                assert(d[i] == s[i] && d[j] == s[j]);
            }
        }
        if lt(x, last) {
            lemma_insert_sorted(d, x, lt, last);
            lemma_insert_sorted(d, x, lt, b);
            let r1 = insert_by(d, x, lt);
            assert(r == r1.push(last));
            assert(!lt(last, x)) by {
                if lt(last, x) {
                    assert(lt(x, last) && lt(last, x));
                    assert(lt(x, x));
                }
            }
            assert forall|k: int| 0 <= k < d.len() implies !lt(last, #[trigger] d[k]) by {
                assert(d[k] == s[k]);
                assert(s[s.len() - 1] == last);
            }
            assert forall|i: int, j: int| 0 <= i < j < r.len() implies !lt(#[trigger] r[j], #[trigger] r[i]) by {
                if j == r.len() - 1 {
                    assert(r[j] == last);
                    assert(r[i] == r1[i]);
                } else {
                    assert(r[i] == r1[i] && r[j] == r1[j]);
                }
            }
            if (forall|k: int| 0 <= k < s.len() ==> !lt(b, #[trigger] s[k])) && !lt(b, x) {
                assert forall|k: int| 0 <= k < d.len() implies !lt(b, #[trigger] d[k]) by {
                    assert(d[k] == s[k]);
                }
                assert(!lt(b, s[s.len() - 1]));
                assert forall|k: int| 0 <= k < r.len() implies !lt(b, #[trigger] r[k]) by {
                    if k < r1.len() {
                        assert(r[k] == r1[k]);
                    }
                }
            }
        } else {
            assert(r == s.push(x));
            assert forall|i: int, j: int| 0 <= i < j < r.len() implies !lt(#[trigger] r[j], #[trigger] r[i]) by {
                if j == r.len() - 1 {
                    assert(r[j] == x);
                    assert(r[i] == s[i]);
                    if lt(x, s[i]) {
                        if i < s.len() - 1 {
                            assert(!lt(s[s.len() - 1], s[i]));
                        }
                        assert(lt(x, s[i]) ==> lt(x, last) || lt(last, s[i]));
                    }
                } else {
                    assert(r[i] == s[i] && r[j] == s[j]);
                }
            }
            if (forall|k: int| 0 <= k < s.len() ==> !lt(b, #[trigger] s[k])) && !lt(b, x) {
                assert forall|k: int| 0 <= k < r.len() implies !lt(b, #[trigger] r[k]) by {
                    if k < s.len() {
                        assert(r[k] == s[k]);
                    }
                }
            }
        }
    }
}

/// Sorting by a strict weak order gives a sorted sequence.
pub proof fn lemma_sort_sorted<T>(s: Seq<T>, lt: spec_fn(T, T) -> bool)
    requires
        strict_weak_order(lt),
    ensures
        sorted_by(sort_by(s, lt), lt),
    decreases s.len(),
{
    if s.len() > 0 {
        lemma_sort_sorted(s.drop_last(), lt);
        lemma_insert_sorted(sort_by(s.drop_last(), lt), s.last(), lt, s.last());
    }
}

/// Sorts `items` stably by `less`, which decides the strict order `lt`.
pub(crate) fn insertion_sort<T, F: Fn(&T, &T) -> bool>(
    items: Vec<T>,
    less: F,
    Ghost(lt): Ghost<spec_fn(T, T) -> bool>,
) -> (r: Vec<T>)
    requires
        forall|a: &T, b: &T| #[trigger] less.requires((a, b)),
        forall|a: &T, b: &T, o: bool| less.ensures((a, b), o) ==> o == lt(*a, *b),
    ensures
        r@ == sort_by(items@, lt),
{
    let mut items = items;
    let ghost input = items@;
    assert(input.len() <= usize::MAX) by {
        assert(items@.len() == items.len());
    }
    let mut reversed: Vec<T> = Vec::new();
    while items.len() > 0
        invariant
            items@ + reversed@.reverse() == input,
        decreases items@.len(),
    {
        let x = items.pop().unwrap();
        reversed.push(x);
        assert(items@ + reversed@.reverse() =~= input);
    }
    assert(reversed@.reverse() =~= input);
    let mut sorted: Vec<T> = Vec::new();
    let mut n: usize = 0;
    while reversed.len() > 0
        invariant
            forall|a: &T, b: &T| #[trigger] less.requires((a, b)),
            forall|a: &T, b: &T, o: bool| less.ensures((a, b), o) ==> o == lt(*a, *b),
            reversed@.reverse() == input.skip(n as int),
            n <= input.len(),
            input.len() <= usize::MAX,
            sorted@ == sort_by(input.take(n as int), lt),
        decreases reversed@.len(),
    {
        let ghost r_old = reversed@;
        let x = reversed.pop().unwrap();
        proof {
            assert(r_old.reverse().len() > 0);
            assert(n < input.len());
            assert(r_old.reverse()[0] == x);
            assert(input.skip(n as int)[0] == x);
            assert(reversed@.reverse() =~= r_old.reverse().drop_first());
            assert(input.skip(n as int).drop_first() =~= input.skip(n + 1));
            assert(reversed@.reverse() =~= input.skip(n + 1));
            assert(input.take(n + 1).drop_last() =~= input.take(n as int));
            assert(input.take(n + 1).last() == x);
        }
        let mut j = sorted.len();
        while j > 0 && less(&x, &sorted[j - 1])
            invariant
                forall|a: &T, b: &T| #[trigger] less.requires((a, b)),
                forall|a: &T, b: &T, o: bool| less.ensures((a, b), o) ==> o == lt(*a, *b),
                j <= sorted@.len(),
                forall|k: int| j <= k < sorted@.len() ==> lt(x, #[trigger] sorted@[k]),
            decreases j,
        {
            j -= 1;
        }
        proof {
            lemma_insert_at(sorted@, x, lt, j as int);
        }
        sorted.insert(j, x);
        assert(sorted@ =~= insert_by(sort_by(input.take(n as int), lt), x, lt));
        n += 1;
    }
    assert(input.skip(n as int).len() == 0);
    assert(input.take(n as int) =~= input);
    sorted
}

proof fn lemma_insert_related<T>(u: Seq<T>, v: Seq<T>, x: T, y: T, lt: spec_fn(T, T) -> bool, rel: spec_fn(T, T) -> bool)
    requires
        u.len() == v.len(),
        forall|i: int| 0 <= i < u.len() ==> #[trigger] rel(u[i], v[i]),
        rel(x, y),
        forall|a: T, b: T, c: T, d: T| #[trigger] rel(a, c) && #[trigger] rel(b, d) ==> lt(a, b) == lt(c, d),
    ensures
        insert_by(u, x, lt).len() == insert_by(v, y, lt).len(),
        forall|i: int| 0 <= i < insert_by(u, x, lt).len() ==> #[trigger] rel(insert_by(u, x, lt)[i], insert_by(v, y, lt)[i]),
    decreases u.len(),
{
    if u.len() > 0 {
        let k = u.len() - 1;
        assert(rel(u[k], v[k]));
        assert(lt(x, u.last()) == lt(y, v.last()));
        if lt(x, u.last()) {
            lemma_insert_related(u.drop_last(), v.drop_last(), x, y, lt, rel);
        }
    }
}

/// Sorting two sequences whose elements correspond one to one, by a relation that the order
/// cannot tell apart, gives sequences that still correspond one to one.
pub proof fn lemma_sort_related<T>(s: Seq<T>, t: Seq<T>, lt: spec_fn(T, T) -> bool, rel: spec_fn(T, T) -> bool)
    requires
        s.len() == t.len(),
        forall|i: int| 0 <= i < s.len() ==> #[trigger] rel(s[i], t[i]),
        forall|a: T, b: T, c: T, d: T| #[trigger] rel(a, c) && #[trigger] rel(b, d) ==> lt(a, b) == lt(c, d),
    ensures
        sort_by(s, lt).len() == sort_by(t, lt).len(),
        forall|i: int| 0 <= i < sort_by(s, lt).len() ==> #[trigger] rel(sort_by(s, lt)[i], sort_by(t, lt)[i]),
    decreases s.len(),
{
    if s.len() > 0 {
        let k = s.len() - 1;
        assert(rel(s[k], t[k]));
        lemma_sort_related(s.drop_last(), t.drop_last(), lt, rel);
        lemma_insert_related(sort_by(s.drop_last(), lt), sort_by(t.drop_last(), lt), s.last(), t.last(), lt, rel);
    }
}

} // verus!

verus! {

/// The elements of `v` in reverse order.
pub(crate) fn reverse_vec<T>(v: Vec<T>) -> (r: Vec<T>)
    ensures
        r@ == v@.reverse(),
{
    let ghost input = v@;
    let mut v = v;
    let mut r: Vec<T> = Vec::new();
    while v.len() > 0
        invariant
            v@ + r@.reverse() == input,
        decreases v@.len(),
    {
        let x = v.pop().unwrap();
        r.push(x);
        assert(v@ + r@.reverse() =~= input);
    }
    assert(r@.reverse() =~= input);
    assert(r@ =~= input.reverse());
    r
}

} // verus!
