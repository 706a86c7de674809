//! Sorting by an integer key, with equal keys kept in their order.

use vstd::prelude::*;
use vstd::seq_lib::*;

verus! {

/// A value that lists are sorted by.
pub trait Keyed: Sized {
    /// The key of the value.
    spec fn key(self) -> int;

    /// The key of the value.
    fn get_key(&self) -> (r: i128)
        ensures
            r == self.key(),
    ;
}

/// `s` with `x` behind the last value whose key is not greater.
pub open spec fn insert_sorted<T: Keyed>(s: Seq<T>, x: T) -> Seq<T>
    decreases s.len(),
{
    if s.len() == 0 || s.last().key() <= x.key() {
        s.push(x)
    } else {
        insert_sorted(s.drop_last(), x).push(s.last())
    }
}

/// `s` sorted by key, with values of the same key in the order they had.
pub open spec fn sorted<T: Keyed>(s: Seq<T>) -> Seq<T>
    decreases s.len(),
{
    if s.len() == 0 {
        s
    } else {
        insert_sorted(sorted(s.drop_last()), s.last())
    }
}

/// The keys do not decrease from the front to the back.
pub open spec fn ascending<T: Keyed>(s: Seq<T>) -> bool {
    forall|i: int, j: int| 0 <= i <= j < s.len() ==> s[i].key() <= s[j].key()
}

/// The values of `s` that have the key `k`.
pub open spec fn with_key<T: Keyed>(s: Seq<T>, k: int) -> Seq<T> {
    s.filter(|x: T| x.key() == k)
}

/// Inserts `x` behind the last value whose key is not greater.
pub fn insert_by_key<T: Keyed>(v: &mut Vec<T>, x: T)
    ensures
        final(v)@ == insert_sorted(old(v)@, x),
{
    let ghost s = v@;
    let k: i128 = x.get_key();
    let mut p: usize = v.len();
    proof {
        assert(s.take(p as int) =~= s);
        assert(insert_sorted(s, x) + s.skip(p as int) =~= insert_sorted(s, x));
    }
    while p > 0 && v[p - 1].get_key() > k
        invariant
            p <= v@.len(),
            v@ == s,
            k == x.key(),
            insert_sorted(s, x) == insert_sorted(s.take(p as int), x) + s.skip(p as int),
        decreases p,
    {
        proof {
            let t = s.take(p as int);
            assert(t.drop_last() =~= s.take(p - 1));
            assert(insert_sorted(s.take(p - 1), x).push(s[p - 1]) + s.skip(p as int)
                =~= insert_sorted(s.take(p - 1), x) + s.skip(p - 1));
        }
        p = p - 1;
    }
    proof {
        if p > 0 {
            assert(s.take(p as int).last() == s[p - 1]);
        }
        assert(s.insert(p as int, x) =~= s.take(p as int).push(x) + s.skip(p as int));
    }
    v.insert(p, x);
}

/// Sorts a list by key, with values of the same key in the order they had.
pub fn sort<T: Keyed>(list: Vec<T>) -> (r: Vec<T>)
    ensures
        r@ == sorted(list@),
{
    let ghost all = list@;
    let mut out: Vec<T> = Vec::new();
    for x in it: list
        invariant
            it.seq() == all,
            out@ == sorted(all.take(it.index() as int)),
    {
        proof {
            assert(all.take(it.index() + 1).drop_last() =~= all.take(it.index() as int));
        }
        insert_by_key(&mut out, x);
    }
    proof {
        assert(all.take(all.len() as int) =~= all);
    }
    out
}

// ---- laws ---------------------------------------------------------------

/// Inserting into an ascending list keeps it ascending and adds the value.
proof fn lemma_insert<T: Keyed>(s: Seq<T>, x: T)
    requires
        ascending(s),
    ensures
        ascending(insert_sorted(s, x)),
        insert_sorted(s, x).to_multiset() == s.to_multiset().insert(x),
        insert_sorted(s, x).len() == s.len() + 1,
        forall|i: int|
            0 <= i <= s.len() ==> (#[trigger] insert_sorted(s, x)[i]).key() <= x.key() || (s.len()
                > 0 && insert_sorted(s, x)[i].key() <= s.last().key()),
    decreases s.len(),
{
    broadcast use group_to_multiset_ensures;

    if s.len() == 0 || s.last().key() <= x.key() {
    } else {
        let t = s.drop_last();
        lemma_insert(t, x);
        let r = insert_sorted(t, x);
        assert(s =~= t.push(s.last()));
        assert forall|i: int| 0 <= i < r.len() implies (#[trigger] r[i]).key() <= s.last().key() by {
            if t.len() > 0 {
                assert(t.last() == s[s.len() - 2]);
            }
        }
        assert(r.push(s.last()).to_multiset() == r.to_multiset().insert(s.last()));
        assert(s.to_multiset() == t.to_multiset().insert(s.last()));
        assert(t.to_multiset().insert(x).insert(s.last()) =~= t.to_multiset().insert(
            s.last(),
        ).insert(x));
    }
}

/// The keys of a sorted list do not decrease, and the list holds exactly the
/// values that it held before.
pub proof fn law_sorted<T: Keyed>(s: Seq<T>)
    ensures
        ascending(sorted(s)),
        sorted(s).to_multiset() == s.to_multiset(),
        sorted(s).len() == s.len(),
    decreases s.len(),
{
    broadcast use group_to_multiset_ensures;

    if s.len() > 0 {
        let t = s.drop_last();
        law_sorted(t);
        lemma_insert(sorted(t), s.last());
        assert(s =~= t.push(s.last()));
    }
}

/// What is inserted stands behind the values of the same key.
proof fn lemma_insert_stable<T: Keyed>(s: Seq<T>, x: T, k: int)
    requires
        ascending(s),
    ensures
        with_key(insert_sorted(s, x), k) == if x.key() == k {
            with_key(s, k).push(x)
        } else {
            with_key(s, k)
        },
    decreases s.len(),
{
    reveal(Seq::filter);
    let f = |y: T| y.key() == k;
    if s.len() == 0 || s.last().key() <= x.key() {
        assert(s.push(x).drop_last() =~= s);
    } else {
        let t = s.drop_last();
        lemma_insert_stable(t, x, k);
        let r = insert_sorted(t, x);
        assert(r.push(s.last()).drop_last() =~= r);
    }
}

/// Sorting is stable: values of the same key keep their order.
pub proof fn law_stable<T: Keyed>(s: Seq<T>, k: int)
    ensures
        with_key(sorted(s), k) == with_key(s, k),
    decreases s.len(),
{
    reveal(Seq::filter);
    if s.len() > 0 {
        let t = s.drop_last();
        law_sorted(t);
        law_stable(t, k);
        lemma_insert_stable(sorted(t), s.last(), k);
    }
}

/// Sorting an ascending list changes nothing.
pub proof fn law_sorted_stays<T: Keyed>(s: Seq<T>)
    requires
        ascending(s),
    ensures
        sorted(s) == s,
    decreases s.len(),
{
    if s.len() > 0 {
        let t = s.drop_last();
        assert forall|i: int, j: int| 0 <= i <= j < t.len() implies t[i].key() <= t[j].key() by {
            assert(t[i] == s[i] && t[j] == s[j]);
        }
        law_sorted_stays(t);
        if t.len() > 0 {
            assert(t.last() == s[s.len() - 2]);
        }
        assert(t.push(s.last()) =~= s);
    }
}

/// A filter keeps exactly the values that pass it.
pub proof fn lemma_filter_contains<A>(s: Seq<A>, f: spec_fn(A) -> bool, x: A)
    ensures
        s.filter(f).contains(x) <==> s.contains(x) && f(x),
    decreases s.len(),
{
    reveal(Seq::filter);
    if s.len() > 0 {
        let t = s.drop_last();
        lemma_filter_contains(t, f, x);
        let r = s.filter(f);
        if s.contains(x) {
            let i = choose|i: int| 0 <= i < s.len() && s[i] == x;
            if i < t.len() {
                assert(t[i] == x);
            }
        }
        if t.contains(x) {
            let i = choose|i: int| 0 <= i < t.len() && t[i] == x;
            assert(s[i] == x);
        }
        if f(s.last()) {
            if t.filter(f).contains(x) {
                let i = choose|i: int| 0 <= i < t.filter(f).len() && t.filter(f)[i] == x;
                assert(r[i] == x);
            }
            if r.contains(x) {
                let i = choose|i: int| 0 <= i < r.len() && r[i] == x;
                if i < t.filter(f).len() {
                    assert(t.filter(f)[i] == x);
                }
            }
            assert(r[r.len() - 1] == s.last());
            assert(s[s.len() - 1] == s.last());
        }
    }
}

} // verus!
