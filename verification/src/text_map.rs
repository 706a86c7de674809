//! A map from text to values that keeps each key once.
use vstd::prelude::*;
use vstd::string::*;

use crate::text::{owned, same_str};

verus! {

/// A map with text keys. Its view is the mathematical map; the entries can
/// also be walked by index, in an order that says nothing.
#[derive(Debug)]
pub struct TextMap<V> {
    entries: Vec<(String, V)>,
}

/// Whether some entry has the key `k`.
spec fn keyed<V>(entries: Seq<(String, V)>, k: Seq<char>) -> bool {
    exists|i: int| 0 <= i < entries.len() && (#[trigger] entries[i]).0@ == k
}

/// The place of the entry with the key `k`.
spec fn place<V>(entries: Seq<(String, V)>, k: Seq<char>) -> int {
    choose|i: int| 0 <= i < entries.len() && (#[trigger] entries[i]).0@ == k
}

/// No two entries have the same key.
spec fn distinct<V>(entries: Seq<(String, V)>) -> bool {
    forall|i: int, j: int|
        0 <= i < entries.len() && 0 <= j < entries.len() && i != j ==> (#[trigger] entries[i]).0@
            != (#[trigger] entries[j]).0@
}

spec fn as_map<V>(entries: Seq<(String, V)>) -> Map<Seq<char>, V> {
    Map::new(|k: Seq<char>| keyed(entries, k), |k: Seq<char>| entries[place(entries, k)].1)
}

impl<V> View for TextMap<V> {
    type V = Map<Seq<char>, V>;

    closed spec fn view(&self) -> Map<Seq<char>, V> {
        as_map(self.entries@)
    }
}

/// The texts that a map of strings holds.
pub open spec fn texts(m: Map<Seq<char>, String>) -> Map<Seq<char>, Seq<char>> {
    m.map_values(|v: String| v@)
}

/// Setting a key sets its text.
pub proof fn lemma_texts_insert(m: Map<Seq<char>, String>, k: Seq<char>, v: String)
    ensures
        texts(m.insert(k, v)) == texts(m).insert(k, v@),
{
    assert(texts(m.insert(k, v)) =~= texts(m).insert(k, v@));
}

/// Every entry of a list without repeated keys is in its map.
proof fn lemma_entry<V>(entries: Seq<(String, V)>, i: int)
    requires
        distinct(entries),
        0 <= i < entries.len(),
    ensures
        as_map(entries).contains_key(entries[i].0@),
        as_map(entries)[entries[i].0@] == entries[i].1,
{
    let k = entries[i].0@;
    assert(keyed(entries, k));
    let p = place(entries, k);
    assert(entries[p].0@ == k);
    assert(p == i);
}

impl<V> TextMap<V> {
    #[verifier::type_invariant]
    spec fn inv(self) -> bool {
        distinct(self.entries@)
    }

    /// The keys in the order of the entries.
    pub closed spec fn keys(self) -> Seq<Seq<char>> {
        self.entries@.map_values(|e: (String, V)| e.0@)
    }

    /// A map without entries.
    pub fn new() -> (r: Self)
        ensures
            r@ == Map::<Seq<char>, V>::empty(),
            r.keys() == Seq::<Seq<char>>::empty(),
    {
        let entries: Vec<(String, V)> = Vec::new();
        proof {
            assert(as_map(entries@) =~= Map::<Seq<char>, V>::empty());
        }
        TextMap { entries }
    }

    /// The number of entries.
    pub fn len(&self) -> (r: usize)
        ensures
            r == self.keys().len(),
            forall|k: Seq<char>| #[trigger] self@.contains_key(k) <==> self.keys().contains(k),
            self.keys().no_duplicates(),
    {
        proof {
            use_type_invariant(self);
            lemma_keys(self.entries@);
        }
        self.entries.len()
    }

    /// The key of the entry at `i`.
    pub fn key_at(&self, i: usize) -> (r: &str)
        requires
            i < self.keys().len(),
        ensures
            r@ == self.keys()[i as int],
            self@.contains_key(r@),
    {
        proof {
            use_type_invariant(self);
            lemma_entry(self.entries@, i as int);
        }
        self.entries[i].0.as_str()
    }

    /// The value of the entry at `i`.
    pub fn value_at(&self, i: usize) -> (r: &V)
        requires
            i < self.keys().len(),
        ensures
            self@.contains_key(self.keys()[i as int]),
            *r == self@[self.keys()[i as int]],
    {
        proof {
            use_type_invariant(self);
            lemma_entry(self.entries@, i as int);
        }
        &self.entries[i].1
    }

    /// The place of a key.
    fn find(&self, key: &str) -> (r: Option<usize>)
        ensures
            r is Some <==> self@.contains_key(key@),
            r matches Some(i) ==> i < self.entries@.len() && self.entries@[i as int].0@ == key@,
    {
        let n: usize = self.entries.len();
        for i in 0..n
            invariant
                n == self.entries@.len(),
                forall|j: int| 0 <= j < i ==> (#[trigger] self.entries@[j]).0@ != key@,
        {
            if same_str(self.entries[i].0.as_str(), key) {
                return Some(i);
            }
        }
        None
    }

    /// The value of a key.
    pub fn get(&self, key: &str) -> (r: Option<&V>)
        ensures
            r is Some <==> self@.contains_key(key@),
            r matches Some(v) ==> *v == self@[key@],
    {
        match self.find(key) {
            Some(i) => {
                proof {
                    use_type_invariant(self);
                    lemma_entry(self.entries@, i as int);
                }
                Some(&self.entries[i].1)
            },
            None => None,
        }
    }

    /// Removes a key and hands its value out.
    pub fn remove(&mut self, key: &str) -> (r: Option<V>)
        ensures
            r is Some <==> old(self)@.contains_key(key@),
            r matches Some(v) ==> v == old(self)@[key@],
            final(self)@ == old(self)@.remove(key@),
    {
        proof {
            use_type_invariant(&*self);
        }
        match self.find(key) {
            Some(i) => {
                let mut entries: Vec<(String, V)> = Vec::new();
                let ghost before = self.entries@;
                std::mem::swap(&mut entries, &mut self.entries);
                let (_, value) = entries.remove(i);
                proof {
                    lemma_entry(before, i as int);
                    lemma_remove(before, i as int);
                }
                self.entries = entries;
                Some(value)
            },
            None => {
                proof {
                    assert(self@.remove(key@) =~= self@);
                }
                None
            },
        }
    }

    /// Sets the value of a key.
    pub fn insert(&mut self, key: &str, value: V)
        ensures
            final(self)@ == old(self)@.insert(key@, value),
    {
        let _ = self.remove(key);
        proof {
            use_type_invariant(&*self);
        }
        let ghost before = self.entries@;
        let mut entries: Vec<(String, V)> = Vec::new();
        std::mem::swap(&mut entries, &mut self.entries);
        entries.push((owned(key), value));
        proof {
            lemma_push(before, entries@.last());
        }
        self.entries = entries;
        proof {
            assert(old(self)@.remove(key@).insert(key@, value) =~= old(self)@.insert(key@, value));
        }
    }
}

/// Every key of the map is the key of an entry, and the other way round.
proof fn lemma_keys<V>(entries: Seq<(String, V)>)
    requires
        distinct(entries),
    ensures
        forall|k: Seq<char>| #[trigger]
            as_map(entries).contains_key(k) <==> entries.map_values(
                |e: (String, V)| e.0@,
            ).contains(k),
        entries.map_values(|e: (String, V)| e.0@).no_duplicates(),
{
    let keys = entries.map_values(|e: (String, V)| e.0@);
    assert forall|k: Seq<char>| #[trigger] as_map(entries).contains_key(k) implies keys.contains(
        k,
    ) by {
        let p = place(entries, k);
        assert(keys[p] == k);
    }
    assert forall|k: Seq<char>| keys.contains(k) implies #[trigger] as_map(entries).contains_key(
        k,
    ) by {
        let p = keys.index_of(k);
        assert(entries[p].0@ == k);
    }
}

/// Removing an entry removes its key from the map.
proof fn lemma_remove<V>(entries: Seq<(String, V)>, i: int)
    requires
        distinct(entries),
        0 <= i < entries.len(),
    ensures
        distinct(entries.remove(i)),
        as_map(entries.remove(i)) == as_map(entries).remove(entries[i].0@),
{
    let rest = entries.remove(i);
    assert(distinct(rest));
    assert forall|k: Seq<char>|
        as_map(rest).contains_key(k) == as_map(entries).remove(entries[i].0@).contains_key(k) by {
        if keyed(rest, k) {
            let p = place(rest, k);
            let q = if p < i { p } else { p + 1 };
            assert(entries[q].0@ == k);
        }
        if keyed(entries, k) && k != entries[i].0@ {
            let q = place(entries, k);
            let p = if q < i { q } else { q - 1 };
            assert(rest[p].0@ == k);
        }
    }
    assert forall|k: Seq<char>| #[trigger]
        as_map(rest).contains_key(k) implies as_map(rest)[k] == as_map(entries)[k] by {
        let p = place(rest, k);
        let q = if p < i { p } else { p + 1 };
        assert(entries[q].0@ == k);
        lemma_entry(entries, q);
        lemma_entry(rest, p);
    }
    assert(as_map(rest) =~= as_map(entries).remove(entries[i].0@));
}

/// Adding an entry with a new key adds it to the map.
proof fn lemma_push<V>(entries: Seq<(String, V)>, e: (String, V))
    requires
        distinct(entries),
        !as_map(entries).contains_key(e.0@),
    ensures
        distinct(entries.push(e)),
        as_map(entries.push(e)) == as_map(entries).insert(e.0@, e.1),
{
    let more = entries.push(e);
    assert forall|i: int| 0 <= i < entries.len() implies (#[trigger] entries[i]).0@ != e.0@ by {
        if entries[i].0@ == e.0@ {
            assert(keyed(entries, e.0@));
        }
    }
    assert(distinct(more));
    assert(more[entries.len() as int] == e);
    lemma_entry(more, entries.len() as int);
    assert forall|k: Seq<char>|
        as_map(more).contains_key(k) == as_map(entries).insert(e.0@, e.1).contains_key(k) by {
        if keyed(entries, k) {
            let q = place(entries, k);
            assert(more[q].0@ == k);
        }
        if keyed(more, k) && k != e.0@ {
            let p = place(more, k);
            assert(entries[p].0@ == k);
        }
    }
    assert forall|k: Seq<char>| #[trigger] as_map(more).contains_key(k) && k != e.0@ implies as_map(
        more,
    )[k] == as_map(entries)[k] by {
        let p = place(more, k);
        assert(entries[p].0@ == k);
        lemma_entry(entries, p);
        lemma_entry(more, p);
    }
    assert(as_map(more) =~= as_map(entries).insert(e.0@, e.1));
}

} // verus!
