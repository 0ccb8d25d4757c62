//! A map from text keys to values, kept as a list of entries in which no
//! key occurs twice. A key that is inserted first stays first.

use vstd::prelude::*;

verus! {

/// Whether no two entries of `es` have the same key.
spec fn unique_keys<V>(es: Seq<(String, V)>) -> bool {
    forall|i: int, j: int|
        0 <= i < es.len() && 0 <= j < es.len() && (#[trigger] es[i]).0@ == (#[trigger] es[j]).0@
            ==> i == j
}

/// Whether some entry of `es` has the key `k`.
spec fn has_key<V>(es: Seq<(String, V)>, k: Seq<char>) -> bool {
    exists|i: int| 0 <= i < es.len() && (#[trigger] es[i]).0@ == k
}

/// The place of an entry of `es` with the key `k`.
spec fn index_of<V>(es: Seq<(String, V)>, k: Seq<char>) -> int {
    choose|i: int| 0 <= i < es.len() && (#[trigger] es[i]).0@ == k
}

/// The map that sends the key of each entry of `es` to the view of its value.
spec fn entries_map<V: View>(es: Seq<(String, V)>) -> Map<Seq<char>, V::V> {
    Map::new(|k: Seq<char>| has_key(es, k), |k: Seq<char>| es[index_of(es, k)].1@)
}

/// In a list without repeated keys, the map sends the key of every entry
/// to the value of that entry.
proof fn lemma_entry<V: View>(es: Seq<(String, V)>, i: int)
    requires
        unique_keys(es),
        0 <= i < es.len(),
    ensures
        entries_map(es).contains_key(es[i].0@),
        entries_map(es)[es[i].0@] == es[i].1@,
        index_of(es, es[i].0@) == i,
{
    assert(has_key(es, es[i].0@));
}

/// Adding an entry with a new key inserts it into the map.
proof fn lemma_push<V: View>(es: Seq<(String, V)>, key: String, value: V)
    requires
        unique_keys(es),
        !has_key(es, key@),
    ensures
        unique_keys(es.push((key, value))),
        entries_map(es.push((key, value))) == entries_map(es).insert(key@, value@),
{
    let next = es.push((key, value));
    assert forall|i: int, j: int|
        0 <= i < next.len() && 0 <= j < next.len() && (#[trigger] next[i]).0@ == (
        #[trigger] next[j]).0@ implies i == j by {
        if i < es.len() && j < es.len() {
            assert(es[i].0@ == es[j].0@);
        } else if i < es.len() {
            assert(es[i].0@ == key@);
        } else if j < es.len() {
            assert(es[j].0@ == key@);
        }
    }
    assert forall|k: Seq<char>| has_key(next, k) <==> (k == key@ || has_key(es, k)) by {
        if has_key(next, k) {
            let i = index_of(next, k);
            if i < es.len() {
                assert(es[i].0@ == k);
            }
        }
        if has_key(es, k) {
            let i = index_of(es, k);
            assert(next[i].0@ == k);
        }
        if k == key@ {
            assert(next[es.len() as int].0@ == k);
        }
    }
    assert forall|k: Seq<char>| has_key(next, k) implies #[trigger] entries_map(next)[k]
        == entries_map(es).insert(key@, value@)[k] by {
        let i = index_of(next, k);
        lemma_entry(next, i);
        if i < es.len() {
            assert(es[i].0@ == k);
            lemma_entry(es, i);
        }
    }
    assert(entries_map(next) =~= entries_map(es).insert(key@, value@));
}

/// Replacing the value of an entry, under a key with the same text,
/// replaces the value in the map.
proof fn lemma_update<V: View>(es: Seq<(String, V)>, i: int, key: String, value: V)
    requires
        unique_keys(es),
        0 <= i < es.len(),
        es[i].0@ == key@,
    ensures
        unique_keys(es.update(i, (key, value))),
        entries_map(es.update(i, (key, value))) == entries_map(es).insert(key@, value@),
{
    let next = es.update(i, (key, value));
    assert forall|a: int| 0 <= a < es.len() implies (#[trigger] next[a]).0@ == es[a].0@ by {}
    assert forall|a: int, b: int|
        0 <= a < next.len() && 0 <= b < next.len() && (#[trigger] next[a]).0@ == (
        #[trigger] next[b]).0@ implies a == b by {
        assert(es[a].0@ == es[b].0@);
    }
    assert forall|k: Seq<char>| has_key(next, k) <==> has_key(es, k) by {
        if has_key(next, k) {
            let a = index_of(next, k);
            assert(es[a].0@ == k);
        }
        if has_key(es, k) {
            let a = index_of(es, k);
            assert(next[a].0@ == k);
        }
    }
    lemma_entry(es, i);
    assert forall|k: Seq<char>| has_key(next, k) implies #[trigger] entries_map(next)[k]
        == entries_map(es).insert(key@, value@)[k] by {
        let a = index_of(next, k);
        lemma_entry(next, a);
        assert(es[a].0@ == k);
        lemma_entry(es, a);
    }
    assert(entries_map(next) =~= entries_map(es).insert(key@, value@));
}

/// Dropping the last entry removes its key from the map.
proof fn lemma_drop_last<V: View>(es: Seq<(String, V)>)
    requires
        unique_keys(es),
        es.len() > 0,
    ensures
        unique_keys(es.drop_last()),
        entries_map(es).contains_key(es.last().0@),
        entries_map(es)[es.last().0@] == es.last().1@,
        entries_map(es.drop_last()) == entries_map(es).remove(es.last().0@),
{
    let front = es.drop_last();
    let key = es.last().0;
    let value = es.last().1;
    assert forall|i: int, j: int|
        0 <= i < front.len() && 0 <= j < front.len() && (#[trigger] front[i]).0@ == (
        #[trigger] front[j]).0@ implies i == j by {
        assert(es[i].0@ == es[j].0@);
    }
    if has_key(front, key@) {
        let i = index_of(front, key@);
        assert(es[i].0@ == es[es.len() - 1].0@);
    }
    lemma_push(front, key, value);
    assert(front.push((key, value)) =~= es);
    assert(entries_map(front) =~= entries_map(es).remove(key@));
}

/// Two lists that agree entry for entry, in the text of the keys and in the
/// views of the values, stand for the same map.
proof fn lemma_same_entries<V: View>(a: Seq<(String, V)>, b: Seq<(String, V)>)
    requires
        unique_keys(a),
        a.len() == b.len(),
        forall|i: int| 0 <= i < a.len() ==> (#[trigger] a[i]).0@ == b[i].0@ && a[i].1@ == b[i].1@,
    ensures
        unique_keys(b),
        entries_map(a) == entries_map(b),
{
    assert forall|i: int, j: int|
        0 <= i < b.len() && 0 <= j < b.len() && (#[trigger] b[i]).0@ == (#[trigger] b[j]).0@ implies i
        == j by {
        assert(a[i].0@ == a[j].0@);
    }
    assert forall|k: Seq<char>| has_key(a, k) <==> has_key(b, k) by {
        if has_key(a, k) {
            let i = index_of(a, k);
            assert(b[i].0@ == k);
        }
        if has_key(b, k) {
            let i = index_of(b, k);
            assert(a[i].0@ == k);
        }
    }
    assert forall|k: Seq<char>| has_key(a, k) implies #[trigger] entries_map(a)[k] == entries_map(
        b,
    )[k] by {
        let i = index_of(a, k);
        lemma_entry(a, i);
        assert(b[i].0@ == k);
        lemma_entry(b, i);
    }
    assert(entries_map(a) =~= entries_map(b));
}

/// A map from text keys to values.
///
/// Its view is a `Map` from the text of a key to the view of its value.
#[derive(Debug)]
pub struct TextMap<V> {
    entries: Vec<(String, V)>,
}

impl<V: View> View for TextMap<V> {
    type V = Map<Seq<char>, V::V>;

    closed spec fn view(&self) -> Map<Seq<char>, V::V> {
        entries_map(self.entries@)
    }
}

impl<V> TextMap<V> {
    #[verifier::type_invariant]
    spec fn inv(self) -> bool {
        unique_keys(self.entries@)
    }
}

impl<V: View> TextMap<V> {
    /// The keys of the map, in the order in which they were first inserted.
    pub closed spec fn keys(&self) -> Seq<Seq<char>> {
        self.entries@.map_values(|e: (String, V)| e.0@)
    }

    /// The empty map.
    pub fn new() -> (m: Self)
        ensures
            m@ == Map::<Seq<char>, V::V>::empty(),
            m.keys() == Seq::<Seq<char>>::empty(),
    {
        let m = TextMap { entries: Vec::new() };
        assert(m@ =~= Map::<Seq<char>, V::V>::empty());
        assert(m.keys() =~= Seq::<Seq<char>>::empty());
        m
    }

    /// The number of keys. No key occurs twice among `keys()`, and they
    /// are the keys of the view.
    pub fn len(&self) -> (n: usize)
        ensures
            n == self.keys().len(),
            self.keys().no_duplicates(),
            forall|k: Seq<char>| self@.contains_key(k) <==> self.keys().contains(k),
    {
        proof {
            use_type_invariant(self);
            let es = self.entries@;
            let keys = self.keys();
            assert forall|i: int, j: int| 0 <= i < keys.len() && 0 <= j < keys.len() && i != j implies keys[i]
                != keys[j] by {
                assert(es[i].0@ == keys[i]);
                assert(es[j].0@ == keys[j]);
            }
            assert forall|k: Seq<char>| self@.contains_key(k) <==> keys.contains(k) by {
                if self@.contains_key(k) {
                    let i = index_of(es, k);
                    assert(keys[i] == k);
                }
                if keys.contains(k) {
                    let i = choose|i: int| 0 <= i < keys.len() && keys[i] == k;
                    assert(es[i].0@ == k);
                }
            }
        }
        self.entries.len()
    }

    /// The place of `key` among the entries, if it is there.
    fn position(&self, key: &String) -> (r: Option<usize>)
        ensures
            match r {
                Some(i) => i < self.entries@.len() && self.entries@[i as int].0@ == key@,
                None => !has_key(self.entries@, key@),
            },
    {
        let mut i: usize = 0;
        while i < self.entries.len()
            invariant
                i <= self.entries@.len(),
                forall|j: int| 0 <= j < i ==> (#[trigger] self.entries@[j]).0@ != key@,
            decreases self.entries@.len() - i,
        {
            if self.entries[i].0 == *key {
                return Some(i);
            }
            i += 1;
        }
        None
    }

    /// The value under `key`, if the map has the key.
    pub fn get(&self, key: &str) -> (r: Option<&V>)
        ensures
            match r {
                Some(v) => self@.contains_key(key@) && self@[key@] == v@,
                None => !self@.contains_key(key@),
            },
    {
        proof {
            use_type_invariant(self);
        }
        let owned = key.to_owned();
        match self.position(&owned) {
            Some(i) => {
                proof {
                    lemma_entry(self.entries@, i as int);
                }
                Some(&self.entries[i].1)
            },
            None => None,
        }
    }

    /// Puts `value` under `key`, in place of the value that was there if the
    /// map had the key, and at the end if it had not.
    pub fn insert(&mut self, key: String, value: V)
        ensures
            final(self)@ == old(self)@.insert(key@, value@),
            final(self).keys() == if old(self)@.contains_key(key@) {
                old(self).keys()
            } else {
                old(self).keys().push(key@)
            },
    {
        proof {
            use_type_invariant(&*self);
        }
        let ghost before = self.entries@;
        let place = self.position(&key);
        let mut entries: Vec<(String, V)> = Vec::new();
        core::mem::swap(&mut self.entries, &mut entries);
        match place {
            Some(i) => {
                proof {
                    lemma_update(before, i as int, key, value);
                    lemma_entry(before, i as int);
                }
                entries.set(i, (key, value));
            },
            None => {
                proof {
                    lemma_push(before, key, value);
                }
                entries.push((key, value));
            },
        }
        core::mem::swap(&mut self.entries, &mut entries);
        proof {
            if place is Some {
                assert(self.keys() =~= old(self).keys());
            } else {
                assert(self.keys() =~= old(self).keys().push(key@));
            }
        }
    }

    /// Takes the entry under the last of `keys()` out of the map.
    pub fn pop(&mut self) -> (r: Option<(String, V)>)
        ensures
            match r {
                Some(e) => {
                    &&& old(self)@.contains_key(e.0@)
                    &&& old(self)@[e.0@] == e.1@
                    &&& final(self)@ == old(self)@.remove(e.0@)
                    &&& old(self).keys().len() > 0
                    &&& e.0@ == old(self).keys().last()
                    &&& final(self).keys() == old(self).keys().drop_last()
                },
                None => {
                    &&& old(self).keys().len() == 0
                    &&& old(self)@ == Map::<Seq<char>, V::V>::empty()
                    &&& final(self)@ == old(self)@
                    &&& final(self).keys() == old(self).keys()
                },
            },
    {
        proof {
            use_type_invariant(&*self);
        }
        let ghost before = self.entries@;
        let mut entries: Vec<(String, V)> = Vec::new();
        core::mem::swap(&mut self.entries, &mut entries);
        let r = entries.pop();
        proof {
            if before.len() > 0 {
                lemma_drop_last(before);
            }
        }
        core::mem::swap(&mut self.entries, &mut entries);
        proof {
            if before.len() > 0 {
                assert(self.keys() =~= old(self).keys().drop_last());
            } else {
                assert(self@ =~= Map::<Seq<char>, V::V>::empty());
            }
        }
        r
    }

    /// The key at place `i`, in the order of first insertion.
    pub fn key_at(&self, i: usize) -> (k: &String)
        requires
            i < self.keys().len(),
        ensures
            k@ == self.keys()[i as int],
    {
        &self.entries[i].0
    }

    /// The value under the key at place `i`.
    pub fn value_at(&self, i: usize) -> (v: &V)
        requires
            i < self.keys().len(),
        ensures
            self@.contains_key(self.keys()[i as int]),
            v@ == self@[self.keys()[i as int]],
    {
        proof {
            use_type_invariant(self);
            lemma_entry(self.entries@, i as int);
        }
        &self.entries[i].1
    }
}

impl<V: View + Copy> Clone for TextMap<V> {
    /// A copy of this map.
    fn clone(&self) -> (m: Self)
        ensures
            m@ == self@,
            m.keys() == self.keys(),
    {
        proof {
            use_type_invariant(self);
        }
        let mut entries: Vec<(String, V)> = Vec::new();
        let mut i: usize = 0;
        while i < self.entries.len()
            invariant
                i <= self.entries@.len(),
                entries@.len() == i,
                forall|j: int|
                    0 <= j < i ==> (#[trigger] entries@[j]).0@ == self.entries@[j].0@
                        && entries@[j].1@ == self.entries@[j].1@,
            decreases self.entries@.len() - i,
        {
            let key = self.entries[i].0.clone();
            let value = self.entries[i].1;
            entries.push((key, value));
            i += 1;
        }
        proof {
            lemma_same_entries(self.entries@, entries@);
        }
        let m = TextMap { entries };
        assert(m.keys() =~= self.keys());
        m
    }
}

} // verus!
