//! A table of values keyed by strings: an ordered list of entries with
//! distinct keys, seen as a map from the keys' characters to the values.
use vstd::prelude::*;

verus! {

/// No two entries share a key.
pub open spec fn keys_distinct<T>(s: Seq<(String, T)>) -> bool {
    forall|i: int, j: int|
        0 <= i < s.len() && 0 <= j < s.len() && i != j ==> (#[trigger] s[i]).0@ != (#[trigger] s[j]).0@
}

/// Some entry has key `k`.
pub open spec fn has_key<T>(s: Seq<(String, T)>, k: Seq<char>) -> bool {
    exists|i: int| 0 <= i < s.len() && (#[trigger] s[i]).0@ == k
}

/// The map from each key to the value of its entry.
pub open spec fn map_of<T>(s: Seq<(String, T)>) -> Map<Seq<char>, T> {
    Map::new(
        |k: Seq<char>| has_key(s, k),
        |k: Seq<char>| s[choose|i: int| 0 <= i < s.len() && (#[trigger] s[i]).0@ == k].1,
    )
}

/// The entry at `i` is the one the map shows for its key.
pub proof fn lemma_map_of_index<T>(s: Seq<(String, T)>, i: int)
    requires
        keys_distinct(s),
        0 <= i < s.len(),
    ensures
        map_of(s).dom().contains(s[i].0@),
        map_of(s)[s[i].0@] == s[i].1,
{
    let k = s[i].0@;
    assert(has_key(s, k));
    let j = choose|j: int| 0 <= j < s.len() && (#[trigger] s[j]).0@ == k;
    assert(j == i);
}

proof fn lemma_map_of_push<T>(s: Seq<(String, T)>, key: String, value: T)
    requires
        keys_distinct(s),
        !has_key(s, key@),
    ensures
        keys_distinct(s.push((key, value))),
        map_of(s.push((key, value))) == map_of(s).insert(key@, value),
{
    let t = s.push((key, value));
    assert forall|i: int, j: int|
        0 <= i < t.len() && 0 <= j < t.len() && i != j implies (#[trigger] t[i]).0@ != (
    #[trigger] t[j]).0@ by {
        if i < s.len() && j < s.len() {
            assert(t[i] == s[i] && t[j] == s[j]);
        } else if i < s.len() {
            assert(t[i] == s[i]);
        } else {
            assert(t[j] == s[j]);
        }
    }
    assert forall|k: Seq<char>| #[trigger] has_key(t, k) == (has_key(s, k) || k == key@) by {
        if has_key(s, k) {
            let i = choose|i: int| 0 <= i < s.len() && (#[trigger] s[i]).0@ == k;
            assert(t[i] == s[i]);
        }
        if has_key(t, k) {
            let i = choose|i: int| 0 <= i < t.len() && (#[trigger] t[i]).0@ == k;
            if i < s.len() {
                assert(t[i] == s[i]);
            }
        }
        if k == key@ {
            assert(t[s.len() as int].0@ == k);
        }
    }
    assert forall|k: Seq<char>| #[trigger] map_of(t).dom().contains(k) implies map_of(t)[k] == map_of(
        s,
    ).insert(key@, value)[k] by {
        let i = choose|i: int| 0 <= i < t.len() && (#[trigger] t[i]).0@ == k;
        lemma_map_of_index(t, i);
        if i < s.len() {
            assert(t[i] == s[i]);
            lemma_map_of_index(s, i);
        }
    }
    assert(map_of(t) =~= map_of(s).insert(key@, value));
}

proof fn lemma_map_of_remove<T>(s: Seq<(String, T)>, i: int)
    requires
        keys_distinct(s),
        0 <= i < s.len(),
    ensures
        keys_distinct(s.remove(i)),
        map_of(s.remove(i)) == map_of(s).remove(s[i].0@),
        !has_key(s.remove(i), s[i].0@),
{
    let t = s.remove(i);
    let key = s[i].0@;
    assert forall|a: int| 0 <= a < t.len() implies #[trigger] t[a] == s[if a < i { a } else { a + 1 }] by {}
    assert forall|a: int, b: int|
        0 <= a < t.len() && 0 <= b < t.len() && a != b implies (#[trigger] t[a]).0@ != (
    #[trigger] t[b]).0@ by {
        assert(t[a] == s[if a < i { a } else { a + 1 }]);
        assert(t[b] == s[if b < i { b } else { b + 1 }]);
    }
    assert forall|k: Seq<char>| #[trigger] has_key(t, k) == (has_key(s, k) && k != key) by {
        if has_key(t, k) {
            let a = choose|a: int| 0 <= a < t.len() && (#[trigger] t[a]).0@ == k;
            let b = if a < i { a } else { a + 1 };
            assert(t[a] == s[b]);
            assert(s[b].0@ == k);
        }
        if has_key(s, k) && k != key {
            let b = choose|b: int| 0 <= b < s.len() && (#[trigger] s[b]).0@ == k;
            assert(b != i);
            let a = if b < i { b } else { b - 1 };
            assert(t[a] == s[b]);
        }
    }
    assert forall|k: Seq<char>| #[trigger] map_of(t).dom().contains(k) implies map_of(t)[k] == map_of(
        s,
    ).remove(key)[k] by {
        let a = choose|a: int| 0 <= a < t.len() && (#[trigger] t[a]).0@ == k;
        lemma_map_of_index(t, a);
        let b = if a < i { a } else { a + 1 };
        assert(t[a] == s[b]);
        lemma_map_of_index(s, b);
    }
    assert(map_of(t) =~= map_of(s).remove(key));
}

proof fn lemma_map_of_insert_at<T>(s: Seq<(String, T)>, i: int, key: String, value: T)
    requires
        keys_distinct(s),
        !has_key(s, key@),
        0 <= i <= s.len(),
    ensures
        keys_distinct(s.insert(i, (key, value))),
        map_of(s.insert(i, (key, value))) == map_of(s).insert(key@, value),
{
    let t = s.insert(i, (key, value));
    let u = s.push((key, value));
    lemma_map_of_push(s, key, value);
    assert forall|a: int| 0 <= a < t.len() implies #[trigger] t[a] == u[if a < i {
        a
    } else if a == i {
        s.len() as int
    } else {
        a - 1
    }] by {}
    assert forall|a: int, b: int|
        0 <= a < t.len() && 0 <= b < t.len() && a != b implies (#[trigger] t[a]).0@ != (
    #[trigger] t[b]).0@ by {
        let a2 = if a < i { a } else if a == i { s.len() as int } else { a - 1 };
        let b2 = if b < i { b } else if b == i { s.len() as int } else { b - 1 };
        assert(t[a] == u[a2]);
        assert(t[b] == u[b2]);
    }
    assert forall|k: Seq<char>| #[trigger] has_key(t, k) == has_key(u, k) by {
        if has_key(t, k) {
            let a = choose|a: int| 0 <= a < t.len() && (#[trigger] t[a]).0@ == k;
            let a2 = if a < i { a } else if a == i { s.len() as int } else { a - 1 };
            assert(t[a] == u[a2]);
        }
        if has_key(u, k) {
            let b = choose|b: int| 0 <= b < u.len() && (#[trigger] u[b]).0@ == k;
            let a = if b == s.len() { i } else if b < i { b } else { b + 1 };
            assert(t[a] == u[b]);
        }
    }
    assert forall|k: Seq<char>| #[trigger] map_of(t).dom().contains(k) implies map_of(t)[k] == map_of(
        u,
    )[k] by {
        let a = choose|a: int| 0 <= a < t.len() && (#[trigger] t[a]).0@ == k;
        lemma_map_of_index(t, a);
        let a2 = if a < i { a } else if a == i { s.len() as int } else { a - 1 };
        assert(t[a] == u[a2]);
        lemma_map_of_index(u, a2);
    }
    assert(map_of(t) =~= map_of(u));
}

/// Values keyed by strings, kept in insertion order.
pub struct Table<T> {
    entries: Vec<(String, T)>,
}

impl<T> View for Table<T> {
    type V = Map<Seq<char>, T>;

    open spec fn view(&self) -> Map<Seq<char>, T> {
        map_of(self.entries())
    }
}

impl<T> Table<T> {
    /// The entries, in order.
    pub closed spec fn entries(&self) -> Seq<(String, T)> {
        self.entries@
    }

    /// The keys of the table are distinct.
    pub open spec fn wf(&self) -> bool {
        keys_distinct(self.entries())
    }

    /// An empty table.
    pub fn new() -> (t: Self)
        ensures
            t.wf(),
            t.entries().len() == 0,
            t@ == Map::<Seq<char>, T>::empty(),
    {
        let t = Table { entries: Vec::new() };
        assert(t@ =~= Map::<Seq<char>, T>::empty());
        t
    }

    /// The entries, in order, as a slice.
    pub fn as_slice(&self) -> (s: &[(String, T)])
        ensures
            s@ == self.entries(),
    {
        self.entries.as_slice()
    }

    /// The number of entries.
    pub fn len(&self) -> (n: usize)
        ensures
            n == self.entries().len(),
    {
        self.entries.len()
    }

    /// The key of the entry at `i`.
    pub fn key_at(&self, i: usize) -> (k: &String)
        requires
            i < self.entries().len(),
        ensures
            *k == self.entries()[i as int].0,
    {
        &self.entries[i].0
    }

    /// The value of the entry at `i`.
    pub fn value_at(&self, i: usize) -> (v: &T)
        requires
            i < self.entries().len(),
        ensures
            *v == self.entries()[i as int].1,
    {
        &self.entries[i].1
    }

    /// The position of the entry with key `key`, if there is one.
    pub fn find(&self, key: &str) -> (r: Option<usize>)
        requires
            self.wf(),
        ensures
            match r {
                Some(i) => i < self.entries().len() && self.entries()[i as int].0@ == key@
                    && self@.dom().contains(key@) && self@[key@] == self.entries()[i as int].1,
                None => !self@.dom().contains(key@),
            },
    {
        let mut i: usize = 0;
        while i < self.entries.len()
            invariant
                self.wf(),
                i <= self.entries@.len(),
                forall|j: int| 0 <= j < i ==> (#[trigger] self.entries@[j]).0@ != key@,
            decreases self.entries@.len() - i,
        {
            if crate::text::str_eq(self.entries[i].0.as_str(), key) {
                proof {
                    lemma_map_of_index(self.entries@, i as int);
                }
                return Some(i);
            }
            i = i + 1;
        }
        None
    }

    /// The value stored under `key`, if there is one.
    pub fn get(&self, key: &str) -> (r: Option<&T>)
        requires
            self.wf(),
        ensures
            r.is_some() == self@.dom().contains(key@),
            r matches Some(v) ==> *v == self@[key@],
    {
        match self.find(key) {
            Some(i) => Some(&self.entries[i].1),
            None => None,
        }
    }

    /// Stores `value` under `key`, replacing the value there was, in place.
    pub fn insert(&mut self, key: String, value: T)
        requires
            old(self).wf(),
        ensures
            final(self).wf(),
            final(self)@ == old(self)@.insert(key@, value),
    {
        match self.find(key.as_str()) {
            Some(i) => {
                let (_, _old) = self.entries.remove(i);
                proof {
                    lemma_map_of_remove(old(self).entries@, i as int);
                }
                self.entries.insert(i, (key, value));
                proof {
                    lemma_map_of_insert_at(old(self).entries@.remove(i as int), i as int, key, value);
                    assert(old(self)@.remove(key@).insert(key@, value) =~= old(self)@.insert(
                        key@,
                        value,
                    ));
                }
            },
            None => {
                proof {
                    lemma_map_of_push(self.entries@, key, value);
                }
                self.entries.push((key, value));
            },
        }
    }

    /// Removes the entry with key `key`, if there is one.
    pub fn remove(&mut self, key: &str)
        requires
            old(self).wf(),
        ensures
            final(self).wf(),
            final(self)@ == old(self)@.remove(key@),
    {
        match self.find(key) {
            Some(i) => {
                proof {
                    lemma_map_of_remove(self.entries@, i as int);
                }
                let _ = self.entries.remove(i);
            },
            None => {
                assert(self@.remove(key@) =~= self@);
            },
        }
    }

    /// Takes out the entry at `i`; the others keep their order.
    pub fn remove_at(&mut self, i: usize) -> (r: (String, T))
        requires
            old(self).wf(),
            i < old(self).entries().len(),
        ensures
            final(self).wf(),
            r == old(self).entries()[i as int],
            final(self).entries() == old(self).entries().remove(i as int),
            final(self)@ == old(self)@.remove(r.0@),
            !has_key(final(self).entries(), r.0@),
    {
        proof {
            lemma_map_of_remove(self.entries@, i as int);
        }
        self.entries.remove(i)
    }

    /// Puts an entry with a new key at position `i`.
    pub fn insert_at(&mut self, i: usize, key: String, value: T)
        requires
            old(self).wf(),
            !has_key(old(self).entries(), key@),
            i <= old(self).entries().len(),
        ensures
            final(self).wf(),
            final(self).entries() == old(self).entries().insert(i as int, (key, value)),
            final(self)@ == old(self)@.insert(key@, value),
    {
        proof {
            lemma_map_of_insert_at(self.entries@, i as int, key, value);
        }
        self.entries.insert(i, (key, value));
    }
}

} // verus!
