//! A table from text keys to values in which each key stands once.
//!
//! The table keeps its entries in the order in which their keys first came.
//! Putting a value under a key that the table holds replaces the value and
//! leaves the order as it is.

use vstd::prelude::*;
use crate::common::text_is;

verus! {

/// The index of the entry with the given key, if there is one.
pub open spec fn index_of<V>(entries: Seq<(Seq<char>, V)>, key: Seq<char>) -> Option<int>
    decreases entries.len(),
{
    if entries.len() == 0 {
        None
    } else {
        match index_of(entries.drop_last(), key) {
            Some(i) => Some(i),
            None => if entries.last().0 == key {
                Some(entries.len() - 1)
            } else {
                None
            },
        }
    }
}

/// The value under the given key, if there is one.
pub open spec fn lookup<V>(entries: Seq<(Seq<char>, V)>, key: Seq<char>) -> Option<V> {
    match index_of(entries, key) {
        Some(i) => Some(entries[i].1),
        None => None,
    }
}

/// The entries once `value` is put under `key`: the value takes the place
/// of the one that stood under the key, or comes last under a new key.
pub open spec fn put<V>(entries: Seq<(Seq<char>, V)>, key: Seq<char>, value: V) -> Seq<
    (Seq<char>, V),
> {
    match index_of(entries, key) {
        Some(i) => entries.update(i, (key, value)),
        None => entries.push((key, value)),
    }
}

/// No two entries have the same key.
pub open spec fn distinct_keys<V>(entries: Seq<(Seq<char>, V)>) -> bool {
    forall|i: int, j: int|
        0 <= i < j < entries.len() ==> (#[trigger] entries[i]).0 != (#[trigger] entries[j]).0
}

/// The number of entries with the given key.
pub open spec fn count_key<V>(entries: Seq<(Seq<char>, V)>, key: Seq<char>) -> nat
    decreases entries.len(),
{
    if entries.len() == 0 {
        0
    } else {
        count_key(entries.drop_last(), key) + if entries.last().0 == key {
            1nat
        } else {
            0nat
        }
    }
}

/// What [`index_of`] finds is the first entry with the key; it finds
/// nothing only where no entry has the key.
pub proof fn lemma_index_of<V>(entries: Seq<(Seq<char>, V)>, key: Seq<char>)
    ensures
        match index_of(entries, key) {
            Some(i) => 0 <= i < entries.len() && entries[i].0 == key && forall|j: int|
                0 <= j < i ==> (#[trigger] entries[j]).0 != key,
            None => forall|j: int| 0 <= j < entries.len() ==> (#[trigger] entries[j]).0 != key,
        },
    decreases entries.len(),
{
    if entries.len() > 0 {
        let front = entries.drop_last();
        lemma_index_of(front, key);
        match index_of(front, key) {
            Some(i) => {
                assert(entries[i] == front[i]);
                assert forall|j: int| 0 <= j < i implies (#[trigger] entries[j]).0 != key by {
                    assert(entries[j] == front[j]);
                }
            },
            None => {
                assert forall|j: int| 0 <= j < front.len() implies (#[trigger] entries[j]).0
                    != key by {
                    assert(entries[j] == front[j]);
                }
            },
        }
    }
}

/// Putting a value under a key keeps the keys distinct.
pub proof fn lemma_put_distinct<V>(entries: Seq<(Seq<char>, V)>, key: Seq<char>, value: V)
    requires
        distinct_keys(entries),
    ensures
        distinct_keys(put(entries, key, value)),
{
    lemma_index_of(entries, key);
    let after = put(entries, key, value);
    assert forall|i: int, j: int| 0 <= i < j < after.len() implies (#[trigger] after[i]).0 != (
    #[trigger] after[j]).0 by {
        match index_of(entries, key) {
            Some(p) => {
                assert(after[i].0 == entries[i].0);
                assert(after[j].0 == entries[j].0);
            },
            None => {
                if j < entries.len() {
                    assert(after[i] == entries[i] && after[j] == entries[j]);
                } else {
                    assert(after[i] == entries[i]);
                }
            },
        }
    }
}

/// After a value is put under a key, the key is found where [`put`] has
/// placed it.
pub proof fn lemma_index_after_put<V>(entries: Seq<(Seq<char>, V)>, key: Seq<char>, value: V)
    ensures
        index_of(put(entries, key, value), key) == match index_of(entries, key) {
            Some(i) => Some(i),
            None => Some(entries.len() as int),
        },
{
    lemma_index_of(entries, key);
    let after = put(entries, key, value);
    lemma_index_of(after, key);
    match index_of(entries, key) {
        Some(i) => {
            assert(after[i].0 == key);
            let found = index_of(after, key)->0;
            if found < i {
                assert(after[found] == entries[found]);
            }
        },
        None => {
            let n = entries.len() as int;
            assert(after[n].0 == key);
            let found = index_of(after, key)->0;
            if found < n {
                assert(after[found] == entries[found]);
            }
        },
    }
}

/// The value under a key is the one that was put there last.
pub proof fn lemma_lookup_put_same<V>(entries: Seq<(Seq<char>, V)>, key: Seq<char>, value: V)
    ensures
        lookup(put(entries, key, value), key) == Some(value),
{
    lemma_index_of(entries, key);
    lemma_index_after_put(entries, key, value);
}

/// Putting a value under one key leaves what stands under every other key.
pub proof fn lemma_lookup_put_other<V>(
    entries: Seq<(Seq<char>, V)>,
    key: Seq<char>,
    value: V,
    other: Seq<char>,
)
    requires
        other != key,
    ensures
        lookup(put(entries, key, value), other) == lookup(entries, other),
{
    lemma_index_of(entries, key);
    lemma_index_of(entries, other);
    let after = put(entries, key, value);
    lemma_index_of(after, other);
    match index_of(entries, other) {
        Some(i) => {
            assert(after[i] == entries[i]);
            let found = index_of(after, other)->0;
            if found < i {
                assert(after[found].0 == entries[found].0);
            }
        },
        None => {
            if index_of(after, other) is Some {
                let found = index_of(after, other)->0;
                if found < entries.len() {
                    assert(after[found].0 == entries[found].0);
                }
            }
        },
    }
}

/// Putting two values under one key, one after the other, leaves what
/// putting the second alone would leave.
pub proof fn lemma_put_twice<V>(
    entries: Seq<(Seq<char>, V)>,
    key: Seq<char>,
    first: V,
    second: V,
)
    ensures
        put(put(entries, key, first), key, second) == put(entries, key, second),
{
    lemma_index_of(entries, key);
    lemma_index_after_put(entries, key, first);
    let once = put(entries, key, first);
    match index_of(entries, key) {
        Some(i) => {
            assert(once.update(i, (key, second)) == entries.update(i, (key, second)));
        },
        None => {
            let n = entries.len() as int;
            assert(once.update(n, (key, second)) == entries.push((key, second)));
        },
    }
}

/// Where the keys are distinct, a key that is found stands exactly once.
pub proof fn lemma_count_key<V>(entries: Seq<(Seq<char>, V)>, key: Seq<char>)
    requires
        distinct_keys(entries),
    ensures
        count_key(entries, key) == if index_of(entries, key) is Some {
            1nat
        } else {
            0nat
        },
    decreases entries.len(),
{
    if entries.len() > 0 {
        let front = entries.drop_last();
        assert forall|i: int, j: int| 0 <= i < j < front.len() implies (#[trigger] front[i]).0 != (
        #[trigger] front[j]).0 by {
            assert(front[i] == entries[i] && front[j] == entries[j]);
        }
        lemma_count_key(front, key);
        lemma_index_of(front, key);
        if index_of(front, key) is Some {
            let i = index_of(front, key)->0;
            assert(entries[i] == front[i]);
            assert(entries[entries.len() - 1] == entries.last());
        }
    }
}

/// One entry of a table.
pub struct Entry<V> {
    pub key: String,
    pub value: V,
}

/// A table from text keys to values in which each key stands once.
pub struct Registry<V: View> {
    entries: Vec<Entry<V>>,
}

impl<V: View> Registry<V> {
    #[verifier::type_invariant]
    spec fn keys_are_distinct(self) -> bool {
        distinct_keys(self.model())
    }

    /// The keys with the views of their values, in the order of the table.
    pub closed spec fn model(self) -> Seq<(Seq<char>, V::V)> {
        self.entries@.map_values(|e: Entry<V>| (e.key@, e.value@))
    }

    /// An empty table.
    pub fn new() -> (r: Self)
        ensures
            r.model() == Seq::<(Seq<char>, V::V)>::empty(),
    {
        let r = Registry { entries: Vec::new() };
        assert(r.model() == Seq::<(Seq<char>, V::V)>::empty());
        r
    }

    /// The number of entries. The keys of a table are distinct.
    pub fn len(&self) -> (n: usize)
        ensures
            n == self.model().len(),
            distinct_keys(self.model()),
    {
        proof {
            use_type_invariant(self);
        }
        self.entries.len()
    }

    /// The index of the entry with the given key.
    pub fn position(&self, key: &str) -> (r: Option<usize>)
        ensures
            match r {
                Some(i) => index_of(self.model(), key@) == Some(i as int),
                None => index_of(self.model(), key@) is None,
            },
    {
        let mut i: usize = 0;
        proof {
            lemma_index_of(self.model(), key@);
        }
        while i < self.entries.len()
            invariant
                i <= self.entries.len(),
                forall|j: int| 0 <= j < i ==> (#[trigger] self.model()[j]).0 != key@,
            decreases self.entries.len() - i,
        {
            if text_is(self.entries[i].key.as_str(), key) {
                proof {
                    lemma_index_of(self.model(), key@);
                    assert(self.model()[i as int].0 == key@);
                }
                return Some(i);
            }
            i += 1;
        }
        proof {
            lemma_index_of(self.model(), key@);
            if index_of(self.model(), key@) is Some {
                let found = index_of(self.model(), key@)->0;
                assert(self.model()[found].0 == key@);
            }
        }
        None
    }

    /// The key of the entry at index `i`.
    pub fn key_at(&self, i: usize) -> (r: &String)
        requires
            i < self.model().len(),
        ensures
            r@ == self.model()[i as int].0,
    {
        &self.entries[i].key
    }

    /// The value of the entry at index `i`.
    pub fn value_at(&self, i: usize) -> (r: &V)
        requires
            i < self.model().len(),
        ensures
            r@ == self.model()[i as int].1,
    {
        &self.entries[i].value
    }

    /// The value under the given key.
    pub fn get(&self, key: &str) -> (r: Option<&V>)
        ensures
            match r {
                Some(v) => lookup(self.model(), key@) == Some(v@),
                None => lookup(self.model(), key@) is None,
            },
    {
        match self.position(key) {
            Some(i) => {
                proof {
                    lemma_index_of(self.model(), key@);
                }
                Some(&self.entries[i].value)
            },
            None => None,
        }
    }

    /// Whether the table has an entry with the given key.
    pub fn contains_key(&self, key: &str) -> (r: bool)
        ensures
            r == (index_of(self.model(), key@) is Some),
    {
        self.position(key).is_some()
    }

    /// Puts `value` under `key`.
    pub fn insert(&mut self, key: String, value: V)
        ensures
            final(self).model() == put(old(self).model(), key@, value@),
            distinct_keys(final(self).model()),
    {
        let ghost before = self.model();
        proof {
            use_type_invariant(&*self);
            lemma_index_of(before, key@);
            lemma_put_distinct(before, key@, value@);
        }
        let found = self.position(key.as_str());
        let mut entries: Vec<Entry<V>> = Vec::new();
        core::mem::swap(&mut self.entries, &mut entries);
        match found {
            Some(i) => {
                entries.set(i, Entry { key, value });
            },
            None => {
                entries.push(Entry { key, value });
            },
        }
        assert(entries@.map_values(|e: Entry<V>| (e.key@, e.value@)) == put(
            before,
            key@,
            value@,
        ));
        core::mem::swap(&mut self.entries, &mut entries);
    }
}

} // verus!
