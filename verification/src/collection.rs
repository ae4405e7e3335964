//! A collection of records, one per key.

use crate::key::EntityKey;
use crate::key::KeyView;
use vstd::prelude::*;

verus! {

/// Where the first entry with the key stands, if there is one.
pub open spec fn position<V>(entries: Seq<(KeyView, V)>, key: KeyView) -> Option<int>
    decreases entries.len(),
{
    if entries.len() == 0 {
        None
    } else {
        match position(entries.drop_last(), key) {
            Some(i) => Some(i),
            None => if entries.last().0 == key {
                Some(entries.len() - 1)
            } else {
                None
            },
        }
    }
}

/// The record stored under the key, if there is one.
pub open spec fn lookup<V>(entries: Seq<(KeyView, V)>, key: KeyView) -> Option<V> {
    match position(entries, key) {
        Some(i) => Some(entries[i].1),
        None => None,
    }
}

/// The entries after `value` was stored under `key`: it takes the place of
/// the record that the key had, or comes last if the key is new.
pub open spec fn stored<V>(entries: Seq<(KeyView, V)>, key: KeyView, value: V) -> Seq<
    (KeyView, V),
> {
    match position(entries, key) {
        Some(i) => entries.update(i, (key, value)),
        None => entries.push((key, value)),
    }
}

/// No key occurs twice.
pub open spec fn distinct_keys<V>(entries: Seq<(KeyView, V)>) -> bool {
    forall|i: int, j: int| 0 <= i < j < entries.len() ==> entries[i].0 != entries[j].0
}

/// Whether the entry at `k` holds `value` under `key` and no other entry has
/// that key.
pub open spec fn is_only_at<V>(entries: Seq<(KeyView, V)>, key: KeyView, value: V, k: int) -> bool {
    &&& 0 <= k < entries.len()
    &&& entries[k] == (key, value)
    &&& forall|l: int| 0 <= l < entries.len() && entries[l].0 == key ==> l == k
}

/// Whether exactly one entry has the key, and holds `value`.
pub open spec fn holds_once<V>(entries: Seq<(KeyView, V)>, key: KeyView, value: V) -> bool {
    exists|k: int| is_only_at(entries, key, value, k)
}

/// Whether `i` is where the earliest entry with the key stands.
pub open spec fn is_first_at<V>(entries: Seq<(KeyView, V)>, key: KeyView, i: int) -> bool {
    &&& 0 <= i < entries.len()
    &&& entries[i].0 == key
    &&& forall|j: int| 0 <= j < i ==> entries[j].0 != key
}

/// `position` finds the earliest entry with the key, and none only if no
/// entry has it.
pub proof fn lemma_position<V>(entries: Seq<(KeyView, V)>, key: KeyView)
    ensures
        position(entries, key) is None <==> forall|j: int|
            0 <= j < entries.len() ==> entries[j].0 != key,
        forall|i: int| position(entries, key) == Some(i) <==> is_first_at(entries, key, i),
    decreases entries.len(),
{
    if entries.len() > 0 {
        let front = entries.drop_last();
        lemma_position(front, key);
        assert forall|j: int| 0 <= j < front.len() implies front[j] == entries[j] by {}
        match position(front, key) {
            Some(k) => {
                assert(is_first_at(front, key, k));
                assert(is_first_at(entries, key, k));
            },
            None => {
                if entries.last().0 == key {
                    assert(is_first_at(entries, key, entries.len() - 1));
                }
            },
        }
    }
    if let Some(k) = position(entries, key) {
        assert(is_first_at(entries, key, k));
        assert(entries[k].0 == key);
    }
    assert forall|i: int| is_first_at(entries, key, i) implies position(entries, key) == Some(
        i,
    ) by {
        let k = position(entries, key)->0;
        assert(position(entries, key) is Some);
        assert(is_first_at(entries, key, k));
    }
}

/// Storing a record keeps the keys distinct, makes it the record of its
/// key, and leaves the record of every other key as it was.
pub proof fn lemma_stored<V>(entries: Seq<(KeyView, V)>, key: KeyView, value: V)
    requires
        distinct_keys(entries),
    ensures
        distinct_keys(stored(entries, key, value)),
        lookup(stored(entries, key, value), key) == Some(value),
        forall|other: KeyView|
            other != key ==> lookup(stored(entries, key, value), other) == lookup(entries, other),
        stored(entries, key, value).len() == if position(entries, key) is Some {
            entries.len()
        } else {
            entries.len() + 1
        },
{
    let after = stored(entries, key, value);
    lemma_position(entries, key);
    lemma_position(after, key);
    match position(entries, key) {
        Some(i) => {
            assert(is_first_at(entries, key, i));
            assert(is_first_at(after, key, i));
        },
        None => {
            assert(is_first_at(after, key, entries.len() as int));
        },
    }
    assert forall|other: KeyView| other != key implies lookup(after, other) == lookup(
        entries,
        other,
    ) by {
        lemma_position(entries, other);
        lemma_position(after, other);
        match position(entries, other) {
            Some(k) => {
                assert(is_first_at(entries, other, k));
                assert(is_first_at(after, other, k));
            },
            None => {
                if let Some(k) = position(after, other) {
                    assert(is_first_at(after, other, k));
                    assert(k < entries.len() ==> after[k].0 == entries[k].0);
                }
            },
        }
    }
}

/// One record with the key under which it is stored.
#[derive(Debug, PartialEq, Eq)]
pub struct Entry<T> {
    pub key: EntityKey,
    pub record: T,
}

/// Records by key. A key holds at most one record; storing a second record
/// under a key replaces the first.
#[derive(Debug)]
pub struct RecordMap<T> {
    entries: Vec<Entry<T>>,
}

impl<T: View> View for RecordMap<T> {
    type V = Seq<(KeyView, T::V)>;

    closed spec fn view(&self) -> Seq<(KeyView, T::V)> {
        self.entries@.map_values(|entry: Entry<T>| (entry.key@, entry.record@))
    }
}

impl<T> RecordMap<T> {
    #[verifier::type_invariant]
    spec fn keys_are_distinct(&self) -> bool {
        forall|i: int, j: int|
            0 <= i < j < self.entries@.len() ==> self.entries@[i].key@ != self.entries@[j].key@
    }
}

impl<T: View> RecordMap<T> {
    /// An empty collection.
    pub fn new() -> (map: RecordMap<T>)
        ensures
            map@ == Seq::<(KeyView, T::V)>::empty(),
    {
        let map = RecordMap { entries: Vec::new() };
        assert(map@ =~= Seq::<(KeyView, T::V)>::empty());
        map
    }

    /// The number of records.
    pub fn len(&self) -> (len: usize)
        ensures
            len == self@.len(),
            distinct_keys(self@),
    {
        proof {
            use_type_invariant(self);
        }
        self.entries.len()
    }

    /// Whether the collection holds no record.
    pub fn is_empty(&self) -> (empty: bool)
        ensures
            empty == (self@.len() == 0),
    {
        self.entries.len() == 0
    }

    fn find(&self, key: &EntityKey) -> (found: Option<usize>)
        ensures
            match found {
                Some(i) => position(self@, key@) == Some(i as int) && i < self.entries@.len(),
                None => position(self@, key@) is None,
            },
    {
        let mut i: usize = 0;
        while i < self.entries.len()
            invariant
                i <= self.entries@.len(),
                position(self@.take(i as int), key@) is None,
            decreases self.entries@.len() - i,
        {
            proof {
                assert(self@.take(i + 1).drop_last() =~= self@.take(i as int));
            }
            if self.entries[i].key.same(key) {
                proof {
                    lemma_position(self@, key@);
                    lemma_position(self@.take(i as int), key@);
                    assert forall|j: int| 0 <= j < i implies self@[j].0 != key@ by {
                        assert(self@.take(i as int)[j] == self@[j]);
                    }
                    assert(is_first_at(self@, key@, i as int));
                }
                return Some(i);
            }
            i += 1;
        }
        assert(self@.take(i as int) =~= self@);
        None
    }

    /// The record stored under the key, if there is one.
    pub fn get(&self, key: &EntityKey) -> (found: Option<&T>)
        ensures
            match found {
                Some(record) => lookup(self@, key@) == Some(record@),
                None => lookup(self@, key@) is None,
            },
    {
        match self.find(key) {
            Some(i) => Some(&self.entries[i].record),
            None => None,
        }
    }

    /// Whether a record is stored under the key.
    pub fn contains_key(&self, key: &EntityKey) -> (found: bool)
        ensures
            found == lookup(self@, key@).is_some(),
    {
        self.find(key).is_some()
    }

    /// The key and the record at position `index`, counted from 0 in the
    /// order in which the keys were first stored.
    pub fn entry(&self, index: usize) -> (found: Option<(&EntityKey, &T)>)
        ensures
            match found {
                Some((key, record)) => index < self@.len() && self@[index as int] == (
                    key@,
                    record@,
                ),
                None => index >= self@.len(),
            },
    {
        if index < self.entries.len() {
            let entry = &self.entries[index];
            Some((&entry.key, &entry.record))
        } else {
            None
        }
    }

    /// Stores the record under the key and hands back the record that the
    /// key had before, if it had one.
    pub fn insert(&mut self, key: EntityKey, record: T) -> (previous: Option<T>)
        ensures
            final(self)@ == stored(old(self)@, key@, record@),
            distinct_keys(final(self)@),
            match previous {
                Some(replaced) => lookup(old(self)@, key@) == Some(replaced@),
                None => lookup(old(self)@, key@) is None,
            },
    {
        proof {
            use_type_invariant(&*self);
            lemma_stored(self@, key@, record@);
        }
        let found = self.find(&key);
        proof {
            lemma_position(self@, key@);
        }
        let mut entries: Vec<Entry<T>> = Vec::new();
        core::mem::swap(&mut self.entries, &mut entries);
        let previous = match found {
            Some(i) => {
                let mut record = record;
                core::mem::swap(&mut entries[i].record, &mut record);
                Some(record)
            },
            None => {
                entries.push(Entry { key, record });
                None
            },
        };
        proof {
            let after = entries@.map_values(|entry: Entry<T>| (entry.key@, entry.record@));
            assert(after =~= stored(old(self)@, key@, record@)) by {
                if let Some(i) = found {
                    assert(is_first_at(old(self)@, key@, i as int));
                }
            }
            assert forall|i: int, j: int| 0 <= i < j < entries@.len() implies entries@[i].key@
                != entries@[j].key@ by {
                assert(after[i].0 == entries@[i].key@);
                assert(after[j].0 == entries@[j].key@);
            }
        }
        core::mem::swap(&mut self.entries, &mut entries);
        previous
    }
}

} // verus!
