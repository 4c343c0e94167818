//! A map from small keys to values, kept as a list of entries.

use crate::primitives::{Address, U256};
use vstd::prelude::*;

verus! {

/// A key: two keys can be compared, and are the same when they are equal.
pub trait Key: Sized {
    /// Whether two keys are the same.
    fn same_key(&self, other: &Self) -> (r: bool)
        ensures
            r == (*self == *other),
    ;
}

impl Key for Address {
    fn same_key(&self, other: &Address) -> (r: bool) {
        self.same(other)
    }
}

impl Key for U256 {
    fn same_key(&self, other: &U256) -> (r: bool) {
        self.same(other)
    }
}

impl Key for (Address, U256) {
    fn same_key(&self, other: &(Address, U256)) -> (r: bool) {
        self.0.same(&other.0) && self.1.same(&other.1)
    }
}

/// The first entry under a key is at `i`.
pub open spec fn first_at<K, V>(entries: Seq<(K, V)>, key: K, i: int) -> bool {
    &&& 0 <= i < entries.len()
    &&& entries[i].0 == key
    &&& forall|j: int| 0 <= j < i ==> (#[trigger] entries[j]).0 != key
}

/// What a list of entries maps keys to. The first entry under a key counts.
pub open spec fn mapped<K, V>(entries: Seq<(K, V)>) -> Map<K, V> {
    Map::new(
        |key: K| exists|i: int| first_at(entries, key, i),
        |key: K| entries[choose|i: int| first_at(entries, key, i)].1,
    )
}

/// The first entry under a key is the one that counts, and there is one such.
pub proof fn lemma_mapped<K, V>(entries: Seq<(K, V)>, key: K, i: int)
    requires
        first_at(entries, key, i),
    ensures
        mapped(entries).contains_key(key),
        mapped(entries)[key] == entries[i].1,
        forall|j: int| first_at(entries, key, j) ==> j == i,
{
    let c = choose|c: int| first_at(entries, key, c);
    assert(first_at(entries, key, c));
    if c < i {
        assert(entries[c].0 != key);
    }
    if i < c {
        assert(entries[i].0 != key);
    }
    assert forall|j: int| first_at(entries, key, j) implies j == i by {
        if j < i {
            assert(entries[j].0 != key);
        }
        if i < j {
            assert(entries[i].0 != key);
        }
    }
}

proof fn lemma_first<K, V>(entries: Seq<(K, V)>, key: K, i: int) -> (r: int)
    requires
        0 <= i < entries.len(),
        entries[i].0 == key,
    ensures
        first_at(entries, key, r),
        r <= i,
    decreases i,
{
    if exists|j: int| 0 <= j < i && (#[trigger] entries[j]).0 == key {
        let j = choose|j: int| 0 <= j < i && (#[trigger] entries[j]).0 == key;
        lemma_first(entries, key, j)
    } else {
        i
    }
}

/// Two maps agree on a key.
pub open spec fn agree<K, V>(a: Map<K, V>, b: Map<K, V>, key: K) -> bool {
    a.contains_key(key) == b.contains_key(key) && (a.contains_key(key) ==> a[key] == b[key])
}

proof fn lemma_agree<K, V>(a: Map<K, V>, b: Map<K, V>)
    requires
        forall|key: K| #[trigger] agree(a, b, key),
    ensures
        a == b,
{
    assert forall|key: K| #[trigger] a.dom().contains(key) == b.dom().contains(key) by {
        assert(agree(a, b, key));
    }
    assert forall|key: K| #[trigger] a.dom().contains(key) implies a[key] == b[key] by {
        assert(agree(a, b, key));
    }
    assert(a =~= b);
}

/// The value at a place changes.
proof fn lemma_updated<K, V>(entries: Seq<(K, V)>, i: int, value: V)
    requires
        0 <= i < entries.len(),
    ensures
        forall|key: K, j: int|
            #![trigger first_at(entries, key, j)]
            first_at(entries.update(i, (entries[i].0, value)), key, j) == first_at(entries, key, j),
        forall|key: K|
            #![trigger first_at(entries, key, i)]
            first_at(entries, key, i) ==> mapped(entries.update(i, (entries[i].0, value)))
                == mapped(entries).insert(key, value),
{
    let after = entries.update(i, (entries[i].0, value));
    assert forall|key: K, j: int|
        first_at(after, key, j) == #[trigger] first_at(entries, key, j) by {
        if first_at(entries, key, j) {
            assert forall|k: int| 0 <= k < j implies (#[trigger] after[k]).0 != key by {
                assert(entries[k].0 != key);
            }
        }
        if first_at(after, key, j) {
            assert forall|k: int| 0 <= k < j implies (#[trigger] entries[k]).0 != key by {
                assert(after[k].0 != key);
            }
        }
    }
    assert forall|key: K| #[trigger] first_at(entries, key, i) implies mapped(after) == mapped(
        entries,
    ).insert(key, value) by {
        let want = mapped(entries).insert(key, value);
        lemma_mapped(entries, key, i);
        lemma_mapped(after, key, i);
        assert forall|other: K| #[trigger] agree(mapped(after), want, other) by {
            if exists|j: int| first_at(entries, other, j) {
                let j = choose|j: int| first_at(entries, other, j);
                lemma_mapped(entries, other, j);
                lemma_mapped(after, other, j);
            } else {
                assert(!mapped(entries).contains_key(other));
                if mapped(after).contains_key(other) {
                    let j = choose|j: int| first_at(after, other, j);
                    assert(first_at(entries, other, j));
                }
            }
        }
        lemma_agree(mapped(after), want);
    }
}

/// An entry under a new key is added.
proof fn lemma_pushed<K, V>(entries: Seq<(K, V)>, key: K, value: V)
    requires
        !mapped(entries).contains_key(key),
    ensures
        mapped(entries.push((key, value))) == mapped(entries).insert(key, value),
        first_at(entries.push((key, value)), key, entries.len() as int),
        forall|other: K, j: int|
            #![trigger first_at(entries, other, j)]
            first_at(entries, other, j) ==> first_at(entries.push((key, value)), other, j),
{
    let after = entries.push((key, value));
    assert forall|j: int| 0 <= j < entries.len() implies (#[trigger] after[j]).0 != key by {
        if entries[j].0 == key {
            let f = lemma_first(entries, key, j);
            lemma_mapped(entries, key, f);
        }
    }
    assert(first_at(after, key, entries.len() as int));
    assert forall|other: K, j: int| #[trigger] first_at(entries, other, j) implies first_at(
        after,
        other,
        j,
    ) by {
        assert forall|k: int| 0 <= k < j implies (#[trigger] after[k]).0 != other by {
            assert(entries[k].0 != other);
        }
    }
    let want = mapped(entries).insert(key, value);
    assert forall|other: K| #[trigger] agree(mapped(after), want, other) by {
        if other == key {
            lemma_mapped(after, key, entries.len() as int);
        } else if exists|j: int| first_at(entries, other, j) {
            let j = choose|j: int| first_at(entries, other, j);
            lemma_mapped(entries, other, j);
            lemma_mapped(after, other, j);
        } else {
            assert(!mapped(entries).contains_key(other));
            if mapped(after).contains_key(other) {
                let j = choose|j: int| first_at(after, other, j);
                assert(after[j].0 == other);
                assert(j < entries.len());
                assert(entries[j].0 == other);
                let f = lemma_first(entries, other, j);
                assert(first_at(entries, other, f));
            }
        }
    }
    lemma_agree(mapped(after), want);
}

/// The first entry under a key is taken out; others under that key may be left.
proof fn lemma_removed<K, V>(entries: Seq<(K, V)>, key: K, i: int)
    requires
        first_at(entries, key, i),
    ensures
        mapped(entries.remove(i)).remove(key) == mapped(entries).remove(key),
{
    let after = entries.remove(i);
    let a = mapped(after).remove(key);
    let b = mapped(entries).remove(key);
    assert forall|other: K| #[trigger] agree(a, b, other) by {
        if other != key {
            if exists|j: int| first_at(entries, other, j) {
                let j = choose|j: int| first_at(entries, other, j);
                let at = if j < i {
                    j
                } else {
                    j - 1
                };
                assert forall|k: int| 0 <= k < at implies (#[trigger] after[k]).0 != other by {
                    if k < i {
                        assert(entries[k].0 != other);
                    } else {
                        assert(entries[k + 1].0 != other);
                    }
                }
                assert(first_at(after, other, at));
                lemma_mapped(entries, other, j);
                lemma_mapped(after, other, at);
            } else {
                assert(!mapped(entries).contains_key(other));
                if mapped(after).contains_key(other) {
                    let j = choose|j: int| first_at(after, other, j);
                    let at = if j < i {
                        j
                    } else {
                        j + 1
                    };
                    assert(entries[at].0 == after[j].0);
                    let f = lemma_first(entries, other, at);
                    assert(first_at(entries, other, f));
                }
            }
        }
    }
    lemma_agree(a, b);
}

/// A map, kept as a list of entries.
#[derive(Debug)]
pub struct KeyedMap<K, V> {
    entries: Vec<(K, V)>,
}

impl<K, V> View for KeyedMap<K, V> {
    type V = Map<K, V>;

    closed spec fn view(&self) -> Map<K, V> {
        mapped(self.entries@)
    }
}

impl<K: Key, V> Default for KeyedMap<K, V> {
    fn default() -> (r: KeyedMap<K, V>)
        ensures
            r@ == Map::<K, V>::empty(),
    {
        KeyedMap::new()
    }
}

impl<K: Key, V> KeyedMap<K, V> {
    /// The value under the key is kept at the place `i`.
    pub closed spec fn kept_at(&self, key: K, i: int) -> bool {
        first_at(self.entries@, key, i)
    }

    /// The number of places.
    pub closed spec fn places(&self) -> nat {
        self.entries@.len()
    }

    /// A key whose value is kept somewhere is there.
    pub proof fn lemma_kept(&self, key: K, i: int)
        requires
            self.kept_at(key, i),
        ensures
            self@.contains_key(key),
    {
        lemma_mapped(self.entries@, key, i);
    }

    /// A map of nothing.
    pub fn new() -> (r: KeyedMap<K, V>)
        ensures
            r@ == Map::<K, V>::empty(),
    {
        let r: KeyedMap<K, V> = KeyedMap { entries: Vec::new() };
        assert(r@ =~= Map::<K, V>::empty()) by {
            assert forall|key: K| !r@.contains_key(key) by {
                if exists|i: int| first_at(r.entries@, key, i) {
                    let i = choose|i: int| first_at(r.entries@, key, i);
                    assert(0 <= i < 0);
                }
            }
        }
        r
    }

    /// The place where the value under the key is kept, if there is one.
    pub fn place_of(&self, key: &K) -> (r: Option<usize>)
        ensures
            match r {
                Some(i) => self@.contains_key(*key) && self.kept_at(*key, i as int) && i
                    < self.places(),
                None => !self@.contains_key(*key),
            },
    {
        let mut i: usize = 0;
        while i < self.entries.len()
            invariant
                i <= self.entries@.len(),
                forall|j: int| 0 <= j < i ==> (#[trigger] self.entries@[j]).0 != *key,
            decreases self.entries@.len() - i,
        {
            if self.entries[i].0.same_key(key) {
                proof {
                    lemma_mapped(self.entries@, *key, i as int);
                }
                return Some(i);
            }
            i = i + 1;
        }
        None
    }

    /// The value at a place.
    pub fn value_at(&self, i: usize) -> (r: &V)
        requires
            i < self.places(),
        ensures
            forall|key: K| #[trigger]
                self.kept_at(key, i as int) ==> self@.contains_key(key) && *r == self@[key],
    {
        proof {
            assert forall|key: K| #[trigger] self.kept_at(key, i as int) implies self@.contains_key(
                key,
            ) && self.entries@[i as int].1 == self@[key] by {
                lemma_mapped(self.entries@, key, i as int);
            }
        }
        &self.entries[i].1
    }

    /// The value at a place, for writing. Every value stays where it is kept.
    pub fn value_at_mut(&mut self, i: usize) -> (r: &mut V)
        requires
            i < old(self).places(),
        ensures
            forall|key: K| #[trigger]
                old(self).kept_at(key, i as int) ==> old(self)@.contains_key(key) && *r == old(
                    self,
                )@[key] && final(self)@ == old(self)@.insert(key, *final(r)),
            forall|key: K, j: int| #[trigger]
                final(self).kept_at(key, j) == old(self).kept_at(key, j),
            final(self).places() == old(self).places(),
    {
        proof {
            let ghost before = self.entries@;
            assert forall|key: K| #[trigger] first_at(before, key, i as int) implies mapped(
                before,
            ).contains_key(key) && before[i as int].1 == mapped(before)[key] by {
                lemma_mapped(before, key, i as int);
            }
            assert forall|value: V|
                #![trigger before.update(i as int, (before[i as int].0, value))]
                {
                    &&& forall|key: K, j: int|
                        #![trigger first_at(before, key, j)]
                        first_at(
                            before.update(i as int, (before[i as int].0, value)),
                            key,
                            j,
                        ) == first_at(before, key, j)
                    &&& forall|key: K|
                        #![trigger first_at(before, key, i as int)]
                        first_at(before, key, i as int) ==> mapped(
                            before.update(i as int, (before[i as int].0, value)),
                        ) == mapped(before).insert(key, value)
                } by {
                lemma_updated(before, i as int, value);
            }
        }
        &mut self.entries[i].1
    }

    /// Whether there is a value under the key.
    pub fn contains_key(&self, key: &K) -> (r: bool)
        ensures
            r == self@.contains_key(*key),
    {
        self.place_of(key).is_some()
    }

    /// The value under the key.
    pub fn get(&self, key: &K) -> (r: Option<&V>)
        ensures
            match r {
                Some(v) => self@.contains_key(*key) && *v == self@[*key],
                None => !self@.contains_key(*key),
            },
    {
        match self.place_of(key) {
            Some(i) => Some(self.value_at(i)),
            None => None,
        }
    }

    /// The value under the key, for writing.
    pub fn get_mut(&mut self, key: &K) -> (r: Option<&mut V>)
        ensures
            match r {
                Some(v) => old(self)@.contains_key(*key) && *v == old(self)@[*key] && final(self)@
                    == old(self)@.insert(*key, *final(v)),
                None => !old(self)@.contains_key(*key) && final(self)@ == old(self)@,
            },
            forall|key: K, j: int| #[trigger]
                final(self).kept_at(key, j) == old(self).kept_at(key, j),
            final(self).places() == old(self).places(),
    {
        match self.place_of(key) {
            Some(i) => Some(self.value_at_mut(i)),
            None => None,
        }
    }

    /// Puts a value under the key and hands back the one that was there.
    pub fn insert(&mut self, key: K, value: V) -> (r: Option<V>)
        ensures
            final(self)@ == old(self)@.insert(key, value),
            r == (if old(self)@.contains_key(key) {
                Some(old(self)@[key])
            } else {
                None
            }),
            forall|other: K, j: int|
                #![trigger old(self).kept_at(other, j)]
                old(self).kept_at(other, j) ==> final(self).kept_at(other, j),
            final(self).places() >= old(self).places(),
    {
        match self.place_of(&key) {
            Some(i) => {
                let mut previous = value;
                std::mem::swap(self.value_at_mut(i), &mut previous);
                Some(previous)
            },
            None => {
                proof {
                    lemma_pushed(self.entries@, key, value);
                }
                self.entries.push((key, value));
                None
            },
        }
    }

    /// Puts a value under a key that has none, and returns its place.
    pub fn insert_new(&mut self, key: K, value: V) -> (r: usize)
        requires
            !old(self)@.contains_key(key),
        ensures
            final(self)@ == old(self)@.insert(key, value),
            final(self).kept_at(key, r as int),
            r < final(self).places(),
    {
        let i: usize = self.entries.len();
        proof {
            lemma_pushed(self.entries@, key, value);
        }
        self.entries.push((key, value));
        i
    }

    /// Takes out the value under the key.
    pub fn remove(&mut self, key: &K) -> (r: Option<V>)
        ensures
            final(self)@ == old(self)@.remove(*key),
            r == (if old(self)@.contains_key(*key) {
                Some(old(self)@[*key])
            } else {
                None
            }),
    {
        let first = match self.place_of(key) {
            Some(i) => i,
            None => {
                assert(self@ =~= old(self)@.remove(*key));
                return None;
            },
        };
        proof {
            lemma_removed(self.entries@, *key, first as int);
            lemma_mapped(self.entries@, *key, first as int);
        }
        let (_, value) = self.entries.remove(first);
        let mut more: Option<usize> = self.place_of(key);
        while more.is_some()
            invariant
                self@.remove(*key) == old(self)@.remove(*key),
                match more {
                    Some(i) => self.kept_at(*key, i as int) && i < self.places(),
                    None => !self@.contains_key(*key),
                },
            decreases self.places(),
        {
            let i: usize = more.unwrap();
            proof {
                lemma_removed(self.entries@, *key, i as int);
            }
            let _ = self.entries.remove(i);
            more = self.place_of(key);
        }
        assert(self@ =~= self@.remove(*key));
        Some(value)
    }

    /// Takes everything out.
    pub fn clear(&mut self)
        ensures
            final(self)@ == Map::<K, V>::empty(),
    {
        *self = KeyedMap::new();
    }
}

} // verus!
