//! A small keyed table with text keys: the in-memory form of the contract's
//! persistent maps. Entries keep the order in which their keys first came.

use vstd::prelude::*;

verus! {

/// The map that a sequence of distinct keys and a sequence of values stand for.
pub open spec fn pairing<V>(keys: Seq<Seq<char>>, values: Seq<V>) -> Map<Seq<char>, V> {
    Map::new(|k: Seq<char>| keys.contains(k), |k: Seq<char>| values[keys.index_of(k)])
}

/// In a sequence without repetition each element is found at its own place.
pub proof fn lemma_index_of_unique(keys: Seq<Seq<char>>, i: int)
    requires
        keys.no_duplicates(),
        0 <= i < keys.len(),
    ensures
        keys.contains(keys[i]),
        keys.index_of(keys[i]) == i,
{
    assert(keys.contains(keys[i]));
}

/// Appending a key that is not yet present extends the map by one entry.
pub proof fn lemma_pairing_push<V>(keys: Seq<Seq<char>>, values: Seq<V>, key: Seq<char>, value: V)
    requires
        keys.no_duplicates(),
        keys.len() == values.len(),
        !keys.contains(key),
    ensures
        keys.push(key).no_duplicates(),
        pairing(keys.push(key), values.push(value)) == pairing(keys, values).insert(key, value),
{
    let keys2 = keys.push(key);
    let values2 = values.push(value);
    assert(keys2.no_duplicates()) by {
        assert forall|i: int, j: int|
            0 <= i < keys2.len() && 0 <= j < keys2.len() && i != j implies keys2[i] != keys2[j] by {
            if i < keys.len() && j < keys.len() {
            } else if i < keys.len() {
                assert(keys.contains(keys[i]));
            } else {
                assert(keys.contains(keys[j]));
            }
        }
    }
    let lhs = pairing(keys2, values2);
    let rhs = pairing(keys, values).insert(key, value);
    assert forall|k: Seq<char>| lhs.dom().contains(k) <==> rhs.dom().contains(k) by {
        if keys2.contains(k) {
            let i = keys2.index_of(k);
            if i < keys.len() {
                assert(keys[i] == k);
            }
        }
        if keys.contains(k) {
            let i = keys.index_of(k);
            assert(keys2[i] == k);
        }
        if k == key {
            assert(keys2[keys.len() as int] == k);
        }
    }
    assert forall|k: Seq<char>| lhs.dom().contains(k) implies lhs[k] == rhs[k] by {
        let i = keys2.index_of(k);
        lemma_index_of_unique(keys2, i);
        if i < keys.len() {
            assert(keys[i] == k);
            lemma_index_of_unique(keys, i);
        }
    }
    assert(lhs =~= rhs);
}

/// Replacing the value at a key's place replaces the key's entry.
pub proof fn lemma_pairing_update<V>(keys: Seq<Seq<char>>, values: Seq<V>, i: int, value: V)
    requires
        keys.no_duplicates(),
        keys.len() == values.len(),
        0 <= i < keys.len(),
    ensures
        pairing(keys, values.update(i, value)) == pairing(keys, values).insert(keys[i], value),
{
    let lhs = pairing(keys, values.update(i, value));
    let rhs = pairing(keys, values).insert(keys[i], value);
    lemma_index_of_unique(keys, i);
    assert forall|k: Seq<char>| lhs.dom().contains(k) implies lhs[k] == rhs[k] by {
        let j = keys.index_of(k);
        lemma_index_of_unique(keys, j);
    }
    assert(lhs =~= rhs);
}

/// Dropping a key's place drops the key's entry and nothing else.
pub proof fn lemma_pairing_remove<V>(keys: Seq<Seq<char>>, values: Seq<V>, i: int)
    requires
        keys.no_duplicates(),
        keys.len() == values.len(),
        0 <= i < keys.len(),
    ensures
        keys.remove(i).no_duplicates(),
        !keys.remove(i).contains(keys[i]),
        pairing(keys.remove(i), values.remove(i)) == pairing(keys, values).remove(keys[i]),
{
    let keys2 = keys.remove(i);
    let values2 = values.remove(i);
    assert forall|a: int| 0 <= a < keys2.len() implies keys2[a] == keys[if a < i {
        a
    } else {
        a + 1
    }] by {}
    assert(keys2.no_duplicates());
    assert(!keys2.contains(keys[i]));
    let lhs = pairing(keys2, values2);
    let rhs = pairing(keys, values).remove(keys[i]);
    assert forall|k: Seq<char>| lhs.dom().contains(k) <==> rhs.dom().contains(k) by {
        if keys2.contains(k) {
            let a = keys2.index_of(k);
            assert(keys[if a < i { a } else { a + 1 }] == k);
        }
        if keys.contains(k) && k != keys[i] {
            let b = keys.index_of(k);
            assert(keys2[if b < i { b } else { b - 1 }] == k);
        }
    }
    assert forall|k: Seq<char>| lhs.dom().contains(k) implies lhs[k] == rhs[k] by {
        let a = keys2.index_of(k);
        lemma_index_of_unique(keys2, a);
        let b = if a < i { a } else { a + 1 };
        assert(keys[b] == k);
        lemma_index_of_unique(keys, b);
    }
    assert(lhs =~= rhs);
}

/// A table from text keys to values of type `V`.
pub struct Table<V> {
    names: Vec<String>,
    slots: Vec<V>,
}

impl<V> View for Table<V> {
    type V = Map<Seq<char>, V>;

    /// The table as a map from key text to value.
    open spec fn view(&self) -> Map<Seq<char>, V> {
        pairing(self.keys(), self.values())
    }
}

impl<V> Table<V> {
    /// The keys, in the order in which they were first inserted.
    pub closed spec fn keys(&self) -> Seq<Seq<char>> {
        Seq::new(self.names@.len(), |i: int| self.names@[i]@)
    }

    /// The values, each at the place of its key.
    pub closed spec fn values(&self) -> Seq<V> {
        self.slots@
    }

    /// Every key has one value, and no key occurs twice.
    pub open spec fn wf(&self) -> bool {
        self.keys().len() == self.values().len() && self.keys().no_duplicates()
    }

    /// The empty table.
    pub fn new() -> (t: Self)
        ensures
            t.wf(),
            t.keys() == Seq::<Seq<char>>::empty(),
            t.values() == Seq::<V>::empty(),
            t@ == Map::<Seq<char>, V>::empty(),
    {
        let t = Table { names: Vec::new(), slots: Vec::new() };
        assert(t.keys() =~= Seq::<Seq<char>>::empty());
        assert(t@ =~= Map::<Seq<char>, V>::empty());
        t
    }

    /// Number of entries.
    pub fn len(&self) -> (n: usize)
        requires
            self.wf(),
        ensures
            n == self.keys().len(),
            n == self@.dom().len(),
            self@.dom().finite(),
    {
        proof {
            self.lemma_dom();
        }
        self.names.len()
    }

    /// The domain of the view is the set of the keys.
    pub proof fn lemma_dom(&self)
        requires
            self.wf(),
        ensures
            self@.dom() == self.keys().to_set(),
            self@.dom().finite(),
            self@.dom().len() == self.keys().len(),
    {
        assert(self@.dom() =~= self.keys().to_set());
        self.keys().unique_seq_to_set();
    }

    /// Each place holds an entry of the view.
    pub proof fn lemma_entry(&self, i: int)
        requires
            self.wf(),
            0 <= i < self.keys().len(),
        ensures
            self@.contains_key(self.keys()[i]),
            self@[self.keys()[i]] == self.values()[i],
    {
        lemma_index_of_unique(self.keys(), i);
    }

    /// The place of `key`, if it is present.
    pub fn position(&self, key: &String) -> (at: Option<usize>)
        requires
            self.wf(),
        ensures
            at.is_some() <==> self@.contains_key(key@),
            at.is_some() ==> at.unwrap() < self.keys().len() && self.keys()[at.unwrap() as int]
                == key@,
    {
        let mut i: usize = 0;
        while i < self.names.len()
            invariant
                i <= self.names@.len(),
                forall|j: int| 0 <= j < i ==> self.keys()[j] != key@,
            decreases self.names@.len() - i,
        {
            if self.names[i] == *key {
                assert(self.keys()[i as int] == key@);
                return Some(i);
            }
            i += 1;
        }
        None
    }

    /// The key at place `i`.
    pub fn key_at(&self, i: usize) -> (key: &String)
        requires
            self.wf(),
            i < self.keys().len(),
        ensures
            key@ == self.keys()[i as int],
    {
        &self.names[i]
    }

    /// The value at place `i`.
    pub fn value_at(&self, i: usize) -> (value: &V)
        requires
            self.wf(),
            i < self.keys().len(),
        ensures
            *value == self.values()[i as int],
            self@.contains_key(self.keys()[i as int]),
            *value == self@[self.keys()[i as int]],
    {
        proof {
            self.lemma_entry(i as int);
        }
        &self.slots[i]
    }

    /// The value stored under `key`, if any.
    pub fn get(&self, key: &String) -> (value: Option<&V>)
        requires
            self.wf(),
        ensures
            value.is_some() <==> self@.contains_key(key@),
            value.is_some() ==> *value.unwrap() == self@[key@],
    {
        match self.position(key) {
            Some(i) => {
                proof {
                    self.lemma_entry(i as int);
                }
                Some(&self.slots[i])
            },
            None => None,
        }
    }

    /// Stores `value` under `key` and hands back what was there before. A new
    /// key goes to the end; a known key keeps its place.
    pub fn insert(&mut self, key: String, value: V) -> (previous: Option<V>)
        requires
            old(self).wf(),
        ensures
            final(self).wf(),
            final(self)@ == old(self)@.insert(key@, value),
            previous == old(self)@.get(key@),
            old(self)@.contains_key(key@) ==> final(self).keys() == old(self).keys()
                && final(self).values() == old(self).values().update(
                old(self).keys().index_of(key@),
                value,
            ),
            !old(self)@.contains_key(key@) ==> final(self).keys() == old(self).keys().push(key@)
                && final(self).values() == old(self).values().push(value),
    {
        match self.position(&key) {
            Some(i) => {
                let previous = self.slots.remove(i);
                self.slots.insert(i, value);
                proof {
                    assert(self.slots@ =~= old(self).slots@.update(i as int, value));
                    old(self).lemma_entry(i as int);
                    lemma_pairing_update(old(self).keys(), old(self).values(), i as int, value);
                    lemma_index_of_unique(old(self).keys(), i as int);
                    assert(self.keys() =~= old(self).keys());
                }
                Some(previous)
            },
            None => {
                self.names.push(key);
                self.slots.push(value);
                proof {
                    assert(self.keys() =~= old(self).keys().push(key@));
                    lemma_pairing_push(old(self).keys(), old(self).values(), key@, value);
                }
                None
            },
        }
    }

    /// Puts `value` at place `i` and hands back the value that was there. The
    /// key at that place stays.
    pub fn replace_at(&mut self, i: usize, value: V) -> (previous: V)
        requires
            old(self).wf(),
            i < old(self).keys().len(),
        ensures
            final(self).wf(),
            final(self).keys() == old(self).keys(),
            final(self).values() == old(self).values().update(i as int, value),
            final(self)@ == old(self)@.insert(old(self).keys()[i as int], value),
            previous == old(self).values()[i as int],
    {
        let previous = self.slots.remove(i);
        self.slots.insert(i, value);
        proof {
            assert(self.slots@ =~= old(self).slots@.update(i as int, value));
            lemma_pairing_update(old(self).keys(), old(self).values(), i as int, value);
            assert(self.keys() =~= old(self).keys());
        }
        previous
    }

    /// Removes the entry of `key`, if there is one, and hands its value back.
    pub fn remove(&mut self, key: &String) -> (previous: Option<V>)
        requires
            old(self).wf(),
        ensures
            final(self).wf(),
            final(self)@ == old(self)@.remove(key@),
            previous == old(self)@.get(key@),
            !old(self)@.contains_key(key@) ==> final(self).keys() == old(self).keys()
                && final(self).values() == old(self).values(),
            old(self)@.contains_key(key@) ==> final(self).keys() == old(self).keys().remove(
                old(self).keys().index_of(key@),
            ) && final(self).values() == old(self).values().remove(
                old(self).keys().index_of(key@),
            ),
    {
        match self.position(key) {
            Some(i) => {
                self.names.remove(i);
                let previous = self.slots.remove(i);
                proof {
                    assert(self.keys() =~= old(self).keys().remove(i as int));
                    old(self).lemma_entry(i as int);
                    lemma_pairing_remove(old(self).keys(), old(self).values(), i as int);
                    lemma_index_of_unique(old(self).keys(), i as int);
                }
                Some(previous)
            },
            None => {
                proof {
                    assert(self@ =~= old(self)@.remove(key@));
                }
                None
            },
        }
    }
}

impl Table<u64> {
    /// The entries as a list of key and value, in the order of the keys.
    pub fn listing(&self) -> (list: Vec<(String, u64)>)
        requires
            self.wf(),
        ensures
            list@.len() == self.keys().len(),
            forall|i: int|
                0 <= i < list@.len() ==> (#[trigger] list@[i]).0@ == self.keys()[i] && list@[i].1
                    == self.values()[i],
    {
        let count: usize = self.len();
        let mut list: Vec<(String, u64)> = Vec::new();
        let mut i: usize = 0;
        while i < count
            invariant
                self.wf(),
                count == self.keys().len(),
                i <= count,
                list@.len() == i,
                forall|j: int|
                    0 <= j < i ==> (#[trigger] list@[j]).0@ == self.keys()[j] && list@[j].1
                        == self.values()[j],
            decreases count - i,
        {
            let number: u64 = *self.value_at(i);
            list.push((self.key_at(i).clone(), number));
            i += 1;
        }
        list
    }
}

} // verus!
