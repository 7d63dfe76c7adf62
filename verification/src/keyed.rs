//! An insertion-ordered map from names to values, backed by a vector.

use vstd::prelude::*;

verus! {

/// One entry of a [`KeyedMap`].
#[derive(Debug, PartialEq, Eq)]
pub struct Entry<V> {
    pub key: String,
    pub value: V,
}

/// A map keyed by strings that remembers the order in which keys first arrived.
///
/// No key occurs twice: that is the type's invariant, kept by every method.
#[derive(Debug, PartialEq, Eq)]
pub struct KeyedMap<V> {
    entries: Vec<Entry<V>>,
}

/// The position of `key` among `keys`, or `keys.len()` when it does not occur.
pub open spec fn position_of(keys: Seq<Seq<char>>, key: Seq<char>) -> int
    decreases keys.len(),
{
    if keys.len() == 0 {
        0
    } else if keys[0] == key {
        0
    } else {
        1 + position_of(keys.drop_first(), key)
    }
}

pub proof fn lemma_position_of(keys: Seq<Seq<char>>, key: Seq<char>)
    ensures
        0 <= position_of(keys, key) <= keys.len(),
        position_of(keys, key) < keys.len() ==> keys[position_of(keys, key)] == key,
        forall|i: int| 0 <= i < position_of(keys, key) ==> keys[i] != key,
        position_of(keys, key) < keys.len() <==> keys.contains(key),
    decreases keys.len(),
{
    if keys.len() == 0 {
    } else if keys[0] == key {
    } else {
        let rest = keys.drop_first();
        lemma_position_of(rest, key);
        let p = position_of(rest, key);
        assert forall|i: int| 0 <= i < p + 1 implies keys[i] != key by {
            if i > 0 {
                assert(keys[i] == rest[i - 1]);
            }
        }
        if p < rest.len() {
            assert(keys[p + 1] == rest[p]);
        }
        if keys.contains(key) {
            let j = choose|j: int| 0 <= j < keys.len() && keys[j] == key;
            assert(rest[j - 1] == key);
        }
    }
}

/// No key occurs twice in `keys`.
pub open spec fn distinct(keys: Seq<Seq<char>>) -> bool {
    forall|i: int, j: int| 0 <= i < j < keys.len() ==> keys[i] != keys[j]
}

/// The map that sends each of `keys` to the value at the same position.
pub open spec fn map_of<V>(keys: Seq<Seq<char>>, values: Seq<V>) -> Map<Seq<char>, V> {
    Map::new(|k: Seq<char>| keys.contains(k), |k: Seq<char>| values[position_of(keys, k)])
}

/// With distinct keys, each key is found at its own position.
pub proof fn lemma_position_of_distinct(keys: Seq<Seq<char>>, i: int)
    requires
        distinct(keys),
        0 <= i < keys.len(),
    ensures
        position_of(keys, keys[i]) == i,
{
    lemma_position_of(keys, keys[i]);
    let p = position_of(keys, keys[i]);
    assert(keys.contains(keys[i]));
    if p < i {
        assert(keys[p] != keys[i]);
    }
}

/// Appending a fresh key extends the map by one binding.
pub proof fn lemma_map_of_push<V>(keys: Seq<Seq<char>>, values: Seq<V>, key: Seq<char>, value: V)
    requires
        keys.len() == values.len(),
        !keys.contains(key),
    ensures
        map_of(keys.push(key), values.push(value)) == map_of(keys, values).insert(key, value),
{
    let keys2 = keys.push(key);
    let values2 = values.push(value);
    assert forall|k: Seq<char>| keys2.contains(k) <==> (k == key || keys.contains(k)) by {
        if keys2.contains(k) {
            let j = choose|j: int| 0 <= j < keys2.len() && keys2[j] == k;
            if j < keys.len() {
                assert(keys[j] == k);
            }
        }
        if keys.contains(k) {
            let j = choose|j: int| 0 <= j < keys.len() && keys[j] == k;
            assert(keys2[j] == k);
        }
        if k == key {
            assert(keys2[keys.len() as int] == k);
        }
    }
    assert forall|k: Seq<char>| keys2.contains(k) implies values2[position_of(keys2, k)] == (if k
        == key {
        value
    } else {
        values[position_of(keys, k)]
    }) by {
        lemma_position_of(keys2, k);
        lemma_position_of(keys, k);
        let p2 = position_of(keys2, k);
        let p = position_of(keys, k);
        if k == key {
            if p2 < keys.len() {
                assert(keys[p2] == k);
            }
        } else {
            assert(keys2[p] == k);
            if p2 < p {
                assert(keys[p2] == k);
            }
        }
    }
    assert(map_of(keys2, values2) =~= map_of(keys, values).insert(key, value));
}

/// Replacing the value at a key's position rebinds that key only.
pub proof fn lemma_map_of_update<V>(keys: Seq<Seq<char>>, values: Seq<V>, i: int, value: V)
    requires
        keys.len() == values.len(),
        distinct(keys),
        0 <= i < keys.len(),
    ensures
        map_of(keys, values.update(i, value)) == map_of(keys, values).insert(keys[i], value),
{
    let values2 = values.update(i, value);
    assert(keys.contains(keys[i]));
    assert forall|k: Seq<char>| keys.contains(k) implies values2[position_of(keys, k)] == (if k
        == keys[i] {
        value
    } else {
        values[position_of(keys, k)]
    }) by {
        lemma_position_of(keys, k);
        lemma_position_of_distinct(keys, i);
    }
    assert(map_of(keys, values2) =~= map_of(keys, values).insert(keys[i], value));
}

/// Taking out the entry at a position unbinds its key only.
pub proof fn lemma_map_of_remove<V>(keys: Seq<Seq<char>>, values: Seq<V>, i: int)
    requires
        keys.len() == values.len(),
        distinct(keys),
        0 <= i < keys.len(),
    ensures
        map_of(keys.remove(i), values.remove(i)) == map_of(keys, values).remove(keys[i]),
        distinct(keys.remove(i)),
        !keys.remove(i).contains(keys[i]),
{
    let keys2 = keys.remove(i);
    let values2 = values.remove(i);
    assert forall|k: Seq<char>| keys2.contains(k) <==> (k != keys[i] && keys.contains(k)) by {
        if keys2.contains(k) {
            let j = choose|j: int| 0 <= j < keys2.len() && keys2[j] == k;
            if j < i {
                assert(keys[j] == k);
            } else {
                assert(keys[j + 1] == k);
            }
        }
        if k != keys[i] && keys.contains(k) {
            let j = choose|j: int| 0 <= j < keys.len() && keys[j] == k;
            if j < i {
                assert(keys2[j] == k);
            } else {
                assert(keys2[j - 1] == k);
            }
        }
    }
    assert forall|k: Seq<char>| keys2.contains(k) implies values2[position_of(keys2, k)]
        == values[position_of(keys, k)] by {
        lemma_position_of(keys2, k);
        lemma_position_of(keys, k);
        let p2 = position_of(keys2, k);
        let p = position_of(keys, k);
        let q = if p2 < i { p2 } else { p2 + 1 };
        assert(keys[q] == k);
        if q != p {
            if p < q {
                assert(keys[p] != keys[q]);
            } else {
                assert(keys[q] != keys[p]);
            }
        }
    }
    assert(map_of(keys2, values2) =~= map_of(keys, values).remove(keys[i]));
}

impl<V> KeyedMap<V> {
    #[verifier::type_invariant]
    spec fn distinct_keys(self) -> bool {
        distinct(self.keys())
    }

    /// The keys, in the order in which they were first inserted.
    pub closed spec fn keys(&self) -> Seq<Seq<char>> {
        Seq::new(self.entries@.len(), |i: int| self.entries@[i].key@)
    }

    /// The values, in the order of [`Self::keys`].
    pub closed spec fn values(&self) -> Seq<V> {
        Seq::new(self.entries@.len(), |i: int| self.entries@[i].value)
    }

    /// The map as a mathematical map.
    pub open spec fn view(&self) -> Map<Seq<char>, V> {
        map_of(self.keys(), self.values())
    }

    pub fn new() -> (m: Self)
        ensures
            m@ == Map::<Seq<char>, V>::empty(),
            m.keys() == Seq::<Seq<char>>::empty(),
            m.values() == Seq::<V>::empty(),
    {
        let m = KeyedMap { entries: Vec::new() };
        assert(m.keys() =~= Seq::<Seq<char>>::empty());
        assert(m.values() =~= Seq::<V>::empty());
        assert(m@ =~= Map::<Seq<char>, V>::empty());
        m
    }

    /// The number of entries. The call also recalls that no key occurs twice.
    pub fn len(&self) -> (n: usize)
        ensures
            n == self.keys().len(),
            n == self.values().len(),
            distinct(self.keys()),
    {
        proof {
            use_type_invariant(self);
        }
        self.entries.len()
    }

    pub fn contains_key(&self, key: &String) -> (b: bool)
        ensures
            b == self@.contains_key(key@),
    {
        let i = self.position(key);
        proof {
            lemma_position_of(self.keys(), key@);
        }
        i < self.entries.len()
    }

    pub fn get(&self, key: &String) -> (r: Option<&V>)
        ensures
            match r {
                Some(v) => self@.contains_key(key@) && *v == self@[key@],
                None => !self@.contains_key(key@),
            },
    {
        let i = self.position(key);
        proof {
            lemma_position_of(self.keys(), key@);
        }
        if i < self.entries.len() {
            Some(&self.entries[i].value)
        } else {
            None
        }
    }

    /// The key at position `i` in insertion order.
    pub fn key_at(&self, i: usize) -> (k: &String)
        requires
            i < self.keys().len(),
        ensures
            k@ == self.keys()[i as int],
    {
        &self.entries[i].key
    }

    /// The value at position `i` in insertion order.
    pub fn value_at(&self, i: usize) -> (v: &V)
        requires
            i < self.values().len(),
        ensures
            *v == self.values()[i as int],
            self.keys().len() == self.values().len(),
            *v == self@[self.keys()[i as int]],
            self@.contains_key(self.keys()[i as int]),
    {
        proof {
            use_type_invariant(self);
            lemma_position_of_distinct(self.keys(), i as int);
            assert(self.keys().contains(self.keys()[i as int]));
        }
        &self.entries[i].value
    }

    /// Binds `key` to `value`. A key that is already present keeps its position
    /// and hands back the value it had; a new key goes to the end.
    pub fn insert(&mut self, key: String, value: V) -> (previous: Option<V>)
        ensures
            final(self)@ == old(self)@.insert(key@, value),
            previous == (if old(self)@.contains_key(key@) {
                Some(old(self)@[key@])
            } else {
                None
            }),
            final(self).keys() == (if old(self)@.contains_key(key@) {
                old(self).keys()
            } else {
                old(self).keys().push(key@)
            }),
            final(self).values() == (if old(self)@.contains_key(key@) {
                old(self).values().update(position_of(old(self).keys(), key@), value)
            } else {
                old(self).values().push(value)
            }),
    {
        proof {
            use_type_invariant(&*self);
            lemma_position_of(self.keys(), key@);
        }
        let i = self.position(&key);
        let mut entries: Vec<Entry<V>> = Vec::new();
        core::mem::swap(&mut self.entries, &mut entries);
        let ghost keys = old(self).keys();
        let ghost values = old(self).values();
        if i < entries.len() {
            let old_entry = entries.remove(i);
            proof {
                lemma_map_of_update(keys, values, i as int, value);
            }
            entries.insert(i, Entry { key, value });
            proof {
                let keys2 = Seq::new(entries@.len(), |j: int| entries@[j].key@);
                let values2 = Seq::new(entries@.len(), |j: int| entries@[j].value);
                assert(keys2 =~= keys);
                assert(values2 =~= values.update(i as int, value));
            }
            core::mem::swap(&mut self.entries, &mut entries);
            Some(old_entry.value)
        } else {
            proof {
                lemma_map_of_push(keys, values, key@, value);
            }
            entries.push(Entry { key, value });
            proof {
                let keys2 = Seq::new(entries@.len(), |j: int| entries@[j].key@);
                let values2 = Seq::new(entries@.len(), |j: int| entries@[j].value);
                assert(keys2 =~= keys.push(key@));
                assert(values2 =~= values.push(value));
                assert forall|a: int, b: int| 0 <= a < b < keys2.len() implies keys2[a]
                    != keys2[b] by {
                    if b == keys2.len() - 1 {
                        assert(keys[a] == keys2[a]);
                    }
                }
            }
            core::mem::swap(&mut self.entries, &mut entries);
            None
        }
    }

    /// Unbinds `key` and hands back the value it had, if any. The other keys
    /// keep their order.
    pub fn remove(&mut self, key: &String) -> (previous: Option<V>)
        ensures
            final(self)@ == old(self)@.remove(key@),
            previous == (if old(self)@.contains_key(key@) {
                Some(old(self)@[key@])
            } else {
                None
            }),
            final(self).keys() == (if old(self)@.contains_key(key@) {
                old(self).keys().remove(position_of(old(self).keys(), key@))
            } else {
                old(self).keys()
            }),
            final(self).values() == (if old(self)@.contains_key(key@) {
                old(self).values().remove(position_of(old(self).keys(), key@))
            } else {
                old(self).values()
            }),
    {
        proof {
            use_type_invariant(&*self);
            lemma_position_of(self.keys(), key@);
        }
        let i = self.position(key);
        if i < self.entries.len() {
            let ghost keys = old(self).keys();
            let ghost values = old(self).values();
            proof {
                lemma_map_of_remove(keys, values, i as int);
            }
            let mut entries: Vec<Entry<V>> = Vec::new();
            core::mem::swap(&mut self.entries, &mut entries);
            let old_entry = entries.remove(i);
            proof {
                let keys2 = Seq::new(entries@.len(), |j: int| entries@[j].key@);
                let values2 = Seq::new(entries@.len(), |j: int| entries@[j].value);
                assert(keys2 =~= keys.remove(i as int));
                assert(values2 =~= values.remove(i as int));
            }
            core::mem::swap(&mut self.entries, &mut entries);
            Some(old_entry.value)
        } else {
            assert(self@ =~= old(self)@.remove(key@));
            None
        }
    }

    /// The index of `key`, or `len()` when the map does not hold it.
    pub fn position(&self, key: &String) -> (i: usize)
        ensures
            i == position_of(self.keys(), key@),
    {
        let mut i: usize = 0;
        while i < self.entries.len()
            invariant
                0 <= i <= self.entries@.len(),
                forall|j: int| 0 <= j < i ==> self.entries@[j].key@ != key@,
            decreases self.entries@.len() - i,
        {
            if self.entries[i].key == *key {
                proof {
                    lemma_position_of(self.keys(), key@);
                    let p = position_of(self.keys(), key@);
                    assert(self.keys()[i as int] == key@);
                    if p < i {
                        assert(self.keys()[p] == self.entries@[p].key@);
                    }
                }
                return i;
            }
            i += 1;
        }
        proof {
            lemma_position_of(self.keys(), key@);
            let p = position_of(self.keys(), key@);
            if p < i {
                assert(self.keys()[p] == self.entries@[p].key@);
            }
        }
        i
    }
}

} // verus!
