//! Labels: the key/value pairs by which objects are selected.

use crate::keyed::KeyedMap;
use crate::objects::duplicate::Duplicate;
use vstd::prelude::*;

verus! {

/// A set of labels, and equally a selector: a map from label names to values.
#[derive(Debug, PartialEq, Eq)]
pub struct Labels {
    pub entries: KeyedMap<String>,
}

/// Every pair that `selector` asks for is among `labels`.
pub open spec fn selects(selector: Map<Seq<char>, Seq<char>>, labels: Map<Seq<char>, Seq<char>>) -> bool {
    forall|k: Seq<char>| #[trigger]
        selector.contains_key(k) ==> labels.contains_key(k) && labels[k] == selector[k]
}

impl View for Labels {
    type V = Map<Seq<char>, Seq<char>>;

    open spec fn view(&self) -> Map<Seq<char>, Seq<char>> {
        self.entries@.map_values(|value: String| value@)
    }
}

impl Labels {
    pub fn new() -> (labels: Self)
        ensures
            labels@ == Map::<Seq<char>, Seq<char>>::empty(),
            labels.entries@ == Map::<Seq<char>, String>::empty(),
            labels.entries.keys() == Seq::<Seq<char>>::empty(),
            labels.entries.values() == Seq::<String>::empty(),
    {
        let labels = Labels { entries: KeyedMap::new() };
        assert(labels@ =~= Map::<Seq<char>, Seq<char>>::empty());
        labels
    }

    /// Sets the label `key` to `value`.
    pub fn insert(&mut self, key: String, value: String)
        ensures
            final(self)@ == old(self)@.insert(key@, value@),
    {
        self.entries.insert(key, value);
        assert(self@ =~= old(self)@.insert(key@, value@));
    }

    /// Whether these labels carry every pair of `selector`.
    pub fn matches(&self, selector: &Labels) -> (b: bool)
        ensures
            b == selects(selector@, self@),
    {
        let n = selector.entries.len();
        let mut i: usize = 0;
        while i < n
            invariant
                0 <= i <= n,
                n == selector.entries.keys().len(),
                n == selector.entries.values().len(),
                forall|j: int|
                    0 <= j < i ==> self@.contains_key(#[trigger] selector.entries.keys()[j])
                        && self@[selector.entries.keys()[j]] == selector@[selector.entries.keys()[j]],
            decreases n - i,
        {
            let key = selector.entries.key_at(i);
            let wanted = selector.entries.value_at(i);
            match self.entries.get(key) {
                Some(value) => {
                    if *value != *wanted {
                        assert(!selects(selector@, self@)) by {
                            assert(selector@.contains_key(key@));
                        }
                        return false;
                    }
                },
                None => {
                    assert(!selects(selector@, self@)) by {
                        assert(selector@.contains_key(key@));
                    }
                    return false;
                },
            }
            i += 1;
        }
        proof {
            assert forall|k: Seq<char>| #[trigger]
                selector@.contains_key(k) implies self@.contains_key(k) && self@[k]
                == selector@[k] by {
                let j = choose|j: int|
                    0 <= j < selector.entries.keys().len() && selector.entries.keys()[j] == k;
                assert(self@.contains_key(selector.entries.keys()[j]));
            }
        }
        true
    }
}

impl Duplicate for Labels {
    fn duplicate(&self) -> (copy: Self) {
        let n = self.entries.len();
        let mut copy: KeyedMap<String> = KeyedMap::new();
        let mut i: usize = 0;
        while i < n
            invariant
                0 <= i <= n,
                n == self.entries.keys().len(),
                n == self.entries.values().len(),
                crate::keyed::distinct(self.entries.keys()),
                copy.keys() == self.entries.keys().take(i as int),
                copy.values() == self.entries.values().take(i as int),
            decreases n - i,
        {
            let key = self.entries.key_at(i);
            let value = self.entries.value_at(i);
            proof {
                let keys = self.entries.keys();
                if copy@.contains_key(key@) {
                    let j = choose|j: int| 0 <= j < copy.keys().len() && copy.keys()[j] == key@;
                    assert(keys[j] == keys[i as int]);
                }
                assert(keys.take(i as int).push(keys[i as int]) =~= keys.take(i + 1));
                assert(self.entries.values().take(i as int).push(*value)
                    =~= self.entries.values().take(i + 1));
            }
            copy.insert(key.clone(), value.clone());
            i += 1;
        }
        proof {
            assert(self.entries.keys().take(i as int) =~= self.entries.keys());
            assert(self.entries.values().take(i as int) =~= self.entries.values());
        }
        Labels { entries: copy }
    }
}

} // verus!
