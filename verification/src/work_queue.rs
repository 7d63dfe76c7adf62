//! A work queue with delays: keys wait until their time has come, and a key
//! that is queued twice waits only once.

use crate::keyed::KeyedMap;
use crate::time::Timestamp;
use vstd::prelude::*;

verus! {

/// The keys that wait for a pass, each with the time from which it is due.
pub struct WorkQueue {
    due: KeyedMap<Timestamp>,
}

/// The queue once `key` has been queued for `fire_at`: a key that waits
/// already keeps the earlier of its two times.
pub open spec fn queued(
    queue: Map<Seq<char>, Timestamp>,
    key: Seq<char>,
    fire_at: Timestamp,
) -> Map<Seq<char>, Timestamp> {
    if queue.contains_key(key) && !fire_at.before(queue[key]) {
        queue
    } else {
        queue.insert(key, fire_at)
    }
}

/// No key of `queue` is due before `key` is.
pub open spec fn is_earliest(queue: Map<Seq<char>, Timestamp>, key: Seq<char>) -> bool {
    queue.contains_key(key) && forall|other: Seq<char>| #[trigger]
        queue.contains_key(other) ==> !queue[other].before(queue[key])
}

impl View for WorkQueue {
    type V = Map<Seq<char>, Timestamp>;

    closed spec fn view(&self) -> Map<Seq<char>, Timestamp> {
        self.due@
    }
}

impl WorkQueue {
    pub fn new() -> (queue: Self)
        ensures
            queue@ == Map::<Seq<char>, Timestamp>::empty(),
    {
        WorkQueue { due: KeyedMap::new() }
    }

    /// Whether nothing waits.
    pub fn is_empty(&self) -> (b: bool)
        ensures
            b == (forall|k: Seq<char>| !self@.contains_key(k)),
    {
        let n = self.due.len();
        proof {
            if n > 0 {
                assert(self.due.keys().contains(self.due.keys()[0]));
                assert(self@.contains_key(self.due.keys()[0]));
            } else {
                assert forall|k: Seq<char>| !self@.contains_key(k) by {
                    if self@.contains_key(k) {
                        let j = choose|j: int|
                            0 <= j < self.due.keys().len() && self.due.keys()[j] == k;
                    }
                }
            }
        }
        n == 0
    }

    /// Queues `key` to be due from `fire_at`. Queuing a key that waits
    /// already adds nothing: the key waits once, until the earlier time.
    pub fn insert_at(&mut self, key: String, fire_at: Timestamp)
        ensures
            final(self)@ == queued(old(self)@, key@, fire_at),
    {
        let earlier = match self.due.get(&key) {
            Some(waiting) => fire_at.is_before(waiting),
            None => true,
        };
        if earlier {
            self.due.insert(key, fire_at);
        }
    }

    /// Queues `key` to be due `delay_seconds` after `now`.
    pub fn insert(&mut self, key: String, now: Timestamp, delay_seconds: u32)
        ensures
            final(self)@ == queued(old(self)@, key@, now.later_by(delay_seconds)),
    {
        self.insert_at(key, now.plus_seconds(delay_seconds));
    }

    /// The position of a key that no other is due before; the queue must not be empty.
    fn earliest(&self) -> (at: usize)
        requires
            self.due.keys().len() > 0,
        ensures
            at < self.due.keys().len(),
            is_earliest(self@, self.due.keys()[at as int]),
    {
        let n = self.due.len();
        let mut best: usize = 0;
        let mut i: usize = 1;
        proof {
            assert(self.due.keys().contains(self.due.keys()[0]));
        }
        while i < n
            invariant
                1 <= i <= n,
                n == self.due.keys().len(),
                n == self.due.values().len(),
                crate::keyed::distinct(self.due.keys()),
                best < i,
                forall|j: int|
                    0 <= j < i ==> !(#[trigger] self.due.values()[j]).before(
                        self.due.values()[best as int],
                    ),
            decreases n - i,
        {
            let candidate = self.due.value_at(i);
            let current = self.due.value_at(best);
            if candidate.is_before(current) {
                best = i;
            }
            i += 1;
        }
        proof {
            let keys = self.due.keys();
            let values = self.due.values();
            crate::keyed::lemma_position_of_distinct(keys, best as int);
            assert(keys.contains(keys[best as int]));
            assert forall|other: Seq<char>| #[trigger] self@.contains_key(other) implies !self@[other].before(
                self@[keys[best as int]],
            ) by {
                let j = choose|j: int| 0 <= j < keys.len() && keys[j] == other;
                crate::keyed::lemma_position_of_distinct(keys, j);
                assert(!values[j].before(values[best as int]));
            }
        }
        best
    }

    /// The time from which the next key is due, if any key waits.
    pub fn next_due(&self) -> (time: Option<Timestamp>)
        ensures
            match time {
                Some(t) => exists|k: Seq<char>| is_earliest(self@, k) && self@[k] == t,
                None => forall|k: Seq<char>| !self@.contains_key(k),
            },
    {
        if self.due.len() == 0 {
            proof {
                assert forall|k: Seq<char>| !self@.contains_key(k) by {
                    if self@.contains_key(k) {
                        let j = choose|j: int|
                            0 <= j < self.due.keys().len() && self.due.keys()[j] == k;
                    }
                }
            }
            None
        } else {
            let at = self.earliest();
            let time = *self.due.value_at(at);
            proof {
                assert(is_earliest(self@, self.due.keys()[at as int]));
            }
            Some(time)
        }
    }

    /// Takes a key that is due at `now` off the queue: one that no other key
    /// is due before. Where no key is due yet, nothing is taken.
    pub fn pop_due(&mut self, now: Timestamp) -> (key: Option<String>)
        ensures
            match key {
                Some(k) => {
                    &&& is_earliest(old(self)@, k@)
                    &&& !now.before(old(self)@[k@])
                    &&& final(self)@ == old(self)@.remove(k@)
                },
                None => {
                    &&& forall|k: Seq<char>| #[trigger]
                        old(self)@.contains_key(k) ==> now.before(old(self)@[k])
                    &&& final(self)@ == old(self)@
                },
            },
    {
        if self.due.len() == 0 {
            proof {
                assert forall|k: Seq<char>| #[trigger] self@.contains_key(k) implies now.before(
                    self@[k],
                ) by {
                    let j = choose|j: int|
                        0 <= j < self.due.keys().len() && self.due.keys()[j] == k;
                }
            }
            return None;
        }
        let at = self.earliest();
        let time = *self.due.value_at(at);
        if now.is_before(&time) {
            proof {
                let first = self.due.keys()[at as int];
                assert forall|k: Seq<char>| #[trigger] self@.contains_key(k) implies now.before(
                    self@[k],
                ) by {
                    assert(!self@[k].before(self@[first]));
                }
            }
            None
        } else {
            let key = self.due.key_at(at).clone();
            self.due.remove(&key);
            Some(key)
        }
    }
}

} // verus!
