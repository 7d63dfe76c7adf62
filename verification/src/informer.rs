//! The informer's cache: the local picture that a controller keeps of one
//! kind of resource, built from an initial list and kept up by watch events.

use crate::keyed::KeyedMap;
use crate::models::etcd::{DeleteEvent, PutEvent, WatchEvent};
use crate::objects::KubeObject;
use vstd::prelude::*;

verus! {

/// Which handler of the controller an event calls for.
#[derive(Debug, PartialEq, Eq)]
pub enum Notification {
    /// `on_add` with the object now cached under `key`.
    Added { key: String },
    /// `on_update` with `old` and the object now cached under `key`.
    Updated { key: String, old: KubeObject },
    /// `on_delete` with `old`, which was cached under `key`.
    Deleted { key: String, old: KubeObject },
    /// No handler: a delete for a key that was not cached.
    Nothing,
}

/// The cache once `event` has been applied.
pub open spec fn apply_event(cache: Map<Seq<char>, KubeObject>, event: WatchEvent) -> Map<
    Seq<char>,
    KubeObject,
> {
    match event {
        WatchEvent::Put(put) => cache.insert(put.key@, put.object),
        WatchEvent::Delete(delete) => cache.remove(delete.key@),
    }
}

/// The cache once `events` have been applied, first to last.
pub open spec fn apply_events(cache: Map<Seq<char>, KubeObject>, events: Seq<WatchEvent>) -> Map<
    Seq<char>,
    KubeObject,
>
    decreases events.len(),
{
    if events.len() == 0 {
        cache
    } else {
        apply_event(apply_events(cache, events.drop_last()), events.last())
    }
}

/// The cache that a list fills: each object under its storage key, a later
/// object taking the place of an earlier one with the same key.
pub open spec fn listed(objects: Seq<KubeObject>) -> Map<Seq<char>, KubeObject>
    decreases objects.len(),
{
    if objects.len() == 0 {
        Map::empty()
    } else {
        listed(objects.drop_last()).insert(objects.last().key_spec(), objects.last())
    }
}

/// `keys` without repetitions: each key where it first occurs.
pub open spec fn first_occurrences(keys: Seq<Seq<char>>) -> Seq<Seq<char>>
    decreases keys.len(),
{
    if keys.len() == 0 {
        Seq::empty()
    } else {
        let rest = first_occurrences(keys.drop_last());
        if rest.contains(keys.last()) {
            rest
        } else {
            rest.push(keys.last())
        }
    }
}

/// The order of the cache's keys once `event` has been applied: a new key
/// goes to the end, a deleted key leaves, and the others keep their places.
pub open spec fn keys_after(keys: Seq<Seq<char>>, event: WatchEvent) -> Seq<Seq<char>> {
    match event {
        WatchEvent::Put(put) => if keys.contains(put.key@) {
            keys
        } else {
            keys.push(put.key@)
        },
        WatchEvent::Delete(delete) => if keys.contains(delete.key@) {
            keys.remove(crate::keyed::position_of(keys, delete.key@))
        } else {
            keys
        },
    }
}

/// The storage keys of `objects`, in order.
pub open spec fn keys_of(objects: Seq<KubeObject>) -> Seq<Seq<char>> {
    Seq::new(objects.len(), |i: int| objects[i].key_spec())
}

/// The handler that `event` calls for on a cache in the state `cache`.
pub open spec fn notifies(
    cache: Map<Seq<char>, KubeObject>,
    event: WatchEvent,
    notification: Notification,
) -> bool {
    match event {
        WatchEvent::Put(put) => if cache.contains_key(put.key@) {
            notification matches Notification::Updated { key, old } && key@ == put.key@ && old
                == cache[put.key@]
        } else {
            notification matches Notification::Added { key } && key@ == put.key@
        },
        WatchEvent::Delete(delete) => if cache.contains_key(delete.key@) {
            notification matches Notification::Deleted { key, old } && key@ == delete.key@ && old
                == cache[delete.key@]
        } else {
            notification is Nothing
        },
    }
}

/// After a list the cache equals the list element by element: where no two
/// listed objects share a key, each is cached under its own key, and nothing
/// else is cached.
pub proof fn lemma_listed_elementwise(objects: Seq<KubeObject>)
    requires
        forall|i: int, j: int|
            0 <= i < j < objects.len() ==> objects[i].key_spec() != objects[j].key_spec(),
    ensures
        forall|i: int|
            0 <= i < objects.len() ==> listed(objects).contains_key(
                #[trigger] objects[i].key_spec(),
            ) && listed(objects)[objects[i].key_spec()] == objects[i],
        forall|k: Seq<char>| #[trigger]
            listed(objects).contains_key(k) ==> exists|i: int|
                0 <= i < objects.len() && objects[i].key_spec() == k,
    decreases objects.len(),
{
    if objects.len() > 0 {
        let rest = objects.drop_last();
        lemma_listed_elementwise(rest);
        assert forall|i: int| 0 <= i < objects.len() implies listed(objects).contains_key(
            #[trigger] objects[i].key_spec(),
        ) && listed(objects)[objects[i].key_spec()] == objects[i] by {
            if i < rest.len() {
                assert(rest[i] == objects[i]);
                assert(listed(rest).contains_key(rest[i].key_spec()));
            }
        }
        assert forall|k: Seq<char>| #[trigger] listed(objects).contains_key(k) implies exists|
            i: int,
        |
            0 <= i < objects.len() && objects[i].key_spec() == k by {
            if k == objects.last().key_spec() {
                assert(objects[objects.len() - 1].key_spec() == k);
            } else {
                assert(listed(rest).contains_key(k));
                let i = choose|i: int| 0 <= i < rest.len() && rest[i].key_spec() == k;
                assert(objects[i].key_spec() == k);
            }
        }
    }
}

/// After any run of puts to one key, the cache holds the object of the last.
pub proof fn lemma_last_put_wins(
    cache: Map<Seq<char>, KubeObject>,
    events: Seq<WatchEvent>,
    key: Seq<char>,
)
    requires
        events.len() > 0,
        forall|i: int|
            0 <= i < events.len() ==> (#[trigger] events[i]) is Put && events[i].key_spec() == key,
    ensures
        apply_events(cache, events).contains_key(key),
        apply_events(cache, events)[key] == events.last()->Put_0.object,
{
    assert(events.last() == events[events.len() - 1]);
}

/// After a delete the cache has no entry for the deleted key.
pub proof fn lemma_delete_unbinds(cache: Map<Seq<char>, KubeObject>, event: WatchEvent)
    requires
        event is Delete,
    ensures
        !apply_event(cache, event).contains_key(event.key_spec()),
{
}

/// Events for other keys leave a key's entry as it was.
pub proof fn lemma_other_keys_untouched(
    cache: Map<Seq<char>, KubeObject>,
    event: WatchEvent,
    key: Seq<char>,
)
    requires
        event.key_spec() != key,
    ensures
        apply_event(cache, event).contains_key(key) == cache.contains_key(key),
        cache.contains_key(key) ==> apply_event(cache, event)[key] == cache[key],
{
}

/// The informer's cache of one kind of resource, by storage key.
pub struct Store {
    objects: KeyedMap<KubeObject>,
}

impl View for Store {
    type V = Map<Seq<char>, KubeObject>;

    closed spec fn view(&self) -> Map<Seq<char>, KubeObject> {
        self.objects@
    }
}

impl Store {
    /// The keys in the order in which they entered the cache.
    pub closed spec fn keys(&self) -> Seq<Seq<char>> {
        self.objects.keys()
    }

    /// The cached objects, in the order of [`Self::keys`].
    pub open spec fn objects(&self) -> Seq<KubeObject> {
        Seq::new(self.keys().len(), |i: int| self@[self.keys()[i]])
    }

    pub fn new() -> (store: Self)
        ensures
            store@ == Map::<Seq<char>, KubeObject>::empty(),
    {
        Store { objects: KeyedMap::new() }
    }

    pub fn len(&self) -> (n: usize)
        ensures
            n == self.keys().len(),
            forall|k: Seq<char>| self@.contains_key(k) <==> self.keys().contains(k),
            crate::keyed::distinct(self.keys()),
    {
        self.objects.len()
    }

    pub fn get(&self, key: &String) -> (object: Option<&KubeObject>)
        ensures
            match object {
                Some(o) => self@.contains_key(key@) && *o == self@[key@],
                None => !self@.contains_key(key@),
            },
    {
        self.objects.get(key)
    }

    /// The key at position `i`, for walking the cache.
    pub fn key_at(&self, i: usize) -> (key: &String)
        requires
            i < self.keys().len(),
        ensures
            key@ == self.keys()[i as int],
            self@.contains_key(key@),
    {
        proof {
            assert(self.keys().contains(self.keys()[i as int]));
        }
        self.objects.key_at(i)
    }

    /// The object at position `i`, for walking the cache.
    pub fn object_at(&self, i: usize) -> (object: &KubeObject)
        requires
            i < self.keys().len(),
        ensures
            self@.contains_key(self.keys()[i as int]),
            *object == self@[self.keys()[i as int]],
    {
        let _ = self.objects.len();
        self.objects.value_at(i)
    }

    /// Fills the cache from the initial list, in place of whatever it held,
    /// and returns the keys of the listed objects, in order: one `on_add` is
    /// due for each.
    pub fn replace(&mut self, objects: Vec<KubeObject>) -> (added: Vec<String>)
        ensures
            final(self)@ == listed(objects@),
            final(self).keys() == first_occurrences(keys_of(objects@)),
            added@.len() == objects@.len(),
            forall|i: int| 0 <= i < objects@.len() ==> (#[trigger] added@[i])@ == keys_of(objects@)[i],
    {
        let mut cache: KeyedMap<KubeObject> = KeyedMap::new();
        let mut added: Vec<String> = Vec::new();
        let ghost all = objects@;
        for object in iter: objects
            invariant
                iter.seq() == all,
                cache@ == listed(all.take(iter.index() as int)),
                cache.keys() == first_occurrences(keys_of(all.take(iter.index() as int))),
                added@.len() == iter.index(),
                forall|i: int| 0 <= i < iter.index() ==> (#[trigger] added@[i])@ == keys_of(all)[i],
        {
            let key = object.storage_key();
            proof {
                let done = iter.index() as int;
                assert(all.take(done + 1).drop_last() =~= all.take(done));
                assert(all.take(done + 1).last() == object);
                assert(keys_of(all.take(done + 1)).drop_last() =~= keys_of(all.take(done)));
                assert(keys_of(all.take(done + 1)).last() == key@);
            }
            added.push(key.clone());
            cache.insert(key, object);
        }
        proof {
            assert(all.take(all.len() as int) =~= all);
        }
        self.objects = cache;
        added
    }

    /// Applies one watch event to the cache and says which handler it calls
    /// for: a put of a new key adds, a put of a cached key updates, a delete
    /// of a cached key deletes, and a delete of any other key does nothing.
    pub fn apply(&mut self, event: WatchEvent) -> (notification: Notification)
        ensures
            final(self)@ == apply_event(old(self)@, event),
            final(self).keys() == keys_after(old(self).keys(), event),
            notifies(old(self)@, event, notification),
            event is Delete ==> !final(self)@.contains_key(event.key_spec()),
            event matches WatchEvent::Put(put) ==> final(self)@.contains_key(put.key@)
                && final(self)@[put.key@] == put.object,
    {
        match event {
            WatchEvent::Put(put) => {
                let PutEvent { key, object } = put;
                let name = key.clone();
                match self.objects.insert(key, object) {
                    Some(old) => Notification::Updated { key: name, old },
                    None => Notification::Added { key: name },
                }
            },
            WatchEvent::Delete(delete) => {
                let DeleteEvent { key } = delete;
                match self.objects.remove(&key) {
                    Some(old) => Notification::Deleted { key, old },
                    None => Notification::Nothing,
                }
            },
        }
    }
}

} // verus!
