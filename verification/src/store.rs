//! The API server's object store and its watch hub: objects by storage key,
//! and every change to them fanned out, in order, to the subscribers of a
//! key prefix.

use crate::keyed::KeyedMap;
use crate::models::etcd::{DeleteEvent, PutEvent, WatchEvent, WatchEventView};
use crate::objects::duplicate::{views_of, Duplicate};
use crate::objects::pod::{Pod, PodSpec, PodSpecView, PodView};
use crate::objects::{
    storage_key, storage_key_of, KubeObject, KubeObjectView, KubeResource, KubeResourceView,
    ResourceKind,
};
use vstd::prelude::*;

verus! {

/// Whether `text` begins with `prefix`.
///
/// Calls `str::starts_with` with a string pattern, which std documents as
/// true exactly when the pattern matches a prefix of the string.
#[verifier::external_body]
fn starts_with(text: &str, prefix: &str) -> (b: bool)
    ensures
        b == prefix@.is_prefix_of(text@),
{
    text.starts_with(prefix)
}

/// Why a binding was refused.
#[derive(Clone, Copy, Debug, PartialEq, Eq, Structural)]
pub enum BindError {
    /// No object is stored under the pod's key.
    NotFound,
    /// The object under the pod's key is no pod.
    NotAPod,
}

/// The objects among `objects` whose key, at the same position in `keys`,
/// begins with `prefix`; in order.
pub open spec fn listing(keys: Seq<Seq<char>>, objects: Seq<KubeObject>, prefix: Seq<char>) -> Seq<
    KubeObject,
>
    decreases keys.len(),
{
    if keys.len() == 0 || objects.len() != keys.len() {
        Seq::empty()
    } else {
        let rest = listing(keys.drop_last(), objects.drop_last(), prefix);
        if prefix.is_prefix_of(keys.last()) {
            rest.push(objects.last())
        } else {
            rest
        }
    }
}

/// `object` with the pod's node set to `node`; any other kind of object unchanged.
pub open spec fn bound_to(object: KubeObjectView, node: Seq<char>) -> KubeObjectView {
    match object.resource {
        KubeResourceView::Pod(pod) => KubeObjectView {
            resource: KubeResourceView::Pod(
                PodView { spec: PodSpecView { node_name: Some(node), ..pod.spec }, ..pod },
            ),
            ..object
        },
        _ => object,
    }
}

/// What is put under a key is what is found there: reading a key after a
/// write to it gives the object that was written, whatever the store held.
pub proof fn lemma_put_then_get(
    store: Map<Seq<char>, KubeObject>,
    key: Seq<char>,
    object: KubeObject,
)
    ensures
        store.insert(key, object).contains_key(key),
        store.insert(key, object)[key] == object,
{
}

/// The revision after one more change; the count stops at `u64::MAX`.
pub open spec fn advanced(revision: u64) -> u64 {
    if revision < u64::MAX {
        (revision + 1) as u64
    } else {
        u64::MAX
    }
}

/// The objects of the control plane, by storage key.
pub struct ObjectStore {
    objects: KeyedMap<KubeObject>,
    revision: u64,
}

impl View for ObjectStore {
    type V = Map<Seq<char>, KubeObject>;

    closed spec fn view(&self) -> Map<Seq<char>, KubeObject> {
        self.objects@
    }
}

impl ObjectStore {
    /// The keys in the order in which they were first written.
    pub closed spec fn keys(&self) -> Seq<Seq<char>> {
        self.objects.keys()
    }

    /// The stored objects, in the order of [`Self::keys`].
    pub open spec fn objects(&self) -> Seq<KubeObject> {
        Seq::new(self.keys().len(), |i: int| self@[self.keys()[i]])
    }

    /// The number of changes made so far.
    pub closed spec fn revision_spec(&self) -> u64 {
        self.revision
    }

    pub fn new() -> (store: Self)
        ensures
            store@ == Map::<Seq<char>, KubeObject>::empty(),
            store.keys() == Seq::<Seq<char>>::empty(),
            store.revision_spec() == 0,
    {
        ObjectStore { objects: KeyedMap::new(), revision: 0 }
    }

    pub fn revision(&self) -> (revision: u64)
        ensures
            revision == self.revision_spec(),
    {
        self.revision
    }

    fn advance(&mut self)
        ensures
            final(self).objects == old(self).objects,
            final(self).revision == advanced(old(self).revision),
    {
        if self.revision < u64::MAX {
            self.revision = self.revision + 1;
        }
    }

    /// The object stored under `key`, if there is one.
    pub fn get(&self, key: &String) -> (object: Option<&KubeObject>)
        ensures
            match object {
                Some(o) => self@.contains_key(key@) && *o == self@[key@],
                None => !self@.contains_key(key@),
            },
    {
        self.objects.get(key)
    }

    /// Stores `object` under `key`, in place of what was there, and returns
    /// the event that tells of it.
    pub fn put(&mut self, key: String, object: KubeObject) -> (event: WatchEvent)
        ensures
            final(self)@ == old(self)@.insert(key@, object),
            final(self)@.contains_key(key@) && final(self)@[key@] == object,
            event@ == (WatchEventView::Put { key: key@, object: object@ }),
            final(self).revision_spec() == advanced(old(self).revision_spec()),
            final(self).keys() == (if old(self)@.contains_key(key@) {
                old(self).keys()
            } else {
                old(self).keys().push(key@)
            }),
    {
        let event = WatchEvent::Put(PutEvent { key: key.clone(), object: object.duplicate() });
        self.objects.insert(key, object);
        self.advance();
        event
    }

    /// Deletes the object under `key` and returns the event that tells of
    /// it. Deleting what is not there changes nothing and tells nothing.
    pub fn delete(&mut self, key: &String) -> (event: Option<WatchEvent>)
        ensures
            final(self)@ == old(self)@.remove(key@),
            !final(self)@.contains_key(key@),
            old(self)@.contains_key(key@) ==> {
                &&& event matches Some(e) && e@ == (WatchEventView::Delete { key: key@ })
                &&& final(self).revision_spec() == advanced(old(self).revision_spec())
                &&& final(self).keys() == old(self).keys().remove(
                    crate::keyed::position_of(old(self).keys(), key@),
                )
            },
            !old(self)@.contains_key(key@) ==> {
                &&& event is None
                &&& final(self).revision_spec() == old(self).revision_spec()
                &&& final(self).keys() == old(self).keys()
            },
    {
        match self.objects.remove(key) {
            Some(_) => {
                self.advance();
                Some(WatchEvent::Delete(DeleteEvent { key: key.clone() }))
            },
            None => None,
        }
    }

    /// The stored objects whose key begins with `prefix`, in the order in
    /// which their keys were first written, and the store's revision.
    pub fn list(&self, prefix: &str) -> (found: (Vec<&KubeObject>, u64))
        ensures
            found.1 == self.revision_spec(),
            found.0@.len() == listing(self.keys(), self.objects(), prefix@).len(),
            forall|i: int|
                0 <= i < found.0@.len() ==> *(#[trigger] found.0@[i]) == listing(
                    self.keys(),
                    self.objects(),
                    prefix@,
                )[i],
    {
        let n = self.objects.len();
        let mut found: Vec<&KubeObject> = Vec::new();
        let mut i: usize = 0;
        while i < n
            invariant
                0 <= i <= n,
                n == self.keys().len(),
                n == self.objects.values().len(),
                found@.len() == listing(
                    self.keys().take(i as int),
                    self.objects().take(i as int),
                    prefix@,
                ).len(),
                forall|j: int|
                    0 <= j < found@.len() ==> *(#[trigger] found@[j]) == listing(
                        self.keys().take(i as int),
                        self.objects().take(i as int),
                        prefix@,
                    )[j],
            decreases n - i,
        {
            let key = self.objects.key_at(i);
            let object = self.objects.value_at(i);
            proof {
                assert(self.keys().take(i + 1).drop_last() =~= self.keys().take(i as int));
                assert(self.objects().take(i + 1).drop_last() =~= self.objects().take(i as int));
                assert(self.keys().take(i + 1).last() == key@);
                assert(self.objects().take(i + 1).last() == *object);
            }
            if starts_with(key.as_str(), prefix) {
                found.push(object);
            }
            i += 1;
        }
        proof {
            assert(self.keys().take(i as int) =~= self.keys());
            assert(self.objects().take(i as int) =~= self.objects());
        }
        (found, self.revision)
    }

    /// Assigns the pod called `pod_name` to the node `node_name`: the pod is
    /// stored again with its node set, and the event tells of the pod as it
    /// is now.
    pub fn bind(&mut self, pod_name: &String, node_name: String) -> (event: Result<
        WatchEvent,
        BindError,
    >)
        ensures
            ({
                let key = storage_key_of(ResourceKind::Pod, pod_name@);
                if !old(self)@.contains_key(key) {
                    &&& event == Err::<WatchEvent, BindError>(BindError::NotFound)
                    &&& final(self)@ == old(self)@
                    &&& final(self).keys() == old(self).keys()
                    &&& final(self).revision_spec() == old(self).revision_spec()
                } else if !(old(self)@[key].resource is Pod) {
                    &&& event == Err::<WatchEvent, BindError>(BindError::NotAPod)
                    &&& final(self)@ == old(self)@
                    &&& final(self).keys() == old(self).keys()
                    &&& final(self).revision_spec() == old(self).revision_spec()
                } else {
                    &&& final(self).revision_spec() == advanced(old(self).revision_spec())
                    &&& final(self)@.dom() == old(self)@.dom()
                    &&& forall|k: Seq<char>|
                        k != key && old(self)@.contains_key(k) ==> final(self)@[k] == old(self)@[k]
                    &&& final(self)@[key]@ == bound_to(old(self)@[key]@, node_name@)
                    &&& event matches Ok(e) && e@ == (WatchEventView::Put {
                        key,
                        object: bound_to(old(self)@[key]@, node_name@),
                    })
                    &&& final(self).keys() == old(self).keys()
                }
            }),
    {
        let key = storage_key(ResourceKind::Pod, pod_name.as_str());
        let bound = match self.objects.get(&key) {
            None => {
                return Err(BindError::NotFound);
            },
            Some(object) => match &object.resource {
                KubeResource::Pod(pod) => {
                    let copy = pod.duplicate();
                    let Pod { spec, status } = copy;
                    let PodSpec { containers, node_name: _ } = spec;
                    KubeObject {
                        metadata: object.metadata.duplicate(),
                        resource: KubeResource::Pod(
                            Pod { spec: PodSpec { containers, node_name: Some(node_name) }, status },
                        ),
                    }
                },
                _ => {
                    return Err(BindError::NotAPod);
                },
            },
        };
        let event = WatchEvent::Put(PutEvent { key: key.clone(), object: bound.duplicate() });
        self.objects.insert(key, bound);
        self.advance();
        proof {
            assert(self@.dom() =~= old(self)@.dom());
        }
        Ok(event)
    }
}

/// A client that watches the keys under one prefix.
#[derive(Debug, PartialEq, Eq)]
pub struct Subscriber {
    pub id: u64,
    pub prefix: String,
    pub pending: Vec<WatchEvent>,
}

/// [`Subscriber`] as a mathematical value.
pub struct SubscriberView {
    pub id: u64,
    pub prefix: Seq<char>,
    pub pending: Seq<WatchEventView>,
}

impl View for Subscriber {
    type V = SubscriberView;

    open spec fn view(&self) -> SubscriberView {
        SubscriberView { id: self.id, prefix: self.prefix@, pending: views_of(self.pending@) }
    }
}

/// What `subscriber` looks like once `event` has been published: the event
/// has joined its pending events if the event's key begins with its prefix.
pub open spec fn delivered(subscriber: SubscriberView, event: WatchEventView) -> SubscriberView {
    let key = match event {
        WatchEventView::Put { key, object } => key,
        WatchEventView::Delete { key } => key,
    };
    if subscriber.prefix.is_prefix_of(key) {
        SubscriberView { pending: subscriber.pending.push(event), ..subscriber }
    } else {
        subscriber
    }
}

/// The position of the subscriber `id` among `subscribers`, or their number
/// where there is none.
pub open spec fn subscriber_position(subscribers: Seq<SubscriberView>, id: u64) -> int
    decreases subscribers.len(),
{
    if subscribers.len() == 0 {
        0
    } else if subscribers[0].id == id {
        0
    } else {
        1 + subscriber_position(subscribers.drop_first(), id)
    }
}

pub proof fn lemma_subscriber_position(subscribers: Seq<SubscriberView>, id: u64)
    ensures
        0 <= subscriber_position(subscribers, id) <= subscribers.len(),
        subscriber_position(subscribers, id) < subscribers.len() ==> subscribers[subscriber_position(
            subscribers,
            id,
        )].id == id,
        forall|i: int| 0 <= i < subscriber_position(subscribers, id) ==> subscribers[i].id != id,
    decreases subscribers.len(),
{
    if subscribers.len() > 0 && subscribers[0].id != id {
        let rest = subscribers.drop_first();
        lemma_subscriber_position(rest, id);
        assert forall|i: int| 0 <= i < 1 + subscriber_position(rest, id) implies subscribers[i].id
            != id by {
            if i > 0 {
                assert(subscribers[i] == rest[i - 1]);
            }
        }
    }
}

/// The watch hub: every event that is published reaches, in the order of
/// publication, each subscriber whose prefix the event's key begins with.
pub struct WatchHub {
    subscribers: Vec<Subscriber>,
    next_id: u64,
}

impl View for WatchHub {
    type V = Seq<SubscriberView>;

    closed spec fn view(&self) -> Seq<SubscriberView> {
        views_of(self.subscribers@)
    }
}

impl WatchHub {
    pub fn new() -> (hub: Self)
        ensures
            hub@ == Seq::<SubscriberView>::empty(),
            hub.next_id() == 0,
    {
        let hub = WatchHub { subscribers: Vec::new(), next_id: 0 };
        assert(hub@ =~= Seq::<SubscriberView>::empty());
        hub
    }

    /// The number by which the next subscriber will be known. A new hub
    /// starts at 0.
    pub closed spec fn next_id(&self) -> u64 {
        self.next_id
    }

    /// Adds a subscriber for the keys that begin with `prefix`, with nothing
    /// pending, and returns the number by which it is known: the next in
    /// line. The numbers count up from 0 and stop at `u64::MAX`.
    pub fn subscribe(&mut self, prefix: String) -> (id: u64)
        ensures
            id == old(self).next_id(),
            final(self).next_id() == advanced(old(self).next_id()),
            final(self)@ == old(self)@.push(
                SubscriberView { id, prefix: prefix@, pending: Seq::empty() },
            ),
    {
        let id = self.next_id;
        if self.next_id < u64::MAX {
            self.next_id = self.next_id + 1;
        }
        let subscriber = Subscriber { id, prefix, pending: Vec::new() };
        assert(subscriber@.pending =~= Seq::empty());
        self.subscribers.push(subscriber);
        assert(self@ =~= old(self)@.push(
            SubscriberView { id, prefix: prefix@, pending: Seq::empty() },
        ));
        id
    }

    /// Publishes `event`: a copy joins the pending events of every subscriber
    /// whose prefix the event's key begins with. Nothing else changes.
    pub fn publish(&mut self, event: &WatchEvent)
        ensures
            final(self).next_id() == old(self).next_id(),
            final(self)@.len() == old(self)@.len(),
            forall|i: int|
                0 <= i < old(self)@.len() ==> (#[trigger] final(self)@[i]) == delivered(
                    old(self)@[i],
                    event@,
                ),
    {
        let mut updated: Vec<Subscriber> = Vec::new();
        let mut remaining: Vec<Subscriber> = Vec::new();
        core::mem::swap(&mut self.subscribers, &mut remaining);
        let ghost before = views_of(remaining@);
        for subscriber in iter: remaining
            invariant
                views_of(iter.seq()) == before,
                before == old(self)@,
                updated@.len() == iter.index(),
                forall|i: int|
                    0 <= i < iter.index() ==> (#[trigger] updated@[i])@ == delivered(before[i], event@),
        {
            let Subscriber { id, prefix, pending } = subscriber;
            let mut pending = pending;
            let ghost was = views_of(pending@);
            if starts_with(event.key().as_str(), prefix.as_str()) {
                let copy = event.duplicate();
                pending.push(copy);
                proof {
                    assert(views_of(pending@) =~= was.push(event@));
                }
            }
            let ghost index = iter.index() as int;
            proof {
                assert(before[index] == iter.seq()[index]@);
            }
            updated.push(Subscriber { id, prefix, pending });
        }
        self.subscribers = updated;
        proof {
            assert(self@.len() == old(self)@.len());
            assert forall|i: int| 0 <= i < old(self)@.len() implies (#[trigger] self@[i])
                == delivered(old(self)@[i], event@) by {
                assert(self@[i] == self.subscribers@[i]@);
            }
        }
    }

    /// Takes the pending events of the first subscriber known as `id`, in the
    /// order in which they were published. An unknown subscriber has none.
    pub fn drain(&mut self, id: u64) -> (events: Vec<WatchEvent>)
        ensures
            final(self).next_id() == old(self).next_id(),
            ({
                let at = subscriber_position(old(self)@, id);
                if at < old(self)@.len() {
                    &&& views_of(events@) == old(self)@[at].pending
                    &&& final(self)@ == old(self)@.update(
                        at,
                        SubscriberView { pending: Seq::empty(), ..old(self)@[at] },
                    )
                } else {
                    &&& events@.len() == 0
                    &&& final(self)@ == old(self)@
                }
            }),
    {
        let n = self.subscribers.len();
        let mut i: usize = 0;
        proof {
            lemma_subscriber_position(self@, id);
        }
        while i < n && self.subscribers[i].id != id
            invariant
                0 <= i <= n,
                n == self.subscribers@.len(),
                self.subscribers == old(self).subscribers,
                forall|j: int| 0 <= j < i ==> self@[j].id != id,
            decreases n - i,
        {
            proof {
                assert(self@[i as int] == self.subscribers@[i as int]@);
            }
            i += 1;
        }
        proof {
            let at = subscriber_position(self@, id);
            if i < n {
                assert(self@[i as int] == self.subscribers@[i as int]@);
                if at < i {
                    assert(self@[at].id != id);
                }
            } else {
                if at < n {
                    assert(self@[at].id != id);
                }
            }
            assert(at == i);
        }
        if i < n {
            let subscriber = self.subscribers.remove(i);
            let Subscriber { id: found, prefix, pending } = subscriber;
            let emptied = Subscriber { id: found, prefix, pending: Vec::new() };
            proof {
                assert(emptied@.pending =~= Seq::empty());
            }
            self.subscribers.insert(i, emptied);
            proof {
                assert(self@ =~= old(self)@.update(
                    i as int,
                    SubscriberView { pending: Seq::empty(), ..old(self)@[i as int] },
                ));
            }
            pending
        } else {
            Vec::new()
        }
    }

    /// Removes every subscriber known as `id`; the others stay, in order.
    pub fn unsubscribe(&mut self, id: u64)
        ensures
            final(self).next_id() == old(self).next_id(),
            final(self)@ == old(self)@.filter(|s: SubscriberView| s.id != id),
    {
        let mut kept: Vec<Subscriber> = Vec::new();
        let mut remaining: Vec<Subscriber> = Vec::new();
        core::mem::swap(&mut self.subscribers, &mut remaining);
        let ghost before = views_of(remaining@);
        proof {
            reveal(Seq::filter);
        }
        for subscriber in iter: remaining
            invariant
                views_of(iter.seq()) == before,
                views_of(kept@) == before.take(iter.index() as int).filter(
                    |s: SubscriberView| s.id != id,
                ),
        {
            let ghost index = iter.index() as int;
            let ghost was = views_of(kept@);
            proof {
                reveal(Seq::filter);
                assert(before.take(index + 1).drop_last() =~= before.take(index));
                assert(before[index] == iter.seq()[index]@);
            }
            if subscriber.id != id {
                kept.push(subscriber);
                proof {
                    assert(views_of(kept@) =~= was.push(before[index]));
                }
            }
        }
        proof {
            assert(before.take(before.len() as int) =~= before);
        }
        self.subscribers = kept;
    }
}

} // verus!
