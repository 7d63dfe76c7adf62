//! The API server's state: the object store and the watch hub, and the
//! operations that tie a write to the store to the events that tell of it.

use crate::models::etcd::{WatchEvent, WatchEventView};
use crate::objects::duplicate::views_of;
use crate::objects::{storage_key_of, KubeObject, ResourceKind};
use crate::keyed::position_of;
use crate::store::{
    advanced, bound_to, delivered, listing, subscriber_position, BindError, ObjectStore,
    SubscriberView, WatchHub,
};
use vstd::prelude::*;

verus! {

/// What the API server holds between requests.
pub struct AppState {
    pub store: ObjectStore,
    pub hub: WatchHub,
}

/// Every subscriber has had `event` delivered.
pub open spec fn published(
    before: Seq<SubscriberView>,
    after: Seq<SubscriberView>,
    event: WatchEventView,
) -> bool {
    &&& after.len() == before.len()
    &&& forall|i: int| 0 <= i < before.len() ==> (#[trigger] after[i]) == delivered(before[i], event)
}

impl AppState {
    /// A server with no objects and no subscribers.
    pub fn new() -> (state: Self)
        ensures
            state.store@ == Map::<Seq<char>, KubeObject>::empty(),
            state.store.keys() == Seq::<Seq<char>>::empty(),
            state.store.revision_spec() == 0,
            state.hub@ == Seq::<SubscriberView>::empty(),
            state.hub.next_id() == 0,
    {
        AppState { store: ObjectStore::new(), hub: WatchHub::new() }
    }

    /// The object stored under `key`, if there is one.
    pub fn get(&self, key: &String) -> (object: Option<&KubeObject>)
        ensures
            match object {
                Some(o) => self.store@.contains_key(key@) && *o == self.store@[key@],
                None => !self.store@.contains_key(key@),
            },
    {
        self.store.get(key)
    }

    /// The stored objects whose key begins with `prefix`, and the revision
    /// at which they were read.
    pub fn list(&self, prefix: &str) -> (found: (Vec<&KubeObject>, u64))
        ensures
            found.1 == self.store.revision_spec(),
            found.0@.len() == listing(self.store.keys(), self.store.objects(), prefix@).len(),
            forall|i: int|
                0 <= i < found.0@.len() ==> *(#[trigger] found.0@[i]) == listing(
                    self.store.keys(),
                    self.store.objects(),
                    prefix@,
                )[i],
    {
        self.store.list(prefix)
    }

    /// Creates or replaces the object under `key`, and tells every
    /// subscriber of the key of it.
    pub fn put(&mut self, key: String, object: KubeObject)
        ensures
            final(self).store@ == old(self).store@.insert(key@, object),
            final(self).store.revision_spec() == advanced(old(self).store.revision_spec()),
            final(self).store.keys() == (if old(self).store@.contains_key(key@) {
                old(self).store.keys()
            } else {
                old(self).store.keys().push(key@)
            }),
            published(
                old(self).hub@,
                final(self).hub@,
                WatchEventView::Put { key: key@, object: object@ },
            ),
            final(self).hub.next_id() == old(self).hub.next_id(),
    {
        let event = self.store.put(key, object);
        self.hub.publish(&event);
    }

    /// Deletes the object under `key`, and tells every subscriber of the key
    /// of it. Deleting what is not there changes nothing and tells nothing.
    /// Returns whether there was an object to delete.
    pub fn delete(&mut self, key: &String) -> (deleted: bool)
        ensures
            deleted == old(self).store@.contains_key(key@),
            final(self).hub.next_id() == old(self).hub.next_id(),
            final(self).store@ == old(self).store@.remove(key@),
            deleted ==> {
                &&& published(
                    old(self).hub@,
                    final(self).hub@,
                    WatchEventView::Delete { key: key@ },
                )
                &&& final(self).store.revision_spec() == advanced(old(self).store.revision_spec())
                &&& final(self).store.keys() == old(self).store.keys().remove(
                    position_of(old(self).store.keys(), key@),
                )
            },
            !deleted ==> {
                &&& final(self).hub@ == old(self).hub@
                &&& final(self).store.revision_spec() == old(self).store.revision_spec()
                &&& final(self).store.keys() == old(self).store.keys()
            },
    {
        match self.store.delete(key) {
            Some(event) => {
                self.hub.publish(&event);
                true
            },
            None => false,
        }
    }

    /// Assigns the pod called `pod_name` to the node `node_name`, and tells
    /// every subscriber of the pod's key of the pod as it is now.
    pub fn bind(&mut self, pod_name: &String, node_name: String) -> (bound: Result<(), BindError>)
        ensures
            final(self).hub.next_id() == old(self).hub.next_id(),
            ({
                let key = storage_key_of(ResourceKind::Pod, pod_name@);
                if !old(self).store@.contains_key(key) {
                    &&& bound == Err::<(), BindError>(BindError::NotFound)
                    &&& final(self).store@ == old(self).store@
                    &&& final(self).store.keys() == old(self).store.keys()
                    &&& final(self).store.revision_spec() == old(self).store.revision_spec()
                    &&& final(self).hub@ == old(self).hub@
                } else if !(old(self).store@[key].resource is Pod) {
                    &&& bound == Err::<(), BindError>(BindError::NotAPod)
                    &&& final(self).store@ == old(self).store@
                    &&& final(self).store.keys() == old(self).store.keys()
                    &&& final(self).store.revision_spec() == old(self).store.revision_spec()
                    &&& final(self).hub@ == old(self).hub@
                } else {
                    &&& bound is Ok
                    &&& final(self).store.keys() == old(self).store.keys()
                    &&& final(self).store.revision_spec() == advanced(
                        old(self).store.revision_spec(),
                    )
                    &&& final(self).store@.dom() == old(self).store@.dom()
                    &&& forall|k: Seq<char>|
                        k != key && old(self).store@.contains_key(k) ==> final(self).store@[k]
                            == old(self).store@[k]
                    &&& final(self).store@[key]@ == bound_to(old(self).store@[key]@, node_name@)
                    &&& published(
                        old(self).hub@,
                        final(self).hub@,
                        WatchEventView::Put {
                            key,
                            object: bound_to(old(self).store@[key]@, node_name@),
                        },
                    )
                }
            }),
    {
        match self.store.bind(pod_name, node_name) {
            Ok(event) => {
                self.hub.publish(&event);
                Ok(())
            },
            Err(e) => Err(e),
        }
    }

    /// Opens a watch on the keys that begin with `prefix`: the events from
    /// now on, and none of the past.
    pub fn watch(&mut self, prefix: String) -> (id: u64)
        ensures
            final(self).store == old(self).store,
            id == old(self).hub.next_id(),
            final(self).hub.next_id() == advanced(old(self).hub.next_id()),
            final(self).hub@ == old(self).hub@.push(
                SubscriberView { id, prefix: prefix@, pending: Seq::empty() },
            ),
    {
        self.hub.subscribe(prefix)
    }

    /// The events that wait for the watch `id`, in the order in which they
    /// happened; they wait no longer.
    pub fn poll(&mut self, id: u64) -> (events: Vec<WatchEvent>)
        ensures
            final(self).store == old(self).store,
            final(self).hub.next_id() == old(self).hub.next_id(),
            ({
                let at = subscriber_position(old(self).hub@, id);
                if at < old(self).hub@.len() {
                    &&& views_of(events@) == old(self).hub@[at].pending
                    &&& final(self).hub@ == old(self).hub@.update(
                        at,
                        SubscriberView { pending: Seq::empty(), ..old(self).hub@[at] },
                    )
                } else {
                    &&& events@.len() == 0
                    &&& final(self).hub@ == old(self).hub@
                }
            }),
    {
        self.hub.drain(id)
    }

    /// Closes the watch `id`.
    pub fn close(&mut self, id: u64)
        ensures
            final(self).store == old(self).store,
            final(self).hub.next_id() == old(self).hub.next_id(),
            final(self).hub@ == old(self).hub@.filter(|s: SubscriberView| s.id != id),
    {
        self.hub.unsubscribe(id)
    }
}

} // verus!
