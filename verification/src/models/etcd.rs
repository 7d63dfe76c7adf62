//! Change notifications of the object store.

use crate::objects::duplicate::Duplicate;
use crate::objects::{KubeObject, KubeObjectView};
use vstd::prelude::*;

verus! {

/// An object was created or replaced under `key`.
#[derive(Debug, PartialEq, Eq)]
pub struct PutEvent {
    pub key: String,
    pub object: KubeObject,
}

/// The object under `key` was deleted.
#[derive(Debug, PartialEq, Eq)]
pub struct DeleteEvent {
    pub key: String,
}

/// A change to one key of the object store.
#[derive(Debug, PartialEq, Eq)]
pub enum WatchEvent {
    Put(PutEvent),
    Delete(DeleteEvent),
}

/// [`WatchEvent`] as a mathematical value.
pub enum WatchEventView {
    Put { key: Seq<char>, object: KubeObjectView },
    Delete { key: Seq<char> },
}

impl View for WatchEvent {
    type V = WatchEventView;

    open spec fn view(&self) -> WatchEventView {
        match self {
            WatchEvent::Put(put) => WatchEventView::Put { key: put.key@, object: put.object@ },
            WatchEvent::Delete(delete) => WatchEventView::Delete { key: delete.key@ },
        }
    }
}

impl Duplicate for WatchEvent {
    fn duplicate(&self) -> (copy: Self) {
        match self {
            WatchEvent::Put(put) => WatchEvent::Put(
                PutEvent { key: put.key.clone(), object: put.object.duplicate() },
            ),
            WatchEvent::Delete(delete) => WatchEvent::Delete(
                DeleteEvent { key: delete.key.clone() },
            ),
        }
    }
}

impl WatchEvent {
    /// The key that the event is about.
    pub open spec fn key_spec(&self) -> Seq<char> {
        match self {
            WatchEvent::Put(put) => put.key@,
            WatchEvent::Delete(delete) => delete.key@,
        }
    }

    pub fn new_put(key: String, object: KubeObject) -> (event: Self)
        ensures
            event == WatchEvent::Put(PutEvent { key, object }),
    {
        WatchEvent::Put(PutEvent { key, object })
    }

    pub fn new_delete(key: String) -> (event: Self)
        ensures
            event == WatchEvent::Delete(DeleteEvent { key }),
    {
        WatchEvent::Delete(DeleteEvent { key })
    }

    pub fn key(&self) -> (key: &String)
        ensures
            key@ == self.key_spec(),
    {
        match self {
            WatchEvent::Put(put) => &put.key,
            WatchEvent::Delete(delete) => &delete.key,
        }
    }
}

} // verus!
