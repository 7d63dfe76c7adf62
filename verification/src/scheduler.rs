//! The scheduler's decisions: which node an unbound pod goes to, and what to
//! do when none will have it.

use crate::informer::Store;
use crate::objects::binding::{Binding, BindingView};
use crate::objects::duplicate::views_of;
use crate::objects::{KubeObject, KubeResource};
use vstd::prelude::*;

verus! {

/// The longest delay, in seconds, before a pod that found no node is tried again.
pub const MAX_BACKOFF_SECONDS: u32 = 64;

/// What the scheduler does with a pod.
#[derive(Debug, PartialEq, Eq)]
pub enum Decision {
    /// Post this binding.
    Bind(Binding),
    /// No node will have the pod now: try again after the delay.
    Requeue { delay_seconds: u32 },
    /// Nothing to do: the object is no pod, or the pod is bound already.
    Skip,
}

/// What the scheduler does once the API server has answered a binding.
#[derive(Clone, Copy, Debug, PartialEq, Eq, Structural)]
pub enum Followup {
    /// The binding was accepted.
    Done,
    /// The request failed in passing: post the binding again after the delay.
    Retry { delay_seconds: u32 },
    /// The API server refused the binding, as for a pod that is gone: drop it.
    Drop,
}

/// The object is a node that accepts pods.
pub open spec fn is_ready_node(object: KubeObject) -> bool {
    object.resource matches KubeResource::Node(node) && node.status.ready
}

/// The names of the ready nodes among `objects`, in order.
pub open spec fn ready_node_names(objects: Seq<KubeObject>) -> Seq<Seq<char>>
    decreases objects.len(),
{
    if objects.len() == 0 {
        Seq::empty()
    } else {
        let rest = ready_node_names(objects.drop_last());
        if is_ready_node(objects.last()) {
            rest.push(objects.last().metadata.name@)
        } else {
            rest
        }
    }
}

/// The delay before the attempt after `attempt` failed ones: one second,
/// doubled with every failure, and never more than [`MAX_BACKOFF_SECONDS`].
pub open spec fn backoff_of(attempt: u32) -> u32
    decreases attempt,
{
    if attempt == 0 {
        1
    } else if backoff_of((attempt - 1) as u32) >= 32 {
        64
    } else {
        (2 * backoff_of((attempt - 1) as u32)) as u32
    }
}

/// The delay never leaves `1..=MAX_BACKOFF_SECONDS`, and never shrinks with
/// another failure.
pub proof fn lemma_backoff_bounds(attempt: u32)
    ensures
        1 <= backoff_of(attempt) <= 64,
        attempt > 0 ==> backoff_of((attempt - 1) as u32) <= backoff_of(attempt),
    decreases attempt,
{
    if attempt > 0 {
        lemma_backoff_bounds((attempt - 1) as u32);
    }
}

/// What [`schedule`] decides.
pub open spec fn decides(
    pod: KubeObject,
    ready: Seq<Seq<char>>,
    choice: usize,
    attempt: u32,
    decision: Decision,
) -> bool {
    match pod.resource {
        KubeResource::Pod(p) => if p.spec.node_name.is_some() {
            decision is Skip
        } else if ready.len() == 0 {
            decision == (Decision::Requeue { delay_seconds: backoff_of(attempt) })
        } else {
            decision matches Decision::Bind(binding) && binding@ == (BindingView {
                target_pod_name: pod.metadata.name@,
                target_node_name: ready[choice as int % ready.len() as int],
            })
        },
        _ => decision is Skip,
    }
}

/// The delay before the attempt after `attempt` failed ones.
pub fn backoff(attempt: u32) -> (delay_seconds: u32)
    ensures
        delay_seconds == backoff_of(attempt),
        1 <= delay_seconds <= MAX_BACKOFF_SECONDS,
{
    let mut delay: u32 = 1;
    let mut i: u32 = 0;
    while i < attempt
        invariant
            0 <= i <= attempt,
            delay == backoff_of(i),
            1 <= delay <= 64,
        decreases attempt - i,
    {
        if delay < 32 {
            delay = 2 * delay;
        } else {
            delay = 64;
        }
        i += 1;
        proof {
            lemma_backoff_bounds(i);
        }
    }
    delay
}

/// The names of the nodes in `nodes` that accept pods, in cache order.
pub fn ready_nodes(nodes: &Store) -> (names: Vec<String>)
    ensures
        views_of(names@) == ready_node_names(nodes.objects()),
{
    let n = nodes.len();
    let mut names: Vec<String> = Vec::new();
    let mut i: usize = 0;
    while i < n
        invariant
            0 <= i <= n,
            n == nodes.keys().len(),
            views_of(names@) == ready_node_names(nodes.objects().take(i as int)),
        decreases n - i,
    {
        let object = nodes.object_at(i);
        proof {
            assert(nodes.objects().take(i + 1).drop_last() =~= nodes.objects().take(i as int));
            assert(nodes.objects().take(i + 1).last() == *object);
        }
        let ghost before = names@;
        match &object.resource {
            KubeResource::Node(node) => {
                if node.status.ready {
                    names.push(object.metadata.name.clone());
                    proof {
                        assert(views_of(names@) =~= views_of(before).push(object.metadata.name@));
                    }
                }
            },
            _ => {},
        }
        i += 1;
    }
    proof {
        assert(nodes.objects().take(i as int) =~= nodes.objects());
    }
    names
}

/// The default algorithm: among the `ready` nodes, the one that `choice`
/// falls on. Any number will do for `choice`; a random one spreads the pods.
pub fn pick(ready: &Vec<String>, choice: usize) -> (node: Option<&String>)
    ensures
        ready@.len() == 0 ==> node is None,
        ready@.len() > 0 ==> node == Some(&ready@[choice as int % ready@.len() as int]),
{
    if ready.len() == 0 {
        None
    } else {
        Some(&ready[choice % ready.len()])
    }
}

/// Decides what to do with `pod`, given the names of the `ready` nodes.
///
/// Only a pod without a node is ever bound. It goes to the node that
/// `choice` falls on; where no node is ready it is put back, with a delay
/// that grows with the number of failed attempts.
pub fn schedule(pod: &KubeObject, ready: &Vec<String>, choice: usize, attempt: u32) -> (decision:
    Decision)
    ensures
        decides(*pod, views_of(ready@), choice, attempt, decision),
        decision is Bind ==> (pod.resource matches KubeResource::Pod(p) && p.spec.node_name is None),
{
    match &pod.resource {
        KubeResource::Pod(p) => {
            if p.spec.node_name.is_some() {
                Decision::Skip
            } else {
                match pick(ready, choice) {
                    Some(node) => Decision::Bind(
                        Binding {
                            target_pod_name: pod.metadata.name.clone(),
                            target_node_name: node.clone(),
                        },
                    ),
                    None => Decision::Requeue { delay_seconds: backoff(attempt) },
                }
            }
        },
        _ => Decision::Skip,
    }
}

/// What [`after_bind`] decides.
pub open spec fn followup_of(status: Option<u16>, attempt: u32) -> Followup {
    match status {
        Some(code) => if 200 <= code < 300 {
            Followup::Done
        } else if 400 <= code < 500 {
            Followup::Drop
        } else {
            Followup::Retry { delay_seconds: backoff_of(attempt) }
        },
        None => Followup::Retry { delay_seconds: backoff_of(attempt) },
    }
}

/// Decides what to do once a binding was posted: `status` is the HTTP status
/// of the answer, and `None` where no answer came.
pub fn after_bind(status: Option<u16>, attempt: u32) -> (followup: Followup)
    ensures
        followup == followup_of(status, attempt),
{
    match status {
        Some(code) => {
            if 200 <= code && code < 300 {
                Followup::Done
            } else if 400 <= code && code < 500 {
                Followup::Drop
            } else {
                Followup::Retry { delay_seconds: backoff(attempt) }
            }
        },
        None => Followup::Retry { delay_seconds: backoff(attempt) },
    }
}

} // verus!
