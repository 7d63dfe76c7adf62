//! One pass of the replica-set controller: hold the pods that a replica set
//! owns against the number it wants, and plan what to create and delete.

use crate::informer::Store;
use crate::objects::duplicate::{views_of, Duplicate};
use crate::objects::labels::selects;
use crate::objects::pod::{Pod, PodPhase, PodView};
use crate::objects::replica_set::{
    PodTemplateSpec, PodTemplateSpecView, ReplicaSet, ReplicaSetStatus,
};
use crate::objects::{
    storage_key, KubeObject, KubeResource, KubeResourceView, Metadata, MetadataView, ResourceKind,
};
use crate::replicaset::names::{lemma_pod_key_injective, pod_key_of, pod_name, pod_name_of};
use vstd::prelude::*;
use vstd::set_lib::{lemma_int_range, lemma_len_subset, set_int_range};

verus! {

/// What a pass over a replica set asks for.
#[derive(Debug, PartialEq, Eq)]
pub struct Plan {
    /// The pods to create.
    pub create: Vec<KubeObject>,
    /// The storage keys of the pods to delete.
    pub delete: Vec<String>,
    /// The status to write back, where it differs from the one that stands.
    pub status: Option<ReplicaSetStatus>,
}

/// The object is a pod that carries every label of `selector`.
pub open spec fn owns(selector: Map<Seq<char>, Seq<char>>, object: KubeObject) -> bool {
    object.resource is Pod && selects(selector, object.metadata.labels@)
}

/// How readily a pod is given up: pending pods go first, then pods that have
/// ended, and running pods last.
pub open spec fn rank_of(object: KubeObject) -> int {
    match object.resource {
        KubeResource::Pod(pod) => match pod.phase_spec() {
            PodPhase::Pending => 0,
            PodPhase::Failed => 1,
            PodPhase::Succeeded => 1,
            PodPhase::Running => 2,
        },
        _ => 0,
    }
}

/// How many of `objects` the selector owns at the rank `rank`.
pub open spec fn tally(
    objects: Seq<KubeObject>,
    selector: Map<Seq<char>, Seq<char>>,
    rank: int,
) -> nat
    decreases objects.len(),
{
    if objects.len() == 0 {
        0
    } else {
        tally(objects.drop_last(), selector, rank) + (if owns(selector, objects.last()) && rank_of(
            objects.last(),
        ) == rank {
            1nat
        } else {
            0nat
        })
    }
}

/// How many of `objects` the selector owns.
pub open spec fn owned_count(objects: Seq<KubeObject>, selector: Map<Seq<char>, Seq<char>>) -> nat {
    tally(objects, selector, 0) + tally(objects, selector, 1) + tally(objects, selector, 2)
}

/// How many pods are missing.
pub open spec fn shortfall(
    objects: Seq<KubeObject>,
    selector: Map<Seq<char>, Seq<char>>,
    replicas: u32,
) -> nat {
    if owned_count(objects, selector) < replicas {
        (replicas - owned_count(objects, selector)) as nat
    } else {
        0
    }
}

/// How many pods are too many.
pub open spec fn surplus(
    objects: Seq<KubeObject>,
    selector: Map<Seq<char>, Seq<char>>,
    replicas: u32,
) -> nat {
    if owned_count(objects, selector) > replicas {
        (owned_count(objects, selector) - replicas) as nat
    } else {
        0
    }
}

/// How many of the owned pods of the rank `rank` are to go: the surplus is
/// taken from the pending pods first, then from the ended, then from the
/// running.
pub open spec fn quota(
    objects: Seq<KubeObject>,
    selector: Map<Seq<char>, Seq<char>>,
    replicas: u32,
    rank: int,
) -> nat {
    let d = surplus(objects, selector, replicas);
    let t0 = tally(objects, selector, 0);
    let t1 = tally(objects, selector, 1);
    let q0 = if d < t0 {
        d
    } else {
        t0
    };
    let q1 = if d - q0 < t1 {
        (d - q0) as nat
    } else {
        t1
    };
    if rank == 0 {
        q0
    } else if rank == 1 {
        q1
    } else if rank == 2 {
        (d - q0 - q1) as nat
    } else {
        0
    }
}

/// The pod at position `i` is to go: it is owned, and among the first of its
/// rank, in cache order, up to the rank's quota.
pub open spec fn is_victim(
    objects: Seq<KubeObject>,
    selector: Map<Seq<char>, Seq<char>>,
    replicas: u32,
    i: int,
) -> bool {
    owns(selector, objects[i]) && tally(objects.take(i), selector, rank_of(objects[i])) < quota(
        objects,
        selector,
        replicas,
        rank_of(objects[i]),
    )
}

/// The keys of the pods to go among the first `upto` positions, in cache order.
pub open spec fn victim_keys(
    keys: Seq<Seq<char>>,
    objects: Seq<KubeObject>,
    selector: Map<Seq<char>, Seq<char>>,
    replicas: u32,
    upto: int,
) -> Seq<Seq<char>>
    decreases upto,
{
    if upto <= 0 {
        Seq::empty()
    } else {
        let rest = victim_keys(keys, objects, selector, replicas, upto - 1);
        if is_victim(objects, selector, replicas, upto - 1) {
            rest.push(keys[upto - 1])
        } else {
            rest
        }
    }
}

/// The status of the replica set once the plan has been carried out: as
/// many pods as wanted, and as many of them ready as run among those that stay.
pub open spec fn status_after(
    objects: Seq<KubeObject>,
    selector: Map<Seq<char>, Seq<char>>,
    replicas: u32,
) -> ReplicaSetStatus {
    ReplicaSetStatus {
        replicas,
        ready_replicas: if tally(objects, selector, 2) < replicas {
            tally(objects, selector, 2) as u32
        } else {
            replicas
        },
    }
}

/// `pod` is what `template` makes under the name `name`: a pod with the
/// template's labels and spec, and no status yet.
pub open spec fn made_from(
    template: PodTemplateSpecView,
    namespace: Seq<char>,
    name: Seq<char>,
    pod: KubeObject,
) -> bool {
    &&& pod.metadata@ == (MetadataView { name, namespace, uid: None, labels: template.labels })
    &&& pod.resource@ == KubeResourceView::Pod(PodView { spec: template.spec, status: None })
}

/// No object is cached under the key of the pod with this serial number.
pub open spec fn is_free(cache: Map<Seq<char>, KubeObject>, owner: Seq<char>, serial: nat) -> bool {
    !cache.contains_key(pod_key_of(owner, serial))
}

/// `serials` are the lowest serial numbers that are free, in ascending order.
pub open spec fn lowest_free(
    cache: Map<Seq<char>, KubeObject>,
    owner: Seq<char>,
    serials: Seq<nat>,
) -> bool {
    &&& forall|i: int| 0 <= i < serials.len() ==> is_free(cache, owner, #[trigger] serials[i])
    &&& forall|i: int, j: int| 0 <= i < j < serials.len() ==> serials[i] < serials[j]
    &&& forall|k: nat|
        serials.len() > 0 && k < serials.last() && #[trigger] is_free(cache, owner, k)
            ==> serials.contains(k)
}

/// `plan` is what a pass over the replica set `set` owes, given the pods in
/// the cache: `keys` and `objects` side by side, in cache order.
///
/// - As many pods are created as are missing. Each is made from the
///   template and named after the set, with the lowest serial numbers whose
///   keys are free.
/// - As many pods are deleted as are too many: the victims, by key.
/// - The status is written back where it differs from the one that stands.
pub open spec fn plan_fits(
    set: KubeObject,
    cache: Map<Seq<char>, KubeObject>,
    keys: Seq<Seq<char>>,
    objects: Seq<KubeObject>,
    plan: Plan,
) -> bool {
    set.resource matches KubeResource::ReplicaSet(rs) && {
        let selector = rs.spec.selector@;
        let status = status_after(objects, selector, rs.spec.replicas);
        &&& plan.create@.len() == shortfall(objects, selector, rs.spec.replicas)
        &&& exists|serials: Seq<nat>|
            {
                &&& serials.len() == plan.create@.len()
                &&& #[trigger] lowest_free(cache, set.metadata.name@, serials)
                &&& forall|i: int|
                    0 <= i < serials.len() ==> made_from(
                        rs.spec.template@,
                        set.metadata.namespace@,
                        pod_name_of(set.metadata.name@, serials[i]),
                        #[trigger] plan.create@[i],
                    )
            }
        &&& views_of(plan.delete@) == victim_keys(
            keys,
            objects,
            selector,
            rs.spec.replicas,
            objects.len() as int,
        )
        &&& plan.status == (if rs.status == Some(status) {
            None
        } else {
            Some(status)
        })
    }
}

/// The rank of a pod.
fn rank(pod: &Pod) -> (rank: u8)
    ensures
        rank == (match pod.phase_spec() {
            PodPhase::Pending => 0int,
            PodPhase::Failed => 1int,
            PodPhase::Succeeded => 1int,
            PodPhase::Running => 2int,
        }),
{
    match pod.phase() {
        PodPhase::Pending => 0,
        PodPhase::Failed => 1,
        PodPhase::Succeeded => 1,
        PodPhase::Running => 2,
    }
}

/// The rank of `object` if the selector owns it.
fn owned_rank(selector: &crate::objects::labels::Labels, object: &KubeObject) -> (rank: Option<u8>)
    ensures
        owns(selector@, *object) ==> rank == Some(rank_of(*object) as u8),
        !owns(selector@, *object) ==> rank is None,
        rank matches Some(r) ==> r <= 2,
{
    match &object.resource {
        KubeResource::Pod(pod) => {
            if object.metadata.labels.matches(selector) {
                Some(rank(pod))
            } else {
                None
            }
        },
        _ => None,
    }
}

/// A pod made from `template` under the name `name`.
pub fn instantiate(template: &PodTemplateSpec, namespace: &String, name: String) -> (pod:
    KubeObject)
    ensures
        made_from(template@, namespace@, name@, pod),
{
    KubeObject {
        metadata: Metadata {
            name,
            namespace: namespace.clone(),
            uid: None,
            labels: template.labels.duplicate(),
        },
        resource: KubeResource::Pod(Pod { spec: template.spec.duplicate(), status: None }),
    }
}

/// Counts the pods that the selector owns, by rank.
fn count_owned(selector: &crate::objects::labels::Labels, pods: &Store) -> (counts: (
    usize,
    usize,
    usize,
))
    ensures
        counts.0 == tally(pods.objects(), selector@, 0),
        counts.1 == tally(pods.objects(), selector@, 1),
        counts.2 == tally(pods.objects(), selector@, 2),
        counts.0 + counts.1 + counts.2 <= pods.keys().len() <= usize::MAX,
{
    let n = pods.len();
    let mut t0: usize = 0;
    let mut t1: usize = 0;
    let mut t2: usize = 0;
    let mut i: usize = 0;
    while i < n
        invariant
            0 <= i <= n,
            n == pods.keys().len(),
            t0 == tally(pods.objects().take(i as int), selector@, 0),
            t1 == tally(pods.objects().take(i as int), selector@, 1),
            t2 == tally(pods.objects().take(i as int), selector@, 2),
            t0 + t1 + t2 <= i,
        decreases n - i,
    {
        let object = pods.object_at(i);
        proof {
            assert(pods.objects().take(i + 1).drop_last() =~= pods.objects().take(i as int));
            assert(pods.objects().take(i + 1).last() == *object);
        }
        match owned_rank(selector, object) {
            Some(r) => {
                if r == 0 {
                    t0 += 1;
                } else if r == 1 {
                    t1 += 1;
                } else {
                    t2 += 1;
                }
            },
            None => {},
        }
        i += 1;
    }
    proof {
        assert(pods.objects().take(i as int) =~= pods.objects());
    }
    (t0, t1, t2)
}

/// The keys of the pods to go, in cache order.
fn select_victims(
    selector: &crate::objects::labels::Labels,
    pods: &Store,
    replicas: u32,
    counts: (usize, usize, usize),
) -> (victims: Vec<String>)
    requires
        counts.0 == tally(pods.objects(), selector@, 0),
        counts.1 == tally(pods.objects(), selector@, 1),
        counts.2 == tally(pods.objects(), selector@, 2),
        counts.0 + counts.1 + counts.2 <= usize::MAX,
    ensures
        views_of(victims@) == victim_keys(
            pods.keys(),
            pods.objects(),
            selector@,
            replicas,
            pods.objects().len() as int,
        ),
{
    let owned = counts.0 + counts.1 + counts.2;
    let surplus: usize = if owned > replicas as usize {
        owned - replicas as usize
    } else {
        0
    };
    let q0: usize = if surplus < counts.0 {
        surplus
    } else {
        counts.0
    };
    let q1: usize = if surplus - q0 < counts.1 {
        surplus - q0
    } else {
        counts.1
    };
    let q2: usize = surplus - q0 - q1;
    proof {
        assert(q0 == quota(pods.objects(), selector@, replicas, 0));
        assert(q1 == quota(pods.objects(), selector@, replicas, 1));
        assert(q2 == quota(pods.objects(), selector@, replicas, 2));
    }
    let n = pods.len();
    let mut victims: Vec<String> = Vec::new();
    let mut s0: usize = 0;
    let mut s1: usize = 0;
    let mut s2: usize = 0;
    let mut i: usize = 0;
    while i < n
        invariant
            0 <= i <= n,
            n == pods.keys().len(),
            n == pods.objects().len(),
            q0 == quota(pods.objects(), selector@, replicas, 0),
            q1 == quota(pods.objects(), selector@, replicas, 1),
            q2 == quota(pods.objects(), selector@, replicas, 2),
            s0 == tally(pods.objects().take(i as int), selector@, 0),
            s1 == tally(pods.objects().take(i as int), selector@, 1),
            s2 == tally(pods.objects().take(i as int), selector@, 2),
            s0 + s1 + s2 <= i,
            views_of(victims@) == victim_keys(
                pods.keys(),
                pods.objects(),
                selector@,
                replicas,
                i as int,
            ),
        decreases n - i,
    {
        let object = pods.object_at(i);
        let ghost before = views_of(victims@);
        proof {
            assert(pods.objects().take(i + 1).drop_last() =~= pods.objects().take(i as int));
            assert(pods.objects().take(i + 1).last() == *object);
            assert(pods.objects()[i as int] == *object);
        }
        match owned_rank(selector, object) {
            Some(r) => {
                let (seen, quota) = if r == 0 {
                    (s0, q0)
                } else if r == 1 {
                    (s1, q1)
                } else {
                    (s2, q2)
                };
                if seen < quota {
                    victims.push(pods.key_at(i).clone());
                    proof {
                        assert(views_of(victims@) =~= before.push(pods.keys()[i as int]));
                    }
                }
                if r == 0 {
                    s0 += 1;
                } else if r == 1 {
                    s1 += 1;
                } else {
                    s2 += 1;
                }
            },
            None => {},
        }
        i += 1;
    }
    victims
}

/// Makes `count` pods from `template`, named after `owner` with the lowest
/// serial numbers whose keys are free in `pods`.
fn make_pods(
    template: &PodTemplateSpec,
    namespace: &String,
    owner: &String,
    pods: &Store,
    count: u32,
) -> (created: Vec<KubeObject>)
    ensures
        created@.len() == count,
        exists|serials: Seq<nat>|
            {
                &&& serials.len() == created@.len()
                &&& #[trigger] lowest_free(pods@, owner@, serials)
                &&& forall|i: int|
                    0 <= i < serials.len() ==> made_from(
                        template@,
                        namespace@,
                        pod_name_of(owner@, serials[i]),
                        #[trigger] created@[i],
                    )
            },
{
    let taken = pods.len();
    let mut created: Vec<KubeObject> = Vec::new();
    let mut serial: u128 = 0;
    let ghost mut serials: Seq<nat> = Seq::empty();
    let ghost mut hits: Set<int> = Set::empty();
    proof {
        lemma_int_range(0, taken as int);
    }
    while created.len() < count as usize
        invariant
            taken == pods.keys().len(),
            forall|k: Seq<char>| pods@.contains_key(k) <==> pods.keys().contains(k),
            created@.len() <= count,
            serials.len() == created@.len(),
            forall|i: int| 0 <= i < serials.len() ==> is_free(pods@, owner@, #[trigger] serials[i]),
            forall|i: int| 0 <= i < serials.len() ==> (#[trigger] serials[i]) < serial,
            forall|i: int, j: int| 0 <= i < j < serials.len() ==> serials[i] < serials[j],
            forall|k: nat|
                k < serial && #[trigger] is_free(pods@, owner@, k) ==> serials.contains(k),
            forall|i: int|
                0 <= i < serials.len() ==> made_from(
                    template@,
                    namespace@,
                    pod_name_of(owner@, serials[i]),
                    #[trigger] created@[i],
                ),
            hits.finite(),
            hits.subset_of(set_int_range(0, taken as int)),
            set_int_range(0, taken as int).finite(),
            set_int_range(0, taken as int).len() == taken,
            hits.len() + created@.len() == serial,
            forall|p: int|
                hits.contains(p) ==> exists|k: nat|
                    k < serial && #[trigger] pod_key_of(owner@, k) == pods.keys()[p],
        decreases taken + count - serial,
    {
        proof {
            lemma_len_subset(hits, set_int_range(0, taken as int));
        }
        let name = pod_name(owner, serial);
        let key = storage_key(ResourceKind::Pod, name.as_str());
        let ghost previous = serials;
        let ghost current = serial as nat;
        if pods.get(&key).is_none() {
            let pod = instantiate(template, namespace, name);
            created.push(pod);
            proof {
                serials = serials.push(current);
                assert forall|k: nat|
                    k < current + 1 && #[trigger] is_free(pods@, owner@, k) implies serials.contains(
                    k,
                ) by {
                    if k < current {
                        assert(previous.contains(k));
                        let i = choose|i: int| 0 <= i < previous.len() && previous[i] == k;
                        assert(serials[i] == k);
                    } else {
                        assert(serials[serials.len() - 1] == k);
                    }
                }
                assert forall|p: int| hits.contains(p) implies exists|k: nat|
                    k < current + 1 && #[trigger] pod_key_of(owner@, k) == pods.keys()[p] by {
                    let k = choose|k: nat|
                        k < current && #[trigger] pod_key_of(owner@, k) == pods.keys()[p];
                    assert(k < current + 1 && pod_key_of(owner@, k) == pods.keys()[p]);
                }
            }
        } else {
            proof {
                assert(pods.keys().contains(key@));
                let p = choose|p: int| 0 <= p < pods.keys().len() && pods.keys()[p] == key@;
                if hits.contains(p) {
                    let k = choose|k: nat|
                        k < current && #[trigger] pod_key_of(owner@, k) == pods.keys()[p];
                    lemma_pod_key_injective(owner@, k, current);
                }
                let ghost old_hits = hits;
                hits = hits.insert(p);
                assert forall|q: int| hits.contains(q) implies exists|k: nat|
                    k < current + 1 && #[trigger] pod_key_of(owner@, k) == pods.keys()[q] by {
                    if q == p {
                        assert(current < current + 1 && pod_key_of(owner@, current)
                            == pods.keys()[q]);
                    } else {
                        assert(old_hits.contains(q));
                        let k = choose|k: nat|
                            k < current && #[trigger] pod_key_of(owner@, k) == pods.keys()[q];
                        assert(k < current + 1 && pod_key_of(owner@, k) == pods.keys()[q]);
                    }
                }
                assert forall|k: nat|
                    k < current + 1 && #[trigger] is_free(pods@, owner@, k) implies serials.contains(
                    k,
                ) by {
                    if k == current {
                        assert(!is_free(pods@, owner@, k));
                    }
                }
            }
        }
        serial = serial + 1;
    }
    proof {
        assert(lowest_free(pods@, owner@, serials)) by {
            assert forall|k: nat|
                serials.len() > 0 && k < serials.last() && #[trigger] is_free(
                    pods@,
                    owner@,
                    k,
                ) implies serials.contains(k) by {
                assert(serials.last() == serials[serials.len() - 1]);
            }
        }
    }
    created
}

/// One pass over the replica set `set`, given the pods in the cache `pods`.
///
/// The selector's pods are counted. Where pods are missing, that many are
/// made from the template; where there are too many, that many are given up,
/// pending pods first and running pods last. The status reports the state
/// that the plan leaves, and is written back only where it has changed.
/// An object that is no replica set gets no plan.
pub fn reconcile_set(set: &KubeObject, pods: &Store) -> (plan: Option<Plan>)
    ensures
        set.resource is ReplicaSet ==> (plan matches Some(p) && plan_fits(
            *set,
            pods@,
            pods.keys(),
            pods.objects(),
            p,
        )),
        !(set.resource is ReplicaSet) ==> plan is None,
{
    let rs = match &set.resource {
        KubeResource::ReplicaSet(rs) => rs,
        _ => {
            return None;
        },
    };
    let replicas = rs.spec.replicas;
    let counts = count_owned(&rs.spec.selector, pods);
    let owned = counts.0 + counts.1 + counts.2;
    let missing: u32 = if owned < replicas as usize {
        (replicas as usize - owned) as u32
    } else {
        0
    };
    let create = make_pods(
        &rs.spec.template,
        &set.metadata.namespace,
        &set.metadata.name,
        pods,
        missing,
    );
    let delete = select_victims(&rs.spec.selector, pods, replicas, counts);
    let status = ReplicaSetStatus {
        replicas,
        ready_replicas: if counts.2 < replicas as usize {
            counts.2 as u32
        } else {
            replicas
        },
    };
    let changed = match rs.status {
        Some(current) => current != status,
        None => true,
    };
    Some(Plan { create, delete, status: if changed {
        Some(status)
    } else {
        None
    } })
}

/// One pass over the replica set cached under `key` in `sets`. A set that is
/// no longer cached is dropped: there is no plan for it.
pub fn reconcile_key(sets: &Store, pods: &Store, key: &String) -> (plan: Option<Plan>)
    ensures
        sets@.contains_key(key@) && sets@[key@].resource is ReplicaSet ==> (plan matches Some(p)
            && plan_fits(sets@[key@], pods@, pods.keys(), pods.objects(), p)),
        !(sets@.contains_key(key@) && sets@[key@].resource is ReplicaSet) ==> plan is None,
{
    match sets.get(key) {
        Some(set) => reconcile_set(set, pods),
        None => None,
    }
}

/// The replica set `set` with its status set to `status`; an object that is
/// no replica set stays as it is.
pub open spec fn with_status_of(set: KubeObject, status: ReplicaSetStatus) -> KubeObject {
    match set.resource {
        KubeResource::ReplicaSet(rs) => KubeObject {
            resource: KubeResource::ReplicaSet(ReplicaSet { status: Some(status), ..rs }),
            ..set
        },
        _ => set,
    }
}

/// The replica set to write back for `plan`: a copy of `set` that carries the
/// plan's status. Nothing is to be written where the plan holds no status, or
/// where `set` is no replica set.
pub fn with_set_status(set: &KubeObject, plan: &Plan) -> (updated: Option<KubeObject>)
    ensures
        match plan.status {
            Some(status) => if set.resource is ReplicaSet {
                updated matches Some(u) && u@ == with_status_of(*set, status)@
            } else {
                updated is None
            },
            None => updated is None,
        },
{
    let status = match plan.status {
        Some(status) => status,
        None => {
            return None;
        },
    };
    match &set.resource {
        KubeResource::ReplicaSet(rs) => Some(
            KubeObject {
                metadata: set.metadata.duplicate(),
                resource: KubeResource::ReplicaSet(
                    ReplicaSet { spec: rs.spec.duplicate(), status: Some(status) },
                ),
            },
        ),
        _ => None,
    }
}

} // verus!
