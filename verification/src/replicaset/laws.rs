//! What holds of the replica-set controller's passes taken together.

use crate::informer::{apply_event, apply_events, keys_after};
use crate::keyed::{distinct, lemma_position_of, position_of};
use crate::models::etcd::WatchEvent;
use crate::objects::labels::selects;
use crate::objects::replica_set::PodTemplateSpecView;
use crate::objects::{KubeObject, KubeResource};
use crate::replicaset::controller::{
    is_victim, made_from, owned_count, owns, plan_fits, quota, rank_of, shortfall, status_after,
    surplus, tally, victim_keys, with_status_of, Plan,
};
use vstd::prelude::*;

verus! {

/// The pods among the first `upto` positions that a pass leaves in place, in
/// cache order.
pub open spec fn survivors(
    objects: Seq<KubeObject>,
    selector: Map<Seq<char>, Seq<char>>,
    replicas: u32,
    upto: int,
) -> Seq<KubeObject>
    decreases upto,
{
    if upto <= 0 {
        Seq::empty()
    } else {
        let rest = survivors(objects, selector, replicas, upto - 1);
        if is_victim(objects, selector, replicas, upto - 1) {
            rest
        } else {
            rest.push(objects[upto - 1])
        }
    }
}

/// The cache once a pass's plan has been carried out: the victims are gone,
/// the other pods stand as they stood, and the pods in `created` follow.
pub open spec fn objects_after(
    objects: Seq<KubeObject>,
    selector: Map<Seq<char>, Seq<char>>,
    replicas: u32,
    created: Seq<KubeObject>,
) -> Seq<KubeObject> {
    survivors(objects, selector, replicas, objects.len() as int) + created
}

/// The replica set once a pass's status has been written back.
pub open spec fn set_after(set: KubeObject, objects: Seq<KubeObject>) -> KubeObject {
    match set.resource {
        KubeResource::ReplicaSet(rs) => with_status_of(
            set,
            status_after(objects, rs.spec.selector@, rs.spec.replicas),
        ),
        _ => set,
    }
}

/// Tallies add up over a cache in two parts.
pub proof fn lemma_tally_add(
    first: Seq<KubeObject>,
    second: Seq<KubeObject>,
    selector: Map<Seq<char>, Seq<char>>,
    rank: int,
)
    ensures
        tally(first + second, selector, rank) == tally(first, selector, rank) + tally(
            second,
            selector,
            rank,
        ),
    decreases second.len(),
{
    if second.len() == 0 {
        assert(first + second =~= first);
    } else {
        assert((first + second).drop_last() =~= first + second.drop_last());
        assert((first + second).last() == second.last());
        lemma_tally_add(first, second.drop_last(), selector, rank);
    }
}

/// Of each rank, a pass gives up the rank's quota and leaves the rest.
pub proof fn lemma_tally_survivors(
    objects: Seq<KubeObject>,
    selector: Map<Seq<char>, Seq<char>>,
    replicas: u32,
    rank: int,
    upto: int,
)
    requires
        0 <= upto <= objects.len(),
    ensures
        tally(survivors(objects, selector, replicas, upto), selector, rank) == (if tally(
            objects.take(upto),
            selector,
            rank,
        ) < quota(objects, selector, replicas, rank) {
            0
        } else {
            tally(objects.take(upto), selector, rank) - quota(objects, selector, replicas, rank)
        }),
    decreases upto,
{
    if upto == 0 {
        assert(objects.take(0) =~= Seq::<KubeObject>::empty());
    } else {
        lemma_tally_survivors(objects, selector, replicas, rank, upto - 1);
        assert(objects.take(upto).drop_last() =~= objects.take(upto - 1));
        assert(objects.take(upto).last() == objects[upto - 1]);
        let rest = survivors(objects, selector, replicas, upto - 1);
        if !is_victim(objects, selector, replicas, upto - 1) {
            assert(rest.push(objects[upto - 1]).drop_last() =~= rest);
            assert(rest.push(objects[upto - 1]).last() == objects[upto - 1]);
        }
    }
}

/// `pod` is made from `template`, under whatever name.
pub open spec fn from_template(template: PodTemplateSpecView, pod: KubeObject) -> bool {
    exists|namespace: Seq<char>, name: Seq<char>| made_from(template, namespace, name, pod)
}

/// Pods made from a template whose labels the selector selects are owned,
/// and pending.
pub proof fn lemma_tally_created(
    created: Seq<KubeObject>,
    template: PodTemplateSpecView,
    selector: Map<Seq<char>, Seq<char>>,
    rank: int,
)
    requires
        selects(selector, template.labels),
        forall|i: int| 0 <= i < created.len() ==> from_template(template, #[trigger] created[i]),
    ensures
        tally(created, selector, rank) == (if rank == 0 {
            created.len()
        } else {
            0
        }),
    decreases created.len(),
{
    if created.len() > 0 {
        let rest = created.drop_last();
        assert forall|i: int| 0 <= i < rest.len() implies from_template(
            template,
            #[trigger] rest[i],
        ) by {
            assert(rest[i] == created[i]);
        }
        lemma_tally_created(rest, template, selector, rank);
        let last = created.last();
        assert(from_template(template, created[created.len() - 1]));
        let (namespace, name) = choose|namespace: Seq<char>, name: Seq<char>|
            made_from(template, namespace, name, last);
        assert(owns(selector, last));
        assert(rank_of(last) == 0);
    }
}

/// Where nothing is too many, nothing is given up.
pub proof fn lemma_no_surplus_no_victims(
    keys: Seq<Seq<char>>,
    objects: Seq<KubeObject>,
    selector: Map<Seq<char>, Seq<char>>,
    replicas: u32,
    upto: int,
)
    requires
        surplus(objects, selector, replicas) == 0,
    ensures
        victim_keys(keys, objects, selector, replicas, upto) == Seq::<Seq<char>>::empty(),
    decreases upto,
{
    if upto > 0 {
        lemma_no_surplus_no_victims(keys, objects, selector, replicas, upto - 1);
    }
}

/// A pass leaves as many owned pods as the set wants, and as many of them
/// running as its status reports.
pub proof fn lemma_counts_after(
    objects: Seq<KubeObject>,
    selector: Map<Seq<char>, Seq<char>>,
    replicas: u32,
    template: PodTemplateSpecView,
    created: Seq<KubeObject>,
)
    requires
        selects(selector, template.labels),
        created.len() == shortfall(objects, selector, replicas),
        forall|i: int| 0 <= i < created.len() ==> from_template(template, #[trigger] created[i]),
    ensures
        owned_count(objects_after(objects, selector, replicas, created), selector) == replicas,
        status_after(objects_after(objects, selector, replicas, created), selector, replicas)
            == status_after(objects, selector, replicas),
{
    let kept = survivors(objects, selector, replicas, objects.len() as int);
    assert(objects.take(objects.len() as int) =~= objects);
    lemma_tally_survivors(objects, selector, replicas, 0, objects.len() as int);
    lemma_tally_survivors(objects, selector, replicas, 1, objects.len() as int);
    lemma_tally_survivors(objects, selector, replicas, 2, objects.len() as int);
    lemma_tally_add(kept, created, selector, 0);
    lemma_tally_add(kept, created, selector, 1);
    lemma_tally_add(kept, created, selector, 2);
    lemma_tally_created(created, template, selector, 0);
    lemma_tally_created(created, template, selector, 1);
    lemma_tally_created(created, template, selector, 2);
}

/// Reconciling a replica set is idempotent: once the plan of one pass has
/// been carried out (the pods created and deleted, the status written), the
/// next pass over the same set has nothing to create, nothing to delete and
/// no status to write.
///
/// This is stated for a set whose template carries the labels that its
/// selector asks for. The pods of any other template are not the set's own,
/// so that every pass would create them anew. That the cache then holds
/// [`objects_after`] is [`lemma_cache_after_plan`]; that the set written back
/// is [`set_after`] is [`lemma_written_set`]. The set of the next pass,
/// `set_next`, need only hold what [`set_after`] holds: it has been to the
/// API server and back.
pub proof fn lemma_reconcile_idempotent(
    set: KubeObject,
    cache: Map<Seq<char>, KubeObject>,
    keys: Seq<Seq<char>>,
    objects: Seq<KubeObject>,
    plan: Plan,
    set_next: KubeObject,
    cache_after: Map<Seq<char>, KubeObject>,
    keys_after: Seq<Seq<char>>,
    plan_after: Plan,
)
    requires
        set.resource matches KubeResource::ReplicaSet(rs) && selects(
            rs.spec.selector@,
            rs.spec.template@.labels,
        ),
        plan_fits(set, cache, keys, objects, plan),
        set_next@ == set_after(set, objects)@,
        set.resource matches KubeResource::ReplicaSet(rs) && plan_fits(
            set_next,
            cache_after,
            keys_after,
            objects_after(objects, rs.spec.selector@, rs.spec.replicas, plan.create@),
            plan_after,
        ),
    ensures
        plan_after.create@.len() == 0,
        plan_after.delete@.len() == 0,
        plan_after.status is None,
{
    let rs = set.resource->ReplicaSet_0;
    let selector = rs.spec.selector@;
    let replicas = rs.spec.replicas;
    let template = rs.spec.template@;
    let created = plan.create@;
    let after = objects_after(objects, selector, replicas, created);
    let serials = choose|serials: Seq<nat>|
        {
            &&& serials.len() == created.len()
            &&& #[trigger] crate::replicaset::controller::lowest_free(
                cache,
                set.metadata.name@,
                serials,
            )
            &&& forall|i: int|
                0 <= i < serials.len() ==> made_from(
                    template,
                    set.metadata.namespace@,
                    crate::replicaset::names::pod_name_of(set.metadata.name@, serials[i]),
                    #[trigger] created[i],
                )
        };
    assert forall|i: int| 0 <= i < created.len() implies from_template(
        template,
        #[trigger] created[i],
    ) by {
        assert(made_from(
            template,
            set.metadata.namespace@,
            crate::replicaset::names::pod_name_of(set.metadata.name@, serials[i]),
            created[i],
        ));
    }
    lemma_counts_after(objects, selector, replicas, template, created);
    lemma_no_surplus_no_victims(keys_after, after, selector, replicas, after.len() as int);
    let next = set_next.resource->ReplicaSet_0;
    let written = set_after(set, objects).resource->ReplicaSet_0;
    assert(set_next.resource@ == set_after(set, objects).resource@);
    assert(next@ == written@);
    assert(next.spec@ == rs.spec@);
    assert(plan_after.delete@.len() == crate::objects::duplicate::views_of(plan_after.delete@).len());
}

/// What [`with_set_status`](crate::replicaset::controller::with_set_status)
/// builds for a pass's plan is the set as the pass leaves it: where the plan
/// holds a status, the set with that status is [`set_after`]; where it holds
/// none, the set stands as [`set_after`] already.
pub proof fn lemma_written_set(
    set: KubeObject,
    cache: Map<Seq<char>, KubeObject>,
    keys: Seq<Seq<char>>,
    objects: Seq<KubeObject>,
    plan: Plan,
)
    requires
        plan_fits(set, cache, keys, objects, plan),
    ensures
        match plan.status {
            Some(status) => with_status_of(set, status) == set_after(set, objects),
            None => set == set_after(set, objects),
        },
{
}

/// The order of a cache's keys once `events` have been applied, first to last.
pub open spec fn keys_after_all(keys: Seq<Seq<char>>, events: Seq<WatchEvent>) -> Seq<Seq<char>>
    decreases events.len(),
{
    if events.len() == 0 {
        keys
    } else {
        keys_after(keys_after_all(keys, events.drop_last()), events.last())
    }
}

/// The objects of a cache, in the order of its keys.
pub open spec fn objects_of(keys: Seq<Seq<char>>, cache: Map<Seq<char>, KubeObject>) -> Seq<
    KubeObject,
> {
    Seq::new(keys.len(), |i: int| cache[keys[i]])
}

/// The keys among the first `upto` that a pass leaves in place, in cache order.
pub open spec fn surviving_keys(
    keys: Seq<Seq<char>>,
    objects: Seq<KubeObject>,
    selector: Map<Seq<char>, Seq<char>>,
    replicas: u32,
    upto: int,
) -> Seq<Seq<char>>
    decreases upto,
{
    if upto <= 0 {
        Seq::empty()
    } else {
        let rest = surviving_keys(keys, objects, selector, replicas, upto - 1);
        if is_victim(objects, selector, replicas, upto - 1) {
            rest
        } else {
            rest.push(keys[upto - 1])
        }
    }
}

/// `events` tell of the deletion of `victims`, one by one.
pub open spec fn tell_of_deletions(events: Seq<WatchEvent>, victims: Seq<Seq<char>>) -> bool {
    &&& events.len() == victims.len()
    &&& forall|i: int|
        0 <= i < events.len() ==> (#[trigger] events[i]) is Delete && events[i].key_spec()
            == victims[i]
}

/// `events` tell of the creation of `created`, one by one, each under its own key.
pub open spec fn tell_of_creations(events: Seq<WatchEvent>, created: Seq<KubeObject>) -> bool {
    &&& events.len() == created.len()
    &&& forall|i: int|
        0 <= i < events.len() ==> ((#[trigger] events[i]) matches WatchEvent::Put(put) && put.key@
            == created[i].key_spec() && put.object == created[i])
}

/// Victims and survivors are keys of the cache, and each key is one or the other.
proof fn lemma_victims_and_survivors(
    keys: Seq<Seq<char>>,
    objects: Seq<KubeObject>,
    selector: Map<Seq<char>, Seq<char>>,
    replicas: u32,
    upto: int,
)
    requires
        0 <= upto <= keys.len(),
        keys.len() == objects.len(),
    ensures
        forall|k: Seq<char>| #[trigger]
            victim_keys(keys, objects, selector, replicas, upto).contains(k) <==> exists|i: int|
                0 <= i < upto && keys[i] == k && is_victim(objects, selector, replicas, i),
        forall|k: Seq<char>| #[trigger]
            surviving_keys(keys, objects, selector, replicas, upto).contains(k) <==> exists|i: int|
                0 <= i < upto && keys[i] == k && !is_victim(objects, selector, replicas, i),
        surviving_keys(keys, objects, selector, replicas, upto).len() == survivors(
            objects,
            selector,
            replicas,
            upto,
        ).len(),
        forall|j: int|
            0 <= j < surviving_keys(keys, objects, selector, replicas, upto).len() ==> exists|i: int|
                0 <= i < upto && keys[i] == #[trigger] surviving_keys(
                    keys,
                    objects,
                    selector,
                    replicas,
                    upto,
                )[j] && objects[i] == survivors(objects, selector, replicas, upto)[j],
    decreases upto,
{
    if upto > 0 {
        lemma_victims_and_survivors(keys, objects, selector, replicas, upto - 1);
        let v0 = victim_keys(keys, objects, selector, replicas, upto - 1);
        let v1 = victim_keys(keys, objects, selector, replicas, upto);
        let s0 = surviving_keys(keys, objects, selector, replicas, upto - 1);
        let s1 = surviving_keys(keys, objects, selector, replicas, upto);
        let o0 = survivors(objects, selector, replicas, upto - 1);
        let o1 = survivors(objects, selector, replicas, upto);
        let hit = is_victim(objects, selector, replicas, upto - 1);
        assert forall|k: Seq<char>| #[trigger] v1.contains(k) <==> exists|i: int|
            0 <= i < upto && keys[i] == k && is_victim(objects, selector, replicas, i) by {
            if v1.contains(k) {
                let j = choose|j: int| 0 <= j < v1.len() && v1[j] == k;
                if hit && j == v1.len() - 1 {
                    assert(keys[upto - 1] == k);
                } else {
                    assert(v0[j] == k);
                    assert(v0.contains(k));
                }
            }
            if exists|i: int|
                0 <= i < upto && keys[i] == k && is_victim(objects, selector, replicas, i) {
                let i = choose|i: int|
                    0 <= i < upto && keys[i] == k && is_victim(objects, selector, replicas, i);
                if i == upto - 1 {
                    assert(v1[v1.len() - 1] == k);
                } else {
                    assert(v0.contains(k));
                    let j = choose|j: int| 0 <= j < v0.len() && v0[j] == k;
                    assert(v1[j] == k);
                }
            }
        }
        assert forall|k: Seq<char>| #[trigger] s1.contains(k) <==> exists|i: int|
            0 <= i < upto && keys[i] == k && !is_victim(objects, selector, replicas, i) by {
            if s1.contains(k) {
                let j = choose|j: int| 0 <= j < s1.len() && s1[j] == k;
                if !hit && j == s1.len() - 1 {
                    assert(keys[upto - 1] == k);
                } else {
                    assert(s0[j] == k);
                    assert(s0.contains(k));
                }
            }
            if exists|i: int|
                0 <= i < upto && keys[i] == k && !is_victim(objects, selector, replicas, i) {
                let i = choose|i: int|
                    0 <= i < upto && keys[i] == k && !is_victim(objects, selector, replicas, i);
                if i == upto - 1 {
                    assert(s1[s1.len() - 1] == k);
                } else {
                    assert(s0.contains(k));
                    let j = choose|j: int| 0 <= j < s0.len() && s0[j] == k;
                    assert(s1[j] == k);
                }
            }
        }
        assert forall|j: int| 0 <= j < s1.len() implies exists|i: int|
            0 <= i < upto && keys[i] == #[trigger] s1[j] && objects[i] == o1[j] by {
            if !hit && j == s1.len() - 1 {
                assert(keys[upto - 1] == s1[j] && objects[upto - 1] == o1[j]);
            } else {
                assert(s0[j] == s1[j]);
                let i = choose|i: int| 0 <= i < upto - 1 && keys[i] == s0[j] && objects[i] == o0[j];
                assert(0 <= i < upto && keys[i] == s1[j] && objects[i] == o1[j]);
            }
        }
    }
}

/// Deleting the victims among the first `upto` positions, in order, leaves
/// the survivors of those positions, then the keys beyond; and every key
/// that is left has kept its object.
proof fn lemma_after_deletions(
    keys: Seq<Seq<char>>,
    cache: Map<Seq<char>, KubeObject>,
    selector: Map<Seq<char>, Seq<char>>,
    replicas: u32,
    upto: int,
    events: Seq<WatchEvent>,
)
    requires
        distinct(keys),
        forall|k: Seq<char>| cache.contains_key(k) <==> keys.contains(k),
        0 <= upto <= keys.len(),
        tell_of_deletions(
            events,
            victim_keys(keys, objects_of(keys, cache), selector, replicas, upto),
        ),
    ensures
        keys_after_all(keys, events) == surviving_keys(
            keys,
            objects_of(keys, cache),
            selector,
            replicas,
            upto,
        ) + keys.skip(upto),
        forall|k: Seq<char>|
            apply_events(cache, events).contains_key(k) <==> keys_after_all(keys, events).contains(
                k,
            ),
        forall|k: Seq<char>| #[trigger]
            apply_events(cache, events).contains_key(k) ==> apply_events(cache, events)[k]
                == cache[k],
    decreases upto,
{
    let objects = objects_of(keys, cache);
    if upto == 0 {
        assert(events.len() == 0);
        assert(keys.skip(0) =~= keys);
        assert(Seq::<Seq<char>>::empty() + keys =~= keys);
    } else {
        let hit = is_victim(objects, selector, replicas, upto - 1);
        let s0 = surviving_keys(keys, objects, selector, replicas, upto - 1);
        lemma_victims_and_survivors(keys, objects, selector, replicas, upto - 1);
        if hit {
            let before = events.drop_last();
            let v0 = victim_keys(keys, objects, selector, replicas, upto - 1);
            assert forall|i: int| 0 <= i < before.len() implies (#[trigger] before[i]) is Delete
                && before[i].key_spec() == v0[i] by {
                assert(before[i] == events[i]);
            }
            lemma_after_deletions(keys, cache, selector, replicas, upto - 1, before);
            let keys0 = keys_after_all(keys, before);
            let last = events.last();
            assert(last == events[events.len() - 1]);
            let gone = keys[upto - 1];
            assert(last.key_spec() == gone);
            assert(keys0 == s0 + keys.skip(upto - 1));
            // the deleted key stands right behind the survivors
            assert(keys0[s0.len() as int] == gone);
            assert forall|j: int| 0 <= j < s0.len() implies keys0[j] != gone by {
                assert(s0.contains(s0[j]));
                let i = choose|i: int|
                    0 <= i < upto - 1 && keys[i] == s0[j] && !is_victim(
                        objects,
                        selector,
                        replicas,
                        i,
                    );
            }
            lemma_position_of(keys0, gone);
            let at = position_of(keys0, gone);
            assert(keys0.contains(gone));
            if at < s0.len() {
                assert(keys0[at] != gone);
            }
            if at > s0.len() {
                assert(keys0[s0.len() as int] != gone);
            }
            assert(at == s0.len());
            assert(keys0.remove(at) =~= s0 + keys.skip(upto));
            assert(apply_events(cache, events) == apply_event(apply_events(cache, before), last));
            // what is left of the keys is what is left of the cache
            let keys1 = keys_after_all(keys, events);
            assert forall|k: Seq<char>|
                apply_events(cache, events).contains_key(k) <==> keys1.contains(k) by {
                if keys1.contains(k) {
                    let j = choose|j: int| 0 <= j < keys1.len() && keys1[j] == k;
                    if j < at {
                        assert(keys0[j] == k);
                    } else {
                        assert(keys0[j + 1] == k);
                        assert(keys[j + 1 - s0.len() + upto - 1] == k);
                    }
                    assert(keys0.contains(k));
                    if k == gone {
                        if j < at {
                        } else {
                            assert(keys[upto - 1] != keys[j + upto - s0.len()]);
                        }
                    }
                }
                if apply_events(cache, events).contains_key(k) {
                    assert(keys0.contains(k));
                    let j = choose|j: int| 0 <= j < keys0.len() && keys0[j] == k;
                    if j < at {
                        assert(keys1[j] == k);
                    } else {
                        assert(keys1[j - 1] == k);
                    }
                }
            }
        } else {
            lemma_after_deletions(keys, cache, selector, replicas, upto - 1, events);
            assert(s0.push(keys[upto - 1]) + keys.skip(upto) =~= s0 + keys.skip(upto - 1));
        }
    }
}

/// Putting pods under fresh keys of their own, one by one, adds them at the
/// end of the cache and leaves the rest as it was.
proof fn lemma_after_creations(
    keys: Seq<Seq<char>>,
    cache: Map<Seq<char>, KubeObject>,
    created: Seq<KubeObject>,
    events: Seq<WatchEvent>,
)
    requires
        forall|k: Seq<char>| cache.contains_key(k) <==> keys.contains(k),
        tell_of_creations(events, created),
        forall|i: int| 0 <= i < created.len() ==> !cache.contains_key(
            #[trigger] created[i].key_spec(),
        ),
        forall|i: int, j: int|
            0 <= i < j < created.len() ==> created[i].key_spec() != created[j].key_spec(),
    ensures
        keys_after_all(keys, events) == keys + Seq::new(
            created.len(),
            |i: int| created[i].key_spec(),
        ),
        forall|k: Seq<char>|
            apply_events(cache, events).contains_key(k) <==> keys_after_all(keys, events).contains(
                k,
            ),
        forall|k: Seq<char>| #[trigger]
            cache.contains_key(k) ==> apply_events(cache, events)[k] == cache[k],
        forall|i: int|
            0 <= i < created.len() ==> apply_events(cache, events)[#[trigger] created[i].key_spec()]
                == created[i],
    decreases created.len(),
{
    let added = Seq::new(created.len(), |i: int| created[i].key_spec());
    if created.len() == 0 {
        assert(events.len() == 0);
        assert(keys + added =~= keys);
    } else {
        let before = events.drop_last();
        let created0 = created.drop_last();
        let added0 = Seq::new(created0.len(), |i: int| created0[i].key_spec());
        assert forall|i: int| 0 <= i < before.len() implies ((#[trigger] before[i]) matches WatchEvent::Put(
            put,
        ) && put.key@ == created0[i].key_spec() && put.object == created0[i]) by {
            assert(before[i] == events[i]);
        }
        assert forall|i: int| 0 <= i < created0.len() implies !cache.contains_key(
            #[trigger] created0[i].key_spec(),
        ) by {
            assert(created0[i] == created[i]);
        }
        lemma_after_creations(keys, cache, created0, before);
        let keys0 = keys_after_all(keys, before);
        let cache0 = apply_events(cache, before);
        let last = events.last();
        assert(last == events[events.len() - 1]);
        let new = created.last();
        let key = new.key_spec();
        assert(new == created[created.len() - 1]);
        assert(!cache.contains_key(key));
        assert(!keys0.contains(key)) by {
            if keys0.contains(key) {
                let j = choose|j: int| 0 <= j < keys0.len() && keys0[j] == key;
                if j < keys.len() {
                    assert(keys[j] == key);
                    assert(keys.contains(key));
                } else {
                    assert(added0[j - keys.len()] == key);
                    assert(created[j - keys.len()].key_spec() == created[created.len() - 1].key_spec());
                }
            }
        }
        assert(keys0.push(key) =~= keys + added);
        let keys1 = keys_after_all(keys, events);
        let cache1 = apply_events(cache, events);
        assert(cache1 == cache0.insert(key, new));
        assert forall|k: Seq<char>| cache1.contains_key(k) <==> keys1.contains(k) by {
            if keys1.contains(k) {
                let j = choose|j: int| 0 <= j < keys1.len() && keys1[j] == k;
                if j < keys0.len() {
                    assert(keys0[j] == k);
                    assert(keys0.contains(k));
                }
            }
            if cache1.contains_key(k) {
                if k == key {
                    assert(keys1[keys1.len() - 1] == k);
                } else {
                    assert(keys0.contains(k));
                    let j = choose|j: int| 0 <= j < keys0.len() && keys0[j] == k;
                    assert(keys1[j] == k);
                }
            }
        }
        assert forall|i: int| 0 <= i < created.len() implies cache1[#[trigger] created[i].key_spec()]
            == created[i] by {
            if i < created.len() - 1 {
                assert(created0[i] == created[i]);
                assert(cache0[created0[i].key_spec()] == created0[i]);
            }
        }
    }
}

/// The pods that a pass creates have keys of their own: none is in the cache
/// yet, and no two are alike.
pub proof fn lemma_created_keys_fresh(
    set: KubeObject,
    cache: Map<Seq<char>, KubeObject>,
    keys: Seq<Seq<char>>,
    objects: Seq<KubeObject>,
    plan: Plan,
)
    requires
        plan_fits(set, cache, keys, objects, plan),
    ensures
        forall|i: int| 0 <= i < plan.create@.len() ==> !cache.contains_key(
            #[trigger] plan.create@[i].key_spec(),
        ),
        forall|i: int, j: int|
            0 <= i < j < plan.create@.len() ==> plan.create@[i].key_spec()
                != plan.create@[j].key_spec(),
{
    let rs = set.resource->ReplicaSet_0;
    let owner = set.metadata.name@;
    let created = plan.create@;
    let serials = choose|serials: Seq<nat>|
        {
            &&& serials.len() == created.len()
            &&& #[trigger] crate::replicaset::controller::lowest_free(cache, owner, serials)
            &&& forall|i: int|
                0 <= i < serials.len() ==> made_from(
                    rs.spec.template@,
                    set.metadata.namespace@,
                    crate::replicaset::names::pod_name_of(owner, serials[i]),
                    #[trigger] created[i],
                )
        };
    assert forall|i: int| 0 <= i < created.len() implies created[i].key_spec()
        == crate::replicaset::names::pod_key_of(owner, serials[i]) by {
        assert(made_from(
            rs.spec.template@,
            set.metadata.namespace@,
            crate::replicaset::names::pod_name_of(owner, serials[i]),
            created[i],
        ));
    }
    assert forall|i: int| 0 <= i < created.len() implies !cache.contains_key(
        #[trigger] created[i].key_spec(),
    ) by {
        assert(crate::replicaset::controller::is_free(cache, owner, serials[i]));
    }
    assert forall|i: int, j: int| 0 <= i < j < created.len() implies created[i].key_spec()
        != created[j].key_spec() by {
        if created[i].key_spec() == created[j].key_spec() {
            crate::replicaset::names::lemma_pod_key_injective(owner, serials[i], serials[j]);
        }
    }
}

/// Once the API server has told of a plan carried out (the victims deleted,
/// then the new pods put, each under a fresh key of its own), the informer's
/// cache holds what [`objects_after`] says: the survivors, then the new pods.
pub proof fn lemma_cache_after_plan(
    keys: Seq<Seq<char>>,
    cache: Map<Seq<char>, KubeObject>,
    selector: Map<Seq<char>, Seq<char>>,
    replicas: u32,
    created: Seq<KubeObject>,
    deletions: Seq<WatchEvent>,
    creations: Seq<WatchEvent>,
)
    requires
        distinct(keys),
        forall|k: Seq<char>| cache.contains_key(k) <==> keys.contains(k),
        tell_of_deletions(
            deletions,
            victim_keys(keys, objects_of(keys, cache), selector, replicas, keys.len() as int),
        ),
        tell_of_creations(creations, created),
        forall|i: int| 0 <= i < created.len() ==> !cache.contains_key(
            #[trigger] created[i].key_spec(),
        ),
        forall|i: int, j: int|
            0 <= i < j < created.len() ==> created[i].key_spec() != created[j].key_spec(),
    ensures
        objects_of(
            keys_after_all(keys_after_all(keys, deletions), creations),
            apply_events(apply_events(cache, deletions), creations),
        ) == objects_after(objects_of(keys, cache), selector, replicas, created),
{
    let objects = objects_of(keys, cache);
    let n = keys.len() as int;
    lemma_after_deletions(keys, cache, selector, replicas, n, deletions);
    lemma_victims_and_survivors(keys, objects, selector, replicas, n);
    let keys1 = keys_after_all(keys, deletions);
    let cache1 = apply_events(cache, deletions);
    let kept_keys = surviving_keys(keys, objects, selector, replicas, n);
    let kept = survivors(objects, selector, replicas, n);
    assert(keys.skip(n) =~= Seq::<Seq<char>>::empty());
    assert(keys1 =~= kept_keys);
    assert forall|i: int| 0 <= i < created.len() implies !cache1.contains_key(
        #[trigger] created[i].key_spec(),
    ) by {
        if cache1.contains_key(created[i].key_spec()) {
            assert(kept_keys.contains(created[i].key_spec()));
            assert(keys.contains(created[i].key_spec()));
        }
    }
    lemma_after_creations(keys1, cache1, created, creations);
    let keys2 = keys_after_all(keys1, creations);
    let cache2 = apply_events(cache1, creations);
    let after = objects_after(objects, selector, replicas, created);
    assert(keys2.len() == after.len());
    assert forall|j: int| 0 <= j < keys2.len() implies cache2[keys2[j]] == after[j] by {
        if j < kept_keys.len() {
            assert(keys2[j] == kept_keys[j]);
            let i = choose|i: int| 0 <= i < n && keys[i] == kept_keys[j] && objects[i] == kept[j];
            assert(kept_keys.contains(kept_keys[j]));
            assert(cache1.contains_key(kept_keys[j]));
            assert(cache1[kept_keys[j]] == cache[kept_keys[j]]);
            assert(cache2[kept_keys[j]] == cache1[kept_keys[j]]);
            assert(after[j] == kept[j]);
        } else {
            let i = j - kept_keys.len();
            assert(keys2[j] == created[i].key_spec());
            assert(after[j] == created[i]);
        }
    }
    assert(objects_of(keys2, cache2) =~= after);
}

} // verus!
