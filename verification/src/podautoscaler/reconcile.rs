//! One pass of the autoscaler over one object, cut at the points where the
//! controller has to wait for the API server or for metrics.

use crate::objects::hpa::{
    HorizontalPodAutoscaler, HorizontalPodAutoscalerSpecView, HorizontalPodAutoscalerStatus,
    ScaleTargetRef,
};
use crate::objects::replica_set::{ReplicaSet, ReplicaSetSpec};
use crate::informer::Store;
use crate::objects::{storage_key, storage_key_of, KubeObject, KubeResource, ResourceKind};
use crate::podautoscaler::horizontal::{
    normalized_for, with_first_recommendation, with_recommendation, with_scale_event,
    AutoscalerState, PodAutoscaler,
};
use crate::podautoscaler::replica_calculator::{
    calc_replicas_spec, compute_resource_replicas, target_level, MetricsError,
};
use crate::time::{current_time, Timestamp};
use vstd::prelude::*;
use vstd::string::StringExecFns;

verus! {

/// Seconds between two passes over the same autoscaler.
pub const SYNC_PERIOD: u32 = 15;

/// Why a pass over an object was given up.
#[derive(Clone, Copy, Debug, PartialEq, Eq, Structural)]
pub enum ReconcileError {
    /// The object is not a horizontal pod autoscaler.
    UnknownObjectType,
    /// The metrics gave no replica count.
    Metrics(MetricsError),
}

impl ReconcileError {
    pub fn message(&self) -> (text: String)
        ensures
            text@ == (match self {
                ReconcileError::UnknownObjectType => "Unknown object type"@,
                ReconcileError::Metrics(MetricsError::NoSamples) => "No pod reported the metric"@,
                ReconcileError::Metrics(MetricsError::ZeroTarget) => "The metric's target is zero"@,
            }),
    {
        match self {
            ReconcileError::UnknownObjectType => String::from_str("Unknown object type"),
            ReconcileError::Metrics(MetricsError::NoSamples) => String::from_str(
                "No pod reported the metric",
            ),
            ReconcileError::Metrics(MetricsError::ZeroTarget) => String::from_str(
                "The metric's target is zero",
            ),
        }
    }
}

/// What a pass decided, and what has to be written back for it.
#[derive(Clone, Copy, Debug, PartialEq, Eq, Structural)]
pub struct ReconcileOutcome {
    /// The target's replica count as it was read in this pass.
    pub current_replicas: u32,
    /// The replica count that the target is to have.
    pub desired_replicas: u32,
    /// The status that the autoscaler is to carry after this pass.
    pub status: HorizontalPodAutoscalerStatus,
    /// The target has to be written back with `desired_replicas`.
    pub scale_target: bool,
    /// The autoscaler has to be written back with `status`.
    pub update_status: bool,
}

/// Where a pass stands after the target has been read.
#[derive(Clone, Copy, Debug, PartialEq, Eq, Structural)]
pub enum ReconcileStep {
    /// The target is of a kind that has no replica count; the pass is over.
    NotScalable,
    /// The replica count depends on the metrics; the pass goes on with
    /// `finish_reconcile` once they are in.
    NeedMetrics { current_replicas: u32, started: Timestamp },
    /// The replica count was decided without metrics.
    Settled(ReconcileOutcome),
}

/// The replica count that needs no look at the metrics, if there is one.
///
/// A target at zero replicas is left there where `min_replicas` is not zero:
/// scaling is switched off. A count outside `min_replicas..=max_replicas` is
/// brought to the nearer bound, the upper bound first. A count of zero that
/// the bounds allow becomes one.
pub open spec fn desired_without_metrics(min_replicas: u32, max_replicas: u32, current: u32) -> Option<
    u32,
> {
    if current == 0 && min_replicas != 0 {
        Some(0u32)
    } else if current > max_replicas {
        Some(max_replicas)
    } else if current < min_replicas {
        Some(min_replicas)
    } else if current == 0 {
        Some(1u32)
    } else {
        None
    }
}

/// The status after a pass that started at `started`, given the status that
/// stood before, if any: the time of the last scaling moves on only when the
/// count does, and an autoscaler that never had a status has never scaled.
pub open spec fn next_status(
    status: Option<HorizontalPodAutoscalerStatus>,
    current: u32,
    desired: u32,
    started: Timestamp,
) -> HorizontalPodAutoscalerStatus {
    HorizontalPodAutoscalerStatus {
        current_replicas: current,
        desired_replicas: desired,
        last_scale_time: if current != desired {
            Some(started)
        } else {
            match status {
                Some(earlier) => earlier.last_scale_time,
                None => None,
            }
        },
    }
}

/// The outcome of a pass that found `current` replicas and decided on
/// `desired`: the target is written where the count moves, and the status
/// where it differs from the one that stood before, or where none stood.
pub open spec fn outcome_of(
    status: Option<HorizontalPodAutoscalerStatus>,
    current: u32,
    desired: u32,
    started: Timestamp,
) -> ReconcileOutcome {
    ReconcileOutcome {
        current_replicas: current,
        desired_replicas: desired,
        status: next_status(status, current, desired, started),
        scale_target: current != desired,
        update_status: status != Some(next_status(status, current, desired, started)),
    }
}

/// The replica count of a scale target: that of a replica set, and none for
/// any other kind.
pub open spec fn replicas_of(target: KubeObject) -> Option<u32> {
    match target.resource {
        KubeResource::ReplicaSet(rs) => Some(rs.spec.replicas),
        _ => None,
    }
}

/// The first half of a pass: what it returns and the state it leaves.
///
/// A target without a replica count ends the pass. Otherwise the autoscaler
/// gets a history if it had none, and the pass either settles on a count
/// that needs no metrics or asks for them.
pub open spec fn begin_reconcile_spec(
    state: AutoscalerState,
    name: Seq<char>,
    spec: HorizontalPodAutoscalerSpecView,
    status: Option<HorizontalPodAutoscalerStatus>,
    target_replicas: Option<u32>,
    now: Timestamp,
) -> (ReconcileStep, AutoscalerState) {
    match target_replicas {
        None => (ReconcileStep::NotScalable, state),
        Some(current) => {
            let seeded = with_first_recommendation(state, name, current, now);
            match desired_without_metrics(spec.min_replicas, spec.max_replicas, current) {
                Some(desired) => (
                    ReconcileStep::Settled(outcome_of(status, current, desired, now)),
                    with_scale_event(seeded, name, spec.behavior, current, desired, now),
                ),
                None => (
                    ReconcileStep::NeedMetrics { current_replicas: current, started: now },
                    seeded,
                ),
            }
        },
    }
}

/// The second half of a pass: what it returns and the state it leaves. The
/// recommendation `raw` is normalised and joins the history, and a move is
/// recorded as a scale event.
pub open spec fn finish_reconcile_spec(
    state: AutoscalerState,
    name: Seq<char>,
    spec: HorizontalPodAutoscalerSpecView,
    status: Option<HorizontalPodAutoscalerStatus>,
    current: u32,
    raw: u32,
    started: Timestamp,
    now: Timestamp,
) -> (ReconcileOutcome, AutoscalerState) {
    let desired = normalized_for(state, name, spec, now, current, raw) as u32;
    (
        outcome_of(status, current, desired, started),
        with_scale_event(
            with_recommendation(state, name, spec.behavior, raw, now),
            name,
            spec.behavior,
            current,
            desired,
            now,
        ),
    )
}

/// A whole pass over `object` at `now`, given the replica count of its scale
/// target, if the target has one, and the metric as the target's pods
/// report it: what the pass returns and the state it leaves.
///
/// An object that is no autoscaler is an error. A target without a replica
/// count ends the pass with nothing to write. Where the count is decided
/// without the metrics, the samples are not looked at; where it is not, they
/// give the recommendation, or the error for which they give none.
pub open spec fn reconcile_spec(
    state: AutoscalerState,
    object: KubeObject,
    target_replicas: Option<u32>,
    samples: Seq<u32>,
    now: Timestamp,
) -> (Result<Option<ReconcileOutcome>, ReconcileError>, AutoscalerState) {
    match object.resource {
        KubeResource::HorizontalPodAutoscaler(hpa) => {
            let name = object.metadata.name@;
            let (step, begun) = begin_reconcile_spec(
                state,
                name,
                hpa.spec@,
                hpa.status,
                target_replicas,
                now,
            );
            match step {
                ReconcileStep::NotScalable => (Ok(None), begun),
                ReconcileStep::Settled(outcome) => (Ok(Some(outcome)), begun),
                ReconcileStep::NeedMetrics { current_replicas, started } => match calc_replicas_spec(
                    current_replicas,
                    target_level(hpa.spec.metrics.target),
                    samples,
                ) {
                    Err(e) => (Err(ReconcileError::Metrics(e)), begun),
                    Ok(raw) => {
                        let (outcome, finished) = finish_reconcile_spec(
                            begun,
                            name,
                            hpa.spec@,
                            hpa.status,
                            current_replicas,
                            raw,
                            started,
                            now,
                        );
                        (Ok(Some(outcome)), finished)
                    },
                },
            }
        },
        _ => (Err(ReconcileError::UnknownObjectType), state),
    }
}

/// The object that `object` asks to be scaled.
pub fn scale_target_of(object: &KubeObject) -> (target: Result<&ScaleTargetRef, ReconcileError>)
    ensures
        match object.resource {
            KubeResource::HorizontalPodAutoscaler(hpa) => target == Ok::<
                &ScaleTargetRef,
                ReconcileError,
            >(&hpa.spec.scale_target_ref),
            _ => target == Err::<&ScaleTargetRef, ReconcileError>(
                ReconcileError::UnknownObjectType,
            ),
        },
{
    match &object.resource {
        KubeResource::HorizontalPodAutoscaler(hpa) => Ok(&hpa.spec.scale_target_ref),
        _ => Err(ReconcileError::UnknownObjectType),
    }
}

/// The replica count of a scale target, where it has one.
pub fn target_replicas(target: &KubeObject) -> (replicas: Option<u32>)
    ensures
        replicas == replicas_of(*target),
{
    match &target.resource {
        KubeResource::ReplicaSet(rs) => Some(rs.spec.replicas),
        _ => None,
    }
}

/// `target` with its replica count set to `replicas`; a target that has no
/// replica count comes back as it was.
pub fn scaled_to(target: KubeObject, replicas: u32) -> (scaled: KubeObject)
    ensures
        scaled.metadata == target.metadata,
        match target.resource {
            KubeResource::ReplicaSet(rs) => scaled.resource == KubeResource::ReplicaSet(
                ReplicaSet { spec: ReplicaSetSpec { replicas, ..rs.spec }, ..rs },
            ),
            _ => scaled.resource == target.resource,
        },
{
    let KubeObject { metadata, resource } = target;
    match resource {
        KubeResource::ReplicaSet(rs) => {
            let ReplicaSet { spec, status } = rs;
            let ReplicaSetSpec { replicas: _, selector, template } = spec;
            KubeObject {
                metadata,
                resource: KubeResource::ReplicaSet(
                    ReplicaSet { spec: ReplicaSetSpec { replicas, selector, template }, status },
                ),
            }
        },
        other => KubeObject { metadata, resource: other },
    }
}

/// `object` with its autoscaler status set to `status`; an object that is no
/// autoscaler comes back as it was.
pub fn with_status(object: KubeObject, status: HorizontalPodAutoscalerStatus) -> (updated:
    KubeObject)
    ensures
        updated.metadata == object.metadata,
        match object.resource {
            KubeResource::HorizontalPodAutoscaler(hpa) => updated.resource
                == KubeResource::HorizontalPodAutoscaler(
                HorizontalPodAutoscaler { status: Some(status), ..hpa },
            ),
            _ => updated.resource == object.resource,
        },
{
    let KubeObject { metadata, resource } = object;
    match resource {
        KubeResource::HorizontalPodAutoscaler(hpa) => {
            let HorizontalPodAutoscaler { spec, status: _ } = hpa;
            KubeObject {
                metadata,
                resource: KubeResource::HorizontalPodAutoscaler(
                    HorizontalPodAutoscaler { spec, status: Some(status) },
                ),
            }
        },
        other => KubeObject { metadata, resource: other },
    }
}

/// The replica count that needs no look at the metrics, if there is one.
pub fn replicas_without_metrics(hpa: &HorizontalPodAutoscaler, current_replicas: u32) -> (desired:
    Option<u32>)
    ensures
        desired == desired_without_metrics(
            hpa.spec.min_replicas,
            hpa.spec.max_replicas,
            current_replicas,
        ),
{
    if current_replicas == 0 && hpa.spec.min_replicas != 0 {
        Some(0)
    } else if current_replicas > hpa.spec.max_replicas {
        Some(hpa.spec.max_replicas)
    } else if current_replicas < hpa.spec.min_replicas {
        Some(hpa.spec.min_replicas)
    } else if current_replicas == 0 {
        Some(1)
    } else {
        None
    }
}

impl PodAutoscaler {
    /// Closes a pass that found `current_replicas` and decided on
    /// `desired_replicas`: a move is recorded as a scale event at `now`, and
    /// the outcome says what to write back. The status reports the count
    /// that was found; `status` is the one that stood before, if any.
    pub fn settle(
        &mut self,
        hpa_name: &String,
        hpa: &HorizontalPodAutoscaler,
        status: Option<HorizontalPodAutoscalerStatus>,
        current_replicas: u32,
        desired_replicas: u32,
        started: Timestamp,
        now: Timestamp,
    ) -> (outcome: ReconcileOutcome)
        ensures
            outcome == outcome_of(status, current_replicas, desired_replicas, started),
            outcome.status.current_replicas == current_replicas,
            final(self)@ == with_scale_event(
                old(self)@,
                hpa_name@,
                hpa.spec@.behavior,
                current_replicas,
                desired_replicas,
                now,
            ),
    {
        if current_replicas != desired_replicas {
            self.record_scale_event(
                hpa_name,
                &hpa.spec.behavior,
                current_replicas,
                desired_replicas,
                now,
            );
        }
        let new_status = HorizontalPodAutoscalerStatus {
            current_replicas,
            desired_replicas,
            last_scale_time: if current_replicas != desired_replicas {
                Some(started)
            } else {
                match status {
                    Some(earlier) => earlier.last_scale_time,
                    None => None,
                }
            },
        };
        let update_status = match status {
            Some(earlier) => earlier != new_status,
            None => true,
        };
        ReconcileOutcome {
            current_replicas,
            desired_replicas,
            status: new_status,
            scale_target: current_replicas != desired_replicas,
            update_status,
        }
    }

    /// The first half of a pass over the autoscaler `hpa`, called `hpa_name`,
    /// whose scale target was read as `target` at `now`.
    ///
    /// A target without a replica count ends the pass. Otherwise the
    /// autoscaler gets a history if it had none, and the pass either settles
    /// on a count that needs no metrics or asks for them. An autoscaler that
    /// carries no status yet is given one.
    pub fn begin_reconcile_at(
        &mut self,
        hpa_name: &String,
        hpa: &HorizontalPodAutoscaler,
        target: &KubeObject,
        now: Timestamp,
    ) -> (step: ReconcileStep)
        ensures
            (step, final(self)@) == begin_reconcile_spec(
                old(self)@,
                hpa_name@,
                hpa.spec@,
                hpa.status,
                replicas_of(*target),
                now,
            ),
            step matches ReconcileStep::Settled(o) ==> replicas_of(*target) == Some(
                o.status.current_replicas,
            ),
    {
        let current_replicas = match target_replicas(target) {
            Some(replicas) => replicas,
            None => {
                return ReconcileStep::NotScalable;
            },
        };
        self.ensure_history(hpa_name, current_replicas, now);
        match replicas_without_metrics(hpa, current_replicas) {
            Some(desired_replicas) => {
                let outcome = self.settle(
                    hpa_name,
                    hpa,
                    hpa.status,
                    current_replicas,
                    desired_replicas,
                    now,
                    now,
                );
                ReconcileStep::Settled(outcome)
            },
            None => ReconcileStep::NeedMetrics { current_replicas, started: now },
        }
    }

    /// The second half of a pass that started at `started` and found
    /// `current_replicas`: the metrics ask for `raw_replicas`, which is
    /// normalised at `now`, and the pass is closed on the result.
    pub fn finish_reconcile_at(
        &mut self,
        hpa_name: &String,
        hpa: &HorizontalPodAutoscaler,
        current_replicas: u32,
        raw_replicas: u32,
        started: Timestamp,
        now: Timestamp,
    ) -> (outcome: ReconcileOutcome)
        ensures
            (outcome, final(self)@) == finish_reconcile_spec(
                old(self)@,
                hpa_name@,
                hpa.spec@,
                hpa.status,
                current_replicas,
                raw_replicas,
                started,
                now,
            ),
            outcome.status.current_replicas == current_replicas,
    {
        let desired_replicas = self.normalize_desired_replicas(
            hpa_name,
            hpa,
            current_replicas,
            raw_replicas,
            now,
        );
        self.settle(
            hpa_name,
            hpa,
            hpa.status,
            current_replicas,
            desired_replicas,
            started,
            now,
        )
    }

    /// A whole pass over `object` at `now`: `target` is its scale target as
    /// it was read, and `samples` hold the metric as the target's pods report
    /// it, one sample for each pod.
    ///
    /// The status of the outcome reports the count that was read from the
    /// target. The samples are looked at only where the count lies within
    /// the autoscaler's bounds.
    pub fn reconcile(
        &mut self,
        object: &KubeObject,
        target: &KubeObject,
        samples: &Vec<u32>,
        now: Timestamp,
    ) -> (outcome: Result<Option<ReconcileOutcome>, ReconcileError>)
        ensures
            (outcome, final(self)@) == reconcile_spec(
                old(self)@,
                *object,
                replicas_of(*target),
                samples@,
                now,
            ),
            outcome matches Ok(Some(o)) ==> replicas_of(*target) == Some(
                o.status.current_replicas,
            ),
    {
        let hpa = match &object.resource {
            KubeResource::HorizontalPodAutoscaler(hpa) => hpa,
            _ => {
                return Err(ReconcileError::UnknownObjectType);
            },
        };
        match self.begin_reconcile_at(&object.metadata.name, hpa, target, now) {
            ReconcileStep::NotScalable => Ok(None),
            ReconcileStep::Settled(outcome) => Ok(Some(outcome)),
            ReconcileStep::NeedMetrics { current_replicas, started } => {
                match compute_resource_replicas(&hpa.spec.metrics, current_replicas, samples) {
                    Err(e) => Err(ReconcileError::Metrics(e)),
                    Ok(raw_replicas) => Ok(
                        Some(
                            self.finish_reconcile_at(
                                &object.metadata.name,
                                hpa,
                                current_replicas,
                                raw_replicas,
                                started,
                                now,
                            ),
                        ),
                    ),
                }
            },
        }
    }

    /// [`Self::begin_reconcile_at`] at the time that the clock shows.
    pub fn begin_reconcile(
        &mut self,
        hpa_name: &String,
        hpa: &HorizontalPodAutoscaler,
        target: &KubeObject,
    ) -> (step: ReconcileStep)
        ensures
            exists|now: Timestamp|
                (step, final(self)@) == begin_reconcile_spec(
                    old(self)@,
                    hpa_name@,
                    hpa.spec@,
                    hpa.status,
                    replicas_of(*target),
                    now,
                ),
            step matches ReconcileStep::Settled(o) ==> replicas_of(*target) == Some(
                o.status.current_replicas,
            ),
    {
        let now = current_time();
        self.begin_reconcile_at(hpa_name, hpa, target, now)
    }

    /// [`Self::finish_reconcile_at`] at the time that the clock shows.
    pub fn finish_reconcile(
        &mut self,
        hpa_name: &String,
        hpa: &HorizontalPodAutoscaler,
        current_replicas: u32,
        raw_replicas: u32,
        started: Timestamp,
    ) -> (outcome: ReconcileOutcome)
        ensures
            exists|now: Timestamp|
                (outcome, final(self)@) == finish_reconcile_spec(
                    old(self)@,
                    hpa_name@,
                    hpa.spec@,
                    hpa.status,
                    current_replicas,
                    raw_replicas,
                    started,
                    now,
                ),
            outcome.status.current_replicas == current_replicas,
    {
        let now = current_time();
        self.finish_reconcile_at(hpa_name, hpa, current_replicas, raw_replicas, started, now)
    }
}

/// The name under which an autoscaler that was added is queued for a pass.
pub fn on_add(new: &KubeObject) -> (name: String)
    ensures
        name@ == new.metadata.name@,
{
    new.metadata.name.clone()
}

/// Whether a change from `old` to `new` calls for a pass: both are
/// autoscalers, and their specs differ.
pub open spec fn spec_changed(old: KubeObject, new: KubeObject) -> bool {
    match (old.resource, new.resource) {
        (
            KubeResource::HorizontalPodAutoscaler(old_hpa),
            KubeResource::HorizontalPodAutoscaler(new_hpa),
        ) => old_hpa.spec@ != new_hpa.spec@,
        _ => false,
    }
}

/// The name under which an autoscaler that was updated is queued for a
/// pass, if its spec has changed. A change of status alone queues nothing.
pub fn on_update(old: &KubeObject, new: &KubeObject) -> (name: Option<String>)
    ensures
        spec_changed(*old, *new) ==> (name matches Some(n) && n@ == new.metadata.name@),
        !spec_changed(*old, *new) ==> name is None,
{
    match (&old.resource, &new.resource) {
        (
            KubeResource::HorizontalPodAutoscaler(old_hpa),
            KubeResource::HorizontalPodAutoscaler(new_hpa),
        ) => {
            if !old_hpa.spec.same_as(&new_hpa.spec) {
                Some(new.metadata.name.clone())
            } else {
                None
            }
        },
        _ => None,
    }
}

impl PodAutoscaler {
    /// Takes the autoscaler `hpa_name` off the work queue: where the cache
    /// still holds it, it is handed out for a pass; where it is gone, its
    /// history is forgotten.
    pub fn due<'a>(&mut self, hpa_name: &String, cache: &'a Store) -> (object: Option<
        &'a KubeObject,
    >)
        ensures
            ({
                let key = storage_key_of(ResourceKind::HorizontalPodAutoscaler, hpa_name@);
                if cache@.contains_key(key) {
                    object == Some(&cache@[key]) && final(self)@ == old(self)@
                } else {
                    object is None && final(self)@ == (AutoscalerState {
                        recommendations: old(self)@.recommendations.remove(hpa_name@),
                        scale_up_events: old(self)@.scale_up_events.remove(hpa_name@),
                        scale_down_events: old(self)@.scale_down_events.remove(hpa_name@),
                    })
                }
            }),
    {
        let key = storage_key(ResourceKind::HorizontalPodAutoscaler, hpa_name.as_str());
        match cache.get(&key) {
            Some(object) => Some(object),
            None => {
                self.forget(hpa_name);
                None
            },
        }
    }
}

} // verus!
