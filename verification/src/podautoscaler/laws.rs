//! What holds of every pass of the horizontal pod autoscaler.

use crate::objects::hpa::{
    HPAScalingPolicy, HorizontalPodAutoscalerSpecView, HorizontalPodAutoscalerStatus,
    PolicySelection, ScalingPolicyType,
};
use crate::objects::{KubeObject, KubeResource};
use crate::podautoscaler::behavior::{
    change_in_period, highest_limit, period_limit, Direction, ScaleEvent,
};
use crate::podautoscaler::horizontal::{
    events_of, history_of, normalized_for, stabilized, with_first_recommendation, AutoscalerState,
};
use crate::podautoscaler::reconcile::{
    begin_reconcile_spec, desired_without_metrics, finish_reconcile_spec, reconcile_spec,
    ReconcileOutcome, ReconcileStep,
};
use crate::time::Timestamp;
use vstd::prelude::*;

verus! {

/// After a pass, the autoscaler's status reports the replica count that was
/// read from the target during that pass: the count read, not the count
/// written.
pub proof fn lemma_status_reports_count_read(
    state: AutoscalerState,
    object: KubeObject,
    target_replicas: Option<u32>,
    samples: Seq<u32>,
    now: Timestamp,
)
    ensures
        reconcile_spec(state, object, target_replicas, samples, now).0 matches Ok(Some(outcome))
            ==> target_replicas == Some(outcome.status.current_replicas)
            && outcome.current_replicas == outcome.status.current_replicas,
{
}

/// Each half of a pass reports the count that it was given.
pub proof fn lemma_halves_report_count_read(
    state: AutoscalerState,
    name: Seq<char>,
    spec: HorizontalPodAutoscalerSpecView,
    status: Option<HorizontalPodAutoscalerStatus>,
    current: u32,
    raw: u32,
    started: Timestamp,
    now: Timestamp,
)
    ensures
        begin_reconcile_spec(state, name, spec, status, Some(current), now).0 matches ReconcileStep::Settled(
            outcome,
        ) ==> outcome.status.current_replicas == current,
        finish_reconcile_spec(
            state,
            name,
            spec,
            status,
            current,
            raw,
            started,
            now,
        ).0.status.current_replicas == current,
{
}

/// Where the target's replica count lies outside the autoscaler's bounds,
/// the metrics are bypassed: the pass settles on the nearer bound (or stays
/// at zero where scaling is switched off), whatever the pods report, and
/// the history gains no recommendation but the first.
pub proof fn lemma_metrics_bypassed_outside_bounds(
    state: AutoscalerState,
    object: KubeObject,
    current: u32,
    samples1: Seq<u32>,
    samples2: Seq<u32>,
    now: Timestamp,
)
    requires
        object.resource matches KubeResource::HorizontalPodAutoscaler(hpa) && (current
            > hpa.spec.max_replicas || current < hpa.spec.min_replicas),
    ensures
        reconcile_spec(state, object, Some(current), samples1, now) == reconcile_spec(
            state,
            object,
            Some(current),
            samples2,
            now,
        ),
        object.resource matches KubeResource::HorizontalPodAutoscaler(hpa) && reconcile_spec(
            state,
            object,
            Some(current),
            samples1,
            now,
        ).0 matches Ok(Some(outcome)) && Some(outcome.desired_replicas) == desired_without_metrics(
            hpa.spec.min_replicas,
            hpa.spec.max_replicas,
            current,
        ) && outcome.desired_replicas == (if current == 0 && hpa.spec.min_replicas != 0 {
            0
        } else if current > hpa.spec.max_replicas {
            hpa.spec.max_replicas
        } else {
            hpa.spec.min_replicas
        }),
        reconcile_spec(state, object, Some(current), samples1, now).1.recommendations
            == with_first_recommendation(
            state,
            object.metadata.name@,
            current,
            now,
        ).recommendations,
{
}

/// With one scale-up policy of a hundred percent and no scale-up in its
/// period, a pass at most doubles the replica count: it settles on the
/// stabilised recommendation, held to twice the count and to `max_replicas`;
/// the move is recorded as the one scale-up event, and the status reports
/// the count read, the count settled on, and the time of the pass.
pub proof fn lemma_percent_policy_doubles(
    state: AutoscalerState,
    name: Seq<char>,
    spec: HorizontalPodAutoscalerSpecView,
    status: Option<HorizontalPodAutoscalerStatus>,
    period_seconds: u32,
    current: u32,
    raw: u32,
    started: Timestamp,
    now: Timestamp,
)
    requires
        spec.behavior.scale_up.select_policy == PolicySelection::Max,
        spec.behavior.scale_up.policies == seq![
            HPAScalingPolicy { type_: ScalingPolicyType::Percent, value: 100, period_seconds },
        ],
        events_of(state.scale_up_events, name) == Seq::<ScaleEvent>::empty(),
        spec.min_replicas <= current,
        1 <= current < spec.max_replicas,
        stabilized(
            history_of(state.recommendations, name),
            spec.behavior,
            now,
            current as int,
            raw as int,
        ) > current,
    ensures
        ({
            let stabilized = stabilized(
                history_of(state.recommendations, name),
                spec.behavior,
                now,
                current as int,
                raw as int,
            );
            let doubled = if 2 * current > u32::MAX {
                u32::MAX as int
            } else {
                2 * current
            };
            let ceiling = if spec.max_replicas < doubled {
                spec.max_replicas as int
            } else {
                doubled
            };
            let desired = if stabilized < ceiling {
                stabilized
            } else {
                ceiling
            };
            let (outcome, after) = finish_reconcile_spec(
                state,
                name,
                spec,
                status,
                current,
                raw,
                started,
                now,
            );
            &&& current < desired <= u32::MAX
            &&& outcome == (ReconcileOutcome {
                current_replicas: current,
                desired_replicas: desired as u32,
                status: HorizontalPodAutoscalerStatus {
                    current_replicas: current,
                    desired_replicas: desired as u32,
                    last_scale_time: Some(started),
                },
                scale_target: true,
                update_status: status != Some(
                    HorizontalPodAutoscalerStatus {
                        current_replicas: current,
                        desired_replicas: desired as u32,
                        last_scale_time: Some(started),
                    },
                ),
            })
            &&& after.scale_up_events == state.scale_up_events.insert(
                name,
                seq![ScaleEvent { change: (desired - current) as u32, time: now }],
            )
            &&& after.scale_down_events == state.scale_down_events
        }),
{
    let policy = HPAScalingPolicy {
        type_: ScalingPolicyType::Percent,
        value: 100,
        period_seconds,
    };
    let policies = spec.behavior.scale_up.policies;
    let none = Seq::<ScaleEvent>::empty();
    assert(policies.len() == 1);
    assert(policies.last() == policy);
    assert(policies.drop_last() =~= Seq::<HPAScalingPolicy>::empty());
    assert(change_in_period(none, now, period_seconds as int) == 0);
    assert(period_limit(Direction::Up, policy, none, now, current as int) == 2 * current) by {
        assert((current as int) * (100 + 100) == 200 * current) by (nonlinear_arith);
    }
    assert(highest_limit(Direction::Up, policies.drop_last(), none, now, current as int) == 0);
    assert(highest_limit(Direction::Up, policies, none, now, current as int) == (if 2 * current
        > u32::MAX {
        u32::MAX as int
    } else {
        2 * current
    }));
    let desired = normalized_for(state, name, spec, now, current, raw);
    assert(current < desired <= u32::MAX);
    reveal(Seq::filter);
    assert(none.filter(
        |e: ScaleEvent|
            e.time.within(
                now,
                crate::objects::hpa::longest_period_of(spec.behavior.scale_up.policies),
            ),
    ) =~= none);
    let event = ScaleEvent { change: (desired - current) as u32, time: now };
    assert(none.push(event) =~= seq![event]);
}

} // verus!
