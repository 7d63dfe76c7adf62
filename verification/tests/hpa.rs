use rminik8s::objects::hpa::{
    HPAScalingPolicy, HPAScalingRules, HorizontalPodAutoscaler, HorizontalPodAutoscalerBehavior,
    HorizontalPodAutoscalerSpec, HorizontalPodAutoscalerStatus, MetricTarget, PolicySelection,
    ResourceMetricSource, ScaleTargetRef, ScalingPolicyType,
};
use rminik8s::objects::labels::Labels;
use rminik8s::objects::pod::PodSpec;
use rminik8s::objects::replica_set::{PodTemplateSpec, ReplicaSet, ReplicaSetSpec};
use rminik8s::objects::{KubeObject, KubeResource, Metadata};
use rminik8s::podautoscaler::behavior::{
    calc_scale_down_limit, calc_scale_up_limit, discard_outdated_scale_events,
    get_replicas_change_in_period, ScaleEvent,
};
use rminik8s::podautoscaler::horizontal::PodAutoscaler;
use rminik8s::podautoscaler::reconcile::{
    replicas_without_metrics, scale_target_of, scaled_to, target_replicas, with_status,
    ReconcileError, ReconcileOutcome, ReconcileStep, SYNC_PERIOD,
};
use rminik8s::podautoscaler::replica_calculator::{
    calc_replicas, compute_resource_replicas, MetricsError,
};
use rminik8s::time::Timestamp;

fn at(secs: i64) -> Timestamp {
    Timestamp::new(secs, 0)
}

fn policy(type_: ScalingPolicyType, value: u32, period_seconds: u32) -> HPAScalingPolicy {
    HPAScalingPolicy { type_, value, period_seconds }
}

fn rules(
    window: u32,
    select_policy: PolicySelection,
    policies: Vec<HPAScalingPolicy>,
) -> HPAScalingRules {
    HPAScalingRules { stabilization_window_seconds: window, select_policy, policies }
}

fn autoscaler(
    min_replicas: u32,
    max_replicas: u32,
    scale_up: HPAScalingRules,
    scale_down: HPAScalingRules,
) -> HorizontalPodAutoscaler {
    HorizontalPodAutoscaler {
        spec: HorizontalPodAutoscalerSpec {
            scale_target_ref: ScaleTargetRef {
                kind: "ReplicaSet".to_string(),
                name: "r1".to_string(),
            },
            min_replicas,
            max_replicas,
            metrics: ResourceMetricSource {
                name: "cpu".to_string(),
                target: MetricTarget::AverageUtilization(50),
            },
            behavior: HorizontalPodAutoscalerBehavior { scale_up, scale_down },
        },
        status: Some(HorizontalPodAutoscalerStatus {
            current_replicas: 0,
            desired_replicas: 0,
            last_scale_time: None,
        }),
    }
}

fn open_rules() -> HPAScalingRules {
    rules(0, PolicySelection::Max, vec![policy(ScalingPolicyType::Percent, 1_000_000, 60)])
}

fn replica_set(name: &str, replicas: u32) -> KubeObject {
    KubeObject {
        metadata: Metadata {
            name: name.to_string(),
            namespace: "default".to_string(),
            uid: None,
            labels: Labels::new(),
        },
        resource: KubeResource::ReplicaSet(ReplicaSet {
            spec: ReplicaSetSpec {
                replicas,
                selector: Labels::new(),
                template: PodTemplateSpec {
                    labels: Labels::new(),
                    spec: PodSpec { containers: Vec::new(), node_name: None },
                },
            },
            status: None,
        }),
    }
}

fn name() -> String {
    "h1".to_string()
}

#[test]
fn percent_policy_doubles_the_count() {
    let events: Vec<ScaleEvent> = Vec::new();
    let up = rules(0, PolicySelection::Max, vec![policy(ScalingPolicyType::Percent, 100, 60)]);
    assert_eq!(calc_scale_up_limit(4, &events, &up, at(1_000)), 8);
}

#[test]
fn percent_policy_rounds_up() {
    let events: Vec<ScaleEvent> = Vec::new();
    let up = rules(0, PolicySelection::Max, vec![policy(ScalingPolicyType::Percent, 10, 60)]);
    // 3 * 1.10 = 3.3, and 5 * 1.10 = 5.5
    assert_eq!(calc_scale_up_limit(3, &events, &up, at(1_000)), 4);
    assert_eq!(calc_scale_up_limit(5, &events, &up, at(1_000)), 6);
    // 10 * 1.10 is 11 exactly
    assert_eq!(calc_scale_up_limit(10, &events, &up, at(1_000)), 11);
    let down = rules(0, PolicySelection::Max, vec![policy(ScalingPolicyType::Percent, 10, 60)]);
    // 5 * 0.90 = 4.5
    assert_eq!(calc_scale_down_limit(5, &events, &down, at(1_000)), 5);
    assert_eq!(calc_scale_down_limit(10, &events, &down, at(1_000)), 9);
}

#[test]
fn pods_policy_adds_and_takes_away() {
    let events: Vec<ScaleEvent> = Vec::new();
    let up = rules(0, PolicySelection::Max, vec![policy(ScalingPolicyType::Pods, 4, 60)]);
    assert_eq!(calc_scale_up_limit(10, &events, &up, at(1_000)), 14);
    let down = rules(0, PolicySelection::Max, vec![policy(ScalingPolicyType::Pods, 4, 60)]);
    assert_eq!(calc_scale_down_limit(10, &events, &down, at(1_000)), 6);
    assert_eq!(calc_scale_down_limit(3, &events, &down, at(1_000)), 0);
}

#[test]
fn limits_stay_in_range() {
    let events: Vec<ScaleEvent> = Vec::new();
    let up = rules(0, PolicySelection::Max, vec![policy(ScalingPolicyType::Pods, u32::MAX, 60)]);
    assert_eq!(calc_scale_up_limit(10, &events, &up, at(1_000)), u32::MAX);
    let percent =
        rules(0, PolicySelection::Max, vec![policy(ScalingPolicyType::Percent, u32::MAX, 60)]);
    assert_eq!(calc_scale_up_limit(u32::MAX, &events, &percent, at(1_000)), u32::MAX);
    let down = rules(0, PolicySelection::Max, vec![policy(ScalingPolicyType::Percent, 250, 60)]);
    assert_eq!(calc_scale_down_limit(10, &events, &down, at(1_000)), 0);
}

#[test]
fn disabled_selection_keeps_the_count() {
    let events: Vec<ScaleEvent> = Vec::new();
    let off = rules(0, PolicySelection::Disabled, vec![policy(ScalingPolicyType::Pods, 4, 60)]);
    assert_eq!(calc_scale_up_limit(10, &events, &off, at(1_000)), 10);
    assert_eq!(calc_scale_down_limit(10, &events, &off, at(1_000)), 10);
}

#[test]
fn selection_picks_among_policies() {
    let events: Vec<ScaleEvent> = Vec::new();
    let two = vec![
        policy(ScalingPolicyType::Pods, 4, 60),
        policy(ScalingPolicyType::Percent, 100, 60),
    ];
    let widest = rules(0, PolicySelection::Max, two.clone());
    let narrowest = rules(0, PolicySelection::Min, two);
    // from 10: four pods give 14, a hundred percent give 20
    assert_eq!(calc_scale_up_limit(10, &events, &widest, at(1_000)), 20);
    assert_eq!(calc_scale_up_limit(10, &events, &narrowest, at(1_000)), 14);
    // from 10: four pods give 6, a hundred percent give 0
    assert_eq!(calc_scale_down_limit(10, &events, &widest, at(1_000)), 0);
    assert_eq!(calc_scale_down_limit(10, &events, &narrowest, at(1_000)), 6);
}

#[test]
fn no_policies_give_the_seed() {
    let events: Vec<ScaleEvent> = Vec::new();
    let widest = rules(0, PolicySelection::Max, Vec::new());
    let narrowest = rules(0, PolicySelection::Min, Vec::new());
    assert_eq!(calc_scale_up_limit(10, &events, &widest, at(1_000)), 0);
    assert_eq!(calc_scale_up_limit(10, &events, &narrowest, at(1_000)), u32::MAX);
    assert_eq!(calc_scale_down_limit(10, &events, &widest, at(1_000)), u32::MAX);
    assert_eq!(calc_scale_down_limit(10, &events, &narrowest, at(1_000)), 0);
}

#[test]
fn events_in_the_period_count_against_the_limit() {
    let events = vec![
        ScaleEvent { change: 5, time: at(900) },
        ScaleEvent { change: 2, time: at(950) },
        ScaleEvent { change: 1, time: at(1_000) },
    ];
    assert_eq!(get_replicas_change_in_period(60, &events, at(1_000)), 3);
    assert_eq!(get_replicas_change_in_period(50, &events, at(1_000)), 3);
    assert_eq!(get_replicas_change_in_period(49, &events, at(1_000)), 1);
    assert_eq!(get_replicas_change_in_period(100, &events, at(1_000)), 8);
    assert_eq!(get_replicas_change_in_period(0, &events, at(1_000)), 1);
    let empty: Vec<ScaleEvent> = Vec::new();
    assert_eq!(get_replicas_change_in_period(60, &empty, at(1_000)), 0);
    // 10 now, 3 of them added within the minute: the period began at 7
    let up = rules(0, PolicySelection::Max, vec![policy(ScalingPolicyType::Pods, 4, 60)]);
    assert_eq!(calc_scale_up_limit(10, &events, &up, at(1_000)), 11);
    let percent = rules(0, PolicySelection::Max, vec![policy(ScalingPolicyType::Percent, 100, 60)]);
    assert_eq!(calc_scale_up_limit(10, &events, &percent, at(1_000)), 14);
    // 10 now, 3 of them removed within the minute: the period began at 13
    let down = rules(0, PolicySelection::Max, vec![policy(ScalingPolicyType::Pods, 4, 60)]);
    assert_eq!(calc_scale_down_limit(10, &events, &down, at(1_000)), 9);
    let half = rules(0, PolicySelection::Max, vec![policy(ScalingPolicyType::Percent, 50, 60)]);
    assert_eq!(calc_scale_down_limit(10, &events, &half, at(1_000)), 7);
}

#[test]
fn more_added_than_there_is_starts_the_period_at_zero() {
    let events = vec![ScaleEvent { change: 50, time: at(990) }];
    let up = rules(0, PolicySelection::Max, vec![policy(ScalingPolicyType::Pods, 4, 60)]);
    assert_eq!(calc_scale_up_limit(10, &events, &up, at(1_000)), 4);
}

#[test]
fn the_nanoseconds_decide_at_the_edge_of_a_period() {
    let now = Timestamp::new(1_000, 500);
    let inside = vec![ScaleEvent { change: 2, time: Timestamp::new(940, 500) }];
    let outside = vec![ScaleEvent { change: 2, time: Timestamp::new(940, 499) }];
    assert_eq!(get_replicas_change_in_period(60, &inside, now), 2);
    assert_eq!(get_replicas_change_in_period(60, &outside, now), 0);
}

#[test]
fn outdated_events_are_discarded() {
    let mut events = vec![
        ScaleEvent { change: 5, time: at(900) },
        ScaleEvent { change: 2, time: at(950) },
        ScaleEvent { change: 7, time: at(100) },
        ScaleEvent { change: 1, time: at(1_000) },
    ];
    discard_outdated_scale_events(&mut events, 60, at(1_000));
    assert_eq!(
        events,
        vec![ScaleEvent { change: 2, time: at(950) }, ScaleEvent { change: 1, time: at(1_000) }]
    );
}

#[test]
fn longest_period_is_the_maximum() {
    let some = rules(
        0,
        PolicySelection::Max,
        vec![
            policy(ScalingPolicyType::Pods, 4, 60),
            policy(ScalingPolicyType::Pods, 4, 300),
            policy(ScalingPolicyType::Pods, 4, 15),
        ],
    );
    assert_eq!(some.longest_period(), 300);
    assert_eq!(rules(0, PolicySelection::Max, Vec::new()).longest_period(), 0);
}

#[test]
fn hpa_stabilization_window() {
    let t: i64 = 10_000;
    let hpa = autoscaler(1, 10, open_rules(), rules(300, PolicySelection::Max, Vec::new()));
    let mut autoscaler = PodAutoscaler::new();
    autoscaler.ensure_history(&name(), 5, at(t - 200));
    let earlier = autoscaler.stabilize_recommendation(
        &name(),
        5,
        4,
        &hpa.spec.behavior,
        at(t - 100),
    );
    assert_eq!(earlier, 5);
    let stabilized =
        autoscaler.stabilize_recommendation(&name(), 5, 3, &hpa.spec.behavior, at(t));
    assert_eq!(stabilized, 5);
}

#[test]
fn stabilization_lets_go_once_the_window_has_passed() {
    let t: i64 = 10_000;
    let hpa = autoscaler(1, 10, open_rules(), rules(300, PolicySelection::Max, Vec::new()));
    let mut autoscaler = PodAutoscaler::new();
    autoscaler.ensure_history(&name(), 5, at(t - 400));
    let first = autoscaler.stabilize_recommendation(
        &name(),
        5,
        4,
        &hpa.spec.behavior,
        at(t - 350),
    );
    assert_eq!(first, 5);
    // at t the recommendation of 5 is 400 s old and gone; that of 4 is 350 s old and gone too
    let stabilized =
        autoscaler.stabilize_recommendation(&name(), 5, 3, &hpa.spec.behavior, at(t));
    assert_eq!(stabilized, 3);
    // the raw 3 of a moment ago now holds the count down
    let next =
        autoscaler.stabilize_recommendation(&name(), 3, 2, &hpa.spec.behavior, at(t + 10));
    assert_eq!(next, 3);
}

#[test]
fn scale_up_window_holds_the_count_down() {
    let t: i64 = 10_000;
    let hpa = autoscaler(
        1,
        100,
        rules(60, PolicySelection::Max, Vec::new()),
        rules(0, PolicySelection::Max, Vec::new()),
    );
    let mut autoscaler = PodAutoscaler::new();
    autoscaler.ensure_history(&name(), 4, at(t - 30));
    // the lowest recommendation of the last minute is 4
    assert_eq!(autoscaler.stabilize_recommendation(&name(), 4, 9, &hpa.spec.behavior, at(t)), 4);
    // 61 s on, only the 9 is left
    assert_eq!(
        autoscaler.stabilize_recommendation(&name(), 4, 8, &hpa.spec.behavior, at(t + 31)),
        8
    );
}

#[test]
fn without_a_history_the_recommendation_stands() {
    let hpa = autoscaler(1, 10, open_rules(), rules(300, PolicySelection::Max, Vec::new()));
    let mut autoscaler = PodAutoscaler::new();
    // nothing recent holds the recommendation back
    assert_eq!(
        autoscaler.stabilize_recommendation(&name(), 5, 3, &hpa.spec.behavior, at(1_000)),
        3
    );
    // and it has started the history: ten seconds on it holds the count at 3
    assert_eq!(
        autoscaler.stabilize_recommendation(&name(), 3, 2, &hpa.spec.behavior, at(1_010)),
        3
    );
    let mut other = PodAutoscaler::new();
    assert_eq!(
        other.stabilize_recommendation(&name(), 5, 9, &hpa.spec.behavior, at(1_000)),
        9
    );
    let mut third = PodAutoscaler::new();
    assert_eq!(third.normalize_desired_replicas(&name(), &hpa, 0, 9, at(1_002)), 1);
}

#[test]
fn hpa_rate_limit_percent_policy() {
    let up = rules(0, PolicySelection::Max, vec![policy(ScalingPolicyType::Percent, 100, 60)]);
    let hpa = autoscaler(1, 100, up, rules(300, PolicySelection::Max, Vec::new()));
    let autoscaler = PodAutoscaler::new();
    assert_eq!(autoscaler.conform_with_behavior(&name(), &hpa, 4, 20, at(1_000)), 8);
}

#[test]
fn normalize_stabilizes_then_conforms() {
    let up = rules(0, PolicySelection::Max, vec![policy(ScalingPolicyType::Percent, 100, 60)]);
    let hpa = autoscaler(1, 100, up, rules(300, PolicySelection::Max, Vec::new()));
    let mut autoscaler = PodAutoscaler::new();
    autoscaler.ensure_history(&name(), 4, at(990));
    assert_eq!(autoscaler.normalize_desired_replicas(&name(), &hpa, 4, 20, at(1_000)), 8);
}

#[test]
fn conform_holds_a_move_down_to_the_policies() {
    let down = rules(0, PolicySelection::Max, vec![policy(ScalingPolicyType::Pods, 2, 60)]);
    let hpa = autoscaler(1, 100, open_rules(), down);
    let autoscaler = PodAutoscaler::new();
    assert_eq!(autoscaler.conform_with_behavior(&name(), &hpa, 10, 3, at(1_000)), 8);
    assert_eq!(autoscaler.conform_with_behavior(&name(), &hpa, 10, 9, at(1_000)), 9);
    assert_eq!(autoscaler.conform_with_behavior(&name(), &hpa, 10, 10, at(1_000)), 10);
}

#[test]
fn conform_never_passes_the_bounds() {
    let hpa = autoscaler(4, 12, open_rules(), open_rules());
    let autoscaler = PodAutoscaler::new();
    assert_eq!(autoscaler.conform_with_behavior(&name(), &hpa, 10, 50, at(1_000)), 12);
    assert_eq!(autoscaler.conform_with_behavior(&name(), &hpa, 10, 1, at(1_000)), 4);
}

#[test]
fn recorded_scale_events_limit_the_next_move() {
    let up = rules(0, PolicySelection::Max, vec![policy(ScalingPolicyType::Pods, 4, 60)]);
    let down = rules(0, PolicySelection::Max, vec![policy(ScalingPolicyType::Pods, 4, 60)]);
    let hpa = autoscaler(1, 100, up, down);
    let mut autoscaler = PodAutoscaler::new();
    autoscaler.record_scale_event(&name(), &hpa.spec.behavior, 10, 13, at(1_000));
    // three of the four pods of this minute are spent
    assert_eq!(autoscaler.conform_with_behavior(&name(), &hpa, 13, 20, at(1_030)), 14);
    // a minute and a second later the event is out of the period
    assert_eq!(autoscaler.conform_with_behavior(&name(), &hpa, 13, 20, at(1_061)), 17);
    // another autoscaler is not held to it
    assert_eq!(
        autoscaler.conform_with_behavior(&"h2".to_string(), &hpa, 13, 20, at(1_030)),
        17
    );
    autoscaler.record_scale_event(&name(), &hpa.spec.behavior, 13, 12, at(1_030));
    // 12 now, one removed this minute: the period began at 13, and four may go
    assert_eq!(autoscaler.conform_with_behavior(&name(), &hpa, 12, 2, at(1_040)), 9);
}

#[test]
fn recording_evicts_events_older_than_the_longest_period() {
    let up = rules(
        0,
        PolicySelection::Max,
        vec![policy(ScalingPolicyType::Pods, 10, 30), policy(ScalingPolicyType::Pods, 100, 60)],
    );
    let wide = rules(0, PolicySelection::Max, vec![policy(ScalingPolicyType::Pods, 100, 1_000)]);
    let hpa = autoscaler(1, 1_000, up, open_rules());
    let other = autoscaler_with_up(wide);
    let mut autoscaler = PodAutoscaler::new();
    autoscaler.record_scale_event(&name(), &hpa.spec.behavior, 10, 15, at(1_000));
    // 61 s later the first event is older than the longest period and goes
    autoscaler.record_scale_event(&name(), &hpa.spec.behavior, 15, 16, at(1_061));
    // seen through a policy with a long period, only the second event is left
    assert_eq!(autoscaler.conform_with_behavior(&name(), &other, 16, 500, at(1_062)), 115);
}

fn autoscaler_with_up(up: HPAScalingRules) -> HorizontalPodAutoscaler {
    autoscaler(1, 1_000, up, open_rules())
}

#[test]
fn normalize_is_monotone_in_the_recommendation() {
    let up = rules(30, PolicySelection::Max, vec![policy(ScalingPolicyType::Pods, 3, 60)]);
    let down = rules(120, PolicySelection::Min, vec![policy(ScalingPolicyType::Percent, 50, 60)]);
    let hpa = autoscaler(2, 12, up, down);
    let mut previous: u32 = 0;
    let mut raw: u32 = 0;
    while raw <= 30 {
        let mut autoscaler = PodAutoscaler::new();
        autoscaler.ensure_history(&name(), 6, at(900));
        autoscaler.stabilize_recommendation(&name(), 6, 9, &hpa.spec.behavior, at(950));
        autoscaler.record_scale_event(&name(), &hpa.spec.behavior, 5, 6, at(980));
        let normalized = autoscaler.normalize_desired_replicas(&name(), &hpa, 6, raw, at(1_000));
        assert!(previous <= normalized);
        previous = normalized;
        raw += 1;
    }
    assert_eq!(previous, 8);
}

#[test]
fn normalize_above_both_bounds_is_not_monotone() {
    let hpa = autoscaler(1, 2, open_rules(), open_rules());
    let mut first = PodAutoscaler::new();
    first.ensure_history(&name(), 10, at(900));
    let mut second = PodAutoscaler::new();
    second.ensure_history(&name(), 10, at(900));
    assert_eq!(first.normalize_desired_replicas(&name(), &hpa, 10, 10, at(1_000)), 10);
    assert_eq!(second.normalize_desired_replicas(&name(), &hpa, 10, 11, at(1_000)), 2);
}

#[test]
fn replicas_that_need_no_metrics() {
    let hpa = autoscaler(2, 5, open_rules(), open_rules());
    assert_eq!(replicas_without_metrics(&hpa, 0), Some(0));
    assert_eq!(replicas_without_metrics(&hpa, 7), Some(5));
    assert_eq!(replicas_without_metrics(&hpa, 1), Some(2));
    assert_eq!(replicas_without_metrics(&hpa, 2), None);
    assert_eq!(replicas_without_metrics(&hpa, 5), None);
    let from_zero = autoscaler(0, 5, open_rules(), open_rules());
    assert_eq!(replicas_without_metrics(&from_zero, 0), Some(1));
    let inverted = autoscaler(8, 5, open_rules(), open_rules());
    assert_eq!(replicas_without_metrics(&inverted, 6), Some(5));
}

#[test]
fn hpa_clamp() {
    let hpa = autoscaler(2, 5, open_rules(), open_rules());
    let target = replica_set("r1", 7);
    let mut autoscaler = PodAutoscaler::new();
    let step = autoscaler.begin_reconcile_at(&name(), &hpa, &target, at(1_000));
    let expected = ReconcileOutcome {
        current_replicas: 7,
        desired_replicas: 5,
        status: HorizontalPodAutoscalerStatus {
            current_replicas: 7,
            desired_replicas: 5,
            last_scale_time: Some(at(1_000)),
        },
        scale_target: true,
        update_status: true,
    };
    assert_eq!(step, ReconcileStep::Settled(expected));
    let scaled = scaled_to(target, 5);
    assert_eq!(target_replicas(&scaled), Some(5));
}

#[test]
fn status_reports_the_count_that_was_read() {
    let hpa = autoscaler(2, 50, open_rules(), open_rules());
    let mut autoscaler = PodAutoscaler::new();
    let target = replica_set("r1", 7);
    let step = autoscaler.begin_reconcile_at(&name(), &hpa, &target, at(1_000));
    assert_eq!(step, ReconcileStep::NeedMetrics { current_replicas: 7, started: at(1_000) });
    let outcome = autoscaler.finish_reconcile_at(&name(), &hpa, 7, 9, at(1_000), at(1_001));
    assert_eq!(outcome.current_replicas, 7);
    assert_eq!(outcome.status.current_replicas, 7);
    assert_eq!(outcome.desired_replicas, 9);
    assert_eq!(outcome.status.desired_replicas, 9);
    assert_eq!(outcome.status.last_scale_time, Some(at(1_000)));
    assert!(outcome.scale_target);
    assert!(outcome.update_status);
}

#[test]
fn last_scale_time_moves_only_with_the_count() {
    let mut hpa = autoscaler(2, 50, open_rules(), open_rules());
    hpa.status = Some(HorizontalPodAutoscalerStatus {
        current_replicas: 7,
        desired_replicas: 7,
        last_scale_time: Some(at(500)),
    });
    let mut autoscaler = PodAutoscaler::new();
    autoscaler.ensure_history(&name(), 7, at(900));
    let outcome = autoscaler.finish_reconcile_at(&name(), &hpa, 7, 7, at(1_000), at(1_001));
    assert_eq!(outcome.desired_replicas, 7);
    assert_eq!(outcome.status.last_scale_time, Some(at(500)));
    assert!(!outcome.scale_target);
    assert!(!outcome.update_status);
}

#[test]
fn an_unchanged_count_still_updates_a_stale_status() {
    let hpa = autoscaler(2, 50, open_rules(), open_rules());
    let mut autoscaler = PodAutoscaler::new();
    autoscaler.ensure_history(&name(), 7, at(900));
    let outcome = autoscaler.finish_reconcile_at(&name(), &hpa, 7, 7, at(1_000), at(1_001));
    assert!(!outcome.scale_target);
    assert!(outcome.update_status);
    assert_eq!(
        outcome.status,
        HorizontalPodAutoscalerStatus {
            current_replicas: 7,
            desired_replicas: 7,
            last_scale_time: None
        }
    );
}

#[test]
fn an_autoscaler_without_status_is_given_one() {
    let mut hpa = autoscaler(2, 5, open_rules(), open_rules());
    hpa.status = None;
    let mut autoscaler = PodAutoscaler::new();
    let target = replica_set("r1", 7);
    let expected = ReconcileOutcome {
        current_replicas: 7,
        desired_replicas: 5,
        status: HorizontalPodAutoscalerStatus {
            current_replicas: 7,
            desired_replicas: 5,
            last_scale_time: Some(at(1_000)),
        },
        scale_target: true,
        update_status: true,
    };
    assert_eq!(
        autoscaler.begin_reconcile_at(&name(), &hpa, &target, at(1_000)),
        ReconcileStep::Settled(expected)
    );
    // a pass that moves nothing still writes the first status, and no time of scaling
    let settled = autoscaler.finish_reconcile_at(&name(), &hpa, 4, 4, at(2_000), at(2_001));
    assert_eq!(
        settled,
        ReconcileOutcome {
            current_replicas: 4,
            desired_replicas: 4,
            status: HorizontalPodAutoscalerStatus {
                current_replicas: 4,
                desired_replicas: 4,
                last_scale_time: None,
            },
            scale_target: false,
            update_status: true,
        }
    );
}

#[test]
fn errors_say_what_went_wrong() {
    assert_eq!(ReconcileError::UnknownObjectType.message(), "Unknown object type");
    assert_eq!(
        ReconcileError::Metrics(MetricsError::NoSamples).message(),
        "No pod reported the metric"
    );
    assert_eq!(
        ReconcileError::Metrics(MetricsError::ZeroTarget).message(),
        "The metric's target is zero"
    );
}

fn autoscaler_object(hpa: HorizontalPodAutoscaler) -> KubeObject {
    KubeObject {
        metadata: Metadata {
            name: "h1".to_string(),
            namespace: "default".to_string(),
            uid: None,
            labels: Labels::new(),
        },
        resource: KubeResource::HorizontalPodAutoscaler(hpa),
    }
}

#[test]
fn a_whole_pass_holds_a_move_up_to_the_percent_policy() {
    let up = rules(0, PolicySelection::Max, vec![policy(ScalingPolicyType::Percent, 100, 60)]);
    let object = autoscaler_object(autoscaler(1, 100, up, rules(300, PolicySelection::Max, Vec::new())));
    let target = replica_set("r1", 4);
    let mut autoscaler = PodAutoscaler::new();
    autoscaler.ensure_history(&name(), 4, at(900));
    // four pods at 250 % against a target of 50 %: the metrics ask for 20
    let outcome = autoscaler.reconcile(&object, &target, &vec![250, 250, 250, 250], at(1_000));
    assert_eq!(
        outcome,
        Ok(Some(ReconcileOutcome {
            current_replicas: 4,
            desired_replicas: 8,
            status: HorizontalPodAutoscalerStatus {
                current_replicas: 4,
                desired_replicas: 8,
                last_scale_time: Some(at(1_000)),
            },
            scale_target: true,
            update_status: true,
        }))
    );
    // the move of 4 has been recorded: within the minute nothing more may be added
    let hpa = match &object.resource {
        KubeResource::HorizontalPodAutoscaler(hpa) => hpa,
        _ => panic!("an autoscaler was made"),
    };
    assert_eq!(autoscaler.conform_with_behavior(&name(), hpa, 8, 20, at(1_030)), 8);
    assert_eq!(autoscaler.conform_with_behavior(&name(), hpa, 8, 20, at(1_061)), 16);
}

#[test]
fn a_whole_pass_outside_the_bounds_looks_at_no_metrics() {
    let object = autoscaler_object(autoscaler(2, 5, open_rules(), open_rules()));
    let target = replica_set("r1", 7);
    let expected = Ok(Some(ReconcileOutcome {
        current_replicas: 7,
        desired_replicas: 5,
        status: HorizontalPodAutoscalerStatus {
            current_replicas: 7,
            desired_replicas: 5,
            last_scale_time: Some(at(1_000)),
        },
        scale_target: true,
        update_status: true,
    }));
    let mut first = PodAutoscaler::new();
    assert_eq!(first.reconcile(&object, &target, &Vec::new(), at(1_000)), expected);
    let mut second = PodAutoscaler::new();
    assert_eq!(second.reconcile(&object, &target, &vec![1, 2, 3], at(1_000)), expected);
    let mut low = PodAutoscaler::new();
    let below = low.reconcile(&object, &replica_set("r1", 1), &Vec::new(), at(1_000));
    assert_eq!(below.unwrap().unwrap().desired_replicas, 2);
    let mut off = PodAutoscaler::new();
    let zero = off.reconcile(&object, &replica_set("r1", 0), &Vec::new(), at(1_000));
    assert_eq!(zero.unwrap().unwrap().desired_replicas, 0);
}

#[test]
fn a_whole_pass_within_the_bounds_goes_by_the_metrics() {
    let object = autoscaler_object(autoscaler(2, 50, open_rules(), open_rules()));
    let target = replica_set("r1", 4);
    let mut autoscaler = PodAutoscaler::new();
    assert_eq!(
        autoscaler.reconcile(&object, &target, &Vec::new(), at(1_000)),
        Err(ReconcileError::Metrics(MetricsError::NoSamples))
    );
    // 4 * 75 / 50 = 6; the first recommendation, made at 1000, has left the window at 1001
    let outcome = autoscaler.reconcile(&object, &target, &vec![50, 100], at(1_001));
    let outcome = outcome.unwrap().unwrap();
    assert_eq!(outcome.current_replicas, 4);
    assert_eq!(outcome.status.current_replicas, 4);
    assert_eq!(outcome.desired_replicas, 6);
    assert_eq!(
        autoscaler.reconcile(&target, &target, &vec![50], at(1_002)),
        Err(ReconcileError::UnknownObjectType)
    );
    assert_eq!(
        autoscaler.reconcile(&object, &autoscaler_object(self::autoscaler(1, 2, open_rules(), open_rules())), &vec![50], at(1_002)),
        Ok(None)
    );
}

#[test]
fn a_target_without_replicas_is_not_scalable() {
    let hpa = autoscaler(2, 5, open_rules(), open_rules());
    let mut autoscaler = PodAutoscaler::new();
    let target = KubeObject {
        metadata: Metadata {
            name: "h9".to_string(),
            namespace: "default".to_string(),
            uid: None,
            labels: Labels::new(),
        },
        resource: KubeResource::HorizontalPodAutoscaler(self::autoscaler(
            1,
            2,
            open_rules(),
            open_rules(),
        )),
    };
    assert_eq!(
        autoscaler.begin_reconcile_at(&name(), &hpa, &target, at(1_000)),
        ReconcileStep::NotScalable
    );
    assert_eq!(target_replicas(&target), None);
}

#[test]
fn only_an_autoscaler_names_a_scale_target() {
    let object = KubeObject {
        metadata: Metadata {
            name: "h1".to_string(),
            namespace: "default".to_string(),
            uid: None,
            labels: Labels::new(),
        },
        resource: KubeResource::HorizontalPodAutoscaler(autoscaler(
            1,
            2,
            open_rules(),
            open_rules(),
        )),
    };
    let target = scale_target_of(&object).unwrap();
    assert_eq!(target.kind, "ReplicaSet");
    assert_eq!(target.name, "r1");
    let other = replica_set("r1", 1);
    assert_eq!(scale_target_of(&other), Err(ReconcileError::UnknownObjectType));
}

#[test]
fn the_status_is_written_into_the_autoscaler() {
    let object = KubeObject {
        metadata: Metadata {
            name: "h1".to_string(),
            namespace: "default".to_string(),
            uid: None,
            labels: Labels::new(),
        },
        resource: KubeResource::HorizontalPodAutoscaler(autoscaler(
            1,
            2,
            open_rules(),
            open_rules(),
        )),
    };
    let status = HorizontalPodAutoscalerStatus {
        current_replicas: 3,
        desired_replicas: 2,
        last_scale_time: Some(at(77)),
    };
    let updated = with_status(object, status);
    match updated.resource {
        KubeResource::HorizontalPodAutoscaler(hpa) => assert_eq!(hpa.status, Some(status)),
        _ => panic!("the kind has changed"),
    }
    let other = with_status(replica_set("r1", 1), status);
    assert_eq!(other, replica_set("r1", 1));
}

#[test]
fn reconcile_with_the_clock_stamps_a_time_of_today() {
    let hpa = autoscaler(2, 5, open_rules(), open_rules());
    let target = replica_set("r1", 7);
    let mut autoscaler = PodAutoscaler::new();
    let step = autoscaler.begin_reconcile(&name(), &hpa, &target);
    match step {
        ReconcileStep::Settled(outcome) => {
            assert_eq!(outcome.desired_replicas, 5);
            let stamped = outcome.status.last_scale_time.unwrap();
            // later than the first day of 2020
            assert!(stamped.secs > 1_577_836_800);
            assert!(stamped.nanos < 2_000_000_000);
        }
        _ => panic!("the count lies above the bounds"),
    }
    let next = autoscaler.finish_reconcile(&name(), &hpa, 5, 5, at(1_000));
    assert_eq!(next.desired_replicas, 5);
}

#[test]
fn metrics_ask_for_replicas() {
    // two pods at 90 % and 110 % against a target of 50 %: twice as many
    assert_eq!(calc_replicas(4, 50, &vec![90, 110]), Ok(8));
    // 3 * 70 / 50 = 4.2
    assert_eq!(calc_replicas(3, 50, &vec![70, 70, 70]), Ok(5));
    // at the target nothing moves
    assert_eq!(calc_replicas(3, 50, &vec![50, 50, 50]), Ok(3));
    assert_eq!(calc_replicas(3, 50, &vec![0, 0, 0]), Ok(0));
    assert_eq!(calc_replicas(u32::MAX, 1, &vec![u32::MAX]), Ok(u32::MAX));
    assert_eq!(calc_replicas(3, 50, &Vec::new()), Err(MetricsError::NoSamples));
    assert_eq!(calc_replicas(3, 0, &vec![1]), Err(MetricsError::ZeroTarget));
    assert_eq!(calc_replicas(3, 0, &Vec::new()), Err(MetricsError::NoSamples));
}

#[test]
fn either_kind_of_target_is_computed_alike() {
    let utilization =
        ResourceMetricSource { name: "cpu".to_string(), target: MetricTarget::AverageUtilization(50) };
    let value =
        ResourceMetricSource { name: "memory".to_string(), target: MetricTarget::AverageValue(200) };
    assert_eq!(compute_resource_replicas(&utilization, 4, &vec![90, 110]), Ok(8));
    assert_eq!(compute_resource_replicas(&value, 4, &vec![300, 500]), Ok(8));
}

#[test]
fn the_sync_period_is_a_quarter_of_a_minute() {
    assert_eq!(SYNC_PERIOD, 15);
}
