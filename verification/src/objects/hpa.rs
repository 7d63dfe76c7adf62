//! The horizontal pod autoscaler resource.

use crate::objects::duplicate::{copy_all, Duplicate};
use crate::time::Timestamp;
use vstd::prelude::*;

verus! {

/// How the limits of several scaling policies are combined.
#[derive(Clone, Copy, Debug, PartialEq, Eq, Structural)]
pub enum PolicySelection {
    /// The policy that allows the smallest change wins.
    Min,
    /// The policy that allows the largest change wins.
    Max,
    /// Scaling in this direction is switched off.
    Disabled,
}

/// What a scaling policy's `value` counts.
#[derive(Clone, Copy, Debug, PartialEq, Eq, Structural)]
pub enum ScalingPolicyType {
    /// An absolute number of pods.
    Pods,
    /// A percentage of the replicas at the start of the period.
    Percent,
}

/// A bound on how far the replica count may move within `period_seconds`.
#[derive(Clone, Copy, Debug, PartialEq, Eq, Structural)]
pub struct HPAScalingPolicy {
    pub type_: ScalingPolicyType,
    pub value: u32,
    pub period_seconds: u32,
}

/// The scaling rules for one direction.
#[derive(Debug, PartialEq, Eq)]
pub struct HPAScalingRules {
    pub stabilization_window_seconds: u32,
    pub select_policy: PolicySelection,
    pub policies: Vec<HPAScalingPolicy>,
}

/// [`HPAScalingRules`] as a mathematical value.
pub struct HPAScalingRulesView {
    pub stabilization_window_seconds: u32,
    pub select_policy: PolicySelection,
    pub policies: Seq<HPAScalingPolicy>,
}

impl View for HPAScalingRules {
    type V = HPAScalingRulesView;

    open spec fn view(&self) -> HPAScalingRulesView {
        HPAScalingRulesView {
            stabilization_window_seconds: self.stabilization_window_seconds,
            select_policy: self.select_policy,
            policies: self.policies@,
        }
    }
}

/// The largest `period_seconds` among `policies`, and 0 when there is none.
pub open spec fn longest_period_of(policies: Seq<HPAScalingPolicy>) -> int
    decreases policies.len(),
{
    if policies.len() == 0 {
        0
    } else {
        let rest = longest_period_of(policies.drop_last());
        if policies.last().period_seconds > rest {
            policies.last().period_seconds as int
        } else {
            rest
        }
    }
}

impl HPAScalingRules {
    /// The longest period that any policy of these rules looks back over.
    pub fn longest_period(&self) -> (period: u32)
        ensures
            period == longest_period_of(self@.policies),
    {
        let mut longest: u32 = 0;
        let mut i: usize = 0;
        while i < self.policies.len()
            invariant
                0 <= i <= self.policies@.len(),
                longest == longest_period_of(self.policies@.take(i as int)),
            decreases self.policies@.len() - i,
        {
            proof {
                assert(self.policies@.take(i + 1).drop_last() =~= self.policies@.take(i as int));
            }
            if self.policies[i].period_seconds > longest {
                longest = self.policies[i].period_seconds;
            }
            i += 1;
        }
        proof {
            assert(self.policies@.take(i as int) =~= self.policies@);
        }
        longest
    }

    pub fn same_as(&self, other: &Self) -> (b: bool)
        ensures
            b == (self@ == other@),
    {
        if self.stabilization_window_seconds != other.stabilization_window_seconds
            || self.select_policy != other.select_policy || self.policies.len()
            != other.policies.len() {
            return false;
        }
        let mut i: usize = 0;
        while i < self.policies.len()
            invariant
                0 <= i <= self.policies@.len(),
                self.policies@.len() == other.policies@.len(),
                self.policies@.take(i as int) == other.policies@.take(i as int),
            decreases self.policies@.len() - i,
        {
            if self.policies[i] != other.policies[i] {
                return false;
            }
            proof {
                assert(self.policies@.take(i + 1) =~= self.policies@.take(i as int).push(
                    self.policies@[i as int],
                ));
                assert(other.policies@.take(i + 1) =~= other.policies@.take(i as int).push(
                    other.policies@[i as int],
                ));
            }
            i += 1;
        }
        proof {
            assert(self.policies@.take(i as int) =~= self.policies@);
            assert(other.policies@.take(i as int) =~= other.policies@);
        }
        true
    }
}

impl Duplicate for HPAScalingRules {
    fn duplicate(&self) -> (copy: Self) {
        HPAScalingRules {
            stabilization_window_seconds: self.stabilization_window_seconds,
            select_policy: self.select_policy,
            policies: copy_all(&self.policies),
        }
    }
}

/// The scaling rules of an autoscaler, one set for each direction.
#[derive(Debug, PartialEq, Eq)]
pub struct HorizontalPodAutoscalerBehavior {
    pub scale_up: HPAScalingRules,
    pub scale_down: HPAScalingRules,
}

/// [`HorizontalPodAutoscalerBehavior`] as a mathematical value.
pub struct HorizontalPodAutoscalerBehaviorView {
    pub scale_up: HPAScalingRulesView,
    pub scale_down: HPAScalingRulesView,
}

impl View for HorizontalPodAutoscalerBehavior {
    type V = HorizontalPodAutoscalerBehaviorView;

    open spec fn view(&self) -> HorizontalPodAutoscalerBehaviorView {
        HorizontalPodAutoscalerBehaviorView {
            scale_up: self.scale_up@,
            scale_down: self.scale_down@,
        }
    }
}

impl Duplicate for HorizontalPodAutoscalerBehavior {
    fn duplicate(&self) -> (copy: Self) {
        HorizontalPodAutoscalerBehavior {
            scale_up: self.scale_up.duplicate(),
            scale_down: self.scale_down.duplicate(),
        }
    }
}

impl HorizontalPodAutoscalerBehavior {
    pub fn same_as(&self, other: &Self) -> (b: bool)
        ensures
            b == (self@ == other@),
    {
        self.scale_up.same_as(&other.scale_up) && self.scale_down.same_as(&other.scale_down)
    }
}

/// The level that the autoscaler steers a metric towards.
#[derive(Clone, Copy, Debug, PartialEq, Eq, Structural)]
pub enum MetricTarget {
    /// Mean utilisation over the pods, in percent of what they request.
    AverageUtilization(u32),
    /// Mean raw value of the metric over the pods.
    AverageValue(u32),
}

/// The resource metric that an autoscaler watches, and its target.
#[derive(Debug, PartialEq, Eq)]
pub struct ResourceMetricSource {
    pub name: String,
    pub target: MetricTarget,
}

/// [`ResourceMetricSource`] as a mathematical value.
pub struct ResourceMetricSourceView {
    pub name: Seq<char>,
    pub target: MetricTarget,
}

impl View for ResourceMetricSource {
    type V = ResourceMetricSourceView;

    open spec fn view(&self) -> ResourceMetricSourceView {
        ResourceMetricSourceView { name: self.name@, target: self.target }
    }
}

/// The object whose replica count an autoscaler sets.
#[derive(Debug, PartialEq, Eq)]
pub struct ScaleTargetRef {
    pub kind: String,
    pub name: String,
}

/// [`ScaleTargetRef`] as a mathematical value.
pub struct ScaleTargetRefView {
    pub kind: Seq<char>,
    pub name: Seq<char>,
}

impl View for ScaleTargetRef {
    type V = ScaleTargetRefView;

    open spec fn view(&self) -> ScaleTargetRefView {
        ScaleTargetRefView { kind: self.kind@, name: self.name@ }
    }
}

/// What the user asks of an autoscaler.
#[derive(Debug, PartialEq, Eq)]
pub struct HorizontalPodAutoscalerSpec {
    pub scale_target_ref: ScaleTargetRef,
    pub min_replicas: u32,
    pub max_replicas: u32,
    pub metrics: ResourceMetricSource,
    pub behavior: HorizontalPodAutoscalerBehavior,
}

/// [`HorizontalPodAutoscalerSpec`] as a mathematical value.
pub struct HorizontalPodAutoscalerSpecView {
    pub scale_target_ref: ScaleTargetRefView,
    pub min_replicas: u32,
    pub max_replicas: u32,
    pub metrics: ResourceMetricSourceView,
    pub behavior: HorizontalPodAutoscalerBehaviorView,
}

impl View for HorizontalPodAutoscalerSpec {
    type V = HorizontalPodAutoscalerSpecView;

    open spec fn view(&self) -> HorizontalPodAutoscalerSpecView {
        HorizontalPodAutoscalerSpecView {
            scale_target_ref: self.scale_target_ref@,
            min_replicas: self.min_replicas,
            max_replicas: self.max_replicas,
            metrics: self.metrics@,
            behavior: self.behavior@,
        }
    }
}

impl Duplicate for HorizontalPodAutoscalerSpec {
    fn duplicate(&self) -> (copy: Self) {
        HorizontalPodAutoscalerSpec {
            scale_target_ref: ScaleTargetRef {
                kind: self.scale_target_ref.kind.clone(),
                name: self.scale_target_ref.name.clone(),
            },
            min_replicas: self.min_replicas,
            max_replicas: self.max_replicas,
            metrics: ResourceMetricSource {
                name: self.metrics.name.clone(),
                target: self.metrics.target,
            },
            behavior: self.behavior.duplicate(),
        }
    }
}

impl HorizontalPodAutoscalerSpec {
    /// Whether two specs ask for the same thing.
    pub fn same_as(&self, other: &Self) -> (b: bool)
        ensures
            b == (self@ == other@),
    {
        self.scale_target_ref.kind == other.scale_target_ref.kind && self.scale_target_ref.name
            == other.scale_target_ref.name && self.min_replicas == other.min_replicas
            && self.max_replicas == other.max_replicas && self.metrics.name == other.metrics.name
            && self.metrics.target == other.metrics.target && self.behavior.same_as(
            &other.behavior,
        )
    }
}

/// What the controller last observed and decided for an autoscaler.
#[derive(Clone, Copy, Debug, PartialEq, Eq, Structural)]
pub struct HorizontalPodAutoscalerStatus {
    pub current_replicas: u32,
    pub desired_replicas: u32,
    pub last_scale_time: Option<Timestamp>,
}

/// A horizontal pod autoscaler.
#[derive(Debug, PartialEq, Eq)]
pub struct HorizontalPodAutoscaler {
    pub spec: HorizontalPodAutoscalerSpec,
    pub status: Option<HorizontalPodAutoscalerStatus>,
}

/// [`HorizontalPodAutoscaler`] as a mathematical value.
pub struct HorizontalPodAutoscalerView {
    pub spec: HorizontalPodAutoscalerSpecView,
    pub status: Option<HorizontalPodAutoscalerStatus>,
}

impl View for HorizontalPodAutoscaler {
    type V = HorizontalPodAutoscalerView;

    open spec fn view(&self) -> HorizontalPodAutoscalerView {
        HorizontalPodAutoscalerView { spec: self.spec@, status: self.status }
    }
}

impl Duplicate for HorizontalPodAutoscaler {
    fn duplicate(&self) -> (copy: Self) {
        HorizontalPodAutoscaler { spec: self.spec.duplicate(), status: self.status }
    }
}

} // verus!
