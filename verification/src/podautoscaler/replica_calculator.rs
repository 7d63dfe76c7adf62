//! From the metrics of the pods to the replica count that they ask for.

use crate::objects::hpa::{MetricTarget, ResourceMetricSource};
use crate::podautoscaler::behavior::{ceil_div, clamp_u32};
use vstd::prelude::*;

verus! {

/// Why no replica count could be computed from the metrics.
#[derive(Clone, Copy, Debug, PartialEq, Eq, Structural)]
pub enum MetricsError {
    /// No pod reported the metric.
    NoSamples,
    /// The target is zero, so that no count would reach it.
    ZeroTarget,
}

/// The sum of `samples`.
pub open spec fn total_of(samples: Seq<u32>) -> int
    decreases samples.len(),
{
    if samples.len() == 0 {
        0
    } else {
        total_of(samples.drop_last()) + samples.last()
    }
}

/// The replica count at which the mean of `samples` would come down to
/// `target`, were the load to stay the same: `current * mean / target`,
/// rounded up, and `u32::MAX` where that is out of range.
pub open spec fn raw_replicas(current: int, samples: Seq<u32>, target: int) -> int {
    clamp_u32(ceil_div(current * total_of(samples), samples.len() * target))
}

/// The level that `target` asks for, whichever way it is measured.
pub open spec fn target_level(target: MetricTarget) -> u32 {
    match target {
        MetricTarget::AverageUtilization(level) => level,
        MetricTarget::AverageValue(level) => level,
    }
}

/// What [`calc_replicas`] returns.
pub open spec fn calc_replicas_spec(current: u32, target: u32, samples: Seq<u32>) -> Result<
    u32,
    MetricsError,
> {
    if samples.len() == 0 {
        Err(MetricsError::NoSamples)
    } else if target == 0 {
        Err(MetricsError::ZeroTarget)
    } else {
        Ok(raw_replicas(current as int, samples, target as int) as u32)
    }
}

/// The replica count that the per-pod `samples` of a metric ask for, given
/// the level `target` that their mean is to have.
pub fn calc_replicas(current_replicas: u32, target: u32, samples: &Vec<u32>) -> (replicas: Result<
    u32,
    MetricsError,
>)
    ensures
        replicas == calc_replicas_spec(current_replicas, target, samples@),
{
    let count = samples.len();
    if count == 0 {
        return Err(MetricsError::NoSamples);
    }
    if target == 0 {
        return Err(MetricsError::ZeroTarget);
    }
    let mut total: u128 = 0;
    let mut i: usize = 0;
    while i < count
        invariant
            0 <= i <= count,
            count == samples@.len(),
            total == total_of(samples@.take(i as int)),
            total <= i * 0xffff_ffff,
        decreases count - i,
    {
        proof {
            assert(samples@.take(i + 1).drop_last() =~= samples@.take(i as int));
        }
        total = total + samples[i] as u128;
        i += 1;
    }
    proof {
        assert(samples@.take(i as int) =~= samples@);
    }
    let current: u128 = current_replicas as u128;
    assert(current * total <= 0xffff_ffff * 0xffff_ffff_ffff_ffff_0000_0000) by (nonlinear_arith)
        requires
            0 <= current <= 0xffff_ffff,
            0 <= total <= 0xffff_ffff_ffff_ffff_0000_0000,
    ;
    let numerator: u128 = current * total;
    assert(0 < (count as u128) * (target as u128) <= 0xffff_ffff_ffff_ffff * 0xffff_ffff)
        by (nonlinear_arith)
        requires
            0 < count <= 0xffff_ffff_ffff_ffff,
            0 < target <= 0xffff_ffff,
    ;
    let denominator: u128 = (count as u128) * (target as u128);
    let exact: u128 = (numerator + denominator - 1) / denominator;
    if exact > u32::MAX as u128 {
        Ok(u32::MAX)
    } else {
        Ok(exact as u32)
    }
}

/// The replica count that the metrics ask for, for either kind of target.
pub fn compute_resource_replicas(
    metrics: &ResourceMetricSource,
    current_replicas: u32,
    samples: &Vec<u32>,
) -> (replicas: Result<u32, MetricsError>)
    ensures
        replicas == calc_replicas_spec(current_replicas, target_level(metrics.target), samples@),
{
    match metrics.target {
        MetricTarget::AverageUtilization(target_utilization) => calc_replicas(
            current_replicas,
            target_utilization,
            samples,
        ),
        MetricTarget::AverageValue(target_value) => calc_replicas(
            current_replicas,
            target_value,
            samples,
        ),
    }
}

} // verus!
