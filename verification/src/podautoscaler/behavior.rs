//! Rate limits from scaling policies: how far the replica count may move
//! given the scale events of the recent past.

use crate::objects::hpa::{HPAScalingPolicy, HPAScalingRules, HPAScalingRulesView, PolicySelection, ScalingPolicyType};
use crate::time::Timestamp;
use vstd::prelude::*;

verus! {

/// A change of the replica count that the controller made.
#[derive(Clone, Copy, Debug, PartialEq, Eq, Structural)]
pub struct ScaleEvent {
    /// By how many replicas the count moved, as a magnitude.
    pub change: u32,
    pub time: Timestamp,
}

/// The direction in which a replica count moves.
#[derive(Clone, Copy, Debug, PartialEq, Eq, Structural)]
pub enum Direction {
    Up,
    Down,
}

/// The sum of the changes of those `events` that happened within `period`
/// seconds before `now`.
pub open spec fn change_in_period(events: Seq<ScaleEvent>, now: Timestamp, period: int) -> int
    decreases events.len(),
{
    if events.len() == 0 {
        0
    } else {
        change_in_period(events.drop_last(), now, period) + (if events.last().time.within(
            now,
            period,
        ) {
            events.last().change as int
        } else {
            0
        })
    }
}

/// `n / d`, rounded up; meant for `n >= 0` and `d > 0`.
pub open spec fn ceil_div(n: int, d: int) -> int {
    (n + d - 1) / d
}

/// `x` brought into the range of `u32`.
pub open spec fn clamp_u32(x: int) -> int {
    if x < 0 {
        0
    } else if x > u32::MAX {
        u32::MAX as int
    } else {
        x
    }
}

/// The replica count that one policy allows when scaling in `direction`,
/// before it is brought into the range of `u32`.
///
/// The count at the start of the policy's period is the current count with
/// the period's changes undone. Scaling up may add `value` pods, or `value`
/// percent, to it; scaling down may take as much away.
pub open spec fn period_limit(
    direction: Direction,
    policy: HPAScalingPolicy,
    events: Seq<ScaleEvent>,
    now: Timestamp,
    current: int,
) -> int {
    let change = change_in_period(events, now, policy.period_seconds as int);
    match direction {
        Direction::Up => {
            let start = if current >= change {
                current - change
            } else {
                0
            };
            match policy.type_ {
                ScalingPolicyType::Pods => start + policy.value,
                ScalingPolicyType::Percent => ceil_div(start * (100 + policy.value), 100),
            }
        },
        Direction::Down => {
            let start = current + change;
            match policy.type_ {
                ScalingPolicyType::Pods => if start >= policy.value {
                    start - policy.value
                } else {
                    0
                },
                ScalingPolicyType::Percent => if policy.value >= 100 {
                    0
                } else {
                    ceil_div(start * (100 - policy.value), 100)
                },
            }
        },
    }
}

/// The smallest limit that any of `policies` gives, and `u32::MAX` when there is none.
pub open spec fn lowest_limit(
    direction: Direction,
    policies: Seq<HPAScalingPolicy>,
    events: Seq<ScaleEvent>,
    now: Timestamp,
    current: int,
) -> int
    decreases policies.len(),
{
    if policies.len() == 0 {
        u32::MAX as int
    } else {
        let rest = lowest_limit(direction, policies.drop_last(), events, now, current);
        let limit = clamp_u32(period_limit(direction, policies.last(), events, now, current));
        if limit < rest {
            limit
        } else {
            rest
        }
    }
}

/// The largest limit that any of `policies` gives, and 0 when there is none.
pub open spec fn highest_limit(
    direction: Direction,
    policies: Seq<HPAScalingPolicy>,
    events: Seq<ScaleEvent>,
    now: Timestamp,
    current: int,
) -> int
    decreases policies.len(),
{
    if policies.len() == 0 {
        0
    } else {
        let rest = highest_limit(direction, policies.drop_last(), events, now, current);
        let limit = clamp_u32(period_limit(direction, policies.last(), events, now, current));
        if limit > rest {
            limit
        } else {
            rest
        }
    }
}

/// The replica count that `rules` allow to be reached from `current`.
///
/// With the policy selection switched off the count stays where it is. `Min`
/// picks the policy that allows the smallest change: the lowest limit when
/// scaling up, the highest when scaling down. `Max` picks the other.
pub open spec fn scale_limit(
    direction: Direction,
    rules: HPAScalingRulesView,
    events: Seq<ScaleEvent>,
    now: Timestamp,
    current: int,
) -> int {
    match rules.select_policy {
        PolicySelection::Disabled => current,
        PolicySelection::Min => match direction {
            Direction::Up => lowest_limit(direction, rules.policies, events, now, current),
            Direction::Down => highest_limit(direction, rules.policies, events, now, current),
        },
        PolicySelection::Max => match direction {
            Direction::Up => highest_limit(direction, rules.policies, events, now, current),
            Direction::Down => lowest_limit(direction, rules.policies, events, now, current),
        },
    }
}

/// The events that are no older than `period` seconds at `now`, in their order.
pub open spec fn recent_events(events: Seq<ScaleEvent>, now: Timestamp, period: int) -> Seq<
    ScaleEvent,
> {
    events.filter(|e: ScaleEvent| e.time.within(now, period))
}

/// The changes of a period never add up to more than `u32::MAX` each.
pub proof fn lemma_change_in_period_bounds(events: Seq<ScaleEvent>, now: Timestamp, period: int)
    ensures
        0 <= change_in_period(events, now, period) <= events.len() * 0xffff_ffff,
    decreases events.len(),
{
    if events.len() > 0 {
        lemma_change_in_period_bounds(events.drop_last(), now, period);
    }
}

/// The sum of the changes of those `events` that fall within the last
/// `period_seconds` before `now`.
pub fn get_replicas_change_in_period(
    period_seconds: u32,
    events: &Vec<ScaleEvent>,
    now: Timestamp,
) -> (change: u128)
    ensures
        change == change_in_period(events@, now, period_seconds as int),
{
    let mut change: u128 = 0;
    let mut i: usize = 0;
    while i < events.len()
        invariant
            0 <= i <= events@.len(),
            change == change_in_period(events@.take(i as int), now, period_seconds as int),
            change <= i * 0xffff_ffff,
        decreases events@.len() - i,
    {
        proof {
            assert(events@.take(i + 1).drop_last() =~= events@.take(i as int));
        }
        if events[i].time.is_within(&now, period_seconds) {
            change = change + events[i].change as u128;
        }
        i += 1;
    }
    proof {
        assert(events@.take(i as int) =~= events@);
    }
    change
}

/// The limit of one policy, brought into the range of `u32`.
fn limit_of_policy(
    direction: Direction,
    policy: HPAScalingPolicy,
    events: &Vec<ScaleEvent>,
    now: Timestamp,
    current_replicas: u32,
) -> (limit: u32)
    ensures
        limit == clamp_u32(period_limit(direction, policy, events@, now, current_replicas as int)),
{
    let change = get_replicas_change_in_period(policy.period_seconds, events, now);
    let count = events.len();
    proof {
        lemma_change_in_period_bounds(events@, now, policy.period_seconds as int);
        assert(change <= count * 0xffff_ffff);
        assert(count <= 0xffff_ffff_ffff_ffff);
    }
    let current: u128 = current_replicas as u128;
    let value: u128 = policy.value as u128;
    let exact: u128 = match direction {
        Direction::Up => {
            let start: u128 = if current >= change {
                current - change
            } else {
                0
            };
            match policy.type_ {
                ScalingPolicyType::Pods => start + value,
                ScalingPolicyType::Percent => {
                    assert(start * (100 + value) <= 0xffff_ffff * 0x1_0000_0063) by (nonlinear_arith)
                        requires
                            0 <= start <= 0xffff_ffff,
                            0 <= value <= 0xffff_ffff,
                    ;
                    (start * (100 + value) + 99) / 100
                },
            }
        },
        Direction::Down => {
            let start: u128 = current + change;
            match policy.type_ {
                ScalingPolicyType::Pods => if start >= value {
                    start - value
                } else {
                    0
                },
                ScalingPolicyType::Percent => if value >= 100 {
                    0
                } else {
                    assert(start * (100 - value) <= 0x1_0000_0000_0000_0000_0000_0000 * 100)
                        by (nonlinear_arith)
                        requires
                            0 <= start <= 0x1_0000_0000_0000_0000_0000_0000,
                            0 <= value < 100,
                    ;
                    (start * (100 - value) + 99) / 100
                },
            }
        },
    };
    if exact > u32::MAX as u128 {
        u32::MAX
    } else {
        exact as u32
    }
}

/// The replica count that `rules` allow to be reached from `current_replicas`
/// when scaling in `direction`, given the scale `events` so far.
pub fn calc_scale_limit(
    direction: Direction,
    current_replicas: u32,
    events: &Vec<ScaleEvent>,
    rules: &HPAScalingRules,
    now: Timestamp,
) -> (limit: u32)
    ensures
        limit == scale_limit(direction, rules@, events@, now, current_replicas as int),
{
    let pick_lowest = match rules.select_policy {
        PolicySelection::Disabled => {
            return current_replicas;
        },
        PolicySelection::Min => match direction {
            Direction::Up => true,
            Direction::Down => false,
        },
        PolicySelection::Max => match direction {
            Direction::Up => false,
            Direction::Down => true,
        },
    };
    let mut result: u32 = if pick_lowest {
        u32::MAX
    } else {
        0
    };
    let mut i: usize = 0;
    while i < rules.policies.len()
        invariant
            0 <= i <= rules.policies@.len(),
            pick_lowest ==> result == lowest_limit(
                direction,
                rules.policies@.take(i as int),
                events@,
                now,
                current_replicas as int,
            ),
            !pick_lowest ==> result == highest_limit(
                direction,
                rules.policies@.take(i as int),
                events@,
                now,
                current_replicas as int,
            ),
        decreases rules.policies@.len() - i,
    {
        proof {
            assert(rules.policies@.take(i + 1).drop_last() =~= rules.policies@.take(i as int));
        }
        let limit = limit_of_policy(direction, rules.policies[i], events, now, current_replicas);
        if pick_lowest {
            if limit < result {
                result = limit;
            }
        } else {
            if limit > result {
                result = limit;
            }
        }
        i += 1;
    }
    proof {
        assert(rules.policies@.take(i as int) =~= rules.policies@);
    }
    result
}

/// How high the replica count may go from `current_replicas`.
pub fn calc_scale_up_limit(
    current_replicas: u32,
    events: &Vec<ScaleEvent>,
    rules: &HPAScalingRules,
    now: Timestamp,
) -> (limit: u32)
    ensures
        limit == scale_limit(Direction::Up, rules@, events@, now, current_replicas as int),
{
    calc_scale_limit(Direction::Up, current_replicas, events, rules, now)
}

/// How low the replica count may go from `current_replicas`.
pub fn calc_scale_down_limit(
    current_replicas: u32,
    events: &Vec<ScaleEvent>,
    rules: &HPAScalingRules,
    now: Timestamp,
) -> (limit: u32)
    ensures
        limit == scale_limit(Direction::Down, rules@, events@, now, current_replicas as int),
{
    calc_scale_limit(Direction::Down, current_replicas, events, rules, now)
}

/// Drops the events that are older than `period` seconds at `now`.
pub fn discard_outdated_scale_events(events: &mut Vec<ScaleEvent>, period: u32, now: Timestamp)
    ensures
        final(events)@ == recent_events(old(events)@, now, period as int),
{
    let mut kept: Vec<ScaleEvent> = Vec::new();
    let mut i: usize = 0;
    proof {
        reveal(Seq::filter);
    }
    while i < events.len()
        invariant
            0 <= i <= events@.len(),
            events@ == old(events)@,
            kept@ == recent_events(events@.take(i as int), now, period as int),
        decreases events@.len() - i,
    {
        proof {
            reveal(Seq::filter);
            assert(events@.take(i + 1).drop_last() =~= events@.take(i as int));
        }
        if events[i].time.is_within(&now, period) {
            kept.push(events[i]);
        }
        i += 1;
    }
    proof {
        assert(events@.take(i as int) =~= events@);
    }
    *events = kept;
}

} // verus!
