//! The horizontal pod autoscaler's decisions: stabilise a recommendation over
//! the recent past, hold it to the scaling policies, and keep the history
//! that both need.

use crate::keyed::KeyedMap;
use crate::objects::hpa::{
    longest_period_of, HorizontalPodAutoscaler, HorizontalPodAutoscalerBehavior,
    HorizontalPodAutoscalerBehaviorView, HorizontalPodAutoscalerSpecView,
};
use crate::podautoscaler::behavior::{
    calc_scale_down_limit, calc_scale_up_limit, discard_outdated_scale_events, recent_events,
    scale_limit, Direction, ScaleEvent,
};
use crate::time::Timestamp;
use vstd::prelude::*;

verus! {

/// A replica count that the metrics asked for at some time.
#[derive(Clone, Copy, Debug, PartialEq, Eq, Structural)]
pub struct Recommendation {
    pub replicas: u32,
    pub time: Timestamp,
}

/// The smaller of `seed` and every recommendation made within `window`
/// seconds before `now`.
pub open spec fn lowest_recent(
    recommendations: Seq<Recommendation>,
    now: Timestamp,
    window: int,
    seed: int,
) -> int
    decreases recommendations.len(),
{
    if recommendations.len() == 0 {
        seed
    } else {
        let rest = lowest_recent(recommendations.drop_last(), now, window, seed);
        let last = recommendations.last();
        if last.time.within(now, window) && last.replicas < rest {
            last.replicas as int
        } else {
            rest
        }
    }
}

/// The larger of `seed` and every recommendation made within `window`
/// seconds before `now`.
pub open spec fn highest_recent(
    recommendations: Seq<Recommendation>,
    now: Timestamp,
    window: int,
    seed: int,
) -> int
    decreases recommendations.len(),
{
    if recommendations.len() == 0 {
        seed
    } else {
        let rest = highest_recent(recommendations.drop_last(), now, window, seed);
        let last = recommendations.last();
        if last.time.within(now, window) && last.replicas > rest {
            last.replicas as int
        } else {
            rest
        }
    }
}

/// The replica count to aim for once `raw` has been held against the recent
/// recommendations.
///
/// Scaling up goes no further than the lowest recommendation of the scale-up
/// window, scaling down no further than the highest of the scale-down
/// window; between the two the count stays at `current`.
pub open spec fn stabilized(
    recommendations: Seq<Recommendation>,
    behavior: HorizontalPodAutoscalerBehaviorView,
    now: Timestamp,
    current: int,
    raw: int,
) -> int {
    let up = lowest_recent(
        recommendations,
        now,
        behavior.scale_up.stabilization_window_seconds as int,
        raw,
    );
    let down = highest_recent(
        recommendations,
        now,
        behavior.scale_down.stabilization_window_seconds as int,
        raw,
    );
    let raised = if current > up {
        current
    } else {
        up
    };
    if raised < down {
        raised
    } else {
        down
    }
}

/// The recommendations that still fall into one of the two stabilisation
/// windows at `now`, in their order.
pub open spec fn retained(
    recommendations: Seq<Recommendation>,
    behavior: HorizontalPodAutoscalerBehaviorView,
    now: Timestamp,
) -> Seq<Recommendation> {
    recommendations.filter(
        |r: Recommendation|
            r.time.within(now, behavior.scale_up.stabilization_window_seconds as int)
                || r.time.within(now, behavior.scale_down.stabilization_window_seconds as int),
    )
}

/// The replica count once `stabilized` has been held to the scaling policies.
///
/// A move up stops at the scale-up limit and at `max_replicas`; a move down
/// stops at the scale-down limit and at `min_replicas`. Neither limit is
/// taken to lie on the far side of `current`.
pub open spec fn conformed(
    spec: HorizontalPodAutoscalerSpecView,
    up_events: Seq<ScaleEvent>,
    down_events: Seq<ScaleEvent>,
    now: Timestamp,
    current: int,
    stabilized: int,
) -> int {
    if stabilized > current {
        let limit = scale_limit(Direction::Up, spec.behavior.scale_up, up_events, now, current);
        let up_limit = if limit > current {
            limit
        } else {
            current
        };
        let ceiling = if spec.max_replicas > up_limit {
            up_limit
        } else {
            spec.max_replicas as int
        };
        if stabilized < ceiling {
            stabilized
        } else {
            ceiling
        }
    } else if stabilized < current {
        let limit = scale_limit(
            Direction::Down,
            spec.behavior.scale_down,
            down_events,
            now,
            current,
        );
        let down_limit = if limit < current {
            limit
        } else {
            current
        };
        let floor = if spec.min_replicas < down_limit {
            down_limit
        } else {
            spec.min_replicas as int
        };
        if stabilized > floor {
            stabilized
        } else {
            floor
        }
    } else {
        stabilized
    }
}

/// The replica count that the autoscaler settles on for the recommendation
/// `raw`: stabilised, conformed, and no lower than `min_replicas`.
pub open spec fn normalized(
    spec: HorizontalPodAutoscalerSpecView,
    recommendations: Seq<Recommendation>,
    up_events: Seq<ScaleEvent>,
    down_events: Seq<ScaleEvent>,
    now: Timestamp,
    current: int,
    raw: int,
) -> int {
    let conformed = conformed(
        spec,
        up_events,
        down_events,
        now,
        current,
        stabilized(recommendations, spec.behavior, now, current, raw),
    );
    if spec.min_replicas > conformed {
        spec.min_replicas as int
    } else {
        conformed
    }
}

/// Both folds over the recent recommendations grow with their seed.
pub proof fn lemma_recent_monotone(
    recommendations: Seq<Recommendation>,
    now: Timestamp,
    window: int,
    seed1: int,
    seed2: int,
)
    requires
        seed1 <= seed2,
    ensures
        lowest_recent(recommendations, now, window, seed1) <= lowest_recent(
            recommendations,
            now,
            window,
            seed2,
        ),
        highest_recent(recommendations, now, window, seed1) <= highest_recent(
            recommendations,
            now,
            window,
            seed2,
        ),
    decreases recommendations.len(),
{
    if recommendations.len() > 0 {
        lemma_recent_monotone(recommendations.drop_last(), now, window, seed1, seed2);
    }
}

/// Stabilisation preserves the order of recommendations: with the history
/// fixed, a larger `raw` never stabilises to a smaller count.
pub proof fn lemma_stabilized_monotone(
    recommendations: Seq<Recommendation>,
    behavior: HorizontalPodAutoscalerBehaviorView,
    now: Timestamp,
    current: int,
    raw1: int,
    raw2: int,
)
    requires
        raw1 <= raw2,
    ensures
        stabilized(recommendations, behavior, now, current, raw1) <= stabilized(
            recommendations,
            behavior,
            now,
            current,
            raw2,
        ),
{
    lemma_recent_monotone(
        recommendations,
        now,
        behavior.scale_up.stabilization_window_seconds as int,
        raw1,
        raw2,
    );
    lemma_recent_monotone(
        recommendations,
        now,
        behavior.scale_down.stabilization_window_seconds as int,
        raw1,
        raw2,
    );
}

/// Normalisation is monotone in the raw recommendation: with the history of
/// recommendations and of scale events fixed, `raw1 <= raw2` gives
/// `normalized(raw1) <= normalized(raw2)`.
///
/// This holds unless the current count lies above both `min_replicas` and
/// `max_replicas` while some recommendation can still stabilise above it:
/// there a step up is cut back to `max_replicas`, below where staying put
/// would leave the count. The precondition leaves out exactly those states.
pub proof fn lemma_normalized_monotone(
    spec: HorizontalPodAutoscalerSpecView,
    recommendations: Seq<Recommendation>,
    up_events: Seq<ScaleEvent>,
    down_events: Seq<ScaleEvent>,
    now: Timestamp,
    current: u32,
    raw1: u32,
    raw2: u32,
)
    requires
        raw1 <= raw2,
        current <= spec.max_replicas || current <= spec.min_replicas || stabilized(
            recommendations,
            spec.behavior,
            now,
            current as int,
            u32::MAX as int,
        ) <= current,
    ensures
        normalized(
            spec,
            recommendations,
            up_events,
            down_events,
            now,
            current as int,
            raw1 as int,
        ) <= normalized(
            spec,
            recommendations,
            up_events,
            down_events,
            now,
            current as int,
            raw2 as int,
        ),
{
    lemma_stabilized_monotone(
        recommendations,
        spec.behavior,
        now,
        current as int,
        raw1 as int,
        raw2 as int,
    );
    lemma_stabilized_monotone(
        recommendations,
        spec.behavior,
        now,
        current as int,
        raw2 as int,
        u32::MAX as int,
    );
}

/// The history that the autoscaler keeps, by autoscaler name.
pub struct AutoscalerState {
    pub recommendations: Map<Seq<char>, Seq<Recommendation>>,
    pub scale_up_events: Map<Seq<char>, Seq<ScaleEvent>>,
    pub scale_down_events: Map<Seq<char>, Seq<ScaleEvent>>,
}

/// The recommendations recorded under `name`, and none where nothing was
/// recorded.
pub open spec fn history_of(
    recommendations: Map<Seq<char>, Seq<Recommendation>>,
    name: Seq<char>,
) -> Seq<Recommendation> {
    if recommendations.contains_key(name) {
        recommendations[name]
    } else {
        Seq::empty()
    }
}

/// The events recorded under `name`, and none where nothing was recorded.
pub open spec fn events_of(events: Map<Seq<char>, Seq<ScaleEvent>>, name: Seq<char>) -> Seq<
    ScaleEvent,
> {
    if events.contains_key(name) {
        events[name]
    } else {
        Seq::empty()
    }
}

/// The state once `name` has a history: an autoscaler seen for the first
/// time starts out with the count it was found at.
pub open spec fn with_first_recommendation(
    state: AutoscalerState,
    name: Seq<char>,
    current: u32,
    now: Timestamp,
) -> AutoscalerState {
    if state.recommendations.contains_key(name) {
        state
    } else {
        AutoscalerState {
            recommendations: state.recommendations.insert(
                name,
                seq![Recommendation { replicas: current, time: now }],
            ),
            ..state
        }
    }
}

/// The state once the recommendation `raw` has joined the history of `name`:
/// the recommendations that have left both windows are gone, and `raw`
/// follows the rest. A name without a history starts one.
pub open spec fn with_recommendation(
    state: AutoscalerState,
    name: Seq<char>,
    behavior: HorizontalPodAutoscalerBehaviorView,
    raw: u32,
    now: Timestamp,
) -> AutoscalerState {
    AutoscalerState {
        recommendations: state.recommendations.insert(
            name,
            retained(history_of(state.recommendations, name), behavior, now).push(
                Recommendation { replicas: raw, time: now },
            ),
        ),
        ..state
    }
}

/// The replica count that the autoscaler `name` settles on for `raw`, given
/// what is recorded under its name.
pub open spec fn normalized_for(
    state: AutoscalerState,
    name: Seq<char>,
    spec: HorizontalPodAutoscalerSpecView,
    now: Timestamp,
    current: u32,
    raw: u32,
) -> int {
    normalized(
        spec,
        history_of(state.recommendations, name),
        events_of(state.scale_up_events, name),
        events_of(state.scale_down_events, name),
        now,
        current as int,
        raw as int,
    )
}

/// The state once the move from `prev` to `new` replicas has been recorded
/// for `name`: the events of that direction that are older than the longest
/// period of its policies are gone, and the move has joined the rest. No
/// move, no change.
pub open spec fn with_scale_event(
    state: AutoscalerState,
    name: Seq<char>,
    behavior: HorizontalPodAutoscalerBehaviorView,
    prev: u32,
    new: u32,
    now: Timestamp,
) -> AutoscalerState {
    if new > prev {
        AutoscalerState {
            scale_up_events: state.scale_up_events.insert(
                name,
                recent_events(
                    events_of(state.scale_up_events, name),
                    now,
                    longest_period_of(behavior.scale_up.policies),
                ).push(ScaleEvent { change: (new - prev) as u32, time: now }),
            ),
            ..state
        }
    } else if new < prev {
        AutoscalerState {
            scale_down_events: state.scale_down_events.insert(
                name,
                recent_events(
                    events_of(state.scale_down_events, name),
                    now,
                    longest_period_of(behavior.scale_down.policies),
                ).push(ScaleEvent { change: (prev - new) as u32, time: now }),
            ),
            ..state
        }
    } else {
        state
    }
}

/// The in-memory state of the horizontal pod autoscaler controller.
pub struct PodAutoscaler {
    recommendations: KeyedMap<Vec<Recommendation>>,
    scale_up_events: KeyedMap<Vec<ScaleEvent>>,
    scale_down_events: KeyedMap<Vec<ScaleEvent>>,
}

impl View for PodAutoscaler {
    type V = AutoscalerState;

    closed spec fn view(&self) -> AutoscalerState {
        AutoscalerState {
            recommendations: self.recommendations@.map_values(|v: Vec<Recommendation>| v@),
            scale_up_events: self.scale_up_events@.map_values(|v: Vec<ScaleEvent>| v@),
            scale_down_events: self.scale_down_events@.map_values(|v: Vec<ScaleEvent>| v@),
        }
    }
}

impl PodAutoscaler {
    /// A controller that has seen no autoscaler yet.
    pub fn new() -> (autoscaler: Self)
        ensures
            autoscaler@.recommendations == Map::<Seq<char>, Seq<Recommendation>>::empty(),
            autoscaler@.scale_up_events == Map::<Seq<char>, Seq<ScaleEvent>>::empty(),
            autoscaler@.scale_down_events == Map::<Seq<char>, Seq<ScaleEvent>>::empty(),
    {
        let autoscaler = PodAutoscaler {
            recommendations: KeyedMap::new(),
            scale_up_events: KeyedMap::new(),
            scale_down_events: KeyedMap::new(),
        };
        assert(autoscaler@.recommendations =~= Map::<Seq<char>, Seq<Recommendation>>::empty());
        assert(autoscaler@.scale_up_events =~= Map::<Seq<char>, Seq<ScaleEvent>>::empty());
        assert(autoscaler@.scale_down_events =~= Map::<Seq<char>, Seq<ScaleEvent>>::empty());
        autoscaler
    }

    /// Holds `desired_replicas` against the recommendations of the recent
    /// past, drops the recommendations that have left both windows, and
    /// records `desired_replicas` itself, unstabilised, at `now`.
    ///
    /// An autoscaler without a history has nothing recent to be held against:
    /// the recommendation stands, and starts the history.
    pub fn stabilize_recommendation(
        &mut self,
        hpa_name: &String,
        current_replicas: u32,
        desired_replicas: u32,
        behavior: &HorizontalPodAutoscalerBehavior,
        now: Timestamp,
    ) -> (recommendation: u32)
        ensures
            recommendation == stabilized(
                history_of(old(self)@.recommendations, hpa_name@),
                behavior@,
                now,
                current_replicas as int,
                desired_replicas as int,
            ),
            final(self)@ == with_recommendation(
                old(self)@,
                hpa_name@,
                behavior@,
                desired_replicas,
                now,
            ),
    {
        let history = match self.recommendations.remove(hpa_name) {
            Some(history) => history,
            None => Vec::new(),
        };
        proof {
            assert(history@ =~= history_of(old(self)@.recommendations, hpa_name@));
        }
        let up_window = behavior.scale_up.stabilization_window_seconds;
        let down_window = behavior.scale_down.stabilization_window_seconds;
        let mut up_recommendation = desired_replicas;
        let mut down_recommendation = desired_replicas;
        let mut kept: Vec<Recommendation> = Vec::new();
        let mut i: usize = 0;
        while i < history.len()
            invariant
                0 <= i <= history@.len(),
                up_window == behavior@.scale_up.stabilization_window_seconds,
                down_window == behavior@.scale_down.stabilization_window_seconds,
                up_recommendation == lowest_recent(
                    history@.take(i as int),
                    now,
                    up_window as int,
                    desired_replicas as int,
                ),
                down_recommendation == highest_recent(
                    history@.take(i as int),
                    now,
                    down_window as int,
                    desired_replicas as int,
                ),
                kept@ == retained(history@.take(i as int), behavior@, now),
            decreases history@.len() - i,
        {
            proof {
                reveal(Seq::filter);
                assert(history@.take(i + 1).drop_last() =~= history@.take(i as int));
            }
            let rec = history[i];
            let in_up = rec.time.is_within(&now, up_window);
            let in_down = rec.time.is_within(&now, down_window);
            if in_up && rec.replicas < up_recommendation {
                up_recommendation = rec.replicas;
            }
            if in_down && rec.replicas > down_recommendation {
                down_recommendation = rec.replicas;
            }
            if in_up || in_down {
                kept.push(rec);
            }
            i += 1;
        }
        proof {
            assert(history@.take(i as int) =~= history@);
        }
        let raised = if current_replicas > up_recommendation {
            current_replicas
        } else {
            up_recommendation
        };
        let recommendation = if raised < down_recommendation {
            raised
        } else {
            down_recommendation
        };
        kept.push(Recommendation { replicas: desired_replicas, time: now });
        self.recommendations.insert(hpa_name.clone(), kept);
        proof {
            assert(self@.recommendations =~= old(self)@.recommendations.insert(
                hpa_name@,
                retained(history_of(old(self)@.recommendations, hpa_name@), behavior@, now).push(
                    Recommendation { replicas: desired_replicas, time: now },
                ),
            ));
        }
        recommendation
    }

    /// Holds `desired_replicas` to the scaling policies of `hpa`, given the
    /// scale events recorded under `hpa_name`.
    pub fn conform_with_behavior(
        &self,
        hpa_name: &String,
        hpa: &HorizontalPodAutoscaler,
        current_replicas: u32,
        desired_replicas: u32,
        now: Timestamp,
    ) -> (replicas: u32)
        ensures
            replicas == conformed(
                hpa.spec@,
                events_of(self@.scale_up_events, hpa_name@),
                events_of(self@.scale_down_events, hpa_name@),
                now,
                current_replicas as int,
                desired_replicas as int,
            ),
    {
        let none: Vec<ScaleEvent> = Vec::new();
        if desired_replicas > current_replicas {
            let events = match self.scale_up_events.get(hpa_name) {
                Some(events) => events,
                None => &none,
            };
            let limit = calc_scale_up_limit(
                current_replicas,
                events,
                &hpa.spec.behavior.scale_up,
                now,
            );
            let scale_up_limit = if limit > current_replicas {
                limit
            } else {
                current_replicas
            };
            let max_replicas = if hpa.spec.max_replicas > scale_up_limit {
                scale_up_limit
            } else {
                hpa.spec.max_replicas
            };
            if desired_replicas < max_replicas {
                desired_replicas
            } else {
                max_replicas
            }
        } else if desired_replicas < current_replicas {
            let events = match self.scale_down_events.get(hpa_name) {
                Some(events) => events,
                None => &none,
            };
            let limit = calc_scale_down_limit(
                current_replicas,
                events,
                &hpa.spec.behavior.scale_down,
                now,
            );
            let scale_down_limit = if limit < current_replicas {
                limit
            } else {
                current_replicas
            };
            let min_replicas = if hpa.spec.min_replicas < scale_down_limit {
                scale_down_limit
            } else {
                hpa.spec.min_replicas
            };
            if desired_replicas > min_replicas {
                desired_replicas
            } else {
                min_replicas
            }
        } else {
            desired_replicas
        }
    }

    /// Settles on a replica count for the recommendation `desired_replicas`:
    /// stabilised over the recent past, held to the scaling policies, and no
    /// lower than `min_replicas`. The recommendation joins the history.
    pub fn normalize_desired_replicas(
        &mut self,
        hpa_name: &String,
        hpa: &HorizontalPodAutoscaler,
        current_replicas: u32,
        desired_replicas: u32,
        now: Timestamp,
    ) -> (replicas: u32)
        ensures
            replicas == normalized_for(
                old(self)@,
                hpa_name@,
                hpa.spec@,
                now,
                current_replicas,
                desired_replicas,
            ),
            final(self)@ == with_recommendation(
                old(self)@,
                hpa_name@,
                hpa.spec@.behavior,
                desired_replicas,
                now,
            ),
    {
        let stabilized = self.stabilize_recommendation(
            hpa_name,
            current_replicas,
            desired_replicas,
            &hpa.spec.behavior,
            now,
        );
        let conformed = self.conform_with_behavior(
            hpa_name,
            hpa,
            current_replicas,
            stabilized,
            now,
        );
        if hpa.spec.min_replicas > conformed {
            hpa.spec.min_replicas
        } else {
            conformed
        }
    }

    /// Records that the replica count went from `prev_replicas` to
    /// `new_replicas` at `now`, after dropping the events of that direction
    /// that are older than the longest period of its policies.
    pub fn record_scale_event(
        &mut self,
        hpa_name: &String,
        behavior: &HorizontalPodAutoscalerBehavior,
        prev_replicas: u32,
        new_replicas: u32,
        now: Timestamp,
    )
        requires
            prev_replicas != new_replicas,
        ensures
            final(self)@ == with_scale_event(
                old(self)@,
                hpa_name@,
                behavior@,
                prev_replicas,
                new_replicas,
                now,
            ),
    {
        if new_replicas > prev_replicas {
            let longest_period = behavior.scale_up.longest_period();
            let mut events = match self.scale_up_events.remove(hpa_name) {
                Some(events) => events,
                None => Vec::new(),
            };
            discard_outdated_scale_events(&mut events, longest_period, now);
            events.push(ScaleEvent { change: new_replicas - prev_replicas, time: now });
            self.scale_up_events.insert(hpa_name.clone(), events);
            proof {
                assert(self@.scale_up_events =~= old(self)@.scale_up_events.insert(
                    hpa_name@,
                    events@,
                ));
                assert(self@.recommendations =~= old(self)@.recommendations);
                assert(self@.scale_down_events =~= old(self)@.scale_down_events);
            }
        } else {
            let longest_period = behavior.scale_down.longest_period();
            let mut events = match self.scale_down_events.remove(hpa_name) {
                Some(events) => events,
                None => Vec::new(),
            };
            discard_outdated_scale_events(&mut events, longest_period, now);
            events.push(ScaleEvent { change: prev_replicas - new_replicas, time: now });
            self.scale_down_events.insert(hpa_name.clone(), events);
            proof {
                assert(self@.scale_down_events =~= old(self)@.scale_down_events.insert(
                    hpa_name@,
                    events@,
                ));
            }
        }
    }

    /// Gives `hpa_name` a history if it has none yet: the count it was found
    /// at, at `now`.
    pub fn ensure_history(&mut self, hpa_name: &String, current_replicas: u32, now: Timestamp)
        ensures
            final(self)@ == with_first_recommendation(
                old(self)@,
                hpa_name@,
                current_replicas,
                now,
            ),
    {
        if !self.recommendations.contains_key(hpa_name) {
            let mut history: Vec<Recommendation> = Vec::new();
            history.push(Recommendation { replicas: current_replicas, time: now });
            self.recommendations.insert(hpa_name.clone(), history);
            proof {
                assert(history@ =~= seq![Recommendation { replicas: current_replicas, time: now }]);
                assert(self@.recommendations =~= old(self)@.recommendations.insert(
                    hpa_name@,
                    seq![Recommendation { replicas: current_replicas, time: now }],
                ));
            }
        }
    }

    /// Forgets everything recorded under `hpa_name`.
    pub fn forget(&mut self, hpa_name: &String)
        ensures
            final(self)@ == (AutoscalerState {
                recommendations: old(self)@.recommendations.remove(hpa_name@),
                scale_up_events: old(self)@.scale_up_events.remove(hpa_name@),
                scale_down_events: old(self)@.scale_down_events.remove(hpa_name@),
            }),
    {
        self.recommendations.remove(hpa_name);
        self.scale_up_events.remove(hpa_name);
        self.scale_down_events.remove(hpa_name);
        proof {
            assert(self@.recommendations =~= old(self)@.recommendations.remove(hpa_name@));
            assert(self@.scale_up_events =~= old(self)@.scale_up_events.remove(hpa_name@));
            assert(self@.scale_down_events =~= old(self)@.scale_down_events.remove(hpa_name@));
        }
    }
}

} // verus!
