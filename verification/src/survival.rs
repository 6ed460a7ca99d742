//! Survival metrics: first-exit, decentralization-breach and collapse
//! times, with running minima of the Nakamoto coefficients, plus the
//! event registry shared with event-gated sampling strategies.

use vstd::prelude::*;
use crate::global_metrics::ValidatorGlobalMetrics;
use crate::metrics::MetricsObserver;

verus! {

/// A named simulation milestone, one-to-one with the outcome's optional
/// fields.
#[derive(Clone, Copy, Debug, PartialEq, Eq, Structural)]
pub enum SimulationEvent {
    FirstExit,
    Nc33Breach,
    Nc50Breach,
    Collapse,
}

/// Process-local record of which named events have fired; written by the
/// survival collector, read by event-gated sampling strategies.
/// Append-only for the run's duration.
#[derive(Clone, Copy, Debug, PartialEq, Eq, Structural)]
pub struct EventRegistry {
    pub first_exit: bool,
    pub nc33_breach: bool,
    pub nc50_breach: bool,
    pub collapse: bool,
}

impl EventRegistry {
    /// Whether this event has been triggered.
    pub open spec fn has(self, event: SimulationEvent) -> bool {
        match event {
            SimulationEvent::FirstExit => self.first_exit,
            SimulationEvent::Nc33Breach => self.nc33_breach,
            SimulationEvent::Nc50Breach => self.nc50_breach,
            SimulationEvent::Collapse => self.collapse,
        }
    }

    /// The registry with one more event set.
    pub open spec fn with_event(self, event: SimulationEvent) -> EventRegistry {
        match event {
            SimulationEvent::FirstExit => EventRegistry { first_exit: true, ..self },
            SimulationEvent::Nc33Breach => EventRegistry { nc33_breach: true, ..self },
            SimulationEvent::Nc50Breach => EventRegistry { nc50_breach: true, ..self },
            SimulationEvent::Collapse => EventRegistry { collapse: true, ..self },
        }
    }

    /// Mark an event as having fired. Events are never cleared.
    pub fn trigger(&mut self, event: SimulationEvent)
        ensures
            *final(self) == old(self).with_event(event),
    {
        match event {
            SimulationEvent::FirstExit => {
                self.first_exit = true;
            },
            SimulationEvent::Nc33Breach => {
                self.nc33_breach = true;
            },
            SimulationEvent::Nc50Breach => {
                self.nc50_breach = true;
            },
            SimulationEvent::Collapse => {
                self.collapse = true;
            },
        }
    }

    pub fn has_triggered(&self, event: &SimulationEvent) -> (r: bool)
        ensures
            r == self.has(*event),
    {
        match event {
            SimulationEvent::FirstExit => self.first_exit,
            SimulationEvent::Nc33Breach => self.nc33_breach,
            SimulationEvent::Nc50Breach => self.nc50_breach,
            SimulationEvent::Collapse => self.collapse,
        }
    }
}

impl Default for EventRegistry {
    /// The empty registry: no event has fired.
    fn default() -> (r: EventRegistry)
        ensures
            r == (EventRegistry {
                first_exit: false,
                nc33_breach: false,
                nc50_breach: false,
                collapse: false,
            }),
    {
        EventRegistry { first_exit: false, nc33_breach: false, nc50_breach: false, collapse: false }
    }
}

/// The run's survival outcome. Each optional field transitions from unset
/// to set at most once and never reverts; the minima only decrease.
#[derive(Clone, Copy, Debug, PartialEq, Eq)]
pub struct SimulationOutcome {
    pub time_to_first_exit: Option<u64>,
    pub time_to_nc33_breach: Option<u64>,
    pub time_to_nc50_breach: Option<u64>,
    pub time_to_collapse: Option<u64>,
    pub min_nc33: usize,
    pub min_nc50: usize,
}

/// Tracks survival milestones over the per-tick record stream. The first
/// observation records the baseline active-validator count; each
/// observation updates the running minima and checks the four independent
/// one-shot breach conditions.
#[derive(Clone, Copy, Debug, PartialEq, Eq)]
pub struct SurvivalMetricsCollector {
    pub initial_active_validators: Option<usize>,
    pub outcome: SimulationOutcome,
    pub liveness_threshold: usize,
    pub safety_threshold: usize,
    pub events: EventRegistry,
}

impl SurvivalMetricsCollector {
    pub fn new(liveness_threshold: usize, safety_threshold: usize) -> (r: Self)
        ensures
            r == SurvivalMetricsCollector::new_spec(liveness_threshold, safety_threshold),
    {
        SurvivalMetricsCollector {
            initial_active_validators: None,
            outcome: SimulationOutcome {
                time_to_first_exit: None,
                time_to_nc33_breach: None,
                time_to_nc50_breach: None,
                time_to_collapse: None,
                min_nc33: usize::MAX,
                min_nc50: usize::MAX,
            },
            liveness_threshold,
            safety_threshold,
            events: EventRegistry {
                first_exit: false,
                nc33_breach: false,
                nc50_breach: false,
                collapse: false,
            },
        }
    }

    pub open spec fn new_spec(liveness_threshold: usize, safety_threshold: usize) -> Self {
        SurvivalMetricsCollector {
            initial_active_validators: None,
            outcome: SimulationOutcome {
                time_to_first_exit: None,
                time_to_nc33_breach: None,
                time_to_nc50_breach: None,
                time_to_collapse: None,
                min_nc33: usize::MAX,
                min_nc50: usize::MAX,
            },
            liveness_threshold,
            safety_threshold,
            events: EventRegistry {
                first_exit: false,
                nc33_breach: false,
                nc50_breach: false,
                collapse: false,
            },
        }
    }
}

/// One observation. The baseline is set on the first call; the minima are
/// updated; then each of the four breach conditions is checked
/// independently, writing its outcome field and triggering its event
/// exactly when the field was still unset and the condition holds.
pub open spec fn observe_spec(
    pre: SurvivalMetricsCollector,
    m: ValidatorGlobalMetrics,
) -> SurvivalMetricsCollector {
    let initial = match pre.initial_active_validators {
        None => m.active_validators,
        Some(v) => v,
    };
    let min33 = if m.nc33 < pre.outcome.min_nc33 {
        m.nc33
    } else {
        pre.outcome.min_nc33
    };
    let min50 = if m.nc50 < pre.outcome.min_nc50 {
        m.nc50
    } else {
        pre.outcome.min_nc50
    };
    let first_exit_hit = pre.outcome.time_to_first_exit is None && m.active_validators < initial;
    let nc33_hit = pre.outcome.time_to_nc33_breach is None && m.nc33 <= pre.liveness_threshold;
    let nc50_hit = pre.outcome.time_to_nc50_breach is None && m.nc50 <= pre.safety_threshold;
    let collapse_hit = pre.outcome.time_to_collapse is None && m.active_validators <= 1;
    SurvivalMetricsCollector {
        initial_active_validators: Some(initial),
        outcome: SimulationOutcome {
            time_to_first_exit: if first_exit_hit {
                Some(m.block)
            } else {
                pre.outcome.time_to_first_exit
            },
            time_to_nc33_breach: if nc33_hit {
                Some(m.block)
            } else {
                pre.outcome.time_to_nc33_breach
            },
            time_to_nc50_breach: if nc50_hit {
                Some(m.block)
            } else {
                pre.outcome.time_to_nc50_breach
            },
            time_to_collapse: if collapse_hit {
                Some(m.block)
            } else {
                pre.outcome.time_to_collapse
            },
            min_nc33: min33,
            min_nc50: min50,
        },
        events: EventRegistry {
            first_exit: pre.events.first_exit || first_exit_hit,
            nc33_breach: pre.events.nc33_breach || nc33_hit,
            nc50_breach: pre.events.nc50_breach || nc50_hit,
            collapse: pre.events.collapse || collapse_hit,
        },
        ..pre
    }
}

impl MetricsObserver<ValidatorGlobalMetrics> for SurvivalMetricsCollector {
    open spec fn observed(pre: Self, record: ValidatorGlobalMetrics) -> Self {
        observe_spec(pre, record)
    }

    #[verifier::rlimit(50)]
    fn observe(&mut self, record: &ValidatorGlobalMetrics) {
        let initial = match self.initial_active_validators {
            None => record.active_validators,
            Some(v) => v,
        };
        self.initial_active_validators = Some(initial);
        if record.nc33 < self.outcome.min_nc33 {
            self.outcome.min_nc33 = record.nc33;
        }
        if record.nc50 < self.outcome.min_nc50 {
            self.outcome.min_nc50 = record.nc50;
        }
        let block = record.block;
        if self.outcome.time_to_first_exit.is_none() && record.active_validators < initial {
            self.outcome.time_to_first_exit = Some(block);
            self.events.trigger(SimulationEvent::FirstExit);
        }
        if self.outcome.time_to_nc33_breach.is_none() && record.nc33 <= self.liveness_threshold {
            self.outcome.time_to_nc33_breach = Some(block);
            self.events.trigger(SimulationEvent::Nc33Breach);
        }
        if self.outcome.time_to_nc50_breach.is_none() && record.nc50 <= self.safety_threshold {
            self.outcome.time_to_nc50_breach = Some(block);
            self.events.trigger(SimulationEvent::Nc50Breach);
        }
        if self.outcome.time_to_collapse.is_none() && record.active_validators <= 1 {
            self.outcome.time_to_collapse = Some(block);
            self.events.trigger(SimulationEvent::Collapse);
        }
        proof {
            let post = observe_spec(*old(self), *record);
            assert(self.initial_active_validators == post.initial_active_validators);
            assert(self.outcome.time_to_first_exit == post.outcome.time_to_first_exit);
            assert(self.outcome.time_to_nc33_breach == post.outcome.time_to_nc33_breach);
            assert(self.outcome.time_to_nc50_breach == post.outcome.time_to_nc50_breach);
            assert(self.outcome.time_to_collapse == post.outcome.time_to_collapse);
            assert(self.outcome.min_nc33 == post.outcome.min_nc33);
            assert(self.outcome.min_nc50 == post.outcome.min_nc50);
            assert(self.events == post.events);
            assert(self.outcome == post.outcome);
            assert(*self == post);
            assert(*self == <SurvivalMetricsCollector as MetricsObserver<
                ValidatorGlobalMetrics,
            >>::observed(*old(self), *record));
        }
    }
}

/// The collector after observing a whole record stream, in order.
pub open spec fn observe_all(
    pre: SurvivalMetricsCollector,
    ms: Seq<ValidatorGlobalMetrics>,
) -> SurvivalMetricsCollector
    decreases ms.len(),
{
    if ms.len() == 0 {
        pre
    } else {
        observe_all(observe_spec(pre, ms[0]), ms.drop_first())
    }
}

/// One observation never clears an outcome field that is already set, and
/// never clears a registered event: each optional field transitions
/// unset-to-set at most once and then keeps its value.
pub proof fn lemma_observe_write_once(pre: SurvivalMetricsCollector, m: ValidatorGlobalMetrics)
    ensures
        pre.outcome.time_to_first_exit is Some ==> observe_spec(pre, m).outcome.time_to_first_exit
            == pre.outcome.time_to_first_exit,
        pre.outcome.time_to_nc33_breach is Some ==> observe_spec(pre, m).outcome.time_to_nc33_breach
            == pre.outcome.time_to_nc33_breach,
        pre.outcome.time_to_nc50_breach is Some ==> observe_spec(pre, m).outcome.time_to_nc50_breach
            == pre.outcome.time_to_nc50_breach,
        pre.outcome.time_to_collapse is Some ==> observe_spec(pre, m).outcome.time_to_collapse
            == pre.outcome.time_to_collapse,
        forall|e: SimulationEvent|
            pre.events.has(e) ==> #[trigger] observe_spec(pre, m).events.has(e),
{
}

/// Observing one more record after a stream is one more observation.
pub proof fn lemma_observe_all_push(
    pre: SurvivalMetricsCollector,
    ms: Seq<ValidatorGlobalMetrics>,
    m: ValidatorGlobalMetrics,
)
    ensures
        observe_all(pre, ms.push(m)) == observe_spec(observe_all(pre, ms), m),
    decreases ms.len(),
{
    if ms.len() == 0 {
        assert(ms.push(m)[0] == m);
        assert(ms.push(m).drop_first() =~= Seq::<ValidatorGlobalMetrics>::empty());
        assert(observe_all(observe_spec(pre, m), Seq::<ValidatorGlobalMetrics>::empty())
            == observe_spec(pre, m));
        assert(observe_all(pre, ms) == pre);
    } else {
        assert(ms.push(m)[0] == ms[0]);
        assert(ms.push(m).drop_first() =~= ms.drop_first().push(m));
        lemma_observe_all_push(observe_spec(pre, ms[0]), ms.drop_first(), m);
        assert(observe_all(pre, ms.push(m)) == observe_all(
            observe_spec(pre, ms[0]),
            ms.drop_first().push(m),
        ));
        assert(observe_all(pre, ms) == observe_all(observe_spec(pre, ms[0]), ms.drop_first()));
    }
}

/// Observing a concatenated stream is observing its parts in order.
pub proof fn lemma_observe_all_append(
    pre: SurvivalMetricsCollector,
    ms1: Seq<ValidatorGlobalMetrics>,
    ms2: Seq<ValidatorGlobalMetrics>,
)
    ensures
        observe_all(pre, ms1 + ms2) == observe_all(observe_all(pre, ms1), ms2),
    decreases ms1.len(),
{
    if ms1.len() == 0 {
        assert(ms1 + ms2 =~= ms2);
    } else {
        assert((ms1 + ms2)[0] == ms1[0]);
        assert((ms1 + ms2).drop_first() =~= ms1.drop_first() + ms2);
        lemma_observe_all_append(observe_spec(pre, ms1[0]), ms1.drop_first(), ms2);
    }
}

/// Over any record stream: an outcome field that is set stays set with
/// the same value for the rest of the run.
pub proof fn lemma_observe_all_write_once(
    pre: SurvivalMetricsCollector,
    ms: Seq<ValidatorGlobalMetrics>,
)
    ensures
        pre.outcome.time_to_first_exit is Some ==> observe_all(pre, ms).outcome.time_to_first_exit
            == pre.outcome.time_to_first_exit,
        pre.outcome.time_to_nc33_breach is Some ==> observe_all(pre, ms).outcome.time_to_nc33_breach
            == pre.outcome.time_to_nc33_breach,
        pre.outcome.time_to_nc50_breach is Some ==> observe_all(pre, ms).outcome.time_to_nc50_breach
            == pre.outcome.time_to_nc50_breach,
        pre.outcome.time_to_collapse is Some ==> observe_all(pre, ms).outcome.time_to_collapse
            == pre.outcome.time_to_collapse,
    decreases ms.len(),
{
    if ms.len() > 0 {
        lemma_observe_write_once(pre, ms[0]);
        lemma_observe_all_write_once(observe_spec(pre, ms[0]), ms.drop_first());
    }
}

} // verus!
