//! The composed tick listener of the validator domain: the survival
//! collector (which writes the event registry) runs first, then the
//! stake distribution collector (whose sampler may read the registry).

use vstd::prelude::*;
use crate::distribution::{snapshot_spec, SnapshotView, StakeDistributionCollector};
use crate::global_metrics::ValidatorGlobalMetrics;
use crate::metrics::{MetricsObserver, TickListener};
use crate::sampling::SamplingStrategy;
use crate::state::{world_ok, ValidatorWorld};
use crate::stats::active_stakes;
use crate::survival::{observe_spec, SurvivalMetricsCollector};

verus! {

/// The collection of all validator metrics listeners.
pub struct ValidatorListeners<S: SamplingStrategy> {
    pub survival: SurvivalMetricsCollector,
    pub distribution: StakeDistributionCollector<S>,
}

/// The mathematical content of the listener pair: the survival collector
/// (a plain value) and the distribution snapshots taken so far.
pub struct ListenersView<S> {
    pub survival: SurvivalMetricsCollector,
    pub sampler: S,
    pub snapshots: Seq<SnapshotView>,
}

impl<S: SamplingStrategy> View for ValidatorListeners<S> {
    type V = ListenersView<S>;

    open spec fn view(&self) -> ListenersView<S> {
        ListenersView {
            survival: self.survival,
            sampler: self.distribution.sampler,
            snapshots: self.distribution.records@.map_values(|s: crate::distribution::StakeDistributionSnapshot| s@),
        }
    }
}

impl<S: SamplingStrategy> ValidatorListeners<S> {
    pub fn new(liveness_threshold: usize, safety_threshold: usize, sampler: S) -> (r: Self)
        ensures
            r.survival == SurvivalMetricsCollector::new_spec(liveness_threshold, safety_threshold),
            r.distribution.sampler == sampler,
            r.distribution.records@.len() == 0,
    {
        ValidatorListeners {
            survival: SurvivalMetricsCollector::new(liveness_threshold, safety_threshold),
            distribution: StakeDistributionCollector::new(sampler),
        }
    }
}

/// One tick's observation: the survival collector observes the global
/// record (possibly registering events), then the distribution collector
/// samples against the updated registry.
pub open spec fn listeners_on_tick<S: SamplingStrategy>(
    pre: ListenersView<S>,
    state: ValidatorWorld,
    global: ValidatorGlobalMetrics,
) -> ListenersView<S> {
    let survival2 = observe_spec(pre.survival, global);
    let block = state.protocol.current_block;
    let active = active_stakes(state.validators@);
    let hit = S::samples(pre.sampler, block, survival2.events) && active.len() > 0;
    ListenersView {
        survival: survival2,
        sampler: S::stepped(pre.sampler, block, survival2.events),
        snapshots: if hit {
            pre.snapshots.push(snapshot_spec(block, active))
        } else {
            pre.snapshots
        },
    }
}

impl<S: SamplingStrategy> TickListener<ValidatorWorld, ValidatorGlobalMetrics> for ValidatorListeners<
    S,
> {
    open spec fn inv(&self) -> bool {
        self.distribution.sampler.inv()
    }

    open spec fn state_pre(s: ValidatorWorld) -> bool {
        world_ok(s)
    }

    open spec fn on_ticked(
        pre: ListenersView<S>,
        state: ValidatorWorld,
        global: ValidatorGlobalMetrics,
    ) -> ListenersView<S> {
        listeners_on_tick(pre, state, global)
    }

    fn on_tick(&mut self, state: &ValidatorWorld, global: &ValidatorGlobalMetrics) {
        let ghost pre_view = self@;
        self.survival.observe(global);
        let snap = self.distribution.record(state, &self.survival.events);
        match snap {
            Some(snapshot) => {
                self.distribution.records.push(snapshot);
            },
            None => {},
        }
        proof {
            assert(self@.snapshots =~= listeners_on_tick(pre_view, *state, *global).snapshots);
            assert(self@ == listeners_on_tick(pre_view, *state, *global));
        }
    }
}

/// The survival component of a whole run's listener fold is exactly the
/// survival collector's fold over the record stream: the distribution
/// collector never touches it.
pub proof fn lemma_fold_survival<S: SamplingStrategy>(
    l0: ListenersView<S>,
    states: Seq<ValidatorWorld>,
    gs: Seq<ValidatorGlobalMetrics>,
)
    requires
        states.len() == gs.len(),
    ensures
        crate::engine::observed_fold::<ValidatorWorld, ValidatorGlobalMetrics, ValidatorListeners<
            S,
        >>(l0, states, gs).survival == crate::survival::observe_all(l0.survival, gs),
    decreases gs.len(),
{
    if gs.len() > 0 {
        lemma_fold_survival::<S>(l0, states.drop_last(), gs.drop_last());
        crate::survival::lemma_observe_all_push(l0.survival, gs.drop_last(), gs.last());
        assert(gs.drop_last().push(gs.last()) =~= gs);
    }
}

} // verus!
