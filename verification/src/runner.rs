//! Running a whole simulation and returning strongly typed results: the
//! per-tick records, the final listener state, and the stop cause.

use vstd::prelude::*;
use crate::engine::{run_post, RunOutcome, SimulationEngine};
use crate::errors::TerminalFailure;
use crate::global_metrics::{GlobalMetricsCollector, ValidatorGlobalMetrics};
use crate::listeners::ValidatorListeners;
use crate::metrics::MetricsRecorder;
use crate::sampling::ConfiguredSampler;
use crate::state::ValidatorWorld;
use crate::validator_domain::ValidatorDomain;

verus! {

/// The results of one simulation run, strongly typed per domain.
pub struct SimulationResults {
    /// Name of the domain that produced these results.
    pub domain: String,
    pub records: MetricsRecorder<ValidatorGlobalMetrics>,
    pub listeners: ValidatorListeners<ConfiguredSampler>,
    /// The terminal failure that stopped the run early, if any.
    pub failure: Option<TerminalFailure>,
    pub trace: Ghost<Seq<ValidatorWorld>>,
}

/// A runnable simulation.
pub trait SimulationRunner: Sized {
    /// Well-formedness of the assembled simulation.
    spec fn inv(&self) -> bool;

    /// What this runner promises of its results.
    spec fn results_ok(pre: Self, r: SimulationResults) -> bool;

    fn run(self) -> (r: SimulationResults)
        requires
            self.inv(),
        ensures
            Self::results_ok(self, r),
    ;
}

/// The validator simulation, assembled and ready to run.
pub struct ValidatorRunner {
    pub engine: SimulationEngine<
        ValidatorDomain,
        GlobalMetricsCollector,
        ValidatorListeners<ConfiguredSampler>,
    >,
}

impl SimulationRunner for ValidatorRunner {
    open spec fn inv(&self) -> bool {
        &&& crate::domain::Domain::inv(&self.engine.domain)
        &&& crate::metrics::TickListener::inv(&self.engine.listeners)
    }

    /// The engine's full run contract, plus the domain tag.
    open spec fn results_ok(pre: Self, r: SimulationResults) -> bool {
        &&& r.domain@ == "validator"@
        &&& run_post(
            pre.engine,
            RunOutcome {
                records: r.records,
                listeners: r.listeners,
                failure: r.failure,
                trace: r.trace,
            },
        )
    }

    fn run(self) -> (r: SimulationResults) {
        proof {
            assert forall|s: ValidatorWorld|
                <ValidatorDomain as crate::domain::Domain>::state_inv(s) implies #[trigger] <
            GlobalMetricsCollector as crate::metrics::Metrics>::state_pre(s) by {}
            assert forall|s: ValidatorWorld|
                <ValidatorDomain as crate::domain::Domain>::state_inv(s) implies #[trigger] <
            ValidatorListeners<ConfiguredSampler> as crate::metrics::TickListener<
                ValidatorWorld,
                ValidatorGlobalMetrics,
            >>::state_pre(s) by {}
        }
        let out = self.engine.run();
        let r = SimulationResults {
            domain: "validator".to_owned(),
            records: out.records,
            listeners: out.listeners,
            failure: out.failure,
            trace: out.trace,
        };
        r
    }
}

/// Assemble a validator simulation from a validated scenario: the
/// domain, the global metrics collector, and the configured listeners.
/// Configuration errors are surfaced here, before any tick runs; the
/// listener configuration is checked first, as a runner cannot exist
/// without one.
pub fn bootstrap_validator(config: crate::config::ValidatorScenarioConfig) -> (r: Result<
    ValidatorRunner,
    crate::errors::ConfigError,
>)
    ensures
        match r {
            Ok(runner) => {
                &&& crate::config::listeners_check_err(config.listeners) is None
                &&& crate::config::scenario_check(config) is None
                &&& runner.inv()
                &&& runner.engine.max_ticks == config.simulation.max_ticks
                &&& runner.engine.domain.protocol.current_block == 0
            },
            Err(e) => crate::config::listeners_check_err(config.listeners) == Some(e) || (
            crate::config::listeners_check_err(config.listeners) is None
                && crate::config::scenario_check(config) == Some(e)),
        },
{
    let max_ticks = config.simulation.max_ticks;
    let listeners = match crate::config::build_validator_listeners(&config.listeners) {
        Ok(l) => l,
        Err(e) => {
            return Err(e);
        },
    };
    let domain = match config.into_domain() {
        Ok(d) => d,
        Err(e) => {
            return Err(e);
        },
    };
    Ok(
        ValidatorRunner {
            engine: SimulationEngine {
                domain,
                metrics: GlobalMetricsCollector,
                listeners,
                max_ticks,
            },
        },
    )
}

/// Over the results of a validator run that started at block 0: the
/// recorded block numbers are exactly 1, 2, 3, ... — the counter
/// advances by exactly one per tick and never decreases or repeats.
pub proof fn lemma_results_blocks_advance(pre: ValidatorRunner, r: SimulationResults)
    requires
        <ValidatorRunner as SimulationRunner>::results_ok(pre, r),
        pre.engine.domain.protocol.current_block == 0,
    ensures
        forall|i: int|
            0 <= i < r.records.records@.len() ==> (#[trigger] r.records.records@[i]).block == i
                + 1,
{
    let trace = r.trace@;
    let records = r.records.records@;
    crate::validator_domain::lemma_run_blocks_advance(trace);
    assert forall|i: int|
        0 <= i < records.len() implies (#[trigger] records[i]).block == i + 1 by {
        assert(records[i] == crate::global_metrics::global_metrics_spec(trace[i + 1]));
        assert(trace[i + 1].protocol.current_block == i + 1);
    }
}

/// The final survival state of a run is the survival collector's fold
/// over the full record stream.
pub proof fn lemma_results_survival(pre: ValidatorRunner, r: SimulationResults)
    requires
        <ValidatorRunner as SimulationRunner>::results_ok(pre, r),
    ensures
        r.listeners@.survival == crate::survival::observe_all(
            pre.engine.listeners@.survival,
            r.records.records@,
        ),
{
    crate::listeners::lemma_fold_survival(
        pre.engine.listeners@,
        r.trace@.skip(1),
        r.records.records@,
    );
}

/// Each optional outcome field transitions unset-to-set at most once
/// across a run: whatever value it holds after any prefix of the record
/// stream, it still holds at the end.
pub proof fn lemma_results_outcome_write_once(pre: ValidatorRunner, r: SimulationResults, k: int)
    requires
        <ValidatorRunner as SimulationRunner>::results_ok(pre, r),
        0 <= k <= r.records.records@.len(),
    ensures
        ({
            let mid = crate::survival::observe_all(
                pre.engine.listeners@.survival,
                r.records.records@.take(k),
            );
            let end = r.listeners@.survival;
            &&& mid.outcome.time_to_first_exit is Some ==> end.outcome.time_to_first_exit
                == mid.outcome.time_to_first_exit
            &&& mid.outcome.time_to_nc33_breach is Some ==> end.outcome.time_to_nc33_breach
                == mid.outcome.time_to_nc33_breach
            &&& mid.outcome.time_to_nc50_breach is Some ==> end.outcome.time_to_nc50_breach
                == mid.outcome.time_to_nc50_breach
            &&& mid.outcome.time_to_collapse is Some ==> end.outcome.time_to_collapse
                == mid.outcome.time_to_collapse
        }),
{
    let records = r.records.records@;
    let s0 = pre.engine.listeners@.survival;
    lemma_results_survival(pre, r);
    assert(records.take(k) + records.skip(k) =~= records);
    crate::survival::lemma_observe_all_append(s0, records.take(k), records.skip(k));
    crate::survival::lemma_observe_all_write_once(
        crate::survival::observe_all(s0, records.take(k)),
        records.skip(k),
    );
}

} // verus!
