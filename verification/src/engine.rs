//! The simulation engine: owns a domain, a metrics reducer and a tick
//! listener, drives the tick loop up to a configured bound, and collects
//! the per-tick record stream.
//!
//! The engine's contract exposes a ghost trace of the visited states:
//! one entry per completed tick plus the initial state. Every consecutive
//! pair is related by the domain's tick relation, every record is the
//! metrics reduction of the state it was taken from, and the final
//! listener state is the fold of the listener's step function over the
//! run.

use vstd::prelude::*;
use crate::domain::Domain;
use crate::errors::TerminalFailure;
use crate::metrics::{Metrics, MetricsRecorder, TickListener};

verus! {

/// What a run returns: the collected records, the final listener state,
/// the terminal failure if the domain reported one, and the ghost trace
/// of visited states.
pub struct RunOutcome<S, R, L> {
    pub records: MetricsRecorder<R>,
    pub listeners: L,
    pub failure: Option<TerminalFailure>,
    pub trace: Ghost<Seq<S>>,
}

/// The listener state after observing, in order, each state with its
/// record.
pub open spec fn observed_fold<S, G, L: TickListener<S, G>>(
    l0: L::V,
    states: Seq<S>,
    gs: Seq<G>,
) -> L::V
    recommends
        states.len() == gs.len(),
    decreases states.len(),
{
    if states.len() == 0 {
        l0
    } else {
        L::on_ticked(
            observed_fold::<S, G, L>(l0, states.drop_last(), gs.drop_last()),
            states.last(),
            gs.last(),
        )
    }
}

/// Everything the engine promises of a finished run, over the ghost
/// trace: lengths, the initial state, the per-tick transition relation,
/// the records, the listener fold, and the stopping condition.
pub open spec fn run_post<D, M, L>(e: SimulationEngine<D, M, L>, r: RunOutcome<
    D::State,
    M::Record,
    L,
>) -> bool where
    D: Domain,
    M: Metrics<State = D::State>,
    L: TickListener<D::State, M::Record>,
 {
    let trace = r.trace@;
    let records = r.records.records@;
    &&& trace.len() == records.len() + 1
    &&& records.len() <= e.max_ticks
    &&& D::init_rel(e.domain, trace[0])
    &&& forall|i: int| 0 <= i < trace.len() ==> D::state_inv(#[trigger] trace[i])
    &&& forall|i: int| 0 <= i < trace.len() - 1 ==> D::tick_rel(#[trigger] trace[i], trace[i + 1])
    &&& forall|i: int|
        0 <= i < records.len() ==> #[trigger] records[i] == M::record_spec(trace[i + 1])
    &&& r.listeners@ == observed_fold::<D::State, M::Record, L>(
        e.listeners@,
        trace.skip(1),
        records,
    )
    &&& match r.failure {
        None => records.len() == e.max_ticks,
        Some(f) => records.len() < e.max_ticks && exists|bad: D::State|
            D::tick_err(trace.last(), bad, f),
    }
}

/// The orchestrator: a domain, a metrics reducer, a composed tick
/// listener, and a tick bound.
pub struct SimulationEngine<D, M, L> where
    D: Domain,
    M: Metrics<State = D::State>,
    L: TickListener<D::State, M::Record>,
 {
    pub domain: D,
    pub metrics: M,
    pub listeners: L,
    pub max_ticks: u64,
}

impl<D, M, L> SimulationEngine<D, M, L> where
    D: Domain,
    M: Metrics<State = D::State>,
    L: TickListener<D::State, M::Record>,
 {
    /// Run the simulation: initialize the world from the domain, then for
    /// each tick advance the domain, reduce the state to a record, notify
    /// the listener, and append the record. The run stops at the tick
    /// bound, or immediately on a terminal domain failure, returning the
    /// records collected so far; no record is emitted for a failing tick.
    #[verifier::loop_isolation(false)]
    pub fn run(self) -> (r: RunOutcome<D::State, M::Record, L>)
        requires
            self.domain.inv(),
            self.listeners.inv(),
            forall|s: D::State| D::state_inv(s) ==> #[trigger] M::state_pre(s),
            forall|s: D::State| D::state_inv(s) ==> #[trigger] L::state_pre(s),
        ensures
            run_post(self, r),
    {
        let ghost d0 = self.domain;
        let ghost l0 = self.listeners@;
        let SimulationEngine { mut domain, mut metrics, mut listeners, max_ticks } = self;
        let mut state = domain.init_state();
        let mut recorder = MetricsRecorder::<M::Record>::new();
        let ghost mut trace: Seq<D::State> = seq![state];
        let mut i: u64 = 0;
        while i < max_ticks
            invariant
                i <= max_ticks,
                domain.inv(),
                listeners.inv(),
                forall|s: D::State| D::state_inv(s) ==> #[trigger] M::state_pre(s),
                forall|s: D::State| D::state_inv(s) ==> #[trigger] L::state_pre(s),
                trace.len() == i + 1,
                recorder.records@.len() == i,
                D::init_rel(d0, trace[0]),
                state == trace.last(),
                forall|k: int| 0 <= k < trace.len() ==> D::state_inv(#[trigger] trace[k]),
                forall|k: int|
                    0 <= k < trace.len() - 1 ==> D::tick_rel(#[trigger] trace[k], trace[k + 1]),
                forall|k: int|
                    0 <= k < recorder.records@.len() ==> #[trigger] recorder.records@[k]
                        == M::record_spec(trace[k + 1]),
                listeners@ == observed_fold::<D::State, M::Record, L>(
                    l0,
                    trace.skip(1),
                    recorder.records@,
                ),
            decreases max_ticks - i,
        {
            let res = domain.tick(&mut state);
            match res {
                Err(e) => {
                    proof {
                        assert(D::tick_err(trace.last(), state, e));
                    }
                    return RunOutcome {
                        records: recorder,
                        listeners,
                        failure: Some(e),
                        trace: Ghost(trace),
                    };
                },
                Ok(()) => {
                    let ghost trace2 = trace.push(state);
                    let g = metrics.record(&state);
                    let ghost l_pre = listeners@;
                    let ghost recs_pre = recorder.records@;
                    listeners.on_tick(&state, &g);
                    recorder.push(g);
                    proof {
                        let recs2 = recorder.records@;
                        assert(trace2.skip(1).len() == i + 1);
                        assert(trace2.skip(1).drop_last() =~= trace.skip(1));
                        assert(recs2.drop_last() =~= recs_pre);
                        assert(trace2.skip(1).last() == state);
                        assert(recs2.last() == g);
                        assert(observed_fold::<D::State, M::Record, L>(l0, trace2.skip(1), recs2)
                            == L::on_ticked(
                            observed_fold::<D::State, M::Record, L>(l0, trace.skip(1), recs_pre),
                            state,
                            g,
                        ));
                        trace = trace2;
                    }
                    i = i + 1;
                },
            }
        }
        RunOutcome { records: recorder, listeners, failure: None, trace: Ghost(trace) }
    }
}

} // verus!
