//! The global metrics collector: active-validator count, total active
//! stake, and the two Nakamoto coefficients, computed fresh each tick.

use vstd::prelude::*;
use crate::metrics::Metrics;
use crate::state::{
    active_count, active_stake_sum, count_active, total_active_stake, world_ok, ValidatorWorld,
    MAX_VALIDATORS,
};
use crate::stats::{
    active_stakes, collect_active_stakes, compute_nakamoto_coefficient, lemma_active_stakes_len,
    lemma_active_stakes_sum, nakamoto_of, sort_desc, sort_stakes_desc, sum_all,
};

verus! {

/// Numerator of the liveness decentralization threshold (33%).
pub const NC33_NUM: u64 = 33;

/// Numerator of the safety decentralization threshold (50%).
pub const NC50_NUM: u64 = 50;

/// Denominator of both decentralization thresholds.
pub const NC_DEN: u64 = 100;

/// One per-tick aggregate record of the validator world.
#[derive(Clone, Copy, Debug, PartialEq, Eq)]
pub struct ValidatorGlobalMetrics {
    pub block: u64,
    pub active_validators: usize,
    pub total_active_stake: u128,
    pub nc33: usize,
    pub nc50: usize,
}

/// The record emitted for a world: counts and stake over the active set,
/// and the Nakamoto coefficients of the descending active stake list at
/// the 33% and 50% thresholds.
pub open spec fn global_metrics_spec(w: ValidatorWorld) -> ValidatorGlobalMetrics {
    let sorted = sort_desc(active_stakes(w.validators@));
    ValidatorGlobalMetrics {
        block: w.protocol.current_block,
        active_validators: active_count(w.validators@) as usize,
        total_active_stake: active_stake_sum(w.validators@) as u128,
        nc33: nakamoto_of(sorted, NC33_NUM, NC_DEN) as usize,
        nc50: nakamoto_of(sorted, NC50_NUM, NC_DEN) as usize,
    }
}

/// Stateless reducer of a world to its [`ValidatorGlobalMetrics`].
pub struct GlobalMetricsCollector;

impl Metrics for GlobalMetricsCollector {
    type State = ValidatorWorld;

    type Record = ValidatorGlobalMetrics;

    open spec fn state_pre(s: ValidatorWorld) -> bool {
        world_ok(s)
    }

    open spec fn record_spec(s: ValidatorWorld) -> ValidatorGlobalMetrics {
        global_metrics_spec(s)
    }

    open spec fn stepped(pre: Self, s: ValidatorWorld) -> Self {
        pre
    }

    fn record(&mut self, state: &ValidatorWorld) -> (r: ValidatorGlobalMetrics) {
        let n_active = count_active(&state.validators);
        let total = total_active_stake(&state.validators);
        let stakes = collect_active_stakes(&state.validators);
        let sorted = sort_stakes_desc(&stakes);
        proof {
            lemma_active_stakes_len(state.validators@);
            crate::state::lemma_active_count_nonneg(state.validators@);
            lemma_active_stakes_sum(state.validators@);
            assert(sorted@.len() <= MAX_VALIDATORS);
            assert(sum_all(sorted@) == total as int);
        }
        let nc33 = compute_nakamoto_coefficient(&sorted, NC33_NUM, NC_DEN, total);
        let nc50 = compute_nakamoto_coefficient(&sorted, NC50_NUM, NC_DEN, total);
        ValidatorGlobalMetrics {
            block: state.protocol.current_block,
            active_validators: n_active,
            total_active_stake: total,
            nc33,
            nc50,
        }
    }
}

} // verus!
