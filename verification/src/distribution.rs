//! The stake distribution collector: on sampled ticks, a sorted-stake
//! snapshot with concentration summaries.

use vstd::prelude::*;
use crate::sampling::SamplingStrategy;
use crate::state::{world_ok, ValidatorWorld, MAX_VALIDATORS, RATE_SCALE};
use crate::stats::{
    active_stakes, collect_active_stakes, gini_from_sorted, gini_of, lemma_active_stakes_len,
    lemma_sum_upto_mono, lemma_sum_upto_nonneg, sort_desc, sort_stakes_desc, sum_all, sum_stakes,
    sum_upto,
};
use crate::survival::EventRegistry;

verus! {

/// `part / total` as a numerator over `RATE_SCALE`; 0 when the total is
/// zero.
pub open spec fn share_of(part: int, total: int) -> int {
    if total <= 0 {
        0
    } else {
        part * RATE_SCALE / total
    }
}

/// A snapshot of the active stake distribution on one sampled tick.
#[derive(Clone, Debug)]
pub struct StakeDistributionSnapshot {
    pub block: u64,
    /// Active stakes, sorted descending.
    pub stakes: Vec<u64>,
    /// Share of the largest stake in the total, over `RATE_SCALE`.
    pub top_1_share: u64,
    /// Share of the five largest stakes (fewer if fewer exist), over
    /// `RATE_SCALE`.
    pub top_5_share: u64,
    /// Gini coefficient of the distribution, over `RATE_SCALE`.
    pub gini: u64,
}

/// The mathematical content of a snapshot.
pub struct SnapshotView {
    pub block: u64,
    pub stakes: Seq<u64>,
    pub top_1_share: u64,
    pub top_5_share: u64,
    pub gini: u64,
}

impl View for StakeDistributionSnapshot {
    type V = SnapshotView;

    open spec fn view(&self) -> SnapshotView {
        SnapshotView {
            block: self.block,
            stakes: self.stakes@,
            top_1_share: self.top_1_share,
            top_5_share: self.top_5_share,
            gini: self.gini,
        }
    }
}

/// The snapshot taken at `block` over the (unsorted) active stakes:
/// stakes sorted descending, the top-1 and top-5 concentration shares,
/// and the Gini coefficient.
pub open spec fn snapshot_spec(block: u64, active: Seq<u64>) -> SnapshotView {
    let sorted = sort_desc(active);
    let total = sum_all(sorted);
    SnapshotView {
        block,
        stakes: sorted,
        top_1_share: share_of(sum_upto(sorted, 1), total) as u64,
        top_5_share: share_of(sum_upto(sorted, if sorted.len() < 5 {
            sorted.len() as int
        } else {
            5
        }), total) as u64,
        gini: gini_of(sorted) as u64,
    }
}

/// Captures snapshots of the active stake distribution, gated by a
/// sampling strategy; appends to an append-only sequence.
pub struct StakeDistributionCollector<S: SamplingStrategy> {
    pub sampler: S,
    pub records: Vec<StakeDistributionSnapshot>,
}

impl<S: SamplingStrategy> StakeDistributionCollector<S> {
    pub fn new(sampler: S) -> (r: Self)
        ensures
            r.sampler == sampler,
            r.records@.len() == 0,
    {
        StakeDistributionCollector { sampler, records: Vec::new() }
    }

    /// Ask the sampler about this tick and, on a hit with a nonempty
    /// active set, build the snapshot. The caller appends it; `records`
    /// is untouched here.
    pub fn record(&mut self, state: &ValidatorWorld, events: &EventRegistry) -> (r: Option<
        StakeDistributionSnapshot,
    >)
        requires
            old(self).sampler.inv(),
            world_ok(*state),
        ensures
            final(self).sampler.inv(),
            final(self).sampler == S::stepped(
                old(self).sampler,
                state.protocol.current_block,
                *events,
            ),
            final(self).records == old(self).records,
            ({
                let block = state.protocol.current_block;
                let active = active_stakes(state.validators@);
                let hit = S::samples(old(self).sampler, block, *events) && active.len() > 0;
                match r {
                    Some(snap) => hit && snap@ == snapshot_spec(block, active),
                    None => !hit,
                }
            }),
    {
        let block = state.protocol.current_block;
        if !self.sampler.should_sample(block, events) {
            return None;
        }
        let stakes = collect_active_stakes(&state.validators);
        if stakes.len() == 0 {
            return None;
        }
        proof {
            lemma_active_stakes_len(state.validators@);
            crate::state::lemma_active_count_nonneg(state.validators@);
        }
        let sorted = sort_stakes_desc(&stakes);
        let total = sum_stakes(&sorted);
        let n = sorted.len();
        proof {
            assert(sum_upto(sorted@, 1) == sum_upto(sorted@, 0) + sorted@[0]);
            assert(sum_upto(sorted@, 0) == 0);
        }
        let top_1_share: u64 = if total == 0 {
            0
        } else {
            proof {
                lemma_share_in_range(sorted@, 1);
            }
            (((sorted[0] as u128) * (RATE_SCALE as u128)) / total) as u64
        };
        let take5: usize = if n < 5 {
            n
        } else {
            5
        };
        let mut top5_sum: u128 = 0;
        let mut j: usize = 0;
        while j < take5
            invariant
                j <= take5,
                take5 <= n,
                n == sorted@.len(),
                top5_sum == sum_upto(sorted@, j as int),
                top5_sum <= 5 * 0xffff_ffff_ffff_ffffu64 as int,
                take5 <= 5,
        decreases take5 - j,
        {
            proof {
                lemma_sum_upto_nonneg(sorted@, j as int);
                crate::stats::lemma_sum_upto_bound(sorted@, j + 1, u64::MAX as int);
                assert((j + 1) * (u64::MAX as int) <= 5 * 0xffff_ffff_ffff_ffffu64 as int)
                    by (nonlinear_arith)
                    requires 0 <= j + 1 <= 5;
            }
            top5_sum = top5_sum + sorted[j] as u128;
            j = j + 1;
        }
        let top_5_share: u64 = if total == 0 {
            0
        } else {
            proof {
                lemma_share_in_range(sorted@, take5 as int);
            }
            ((top5_sum * (RATE_SCALE as u128)) / total) as u64
        };
        let gini = gini_from_sorted(&sorted);
        Some(StakeDistributionSnapshot { block, stakes: sorted, top_1_share, top_5_share, gini })
    }
}

/// A prefix share is between 0 and `RATE_SCALE`, and the scaled division
/// stays within `u128`.
proof fn lemma_share_in_range(s: Seq<u64>, k: int)
    requires
        0 <= k <= s.len(),
        s.len() <= MAX_VALIDATORS,
        sum_all(s) > 0,
    ensures
        0 <= share_of(sum_upto(s, k), sum_all(s)) <= RATE_SCALE,
        sum_upto(s, k) * RATE_SCALE <= (u128::MAX as int),
        share_of(sum_upto(s, k), sum_all(s)) == sum_upto(s, k) * RATE_SCALE / sum_all(s),
{
    let part = sum_upto(s, k);
    let total = sum_all(s);
    lemma_sum_upto_nonneg(s, k);
    lemma_sum_upto_mono(s, k, s.len() as int);
    crate::stats::lemma_sum_upto_bound(s, s.len() as int, u64::MAX as int);
    assert(total <= 0x100000 * 0xffff_ffff_ffff_ffffu64 as int) by (nonlinear_arith)
        requires
            total <= s.len() * (u64::MAX as int),
            0 <= s.len() <= 0x100000,
    ;
    assert(part * RATE_SCALE <= total * RATE_SCALE) by (nonlinear_arith)
        requires 0 <= part <= total;
    assert(total * RATE_SCALE <= (0x100000 * 0xffff_ffff_ffff_ffffu64 as int) * 0x100000)
        by (nonlinear_arith)
        requires 0 <= total <= 0x100000 * 0xffff_ffff_ffff_ffffu64 as int;
    vstd::arithmetic::div_mod::lemma_div_is_ordered(
        part * RATE_SCALE,
        total * RATE_SCALE,
        total,
    );
    vstd::arithmetic::div_mod::lemma_div_by_multiple(RATE_SCALE as int, total);
    assert(total * RATE_SCALE == RATE_SCALE * total) by (nonlinear_arith);
    vstd::arithmetic::div_mod::lemma_div_pos_is_pos(part * RATE_SCALE, total);
    assert(part * RATE_SCALE >= 0) by (nonlinear_arith)
        requires part >= 0;
}

} // verus!
