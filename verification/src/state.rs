//! The validator world: protocol parameters, per-validator state, and the
//! spec-level aggregates (active stake, active count) that the tick
//! algorithm and the metrics pipeline are specified against.

use vstd::prelude::*;

verus! {

/// Fixed denominator for fractional quantities. A probability or ratio `x`
/// in `[0, 1]` is represented by a numerator in `[0, RATE_SCALE]`, meaning
/// `x = numerator / RATE_SCALE`.
pub const RATE_SCALE: u64 = 1_000_000;

/// Representation bound on the validator count. Keeping the count below
/// this bound lets every aggregate in the statistics pipeline fit in `u128`.
pub const MAX_VALIDATORS: usize = 1_048_576;

/// Cooldown imposed on a voluntary exit, in blocks.
pub const VOLUNTARY_EXIT_COOLDOWN: u64 = 50;

/// Cooldown imposed on a forced (slashed-below-minimum) exit, in blocks.
pub const FORCED_EXIT_COOLDOWN: u64 = 100;

/// Process-wide protocol parameters plus the monotonically increasing
/// block counter.
#[derive(Clone, Copy, Debug, PartialEq, Eq, Structural)]
pub struct ProtocolState {
    pub reward_per_block: u64,
    pub min_stake_required: u64,
    /// Probability of a slashing event per validator per block, over `RATE_SCALE`.
    pub slashing_probability: u64,
    /// Fraction of stake confiscated by one slashing event, over `RATE_SCALE`.
    pub slashing_fraction: u64,
    pub current_block: u64,
}

/// One simulated validator. `id` is stable for the run; `stake`, `balance`,
/// `active` and `cooldown_blocks_remaining` are mutated each tick.
#[derive(Clone, Copy, Debug, PartialEq, Eq, Structural)]
pub struct Validator {
    pub id: u64,
    pub stake: u64,
    pub balance: u64,
    pub active: bool,
    pub operating_cost_per_block: u64,
    /// Risk aversion in `[0, 1]`, over `RATE_SCALE`.
    pub risk_aversion: u64,
    pub cooldown_blocks_remaining: u64,
    /// Fraction of earned reward compounded back into stake, over `RATE_SCALE`.
    pub restake_ratio: u64,
}

/// The single mutable simulation state, owned by the engine for the run.
/// Index position in `validators` is a validator's stable identity for
/// in-place updates within a tick.
#[derive(Clone, Debug)]
pub struct ValidatorWorld {
    pub protocol: ProtocolState,
    pub validators: Vec<Validator>,
}

/// A fractional parameter is a numerator over `RATE_SCALE`.
pub open spec fn rate_ok(r: u64) -> bool {
    r <= RATE_SCALE
}

pub open spec fn protocol_ok(p: ProtocolState) -> bool {
    &&& rate_ok(p.slashing_probability)
    &&& rate_ok(p.slashing_fraction)
}

/// Per-validator well-formedness: fractional parameters in range, and a
/// nonzero cooldown only while inactive.
pub open spec fn validator_ok(v: Validator) -> bool {
    &&& rate_ok(v.risk_aversion)
    &&& rate_ok(v.restake_ratio)
    &&& v.cooldown_blocks_remaining > 0 ==> !v.active
}

/// World well-formedness: established at initialization and preserved by
/// every tick.
pub open spec fn world_ok(w: ValidatorWorld) -> bool {
    &&& protocol_ok(w.protocol)
    &&& w.validators@.len() <= MAX_VALIDATORS
    &&& forall|i: int| 0 <= i < w.validators@.len() ==> validator_ok(#[trigger] w.validators@[i])
}

/// Sum of the stakes of the active validators, as a mathematical integer.
pub open spec fn active_stake_sum(vs: Seq<Validator>) -> int
    decreases vs.len(),
{
    if vs.len() == 0 {
        0
    } else {
        active_stake_sum(vs.drop_last()) + if vs.last().active {
            vs.last().stake as int
        } else {
            0
        }
    }
}

/// Number of active validators.
pub open spec fn active_count(vs: Seq<Validator>) -> int
    decreases vs.len(),
{
    if vs.len() == 0 {
        0
    } else {
        active_count(vs.drop_last()) + if vs.last().active {
            1int
        } else {
            0int
        }
    }
}

pub proof fn lemma_active_stake_sum_nonneg(vs: Seq<Validator>)
    ensures
        active_stake_sum(vs) >= 0,
    decreases vs.len(),
{
    if vs.len() > 0 {
        lemma_active_stake_sum_nonneg(vs.drop_last());
    }
}

pub proof fn lemma_active_stake_sum_bound(vs: Seq<Validator>)
    ensures
        active_stake_sum(vs) <= vs.len() * (u64::MAX as int),
    decreases vs.len(),
{
    if vs.len() > 0 {
        lemma_active_stake_sum_bound(vs.drop_last());
        assert(vs.len() * (u64::MAX as int) == (vs.len() - 1) * (u64::MAX as int) + u64::MAX)
            by (nonlinear_arith);
    }
}

/// Each active validator's stake is at most the sum of all active stakes.
pub proof fn lemma_active_stake_elem_le_sum(vs: Seq<Validator>, i: int)
    requires
        0 <= i < vs.len(),
        vs[i].active,
    ensures
        vs[i].stake as int <= active_stake_sum(vs),
    decreases vs.len(),
{
    lemma_active_stake_sum_nonneg(vs.drop_last());
    if i < vs.len() - 1 {
        lemma_active_stake_elem_le_sum(vs.drop_last(), i);
    }
}

pub proof fn lemma_active_count_nonneg(vs: Seq<Validator>)
    ensures
        0 <= active_count(vs) <= vs.len(),
    decreases vs.len(),
{
    if vs.len() > 0 {
        lemma_active_count_nonneg(vs.drop_last());
    }
}

/// If no validator is active, the active stake sum is zero, and conversely
/// a zero active count forces a zero sum.
pub proof fn lemma_active_count_zero_sum_zero(vs: Seq<Validator>)
    requires
        active_count(vs) == 0,
    ensures
        active_stake_sum(vs) == 0,
    decreases vs.len(),
{
    if vs.len() > 0 {
        lemma_active_count_nonneg(vs.drop_last());
        lemma_active_count_zero_sum_zero(vs.drop_last());
    }
}

/// Total stake of the currently active validators, computed in `u128` so
/// that no overflow is possible for any world.
pub fn total_active_stake(validators: &Vec<Validator>) -> (r: u128)
    ensures
        r == active_stake_sum(validators@),
{
    let mut total: u128 = 0;
    let n = validators.len();
    let mut i: usize = 0;
    while i < n
        invariant
            0 <= i <= n,
            n == validators@.len(),
            total == active_stake_sum(validators@.take(i as int)),
        decreases n - i,
    {
        proof {
            assert(validators@.take(i + 1).drop_last() =~= validators@.take(i as int));
            assert(validators@.take(i + 1).last() == validators@[i as int]);
            lemma_active_stake_sum_nonneg(validators@.take(i as int));
            lemma_active_stake_sum_bound(validators@.take(i as int));
            assert(i as int * (u64::MAX as int) < (u128::MAX as int) - (u64::MAX as int))
                by (nonlinear_arith)
                requires i as int <= usize::MAX as int;
        }
        if validators[i].active {
            total = total + validators[i].stake as u128;
        }
        i = i + 1;
    }
    proof {
        assert(validators@.take(n as int) =~= validators@);
    }
    total
}

/// Number of currently active validators.
pub fn count_active(validators: &Vec<Validator>) -> (r: usize)
    ensures
        r == active_count(validators@),
{
    let mut count: usize = 0;
    let n = validators.len();
    let mut i: usize = 0;
    while i < n
        invariant
            0 <= i <= n,
            n == validators@.len(),
            count == active_count(validators@.take(i as int)),
        decreases n - i,
    {
        proof {
            assert(validators@.take(i + 1).drop_last() =~= validators@.take(i as int));
            assert(validators@.take(i + 1).last() == validators@[i as int]);
            lemma_active_count_nonneg(validators@.take(i as int));
        }
        if validators[i].active {
            count = count + 1;
        }
        i = i + 1;
    }
    proof {
        assert(validators@.take(n as int) =~= validators@);
    }
    count
}

} // verus!
