//! The per-validator, per-tick decision rule: join, leave, or stay, from
//! a snapshot of the world taken before any mutation.

use vstd::prelude::*;
use crate::state::{ProtocolState, Validator, RATE_SCALE, protocol_ok, rate_ok};

verus! {

/// Transient per-validator, per-tick decision; computed and consumed
/// within one tick.
#[derive(Clone, Copy, Debug, PartialEq, Eq, Structural)]
pub enum Decision {
    Join,
    Leave,
    Stay,
}

/// The reward a stake of `stake` earns out of `reward_per_block` when the
/// total active stake is `total`: `reward_per_block * stake / total`.
pub open spec fn reward_share(reward_per_block: u64, stake: u64, total: int) -> int
    recommends
        total > 0,
{
    reward_per_block * stake / total
}

/// The expected per-block cost of slashing for this validator: an
/// expectation proportional to current stake and risk appetite,
/// `slashing_probability * slashing_fraction * stake * risk_aversion`
/// with the three fractions each scaled by `RATE_SCALE`.
pub open spec fn expected_slashing_cost(p: ProtocolState, v: Validator) -> int {
    p.slashing_probability * p.slashing_fraction * v.stake * v.risk_aversion / (
    RATE_SCALE * RATE_SCALE * RATE_SCALE)
}

/// The decision rule. A validator in cooldown always stays. Otherwise the
/// risk-adjusted profit `reward - operating_cost - expected_slashing_cost`
/// decides: an active validator leaves exactly when it is negative; an
/// inactive one joins exactly when it is positive and its stake meets the
/// protocol minimum.
pub open spec fn decide_spec(v: Validator, p: ProtocolState, total: int) -> Decision
    recommends
        total > 0,
{
    if v.cooldown_blocks_remaining > 0 {
        Decision::Stay
    } else {
        let reward = reward_share(p.reward_per_block, v.stake, total);
        let cost = v.operating_cost_per_block + expected_slashing_cost(p, v);
        if v.active {
            if reward < cost {
                Decision::Leave
            } else {
                Decision::Stay
            }
        } else {
            if reward > cost && v.stake >= p.min_stake_required {
                Decision::Join
            } else {
                Decision::Stay
            }
        }
    }
}

impl Validator {
    /// Decide this validator's action for the tick, from the pre-tick
    /// snapshot of the total active stake.
    pub fn decide(&self, protocol: &ProtocolState, total_active_stake: u128) -> (d: Decision)
        requires
            total_active_stake > 0,
            protocol_ok(*protocol),
            rate_ok(self.risk_aversion),
        ensures
            d == decide_spec(*self, *protocol, total_active_stake as int),
    {
        if self.cooldown_blocks_remaining > 0 {
            return Decision::Stay;
        }
        proof {
            assert(protocol.reward_per_block * self.stake <= (u128::MAX as int))
                by (nonlinear_arith)
                requires
                    self.stake <= 0xffff_ffff_ffff_ffffu64,
                    protocol.reward_per_block <= 0xffff_ffff_ffff_ffffu64,
            ;
            assert(
                protocol.slashing_probability * protocol.slashing_fraction <= 0x100000 * 0x100000
            ) by (nonlinear_arith)
                requires
                    protocol.slashing_probability <= 0x100000,
                    protocol.slashing_fraction <= 0x100000,
            ;
            assert(
                protocol.slashing_probability * protocol.slashing_fraction * self.stake <= (
                0x100000 * 0x100000) * 0xffff_ffff_ffff_ffffu64
            ) by (nonlinear_arith)
                requires
                    0 <= protocol.slashing_probability * protocol.slashing_fraction <= 0x100000
                        * 0x100000,
                    0 <= self.stake <= 0xffff_ffff_ffff_ffffu64,
            ;
            assert(
                protocol.slashing_probability * protocol.slashing_fraction * self.stake
                    * self.risk_aversion <= ((0x100000 * 0x100000) * 0xffff_ffff_ffff_ffffu64)
                    * 0x100000
            ) by (nonlinear_arith)
                requires
                    0 <= protocol.slashing_probability * protocol.slashing_fraction * self.stake
                        <= (0x100000 * 0x100000) * 0xffff_ffff_ffff_ffffu64,
                    self.risk_aversion <= 0x100000,
            ;
        }
        let reward: u128 = (protocol.reward_per_block as u128) * (self.stake as u128)
            / total_active_stake;
        let scale3: u128 = (RATE_SCALE as u128) * (RATE_SCALE as u128) * (RATE_SCALE as u128);
        let slash_cost: u128 = (protocol.slashing_probability as u128) * (
        protocol.slashing_fraction as u128) * (self.stake as u128) * (self.risk_aversion as u128)
            / scale3;
        proof {
            vstd::arithmetic::div_mod::lemma_div_nonincreasing(
                (protocol.slashing_probability * protocol.slashing_fraction * self.stake
                    * self.risk_aversion) as int,
                scale3 as int,
            );
        }
        let cost: u128 = (self.operating_cost_per_block as u128) + slash_cost;
        if self.active {
            if reward < cost {
                Decision::Leave
            } else {
                Decision::Stay
            }
        } else {
            if reward > cost && self.stake >= protocol.min_stake_required {
                Decision::Join
            } else {
                Decision::Stay
            }
        }
    }
}

} // verus!
