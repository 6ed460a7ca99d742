//! The validator domain's six-phase tick algorithm, specified phase by
//! phase and proved equal to its specification for every sequence of
//! slashing draws.

use vstd::prelude::*;
use vstd::pervasive::VecAdditionalExecFns;
use crate::agent::{decide_spec, Decision};
use crate::errors::TerminalFailure;
use crate::state::{
    active_stake_sum, protocol_ok, rate_ok, validator_ok, world_ok, ProtocolState, Validator,
    ValidatorWorld, FORCED_EXIT_COOLDOWN, RATE_SCALE, VOLUNTARY_EXIT_COOLDOWN,
};

verus! {

/// `a + b` clamped to the `u64` range.
pub open spec fn sat_add_u64(a: u64, b: int) -> u64
    recommends
        b >= 0,
{
    if a + b >= u64::MAX {
        u64::MAX
    } else {
        (a + b) as u64
    }
}

/// Applying a decision. A join takes effect only if no cooldown remains
/// (a cooldown always wins); a leave deactivates and starts the voluntary
/// cooldown.
pub open spec fn apply_decision(v: Validator, d: Decision) -> Validator {
    match d {
        Decision::Join => if v.cooldown_blocks_remaining == 0 {
            Validator { active: true, ..v }
        } else {
            v
        },
        Decision::Leave => Validator {
            active: false,
            cooldown_blocks_remaining: VOLUNTARY_EXIT_COOLDOWN,
            ..v
        },
        Decision::Stay => v,
    }
}

/// Phases 2 and 3: every validator decides from the same pre-mutation
/// snapshot (`p`, `total`), and the decisions are applied in place.
pub open spec fn decisions_applied(p: ProtocolState, vs: Seq<Validator>, total: int) -> Seq<
    Validator,
> {
    Seq::new(vs.len(), |i: int| apply_decision(vs[i], decide_spec(vs[i], p, total)))
}

/// Phase 4: every inactive validator with remaining cooldown counts it
/// down by one.
pub open spec fn cooldown_ticked(v: Validator) -> Validator {
    if !v.active && v.cooldown_blocks_remaining > 0 {
        Validator { cooldown_blocks_remaining: (v.cooldown_blocks_remaining - 1) as u64, ..v }
    } else {
        v
    }
}

pub open spec fn cooldowns_ticked(vs: Seq<Validator>) -> Seq<Validator> {
    Seq::new(vs.len(), |i: int| cooldown_ticked(vs[i]))
}

/// The probability that this validator is slashed this block, over
/// `RATE_SCALE`: `slashing_probability * (1 - risk_aversion)`.
pub open spec fn effective_slash_prob(p: ProtocolState, v: Validator) -> int
    recommends
        rate_ok(v.risk_aversion),
{
    p.slashing_probability * (RATE_SCALE - v.risk_aversion) / (RATE_SCALE as int)
}

/// Phase 6 for one validator: slashed exactly when its uniform draw falls
/// below its effective slashing probability. A slash confiscates
/// `stake * slashing_fraction`; if the remaining stake is below the
/// protocol minimum the validator is forced out under the longer cooldown.
pub open spec fn slash_applied(p: ProtocolState, v: Validator, draw: u64) -> Validator
    recommends
        rate_ok(v.risk_aversion),
        rate_ok(p.slashing_fraction),
{
    if v.active && (draw as int) < effective_slash_prob(p, v) {
        let slash_amount = v.stake * p.slashing_fraction / (RATE_SCALE as int);
        let new_stake = (v.stake - slash_amount) as u64;
        if new_stake < p.min_stake_required {
            Validator {
                stake: new_stake,
                active: false,
                cooldown_blocks_remaining: FORCED_EXIT_COOLDOWN,
                ..v
            }
        } else {
            Validator { stake: new_stake, ..v }
        }
    } else {
        v
    }
}

pub open spec fn slashes_applied(p: ProtocolState, vs: Seq<Validator>, draws: Seq<u64>) -> Seq<
    Validator,
>
    recommends
        draws.len() == vs.len(),
{
    Seq::new(vs.len(), |i: int| slash_applied(p, vs[i], draws[i]))
}

/// Phase 7 for one validator: each active validator earns
/// `reward_per_block * stake / total`; the restaked portion compounds
/// into stake and the remainder accrues to balance, each clamped to the
/// `u64` range.
pub open spec fn reward_applied(p: ProtocolState, v: Validator, total: int) -> Validator
    recommends
        total > 0,
        rate_ok(v.restake_ratio),
{
    if v.active {
        let reward = p.reward_per_block * v.stake / total;
        let restaked = reward * v.restake_ratio / (RATE_SCALE as int);
        let income = reward - restaked;
        Validator {
            stake: sat_add_u64(v.stake, restaked),
            balance: sat_add_u64(v.balance, income),
            ..v
        }
    } else {
        v
    }
}

pub open spec fn rewards_applied(p: ProtocolState, vs: Seq<Validator>, total: int) -> Seq<
    Validator,
> {
    Seq::new(vs.len(), |i: int| reward_applied(p, vs[i], total))
}

/// One whole tick, as a function of the pre-tick state and the slashing
/// draws: the post-tick protocol, the post-tick validators, and the
/// terminal failure if one of the three active-stake checks fails. On a
/// failure the state reflects the phases that ran before the check.
pub open spec fn tick_spec(p: ProtocolState, vs: Seq<Validator>, draws: Seq<u64>) -> (
    ProtocolState,
    Seq<Validator>,
    Option<TerminalFailure>,
)
    recommends
        draws.len() == vs.len(),
{
    let p1 = ProtocolState { current_block: sat_add_u64(p.current_block, 1), ..p };
    let b = p1.current_block;
    let total0 = active_stake_sum(vs);
    if total0 == 0 {
        (p1, vs, Some(TerminalFailure::NoActiveValidators { block: b }))
    } else {
        let vs1 = decisions_applied(p1, vs, total0);
        let vs2 = cooldowns_ticked(vs1);
        let total1 = active_stake_sum(vs2);
        if total1 == 0 {
            (p1, vs2, Some(TerminalFailure::AllValidatorsExited { block: b }))
        } else {
            let vs3 = slashes_applied(p1, vs2, draws);
            let total2 = active_stake_sum(vs3);
            if total2 == 0 {
                (p1, vs3, Some(TerminalFailure::AllSlashedOut { block: b }))
            } else {
                (p1, rewards_applied(p1, vs3, total2), None)
            }
        }
    }
}

/// Phases 2 and 3: decide for every validator from the pre-mutation
/// snapshot, then apply joins and exits in place. Safe to interleave
/// because a decision reads only the validator itself, the protocol, and
/// the snapshot total.
fn apply_decisions(validators: &mut Vec<Validator>, protocol: &ProtocolState, total: u128)
    requires
        total > 0,
        protocol_ok(*protocol),
        forall|k: int|
            0 <= k < old(validators)@.len() ==> validator_ok(#[trigger] old(validators)@[k]),
    ensures
        final(validators)@ == decisions_applied(*protocol, old(validators)@, total as int),
        forall|k: int|
            0 <= k < final(validators)@.len() ==> validator_ok(#[trigger] final(validators)@[k]),
{
    let ghost vs0 = validators@;
    let n = validators.len();
    let mut i: usize = 0;
    while i < n
        invariant
            i <= n,
            n == vs0.len(),
            validators@.len() == n,
            total > 0,
            protocol_ok(*protocol),
            forall|k: int| 0 <= k < n ==> validator_ok(#[trigger] vs0[k]),
            forall|k: int| i <= k < n ==> validators@[k] == vs0[k],
            forall|k: int|
                0 <= k < i ==> #[trigger] validators@[k] == apply_decision(
                    vs0[k],
                    decide_spec(vs0[k], *protocol, total as int),
                ),
            forall|k: int| 0 <= k < i ==> validator_ok(#[trigger] validators@[k]),
        decreases n - i,
    {
        let v = validators[i];
        proof {
            assert(v == vs0[i as int]);
            assert(validator_ok(v));
        }
        let d = v.decide(protocol, total);
        let nv = match d {
            Decision::Join => {
                if v.cooldown_blocks_remaining == 0 {
                    Validator { active: true, ..v }
                } else {
                    v
                }
            },
            Decision::Leave => Validator {
                active: false,
                cooldown_blocks_remaining: VOLUNTARY_EXIT_COOLDOWN,
                ..v
            },
            Decision::Stay => v,
        };
        validators.set(i, nv);
        i = i + 1;
    }
    proof {
        assert(validators@ =~= decisions_applied(*protocol, vs0, total as int));
    }
}

/// Phase 4: count down every inactive validator's remaining cooldown.
fn tick_cooldowns(validators: &mut Vec<Validator>)
    requires
        forall|k: int|
            0 <= k < old(validators)@.len() ==> validator_ok(#[trigger] old(validators)@[k]),
    ensures
        final(validators)@ == cooldowns_ticked(old(validators)@),
        forall|k: int|
            0 <= k < final(validators)@.len() ==> validator_ok(#[trigger] final(validators)@[k]),
{
    let ghost vs0 = validators@;
    let n = validators.len();
    let mut i: usize = 0;
    while i < n
        invariant
            i <= n,
            n == vs0.len(),
            validators@.len() == n,
            forall|k: int| 0 <= k < n ==> validator_ok(#[trigger] vs0[k]),
            forall|k: int| i <= k < n ==> validators@[k] == vs0[k],
            forall|k: int| 0 <= k < i ==> #[trigger] validators@[k] == cooldown_ticked(vs0[k]),
            forall|k: int| 0 <= k < i ==> validator_ok(#[trigger] validators@[k]),
        decreases n - i,
    {
        let v = validators[i];
        proof {
            assert(v == vs0[i as int]);
            assert(validator_ok(v));
        }
        if !v.active && v.cooldown_blocks_remaining > 0 {
            validators.set(
                i,
                Validator { cooldown_blocks_remaining: v.cooldown_blocks_remaining - 1, ..v },
            );
        } else {
            validators.set(i, v);
        }
        i = i + 1;
    }
    proof {
        assert(validators@ =~= cooldowns_ticked(vs0));
    }
}

/// Phase 6: one independent uniform draw per validator decides who is
/// slashed; a slash below the protocol minimum forces an exit.
fn apply_slashing(validators: &mut Vec<Validator>, protocol: &ProtocolState, draws: &Vec<u64>)
    requires
        protocol_ok(*protocol),
        draws@.len() == old(validators)@.len(),
        forall|k: int|
            0 <= k < old(validators)@.len() ==> validator_ok(#[trigger] old(validators)@[k]),
    ensures
        final(validators)@ == slashes_applied(*protocol, old(validators)@, draws@),
        forall|k: int|
            0 <= k < final(validators)@.len() ==> validator_ok(#[trigger] final(validators)@[k]),
{
    let ghost vs0 = validators@;
    let n = validators.len();
    let mut i: usize = 0;
    while i < n
        invariant
            i <= n,
            n == vs0.len(),
            validators@.len() == n,
            draws@.len() == n,
            protocol_ok(*protocol),
            forall|k: int| 0 <= k < n ==> validator_ok(#[trigger] vs0[k]),
            forall|k: int| i <= k < n ==> validators@[k] == vs0[k],
            forall|k: int|
                0 <= k < i ==> #[trigger] validators@[k] == slash_applied(
                    *protocol,
                    vs0[k],
                    draws@[k],
                ),
            forall|k: int| 0 <= k < i ==> validator_ok(#[trigger] validators@[k]),
        decreases n - i,
    {
        let v = validators[i];
        proof {
            assert(v == vs0[i as int]);
            assert(validator_ok(v));
        }
        if v.active {
            proof {
                assert(protocol.slashing_probability * (RATE_SCALE - v.risk_aversion) <= 0x100000
                    * 0x100000) by (nonlinear_arith)
                    requires
                        protocol.slashing_probability <= 0x100000,
                        0 <= RATE_SCALE - v.risk_aversion <= 0x100000,
                ;
                assert(v.stake * protocol.slashing_fraction <= (u128::MAX as int))
                    by (nonlinear_arith)
                    requires
                        v.stake <= 0xffff_ffff_ffff_ffffu64,
                        protocol.slashing_fraction <= 0x100000,
                ;
            }
            let eff: u128 = (protocol.slashing_probability as u128) * ((RATE_SCALE
                - v.risk_aversion) as u128) / (RATE_SCALE as u128);
            if (draws[i] as u128) < eff {
                let slash_amount_wide: u128 = (v.stake as u128) * (
                protocol.slashing_fraction as u128) / (RATE_SCALE as u128);
                proof {
                    assert(v.stake * protocol.slashing_fraction <= v.stake * RATE_SCALE)
                        by (nonlinear_arith)
                        requires
                            protocol.slashing_fraction <= RATE_SCALE,
                            0 <= v.stake,
                    ;
                    vstd::arithmetic::div_mod::lemma_div_is_ordered(
                        (v.stake * protocol.slashing_fraction) as int,
                        (v.stake * RATE_SCALE) as int,
                        RATE_SCALE as int,
                    );
                    vstd::arithmetic::div_mod::lemma_div_by_multiple(
                        v.stake as int,
                        RATE_SCALE as int,
                    );
                }
                let slash_amount: u64 = slash_amount_wide as u64;
                let new_stake: u64 = v.stake - slash_amount;
                if new_stake < protocol.min_stake_required {
                    validators.set(
                        i,
                        Validator {
                            stake: new_stake,
                            active: false,
                            cooldown_blocks_remaining: FORCED_EXIT_COOLDOWN,
                            ..v
                        },
                    );
                } else {
                    validators.set(i, Validator { stake: new_stake, ..v });
                }
            } else {
                validators.set(i, v);
            }
        } else {
            validators.set(i, v);
        }
        i = i + 1;
    }
    proof {
        assert(validators@ =~= slashes_applied(*protocol, vs0, draws@));
    }
}

/// Phase 7: distribute the block reward over the remaining active stake.
fn distribute_rewards(validators: &mut Vec<Validator>, protocol: &ProtocolState, total: u128)
    requires
        total > 0,
        total == active_stake_sum(old(validators)@),
        protocol_ok(*protocol),
        forall|k: int|
            0 <= k < old(validators)@.len() ==> validator_ok(#[trigger] old(validators)@[k]),
    ensures
        final(validators)@ == rewards_applied(*protocol, old(validators)@, total as int),
        forall|k: int|
            0 <= k < final(validators)@.len() ==> validator_ok(#[trigger] final(validators)@[k]),
{
    let ghost vs0 = validators@;
    let n = validators.len();
    let mut i: usize = 0;
    while i < n
        invariant
            i <= n,
            n == vs0.len(),
            validators@.len() == n,
            total > 0,
            total == active_stake_sum(vs0),
            protocol_ok(*protocol),
            forall|k: int| 0 <= k < n ==> validator_ok(#[trigger] vs0[k]),
            forall|k: int| i <= k < n ==> validators@[k] == vs0[k],
            forall|k: int|
                0 <= k < i ==> #[trigger] validators@[k] == reward_applied(
                    *protocol,
                    vs0[k],
                    total as int,
                ),
            forall|k: int| 0 <= k < i ==> validator_ok(#[trigger] validators@[k]),
        decreases n - i,
    {
        let v = validators[i];
        proof {
            assert(v == vs0[i as int]);
            assert(validator_ok(v));
        }
        if v.active {
            proof {
                assert(protocol.reward_per_block * v.stake <= (u128::MAX as int))
                    by (nonlinear_arith)
                    requires
                        v.stake <= 0xffff_ffff_ffff_ffffu64,
                        protocol.reward_per_block <= 0xffff_ffff_ffff_ffffu64,
                ;
                crate::state::lemma_active_stake_elem_le_sum(vs0, i as int);
                assert(protocol.reward_per_block * v.stake <= protocol.reward_per_block * (
                total as int)) by (nonlinear_arith)
                    requires
                        0 <= v.stake <= total as int,
                        0 <= protocol.reward_per_block,
                ;
                vstd::arithmetic::div_mod::lemma_div_is_ordered(
                    (protocol.reward_per_block * v.stake) as int,
                    (protocol.reward_per_block * (total as int)) as int,
                    total as int,
                );
                vstd::arithmetic::div_mod::lemma_div_by_multiple(
                    protocol.reward_per_block as int,
                    total as int,
                );
                assert(protocol.reward_per_block * (total as int) == (total as int)
                    * (protocol.reward_per_block as int)) by (nonlinear_arith);
            }
            let reward_wide: u128 = (protocol.reward_per_block as u128) * (v.stake as u128)
                / total;
            let reward: u64 = reward_wide as u64;
            proof {
                assert(reward * v.restake_ratio <= (u128::MAX as int)) by (nonlinear_arith)
                    requires
                        reward <= 0xffff_ffff_ffff_ffffu64,
                        v.restake_ratio <= 0x100000,
                ;
                assert(reward * v.restake_ratio <= reward * RATE_SCALE) by (nonlinear_arith)
                    requires
                        v.restake_ratio <= RATE_SCALE,
                        0 <= reward,
                ;
                vstd::arithmetic::div_mod::lemma_div_is_ordered(
                    (reward * v.restake_ratio) as int,
                    (reward * RATE_SCALE) as int,
                    RATE_SCALE as int,
                );
                vstd::arithmetic::div_mod::lemma_div_by_multiple(
                    reward as int,
                    RATE_SCALE as int,
                );
                vstd::arithmetic::div_mod::lemma_div_pos_is_pos(
                    (reward * v.restake_ratio) as int,
                    RATE_SCALE as int,
                );
            }
            let restaked: u64 = ((reward as u128) * (v.restake_ratio as u128) / (
            RATE_SCALE as u128)) as u64;
            let income: u64 = reward - restaked;
            let new_stake: u64 = if v.stake > u64::MAX - restaked {
                u64::MAX
            } else {
                v.stake + restaked
            };
            let new_balance: u64 = if v.balance > u64::MAX - income {
                u64::MAX
            } else {
                v.balance + income
            };
            validators.set(i, Validator { stake: new_stake, balance: new_balance, ..v });
        } else {
            validators.set(i, v);
        }
        i = i + 1;
    }
    proof {
        assert(validators@ =~= rewards_applied(*protocol, vs0, total as int));
    }
}

/// One tick of the validator domain, as a deterministic function of the
/// pre-tick world and one slashing draw per validator: exactly
/// [`tick_spec`] of the old state.
pub fn tick_with_draws(state: &mut ValidatorWorld, draws: &Vec<u64>) -> (r: Result<
    (),
    TerminalFailure,
>)
    requires
        world_ok(*old(state)),
        draws@.len() == old(state).validators@.len(),
    ensures
        world_ok(*final(state)),
        final(state).validators@.len() == old(state).validators@.len(),
        ({
            let t = tick_spec(old(state).protocol, old(state).validators@, draws@);
            &&& final(state).protocol == t.0
            &&& final(state).validators@ == t.1
            &&& r == (match t.2 {
                Some(e) => Err::<(), TerminalFailure>(e),
                None => Ok::<(), TerminalFailure>(()),
            })
        }),
{
    let ghost p0 = state.protocol;
    let ghost vs_in = state.validators@;
    let pre_block = state.protocol.current_block;
    let nb: u64 = if pre_block == u64::MAX {
        u64::MAX
    } else {
        pre_block + 1
    };
    state.protocol.current_block = nb;
    proof {
        assert(state.protocol == ProtocolState { current_block: sat_add_u64(p0.current_block, 1), ..p0 });
    }
    let total0 = crate::state::total_active_stake(&state.validators);
    if total0 == 0 {
        return Err(TerminalFailure::NoActiveValidators { block: nb });
    }
    let protocol_now = state.protocol;
    apply_decisions(&mut state.validators, &protocol_now, total0);
    tick_cooldowns(&mut state.validators);
    let total1 = crate::state::total_active_stake(&state.validators);
    if total1 == 0 {
        return Err(TerminalFailure::AllValidatorsExited { block: nb });
    }
    apply_slashing(&mut state.validators, &protocol_now, draws);
    let total2 = crate::state::total_active_stake(&state.validators);
    if total2 == 0 {
        return Err(TerminalFailure::AllSlashedOut { block: nb });
    }
    distribute_rewards(&mut state.validators, &protocol_now, total2);
    Ok(())
}

/// One uniform draw per validator, each in `[0, RATE_SCALE)`.
pub open spec fn valid_draws(draws: Seq<u64>, n: int) -> bool {
    &&& draws.len() == n
    &&& forall|i: int| 0 <= i < draws.len() ==> draws[i] < RATE_SCALE
}

/// The tick transition as a relation between worlds, for a given draw
/// sequence and reported outcome.
pub open spec fn tick_transition(
    pre: ValidatorWorld,
    post: ValidatorWorld,
    draws: Seq<u64>,
    e: Option<TerminalFailure>,
) -> bool {
    let t = tick_spec(pre.protocol, pre.validators@, draws);
    &&& post.protocol == t.0
    &&& post.validators@ == t.1
    &&& e == t.2
}

/// The validator economic model: protocol parameters and the initial
/// validator set, from which each run's world is initialized.
pub struct ValidatorDomain {
    pub protocol: ProtocolState,
    pub initial_validators: Vec<Validator>,
}

impl crate::domain::Domain for ValidatorDomain {
    type State = ValidatorWorld;

    open spec fn inv(&self) -> bool {
        world_ok(ValidatorWorld { protocol: self.protocol, validators: self.initial_validators })
    }

    open spec fn state_inv(s: ValidatorWorld) -> bool {
        world_ok(s)
    }

    open spec fn init_rel(d: ValidatorDomain, s: ValidatorWorld) -> bool {
        &&& s.protocol == d.protocol
        &&& s.validators@ == d.initial_validators@
    }

    /// There is one uniform draw per validator such that the tick is
    /// exactly [`tick_spec`] of the pre-tick state under those draws.
    open spec fn tick_rel(pre: ValidatorWorld, post: ValidatorWorld) -> bool {
        exists|draws: Seq<u64>|
            valid_draws(draws, pre.validators@.len() as int) && tick_transition(
                pre,
                post,
                draws,
                None,
            )
    }

    open spec fn tick_err(pre: ValidatorWorld, post: ValidatorWorld, e: TerminalFailure) -> bool {
        exists|draws: Seq<u64>|
            valid_draws(draws, pre.validators@.len() as int) && tick_transition(
                pre,
                post,
                draws,
                Some(e),
            )
    }

    fn init_state(&self) -> (s: ValidatorWorld) {
        let validators = self.initial_validators.clone();
        proof {
            assert(validators@ =~= self.initial_validators@);
        }
        ValidatorWorld { protocol: self.protocol, validators }
    }

    fn tick(&mut self, state: &mut ValidatorWorld) -> (r: Result<(), TerminalFailure>) {
        let n = state.validators.len();
        let mut draws: Vec<u64> = Vec::new();
        let mut i: usize = 0;
        while i < n
            invariant
                i <= n,
                draws@.len() == i,
                forall|k: int| 0 <= k < i ==> draws@[k] < RATE_SCALE,
            decreases n - i,
        {
            let d = crate::rng::draw_rate();
            draws.push(d);
            i = i + 1;
        }
        let r = tick_with_draws(state, &draws);
        proof {
            assert(valid_draws(draws@, old(state).validators@.len() as int));
            match r {
                Ok(()) => {
                    assert(tick_transition(*old(state), *state, draws@, None));
                },
                Err(e) => {
                    assert(tick_transition(*old(state), *state, draws@, Some(e)));
                },
            }
        }
        r
    }
}

/// What one successful tick does to the block counter, the validator
/// count, and each validator's cooldown: the block advances by exactly
/// one; a running cooldown counts down by exactly one and never goes
/// negative; a cooldown can only be (re)started by this tick's voluntary
/// exit or forced exit.
pub proof fn lemma_tick_rel_step(pre: ValidatorWorld, post: ValidatorWorld)
    requires
        world_ok(pre),
        <ValidatorDomain as crate::domain::Domain>::tick_rel(pre, post),
    ensures
        post.validators@.len() == pre.validators@.len(),
        pre.protocol.current_block < u64::MAX ==> post.protocol.current_block
            == pre.protocol.current_block + 1,
        pre.protocol.current_block == u64::MAX ==> post.protocol.current_block == u64::MAX,
        forall|j: int|
            0 <= j < pre.validators@.len() ==> {
                let c0 = (#[trigger] pre.validators@[j]).cooldown_blocks_remaining;
                let c1 = post.validators@[j].cooldown_blocks_remaining;
                &&& (c0 > 0 ==> c1 == c0 - 1)
                &&& (c0 == 0 ==> c1 == 0 || c1 == VOLUNTARY_EXIT_COOLDOWN - 1 || c1
                    == FORCED_EXIT_COOLDOWN)
            },
{
    let draws = choose|draws: Seq<u64>|
        valid_draws(draws, pre.validators@.len() as int) && tick_transition(
            pre,
            post,
            draws,
            None,
        );
    let p1 = ProtocolState {
        current_block: sat_add_u64(pre.protocol.current_block, 1),
        ..pre.protocol
    };
    let vs = pre.validators@;
    let total0 = active_stake_sum(vs);
    let vs1 = decisions_applied(p1, vs, total0);
    let vs2 = cooldowns_ticked(vs1);
    let vs3 = slashes_applied(p1, vs2, draws);
    let total2 = active_stake_sum(vs3);
    assert forall|j: int|
        0 <= j < pre.validators@.len() implies {
        let c0 = (#[trigger] pre.validators@[j]).cooldown_blocks_remaining;
        let c1 = post.validators@[j].cooldown_blocks_remaining;
        &&& (c0 > 0 ==> c1 == c0 - 1)
        &&& (c0 == 0 ==> c1 == 0 || c1 == VOLUNTARY_EXIT_COOLDOWN - 1 || c1
            == FORCED_EXIT_COOLDOWN)
    } by {
        let v = vs[j];
        assert(validator_ok(v));
        assert(vs1[j] == apply_decision(v, decide_spec(v, p1, total0)));
        assert(vs2[j] == cooldown_ticked(vs1[j]));
        assert(vs3[j] == slash_applied(p1, vs2[j], draws[j]));
        assert(post.validators@[j] == reward_applied(p1, vs3[j], total2));
    }
}

/// The block counter alone: one successful tick advances it by exactly
/// one (saturating only at the far end of the `u64` range).
pub proof fn lemma_tick_rel_block(pre: ValidatorWorld, post: ValidatorWorld)
    requires
        <ValidatorDomain as crate::domain::Domain>::tick_rel(pre, post),
    ensures
        post.protocol.current_block == sat_add_u64(pre.protocol.current_block, 1),
{
    let draws = choose|draws: Seq<u64>|
        valid_draws(draws, pre.validators@.len() as int) && tick_transition(
            pre,
            post,
            draws,
            None,
        );
}

/// Over a whole run starting at block 0, the block counter is exactly
/// the number of completed ticks: it increases by exactly one per tick
/// and never decreases or repeats.
proof fn lemma_blocks_upto(trace: Seq<ValidatorWorld>, i: int)
    requires
        0 <= i < trace.len(),
        i <= u64::MAX as int,
        trace[0].protocol.current_block == 0,
        forall|k: int|
            0 <= k < trace.len() - 1 ==> <ValidatorDomain as crate::domain::Domain>::tick_rel(
                #[trigger] trace[k],
                trace[k + 1],
            ),
    ensures
        trace[i].protocol.current_block == i,
    decreases i,
{
    if i > 0 {
        lemma_blocks_upto(trace, i - 1);
        lemma_tick_rel_block(trace[i - 1], trace[i]);
    }
}

/// Over a whole run starting at block 0, the block counter is exactly
/// the number of completed ticks: it increases by exactly one per tick
/// and never decreases or repeats.
pub proof fn lemma_run_blocks_advance(trace: Seq<ValidatorWorld>)
    requires
        1 <= trace.len() <= u64::MAX as int + 1,
        trace[0].protocol.current_block == 0,
        forall|i: int|
            0 <= i < trace.len() - 1 ==> <ValidatorDomain as crate::domain::Domain>::tick_rel(
                #[trigger] trace[i],
                trace[i + 1],
            ),
    ensures
        forall|i: int|
            0 <= i < trace.len() ==> (#[trigger] trace[i]).protocol.current_block == i,
{
    assert forall|i: int|
        0 <= i < trace.len() implies (#[trigger] trace[i]).protocol.current_block == i by {
        lemma_blocks_upto(trace, i);
    }
}

/// Over a whole run, each validator's cooldown never goes negative and
/// decreases by at most one per tick; any other change is the start of a
/// voluntary or forced exit cooldown.
pub proof fn lemma_run_cooldowns(trace: Seq<ValidatorWorld>)
    requires
        forall|i: int| 0 <= i < trace.len() ==> world_ok(#[trigger] trace[i]),
        forall|i: int|
            0 <= i < trace.len() - 1 ==> <ValidatorDomain as crate::domain::Domain>::tick_rel(
                #[trigger] trace[i],
                trace[i + 1],
            ),
    ensures
        forall|i: int, j: int|
            #![trigger trace[i].validators@[j]]
            0 <= i < trace.len() - 1 && 0 <= j < trace[i].validators@.len() ==> {
                let c0 = trace[i].validators@[j].cooldown_blocks_remaining;
                let c1 = trace[i + 1].validators@[j].cooldown_blocks_remaining;
                &&& (c0 > 0 ==> c1 == c0 - 1)
                &&& (c0 == 0 ==> c1 == 0 || c1 == VOLUNTARY_EXIT_COOLDOWN - 1 || c1
                    == FORCED_EXIT_COOLDOWN)
            },
{
    assert forall|i: int, j: int|
        #![trigger trace[i].validators@[j]]
        0 <= i < trace.len() - 1 && 0 <= j < trace[i].validators@.len() implies {
        let c0 = trace[i].validators@[j].cooldown_blocks_remaining;
        let c1 = trace[i + 1].validators@[j].cooldown_blocks_remaining;
        &&& (c0 > 0 ==> c1 == c0 - 1)
        &&& (c0 == 0 ==> c1 == 0 || c1 == VOLUNTARY_EXIT_COOLDOWN - 1 || c1
            == FORCED_EXIT_COOLDOWN)
    } by {
        lemma_tick_rel_step(trace[i], trace[i + 1]);
    }
}

} // verus!
