use simulation::agent::Decision;
use simulation::errors::TerminalFailure;
use simulation::state::{ProtocolState, Validator, ValidatorWorld, RATE_SCALE};
use simulation::validator_domain::tick_with_draws;

fn protocol(
    reward_per_block: u64,
    min_stake_required: u64,
    slashing_probability: u64,
    slashing_fraction: u64,
) -> ProtocolState {
    ProtocolState {
        reward_per_block,
        min_stake_required,
        slashing_probability,
        slashing_fraction,
        current_block: 0,
    }
}

fn validator(id: u64, stake: u64, active: bool) -> Validator {
    Validator {
        id,
        stake,
        balance: 0,
        active,
        operating_cost_per_block: 0,
        risk_aversion: 0,
        cooldown_blocks_remaining: 0,
        restake_ratio: 0,
    }
}

#[test]
fn tick_increments_block_and_restakes_reward() {
    let mut world = ValidatorWorld {
        protocol: protocol(100, 0, 0, 0),
        validators: vec![Validator { restake_ratio: RATE_SCALE / 2, ..validator(0, 1000, true) }],
    };
    let draws: Vec<u64> = vec![0];
    let r = tick_with_draws(&mut world, &draws);
    assert!(r.is_ok());
    assert_eq!(world.protocol.current_block, 1);
    // Reward 100: half restaked, half to balance.
    assert_eq!(world.validators[0].stake, 1050);
    assert_eq!(world.validators[0].balance, 50);
    assert!(world.validators[0].active);
}

#[test]
fn tick_slashes_below_draw_threshold() {
    // Certain slashing (probability 1, risk aversion 0), 10% fraction.
    let mut world = ValidatorWorld {
        protocol: protocol(0, 500, RATE_SCALE, RATE_SCALE / 10),
        validators: vec![validator(0, 1000, true)],
    };
    let draws: Vec<u64> = vec![RATE_SCALE - 1];
    let r = tick_with_draws(&mut world, &draws);
    assert!(r.is_ok());
    assert_eq!(world.validators[0].stake, 900);
    assert!(world.validators[0].active);
}

#[test]
fn tick_forces_exit_below_minimum_stake() {
    // A 60% slash takes the first validator below the minimum: forced
    // exit with the longer cooldown. The second validator's draw falls
    // above the 50% slashing probability, so it is untouched and the run
    // continues.
    let mut world = ValidatorWorld {
        protocol: protocol(0, 500, RATE_SCALE / 2, 600_000),
        validators: vec![validator(0, 1000, true), validator(1, 100_000, true)],
    };
    let draws: Vec<u64> = vec![0, RATE_SCALE - 1];
    let r = tick_with_draws(&mut world, &draws);
    assert!(r.is_ok());
    assert_eq!(world.validators[0].stake, 400);
    assert!(!world.validators[0].active);
    assert_eq!(world.validators[0].cooldown_blocks_remaining, 100);
    assert_eq!(world.validators[1].stake, 100_000);
    assert!(world.validators[1].active);
}

#[test]
fn tick_counts_down_cooldown() {
    let mut world = ValidatorWorld {
        protocol: protocol(0, 0, 0, 0),
        validators: vec![
            validator(0, 1000, true),
            Validator { cooldown_blocks_remaining: 5, ..validator(1, 1000, false) },
        ],
    };
    let draws: Vec<u64> = vec![0, 0];
    assert!(tick_with_draws(&mut world, &draws).is_ok());
    assert_eq!(world.validators[1].cooldown_blocks_remaining, 4);
    assert!(!world.validators[1].active);
}

#[test]
fn tick_join_waits_for_cooldown() {
    // An inactive validator with profit and enough stake joins only once
    // its cooldown has fully elapsed.
    let mut world = ValidatorWorld {
        protocol: protocol(100, 0, 0, 0),
        validators: vec![
            validator(0, 1000, true),
            Validator { cooldown_blocks_remaining: 1, ..validator(1, 1000, false) },
        ],
    };
    let draws: Vec<u64> = vec![0, 0];
    assert!(tick_with_draws(&mut world, &draws).is_ok());
    assert!(!world.validators[1].active);
    assert_eq!(world.validators[1].cooldown_blocks_remaining, 0);
    assert!(tick_with_draws(&mut world, &draws).is_ok());
    assert!(world.validators[1].active);
}

#[test]
fn tick_fails_with_no_active_validators() {
    let mut world = ValidatorWorld {
        protocol: protocol(100, 0, 0, 0),
        validators: vec![validator(0, 1000, false)],
    };
    let draws: Vec<u64> = vec![0];
    let r = tick_with_draws(&mut world, &draws);
    assert_eq!(r, Err(TerminalFailure::NoActiveValidators { block: 1 }));
}

#[test]
fn tick_fails_when_all_exit_voluntarily() {
    // Operating cost above any possible reward: the only validator leaves,
    // and the tick reports that everyone has exited.
    let mut world = ValidatorWorld {
        protocol: protocol(10, 0, 0, 0),
        validators: vec![Validator {
            operating_cost_per_block: 1_000_000,
            ..validator(0, 1000, true)
        }],
    };
    let draws: Vec<u64> = vec![0];
    let r = tick_with_draws(&mut world, &draws);
    assert_eq!(r, Err(TerminalFailure::AllValidatorsExited { block: 1 }));
    assert!(!world.validators[0].active);
    // Voluntary cooldown of 50, already counted down once this tick.
    assert_eq!(world.validators[0].cooldown_blocks_remaining, 49);
}

#[test]
fn tick_fails_when_all_slashed_out() {
    // Certain total slashing below the minimum for every validator.
    let mut world = ValidatorWorld {
        protocol: protocol(0, 500, RATE_SCALE, 900_000),
        validators: vec![validator(0, 1000, true), validator(1, 2000, true)],
    };
    let draws: Vec<u64> = vec![0, 0];
    let r = tick_with_draws(&mut world, &draws);
    assert_eq!(r, Err(TerminalFailure::AllSlashedOut { block: 1 }));
}

#[test]
fn failure_cause_and_block() {
    let f = TerminalFailure::AllSlashedOut { block: 7 };
    assert_eq!(f.cause(), "all validators slashed out");
    assert_eq!(f.block(), 7);
    let g = TerminalFailure::NoActiveValidators { block: 3 };
    assert_eq!(g.cause(), "no active validators");
    assert_eq!(g.block(), 3);
    let h = TerminalFailure::AllValidatorsExited { block: 4 };
    assert_eq!(h.cause(), "all validators exited");
    assert_eq!(h.block(), 4);
}

#[test]
fn decide_leaves_when_expected_slashing_cost_tips_profit() {
    // reward = 1000 * 1000 / 10000 = 100; operating cost 50; expected
    // slashing cost = 0.5 * 0.2 * 1000 * 0.6 = 60. Profit is negative,
    // so an active validator leaves; with no risk appetite the expected
    // cost is 0 and it stays.
    let p = ProtocolState {
        reward_per_block: 1000,
        min_stake_required: 0,
        slashing_probability: 500_000,
        slashing_fraction: 200_000,
        current_block: 0,
    };
    let risk_taker = Validator { risk_aversion: 600_000, ..validator(0, 1000, true) };
    let v = Validator { operating_cost_per_block: 50, ..risk_taker };
    assert_eq!(v.decide(&p, 10_000), Decision::Leave);
    let fearless = Validator { risk_aversion: 0, ..v };
    assert_eq!(fearless.decide(&p, 10_000), Decision::Stay);
}

#[test]
fn decide_join_requires_minimum_stake() {
    let p = ProtocolState {
        reward_per_block: 1000,
        min_stake_required: 2000,
        slashing_probability: 0,
        slashing_fraction: 0,
        current_block: 0,
    };
    // Profitable but under-staked: stays out.
    let poor = validator(0, 1000, false);
    assert_eq!(poor.decide(&p, 10_000), Decision::Stay);
    // Profitable and sufficiently staked: joins.
    let rich = validator(1, 2000, false);
    assert_eq!(rich.decide(&p, 10_000), Decision::Join);
}
