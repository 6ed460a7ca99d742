use simulation::config::{
    DistributionListenerConfig, ListenersConfig, MetricsConfig, ProtocolConfig,
    SamplingStrategyConfig, SimulationConfig, SurvivalListenerConfig, ValidatorConfig,
    ValidatorScenarioConfig, ValidatorTier,
};
use simulation::engine::SimulationEngine;
use simulation::errors::TerminalFailure;
use simulation::global_metrics::GlobalMetricsCollector;
use simulation::listeners::ValidatorListeners;
use simulation::runner::{bootstrap_validator, SimulationRunner};
use simulation::sampling::{ConfiguredSampler, EveryNBlocks, OnEvent};
use simulation::state::{ProtocolState, Validator, RATE_SCALE};
use simulation::survival::SimulationEvent;
use simulation::validator_domain::ValidatorDomain;

fn one_tier(count: u64) -> Vec<ValidatorTier> {
    vec![ValidatorTier {
        id_range_start: 0,
        id_range_end: count - 1,
        operating_cost_per_block: 0,
        risk_aversion: 0,
        restake_ratio: 0,
        description: None,
    }]
}

fn scenario(
    max_ticks: u64,
    count: u64,
    initial_stake: u64,
    protocol: ProtocolConfig,
    sampling: SamplingStrategyConfig,
) -> ValidatorScenarioConfig {
    ValidatorScenarioConfig {
        simulation: SimulationConfig { max_ticks },
        protocol,
        validators: ValidatorConfig { count, initial_stake, tiers: one_tier(count) },
        metrics: MetricsConfig { enabled: true, collectors: Vec::new() },
        listeners: ListenersConfig {
            survival: Some(SurvivalListenerConfig {
                enabled: true,
                liveness_threshold: 0,
                safety_threshold: 0,
            }),
            distribution: Some(DistributionListenerConfig {
                enabled: true,
                sampling_strategy: sampling,
            }),
        },
    }
}

#[test]
fn uniform_hundred_validators_stay_put() {
    // 100 validators with uniform stake 1000, no slashing, no costs: no
    // exits, both Nakamoto coefficients at their uniform-stake values on
    // every one of the 10 ticks.
    let cfg = scenario(
        10,
        100,
        1000,
        ProtocolConfig {
            reward_per_block: 0,
            min_stake_required: 500,
            slashing_probability: 0,
            slashing_fraction: 0,
        },
        SamplingStrategyConfig::EveryNBlocks { interval: 100_000 },
    );
    let runner = bootstrap_validator(cfg).unwrap();
    let results = runner.run();
    assert_eq!(results.domain, "validator");
    assert!(results.failure.is_none());
    assert_eq!(results.records.records.len(), 10);
    for (i, r) in results.records.records.iter().enumerate() {
        assert_eq!(r.block, i as u64 + 1);
        assert_eq!(r.active_validators, 100);
        assert_eq!(r.total_active_stake, 100_000);
        assert_eq!(r.nc33, 33);
        assert_eq!(r.nc50, 50);
    }
    assert_eq!(results.listeners.survival.outcome.time_to_first_exit, None);
    assert_eq!(results.listeners.survival.outcome.min_nc33, 33);
    assert_eq!(results.listeners.survival.outcome.min_nc50, 50);
}

#[test]
fn slashing_drains_the_pool_and_stops_early() {
    // Two validators, certain 50% slashing each tick. The small one is
    // forced below the minimum on the first tick; the large one decays
    // until it too is forced out, ending the run early with a terminal
    // failure and a nonempty partial record stream.
    let engine = SimulationEngine {
        domain: ValidatorDomain {
            protocol: ProtocolState {
                reward_per_block: 0,
                min_stake_required: 800,
                slashing_probability: RATE_SCALE,
                slashing_fraction: RATE_SCALE / 2,
                current_block: 0,
            },
            initial_validators: vec![
                Validator {
                    id: 0,
                    stake: 1000,
                    balance: 0,
                    active: true,
                    operating_cost_per_block: 0,
                    risk_aversion: 0,
                    cooldown_blocks_remaining: 0,
                    restake_ratio: 0,
                },
                Validator {
                    id: 1,
                    stake: 100_000,
                    balance: 0,
                    active: true,
                    operating_cost_per_block: 0,
                    risk_aversion: 0,
                    cooldown_blocks_remaining: 0,
                    restake_ratio: 0,
                },
            ],
        },
        metrics: GlobalMetricsCollector,
        listeners: ValidatorListeners::new(
            0,
            0,
            ConfiguredSampler::Periodic(EveryNBlocks { interval: 100_000 }),
        ),
        max_ticks: 20,
    };
    let out = engine.run();
    assert!(matches!(
        out.failure,
        Some(TerminalFailure::AllValidatorsExited { .. }) | Some(TerminalFailure::AllSlashedOut {
            ..
        })
    ));
    let n = out.records.records.len();
    assert!(n > 0);
    assert!(n < 20);
    // 100000 halves each tick: 50000, 25000, ..., forced out on tick 7.
    assert_eq!(out.failure, Some(TerminalFailure::AllSlashedOut { block: 7 }));
    assert_eq!(n, 6);
    // The small validator was already out on the first observed record,
    // so the baseline is 1: no first-exit milestone, but an immediate
    // collapse (a single active validator).
    assert_eq!(out.listeners.survival.outcome.time_to_first_exit, None);
    assert_eq!(out.listeners.survival.outcome.time_to_collapse, Some(1));
}

#[test]
fn periodic_sampling_every_ten_blocks() {
    // 25 ticks with a 10-block interval: snapshots exactly at blocks 10
    // and 20.
    let cfg = scenario(
        25,
        2,
        1000,
        ProtocolConfig {
            reward_per_block: 0,
            min_stake_required: 0,
            slashing_probability: 0,
            slashing_fraction: 0,
        },
        SamplingStrategyConfig::EveryNBlocks { interval: 10 },
    );
    let runner = bootstrap_validator(cfg).unwrap();
    let results = runner.run();
    assert!(results.failure.is_none());
    assert_eq!(results.records.records.len(), 25);
    let snaps = &results.listeners.distribution.records;
    assert_eq!(snaps.len(), 2);
    assert_eq!(snaps[0].block, 10);
    assert_eq!(snaps[1].block, 20);
    assert_eq!(snaps[0].stakes, vec![1000, 1000]);
    assert_eq!(snaps[0].top_1_share, RATE_SCALE / 2);
    assert_eq!(snaps[0].top_5_share, RATE_SCALE);
    assert_eq!(snaps[0].gini, 0);
}

#[test]
fn event_triggered_snapshot_fires_once() {
    // Four validators; a fresh join dilutes rewards until the two
    // high-cost validators leave on the third tick. The event-gated
    // sampler takes exactly one snapshot, on the first-exit tick.
    let make = |id: u64, stake: u64, cost: u64, active: bool, cooldown: u64| Validator {
        id,
        stake,
        balance: 0,
        active,
        operating_cost_per_block: cost,
        risk_aversion: 0,
        cooldown_blocks_remaining: cooldown,
        restake_ratio: 0,
    };
    let engine = SimulationEngine {
        domain: ValidatorDomain {
            protocol: ProtocolState {
                reward_per_block: 100,
                min_stake_required: 0,
                slashing_probability: 0,
                slashing_fraction: 0,
                current_block: 0,
            },
            initial_validators: vec![
                make(0, 10_000, 30, true, 0),
                make(1, 10_000, 30, true, 0),
                make(2, 10_000, 0, true, 0),
                make(3, 30_000, 0, false, 1),
            ],
        },
        metrics: GlobalMetricsCollector,
        listeners: ValidatorListeners::new(
            0,
            0,
            ConfiguredSampler::Triggered(OnEvent::new(SimulationEvent::FirstExit)),
        ),
        max_ticks: 5,
    };
    let out = engine.run();
    assert!(out.failure.is_none());
    assert_eq!(out.records.records.len(), 5);
    // Baseline 3 active; the join lifts it to 4; the two leavers drop it
    // to 2 on block 3, the first tick below the baseline.
    assert_eq!(out.records.records[0].active_validators, 3);
    assert_eq!(out.records.records[1].active_validators, 4);
    assert_eq!(out.records.records[2].active_validators, 2);
    assert_eq!(out.listeners.survival.outcome.time_to_first_exit, Some(3));
    let snaps = &out.listeners.distribution.records;
    assert_eq!(snaps.len(), 1);
    assert_eq!(snaps[0].block, 3);
    assert_eq!(snaps[0].stakes, vec![30_000, 10_000]);
    assert_eq!(snaps[0].top_1_share, 750_000);
    assert_eq!(snaps[0].gini, 250_000);
}
