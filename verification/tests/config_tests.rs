use simulation::config::{
    build_validator_listeners, DistributionListenerConfig, ListenersConfig, MetricsConfig,
    ProtocolConfig, SamplingStrategyConfig, SimulationConfig, SurvivalListenerConfig,
    ValidatorConfig, ValidatorScenarioConfig, ValidatorTier,
};
use simulation::errors::ConfigError;
use simulation::state::{MAX_VALIDATORS, RATE_SCALE};
use simulation::survival::SimulationEvent;

fn tier(start: u64, end: u64, cost: u64) -> ValidatorTier {
    ValidatorTier {
        id_range_start: start,
        id_range_end: end,
        operating_cost_per_block: cost,
        risk_aversion: 0,
        restake_ratio: 0,
        description: None,
    }
}

fn base_config(count: u64, tiers: Vec<ValidatorTier>) -> ValidatorScenarioConfig {
    ValidatorScenarioConfig {
        simulation: SimulationConfig { max_ticks: 5 },
        protocol: ProtocolConfig {
            reward_per_block: 10,
            min_stake_required: 0,
            slashing_probability: 0,
            slashing_fraction: 0,
        },
        validators: ValidatorConfig { count, initial_stake: 1000, tiers },
        metrics: MetricsConfig { enabled: true, collectors: Vec::new() },
        listeners: ListenersConfig { survival: None, distribution: None },
    }
}

#[test]
fn into_domain_maps_tiers_by_id_range() {
    let cfg = base_config(5, vec![tier(0, 1, 7), tier(2, 4, 9)]);
    let domain = cfg.into_domain().unwrap();
    assert_eq!(domain.initial_validators.len(), 5);
    for (i, v) in domain.initial_validators.iter().enumerate() {
        assert_eq!(v.id, i as u64);
        assert_eq!(v.stake, 1000);
        assert_eq!(v.balance, 0);
        assert!(v.active);
        assert_eq!(v.cooldown_blocks_remaining, 0);
    }
    assert_eq!(domain.initial_validators[0].operating_cost_per_block, 7);
    assert_eq!(domain.initial_validators[1].operating_cost_per_block, 7);
    assert_eq!(domain.initial_validators[2].operating_cost_per_block, 9);
    assert_eq!(domain.initial_validators[4].operating_cost_per_block, 9);
    assert_eq!(domain.protocol.current_block, 0);
    assert_eq!(domain.protocol.reward_per_block, 10);
}

#[test]
fn into_domain_uses_first_matching_tier() {
    let cfg = base_config(2, vec![tier(0, 1, 7), tier(0, 1, 9)]);
    let domain = cfg.into_domain().unwrap();
    assert_eq!(domain.initial_validators[0].operating_cost_per_block, 7);
    assert_eq!(domain.initial_validators[1].operating_cost_per_block, 7);
}

#[test]
fn into_domain_rejects_uncovered_id() {
    let cfg = base_config(6, vec![tier(0, 4, 7)]);
    assert_eq!(cfg.into_domain().err(), Some(ConfigError::NoTierForValidator { id: 5 }));
}

#[test]
fn into_domain_rejects_bad_protocol_rate() {
    let mut cfg = base_config(1, vec![tier(0, 0, 0)]);
    cfg.protocol.slashing_probability = RATE_SCALE + 1;
    assert_eq!(cfg.into_domain().err(), Some(ConfigError::RateOutOfRange));
}

#[test]
fn into_domain_rejects_bad_tier_rate() {
    let mut t = tier(0, 0, 0);
    t.restake_ratio = RATE_SCALE + 1;
    let cfg = base_config(1, vec![t]);
    assert_eq!(cfg.into_domain().err(), Some(ConfigError::RateOutOfRange));
}

#[test]
fn into_domain_rejects_too_many_validators() {
    let cfg = base_config(MAX_VALIDATORS as u64 + 1, vec![tier(0, u64::MAX, 0)]);
    assert_eq!(cfg.into_domain().err(), Some(ConfigError::TooManyValidators));
}

#[test]
fn listeners_require_survival_config() {
    let cfg = ListenersConfig { survival: None, distribution: None };
    assert!(matches!(
        build_validator_listeners(&cfg),
        Err(ConfigError::MissingSurvivalConfig)
    ));
}

#[test]
fn listeners_require_distribution_config() {
    let cfg = ListenersConfig {
        survival: Some(SurvivalListenerConfig {
            enabled: true,
            liveness_threshold: 1,
            safety_threshold: 1,
        }),
        distribution: None,
    };
    assert!(matches!(
        build_validator_listeners(&cfg),
        Err(ConfigError::MissingDistributionConfig)
    ));
}

#[test]
fn listeners_reject_zero_interval() {
    let cfg = ListenersConfig {
        survival: Some(SurvivalListenerConfig {
            enabled: true,
            liveness_threshold: 1,
            safety_threshold: 1,
        }),
        distribution: Some(DistributionListenerConfig {
            enabled: true,
            sampling_strategy: SamplingStrategyConfig::EveryNBlocks { interval: 0 },
        }),
    };
    assert!(matches!(
        build_validator_listeners(&cfg),
        Err(ConfigError::ZeroSamplingInterval)
    ));
}

#[test]
fn listeners_accept_event_strategy() {
    let cfg = ListenersConfig {
        survival: Some(SurvivalListenerConfig {
            enabled: true,
            liveness_threshold: 1,
            safety_threshold: 2,
        }),
        distribution: Some(DistributionListenerConfig {
            enabled: true,
            sampling_strategy: SamplingStrategyConfig::OnEvent {
                event: SimulationEvent::Collapse,
            },
        }),
    };
    let l = build_validator_listeners(&cfg).unwrap();
    assert_eq!(l.survival.liveness_threshold, 1);
    assert_eq!(l.survival.safety_threshold, 2);
    assert_eq!(l.distribution.records.len(), 0);
}
