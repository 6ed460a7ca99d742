//! Scenario configuration as plain values, its validation, and the
//! construction of the validator domain and listeners. Errors are
//! surfaced here, before any tick runs.

use vstd::prelude::*;
use crate::errors::ConfigError;
use crate::listeners::ValidatorListeners;
use crate::sampling::{ConfiguredSampler, EveryNBlocks, OnEvent};
use crate::state::{
    rate_ok, ProtocolState, Validator, MAX_VALIDATORS,
};
use crate::survival::{SimulationEvent, SurvivalMetricsCollector};
use crate::validator_domain::ValidatorDomain;

verus! {

#[derive(Clone, Copy, Debug, PartialEq, Eq, Structural)]
pub struct SimulationConfig {
    pub max_ticks: u64,
}

#[derive(Clone, Debug)]
pub struct MetricsConfig {
    pub enabled: bool,
    pub collectors: Vec<String>,
}

#[derive(Clone, Copy, Debug, PartialEq, Eq, Structural)]
pub struct SurvivalListenerConfig {
    pub enabled: bool,
    pub liveness_threshold: usize,
    pub safety_threshold: usize,
}

/// Which sampling strategy the distribution listener uses.
#[derive(Clone, Copy, Debug, PartialEq, Eq, Structural)]
pub enum SamplingStrategyConfig {
    EveryNBlocks { interval: u64 },
    OnEvent { event: SimulationEvent },
}

#[derive(Clone, Copy, Debug, PartialEq, Eq, Structural)]
pub struct DistributionListenerConfig {
    pub enabled: bool,
    pub sampling_strategy: SamplingStrategyConfig,
}

#[derive(Clone, Copy, Debug, PartialEq, Eq)]
pub struct ListenersConfig {
    pub survival: Option<SurvivalListenerConfig>,
    pub distribution: Option<DistributionListenerConfig>,
}

#[derive(Clone, Copy, Debug, PartialEq, Eq, Structural)]
pub struct ProtocolConfig {
    pub reward_per_block: u64,
    pub min_stake_required: u64,
    /// Over `RATE_SCALE`.
    pub slashing_probability: u64,
    /// Over `RATE_SCALE`.
    pub slashing_fraction: u64,
}

/// Tier-derived parameters for a contiguous range of validator ids
/// (both bounds inclusive).
#[derive(Clone, Debug)]
pub struct ValidatorTier {
    pub id_range_start: u64,
    pub id_range_end: u64,
    pub operating_cost_per_block: u64,
    /// Over `RATE_SCALE`.
    pub risk_aversion: u64,
    /// Over `RATE_SCALE`.
    pub restake_ratio: u64,
    pub description: Option<String>,
}

#[derive(Clone, Debug)]
pub struct ValidatorConfig {
    pub count: u64,
    pub initial_stake: u64,
    pub tiers: Vec<ValidatorTier>,
}

/// The full validator scenario.
#[derive(Clone, Debug)]
pub struct ValidatorScenarioConfig {
    pub simulation: SimulationConfig,
    pub protocol: ProtocolConfig,
    pub validators: ValidatorConfig,
    pub metrics: MetricsConfig,
    pub listeners: ListenersConfig,
}

pub open spec fn tier_covers(t: ValidatorTier, id: u64) -> bool {
    t.id_range_start <= id <= t.id_range_end
}

pub open spec fn tier_rates_ok(t: ValidatorTier) -> bool {
    rate_ok(t.risk_aversion) && rate_ok(t.restake_ratio)
}

/// Index of the first tier covering `id`, searching from `i`; -1 if none.
pub open spec fn tier_index_from(tiers: Seq<ValidatorTier>, id: u64, i: int) -> int
    decreases tiers.len() - i,
{
    if i < 0 || i >= tiers.len() {
        -1
    } else if tier_covers(tiers[i], id) {
        i
    } else {
        tier_index_from(tiers, id, i + 1)
    }
}

/// Index of the first tier covering `id`; -1 if none covers it.
pub open spec fn tier_index_for(tiers: Seq<ValidatorTier>, id: u64) -> int {
    tier_index_from(tiers, id, 0)
}

/// The validator built for `id` from its tier: initial stake, zero
/// balance, active, no cooldown.
pub open spec fn validator_from(id: u64, stake: u64, t: ValidatorTier) -> Validator {
    Validator {
        id,
        stake,
        balance: 0,
        active: true,
        operating_cost_per_block: t.operating_cost_per_block,
        risk_aversion: t.risk_aversion,
        cooldown_blocks_remaining: 0,
        restake_ratio: t.restake_ratio,
    }
}

/// The first configuration error among the validator ids in
/// `[from, count)`, in ascending order: an uncovered id, or a covering
/// tier with an out-of-range rate.
pub open spec fn ids_check(tiers: Seq<ValidatorTier>, from: int, count: int) -> Option<ConfigError>
    decreases count - from,
{
    if from < 0 || from >= count {
        None
    } else {
        let ti = tier_index_for(tiers, from as u64);
        if ti == -1 {
            Some(ConfigError::NoTierForValidator { id: from as u64 })
        } else if !tier_rates_ok(tiers[ti]) {
            Some(ConfigError::RateOutOfRange)
        } else {
            ids_check(tiers, from + 1, count)
        }
    }
}

/// The first configuration error of the whole scenario, in check order:
/// protocol rates, then the validator count bound, then the per-id tier
/// checks.
pub open spec fn scenario_check(cfg: ValidatorScenarioConfig) -> Option<ConfigError> {
    if !rate_ok(cfg.protocol.slashing_probability) || !rate_ok(cfg.protocol.slashing_fraction) {
        Some(ConfigError::RateOutOfRange)
    } else if cfg.validators.count > MAX_VALIDATORS as u64 {
        Some(ConfigError::TooManyValidators)
    } else {
        ids_check(cfg.validators.tiers@, 0, cfg.validators.count as int)
    }
}

impl ValidatorScenarioConfig {
    /// Validate the scenario and build the validator domain: one
    /// validator per id in `[0, count)`, each drawing its parameters from
    /// the first tier whose id range covers it.
    #[verifier::loop_isolation(false)]
    pub fn into_domain(self) -> (r: Result<ValidatorDomain, ConfigError>)
        ensures
            match r {
                Ok(d) => {
                    &&& scenario_check(self) is None
                    &&& d.protocol == (ProtocolState {
                        reward_per_block: self.protocol.reward_per_block,
                        min_stake_required: self.protocol.min_stake_required,
                        slashing_probability: self.protocol.slashing_probability,
                        slashing_fraction: self.protocol.slashing_fraction,
                        current_block: 0,
                    })
                    &&& d.initial_validators@.len() == self.validators.count
                    &&& forall|i: int|
                        0 <= i < self.validators.count ==> #[trigger] d.initial_validators@[i]
                            == validator_from(
                            i as u64,
                            self.validators.initial_stake,
                            self.validators.tiers@[tier_index_for(
                                self.validators.tiers@,
                                i as u64,
                            )],
                        )
                    &&& crate::domain::Domain::inv(&d)
                },
                Err(e) => scenario_check(self) == Some(e),
            },
    {
        if self.protocol.slashing_probability > crate::state::RATE_SCALE
            || self.protocol.slashing_fraction > crate::state::RATE_SCALE {
            return Err(ConfigError::RateOutOfRange);
        }
        if self.validators.count > MAX_VALIDATORS as u64 {
            return Err(ConfigError::TooManyValidators);
        }
        let protocol = ProtocolState {
            reward_per_block: self.protocol.reward_per_block,
            min_stake_required: self.protocol.min_stake_required,
            slashing_probability: self.protocol.slashing_probability,
            slashing_fraction: self.protocol.slashing_fraction,
            current_block: 0,
        };
        let count = self.validators.count;
        let ghost tiers_view = self.validators.tiers@;
        let mut validators: Vec<Validator> = Vec::new();
        let mut id: u64 = 0;
        while id < count
            invariant
                id <= count,
                count <= MAX_VALIDATORS as u64,
                tiers_view == self.validators.tiers@,
                validators@.len() == id,
                ids_check(tiers_view, 0, count as int) == ids_check(tiers_view, id as int, count as int),
                forall|i: int|
                    0 <= i < id ==> #[trigger] validators@[i] == validator_from(
                        i as u64,
                        self.validators.initial_stake,
                        tiers_view[tier_index_for(tiers_view, i as u64)],
                    ),
                forall|i: int|
                    0 <= i < id ==> #[trigger] tier_index_for(tiers_view, i as u64) != -1
                        && tier_rates_ok(tiers_view[tier_index_for(tiers_view, i as u64)]),
            decreases count - id,
        {
            let tier = match find_tier(&self.validators.tiers, id) {
                Some(j) => &self.validators.tiers[j],
                None => {
                    return Err(ConfigError::NoTierForValidator { id });
                },
            };
            if tier.risk_aversion > crate::state::RATE_SCALE || tier.restake_ratio
                > crate::state::RATE_SCALE {
                return Err(ConfigError::RateOutOfRange);
            }
            validators.push(
                Validator {
                    id,
                    stake: self.validators.initial_stake,
                    balance: 0,
                    active: true,
                    operating_cost_per_block: tier.operating_cost_per_block,
                    risk_aversion: tier.risk_aversion,
                    cooldown_blocks_remaining: 0,
                    restake_ratio: tier.restake_ratio,
                },
            );
            id = id + 1;
        }
        let d = ValidatorDomain { protocol, initial_validators: validators };
        proof {
            assert(crate::state::world_ok(
                crate::state::ValidatorWorld { protocol: d.protocol, validators: d.initial_validators },
            ));
        }
        Ok(d)
    }
}

/// Index of the first tier whose id range covers `id`.
fn find_tier(tiers: &Vec<ValidatorTier>, id: u64) -> (r: Option<usize>)
    ensures
        match r {
            Some(j) => j == tier_index_for(tiers@, id) && j < tiers@.len(),
            None => tier_index_for(tiers@, id) == -1,
        },
{
    let n = tiers.len();
    let mut j: usize = 0;
    while j < n
        invariant
            j <= n,
            n == tiers@.len(),
            tier_index_for(tiers@, id) == tier_index_from(tiers@, id, j as int),
        decreases n - j,
    {
        if tiers[j].id_range_start <= id && id <= tiers[j].id_range_end {
            return Some(j);
        }
        j = j + 1;
    }
    None
}

/// Build the validator listeners from configuration: the survival and
/// distribution configurations are both required, and a periodic
/// sampling interval must be nonzero.
pub fn build_validator_listeners(config: &ListenersConfig) -> (r: Result<
    ValidatorListeners<ConfiguredSampler>,
    ConfigError,
>)
    ensures
        match r {
            Ok(l) => {
                &&& config.survival is Some
                &&& config.distribution is Some
                &&& l.survival == SurvivalMetricsCollector::new_spec(
                    config.survival.unwrap().liveness_threshold,
                    config.survival.unwrap().safety_threshold,
                )
                &&& l.distribution.records@.len() == 0
                &&& l.distribution.sampler == sampler_spec(
                    config.distribution.unwrap().sampling_strategy,
                )
                &&& crate::sampling::SamplingStrategy::inv(&l.distribution.sampler)
            },
            Err(e) => listeners_check_err(*config) == Some(e),
        },
{
    let survival_config = match &config.survival {
        Some(c) => c,
        None => {
            return Err(ConfigError::MissingSurvivalConfig);
        },
    };
    let distribution_config = match &config.distribution {
        Some(c) => c,
        None => {
            return Err(ConfigError::MissingDistributionConfig);
        },
    };
    let sampler = match distribution_config.sampling_strategy {
        SamplingStrategyConfig::EveryNBlocks { interval } => {
            if interval == 0 {
                return Err(ConfigError::ZeroSamplingInterval);
            }
            ConfiguredSampler::Periodic(EveryNBlocks { interval })
        },
        SamplingStrategyConfig::OnEvent { event } => ConfiguredSampler::Triggered(
            OnEvent::new(event),
        ),
    };
    Ok(
        ValidatorListeners::new(
            survival_config.liveness_threshold,
            survival_config.safety_threshold,
            sampler,
        ),
    )
}

/// The sampler a strategy configuration denotes.
pub open spec fn sampler_spec(c: SamplingStrategyConfig) -> ConfiguredSampler {
    match c {
        SamplingStrategyConfig::EveryNBlocks { interval } => ConfiguredSampler::Periodic(
            EveryNBlocks { interval },
        ),
        SamplingStrategyConfig::OnEvent { event } => ConfiguredSampler::Triggered(
            OnEvent { event, fired: false },
        ),
    }
}

/// The first listener-configuration error, in check order.
pub open spec fn listeners_check_err(c: ListenersConfig) -> Option<ConfigError> {
    if c.survival is None {
        Some(ConfigError::MissingSurvivalConfig)
    } else if c.distribution is None {
        Some(ConfigError::MissingDistributionConfig)
    } else if c.distribution.unwrap().sampling_strategy matches SamplingStrategyConfig::EveryNBlocks {
        interval: 0 } {
        Some(ConfigError::ZeroSamplingInterval)
    } else {
        None
    }
}

} // verus!
