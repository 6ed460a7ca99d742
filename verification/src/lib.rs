//! A discrete-time, agent-based simulation engine for stake-weighted
//! validator economics, together with the decentralization statistics
//! (Nakamoto coefficients, Gini coefficient, survival timings) derived
//! from the simulated trajectory.
//!
//! All quantities are integers: token amounts are plain `u64` units and
//! fractional protocol parameters (probabilities, ratios, shares) are
//! numerators over the fixed denominator [`state::RATE_SCALE`].

pub mod agent;
pub mod config;
pub mod distribution;
pub mod domain;
pub mod engine;
pub mod errors;
pub mod global_metrics;
pub mod listeners;
pub mod metrics;
pub mod rng;
pub mod state;
pub mod runner;
pub mod sampling;
pub mod stats;
pub mod survival;
pub mod validator_domain;
