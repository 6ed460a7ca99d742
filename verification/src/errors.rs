//! Terminal protocol failures and configuration errors.

use vstd::prelude::*;

verus! {

/// A terminal condition of a simulation domain: the modeled economy cannot
/// meaningfully continue. The engine catches these and finalizes the run
/// with the records collected so far; they are never process aborts.
#[derive(Clone, Copy, Debug, PartialEq, Eq, Structural)]
pub enum TerminalFailure {
    /// No validator was active when a tick began.
    NoActiveValidators { block: u64 },
    /// Every validator left (or was in cooldown) after joins and exits applied.
    AllValidatorsExited { block: u64 },
    /// Slashing pushed every remaining active validator out within one tick.
    AllSlashedOut { block: u64 },
}

impl TerminalFailure {
    /// A short human-readable cause, for hosts that surface the stop reason.
    pub fn cause(&self) -> (r: &'static str)
        ensures
            r@ == self.cause_spec(),
    {
        match self {
            TerminalFailure::NoActiveValidators { .. } => "no active validators",
            TerminalFailure::AllValidatorsExited { .. } => "all validators exited",
            TerminalFailure::AllSlashedOut { .. } => "all validators slashed out",
        }
    }

    pub open spec fn cause_spec(self) -> Seq<char> {
        match self {
            TerminalFailure::NoActiveValidators { .. } => "no active validators"@,
            TerminalFailure::AllValidatorsExited { .. } => "all validators exited"@,
            TerminalFailure::AllSlashedOut { .. } => "all validators slashed out"@,
        }
    }

    /// The block at which the failure was observed.
    pub fn block(&self) -> (r: u64)
        ensures
            r == self.block_spec(),
    {
        match self {
            TerminalFailure::NoActiveValidators { block } => *block,
            TerminalFailure::AllValidatorsExited { block } => *block,
            TerminalFailure::AllSlashedOut { block } => *block,
        }
    }

    pub open spec fn block_spec(self) -> u64 {
        match self {
            TerminalFailure::NoActiveValidators { block } => block,
            TerminalFailure::AllValidatorsExited { block } => block,
            TerminalFailure::AllSlashedOut { block } => block,
        }
    }
}

/// An error in the scenario configuration, surfaced before any tick runs.
#[derive(Clone, Copy, Debug, PartialEq, Eq, Structural)]
pub enum ConfigError {
    /// A fractional parameter (probability or ratio) exceeds `RATE_SCALE`.
    RateOutOfRange,
    /// More validators requested than the engine's representation bound.
    TooManyValidators,
    /// Some validator id is covered by no configured tier.
    NoTierForValidator { id: u64 },
    /// The survival listener configuration is missing.
    MissingSurvivalConfig,
    /// The distribution listener configuration is missing.
    MissingDistributionConfig,
    /// A sampling interval of zero was configured.
    ZeroSamplingInterval,
}

} // verus!
