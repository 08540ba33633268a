//! The closed set of reasons evaluation could not produce an assignment,
//! and the per-allocation rejection reasons a non-match failure enumerates.
//!
//! Every failure is returned as a value; the evaluator never aborts.

use vstd::prelude::*;

verus! {

/// Why one allocation was rejected while walking a flag's allocations.
#[derive(Clone, Copy, Debug, PartialEq, Eq, Structural)]
pub enum AllocationNonMatchReason {
    /// No targeting rule of the allocation matched the subject.
    RulesDoNotMatch,
    /// The rules matched, but the subject's shard fell outside every
    /// split's ranges: traffic allocation excluded the subject.
    TrafficShardMiss,
}

/// The rejection record for one allocation that was considered.
#[derive(Debug, PartialEq)]
pub struct AllocationNonMatch {
    pub allocation_key: String,
    pub reason: AllocationNonMatchReason,
}

/// Why evaluation produced no assignment.
#[derive(Debug, PartialEq)]
pub enum EvaluationFailure {
    /// The configuration has no flag under the requested key.
    FlagNotFound,
    /// The flag exists but is disabled.
    FlagDisabled,
    /// The flag's server payload failed to parse when the configuration was
    /// built.
    FlagParseFailed,
    /// No allocation produced a split; one record per allocation considered,
    /// in allocation order.
    NoAllocationMatched(Vec<AllocationNonMatch>),
    /// The matched split names a variation key the flag does not define:
    /// the configuration is internally inconsistent.
    VariationNotFound(String),
    /// The flag variation is bandit-linked but the bandit's configuration
    /// is missing; bandit evaluation reports this alongside a fallback
    /// result.
    BanditConfigurationMissing,
}

} // verus!
