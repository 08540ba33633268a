//! Observer hooks invoked at every evaluation stage.
//!
//! A caller who wants tracing implements [`EvalVisitor`] and receives a
//! call per stage: configuration acquired, flag found, allocation visited,
//! rule and condition evaluated, shard computed, split tested, variation
//! resolved, final result, and the bandit stages.  A caller who wants no
//! tracing passes [`NoopEvalVisitor`], whose empty inlined methods let the
//! compiler erase every hook call; the evaluator is generic over the
//! visitor, so the no-observer path is monomorphized without any dynamic
//! dispatch or branching.
//!
//! The evaluator's contracts never mention the visitor: whatever a visitor
//! does, the evaluation result is the same.

use crate::attributes::AttributeValue;
use crate::configuration::Configuration;
use crate::error::{AllocationNonMatchReason, EvaluationFailure};
use crate::eval_assignment::Assignment;
use crate::eval_bandits::BanditResult;
use crate::ufc::{Allocation, Condition, Flag, Rule, Split, Variation};
use vstd::prelude::*;

verus! {

/// Observer of the evaluation stages.  Every hook has a no-operation
/// counterpart in [`NoopEvalVisitor`]; implement only what you care about
/// by leaving the other bodies empty.
pub trait EvalVisitor {
    /// Called when evaluation receives the configuration snapshot.
    fn on_configuration(&mut self, configuration: &Configuration);

    /// Called when evaluation finds the flag configuration.
    fn on_flag_configuration(&mut self, flag: &Flag);

    /// Called before an allocation is considered.
    fn on_allocation(&mut self, allocation: &Allocation);

    /// Called when a condition is skipped because its server-supplied
    /// definition is malformed.
    fn on_condition_skip(&mut self, condition: &Condition);

    /// Called when a condition has been evaluated against the subject's
    /// attribute (`None` when the subject lacks the attribute).
    fn on_condition_eval(
        &mut self,
        condition: &Condition,
        attribute_value: Option<&AttributeValue>,
        result: bool,
    );

    /// Called when a rule's result is known.
    fn on_rule_result(&mut self, rule: &Rule, result: bool);

    /// Called when the subject's shard within an allocation is known.
    fn on_shard_eval(&mut self, shard: u64);

    /// Called when a split has been tested against the subject's shard.
    fn on_split_result(&mut self, split: &Split, result: bool);

    /// Called when an allocation has been rejected, with the reason.
    fn on_allocation_result(&mut self, allocation: &Allocation, reason: &AllocationNonMatchReason);

    /// Called when the variation for the evaluation has been found.
    fn on_variation(&mut self, variation: &Variation);

    /// Called with the final assignment result.
    fn on_result(&mut self, result: &Result<Assignment, EvaluationFailure>);

    /// Called when the bandit key for a bandit-linked variation is known.
    fn on_bandit_key(&mut self, key: &str);

    /// Called with the final bandit result.  Unlike assignment evaluation,
    /// bandit evaluation still carries a result in case of failure, so the
    /// failure and the result are not exclusive.
    fn on_bandit_result(&mut self, result: &BanditResult, failure: Option<&EvaluationFailure>);
}

/// The default visitor: every hook does nothing, and every call to it
/// inlines away.
pub struct NoopEvalVisitor;

impl EvalVisitor for NoopEvalVisitor {
    #[inline(always)]
    fn on_configuration(&mut self, _configuration: &Configuration) {
    }

    #[inline(always)]
    fn on_flag_configuration(&mut self, _flag: &Flag) {
    }

    #[inline(always)]
    fn on_allocation(&mut self, _allocation: &Allocation) {
    }

    #[inline(always)]
    fn on_condition_skip(&mut self, _condition: &Condition) {
    }

    #[inline(always)]
    fn on_condition_eval(
        &mut self,
        _condition: &Condition,
        _attribute_value: Option<&AttributeValue>,
        _result: bool,
    ) {
    }

    #[inline(always)]
    fn on_rule_result(&mut self, _rule: &Rule, _result: bool) {
    }

    #[inline(always)]
    fn on_shard_eval(&mut self, _shard: u64) {
    }

    #[inline(always)]
    fn on_split_result(&mut self, _split: &Split, _result: bool) {
    }

    #[inline(always)]
    fn on_allocation_result(
        &mut self,
        _allocation: &Allocation,
        _reason: &AllocationNonMatchReason,
    ) {
    }

    #[inline(always)]
    fn on_variation(&mut self, _variation: &Variation) {
    }

    #[inline(always)]
    fn on_result(&mut self, _result: &Result<Assignment, EvaluationFailure>) {
    }

    #[inline(always)]
    fn on_bandit_key(&mut self, _key: &str) {
    }

    #[inline(always)]
    fn on_bandit_result(&mut self, _result: &BanditResult, _failure: Option<&EvaluationFailure>) {
    }
}

} // verus!
