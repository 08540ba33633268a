//! Bandit integration: after a successful assignment, a bandit-linked
//! variation delegates action selection to an external capability.
//!
//! Unlike flag assignment, bandit evaluation always carries a usable
//! result: when the flag evaluation failed, the caller's default variation
//! is returned alongside the failure; when the variation is bandit-linked
//! but the bandit's configuration is missing, the assigned variation is
//! returned alongside a recorded [`EvaluationFailure::BanditConfigurationMissing`].
//! Failure and result are not mutually exclusive here.

use crate::attributes::Attributes;
use crate::configuration::Configuration;
use crate::error::EvaluationFailure;
use crate::eval_assignment::{
    failure_matches, get_assignment_with_visitor, spec_evaluate,
};
use crate::eval_visitor::{EvalVisitor, NoopEvalVisitor};
use crate::ufc::{BanditConfiguration, BanditVariation, Variation, VariationValue};
use vstd::prelude::*;

verus! {

/// Outcome of bandit evaluation: the variation key the subject ended up
/// with, and the chosen action when a bandit selected one.
#[derive(Debug, PartialEq)]
pub struct BanditResult {
    pub variation: String,
    pub action: Option<String>,
}

/// The external bandit-selection capability: given a bandit's model
/// coordinates, the subject and the candidate actions, it chooses an
/// action.  The evaluator promises nothing about the choice; whatever
/// comes back is wrapped into the result unchanged.
pub trait BanditSelector {
    /// Chooses one of `actions` for the subject, or nothing.
    fn select_action(
        &mut self,
        bandit: &BanditConfiguration,
        flag_key: &str,
        subject_key: &str,
        attributes: &Attributes,
        actions: &Vec<String>,
    ) -> Option<String>;
}

/// The bandit variation a flag variation is linked to, if any: variations
/// are linked through their text value, which keys the derived index.
pub open spec fn spec_bandit_link(
    config: Configuration,
    flag_key: Seq<char>,
    variation: Variation,
) -> Option<BanditVariation> {
    match variation.value {
        VariationValue::Text(s) => config.spec_bandit_association(flag_key, s@),
        _ => None,
    }
}

/// Evaluates a flag and, when the assigned variation is bandit-linked,
/// asks the external selector for an action, reporting every stage to
/// `visitor`.
///
/// Always returns a usable result: the assigned variation's key, or
/// `default_variation` when assignment failed.  The second component
/// records the failure, which coexists with the result.
pub fn get_bandit_action_with_visitor<V: EvalVisitor, S: BanditSelector>(
    visitor: &mut V,
    selector: &mut S,
    configuration: &Configuration,
    flag_key: &str,
    subject_key: &str,
    attributes: &Attributes,
    actions: &Vec<String>,
    default_variation: &str,
) -> (r: (BanditResult, Option<EvaluationFailure>))
    ensures
        match spec_evaluate(*configuration, flag_key@, subject_key@, attributes.map_view()) {
            Err(se) => {
                &&& r.0.variation@ == default_variation@
                &&& r.0.action is None
                &&& r.1 matches Some(e) && failure_matches(e, se)
            },
            Ok(sa) => {
                &&& r.0.variation@ == sa.variation.key@
                &&& match spec_bandit_link(*configuration, flag_key@, sa.variation) {
                    None => r.0.action is None && r.1 is None,
                    Some(bv) => match configuration.spec_get_bandit(bv.key@) {
                        None => r.0.action is None && (r.1 matches Some(e) && e
                            == EvaluationFailure::BanditConfigurationMissing),
                        Some(_) => r.1 is None,
                    },
                }
            },
        },
{
    let assignment = get_assignment_with_visitor(
        visitor,
        configuration,
        flag_key,
        subject_key,
        attributes,
    );
    match assignment {
        Err(e) => {
            let result = BanditResult { variation: default_variation.to_owned(), action: None };
            visitor.on_bandit_result(&result, Some(&e));
            (result, Some(e))
        },
        Ok(a) => {
            let link: Option<&String> = match &a.variation.value {
                VariationValue::Text(s) => configuration.get_bandit_key(flag_key, s.as_str()),
                _ => None,
            };
            match link {
                None => {
                    let result = BanditResult { variation: a.variation.key.clone(), action: None };
                    visitor.on_bandit_result(&result, None);
                    (result, None)
                },
                Some(bandit_key) => {
                    visitor.on_bandit_key(bandit_key.as_str());
                    match configuration.get_bandit(bandit_key.as_str()) {
                        None => {
                            let result = BanditResult {
                                variation: a.variation.key.clone(),
                                action: None,
                            };
                            let failure = EvaluationFailure::BanditConfigurationMissing;
                            visitor.on_bandit_result(&result, Some(&failure));
                            (result, Some(failure))
                        },
                        Some(bandit) => {
                            let action = selector.select_action(
                                bandit,
                                flag_key,
                                subject_key,
                                attributes,
                                actions,
                            );
                            let result = BanditResult { variation: a.variation.key.clone(), action };
                            visitor.on_bandit_result(&result, None);
                            (result, None)
                        },
                    }
                },
            }
        },
    }
}

/// Evaluates a flag and its bandit link with no observer installed.
pub fn get_bandit_action<S: BanditSelector>(
    selector: &mut S,
    configuration: &Configuration,
    flag_key: &str,
    subject_key: &str,
    attributes: &Attributes,
    actions: &Vec<String>,
    default_variation: &str,
) -> (r: (BanditResult, Option<EvaluationFailure>))
    ensures
        match spec_evaluate(*configuration, flag_key@, subject_key@, attributes.map_view()) {
            Err(se) => {
                &&& r.0.variation@ == default_variation@
                &&& r.0.action is None
                &&& r.1 matches Some(e) && failure_matches(e, se)
            },
            Ok(sa) => {
                &&& r.0.variation@ == sa.variation.key@
                &&& match spec_bandit_link(*configuration, flag_key@, sa.variation) {
                    None => r.0.action is None && r.1 is None,
                    Some(bv) => match configuration.spec_get_bandit(bv.key@) {
                        None => r.0.action is None && (r.1 matches Some(e) && e
                            == EvaluationFailure::BanditConfigurationMissing),
                        Some(_) => r.1 is None,
                    },
                }
            },
        },
{
    let mut visitor = NoopEvalVisitor;
    get_bandit_action_with_visitor(
        &mut visitor,
        selector,
        configuration,
        flag_key,
        subject_key,
        attributes,
        actions,
        default_variation,
    )
}

} // verus!
