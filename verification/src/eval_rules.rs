//! Evaluation of targeting rules and conditions against a subject's
//! attributes.
//!
//! Each condition is evaluated independently.  A missing attribute means
//! the condition does not match; it is never an error.  A condition whose
//! server-supplied definition is malformed (a regular expression that does
//! not compile) is *skipped*: it is excluded from matching altogether, so a
//! rule can still match through its other conditions.  A rule matches when
//! no evaluated condition is false; in particular a rule with zero
//! conditions matches every subject.

use crate::attributes::{AttrVal, AttributeValue, Attributes};
use crate::eval_visitor::EvalVisitor;
use crate::regexp::{regex_is_match, regex_match, regex_valid};
use crate::strings::str_eq;
use crate::ufc::{Condition, ConditionCheck, Rule};
use vstd::prelude::*;

verus! {

/// Whether the server-supplied definition of `c` is well formed.  A
/// regex-based condition with a pattern that does not compile is the
/// malformed case; every other check is well formed by construction.
pub open spec fn spec_condition_valid(c: Condition) -> bool {
    match c.check {
        ConditionCheck::Matches { pattern } => regex_valid(pattern@),
        ConditionCheck::NotMatches { pattern } => regex_valid(pattern@),
        _ => true,
    }
}

/// Whether `s` occurs in the string list `vs`.
pub open spec fn spec_values_contain(vs: Seq<String>, s: Seq<char>) -> bool {
    exists|i: int| 0 <= i < vs.len() && vs[i]@ == s
}

/// Whether a well-formed check holds of the attribute value `av` (`None`
/// when the subject lacks the attribute; a missing attribute never
/// matches).
pub open spec fn spec_check_eval(check: ConditionCheck, av: Option<AttrVal>) -> bool {
    match av {
        None => false,
        Some(a) => match check {
            ConditionCheck::Equals { value } => a == value@,
            ConditionCheck::OneOf { values } => a matches AttrVal::Text(s)
                && spec_values_contain(values@, s),
            ConditionCheck::NotOneOf { values } => a matches AttrVal::Text(s)
                && !spec_values_contain(values@, s),
            ConditionCheck::GreaterThan { value } => a matches AttrVal::Number(n) && n > value,
            ConditionCheck::GreaterThanOrEqual { value } => a matches AttrVal::Number(n) && n
                >= value,
            ConditionCheck::LessThan { value } => a matches AttrVal::Number(n) && n < value,
            ConditionCheck::LessThanOrEqual { value } => a matches AttrVal::Number(n) && n
                <= value,
            ConditionCheck::Matches { pattern } => a matches AttrVal::Text(s) && regex_match(
                pattern@,
                s,
            ),
            ConditionCheck::NotMatches { pattern } => a matches AttrVal::Text(s) && !regex_match(
                pattern@,
                s,
            ),
        },
    }
}

/// Result of one condition against the attribute map: `None` when the
/// condition is skipped for a malformed definition, otherwise whether it
/// matched.
pub open spec fn spec_condition_eval(c: Condition, attrs: Map<Seq<char>, AttrVal>) -> Option<
    bool,
> {
    if !spec_condition_valid(c) {
        None
    } else if attrs.contains_key(c.attribute@) {
        Some(spec_check_eval(c.check, Some(attrs[c.attribute@])))
    } else {
        Some(spec_check_eval(c.check, None::<AttrVal>))
    }
}

/// A rule matches when no evaluated condition of it is false: skipped
/// conditions are excluded, and a rule with zero conditions matches
/// vacuously.
pub open spec fn spec_rule_matches(r: Rule, attrs: Map<Seq<char>, AttrVal>) -> bool {
    forall|i: int|
        0 <= i < r.conditions@.len() ==> spec_condition_eval(#[trigger] r.conditions@[i], attrs)
            != Some(false)
}

/// A rule with zero conditions matches every subject, whatever attributes
/// are present or absent.
pub proof fn lemma_vacuous_rule_matches(r: Rule, attrs: Map<Seq<char>, AttrVal>)
    requires
        r.conditions@.len() == 0,
    ensures
        spec_rule_matches(r, attrs),
{
}

/// A condition skipped for a malformed definition has no effect on its
/// rule: the rule matches exactly when the rule without that condition
/// matches.  A skipped condition is not the same as a false one, which
/// would reject the rule outright.
pub proof fn lemma_skipped_condition_excluded(
    r1: Rule,
    r2: Rule,
    c: Condition,
    attrs: Map<Seq<char>, AttrVal>,
)
    requires
        spec_condition_eval(c, attrs) is None,
        r2.conditions@ == r1.conditions@.push(c),
    ensures
        spec_rule_matches(r2, attrs) == spec_rule_matches(r1, attrs),
{
    assert(forall|i: int|
        0 <= i < r1.conditions@.len() ==> r2.conditions@[i] == r1.conditions@[i]);
    assert(r2.conditions@[r1.conditions@.len() as int] == c);
    if spec_rule_matches(r1, attrs) {
        assert forall|i: int| 0 <= i < r2.conditions@.len() implies spec_condition_eval(
            #[trigger] r2.conditions@[i],
            attrs,
        ) != Some(false) by {
            if i < r1.conditions@.len() {
                assert(spec_condition_eval(r1.conditions@[i], attrs) != Some(false));
            }
        }
    }
}

/// Whether two attribute values are equal.
fn attribute_value_eq(a: &AttributeValue, b: &AttributeValue) -> (r: bool)
    ensures
        r == (a@ == b@),
{
    match (a, b) {
        (AttributeValue::Text(x), AttributeValue::Text(y)) => str_eq(x.as_str(), y.as_str()),
        (AttributeValue::Number(x), AttributeValue::Number(y)) => *x == *y,
        (AttributeValue::Boolean(x), AttributeValue::Boolean(y)) => *x == *y,
        (AttributeValue::Null, AttributeValue::Null) => true,
        _ => false,
    }
}

/// Whether `s` occurs in `values`.
fn values_contain(values: &Vec<String>, s: &str) -> (r: bool)
    ensures
        r == spec_values_contain(values@, s@),
{
    let n = values.len();
    for i in 0..n
        invariant
            n == values@.len(),
            forall|j: int| 0 <= j < i ==> (#[trigger] values@[j])@ != s@,
    {
        if str_eq(values[i].as_str(), s) {
            return true;
        }
    }
    false
}

/// Evaluates one condition against the subject's attributes, reporting the
/// outcome (or the skip) to the visitor.
pub fn eval_condition<V: EvalVisitor>(
    visitor: &mut V,
    condition: &Condition,
    attributes: &Attributes,
) -> (r: Option<bool>)
    ensures
        r == spec_condition_eval(*condition, attributes.map_view()),
{
    let av = attributes.get(condition.attribute.as_str());
    let r: Option<bool> = match &condition.check {
        ConditionCheck::Equals { value } => match av {
            Some(a) => Some(attribute_value_eq(a, value)),
            None => Some(false),
        },
        ConditionCheck::OneOf { values } => match av {
            Some(AttributeValue::Text(s)) => Some(values_contain(values, s.as_str())),
            _ => Some(false),
        },
        ConditionCheck::NotOneOf { values } => match av {
            Some(AttributeValue::Text(s)) => Some(!values_contain(values, s.as_str())),
            _ => Some(false),
        },
        ConditionCheck::GreaterThan { value } => match av {
            Some(AttributeValue::Number(n)) => Some(*n > *value),
            _ => Some(false),
        },
        ConditionCheck::GreaterThanOrEqual { value } => match av {
            Some(AttributeValue::Number(n)) => Some(*n >= *value),
            _ => Some(false),
        },
        ConditionCheck::LessThan { value } => match av {
            Some(AttributeValue::Number(n)) => Some(*n < *value),
            _ => Some(false),
        },
        ConditionCheck::LessThanOrEqual { value } => match av {
            Some(AttributeValue::Number(n)) => Some(*n <= *value),
            _ => Some(false),
        },
        ConditionCheck::Matches { pattern } => match av {
            Some(AttributeValue::Text(s)) => regex_is_match(pattern.as_str(), s.as_str()),
            _ => match regex_is_match(pattern.as_str(), "") {
                Some(_) => Some(false),
                None => None,
            },
        },
        ConditionCheck::NotMatches { pattern } => match av {
            Some(AttributeValue::Text(s)) => match regex_is_match(pattern.as_str(), s.as_str()) {
                Some(m) => Some(!m),
                None => None,
            },
            _ => match regex_is_match(pattern.as_str(), "") {
                Some(_) => Some(false),
                None => None,
            },
        },
    };
    match r {
        Some(result) => visitor.on_condition_eval(condition, av, result),
        None => visitor.on_condition_skip(condition),
    }
    r
}

/// Evaluates a rule: every condition is evaluated (and reported), and the
/// rule matches when no evaluated condition came out false.
pub fn eval_rule<V: EvalVisitor>(visitor: &mut V, rule: &Rule, attributes: &Attributes) -> (r:
    bool)
    ensures
        r == spec_rule_matches(*rule, attributes.map_view()),
{
    let n = rule.conditions.len();
    let mut all_match = true;
    for i in 0..n
        invariant
            n == rule.conditions@.len(),
            all_match <==> forall|j: int|
                0 <= j < i ==> spec_condition_eval(
                    #[trigger] rule.conditions@[j],
                    attributes.map_view(),
                ) != Some(false),
    {
        let outcome = eval_condition(visitor, &rule.conditions[i], attributes);
        if let Some(false) = outcome {
            all_match = false;
        }
    }
    visitor.on_rule_result(rule, all_match);
    all_match
}

} // verus!
