//! The universal flag configuration: the typed shape of flag and bandit
//! definitions as the evaluator sees them.
//!
//! A flag owns its variations and an ordered list of allocations; an
//! allocation owns its targeting rules, its traffic splits and its own
//! selection key, which seeds sharding independently of the flag key.

use crate::attributes::AttributeValue;
use vstd::prelude::*;

verus! {

/// A half-open interval `start <= shard < end` of the shard space.
#[derive(Clone, Copy, Debug, PartialEq, Eq, Structural)]
pub struct ShardRange {
    pub start: u64,
    pub end: u64,
}

impl ShardRange {
    /// Whether `shard` lies in this range.
    pub open spec fn spec_contains(self, shard: u64) -> bool {
        self.start <= shard < self.end
    }

    /// Whether `shard` lies in this range.
    pub fn contains(&self, shard: u64) -> (r: bool)
        ensures
            r == self.spec_contains(shard),
    {
        self.start <= shard && shard < self.end
    }
}

/// A traffic split: the shard ranges that select it and the key of the
/// variation it resolves to.
#[derive(Debug)]
pub struct Split {
    pub variation_key: String,
    pub ranges: Vec<ShardRange>,
}

impl Split {
    /// Whether some range of this split contains `shard`.
    pub open spec fn spec_matches(&self, shard: u64) -> bool {
        exists|i: int| 0 <= i < self.ranges@.len() && self.ranges@[i].spec_contains(shard)
    }
}

/// The comparison a condition applies to a subject attribute.
#[derive(Debug)]
pub enum ConditionCheck {
    /// The attribute equals the given value.
    Equals { value: AttributeValue },
    /// The attribute is a string listed in `values`.
    OneOf { values: Vec<String> },
    /// The attribute is a string not listed in `values`.
    NotOneOf { values: Vec<String> },
    /// The attribute is a number greater than `value`.
    GreaterThan { value: i64 },
    /// The attribute is a number at least `value`.
    GreaterThanOrEqual { value: i64 },
    /// The attribute is a number less than `value`.
    LessThan { value: i64 },
    /// The attribute is a number at most `value`.
    LessThanOrEqual { value: i64 },
    /// The attribute is a string the regular expression matches.
    Matches { pattern: String },
    /// The attribute is a string the regular expression does not match.
    NotMatches { pattern: String },
}

/// A targeting condition: an attribute name and the check applied to it.
#[derive(Debug)]
pub struct Condition {
    pub attribute: String,
    pub check: ConditionCheck,
}

/// A targeting rule: a conjunction of conditions.
#[derive(Debug)]
pub struct Rule {
    pub conditions: Vec<Condition>,
}

/// An ordered, conditionally gated bucket of traffic within a flag.
///
/// `key` is the allocation's own selection key: sharding hashes it together
/// with the subject key, so renaming the flag does not move subjects across
/// splits.
#[derive(Debug)]
pub struct Allocation {
    pub key: String,
    pub rules: Vec<Rule>,
    pub splits: Vec<Split>,
}

/// The typed payload a flag resolves to.
#[derive(Debug, PartialEq)]
pub enum VariationValue {
    Text(String),
    Number(i64),
    Boolean(bool),
    /// A structured value, carried as its raw serialized text.
    Structured(String),
}

impl VariationValue {
    /// A copy with the same value.
    pub fn duplicate(&self) -> (r: VariationValue)
        ensures
            r == self,
    {
        match self {
            VariationValue::Text(s) => VariationValue::Text(s.clone()),
            VariationValue::Number(n) => VariationValue::Number(*n),
            VariationValue::Boolean(b) => VariationValue::Boolean(*b),
            VariationValue::Structured(s) => VariationValue::Structured(s.clone()),
        }
    }
}

/// A variation: a key and its typed payload.
#[derive(Debug, PartialEq)]
pub struct Variation {
    pub key: String,
    pub value: VariationValue,
}

impl Variation {
    /// A copy with the same key and value.
    pub fn duplicate(&self) -> (r: Variation)
        ensures
            r == self,
    {
        Variation { key: self.key.clone(), value: self.value.duplicate() }
    }
}

/// A flag definition: its key, whether it is enabled, the size of its shard
/// space, its variations and its ordered allocations.
#[derive(Debug)]
pub struct Flag {
    pub key: String,
    pub enabled: bool,
    pub total_shards: u64,
    pub variations: Vec<Variation>,
    pub allocations: Vec<Allocation>,
}

/// One flag entry of a server payload: either a parsed flag definition or a
/// marker that this flag failed to parse, carrying the raw payload for
/// diagnostics.  A failed flag never rejects the rest of the snapshot.
#[derive(Debug)]
pub enum TryParse {
    Parsed(Flag),
    ParseFailed(String),
}

/// Flags of a server payload, keyed by flag key, and the bandit variation
/// lists used to derive the flag-to-bandit index.
#[derive(Debug)]
pub struct UniversalFlagConfig {
    pub flags: Vec<(String, TryParse)>,
    pub bandits: Vec<(String, Vec<BanditVariation>)>,
}

/// Associates one variation of one flag with a bandit.
#[derive(Debug)]
pub struct BanditVariation {
    /// Key of the bandit.
    pub key: String,
    /// Key of the flag whose variation is bandit-controlled.
    pub flag_key: String,
    /// Key of the variation.
    pub variation_key: String,
    /// String value of the variation, as the flag-to-bandit index is keyed.
    pub variation_value: String,
}

impl BanditVariation {
    /// A copy with the same fields.
    pub fn duplicate(&self) -> (r: BanditVariation)
        ensures
            r == self,
    {
        BanditVariation {
            key: self.key.clone(),
            flag_key: self.flag_key.clone(),
            variation_key: self.variation_key.clone(),
            variation_value: self.variation_value.clone(),
        }
    }
}

/// A bandit definition: the model the external selection capability needs.
#[derive(Debug)]
pub struct BanditConfiguration {
    pub bandit_key: String,
    pub model_name: String,
    pub model_version: String,
}

/// Bandit definitions of a server payload, keyed by bandit key.
#[derive(Debug)]
pub struct BanditResponse {
    pub bandits: Vec<(String, BanditConfiguration)>,
}

/// The variation of `vars` whose key is `key`, if any; a later entry with
/// the same key shadows an earlier one.
pub open spec fn spec_find_variation(vars: Seq<Variation>, key: Seq<char>) -> Option<Variation>
    decreases vars.len(),
{
    if vars.len() == 0 {
        None
    } else if vars.last().key@ == key {
        Some(vars.last())
    } else {
        spec_find_variation(vars.drop_last(), key)
    }
}

impl Flag {
    /// Looks a variation up by its key.
    pub fn find_variation(&self, key: &str) -> (r: Option<&Variation>)
        ensures
            match r {
                Some(v) => spec_find_variation(self.variations@, key@) == Some(*v),
                None => spec_find_variation(self.variations@, key@) is None,
            },
    {
        let n = self.variations.len();
        let mut found: Option<&Variation> = None;
        proof {
            assert(self.variations@.subrange(0, 0) =~= Seq::<Variation>::empty());
        }
        for i in 0..n
            invariant
                n == self.variations@.len(),
                ({
                    let so_far = spec_find_variation(self.variations@.subrange(0, i as int), key@);
                    match found {
                        Some(v) => so_far == Some(*v),
                        None => so_far is None,
                    }
                }),
        {
            let ghost prefix = self.variations@.subrange(0, i as int);
            let v = &self.variations[i];
            if crate::strings::str_eq(v.key.as_str(), key) {
                found = Some(v);
            }
            proof {
                let ext = self.variations@.subrange(0, i + 1);
                assert(ext.drop_last() =~= prefix);
                assert(ext.last() == self.variations@[i as int]);
            }
        }
        proof {
            assert(self.variations@.subrange(0, n as int) =~= self.variations@);
        }
        found
    }
}

} // verus!
