//! The assignment evaluator: one pass from flag lookup through allocation
//! selection to a typed variation, or a structured failure.
//!
//! Evaluation proceeds `flag lookup -> allocation walk -> (assigned |
//! failed)`.  Allocations are tried strictly in order; the first allocation
//! whose rules match *and* whose splits contain the subject's shard wins,
//! and nothing is revisited afterwards.  When no allocation produces a
//! split, the failure enumerates a rejection reason for every allocation
//! considered, so a caller can tell "this flag targets nobody like this
//! subject" from "traffic allocation excluded this subject".
//!
//! The result is a pure function of the configuration, the flag key, the
//! subject key and the attribute map: the contract of [`get_assignment`]
//! pins it to [`spec_evaluate`], which mentions neither insertion order of
//! attributes, nor the visitor, nor any ambient state.

use crate::attributes::{AttrVal, Attributes};
use crate::configuration::Configuration;
use crate::error::{AllocationNonMatch, AllocationNonMatchReason, EvaluationFailure};
use crate::eval_rules::{eval_rule, spec_rule_matches};
use crate::eval_visitor::{EvalVisitor, NoopEvalVisitor};
use crate::sharder::{shard_value, spec_shard_value};
use crate::ufc::{Allocation, Flag, Split, TryParse, Variation, spec_find_variation};
use vstd::prelude::*;

verus! {

/// A successful evaluation: the chosen variation together with the flag,
/// subject and allocation that produced it.
#[derive(Debug, PartialEq)]
pub struct Assignment {
    pub flag_key: String,
    pub subject_key: String,
    pub allocation_key: String,
    pub variation: Variation,
}

/// Mathematical form of a successful evaluation.
pub struct SpecAssignment {
    pub flag_key: Seq<char>,
    pub subject_key: Seq<char>,
    pub allocation_key: Seq<char>,
    pub variation: Variation,
}

/// Mathematical form of one allocation rejection record.
pub struct SpecNonMatch {
    pub allocation_key: Seq<char>,
    pub reason: AllocationNonMatchReason,
}

/// Mathematical form of an evaluation failure.
pub enum SpecFailure {
    FlagNotFound,
    FlagDisabled,
    FlagParseFailed,
    NoAllocationMatched(Seq<SpecNonMatch>),
    VariationNotFound(Seq<char>),
    BanditConfigurationMissing,
}

/// Whether the returned rejection records are the described ones, in
/// order.
pub open spec fn rejections_match(v: Seq<AllocationNonMatch>, s: Seq<SpecNonMatch>) -> bool {
    &&& v.len() == s.len()
    &&& forall|i: int|
        0 <= i < s.len() ==> (#[trigger] v[i]).allocation_key@ == s[i].allocation_key && v[i].reason
            == s[i].reason
}

/// Whether the returned failure is the described one.
pub open spec fn failure_matches(e: EvaluationFailure, se: SpecFailure) -> bool {
    match (e, se) {
        (EvaluationFailure::FlagNotFound, SpecFailure::FlagNotFound) => true,
        (EvaluationFailure::FlagDisabled, SpecFailure::FlagDisabled) => true,
        (EvaluationFailure::FlagParseFailed, SpecFailure::FlagParseFailed) => true,
        (EvaluationFailure::NoAllocationMatched(v), SpecFailure::NoAllocationMatched(s)) => {
            rejections_match(v@, s)
        },
        (EvaluationFailure::VariationNotFound(k), SpecFailure::VariationNotFound(sk)) => k@ == sk,
        (
            EvaluationFailure::BanditConfigurationMissing,
            SpecFailure::BanditConfigurationMissing,
        ) => true,
        _ => false,
    }
}

/// Whether the returned result is the described one.
pub open spec fn outcome_matches(
    r: Result<Assignment, EvaluationFailure>,
    s: Result<SpecAssignment, SpecFailure>,
) -> bool {
    match (r, s) {
        (Ok(a), Ok(sa)) => {
            &&& a.flag_key@ == sa.flag_key
            &&& a.subject_key@ == sa.subject_key
            &&& a.allocation_key@ == sa.allocation_key
            &&& a.variation == sa.variation
        },
        (Err(e), Err(se)) => failure_matches(e, se),
        _ => false,
    }
}

/// Whether the allocation's rule set admits the subject: no rules means
/// unconditional, otherwise some rule must match.
pub open spec fn spec_allocation_rules_match(a: Allocation, attrs: Map<Seq<char>, AttrVal>) -> bool {
    a.rules@.len() == 0 || exists|j: int|
        0 <= j < a.rules@.len() && spec_rule_matches(#[trigger] a.rules@[j], attrs)
}

/// The first split whose ranges contain `shard`, if any.
pub open spec fn spec_first_matching_split(splits: Seq<Split>, shard: u64) -> Option<Split>
    decreases splits.len(),
{
    if splits.len() == 0 {
        None
    } else if splits.first().spec_matches(shard) {
        Some(splits.first())
    } else {
        spec_first_matching_split(splits.drop_first(), shard)
    }
}

/// Outcome of one allocation: the split the subject falls into, or why the
/// allocation rejected the subject (rules vs. traffic sharding).  A shard
/// space of size zero carries no traffic.
pub open spec fn spec_allocation_outcome(
    a: Allocation,
    subject_key: Seq<char>,
    attrs: Map<Seq<char>, AttrVal>,
    total_shards: u64,
) -> Result<Split, AllocationNonMatchReason> {
    if !spec_allocation_rules_match(a, attrs) {
        Err(AllocationNonMatchReason::RulesDoNotMatch)
    } else if total_shards == 0 {
        Err(AllocationNonMatchReason::TrafficShardMiss)
    } else {
        match spec_first_matching_split(a.splits@, spec_shard_value(a.key@, subject_key, total_shards)) {
            Some(split) => Ok(split),
            None => Err(AllocationNonMatchReason::TrafficShardMiss),
        }
    }
}

/// The reason of a rejecting outcome.
pub open spec fn outcome_reason(o: Result<Split, AllocationNonMatchReason>) -> AllocationNonMatchReason {
    match o {
        Err(r) => r,
        Ok(_) => AllocationNonMatchReason::RulesDoNotMatch,
    }
}

/// One rejection record per allocation, in allocation order.
pub open spec fn spec_all_rejections(
    allocs: Seq<Allocation>,
    subject_key: Seq<char>,
    attrs: Map<Seq<char>, AttrVal>,
    total_shards: u64,
) -> Seq<SpecNonMatch> {
    Seq::new(
        allocs.len(),
        |j: int|
            SpecNonMatch {
                allocation_key: allocs[j].key@,
                reason: outcome_reason(
                    spec_allocation_outcome(allocs[j], subject_key, attrs, total_shards),
                ),
            },
    )
}

/// Walks the allocations in order: the first one that yields a split wins;
/// if none does, every allocation contributes its rejection record.
pub open spec fn spec_select_allocation(
    allocs: Seq<Allocation>,
    subject_key: Seq<char>,
    attrs: Map<Seq<char>, AttrVal>,
    total_shards: u64,
) -> Result<(Allocation, Split), Seq<SpecNonMatch>>
    decreases allocs.len(),
{
    if allocs.len() == 0 {
        Err(Seq::empty())
    } else {
        match spec_allocation_outcome(allocs.first(), subject_key, attrs, total_shards) {
            Ok(split) => Ok((allocs.first(), split)),
            Err(reason) => match spec_select_allocation(
                allocs.drop_first(),
                subject_key,
                attrs,
                total_shards,
            ) {
                Ok(p) => Ok(p),
                Err(rest) => Err(
                    seq![
                        SpecNonMatch { allocation_key: allocs.first().key@, reason },
                    ] + rest,
                ),
            },
        }
    }
}

/// Evaluation of one flag: disabled flags fail, otherwise the allocation
/// walk decides, and the matched split's variation key must name one of
/// the flag's variations.
pub open spec fn spec_eval_flag(
    flag: Flag,
    subject_key: Seq<char>,
    attrs: Map<Seq<char>, AttrVal>,
) -> Result<SpecAssignment, SpecFailure> {
    if !flag.enabled {
        Err(SpecFailure::FlagDisabled)
    } else {
        match spec_select_allocation(flag.allocations@, subject_key, attrs, flag.total_shards) {
            Err(reasons) => Err(SpecFailure::NoAllocationMatched(reasons)),
            Ok((alloc, split)) => match spec_find_variation(flag.variations@, split.variation_key@) {
                None => Err(SpecFailure::VariationNotFound(split.variation_key@)),
                Some(variation) => Ok(
                    SpecAssignment {
                        flag_key: flag.key@,
                        subject_key: subject_key,
                        allocation_key: alloc.key@,
                        variation: variation,
                    },
                ),
            },
        }
    }
}

/// The whole evaluation: flag lookup in the snapshot, then flag
/// evaluation.  This is a pure function of the four inputs; it mentions no
/// clock, no process identity and no iteration order.
pub open spec fn spec_evaluate(
    config: Configuration,
    flag_key: Seq<char>,
    subject_key: Seq<char>,
    attrs: Map<Seq<char>, AttrVal>,
) -> Result<SpecAssignment, SpecFailure> {
    match config.spec_get_flag(flag_key) {
        None => Err(SpecFailure::FlagNotFound),
        Some(TryParse::ParseFailed(_)) => Err(SpecFailure::FlagParseFailed),
        Some(TryParse::Parsed(flag)) => spec_eval_flag(flag, subject_key, attrs),
    }
}

/// Repeated evaluation of the same inputs yields the same result: the
/// outcome depends only on the attribute *map*, never on the order in
/// which attributes were inserted, and `spec_evaluate` mentions no other
/// state.
pub proof fn lemma_evaluation_deterministic(
    config: Configuration,
    flag_key: Seq<char>,
    subject_key: Seq<char>,
    a1: Attributes,
    a2: Attributes,
)
    requires
        a1.map_view() == a2.map_view(),
    ensures
        spec_evaluate(config, flag_key, subject_key, a1.map_view()) == spec_evaluate(
            config,
            flag_key,
            subject_key,
            a2.map_view(),
        ),
{
}

/// Renaming a flag while keeping its allocations (and so their selection
/// keys), variations, enabled state and shard space changes no outcome:
/// the same subjects land in the same splits, and failures are unchanged.
/// Only the flag key recorded in a successful assignment differs.
pub proof fn lemma_flag_rename_stability(
    f1: Flag,
    f2: Flag,
    subject_key: Seq<char>,
    attrs: Map<Seq<char>, AttrVal>,
)
    requires
        f2.enabled == f1.enabled,
        f2.total_shards == f1.total_shards,
        f2.variations@ == f1.variations@,
        f2.allocations@ == f1.allocations@,
    ensures
        match (spec_eval_flag(f1, subject_key, attrs), spec_eval_flag(f2, subject_key, attrs)) {
            (Ok(a1), Ok(a2)) => {
                &&& a2.flag_key == f2.key@
                &&& a2.subject_key == a1.subject_key
                &&& a2.allocation_key == a1.allocation_key
                &&& a2.variation == a1.variation
            },
            (Err(e1), Err(e2)) => e1 == e2,
            _ => false,
        },
{
}

/// Stability under shard-key reuse, stated for whole snapshots: when one
/// snapshot holds under `k1` the same flag that another holds under `k2`
/// -- same allocations (and so the same selection keys), variations,
/// enabled state and shard space, only the flag key changed -- every
/// subject resolves to the same variation, or fails for the same reason.
pub proof fn lemma_config_flag_rename_stability(
    c1: Configuration,
    c2: Configuration,
    k1: Seq<char>,
    k2: Seq<char>,
    f1: Flag,
    f2: Flag,
    subject_key: Seq<char>,
    attrs: Map<Seq<char>, AttrVal>,
)
    requires
        c1.spec_get_flag(k1) == Some(TryParse::Parsed(f1)),
        c2.spec_get_flag(k2) == Some(TryParse::Parsed(f2)),
        f2.enabled == f1.enabled,
        f2.total_shards == f1.total_shards,
        f2.variations@ == f1.variations@,
        f2.allocations@ == f1.allocations@,
    ensures
        match (spec_evaluate(c1, k1, subject_key, attrs), spec_evaluate(c2, k2, subject_key, attrs)) {
            (Ok(a1), Ok(a2)) => {
                &&& a2.subject_key == a1.subject_key
                &&& a2.allocation_key == a1.allocation_key
                &&& a2.variation == a1.variation
            },
            (Err(e1), Err(e2)) => e1 == e2,
            _ => false,
        },
{
    lemma_flag_rename_stability(f1, f2, subject_key, attrs);
}

/// If every allocation before `i` rejects and allocation `i` yields a
/// split, the walk selects allocation `i`: evaluation never backtracks
/// over an allocation that matched.
pub proof fn lemma_select_allocation_found(
    allocs: Seq<Allocation>,
    subject_key: Seq<char>,
    attrs: Map<Seq<char>, AttrVal>,
    total_shards: u64,
    i: int,
    split: Split,
)
    requires
        0 <= i < allocs.len(),
        forall|j: int|
            0 <= j < i ==> spec_allocation_outcome(
                #[trigger] allocs[j],
                subject_key,
                attrs,
                total_shards,
            ) is Err,
        spec_allocation_outcome(allocs[i], subject_key, attrs, total_shards) == Ok::<
            Split,
            AllocationNonMatchReason,
        >(split),
    ensures
        spec_select_allocation(allocs, subject_key, attrs, total_shards) == Ok::<
            (Allocation, Split),
            Seq<SpecNonMatch>,
        >((allocs[i], split)),
    decreases allocs.len(),
{
    if i > 0 {
        assert(allocs.drop_first()[i - 1] == allocs[i]);
        assert(forall|j: int| 0 <= j < i - 1 ==> allocs.drop_first()[j] == allocs[j + 1]);
        lemma_select_allocation_found(
            allocs.drop_first(),
            subject_key,
            attrs,
            total_shards,
            i - 1,
            split,
        );
    }
}

/// If every allocation rejects, the walk rejects with one record per
/// allocation considered, in allocation order -- never just the first:
/// a non-match failure is transparent about every allocation.
pub proof fn lemma_select_allocation_none(
    allocs: Seq<Allocation>,
    subject_key: Seq<char>,
    attrs: Map<Seq<char>, AttrVal>,
    total_shards: u64,
)
    requires
        forall|j: int|
            0 <= j < allocs.len() ==> spec_allocation_outcome(
                #[trigger] allocs[j],
                subject_key,
                attrs,
                total_shards,
            ) is Err,
    ensures
        spec_select_allocation(allocs, subject_key, attrs, total_shards) == Err::<
            (Allocation, Split),
            Seq<SpecNonMatch>,
        >(spec_all_rejections(allocs, subject_key, attrs, total_shards)),
    decreases allocs.len(),
{
    if allocs.len() == 0 {
        assert(spec_all_rejections(allocs, subject_key, attrs, total_shards) =~= Seq::<
            SpecNonMatch,
        >::empty());
    } else {
        assert(forall|j: int|
            0 <= j < allocs.drop_first().len() ==> allocs.drop_first()[j] == allocs[j + 1]);
        lemma_select_allocation_none(allocs.drop_first(), subject_key, attrs, total_shards);
        assert(seq![
            SpecNonMatch {
                allocation_key: allocs.first().key@,
                reason: outcome_reason(
                    spec_allocation_outcome(allocs.first(), subject_key, attrs, total_shards),
                ),
            },
        ] + spec_all_rejections(allocs.drop_first(), subject_key, attrs, total_shards)
            =~= spec_all_rejections(allocs, subject_key, attrs, total_shards));
    }
}

/// Whether some range of `split` contains `shard`.
fn split_matches<V: EvalVisitor>(visitor: &mut V, split: &Split, shard: u64) -> (r: bool)
    ensures
        r == split.spec_matches(shard),
{
    let n = split.ranges.len();
    let mut found = false;
    for i in 0..n
        invariant
            n == split.ranges@.len(),
            found <==> exists|j: int|
                0 <= j < i && (#[trigger] split.ranges@[j]).spec_contains(shard),
    {
        if split.ranges[i].contains(shard) {
            found = true;
        }
    }
    visitor.on_split_result(split, found);
    found
}

/// Evaluates one allocation: targeting rules first, then deterministic
/// sharding against the splits, in order.
fn eval_allocation<'a, V: EvalVisitor>(
    visitor: &mut V,
    allocation: &'a Allocation,
    subject_key: &str,
    attributes: &Attributes,
    total_shards: u64,
) -> (r: Result<&'a Split, AllocationNonMatchReason>)
    ensures
        match r {
            Ok(split) => spec_allocation_outcome(
                *allocation,
                subject_key@,
                attributes.map_view(),
                total_shards,
            ) == Ok::<Split, AllocationNonMatchReason>(*split),
            Err(reason) => spec_allocation_outcome(
                *allocation,
                subject_key@,
                attributes.map_view(),
                total_shards,
            ) == Err::<Split, AllocationNonMatchReason>(reason),
        },
{
    visitor.on_allocation(allocation);
    let n = allocation.rules.len();
    let mut matched = n == 0;
    for i in 0..n
        invariant
            n == allocation.rules@.len(),
            matched <==> (n == 0 || exists|j: int|
                0 <= j < i && spec_rule_matches(
                    #[trigger] allocation.rules@[j],
                    attributes.map_view(),
                )),
    {
        let rule_matched = eval_rule(visitor, &allocation.rules[i], attributes);
        if rule_matched {
            matched = true;
        }
    }
    if !matched {
        visitor.on_allocation_result(allocation, &AllocationNonMatchReason::RulesDoNotMatch);
        return Err(AllocationNonMatchReason::RulesDoNotMatch);
    }
    if total_shards == 0 {
        visitor.on_allocation_result(allocation, &AllocationNonMatchReason::TrafficShardMiss);
        return Err(AllocationNonMatchReason::TrafficShardMiss);
    }
    let shard = shard_value(allocation.key.as_str(), subject_key, total_shards);
    visitor.on_shard_eval(shard);
    let ghost shard_g = shard;
    let m = allocation.splits.len();
    for k in 0..m
        invariant
            m == allocation.splits@.len(),
            shard_g == shard,
            forall|j: int| 0 <= j < k ==> !(#[trigger] allocation.splits@[j]).spec_matches(shard_g),
            spec_allocation_rules_match(*allocation, attributes.map_view()),
            total_shards > 0,
            shard_g == spec_shard_value(allocation.key@, subject_key@, total_shards),
    {
        let is_match = split_matches(visitor, &allocation.splits[k], shard);
        if is_match {
            proof {
                lemma_first_matching_split_found(allocation.splits@, shard_g, k as int);
            }
            return Ok(&allocation.splits[k]);
        }
    }
    proof {
        lemma_first_matching_split_none(allocation.splits@, shard_g);
    }
    visitor.on_allocation_result(allocation, &AllocationNonMatchReason::TrafficShardMiss);
    Err(AllocationNonMatchReason::TrafficShardMiss)
}

/// If no split before `i` contains `shard` and split `i` does, split `i`
/// is the first match.
proof fn lemma_first_matching_split_found(splits: Seq<Split>, shard: u64, i: int)
    requires
        0 <= i < splits.len(),
        forall|j: int| 0 <= j < i ==> !(#[trigger] splits[j]).spec_matches(shard),
        splits[i].spec_matches(shard),
    ensures
        spec_first_matching_split(splits, shard) == Some(splits[i]),
    decreases splits.len(),
{
    if i > 0 {
        assert(splits.drop_first()[i - 1] == splits[i]);
        assert(forall|j: int| 0 <= j < i - 1 ==> splits.drop_first()[j] == splits[j + 1]);
        lemma_first_matching_split_found(splits.drop_first(), shard, i - 1);
    }
}

/// If no split contains `shard`, there is no first match.
proof fn lemma_first_matching_split_none(splits: Seq<Split>, shard: u64)
    requires
        forall|j: int| 0 <= j < splits.len() ==> !(#[trigger] splits[j]).spec_matches(shard),
    ensures
        spec_first_matching_split(splits, shard) is None,
    decreases splits.len(),
{
    if splits.len() > 0 {
        assert(forall|j: int|
            0 <= j < splits.drop_first().len() ==> splits.drop_first()[j] == splits[j + 1]);
        lemma_first_matching_split_none(splits.drop_first(), shard);
    }
}

/// Allocation `j` was rejected and `rec` records its key and reason.
pub open spec fn spec_rejection_recorded(
    allocs: Seq<Allocation>,
    j: int,
    rec: AllocationNonMatch,
    subject_key: Seq<char>,
    attrs: Map<Seq<char>, AttrVal>,
    total_shards: u64,
) -> bool {
    &&& rec.allocation_key@ == allocs[j].key@
    &&& spec_allocation_outcome(allocs[j], subject_key, attrs, total_shards) == Err::<
        Split,
        AllocationNonMatchReason,
    >(rec.reason)
}

/// Walks a flag's allocations in order: the first allocation that yields
/// a split is selected; otherwise one rejection record per allocation is
/// returned, in allocation order.
fn select_allocation<'a, V: EvalVisitor>(
    visitor: &mut V,
    allocations: &'a Vec<Allocation>,
    subject_key: &str,
    attributes: &Attributes,
    total_shards: u64,
) -> (r: Result<(&'a Allocation, &'a Split), Vec<AllocationNonMatch>>)
    ensures
        match r {
            Ok(p) => spec_select_allocation(
                allocations@,
                subject_key@,
                attributes.map_view(),
                total_shards,
            ) == Ok::<(Allocation, Split), Seq<SpecNonMatch>>((*p.0, *p.1)),
            Err(reasons) => {
                &&& spec_select_allocation(
                    allocations@,
                    subject_key@,
                    attributes.map_view(),
                    total_shards,
                ) == Err::<(Allocation, Split), Seq<SpecNonMatch>>(
                    spec_all_rejections(
                        allocations@,
                        subject_key@,
                        attributes.map_view(),
                        total_shards,
                    ),
                )
                &&& rejections_match(
                    reasons@,
                    spec_all_rejections(
                        allocations@,
                        subject_key@,
                        attributes.map_view(),
                        total_shards,
                    ),
                )
            },
        },
{
    let ghost full = allocations@;
    let ghost attrs = attributes.map_view();
    let n = allocations.len();
    let mut reasons: Vec<AllocationNonMatch> = Vec::new();
    for i in 0..n
        invariant
            n == allocations@.len(),
            full == allocations@,
            attrs == attributes.map_view(),
            reasons@.len() == i,
            forall|j: int|
                0 <= j < i ==> spec_rejection_recorded(
                    full,
                    j,
                    #[trigger] reasons@[j],
                    subject_key@,
                    attrs,
                    total_shards,
                ),
    {
        let allocation = &allocations[i];
        match eval_allocation(visitor, allocation, subject_key, attributes, total_shards) {
            Ok(split) => {
                proof {
                    assert forall|j: int| 0 <= j < i implies spec_allocation_outcome(
                        #[trigger] full[j],
                        subject_key@,
                        attrs,
                        total_shards,
                    ) is Err by {
                        assert(spec_rejection_recorded(
                            full,
                            j,
                            reasons@[j],
                            subject_key@,
                            attrs,
                            total_shards,
                        ));
                    }
                    lemma_select_allocation_found(
                        full,
                        subject_key@,
                        attrs,
                        total_shards,
                        i as int,
                        *split,
                    );
                }
                return Ok((allocation, split));
            },
            Err(reason) => {
                reasons.push(
                    AllocationNonMatch { allocation_key: allocation.key.clone(), reason },
                );
            },
        }
    }
    proof {
        assert forall|j: int| 0 <= j < n implies spec_allocation_outcome(
            #[trigger] full[j],
            subject_key@,
            attrs,
            total_shards,
        ) is Err by {
            assert(spec_rejection_recorded(full, j, reasons@[j], subject_key@, attrs, total_shards));
        }
        lemma_select_allocation_none(full, subject_key@, attrs, total_shards);
        assert forall|j: int|
            0 <= j < n implies (#[trigger] reasons@[j]).allocation_key@ == spec_all_rejections(
            full,
            subject_key@,
            attrs,
            total_shards,
        )[j].allocation_key && reasons@[j].reason == spec_all_rejections(
            full,
            subject_key@,
            attrs,
            total_shards,
        )[j].reason by {
            assert(spec_rejection_recorded(full, j, reasons@[j], subject_key@, attrs, total_shards));
        }
    }
    Err(reasons)
}

/// Evaluates a flag for a subject, reporting every stage to `visitor`.
///
/// The result is exactly what [`spec_evaluate`] describes for the
/// snapshot, the two keys and the attribute map; the visitor observes the
/// stages but cannot change the outcome.
pub fn get_assignment_with_visitor<V: EvalVisitor>(
    visitor: &mut V,
    configuration: &Configuration,
    flag_key: &str,
    subject_key: &str,
    attributes: &Attributes,
) -> (r: Result<Assignment, EvaluationFailure>)
    ensures
        outcome_matches(
            r,
            spec_evaluate(*configuration, flag_key@, subject_key@, attributes.map_view()),
        ),
{
    visitor.on_configuration(configuration);
    let flag = match configuration.get_flag(flag_key) {
        None => {
            let r = Err(EvaluationFailure::FlagNotFound);
            visitor.on_result(&r);
            return r;
        },
        Some(TryParse::ParseFailed(_)) => {
            let r = Err(EvaluationFailure::FlagParseFailed);
            visitor.on_result(&r);
            return r;
        },
        Some(TryParse::Parsed(f)) => f,
    };
    visitor.on_flag_configuration(flag);
    if !flag.enabled {
        let r = Err(EvaluationFailure::FlagDisabled);
        visitor.on_result(&r);
        return r;
    }
    let r = match select_allocation(
        visitor,
        &flag.allocations,
        subject_key,
        attributes,
        flag.total_shards,
    ) {
        Err(reasons) => Err(EvaluationFailure::NoAllocationMatched(reasons)),
        Ok((allocation, split)) => match flag.find_variation(split.variation_key.as_str()) {
            None => Err(EvaluationFailure::VariationNotFound(split.variation_key.clone())),
            Some(variation) => {
                visitor.on_variation(variation);
                Ok(
                    Assignment {
                        flag_key: flag.key.clone(),
                        subject_key: subject_key.to_owned(),
                        allocation_key: allocation.key.clone(),
                        variation: variation.duplicate(),
                    },
                )
            },
        },
    };
    visitor.on_result(&r);
    r
}

/// Evaluates a flag for a subject with no observer installed.
///
/// Same contract as [`get_assignment_with_visitor`]: the result is the
/// pure function [`spec_evaluate`] of the inputs.
pub fn get_assignment(
    configuration: &Configuration,
    flag_key: &str,
    subject_key: &str,
    attributes: &Attributes,
) -> (r: Result<Assignment, EvaluationFailure>)
    ensures
        outcome_matches(
            r,
            spec_evaluate(*configuration, flag_key@, subject_key@, attributes.map_view()),
        ),
{
    let mut visitor = NoopEvalVisitor;
    get_assignment_with_visitor(&mut visitor, configuration, flag_key, subject_key, attributes)
}

} // verus!
