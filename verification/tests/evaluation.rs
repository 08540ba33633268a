use eppo_core::attributes::{AttributeValue, Attributes};
use eppo_core::configuration::Configuration;
use eppo_core::error::{AllocationNonMatchReason, EvaluationFailure};
use eppo_core::eval_assignment::{get_assignment, get_assignment_with_visitor, Assignment};
use eppo_core::eval_bandits::{get_bandit_action, BanditResult, BanditSelector};
use eppo_core::eval_visitor::{EvalVisitor, NoopEvalVisitor};
use eppo_core::ufc::{
    Allocation, BanditConfiguration, BanditResponse, BanditVariation, Condition, ConditionCheck,
    Flag, Rule, ShardRange, Split, TryParse, UniversalFlagConfig, Variation, VariationValue,
};

fn text(s: &str) -> AttributeValue {
    AttributeValue::Text(s.to_string())
}

fn split(variation_key: &str, ranges: Vec<(u64, u64)>) -> Split {
    Split {
        variation_key: variation_key.to_string(),
        ranges: ranges
            .into_iter()
            .map(|(start, end)| ShardRange { start, end })
            .collect(),
    }
}

fn variation_text(key: &str, value: &str) -> Variation {
    Variation {
        key: key.to_string(),
        value: VariationValue::Text(value.to_string()),
    }
}

fn unconditional_allocation(key: &str, splits: Vec<Split>) -> Allocation {
    Allocation {
        key: key.to_string(),
        rules: Vec::new(),
        splits,
    }
}

fn flag(key: &str, variations: Vec<Variation>, allocations: Vec<Allocation>) -> Flag {
    Flag {
        key: key.to_string(),
        enabled: true,
        total_shards: 10_000,
        variations,
        allocations,
    }
}

fn config_of_flags(flags: Vec<Flag>) -> Configuration {
    let entries = flags
        .into_iter()
        .map(|f| (f.key.clone(), TryParse::Parsed(f)))
        .collect();
    Configuration::from_server_response(
        UniversalFlagConfig {
            flags: entries,
            bandits: Vec::new(),
        },
        None,
    )
}

/// The scenario flag: one unconditional allocation, two splits 50/50 on
/// keys "blue"/"green".
fn checkout_config() -> Configuration {
    config_of_flags(vec![flag(
        "checkout-button-color",
        vec![
            variation_text("blue", "#0000ff"),
            variation_text("green", "#00ff00"),
        ],
        vec![unconditional_allocation(
            "checkout-allocation",
            vec![
                split("blue", vec![(0, 5_000)]),
                split("green", vec![(5_000, 10_000)]),
            ],
        )],
    )])
}

#[test]
fn scenario_checkout_button_color_is_stable() {
    let config = checkout_config();
    let attributes = Attributes::new();
    let first = get_assignment(&config, "checkout-button-color", "user-42", &attributes)
        .expect("unconditional 50/50 flag must assign");
    // Pinned expectation: FNV-1a("checkout-allocation-user-42") % 10000 is
    // 9067, which falls into the "green" split.  The same configuration
    // must produce this in every process and on every run.
    assert_eq!(first.variation.key, "green");
    assert_eq!(first.allocation_key, "checkout-allocation");
    assert_eq!(first.flag_key, "checkout-button-color");
    assert_eq!(first.subject_key, "user-42");
    for _ in 0..100 {
        let again = get_assignment(&config, "checkout-button-color", "user-42", &attributes)
            .expect("must assign");
        assert_eq!(again, first);
    }
}

#[test]
fn determinism_is_independent_of_attribute_insertion_order() {
    let config = config_of_flags(vec![flag(
        "targeted",
        vec![variation_text("on", "on")],
        vec![Allocation {
            key: "alloc".to_string(),
            rules: vec![Rule {
                conditions: vec![
                    Condition {
                        attribute: "country".to_string(),
                        check: ConditionCheck::OneOf {
                            values: vec!["de".to_string(), "fr".to_string()],
                        },
                    },
                    Condition {
                        attribute: "age".to_string(),
                        check: ConditionCheck::GreaterThanOrEqual { value: 18 },
                    },
                ],
            }],
            splits: vec![split("on", vec![(0, 10_000)])],
        }],
    )]);

    let mut a1 = Attributes::new();
    a1.set("country".to_string(), text("de"));
    a1.set("age".to_string(), AttributeValue::Number(30));

    let mut a2 = Attributes::new();
    a2.set("age".to_string(), AttributeValue::Number(30));
    a2.set("country".to_string(), text("de"));

    let r1 = get_assignment(&config, "targeted", "subject-1", &a1);
    let r2 = get_assignment(&config, "targeted", "subject-1", &a2);
    assert_eq!(r1, r2);
    assert_eq!(r1.unwrap().variation.key, "on");
}

#[test]
fn distribution_of_a_fifty_fifty_split() {
    let config = config_of_flags(vec![flag(
        "experiment",
        vec![
            variation_text("blue", "blue"),
            variation_text("green", "green"),
        ],
        vec![unconditional_allocation(
            "experiment-allocation",
            vec![
                split("blue", vec![(0, 5_000)]),
                split("green", vec![(5_000, 10_000)]),
            ],
        )],
    )]);
    let attributes = Attributes::new();
    let mut blue = 0usize;
    for i in 0..10_000 {
        let subject = format!("subject-{}", i);
        let a = get_assignment(&config, "experiment", &subject, &attributes).expect("must assign");
        if a.variation.key == "blue" {
            blue += 1;
        }
    }
    // Expected 50% +/- 2%.
    assert!(blue >= 4_800, "blue fraction too low: {}", blue);
    assert!(blue <= 5_200, "blue fraction too high: {}", blue);
}

#[test]
fn flag_rename_keeps_shard_outcomes() {
    let make = |name: &str| {
        config_of_flags(vec![flag(
            name,
            vec![
                variation_text("blue", "blue"),
                variation_text("green", "green"),
            ],
            vec![unconditional_allocation(
                "stable-allocation",
                vec![
                    split("blue", vec![(0, 5_000)]),
                    split("green", vec![(5_000, 10_000)]),
                ],
            )],
        )])
    };
    let before = make("old-name");
    let after = make("new-name");
    let attributes = Attributes::new();
    for i in 0..500 {
        let subject = format!("user-{}", i);
        let b = get_assignment(&before, "old-name", &subject, &attributes).expect("assigns");
        let a = get_assignment(&after, "new-name", &subject, &attributes).expect("assigns");
        assert_eq!(b.variation.key, a.variation.key);
        assert_eq!(b.allocation_key, a.allocation_key);
    }
}

#[test]
fn non_match_enumerates_every_allocation() {
    let config = config_of_flags(vec![flag(
        "picky",
        vec![variation_text("on", "on")],
        vec![
            Allocation {
                key: "first".to_string(),
                rules: vec![Rule {
                    conditions: vec![Condition {
                        attribute: "vip".to_string(),
                        check: ConditionCheck::Equals {
                            value: AttributeValue::Boolean(true),
                        },
                    }],
                }],
                splits: vec![split("on", vec![(0, 10_000)])],
            },
            // Rules match everyone, but the splits carry no traffic.
            unconditional_allocation("second", vec![split("on", vec![])]),
        ],
    )]);
    let attributes = Attributes::new();
    let failure = get_assignment(&config, "picky", "user-1", &attributes).unwrap_err();
    match failure {
        EvaluationFailure::NoAllocationMatched(reasons) => {
            assert_eq!(reasons.len(), 2);
            assert_eq!(reasons[0].allocation_key, "first");
            assert_eq!(reasons[0].reason, AllocationNonMatchReason::RulesDoNotMatch);
            assert_eq!(reasons[1].allocation_key, "second");
            assert_eq!(reasons[1].reason, AllocationNonMatchReason::TrafficShardMiss);
        }
        other => panic!("expected NoAllocationMatched, got {:?}", other),
    }
}

#[test]
fn vacuous_rule_matches_with_and_without_attributes() {
    let config = config_of_flags(vec![flag(
        "always-on",
        vec![variation_text("on", "on")],
        vec![Allocation {
            key: "vacuous".to_string(),
            rules: vec![Rule {
                conditions: Vec::new(),
            }],
            splits: vec![split("on", vec![(0, 10_000)])],
        }],
    )]);
    let empty = Attributes::new();
    assert_eq!(
        get_assignment(&config, "always-on", "anyone", &empty)
            .unwrap()
            .variation
            .key,
        "on"
    );
    let mut some = Attributes::new();
    some.set("whatever".to_string(), text("value"));
    assert_eq!(
        get_assignment(&config, "always-on", "anyone", &some)
            .unwrap()
            .variation
            .key,
        "on"
    );
}

#[test]
fn invalid_condition_is_skipped_not_false() {
    // One condition with an invalid regex, one that matches: the rule must
    // still match through the valid condition.
    let config = config_of_flags(vec![flag(
        "lenient",
        vec![variation_text("on", "on")],
        vec![Allocation {
            key: "alloc".to_string(),
            rules: vec![Rule {
                conditions: vec![
                    Condition {
                        attribute: "name".to_string(),
                        check: ConditionCheck::Matches {
                            pattern: "(".to_string(), // does not compile
                        },
                    },
                    Condition {
                        attribute: "name".to_string(),
                        check: ConditionCheck::Equals { value: text("ada") },
                    },
                ],
            }],
            splits: vec![split("on", vec![(0, 10_000)])],
        }],
    )]);
    let mut attributes = Attributes::new();
    attributes.set("name".to_string(), text("ada"));
    assert!(get_assignment(&config, "lenient", "s", &attributes).is_ok());

    // For contrast: a *valid* regex that does not match makes the rule
    // fail outright.
    let config2 = config_of_flags(vec![flag(
        "strict",
        vec![variation_text("on", "on")],
        vec![Allocation {
            key: "alloc".to_string(),
            rules: vec![Rule {
                conditions: vec![
                    Condition {
                        attribute: "name".to_string(),
                        check: ConditionCheck::Matches {
                            pattern: "^z".to_string(),
                        },
                    },
                    Condition {
                        attribute: "name".to_string(),
                        check: ConditionCheck::Equals { value: text("ada") },
                    },
                ],
            }],
            splits: vec![split("on", vec![(0, 10_000)])],
        }],
    )]);
    assert!(get_assignment(&config2, "strict", "s", &attributes).is_err());
}

#[test]
fn regex_condition_matches_text_attributes() {
    let config = config_of_flags(vec![flag(
        "mail",
        vec![variation_text("corp", "corp")],
        vec![Allocation {
            key: "alloc".to_string(),
            rules: vec![Rule {
                conditions: vec![Condition {
                    attribute: "email".to_string(),
                    check: ConditionCheck::Matches {
                        pattern: "@example\\.com$".to_string(),
                    },
                }],
            }],
            splits: vec![split("corp", vec![(0, 10_000)])],
        }],
    )]);
    let mut hit = Attributes::new();
    hit.set("email".to_string(), text("ada@example.com"));
    assert!(get_assignment(&config, "mail", "s", &hit).is_ok());

    let mut miss = Attributes::new();
    miss.set("email".to_string(), text("ada@example.org"));
    assert!(get_assignment(&config, "mail", "s", &miss).is_err());
}

#[test]
fn missing_attribute_never_matches() {
    let config = config_of_flags(vec![flag(
        "needs-attr",
        vec![variation_text("on", "on")],
        vec![Allocation {
            key: "alloc".to_string(),
            rules: vec![Rule {
                conditions: vec![Condition {
                    attribute: "plan".to_string(),
                    check: ConditionCheck::NotOneOf {
                        values: vec!["free".to_string()],
                    },
                }],
            }],
            splits: vec![split("on", vec![(0, 10_000)])],
        }],
    )]);
    let empty = Attributes::new();
    // Even a negated condition does not match a missing attribute.
    assert!(get_assignment(&config, "needs-attr", "s", &empty).is_err());
    let mut paid = Attributes::new();
    paid.set("plan".to_string(), text("pro"));
    assert!(get_assignment(&config, "needs-attr", "s", &paid).is_ok());
}

#[test]
fn numeric_and_one_of_conditions() {
    let config = config_of_flags(vec![flag(
        "numeric",
        vec![variation_text("on", "on")],
        vec![Allocation {
            key: "alloc".to_string(),
            rules: vec![Rule {
                conditions: vec![
                    Condition {
                        attribute: "age".to_string(),
                        check: ConditionCheck::GreaterThan { value: 17 },
                    },
                    Condition {
                        attribute: "age".to_string(),
                        check: ConditionCheck::LessThanOrEqual { value: 65 },
                    },
                    Condition {
                        attribute: "country".to_string(),
                        check: ConditionCheck::OneOf {
                            values: vec!["de".to_string(), "fr".to_string()],
                        },
                    },
                ],
            }],
            splits: vec![split("on", vec![(0, 10_000)])],
        }],
    )]);
    let mut ok = Attributes::new();
    ok.set("age".to_string(), AttributeValue::Number(30));
    ok.set("country".to_string(), text("fr"));
    assert!(get_assignment(&config, "numeric", "s", &ok).is_ok());

    let mut too_young = Attributes::new();
    too_young.set("age".to_string(), AttributeValue::Number(17));
    too_young.set("country".to_string(), text("fr"));
    assert!(get_assignment(&config, "numeric", "s", &too_young).is_err());

    let mut wrong_country = Attributes::new();
    wrong_country.set("age".to_string(), AttributeValue::Number(30));
    wrong_country.set("country".to_string(), text("us"));
    assert!(get_assignment(&config, "numeric", "s", &wrong_country).is_err());
}

#[test]
fn flag_not_found_and_disabled_and_parse_failed() {
    let mut disabled = flag(
        "off",
        vec![variation_text("on", "on")],
        vec![unconditional_allocation(
            "alloc",
            vec![split("on", vec![(0, 10_000)])],
        )],
    );
    disabled.enabled = false;
    let config = Configuration::from_server_response(
        UniversalFlagConfig {
            flags: vec![
                ("off".to_string(), TryParse::Parsed(disabled)),
                (
                    "broken".to_string(),
                    TryParse::ParseFailed("{\"bad\": }".to_string()),
                ),
            ],
            bandits: Vec::new(),
        },
        None,
    );
    let attributes = Attributes::new();
    assert_eq!(
        get_assignment(&config, "missing", "s", &attributes).unwrap_err(),
        EvaluationFailure::FlagNotFound
    );
    assert_eq!(
        get_assignment(&config, "off", "s", &attributes).unwrap_err(),
        EvaluationFailure::FlagDisabled
    );
    assert_eq!(
        get_assignment(&config, "broken", "s", &attributes).unwrap_err(),
        EvaluationFailure::FlagParseFailed
    );
}

#[test]
fn variation_not_found_reports_the_key() {
    // The split names a variation the flag does not define.
    let config = config_of_flags(vec![flag(
        "inconsistent",
        vec![variation_text("on", "on")],
        vec![unconditional_allocation(
            "alloc",
            vec![split("ghost-variation", vec![(0, 10_000)])],
        )],
    )]);
    let attributes = Attributes::new();
    assert_eq!(
        get_assignment(&config, "inconsistent", "s", &attributes).unwrap_err(),
        EvaluationFailure::VariationNotFound("ghost-variation".to_string())
    );
}

#[test]
fn first_matching_allocation_wins() {
    let config = config_of_flags(vec![flag(
        "ordered",
        vec![
            variation_text("first", "first"),
            variation_text("second", "second"),
        ],
        vec![
            unconditional_allocation("a1", vec![split("first", vec![(0, 10_000)])]),
            unconditional_allocation("a2", vec![split("second", vec![(0, 10_000)])]),
        ],
    )]);
    let attributes = Attributes::new();
    let a = get_assignment(&config, "ordered", "s", &attributes).unwrap();
    assert_eq!(a.variation.key, "first");
    assert_eq!(a.allocation_key, "a1");
}

#[derive(Default)]
struct CountingVisitor {
    configurations: usize,
    flags: usize,
    allocations: usize,
    rules: usize,
    conditions: usize,
    skips: usize,
    shards: usize,
    splits: usize,
    variations: usize,
    results: usize,
}

impl EvalVisitor for CountingVisitor {
    fn on_configuration(&mut self, _configuration: &Configuration) {
        self.configurations += 1;
    }
    fn on_flag_configuration(&mut self, _flag: &Flag) {
        self.flags += 1;
    }
    fn on_allocation(&mut self, _allocation: &Allocation) {
        self.allocations += 1;
    }
    fn on_condition_skip(&mut self, _condition: &Condition) {
        self.skips += 1;
    }
    fn on_condition_eval(
        &mut self,
        _condition: &Condition,
        _attribute_value: Option<&AttributeValue>,
        _result: bool,
    ) {
        self.conditions += 1;
    }
    fn on_rule_result(&mut self, _rule: &Rule, _result: bool) {
        self.rules += 1;
    }
    fn on_shard_eval(&mut self, _shard: u64) {
        self.shards += 1;
    }
    fn on_split_result(&mut self, _split: &Split, _result: bool) {
        self.splits += 1;
    }
    fn on_allocation_result(
        &mut self,
        _allocation: &Allocation,
        _reason: &AllocationNonMatchReason,
    ) {
    }
    fn on_variation(&mut self, _variation: &Variation) {
        self.variations += 1;
    }
    fn on_result(&mut self, _result: &Result<Assignment, EvaluationFailure>) {
        self.results += 1;
    }
    fn on_bandit_key(&mut self, _key: &str) {}
    fn on_bandit_result(&mut self, _result: &BanditResult, _failure: Option<&EvaluationFailure>) {}
}

#[test]
fn visitor_observes_stages_without_changing_the_result() {
    let config = checkout_config();
    let attributes = Attributes::new();
    let plain = get_assignment(&config, "checkout-button-color", "user-42", &attributes);
    let mut visitor = CountingVisitor::default();
    let observed = get_assignment_with_visitor(
        &mut visitor,
        &config,
        "checkout-button-color",
        "user-42",
        &attributes,
    );
    assert_eq!(plain, observed);
    assert_eq!(visitor.configurations, 1);
    assert_eq!(visitor.flags, 1);
    assert_eq!(visitor.allocations, 1);
    assert_eq!(visitor.shards, 1);
    assert_eq!(visitor.splits, 2); // "blue" misses, "green" matches
    assert_eq!(visitor.variations, 1);
    assert_eq!(visitor.results, 1);
    assert_eq!(visitor.rules, 0); // unconditional allocation
    assert_eq!(visitor.conditions, 0);
    assert_eq!(visitor.skips, 0);
}

#[test]
fn no_observer_evaluation_is_repeatable_ten_thousand_times() {
    // The no-observer path goes through NoopEvalVisitor, whose hooks are
    // empty and inlined; this exercises it at volume and checks that every
    // one of 10,000 evaluations returns the identical result.
    let config = checkout_config();
    let attributes = Attributes::new();
    let first = get_assignment(&config, "checkout-button-color", "user-42", &attributes);
    for _ in 0..10_000 {
        let next = get_assignment(&config, "checkout-button-color", "user-42", &attributes);
        assert_eq!(next, first);
    }
}

struct FixedSelector {
    choice: Option<String>,
    calls: usize,
}

impl BanditSelector for FixedSelector {
    fn select_action(
        &mut self,
        _bandit: &BanditConfiguration,
        _flag_key: &str,
        _subject_key: &str,
        _attributes: &Attributes,
        actions: &Vec<String>,
    ) -> Option<String> {
        self.calls += 1;
        self.choice.clone().filter(|c| actions.contains(c))
    }
}

fn bandit_flag_config(with_bandit_config: bool) -> Configuration {
    let f = flag(
        "recommendation",
        vec![variation_text("bandit-variation", "bandit-traffic")],
        vec![unconditional_allocation(
            "alloc",
            vec![split("bandit-variation", vec![(0, 10_000)])],
        )],
    );
    let bandits = vec![(
        "recommender".to_string(),
        vec![BanditVariation {
            key: "recommender".to_string(),
            flag_key: "recommendation".to_string(),
            variation_key: "bandit-variation".to_string(),
            variation_value: "bandit-traffic".to_string(),
        }],
    )];
    let response = if with_bandit_config {
        Some(BanditResponse {
            bandits: vec![(
                "recommender".to_string(),
                BanditConfiguration {
                    bandit_key: "recommender".to_string(),
                    model_name: "falcon".to_string(),
                    model_version: "v1".to_string(),
                },
            )],
        })
    } else {
        None
    };
    Configuration::from_server_response(
        UniversalFlagConfig {
            flags: vec![(
                "recommendation".to_string(),
                TryParse::Parsed(f),
            )],
            bandits,
        },
        response,
    )
}

#[test]
fn bandit_selects_an_action_when_configured() {
    let config = bandit_flag_config(true);
    let attributes = Attributes::new();
    let actions = vec!["nike".to_string(), "adidas".to_string()];
    let mut selector = FixedSelector {
        choice: Some("nike".to_string()),
        calls: 0,
    };
    let (result, failure) = get_bandit_action(
        &mut selector,
        &config,
        "recommendation",
        "user-1",
        &attributes,
        &actions,
        "default",
    );
    assert_eq!(failure, None);
    assert_eq!(result.variation, "bandit-variation");
    assert_eq!(result.action, Some("nike".to_string()));
    assert_eq!(selector.calls, 1);
}

#[test]
fn bandit_fallback_when_bandit_configuration_is_missing() {
    // The variation is bandit-linked but the bandit response is absent:
    // evaluation must still return a usable result, alongside a recorded
    // failure -- not "no result".
    let config = bandit_flag_config(false);
    let attributes = Attributes::new();
    let actions = vec!["nike".to_string()];
    let mut selector = FixedSelector {
        choice: Some("nike".to_string()),
        calls: 0,
    };
    let (result, failure) = get_bandit_action(
        &mut selector,
        &config,
        "recommendation",
        "user-1",
        &attributes,
        &actions,
        "default",
    );
    assert_eq!(failure, Some(EvaluationFailure::BanditConfigurationMissing));
    assert_eq!(result.variation, "bandit-variation");
    assert_eq!(result.action, None);
    assert_eq!(selector.calls, 0);
}

#[test]
fn bandit_returns_default_variation_when_assignment_fails() {
    let config = bandit_flag_config(true);
    let attributes = Attributes::new();
    let actions = vec!["nike".to_string()];
    let mut selector = FixedSelector {
        choice: Some("nike".to_string()),
        calls: 0,
    };
    let (result, failure) = get_bandit_action(
        &mut selector,
        &config,
        "no-such-flag",
        "user-1",
        &attributes,
        &actions,
        "default",
    );
    assert_eq!(failure, Some(EvaluationFailure::FlagNotFound));
    assert_eq!(result.variation, "default");
    assert_eq!(result.action, None);
    assert_eq!(selector.calls, 0);
}

#[test]
fn non_bandit_variation_gets_no_action() {
    let config = checkout_config();
    let attributes = Attributes::new();
    let actions = vec!["nike".to_string()];
    let mut selector = FixedSelector {
        choice: Some("nike".to_string()),
        calls: 0,
    };
    let (result, failure) = get_bandit_action(
        &mut selector,
        &config,
        "checkout-button-color",
        "user-42",
        &attributes,
        &actions,
        "default",
    );
    assert_eq!(failure, None);
    assert_eq!(result.variation, "green");
    assert_eq!(result.action, None);
    assert_eq!(selector.calls, 0);
}

#[test]
fn bandit_index_keeps_the_last_association() {
    // Two bandit variations for the same (flag, variation value): the
    // derived index must keep the one recorded later, exactly as a fold
    // with overwriting does.
    let config = Configuration::from_server_response(
        UniversalFlagConfig {
            flags: Vec::new(),
            bandits: vec![
                (
                    "first-bandit".to_string(),
                    vec![BanditVariation {
                        key: "first-bandit".to_string(),
                        flag_key: "f".to_string(),
                        variation_key: "v".to_string(),
                        variation_value: "traffic".to_string(),
                    }],
                ),
                (
                    "second-bandit".to_string(),
                    vec![BanditVariation {
                        key: "second-bandit".to_string(),
                        flag_key: "f".to_string(),
                        variation_key: "v".to_string(),
                        variation_value: "traffic".to_string(),
                    }],
                ),
            ],
        },
        None,
    );
    assert_eq!(
        config.get_bandit_key("f", "traffic").map(String::as_str),
        Some("second-bandit")
    );
    assert_eq!(config.get_bandit_key("f", "other"), None);
    assert_eq!(config.get_bandit_key("g", "traffic"), None);
}

#[test]
fn attributes_later_binding_shadows_earlier() {
    let mut attributes = Attributes::new();
    attributes.set("plan".to_string(), text("free"));
    attributes.set("plan".to_string(), text("pro"));
    assert_eq!(attributes.get("plan"), Some(&text("pro")));
    assert_eq!(attributes.get("missing"), None);
}

#[test]
fn any_rule_of_an_allocation_may_admit_the_subject() {
    // Two rules: the first does not match, the second does; the
    // allocation's rule set matches through the second rule.
    let config = config_of_flags(vec![flag(
        "either",
        vec![variation_text("on", "on")],
        vec![Allocation {
            key: "alloc".to_string(),
            rules: vec![
                Rule {
                    conditions: vec![Condition {
                        attribute: "plan".to_string(),
                        check: ConditionCheck::Equals { value: text("enterprise") },
                    }],
                },
                Rule {
                    conditions: vec![Condition {
                        attribute: "plan".to_string(),
                        check: ConditionCheck::Equals { value: text("pro") },
                    }],
                },
            ],
            splits: vec![split("on", vec![(0, 10_000)])],
        }],
    )]);
    let mut attributes = Attributes::new();
    attributes.set("plan".to_string(), text("pro"));
    assert!(get_assignment(&config, "either", "s", &attributes).is_ok());
}

#[test]
fn zero_shard_space_carries_no_traffic() {
    let mut f = flag(
        "empty-space",
        vec![variation_text("on", "on")],
        vec![unconditional_allocation("alloc", vec![split("on", vec![(0, 10_000)])])],
    );
    f.total_shards = 0;
    let config = config_of_flags(vec![f]);
    let attributes = Attributes::new();
    let failure = get_assignment(&config, "empty-space", "s", &attributes).unwrap_err();
    match failure {
        EvaluationFailure::NoAllocationMatched(reasons) => {
            assert_eq!(reasons.len(), 1);
            assert_eq!(reasons[0].reason, AllocationNonMatchReason::TrafficShardMiss);
        }
        other => panic!("expected NoAllocationMatched, got {:?}", other),
    }
}
