use std::sync::Arc;

use eppo_config::evaluation::{details_from, expected_type, value_or_default};
use eppo_config::trace::{build_trace, classify, derive_warnings, has_missed_splits, warning_for};
use eppo_config::trace::{AttributeKind, ConditionOutcome, Operator};
use eppo_config::trace::{AllocationCode, AllocationOutcome, FlagCode, ShardOutcome, SplitOutcome};
use eppo_config::{
    get_assignment, get_assignment_details, shard, AssignmentValue, Attributes, Configuration, Reason,
    Stage, TraceEntry, VariationType,
};

const NOW: i64 = 1_721_260_800_000_000_000;

const FLAGS: &str = r#"{
  "createdAt": "2024-07-18T00:00:00Z",
  "environment": {"name": "test"},
  "flags": {
    "new-user-onboarding": {
      "key": "new-user-onboarding",
      "enabled": true,
      "variationType": "STRING",
      "variations": {"control": {"key": "control", "value": "control"}},
      "allocations": [
        {"key": "everyone", "splits": [{"variationKey": "control", "shards": [
          {"salt": "new-user-onboarding", "ranges": [{"start": 0, "end": 10000}]}
        ]}], "doLog": true}
      ],
      "totalShards": 10000
    },
    "numeric-one-of": {
      "key": "numeric-one-of",
      "enabled": true,
      "variationType": "INTEGER",
      "variations": {"one": {"key": "one", "value": 1}, "two": {"key": "two", "value": 2}},
      "allocations": [
        {"key": "two-or-three",
         "rules": [{"conditions": [{"attribute": "number", "operator": "ONE_OF", "value": ["2", "3"]}]}],
         "splits": [{"variationKey": "two", "shards": []}]}
      ],
      "totalShards": 10000
    },
    "two-rules": {
      "key": "two-rules",
      "enabled": true,
      "variationType": "BOOLEAN",
      "variations": {"yes": {"key": "yes", "value": true}},
      "allocations": [
        {"key": "targeted",
         "rules": [
           {"conditions": [
             {"attribute": "country", "operator": "ONE_OF", "value": ["US"]},
             {"attribute": "age", "operator": "GTE", "value": 18}
           ]},
           {"conditions": [{"attribute": "email", "operator": "MATCHES", "value": "@example\\.com$"}]}
         ],
         "splits": [{"variationKey": "yes", "shards": []}]}
      ],
      "totalShards": 10000
    },
    "half": {
      "key": "half",
      "enabled": true,
      "variationType": "NUMERIC",
      "variations": {"pi": {"key": "pi", "value": 3.1415926}},
      "allocations": [
        {"key": "first-half", "splits": [{"variationKey": "pi", "shards": [
          {"salt": "split", "ranges": [{"start": 0, "end": 5000}]}
        ]}]}
      ],
      "totalShards": 10000
    },
    "layers": {
      "key": "layers",
      "enabled": true,
      "variationType": "JSON",
      "variations": {"object": {"key": "object", "value": "{\"b\": [1, 2], \"a\": null}"}},
      "allocations": [
        {"key": "vip", "rules": [{"conditions": [{"attribute": "vip", "operator": "ONE_OF", "value": ["true"]}]}],
         "splits": [{"variationKey": "object", "shards": []}]},
        {"key": "nobody", "splits": [{"variationKey": "object", "shards": [
          {"salt": "split", "ranges": []}
        ]}]},
        {"key": "rest", "splits": [{"variationKey": "object", "shards": []}]}
      ],
      "totalShards": 10000
    },
    "closed": {
      "key": "closed",
      "enabled": true,
      "variationType": "STRING",
      "variations": {"on": {"key": "on", "value": "on"}},
      "allocations": [
        {"key": "nobody", "splits": [{"variationKey": "on", "shards": [
          {"salt": "split", "ranges": []}
        ]}]}
      ],
      "totalShards": 10000
    },
    "disabled": {
      "key": "disabled",
      "enabled": false,
      "variationType": "STRING",
      "variations": {"on": {"key": "on", "value": "on"}},
      "allocations": [{"key": "everyone", "splits": [{"variationKey": "on", "shards": []}]}],
      "totalShards": 10000
    },
    "unreadable": {
      "key": "unreadable",
      "enabled": true,
      "variationType": "NEW_TYPE",
      "variations": {},
      "allocations": [],
      "totalShards": 10000
    }
  }
}"#;

fn configuration() -> Configuration {
    Configuration::from_flags_configuration(FLAGS.as_bytes()).unwrap()
}

fn attributes(document: &str) -> Attributes {
    Attributes::from_json(document.as_bytes()).unwrap()
}

fn text(value: &str) -> Option<AssignmentValue> {
    Some(AssignmentValue::String(value.to_owned()))
}

fn steps(trace: &[TraceEntry]) -> Vec<(Stage, &str, bool, &str, Option<u64>)> {
    trace
        .iter()
        .map(|e| (e.stage, e.identifier.as_str(), e.matched, e.detail.as_str(), e.shard_value))
        .collect()
}

#[test]
fn full_range_split_assigns_its_variant() {
    let configuration = configuration();
    let result = get_assignment(
        Some(&configuration),
        "new-user-onboarding",
        "subject1",
        &Attributes::new(),
        None,
        NOW,
    );
    assert_eq!(result, text("control"));
}

#[test]
fn full_range_split_is_reported_as_matched() {
    let configuration = configuration();
    let details = get_assignment_details(
        Some(&configuration),
        "new-user-onboarding",
        "subject1",
        &Attributes::new(),
        text("fallback"),
        NOW,
    );
    assert_eq!(details.value, text("control"));
    assert_eq!(details.reason, Reason::VariantFound);
    assert_eq!(
        steps(&details.trace),
        vec![
            (Stage::FlagLookup, "new-user-onboarding", true, "MATCH", None),
            (Stage::Sharding, "new-user-onboarding", true, "", Some(8623)),
            (Stage::SplitResolution, "control", true, "everyone", None),
            (Stage::Allocation, "everyone", true, "MATCH", None),
        ]
    );
}

#[test]
fn numeric_one_of_matches_a_listed_number() {
    let configuration = configuration();
    let subject = attributes(r#"{"number": 2.0}"#);
    let default = Some(AssignmentValue::Integer(0));
    let result = get_assignment(Some(&configuration), "numeric-one-of", "subject1", &subject, default.clone(), NOW);
    assert_eq!(result, Some(AssignmentValue::Integer(2)));
    let details = get_assignment_details(Some(&configuration), "numeric-one-of", "subject1", &subject, default, NOW);
    assert_eq!(details.value, Some(AssignmentValue::Integer(2)));
    assert_eq!(details.reason, Reason::VariantFound);
    assert_eq!(
        steps(&details.trace),
        vec![
            (Stage::FlagLookup, "numeric-one-of", true, "MATCH", None),
            (Stage::RuleEval, "two-or-three", true, "", None),
            (Stage::SplitResolution, "two", true, "two-or-three", None),
            (Stage::Allocation, "two-or-three", true, "MATCH", None),
        ]
    );
}

#[test]
fn numeric_one_of_misses_an_unlisted_number() {
    let configuration = configuration();
    let subject = attributes(r#"{"number": 5.0}"#);
    let default = Some(AssignmentValue::Integer(-7));
    let result = get_assignment(Some(&configuration), "numeric-one-of", "subject1", &subject, default.clone(), NOW);
    assert_eq!(result, Some(AssignmentValue::Integer(-7)));
    let details = get_assignment_details(Some(&configuration), "numeric-one-of", "subject1", &subject, default, NOW);
    assert_eq!(details.value, Some(AssignmentValue::Integer(-7)));
    assert_eq!(details.reason, Reason::NoRuleMatch);
    assert_eq!(
        steps(&details.trace),
        vec![
            (Stage::FlagLookup, "numeric-one-of", true, "DEFAULT_ALLOCATION_NULL", None),
            (Stage::RuleEval, "two-or-three", false, "", None),
            (Stage::Allocation, "two-or-three", false, "FAILING_RULE", None),
        ]
    );
}

#[test]
fn missing_attribute_fails_the_rule() {
    let configuration = configuration();
    let details = get_assignment_details(
        Some(&configuration),
        "numeric-one-of",
        "subject1",
        &Attributes::new(),
        None,
        NOW,
    );
    assert_eq!(details.value, None);
    assert_eq!(details.reason, Reason::NoRuleMatch);
}

fn matches_two_rules(document: &str) -> bool {
    let configuration = configuration();
    let result = get_assignment(
        Some(&configuration),
        "two-rules",
        "subject1",
        &attributes(document),
        Some(AssignmentValue::Boolean(false)),
        NOW,
    );
    result == Some(AssignmentValue::Boolean(true))
}

#[test]
fn rules_are_a_disjunction_of_conjunctions() {
    // first rule: both conditions hold
    assert!(matches_two_rules(r#"{"country": "US", "age": 18}"#));
    // first rule: one condition of the two fails, second rule fails too
    assert!(!matches_two_rules(r#"{"country": "US", "age": 17}"#));
    assert!(!matches_two_rules(r#"{"country": "FR", "age": 40}"#));
    assert!(!matches_two_rules(r#"{"country": "US"}"#));
    // second rule alone
    assert!(matches_two_rules(r#"{"email": "a@example.com"}"#));
    assert!(matches_two_rules(r#"{"country": "FR", "age": 3, "email": "a@example.com"}"#));
    // both rules
    assert!(matches_two_rules(r#"{"country": "US", "age": 30, "email": "a@example.com"}"#));
    // neither
    assert!(!matches_two_rules(r#"{"email": "a@example.org"}"#));
    assert!(!matches_two_rules("{}"));
}

#[test]
fn type_mismatch_between_attribute_and_operator_fails_silently() {
    assert!(!matches_two_rules(r#"{"country": "US", "age": "old"}"#));
    assert!(!matches_two_rules(r#"{"country": "US", "age": true}"#));
    assert!(!matches_two_rules(r#"{"country": "US", "age": null}"#));
}

#[test]
fn evaluation_is_repeatable() {
    let configuration = configuration();
    let subject = attributes(r#"{"country": "US", "age": 21}"#);
    for flag in ["new-user-onboarding", "numeric-one-of", "two-rules", "half", "layers", "closed", "absent"] {
        for subject_key in ["alice", "bob", "carol"] {
            let first = get_assignment(Some(&configuration), flag, subject_key, &subject, None, NOW);
            let second = get_assignment(Some(&configuration), flag, subject_key, &subject, None, NOW);
            assert_eq!(first, second);
        }
    }
}

#[test]
fn details_report_the_value_of_the_plain_evaluation() {
    let configuration = configuration();
    let subject = attributes(r#"{"number": 3, "vip": true}"#);
    for flag in ["new-user-onboarding", "numeric-one-of", "two-rules", "half", "layers", "closed", "disabled", "absent", "unreadable"] {
        for subject_key in ["alice", "bob", "carol", "dave"] {
            let plain = get_assignment(Some(&configuration), flag, subject_key, &subject, None, NOW);
            let details = get_assignment_details(Some(&configuration), flag, subject_key, &subject, None, NOW);
            assert_eq!(details.value, plain);
            assert_eq!(details.reason == Reason::VariantFound, plain.is_some());
        }
    }
}

#[test]
fn absent_configuration_gives_the_default() {
    let result = get_assignment(None, "new-user-onboarding", "subject1", &Attributes::new(), text("fallback"), NOW);
    assert_eq!(result, text("fallback"));
    let details =
        get_assignment_details(None, "new-user-onboarding", "subject1", &Attributes::new(), text("fallback"), NOW);
    assert_eq!(details.value, text("fallback"));
    assert_eq!(details.reason, Reason::NotConfigured);
    assert!(details.trace.is_empty());
    assert_eq!(get_assignment(None, "any", "subject1", &Attributes::new(), None, NOW), None);
}

#[test]
fn unknown_flag_gives_the_default() {
    let configuration = configuration();
    let details = get_assignment_details(Some(&configuration), "absent", "subject1", &Attributes::new(), text("d"), NOW);
    assert_eq!(details.value, text("d"));
    assert_eq!(details.reason, Reason::FlagNotFound);
    assert_eq!(details.trace.len(), 1);
    assert_eq!(details.trace[0].stage, Stage::FlagLookup);
    assert_eq!(details.trace[0].identifier, "absent");
    assert!(!details.trace[0].matched);
    assert_eq!(details.trace[0].detail, "FLAG_UNRECOGNIZED_OR_DISABLED");
}

#[test]
fn disabled_flag_gives_the_default() {
    let configuration = configuration();
    let details =
        get_assignment_details(Some(&configuration), "disabled", "subject1", &Attributes::new(), text("d"), NOW);
    assert_eq!(details.value, text("d"));
    assert_eq!(details.reason, Reason::FlagDisabled);
    assert_eq!(details.trace.len(), 1);
    assert!(details.trace[0].matched);
    assert_eq!(
        get_assignment(Some(&configuration), "disabled", "subject1", &Attributes::new(), text("d"), NOW),
        text("d")
    );
}

#[test]
fn unreadable_flag_is_a_configuration_error() {
    let configuration = configuration();
    let details =
        get_assignment_details(Some(&configuration), "unreadable", "subject1", &Attributes::new(), None, NOW);
    assert_eq!(details.value, None);
    assert_eq!(details.reason, Reason::ConfigurationError);
    assert!(!details.trace[0].matched);
    assert_eq!(details.trace[0].detail, "UNEXPECTED_CONFIGURATION_ERROR");
}

#[test]
fn subject_outside_every_split_gets_the_default() {
    let configuration = configuration();
    let details = get_assignment_details(Some(&configuration), "closed", "subject1", &Attributes::new(), text("d"), NOW);
    assert_eq!(details.value, text("d"));
    assert_eq!(details.reason, Reason::NoSplitMatch);
    assert_eq!(
        steps(&details.trace),
        vec![
            (Stage::FlagLookup, "closed", true, "DEFAULT_ALLOCATION_NULL", None),
            (Stage::Sharding, "split", false, "", Some(6675)),
            (Stage::SplitResolution, "on", false, "nobody", None),
            (Stage::Allocation, "nobody", false, "TRAFFIC_EXPOSURE_MISS", None),
        ]
    );
}

#[test]
fn split_holds_the_subjects_whose_shard_is_in_its_range() {
    let configuration = configuration();
    for subject_key in ["subject1", "subject2", "alice", "bob", "carol", "dave", "erin", "frank"] {
        let inside = shard(subject_key, "split", 10000) < 5000;
        let result = get_assignment(Some(&configuration), "half", subject_key, &Attributes::new(), None, NOW);
        assert_eq!(result.is_some(), inside);
    }
    // shard("subject2", "split", 10000) is 357, that of "subject1" is 6675
    assert!(get_assignment(Some(&configuration), "half", "subject2", &Attributes::new(), None, NOW).is_some());
    assert!(get_assignment(Some(&configuration), "half", "subject1", &Attributes::new(), None, NOW).is_none());
}

#[test]
fn numeric_value_is_held_as_its_bits() {
    let configuration = configuration();
    let result = get_assignment(Some(&configuration), "half", "subject2", &Attributes::new(), None, NOW);
    match result {
        Some(AssignmentValue::Numeric(bits)) => assert_eq!(f64::from_bits(bits), 3.1415926),
        _ => panic!("the flag assigns a number"),
    }
}

#[test]
fn json_value_is_held_as_its_text() {
    let configuration = configuration();
    let result = get_assignment(Some(&configuration), "layers", "subject1", &Attributes::new(), None, NOW);
    assert_eq!(result, Some(AssignmentValue::Json(r#"{"a":null,"b":[1,2]}"#.to_owned())));
}

#[test]
fn first_matching_allocation_wins_and_later_ones_are_left_out() {
    let configuration = configuration();
    let vip = attributes(r#"{"vip": true}"#);
    let details = get_assignment_details(Some(&configuration), "layers", "subject1", &vip, None, NOW);
    assert_eq!(details.reason, Reason::VariantFound);
    assert_eq!(
        steps(&details.trace),
        vec![
            (Stage::FlagLookup, "layers", true, "MATCH", None),
            (Stage::RuleEval, "vip", true, "", None),
            (Stage::SplitResolution, "object", true, "vip", None),
            (Stage::Allocation, "vip", true, "MATCH", None),
        ]
    );

    let details = get_assignment_details(Some(&configuration), "layers", "subject1", &Attributes::new(), None, NOW);
    assert_eq!(details.reason, Reason::VariantFound);
    assert_eq!(
        steps(&details.trace),
        vec![
            (Stage::FlagLookup, "layers", true, "MATCH", None),
            (Stage::RuleEval, "vip", false, "", None),
            (Stage::Allocation, "vip", false, "FAILING_RULE", None),
            (Stage::Sharding, "split", false, "", Some(6675)),
            (Stage::SplitResolution, "object", false, "nobody", None),
            (Stage::Allocation, "nobody", false, "TRAFFIC_EXPOSURE_MISS", None),
            (Stage::SplitResolution, "object", true, "rest", None),
            (Stage::Allocation, "rest", true, "MATCH", None),
        ]
    );
}

#[test]
fn traced_shard_values_are_those_of_the_sharding_function() {
    let configuration = configuration();
    for flag in ["new-user-onboarding", "half", "closed", "layers"] {
        for subject_key in ["subject1", "subject2", "alice", "bob"] {
            let details = get_assignment_details(Some(&configuration), flag, subject_key, &Attributes::new(), None, NOW);
            let mut seen = 0;
            for entry in &details.trace {
                if entry.stage == Stage::Sharding {
                    assert_eq!(entry.shard_value, Some(shard(subject_key, &entry.identifier, 10000)));
                    seen += 1;
                } else {
                    assert_eq!(entry.shard_value, None);
                }
            }
            assert_eq!(seen, 1);
        }
    }
}

#[test]
fn every_rule_that_was_evaluated_is_traced() {
    let configuration = configuration();
    // the first rule fails on its second condition, the second rule matches
    let subject = attributes(r#"{"country": "US", "age": 3, "email": "a@example.com"}"#);
    let details = get_assignment_details(Some(&configuration), "two-rules", "subject1", &subject, None, NOW);
    assert_eq!(details.value, Some(AssignmentValue::Boolean(true)));
    assert_eq!(
        steps(&details.trace),
        vec![
            (Stage::FlagLookup, "two-rules", true, "MATCH", None),
            (Stage::RuleEval, "targeted", false, "", None),
            (Stage::RuleEval, "targeted", true, "", None),
            (Stage::SplitResolution, "yes", true, "targeted", None),
            (Stage::Allocation, "targeted", true, "MATCH", None),
        ]
    );
    // the first rule matches, the second is not looked at
    let subject = attributes(r#"{"country": "US", "age": 30}"#);
    let details = get_assignment_details(Some(&configuration), "two-rules", "subject1", &subject, None, NOW);
    assert_eq!(details.trace.len(), 4);
    assert_eq!(details.trace[1].stage, Stage::RuleEval);
    assert!(details.trace[1].matched);
    assert_eq!(details.trace[2].stage, Stage::SplitResolution);
}

#[test]
fn flag_of_another_type_gives_the_default() {
    let configuration = configuration();
    let default = Some(AssignmentValue::Integer(4));
    let result = get_assignment(
        Some(&configuration),
        "new-user-onboarding",
        "subject1",
        &Attributes::new(),
        default.clone(),
        NOW,
    );
    assert_eq!(result, Some(AssignmentValue::Integer(4)));
    let details = get_assignment_details(
        Some(&configuration),
        "new-user-onboarding",
        "subject1",
        &Attributes::new(),
        default,
        NOW,
    );
    assert_eq!(details.value, Some(AssignmentValue::Integer(4)));
    assert_eq!(details.reason, Reason::TypeMismatch);
}

#[test]
fn result_has_the_type_of_the_default() {
    let configuration = configuration();
    let defaults = [
        AssignmentValue::String("d".to_owned()),
        AssignmentValue::Integer(1),
        AssignmentValue::Numeric(0),
        AssignmentValue::Boolean(false),
        AssignmentValue::Json("{}".to_owned()),
    ];
    for flag in ["new-user-onboarding", "half", "layers", "two-rules", "absent"] {
        for default in &defaults {
            let result =
                get_assignment(Some(&configuration), flag, "subject2", &Attributes::new(), Some(default.clone()), NOW)
                    .unwrap();
            assert_eq!(result.variation_type(), default.variation_type());
        }
    }
}

#[test]
fn empty_shard_space_is_a_configuration_error() {
    let document = FLAGS.replace(
        r#""salt": "new-user-onboarding", "ranges": [{"start": 0, "end": 10000}]}
        ]}], "doLog": true}
      ],
      "totalShards": 10000"#,
        r#""salt": "new-user-onboarding", "ranges": [{"start": 0, "end": 10000}]}
        ]}], "doLog": true}
      ],
      "totalShards": 0"#,
    );
    assert_ne!(document, FLAGS);
    let flags = serde_json::from_str(&document).unwrap();
    let core = eppo_core::Configuration::from_server_response(flags, None);
    let configuration = Configuration::new(Arc::new(core));
    let result =
        get_assignment(Some(&configuration), "new-user-onboarding", "subject1", &Attributes::new(), text("d"), NOW);
    assert_eq!(result, text("d"));
    let details = get_assignment_details(
        Some(&configuration),
        "new-user-onboarding",
        "subject1",
        &Attributes::new(),
        text("d"),
        NOW,
    );
    assert_eq!(details.value, text("d"));
    assert_eq!(details.reason, Reason::ConfigurationError);
    assert_eq!(details.trace.len(), 1);
    assert!(details.trace[0].matched);
    assert_eq!(details.trace[0].detail, "");
    // other flags of the same snapshot are evaluated as usual
    let other = get_assignment(Some(&configuration), "layers", "subject1", &Attributes::new(), None, NOW);
    assert!(other.is_some());
}

#[test]
fn reloaded_configuration_evaluates_alike() {
    let configuration = configuration();
    let bytes = configuration.get_flags_configuration().unwrap();
    let reloaded = Configuration::from_flags_configuration(&bytes).unwrap();
    let corpus = [
        ("subject1", "{}"),
        ("subject2", r#"{"number": 2.0}"#),
        ("alice", r#"{"number": 5.0, "country": "US", "age": 44}"#),
        ("bob", r#"{"email": "bob@example.com", "vip": true}"#),
        ("carol", r#"{"country": "US", "age": 17, "vip": false}"#),
    ];
    for flag in ["new-user-onboarding", "numeric-one-of", "two-rules", "half", "layers", "closed", "disabled", "unreadable", "absent"] {
        for (subject_key, document) in corpus {
            let subject = attributes(document);
            let before = get_assignment_details(Some(&configuration), flag, subject_key, &subject, None, NOW);
            let after = get_assignment_details(Some(&reloaded), flag, subject_key, &subject, None, NOW);
            assert_eq!(before.value, after.value);
            assert_eq!(before.reason, after.reason);
            assert_eq!(before.trace.len(), after.trace.len());
        }
    }
}

#[test]
fn attributes_must_be_an_object_of_plain_values() {
    assert!(Attributes::from_json(b"{}").is_ok());
    assert!(Attributes::from_json(br#"{"a": "text", "b": 1.5, "c": true, "d": null}"#).is_ok());
    assert!(Attributes::from_json(b"[]").is_err());
    assert!(Attributes::from_json(br#"{"a": [1]}"#).is_err());
    assert!(Attributes::from_json(br#"{"a": {"b": 1}}"#).is_err());
    match Attributes::from_json(b"") {
        Err(error) => assert_eq!(error.report, r#"Error("EOF while parsing a value", line: 1, column: 0)"#),
        Ok(_) => panic!("empty bytes are no attributes"),
    }
}

#[test]
fn attributes_are_read_from_the_document() {
    let subject = attributes(r#"{"country": "US", "age": 30, "member": true, "left": null}"#);
    assert_eq!(subject.values.len(), 4);
    assert_eq!(subject.values["country"], eppo_core::AttributeValue::String("US".to_owned()));
    assert_eq!(subject.values["age"], eppo_core::AttributeValue::Number(30.0));
    assert_eq!(subject.values["member"], eppo_core::AttributeValue::Boolean(true));
    assert_eq!(subject.values["left"], eppo_core::AttributeValue::Null);
    assert!(Attributes::new().values.is_empty());
}

#[test]
fn expected_type_is_that_of_the_default() {
    assert_eq!(expected_type(&None), None);
    assert_eq!(expected_type(&text("d")), Some(VariationType::String));
    assert_eq!(expected_type(&Some(AssignmentValue::Integer(1))), Some(VariationType::Integer));
    assert_eq!(expected_type(&Some(AssignmentValue::Numeric(1))), Some(VariationType::Numeric));
    assert_eq!(expected_type(&Some(AssignmentValue::Boolean(true))), Some(VariationType::Boolean));
    assert_eq!(expected_type(&Some(AssignmentValue::Json("1".to_owned()))), Some(VariationType::Json));
}

fn outcome(key: &str, code: AllocationCode) -> AllocationOutcome {
    AllocationOutcome { key: key.to_owned(), code, rules: vec![], splits: vec![] }
}

#[test]
fn reason_follows_the_recorded_codes() {
    let none: Vec<AllocationOutcome> = vec![];
    assert_eq!(classify(Some(FlagCode::Match), true, &none), Reason::VariantFound);
    assert_eq!(classify(Some(FlagCode::ConfigurationMissing), false, &none), Reason::NotConfigured);
    assert_eq!(classify(Some(FlagCode::FlagUnrecognizedOrDisabled), true, &none), Reason::FlagDisabled);
    assert_eq!(classify(Some(FlagCode::FlagUnrecognizedOrDisabled), false, &none), Reason::FlagNotFound);
    assert_eq!(classify(Some(FlagCode::TypeMismatch), true, &none), Reason::TypeMismatch);
    assert_eq!(classify(Some(FlagCode::UnexpectedConfigurationError), true, &none), Reason::ConfigurationError);
    assert_eq!(classify(None, true, &none), Reason::ConfigurationError);
    assert_eq!(classify(Some(FlagCode::DefaultAllocationNull), true, &none), Reason::NoRuleMatch);
    let failing = vec![outcome("a", AllocationCode::FailingRule), outcome("b", AllocationCode::BeforeStartTime)];
    assert_eq!(classify(Some(FlagCode::DefaultAllocationNull), true, &failing), Reason::NoRuleMatch);
    assert!(!has_missed_splits(&failing));
    let missed = vec![
        outcome("a", AllocationCode::FailingRule),
        outcome("b", AllocationCode::TrafficExposureMiss),
        outcome("c", AllocationCode::AfterEndTime),
    ];
    assert_eq!(classify(Some(FlagCode::DefaultAllocationNull), true, &missed), Reason::NoSplitMatch);
    assert!(has_missed_splits(&missed));
}

#[test]
fn trace_lists_the_evaluated_allocations_in_order() {
    let allocations = vec![
        outcome("early", AllocationCode::BeforeStartTime),
        AllocationOutcome {
            key: "picky".to_owned(),
            code: AllocationCode::FailingRule,
            rules: vec![false, false],
            splits: vec![],
        },
        AllocationOutcome {
            key: "narrow".to_owned(),
            code: AllocationCode::TrafficExposureMiss,
            rules: vec![false, true],
            splits: vec![SplitOutcome {
                variation_key: "red".to_owned(),
                matched: false,
                shards: vec![
                    ShardOutcome { salt: "traffic".to_owned(), value: 12, matched: true },
                    ShardOutcome { salt: "split".to_owned(), value: 9000, matched: false },
                ],
            }],
        },
        AllocationOutcome {
            key: "wide".to_owned(),
            code: AllocationCode::Match,
            rules: vec![],
            splits: vec![
                SplitOutcome {
                    variation_key: "red".to_owned(),
                    matched: false,
                    shards: vec![ShardOutcome { salt: "split".to_owned(), value: 9000, matched: false }],
                },
                SplitOutcome { variation_key: "blue".to_owned(), matched: true, shards: vec![] },
            ],
        },
        outcome("unused", AllocationCode::Unevaluated),
        outcome("late", AllocationCode::AfterEndTime),
    ];
    let trace = build_trace("flag", Some(FlagCode::Match), true, &allocations);
    assert_eq!(
        steps(&trace),
        vec![
            (Stage::FlagLookup, "flag", true, "MATCH", None),
            (Stage::Allocation, "early", false, "BEFORE_START_TIME", None),
            (Stage::RuleEval, "picky", false, "", None),
            (Stage::RuleEval, "picky", false, "", None),
            (Stage::Allocation, "picky", false, "FAILING_RULE", None),
            (Stage::RuleEval, "narrow", false, "", None),
            (Stage::RuleEval, "narrow", true, "", None),
            (Stage::Sharding, "traffic", true, "", Some(12)),
            (Stage::Sharding, "split", false, "", Some(9000)),
            (Stage::SplitResolution, "red", false, "narrow", None),
            (Stage::Allocation, "narrow", false, "TRAFFIC_EXPOSURE_MISS", None),
            (Stage::Sharding, "split", false, "", Some(9000)),
            (Stage::SplitResolution, "red", false, "wide", None),
            (Stage::SplitResolution, "blue", true, "wide", None),
            (Stage::Allocation, "wide", true, "MATCH", None),
            (Stage::Allocation, "late", false, "AFTER_END_TIME", None),
        ]
    );
    let trace = build_trace("flag", None, false, &vec![]);
    assert_eq!(steps(&trace), vec![(Stage::FlagLookup, "flag", false, "", None)]);
}

#[test]
fn allocation_outside_its_time_window_is_skipped() {
    let document = r#"{
      "createdAt": "2024-07-18T00:00:00Z",
      "environment": {"name": "test"},
      "flags": {
        "timed": {
          "key": "timed",
          "enabled": true,
          "variationType": "STRING",
          "variations": {"on": {"key": "on", "value": "on"}},
          "allocations": [
            {"key": "later", "startAt": "2030-01-01T00:00:00Z", "splits": [{"variationKey": "on", "shards": []}]},
            {"key": "earlier", "endAt": "2020-01-01T00:00:00Z", "splits": [{"variationKey": "on", "shards": []}]}
          ],
          "totalShards": 10000
        }
      }
    }"#;
    let configuration = Configuration::from_flags_configuration(document.as_bytes()).unwrap();
    let details = get_assignment_details(Some(&configuration), "timed", "subject1", &Attributes::new(), None, NOW);
    assert_eq!(details.value, None);
    assert_eq!(details.reason, Reason::NoRuleMatch);
    assert_eq!(
        steps(&details.trace),
        vec![
            (Stage::FlagLookup, "timed", true, "DEFAULT_ALLOCATION_NULL", None),
            (Stage::Allocation, "later", false, "BEFORE_START_TIME", None),
            (Stage::Allocation, "earlier", false, "AFTER_END_TIME", None),
        ]
    );
    // in 2031 the first allocation is open
    let later = 1_925_000_000_000_000_000;
    let result = get_assignment(Some(&configuration), "timed", "subject1", &Attributes::new(), None, later);
    assert_eq!(result, text("on"));
    // in 2019 the second one is
    let earlier = 1_550_000_000_000_000_000;
    let details = get_assignment_details(Some(&configuration), "timed", "subject1", &Attributes::new(), None, earlier);
    assert_eq!(details.value, text("on"));
    assert_eq!(
        steps(&details.trace),
        vec![
            (Stage::FlagLookup, "timed", true, "MATCH", None),
            (Stage::Allocation, "later", false, "BEFORE_START_TIME", None),
            (Stage::SplitResolution, "on", true, "earlier", None),
            (Stage::Allocation, "earlier", true, "MATCH", None),
        ]
    );
}

#[test]
fn assigned_value_takes_precedence_over_the_default() {
    assert_eq!(value_or_default(text("assigned"), text("default")), text("assigned"));
    assert_eq!(value_or_default(None, text("default")), text("default"));
    assert_eq!(value_or_default(text("assigned"), None), text("assigned"));
    assert_eq!(value_or_default(None, None), None);
}

#[test]
fn details_are_made_from_value_codes_and_allocations() {
    let allocations = vec![outcome("only", AllocationCode::TrafficExposureMiss)];
    let details = details_from(
        "flag",
        None,
        text("default"),
        Some(FlagCode::DefaultAllocationNull),
        true,
        &allocations,
        &vec![condition("age", Operator::Gt, AttributeKind::Boolean, false)],
    );
    assert_eq!(details.warnings.len(), 1);
    assert_eq!(details.warnings[0].code, "TYPE_MISMATCH");
    assert_eq!(details.value, text("default"));
    assert_eq!(details.reason, Reason::NoSplitMatch);
    assert_eq!(
        steps(&details.trace),
        vec![
            (Stage::FlagLookup, "flag", true, "DEFAULT_ALLOCATION_NULL", None),
            (Stage::Allocation, "only", false, "TRAFFIC_EXPOSURE_MISS", None),
        ]
    );
    let details =
        details_from("flag", text("assigned"), text("default"), Some(FlagCode::Match), true, &vec![], &vec![]);
    assert_eq!(details.value, text("assigned"));
    assert_eq!(details.reason, Reason::VariantFound);
    assert!(details.warnings.is_empty());
}

#[test]
fn empty_subject_key_is_evaluated_like_any_other() {
    let configuration = configuration();
    let first = get_assignment_details(Some(&configuration), "half", "", &Attributes::new(), None, NOW);
    let second = get_assignment_details(Some(&configuration), "half", "", &Attributes::new(), None, NOW);
    assert_eq!(first.value, second.value);
    assert_eq!(first.reason, second.reason);
    assert_eq!(first.trace[1].shard_value, Some(shard("", "split", 10000)));
    assert_eq!(first.value.is_some(), shard("", "split", 10000) < 5000);
}

#[test]
fn subject_key_can_be_used_in_rules_as_id() {
    let document = r#"{
      "createdAt": "2024-07-18T00:00:00Z",
      "environment": {"name": "test"},
      "flags": {
        "by-id": {
          "key": "by-id",
          "enabled": true,
          "variationType": "STRING",
          "variations": {"on": {"key": "on", "value": "on"}},
          "allocations": [
            {"key": "listed", "rules": [{"conditions": [{"attribute": "id", "operator": "ONE_OF", "value": ["alice"]}]}],
             "splits": [{"variationKey": "on", "shards": []}]}
          ],
          "totalShards": 10000
        }
      }
    }"#;
    let configuration = Configuration::from_flags_configuration(document.as_bytes()).unwrap();
    assert_eq!(get_assignment(Some(&configuration), "by-id", "alice", &Attributes::new(), None, NOW), text("on"));
    assert_eq!(get_assignment(Some(&configuration), "by-id", "bob", &Attributes::new(), None, NOW), None);
}

fn condition(attribute: &str, operator: Operator, kind: AttributeKind, matched: bool) -> ConditionOutcome {
    ConditionOutcome { attribute: attribute.to_owned(), operator, kind, subject_kind: kind, matched }
}

fn skipped(attribute: &str, operator: Operator, subject_kind: AttributeKind) -> ConditionOutcome {
    ConditionOutcome {
        attribute: attribute.to_owned(),
        operator,
        kind: AttributeKind::Missing,
        subject_kind,
        matched: false,
    }
}

fn warnings_of(document: &str) -> Vec<(String, String)> {
    let configuration = configuration();
    let details =
        get_assignment_details(Some(&configuration), "two-rules", "subject1", &attributes(document), None, NOW);
    details.warnings.into_iter().map(|w| (w.code, w.message)).collect()
}

fn warning(code: &str, message: &str) -> (String, String) {
    (code.to_owned(), message.to_owned())
}

#[test]
fn attribute_of_the_wrong_type_is_warned_of() {
    assert_eq!(
        warnings_of(r#"{"country": "US", "age": true, "email": "a@example.com"}"#),
        vec![warning("TYPE_MISMATCH", "attribute age has a type that the operator GTE does not take")]
    );
    assert_eq!(
        warnings_of(r#"{"country": "US", "age": 30, "email": 5}"#),
        Vec::<(String, String)>::new()
    );
    assert_eq!(
        warnings_of(r#"{"country": "US", "age": 3, "email": 5}"#),
        vec![warning("TYPE_MISMATCH", "attribute email has a type that the operator MATCHES does not take")]
    );
}

#[test]
fn missing_attribute_is_warned_of() {
    assert_eq!(
        warnings_of("{}"),
        vec![
            warning("MISSING_ATTRIBUTE", "attribute country has no value"),
            warning("MISSING_ATTRIBUTE", "attribute email has no value"),
        ]
    );
    assert_eq!(
        warnings_of(r#"{"country": "US", "age": null}"#),
        vec![
            warning("MISSING_ATTRIBUTE", "attribute age has no value"),
            warning("MISSING_ATTRIBUTE", "attribute email has no value"),
        ]
    );
}

#[test]
fn attribute_that_fails_a_condition_by_its_value_is_not_warned_of() {
    assert_eq!(
        warnings_of(r#"{"country": "FR", "email": "a@example.org"}"#),
        Vec::<(String, String)>::new()
    );
    assert_eq!(
        warnings_of(r#"{"country": "US", "age": "old", "email": "a@example.org"}"#),
        Vec::<(String, String)>::new()
    );
}

#[test]
fn evaluation_without_conditions_has_no_warnings() {
    let configuration = configuration();
    for flag in ["new-user-onboarding", "half", "closed", "disabled", "absent", "unreadable"] {
        let details = get_assignment_details(Some(&configuration), flag, "subject1", &Attributes::new(), None, NOW);
        assert!(details.warnings.is_empty());
    }
    let details = get_assignment_details(None, "two-rules", "subject1", &Attributes::new(), None, NOW);
    assert!(details.warnings.is_empty());
}

#[test]
fn operators_take_the_kinds_they_can_be_applied_to() {
    let (missing, null) = (AttributeKind::Missing, AttributeKind::Null);
    let (string, number, boolean) = (AttributeKind::String, AttributeKind::Number, AttributeKind::Boolean);
    for kind in [missing, null, string, number, boolean] {
        assert!(Operator::IsNull.accepts(kind));
    }
    for operator in [Operator::Matches, Operator::NotMatches] {
        assert!(operator.accepts(string) && operator.accepts(boolean));
        assert!(!operator.accepts(number) && !operator.accepts(null) && !operator.accepts(missing));
    }
    for operator in [Operator::Gte, Operator::Gt, Operator::Lte, Operator::Lt] {
        assert!(operator.accepts(string) && operator.accepts(number));
        assert!(!operator.accepts(boolean) && !operator.accepts(null) && !operator.accepts(missing));
    }
    for operator in [Operator::OneOf, Operator::NotOneOf] {
        assert!(operator.accepts(string) && operator.accepts(number) && operator.accepts(boolean));
        assert!(!operator.accepts(null) && !operator.accepts(missing));
    }
    assert_eq!(Operator::NotOneOf.label(), "NOT_ONE_OF");
    assert_eq!(Operator::Lte.label(), "LTE");
}

#[test]
fn warnings_follow_the_conditions_in_order() {
    let conditions = vec![
        condition("a", Operator::OneOf, AttributeKind::String, true),
        condition("b", Operator::Lt, AttributeKind::Boolean, false),
        condition("c", Operator::IsNull, AttributeKind::Missing, true),
        condition("d", Operator::NotMatches, AttributeKind::Missing, false),
        condition("e", Operator::NotOneOf, AttributeKind::Null, false),
        condition("f", Operator::Matches, AttributeKind::Number, false),
    ];
    let warnings: Vec<(String, String)> =
        derive_warnings(&conditions).into_iter().map(|w| (w.code, w.message)).collect();
    assert_eq!(
        warnings,
        vec![
            warning("TYPE_MISMATCH", "attribute b has a type that the operator LT does not take"),
            warning("MISSING_ATTRIBUTE", "attribute d has no value"),
            warning("MISSING_ATTRIBUTE", "attribute e has no value"),
            warning("TYPE_MISMATCH", "attribute f has a type that the operator MATCHES does not take"),
        ]
    );
    assert!(warning_for(&conditions[0]).is_none());
    assert!(warning_for(&conditions[2]).is_none());
    assert!(derive_warnings(&vec![]).is_empty());
}

#[test]
fn snapshots_of_one_document_evaluate_alike() {
    let first = configuration();
    let second = configuration();
    let corpus = [("subject1", "{}"), ("alice", r#"{"number": 2, "country": "US", "age": 20}"#), ("", r#"{"vip": true}"#)];
    for flag in ["new-user-onboarding", "numeric-one-of", "two-rules", "half", "layers", "closed", "disabled", "absent"] {
        for (subject_key, document) in corpus {
            let one = get_assignment_details(Some(&first), flag, subject_key, &attributes(document), None, NOW);
            let other = get_assignment_details(Some(&second), flag, subject_key, &attributes(document), None, NOW);
            assert_eq!(one.value, other.value);
            assert_eq!(one.reason, other.reason);
            assert_eq!(steps(&one.trace), steps(&other.trace));
            assert_eq!(one.warnings.len(), other.warnings.len());
        }
    }
}

#[test]
fn flags_are_evaluated_alike_whatever_else_the_configuration_holds() {
    let all = configuration();
    let document = r#"{
      "createdAt": "2025-01-01T00:00:00Z",
      "environment": {"name": "other"},
      "flags": {
        "half": {
          "key": "half",
          "enabled": true,
          "variationType": "NUMERIC",
          "variations": {"pi": {"key": "pi", "value": 3.1415926}},
          "allocations": [
            {"key": "first-half", "splits": [{"variationKey": "pi", "shards": [
              {"salt": "split", "ranges": [{"start": 0, "end": 5000}]}
            ]}]}
          ],
          "totalShards": 10000
        },
        "another": {
          "key": "another",
          "enabled": true,
          "variationType": "STRING",
          "variations": {"on": {"key": "on", "value": "on"}},
          "allocations": [{"key": "a", "splits": [
            {"variationKey": "on", "shards": [{"salt": "split", "ranges": [{"start": 0, "end": 1}]}]},
            {"variationKey": "on", "shards": [{"salt": "split", "ranges": [{"start": 1, "end": 10000}]}]}
          ]}],
          "totalShards": 10000
        }
      }
    }"#;
    let alone = Configuration::from_flags_configuration(document.as_bytes()).unwrap();
    for subject_key in ["subject1", "subject2", "alice", "bob", "carol", "dave"] {
        let one = get_assignment_details(Some(&all), "half", subject_key, &Attributes::new(), None, NOW);
        let other = get_assignment_details(Some(&alone), "half", subject_key, &Attributes::new(), None, NOW);
        assert_eq!(one.value, other.value);
        assert_eq!(one.reason, other.reason);
        assert_eq!(steps(&one.trace), steps(&other.trace));
        assert_eq!(shard(subject_key, "split", 10000), one.trace[1].shard_value.unwrap());
    }
}

#[test]
fn condition_that_was_passed_over_is_told_from_a_missing_attribute() {
    let conditions = vec![
        skipped("email", Operator::Matches, AttributeKind::String),
        skipped("email", Operator::Matches, AttributeKind::Missing),
        skipped("age", Operator::Gt, AttributeKind::Null),
        skipped("id", Operator::OneOf, AttributeKind::Missing),
        skipped("id", Operator::IsNull, AttributeKind::Missing),
        condition("id", Operator::OneOf, AttributeKind::String, true),
    ];
    let warnings: Vec<(String, String)> =
        derive_warnings(&conditions).into_iter().map(|w| (w.code, w.message)).collect();
    assert_eq!(
        warnings,
        vec![
            warning("CONDITION_SKIPPED", "condition on attribute email could not be read"),
            warning("MISSING_ATTRIBUTE", "attribute email has no value"),
            warning("CONDITION_SKIPPED", "condition on attribute age could not be read"),
            warning("CONDITION_SKIPPED", "condition on attribute id could not be read"),
        ]
    );
}

#[test]
fn unreadable_condition_is_warned_of_as_skipped() {
    let document = r#"{
      "createdAt": "2024-07-18T00:00:00Z",
      "environment": {"name": "test"},
      "flags": {
        "broken-rule": {
          "key": "broken-rule",
          "enabled": true,
          "variationType": "STRING",
          "variations": {"on": {"key": "on", "value": "on"}},
          "allocations": [
            {"key": "mail", "rules": [{"conditions": [{"attribute": "email", "operator": "MATCHES", "value": "("}]}],
             "splits": [{"variationKey": "on", "shards": []}]}
          ],
          "totalShards": 10000
        }
      }
    }"#;
    let configuration = Configuration::from_flags_configuration(document.as_bytes()).unwrap();
    let with_email = attributes(r#"{"email": "a@example.com"}"#);
    let details = get_assignment_details(Some(&configuration), "broken-rule", "subject1", &with_email, None, NOW);
    assert_eq!(details.value, None);
    assert_eq!(details.reason, Reason::NoRuleMatch);
    let warnings: Vec<(String, String)> = details.warnings.into_iter().map(|w| (w.code, w.message)).collect();
    assert_eq!(warnings, vec![warning("CONDITION_SKIPPED", "condition on attribute email could not be read")]);

    let details =
        get_assignment_details(Some(&configuration), "broken-rule", "subject1", &Attributes::new(), None, NOW);
    let warnings: Vec<(String, String)> = details.warnings.into_iter().map(|w| (w.code, w.message)).collect();
    assert_eq!(warnings, vec![warning("MISSING_ATTRIBUTE", "attribute email has no value")]);
}

#[test]
fn subject_key_stands_in_for_the_attribute_id() {
    let document = r#"{
      "createdAt": "2024-07-18T00:00:00Z",
      "environment": {"name": "test"},
      "flags": {
        "by-id": {
          "key": "by-id",
          "enabled": true,
          "variationType": "STRING",
          "variations": {"on": {"key": "on", "value": "on"}},
          "allocations": [
            {"key": "listed", "rules": [{"conditions": [{"attribute": "id", "operator": "GT", "value": 5}]}],
             "splits": [{"variationKey": "on", "shards": []}]}
          ],
          "totalShards": 10000
        }
      }
    }"#;
    let configuration = Configuration::from_flags_configuration(document.as_bytes()).unwrap();
    // the key is a string, which a comparison takes: no warning, though it is no number
    let details = get_assignment_details(Some(&configuration), "by-id", "alice", &Attributes::new(), None, NOW);
    assert_eq!(details.value, None);
    assert!(details.warnings.is_empty());
    let details = get_assignment_details(Some(&configuration), "by-id", "7", &Attributes::new(), None, NOW);
    assert_eq!(details.value, text("on"));
    // an attribute of that name takes precedence over the key
    let details =
        get_assignment_details(Some(&configuration), "by-id", "7", &attributes(r#"{"id": true}"#), None, NOW);
    assert_eq!(details.value, None);
    assert_eq!(details.warnings.len(), 1);
    assert_eq!(details.warnings[0].code, "TYPE_MISMATCH");
}
