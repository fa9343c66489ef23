//! What is reported of an evaluation: the reason it ended as it did, and the
//! trace of the rules, shards, splits and allocations it looked at.
//!
//! `eppo_core` records an outcome for the flag and for each of its
//! allocations. This module reads the reason off those outcomes and lays the
//! record out as a flat trace, in the order in which the evaluation went.

use vstd::prelude::*;
use vstd::string::*;

use crate::sharding::shard_value;

verus! {

/// The outcome that `eppo_core` records for a flag.
#[derive(Clone, Copy, Debug, PartialEq, Eq, Structural)]
pub enum FlagCode {
    Match,
    ConfigurationMissing,
    FlagUnrecognizedOrDisabled,
    DefaultAllocationNull,
    TypeMismatch,
    UnexpectedConfigurationError,
}

/// The outcome that `eppo_core` records for one allocation of a flag.
#[derive(Clone, Copy, Debug, PartialEq, Eq, Structural)]
pub enum AllocationCode {
    Unevaluated,
    Match,
    BeforeStartTime,
    AfterEndTime,
    FailingRule,
    TrafficExposureMiss,
}

/// One shard that was evaluated: its salt, the shard value of the subject
/// under that salt, and whether a range of the shard holds that value.
#[derive(Debug)]
pub struct ShardOutcome {
    pub salt: String,
    pub value: u64,
    pub matched: bool,
}

/// One split that was evaluated: the variation it leads to, whether the
/// subject falls into it, and the shards that were evaluated to find out.
#[derive(Debug)]
pub struct SplitOutcome {
    pub variation_key: String,
    pub matched: bool,
    pub shards: Vec<ShardOutcome>,
}

/// One allocation of the evaluated flag: how its evaluation ended, whether
/// each rule that was evaluated matched, and the splits that were evaluated.
#[derive(Debug)]
pub struct AllocationOutcome {
    pub key: String,
    pub code: AllocationCode,
    pub rules: Vec<bool>,
    pub splits: Vec<SplitOutcome>,
}

/// The mathematical value of a [`ShardOutcome`].
pub struct ShardOutcomeView {
    pub salt: Seq<char>,
    pub value: u64,
    pub matched: bool,
}

/// The mathematical value of a [`SplitOutcome`].
pub struct SplitOutcomeView {
    pub variation_key: Seq<char>,
    pub matched: bool,
    pub shards: Seq<ShardOutcomeView>,
}

/// The mathematical value of an [`AllocationOutcome`].
pub struct AllocationOutcomeView {
    pub key: Seq<char>,
    pub code: AllocationCode,
    pub rules: Seq<bool>,
    pub splits: Seq<SplitOutcomeView>,
}

impl View for ShardOutcome {
    type V = ShardOutcomeView;

    open spec fn view(&self) -> ShardOutcomeView {
        ShardOutcomeView { salt: self.salt@, value: self.value, matched: self.matched }
    }
}

/// The views of a sequence of shard outcomes.
pub open spec fn shard_views(shards: Seq<ShardOutcome>) -> Seq<ShardOutcomeView> {
    Seq::new(shards.len(), |i: int| shards[i]@)
}

impl View for SplitOutcome {
    type V = SplitOutcomeView;

    open spec fn view(&self) -> SplitOutcomeView {
        SplitOutcomeView {
            variation_key: self.variation_key@,
            matched: self.matched,
            shards: shard_views(self.shards@),
        }
    }
}

/// The views of a sequence of split outcomes.
pub open spec fn split_views(splits: Seq<SplitOutcome>) -> Seq<SplitOutcomeView> {
    Seq::new(splits.len(), |i: int| splits[i]@)
}

impl View for AllocationOutcome {
    type V = AllocationOutcomeView;

    open spec fn view(&self) -> AllocationOutcomeView {
        AllocationOutcomeView {
            key: self.key@,
            code: self.code,
            rules: self.rules@,
            splits: split_views(self.splits@),
        }
    }
}

/// The views of a sequence of allocation outcomes.
pub open spec fn outcome_views(outcomes: Seq<AllocationOutcome>) -> Seq<AllocationOutcomeView> {
    Seq::new(outcomes.len(), |i: int| outcomes[i]@)
}

/// The operator of a condition.
#[derive(Clone, Copy, Debug, PartialEq, Eq, Structural)]
pub enum Operator {
    Matches,
    NotMatches,
    Gte,
    Gt,
    Lte,
    Lt,
    OneOf,
    NotOneOf,
    IsNull,
}

/// What kind of value a subject has for an attribute, if any.
#[derive(Clone, Copy, Debug, PartialEq, Eq, Structural)]
pub enum AttributeKind {
    Missing,
    Null,
    String,
    Number,
    Boolean,
}

/// One condition as the record of an evaluation holds it: the attribute it
/// reads, its operator, the kind of value that the evaluation took for the
/// attribute, and whether the condition matched.
pub struct RecordedCondition {
    pub attribute: Seq<char>,
    pub operator: Operator,
    pub kind: AttributeKind,
    pub matched: bool,
}

/// One condition that was evaluated: the attribute it reads, its operator,
/// the kind of value that the evaluation took for the attribute, the kind
/// of value that the subject has for it, and whether the condition matched.
#[derive(Debug)]
pub struct ConditionOutcome {
    pub attribute: String,
    pub operator: Operator,
    pub kind: AttributeKind,
    pub subject_kind: AttributeKind,
    pub matched: bool,
}

/// The mathematical value of a [`ConditionOutcome`].
pub struct ConditionOutcomeView {
    pub attribute: Seq<char>,
    pub operator: Operator,
    pub kind: AttributeKind,
    pub subject_kind: AttributeKind,
    pub matched: bool,
}

impl View for ConditionOutcome {
    type V = ConditionOutcomeView;

    open spec fn view(&self) -> ConditionOutcomeView {
        ConditionOutcomeView {
            attribute: self.attribute@,
            operator: self.operator,
            kind: self.kind,
            subject_kind: self.subject_kind,
            matched: self.matched,
        }
    }
}

/// The views of a sequence of condition outcomes.
pub open spec fn condition_views(conditions: Seq<ConditionOutcome>) -> Seq<ConditionOutcomeView> {
    Seq::new(conditions.len(), |i: int| conditions[i]@)
}

/// A problem with the type or shape of an attribute. It fails the condition
/// that met it and nothing else.
#[derive(Debug)]
pub struct Warning {
    pub code: String,
    pub message: String,
}

/// The mathematical value of a [`Warning`].
pub struct WarningView {
    pub code: Seq<char>,
    pub message: Seq<char>,
}

impl View for Warning {
    type V = WarningView;

    open spec fn view(&self) -> WarningView {
        WarningView { code: self.code@, message: self.message@ }
    }
}

/// The views of a sequence of warnings.
pub open spec fn warning_views(warnings: Seq<Warning>) -> Seq<WarningView> {
    Seq::new(warnings.len(), |i: int| warnings[i]@)
}

/// The view of a warning that may be absent.
pub open spec fn warning_view(warning: Option<Warning>) -> Option<WarningView> {
    match warning {
        Some(warning) => Some(warning@),
        None => None,
    }
}

impl Operator {
    /// The name of the operator as it is written in a warning.
    pub open spec fn name(self) -> Seq<char> {
        match self {
            Operator::Matches => "MATCHES"@,
            Operator::NotMatches => "NOT_MATCHES"@,
            Operator::Gte => "GTE"@,
            Operator::Gt => "GT"@,
            Operator::Lte => "LTE"@,
            Operator::Lt => "LT"@,
            Operator::OneOf => "ONE_OF"@,
            Operator::NotOneOf => "NOT_ONE_OF"@,
            Operator::IsNull => "IS_NULL"@,
        }
    }

    /// The operator can be applied to a value of the kind: a null check to
    /// anything; a regular expression to a string or a boolean; a
    /// comparison to a string or a number; a membership test to a string, a
    /// number or a boolean.
    pub open spec fn takes(self, kind: AttributeKind) -> bool {
        match self {
            Operator::IsNull => true,
            Operator::Matches | Operator::NotMatches => kind == AttributeKind::String || kind
                == AttributeKind::Boolean,
            Operator::Gte | Operator::Gt | Operator::Lte | Operator::Lt => kind == AttributeKind::String
                || kind == AttributeKind::Number,
            Operator::OneOf | Operator::NotOneOf => kind == AttributeKind::String || kind
                == AttributeKind::Number || kind == AttributeKind::Boolean,
        }
    }

    /// Writes the name of the operator.
    pub fn label(&self) -> (text: String)
        ensures
            text@ == self.name(),
    {
        match self {
            Operator::Matches => String::from_str("MATCHES"),
            Operator::NotMatches => String::from_str("NOT_MATCHES"),
            Operator::Gte => String::from_str("GTE"),
            Operator::Gt => String::from_str("GT"),
            Operator::Lte => String::from_str("LTE"),
            Operator::Lt => String::from_str("LT"),
            Operator::OneOf => String::from_str("ONE_OF"),
            Operator::NotOneOf => String::from_str("NOT_ONE_OF"),
            Operator::IsNull => String::from_str("IS_NULL"),
        }
    }

    /// Tests whether the operator can be applied to a value of the kind.
    pub fn accepts(&self, kind: AttributeKind) -> (result: bool)
        ensures
            result == self.takes(kind),
    {
        match self {
            Operator::IsNull => true,
            Operator::Matches | Operator::NotMatches => kind == AttributeKind::String || kind
                == AttributeKind::Boolean,
            Operator::Gte | Operator::Gt | Operator::Lte | Operator::Lt => kind == AttributeKind::String
                || kind == AttributeKind::Number,
            Operator::OneOf | Operator::NotOneOf => kind == AttributeKind::String || kind
                == AttributeKind::Number || kind == AttributeKind::Boolean,
        }
    }
}

/// The subject has a value to evaluate the condition with: a value for the
/// attribute, or, for the attribute `id`, its key.
pub open spec fn subject_has_value(condition: ConditionOutcomeView) -> bool {
    condition.subject_kind != AttributeKind::Missing || condition.attribute == "id"@
}

/// The warning that a condition gives rise to, if any. A null check gives
/// none. Where the evaluation took no value for the attribute, the subject
/// has none (`MISSING_ATTRIBUTE`); or it has one, and then the condition
/// was passed over because it could not be read (`CONDITION_SKIPPED`).
/// Where the value is null, the code is `MISSING_ATTRIBUTE` too. Where it is
/// of a kind that the operator cannot be applied to, it is `TYPE_MISMATCH`.
pub open spec fn warning_of(condition: ConditionOutcomeView) -> Option<WarningView> {
    if condition.operator == Operator::IsNull {
        None
    } else if condition.kind == AttributeKind::Missing && subject_has_value(condition) {
        Some(
            WarningView {
                code: "CONDITION_SKIPPED"@,
                message: "condition on attribute "@ + condition.attribute + " could not be read"@,
            },
        )
    } else if condition.kind == AttributeKind::Missing || condition.kind == AttributeKind::Null {
        Some(
            WarningView {
                code: "MISSING_ATTRIBUTE"@,
                message: "attribute "@ + condition.attribute + " has no value"@,
            },
        )
    } else if !condition.operator.takes(condition.kind) {
        Some(
            WarningView {
                code: "TYPE_MISMATCH"@,
                message: "attribute "@ + condition.attribute + " has a type that the operator "@
                    + condition.operator.name() + " does not take"@,
            },
        )
    } else {
        None
    }
}

/// The warnings that the conditions give rise to, in the order of the
/// conditions.
pub open spec fn warnings_for(conditions: Seq<ConditionOutcomeView>) -> Seq<WarningView>
    decreases conditions.len(),
{
    if conditions.len() == 0 {
        Seq::empty()
    } else {
        match warning_of(conditions.last()) {
            Some(warning) => warnings_for(conditions.drop_last()).push(warning),
            None => warnings_for(conditions.drop_last()),
        }
    }
}

/// Tests whether the subject has a value to evaluate the condition with.
pub fn has_value(condition: &ConditionOutcome) -> (result: bool)
    ensures
        result == subject_has_value(condition@),
{
    let id = String::from_str("id");
    condition.subject_kind != AttributeKind::Missing || condition.attribute == id
}

/// Decides the warning that a condition gives rise to, if any.
pub fn warning_for(condition: &ConditionOutcome) -> (warning: Option<Warning>)
    ensures
        warning_view(warning) == warning_of(condition@),
{
    if condition.operator == Operator::IsNull {
        None
    } else if condition.kind == AttributeKind::Missing && has_value(condition) {
        Some(
            Warning {
                code: String::from_str("CONDITION_SKIPPED"),
                message: String::from_str("condition on attribute ").concat(
                    condition.attribute.as_str(),
                ).concat(" could not be read"),
            },
        )
    } else if condition.kind == AttributeKind::Missing || condition.kind == AttributeKind::Null {
        Some(
            Warning {
                code: String::from_str("MISSING_ATTRIBUTE"),
                message: String::from_str("attribute ").concat(condition.attribute.as_str()).concat(
                    " has no value",
                ),
            },
        )
    } else if !condition.operator.accepts(condition.kind) {
        let operator = condition.operator.label();
        Some(
            Warning {
                code: String::from_str("TYPE_MISMATCH"),
                message: String::from_str("attribute ").concat(condition.attribute.as_str()).concat(
                    " has a type that the operator ",
                ).concat(operator.as_str()).concat(" does not take"),
            },
        )
    } else {
        None
    }
}

/// Derives the warnings from the conditions that were evaluated.
pub fn derive_warnings(conditions: &Vec<ConditionOutcome>) -> (warnings: Vec<Warning>)
    ensures
        warning_views(warnings@) == warnings_for(condition_views(conditions@)),
{
    let mut warnings: Vec<Warning> = Vec::new();
    let ghost views = condition_views(conditions@);
    assert(views.take(0) =~= Seq::<ConditionOutcomeView>::empty());
    assert(warning_views(warnings@) =~= warnings_for(views.take(0)));
    let mut i: usize = 0;
    while i < conditions.len()
        invariant
            i <= conditions.len(),
            views == condition_views(conditions@),
            warning_views(warnings@) == warnings_for(views.take(i as int)),
        decreases conditions.len() - i,
    {
        let ghost before = warning_views(warnings@);
        proof {
            let next = views.take(i + 1);
            assert(next.drop_last() =~= views.take(i as int));
            assert(next.last() == conditions@[i as int]@);
        }
        match warning_for(&conditions[i]) {
            Some(warning) => {
                warnings.push(warning);
                assert(warning_views(warnings@) =~= before.push(warning_of(conditions@[i as int]@)->0));
            },
            None => {},
        }
        i += 1;
    }
    assert(views.take(conditions.len() as int) =~= views);
    warnings
}

/// What the record of an evaluation holds: the outcome for the flag, where
/// there is one, the outcomes for its allocations in their order, and the
/// conditions that were evaluated, in the order of their evaluation.
pub struct EvaluationRecord {
    pub code: Option<FlagCode>,
    pub allocations: Seq<AllocationOutcomeView>,
    pub conditions: Seq<RecordedCondition>,
}

/// Every shard value in the outcomes is the shard of the subject under the
/// shard's salt, among `total_shards` shards.
pub open spec fn shards_hashed(
    allocations: Seq<AllocationOutcomeView>,
    subject_key: Seq<char>,
    total_shards: u64,
) -> bool {
    forall|a: int, s: int, h: int|
        0 <= a < allocations.len() && 0 <= s < allocations[a].splits.len() && 0 <= h
            < allocations[a].splits[s].shards.len() ==> (#[trigger] allocations[a].splits[s].shards[h]).value
            == shard_value(subject_key, allocations[a].splits[s].shards[h].salt, total_shards)
}

/// Why an evaluation ended as it did.
#[derive(Clone, Copy, Debug, PartialEq, Eq, Structural)]
pub enum Reason {
    /// There is no configuration to evaluate against.
    NotConfigured,
    /// The configuration has no flag of that key.
    FlagNotFound,
    /// The flag is there and disabled.
    FlagDisabled,
    /// No allocation of the flag let the subject pass its rules.
    NoRuleMatch,
    /// The subject passed the rules of an allocation, and no split of such
    /// an allocation holds the subject's shard.
    NoSplitMatch,
    /// A split holds the subject's shard: its variation is assigned.
    VariantFound,
    /// The flag is not of the type that the caller expects.
    TypeMismatch,
    /// The flag cannot be evaluated as it is configured.
    ConfigurationError,
}

/// A stage of an evaluation.
#[derive(Clone, Copy, Debug, PartialEq, Eq, Structural)]
pub enum Stage {
    /// The flag was looked up in the configuration.
    FlagLookup,
    /// A rule of an allocation was matched against the attributes.
    RuleEval,
    /// The subject was hashed into a shard.
    Sharding,
    /// A split of an allocation was tested for the subject's shards.
    SplitResolution,
    /// The evaluation of an allocation ended.
    Allocation,
}

/// One step of an evaluation: the stage, what it looked at, whether that
/// matched, a detail of the outcome, and the shard value where one was
/// computed.
#[derive(Debug)]
pub struct TraceEntry {
    pub stage: Stage,
    pub identifier: String,
    pub matched: bool,
    pub detail: String,
    pub shard_value: Option<u64>,
}

/// The mathematical value of a [`TraceEntry`].
pub struct TraceEntryView {
    pub stage: Stage,
    pub identifier: Seq<char>,
    pub matched: bool,
    pub detail: Seq<char>,
    pub shard_value: Option<u64>,
}

impl View for TraceEntry {
    type V = TraceEntryView;

    open spec fn view(&self) -> TraceEntryView {
        TraceEntryView {
            stage: self.stage,
            identifier: self.identifier@,
            matched: self.matched,
            detail: self.detail@,
            shard_value: self.shard_value,
        }
    }
}

/// The views of a sequence of trace entries.
pub open spec fn entry_views(entries: Seq<TraceEntry>) -> Seq<TraceEntryView> {
    Seq::new(entries.len(), |i: int| entries[i]@)
}

impl FlagCode {
    /// The name of the code as it is written in a trace.
    pub open spec fn name(self) -> Seq<char> {
        match self {
            FlagCode::Match => "MATCH"@,
            FlagCode::ConfigurationMissing => "CONFIGURATION_MISSING"@,
            FlagCode::FlagUnrecognizedOrDisabled => "FLAG_UNRECOGNIZED_OR_DISABLED"@,
            FlagCode::DefaultAllocationNull => "DEFAULT_ALLOCATION_NULL"@,
            FlagCode::TypeMismatch => "TYPE_MISMATCH"@,
            FlagCode::UnexpectedConfigurationError => "UNEXPECTED_CONFIGURATION_ERROR"@,
        }
    }

    /// Writes the name of the code.
    pub fn label(&self) -> (text: String)
        ensures
            text@ == self.name(),
    {
        match self {
            FlagCode::Match => String::from_str("MATCH"),
            FlagCode::ConfigurationMissing => String::from_str("CONFIGURATION_MISSING"),
            FlagCode::FlagUnrecognizedOrDisabled => String::from_str("FLAG_UNRECOGNIZED_OR_DISABLED"),
            FlagCode::DefaultAllocationNull => String::from_str("DEFAULT_ALLOCATION_NULL"),
            FlagCode::TypeMismatch => String::from_str("TYPE_MISMATCH"),
            FlagCode::UnexpectedConfigurationError => String::from_str("UNEXPECTED_CONFIGURATION_ERROR"),
        }
    }
}

impl AllocationCode {
    /// The name of the code as it is written in a trace.
    pub open spec fn name(self) -> Seq<char> {
        match self {
            AllocationCode::Unevaluated => "UNEVALUATED"@,
            AllocationCode::Match => "MATCH"@,
            AllocationCode::BeforeStartTime => "BEFORE_START_TIME"@,
            AllocationCode::AfterEndTime => "AFTER_END_TIME"@,
            AllocationCode::FailingRule => "FAILING_RULE"@,
            AllocationCode::TrafficExposureMiss => "TRAFFIC_EXPOSURE_MISS"@,
        }
    }

    /// Writes the name of the code.
    pub fn label(&self) -> (text: String)
        ensures
            text@ == self.name(),
    {
        match self {
            AllocationCode::Unevaluated => String::from_str("UNEVALUATED"),
            AllocationCode::Match => String::from_str("MATCH"),
            AllocationCode::BeforeStartTime => String::from_str("BEFORE_START_TIME"),
            AllocationCode::AfterEndTime => String::from_str("AFTER_END_TIME"),
            AllocationCode::FailingRule => String::from_str("FAILING_RULE"),
            AllocationCode::TrafficExposureMiss => String::from_str("TRAFFIC_EXPOSURE_MISS"),
        }
    }
}

/// Some allocation let the subject pass its rules and then found no split
/// for it.
pub open spec fn missed_splits(allocations: Seq<AllocationOutcomeView>) -> bool {
    exists|i: int|
        0 <= i < allocations.len() && (#[trigger] allocations[i]).code == AllocationCode::TrafficExposureMiss
}

/// The reason to report for what `eppo_core` recorded.
///
/// `flag_present` says whether the configuration holds a readable flag of
/// the evaluated key; it tells a disabled flag from one that is not there.
pub open spec fn reason_for(
    code: Option<FlagCode>,
    flag_present: bool,
    allocations: Seq<AllocationOutcomeView>,
) -> Reason {
    match code {
        Some(FlagCode::Match) => Reason::VariantFound,
        Some(FlagCode::ConfigurationMissing) => Reason::NotConfigured,
        Some(FlagCode::FlagUnrecognizedOrDisabled) => if flag_present {
            Reason::FlagDisabled
        } else {
            Reason::FlagNotFound
        },
        Some(FlagCode::DefaultAllocationNull) => if missed_splits(allocations) {
            Reason::NoSplitMatch
        } else {
            Reason::NoRuleMatch
        },
        Some(FlagCode::TypeMismatch) => Reason::TypeMismatch,
        Some(FlagCode::UnexpectedConfigurationError) => Reason::ConfigurationError,
        None => Reason::ConfigurationError,
    }
}

/// Tests whether some allocation found no split for a subject that passed
/// its rules.
pub fn has_missed_splits(allocations: &Vec<AllocationOutcome>) -> (result: bool)
    ensures
        result == missed_splits(outcome_views(allocations@)),
{
    let mut i: usize = 0;
    while i < allocations.len()
        invariant
            i <= allocations.len(),
            forall|k: int| 0 <= k < i ==> (#[trigger] outcome_views(allocations@)[k]).code
                != AllocationCode::TrafficExposureMiss,
        decreases allocations.len() - i,
    {
        if allocations[i].code == AllocationCode::TrafficExposureMiss {
            assert(outcome_views(allocations@)[i as int].code == AllocationCode::TrafficExposureMiss);
            return true;
        }
        i += 1;
    }
    false
}

/// Decides the reason to report for what `eppo_core` recorded.
pub fn classify(code: Option<FlagCode>, flag_present: bool, allocations: &Vec<AllocationOutcome>) -> (reason:
    Reason)
    ensures
        reason == reason_for(code, flag_present, outcome_views(allocations@)),
{
    match code {
        Some(FlagCode::Match) => Reason::VariantFound,
        Some(FlagCode::ConfigurationMissing) => Reason::NotConfigured,
        Some(FlagCode::FlagUnrecognizedOrDisabled) => if flag_present {
            Reason::FlagDisabled
        } else {
            Reason::FlagNotFound
        },
        Some(FlagCode::DefaultAllocationNull) => if has_missed_splits(allocations) {
            Reason::NoSplitMatch
        } else {
            Reason::NoRuleMatch
        },
        Some(FlagCode::TypeMismatch) => Reason::TypeMismatch,
        Some(FlagCode::UnexpectedConfigurationError) => Reason::ConfigurationError,
        None => Reason::ConfigurationError,
    }
}

/// The name of a flag code that may be absent: empty where it is.
pub open spec fn code_name(code: Option<FlagCode>) -> Seq<char> {
    match code {
        Some(code) => code.name(),
        None => Seq::empty(),
    }
}

/// The first entry of a trace: the lookup of the flag.
pub open spec fn lookup_entry(flag_key: Seq<char>, flag_present: bool, detail: Seq<char>) -> TraceEntryView {
    TraceEntryView {
        stage: Stage::FlagLookup,
        identifier: flag_key,
        matched: flag_present,
        detail,
        shard_value: None,
    }
}

/// The entry for one rule of an allocation.
pub open spec fn rule_entry(allocation_key: Seq<char>, matched: bool) -> TraceEntryView {
    TraceEntryView {
        stage: Stage::RuleEval,
        identifier: allocation_key,
        matched,
        detail: Seq::empty(),
        shard_value: None,
    }
}

/// The entry for one shard: its salt and the subject's shard value.
pub open spec fn shard_entry(shard: ShardOutcomeView) -> TraceEntryView {
    TraceEntryView {
        stage: Stage::Sharding,
        identifier: shard.salt,
        matched: shard.matched,
        detail: Seq::empty(),
        shard_value: Some(shard.value),
    }
}

/// The entry for one split: the variation it leads to, and in the detail
/// the allocation it belongs to.
pub open spec fn split_entry(allocation_key: Seq<char>, split: SplitOutcomeView) -> TraceEntryView {
    TraceEntryView {
        stage: Stage::SplitResolution,
        identifier: split.variation_key,
        matched: split.matched,
        detail: allocation_key,
        shard_value: None,
    }
}

/// The entry that closes an allocation: matched where the allocation was
/// selected, with the name of its outcome in the detail.
pub open spec fn allocation_entry(outcome: AllocationOutcomeView) -> TraceEntryView {
    TraceEntryView {
        stage: Stage::Allocation,
        identifier: outcome.key,
        matched: outcome.code == AllocationCode::Match,
        detail: outcome.code.name(),
        shard_value: None,
    }
}

/// The entries for the rules of an allocation, in their order.
pub open spec fn rule_steps(allocation_key: Seq<char>, rules: Seq<bool>) -> Seq<TraceEntryView> {
    Seq::new(rules.len(), |i: int| rule_entry(allocation_key, rules[i]))
}

/// The entries for the shards of a split, in their order.
pub open spec fn shard_steps(shards: Seq<ShardOutcomeView>) -> Seq<TraceEntryView> {
    Seq::new(shards.len(), |i: int| shard_entry(shards[i]))
}

/// The entries for the splits of an allocation, in their order: for each
/// split its shards, then the split itself.
pub open spec fn split_steps(allocation_key: Seq<char>, splits: Seq<SplitOutcomeView>) -> Seq<TraceEntryView>
    decreases splits.len(),
{
    if splits.len() == 0 {
        Seq::empty()
    } else {
        split_steps(allocation_key, splits.drop_last()) + shard_steps(splits.last().shards).push(
            split_entry(allocation_key, splits.last()),
        )
    }
}

/// The entries that one allocation adds to a trace: none where it was not
/// evaluated; else its rules, its splits, and the entry that closes it.
pub open spec fn steps_of(outcome: AllocationOutcomeView) -> Seq<TraceEntryView> {
    if outcome.code == AllocationCode::Unevaluated {
        Seq::empty()
    } else {
        (rule_steps(outcome.key, outcome.rules) + split_steps(outcome.key, outcome.splits)).push(
            allocation_entry(outcome),
        )
    }
}

/// The entries that the allocations add to a trace, in their order.
pub open spec fn allocation_steps(allocations: Seq<AllocationOutcomeView>) -> Seq<TraceEntryView>
    decreases allocations.len(),
{
    if allocations.len() == 0 {
        Seq::empty()
    } else {
        allocation_steps(allocations.drop_last()) + steps_of(allocations.last())
    }
}

/// The trace of an evaluation: the lookup of the flag, then the steps of
/// its allocations.
pub open spec fn trace_for(
    flag_key: Seq<char>,
    code: Option<FlagCode>,
    flag_present: bool,
    allocations: Seq<AllocationOutcomeView>,
) -> Seq<TraceEntryView> {
    seq![lookup_entry(flag_key, flag_present, code_name(code))] + allocation_steps(allocations)
}

/// Every entry of the trace for a shard holds the shard of the subject
/// under the salt that the entry names, among `total_shards` shards.
pub open spec fn sharding_entries_hashed(
    trace: Seq<TraceEntryView>,
    subject_key: Seq<char>,
    total_shards: u64,
) -> bool {
    forall|i: int|
        0 <= i < trace.len() && (#[trigger] trace[i]).stage == Stage::Sharding ==> trace[i].shard_value
            == Some(shard_value(subject_key, trace[i].identifier, total_shards))
}

/// The entries for the splits of an allocation hold the shard values of the
/// splits' shards.
proof fn lemma_split_steps_hashed(
    allocation_key: Seq<char>,
    splits: Seq<SplitOutcomeView>,
    subject_key: Seq<char>,
    total_shards: u64,
)
    requires
        forall|s: int, h: int|
            0 <= s < splits.len() && 0 <= h < splits[s].shards.len() ==> (#[trigger] splits[s].shards[h]).value
                == shard_value(subject_key, splits[s].shards[h].salt, total_shards),
    ensures
        sharding_entries_hashed(split_steps(allocation_key, splits), subject_key, total_shards),
    decreases splits.len(),
{
    if splits.len() > 0 {
        let earlier = splits.drop_last();
        let last = splits.last();
        let last_index = splits.len() - 1;
        assert forall|s: int, h: int| 0 <= s < earlier.len() && 0 <= h < earlier[s].shards.len() implies (
        #[trigger] earlier[s].shards[h]).value == shard_value(
            subject_key,
            earlier[s].shards[h].salt,
            total_shards,
        ) by {
            assert(earlier[s] == splits[s]);
            assert(splits[s].shards[h].value == shard_value(subject_key, splits[s].shards[h].salt, total_shards));
        }
        lemma_split_steps_hashed(allocation_key, earlier, subject_key, total_shards);
        let head = split_steps(allocation_key, earlier);
        let tail = shard_steps(last.shards).push(split_entry(allocation_key, last));
        let all = split_steps(allocation_key, splits);
        assert(all == head + tail);
        assert forall|i: int| 0 <= i < all.len() && (#[trigger] all[i]).stage == Stage::Sharding implies all[i].shard_value
            == Some(shard_value(subject_key, all[i].identifier, total_shards)) by {
            if i < head.len() {
                assert(all[i] == head[i]);
            } else {
                let k = i - head.len();
                assert(all[i] == tail[k]);
                if k < last.shards.len() {
                    assert(tail[k] == shard_entry(last.shards[k]));
                    assert(splits[last_index].shards[k].value == shard_value(
                        subject_key,
                        splits[last_index].shards[k].salt,
                        total_shards,
                    ));
                } else {
                    assert(tail[k] == split_entry(allocation_key, last));
                }
            }
        }
    }
}

/// The trace holds the shard values that the record holds: where every
/// shard value of the record is the shard of the subject under the shard's
/// salt, so is every shard value of the trace.
pub proof fn traced_shards_are_hashed(
    flag_key: Seq<char>,
    code: Option<FlagCode>,
    flag_present: bool,
    allocations: Seq<AllocationOutcomeView>,
    subject_key: Seq<char>,
    total_shards: u64,
)
    requires
        shards_hashed(allocations, subject_key, total_shards),
    ensures
        sharding_entries_hashed(
            trace_for(flag_key, code, flag_present, allocations),
            subject_key,
            total_shards,
        ),
{
    lemma_allocation_steps_hashed(allocations, subject_key, total_shards);
    let first = seq![lookup_entry(flag_key, flag_present, code_name(code))];
    let steps = allocation_steps(allocations);
    let all = trace_for(flag_key, code, flag_present, allocations);
    assert forall|i: int| 0 <= i < all.len() && (#[trigger] all[i]).stage == Stage::Sharding implies all[i].shard_value
        == Some(shard_value(subject_key, all[i].identifier, total_shards)) by {
        if i >= 1 {
            assert(all[i] == steps[i - 1]);
        }
    }
}

/// The entries for the allocations hold the shard values of their shards.
proof fn lemma_allocation_steps_hashed(
    allocations: Seq<AllocationOutcomeView>,
    subject_key: Seq<char>,
    total_shards: u64,
)
    requires
        shards_hashed(allocations, subject_key, total_shards),
    ensures
        sharding_entries_hashed(allocation_steps(allocations), subject_key, total_shards),
    decreases allocations.len(),
{
    if allocations.len() > 0 {
        let earlier = allocations.drop_last();
        let last = allocations.last();
        let last_index = allocations.len() - 1;
        assert forall|a: int, s: int, h: int|
            0 <= a < earlier.len() && 0 <= s < earlier[a].splits.len() && 0 <= h
                < earlier[a].splits[s].shards.len() implies (#[trigger] earlier[a].splits[s].shards[h]).value
            == shard_value(subject_key, earlier[a].splits[s].shards[h].salt, total_shards) by {
            assert(earlier[a] == allocations[a]);
            assert(allocations[a].splits[s].shards[h].value == shard_value(
                subject_key,
                allocations[a].splits[s].shards[h].salt,
                total_shards,
            ));
        }
        lemma_allocation_steps_hashed(earlier, subject_key, total_shards);
        assert forall|s: int, h: int| 0 <= s < last.splits.len() && 0 <= h < last.splits[s].shards.len() implies (
        #[trigger] last.splits[s].shards[h]).value == shard_value(
            subject_key,
            last.splits[s].shards[h].salt,
            total_shards,
        ) by {
            assert(allocations[last_index].splits[s].shards[h].value == shard_value(
                subject_key,
                allocations[last_index].splits[s].shards[h].salt,
                total_shards,
            ));
        }
        lemma_split_steps_hashed(last.key, last.splits, subject_key, total_shards);
        let head = allocation_steps(earlier);
        let tail = steps_of(last);
        let all = allocation_steps(allocations);
        assert(all == head + tail);
        let rules = rule_steps(last.key, last.rules);
        let splits = split_steps(last.key, last.splits);
        assert forall|i: int| 0 <= i < all.len() && (#[trigger] all[i]).stage == Stage::Sharding implies all[i].shard_value
            == Some(shard_value(subject_key, all[i].identifier, total_shards)) by {
            if i < head.len() {
                assert(all[i] == head[i]);
            } else {
                let k = i - head.len();
                assert(all[i] == tail[k]);
                if last.code != AllocationCode::Unevaluated {
                    if k < rules.len() {
                        assert(tail[k] == rules[k]);
                    } else if k < rules.len() + splits.len() {
                        assert(tail[k] == splits[k - rules.len()]);
                    } else {
                        assert(tail[k] == allocation_entry(last));
                    }
                }
            }
        }
    }
}

/// Adds the entries for the rules of an allocation to a trace.
fn push_rules(trace: &mut Vec<TraceEntry>, allocation_key: &String, rules: &Vec<bool>)
    ensures
        entry_views(final(trace)@) == entry_views(old(trace)@) + rule_steps(allocation_key@, rules@),
{
    let ghost before = entry_views(trace@);
    assert(before + rule_steps(allocation_key@, rules@.take(0)) =~= before);
    let mut i: usize = 0;
    while i < rules.len()
        invariant
            i <= rules.len(),
            entry_views(trace@) == before + rule_steps(allocation_key@, rules@.take(i as int)),
        decreases rules.len() - i,
    {
        let ghost so_far = entry_views(trace@);
        trace.push(
            TraceEntry {
                stage: Stage::RuleEval,
                identifier: allocation_key.clone(),
                matched: rules[i],
                detail: String::new(),
                shard_value: None,
            },
        );
        proof {
            let entry = rule_entry(allocation_key@, rules@[i as int]);
            assert(entry_views(trace@) =~= so_far.push(entry));
            assert(rule_steps(allocation_key@, rules@.take(i + 1)) =~= rule_steps(
                allocation_key@,
                rules@.take(i as int),
            ).push(entry));
            assert(entry_views(trace@) =~= before + rule_steps(allocation_key@, rules@.take(i + 1)));
        }
        i += 1;
    }
    assert(rules@.take(rules.len() as int) =~= rules@);
}

/// Adds the entries for the shards of a split to a trace.
fn push_shards(trace: &mut Vec<TraceEntry>, shards: &Vec<ShardOutcome>)
    ensures
        entry_views(final(trace)@) == entry_views(old(trace)@) + shard_steps(shard_views(shards@)),
{
    let ghost before = entry_views(trace@);
    let ghost views = shard_views(shards@);
    assert(before + shard_steps(views.take(0)) =~= before);
    let mut i: usize = 0;
    while i < shards.len()
        invariant
            i <= shards.len(),
            views == shard_views(shards@),
            entry_views(trace@) == before + shard_steps(views.take(i as int)),
        decreases shards.len() - i,
    {
        let ghost so_far = entry_views(trace@);
        trace.push(
            TraceEntry {
                stage: Stage::Sharding,
                identifier: shards[i].salt.clone(),
                matched: shards[i].matched,
                detail: String::new(),
                shard_value: Some(shards[i].value),
            },
        );
        proof {
            let entry = shard_entry(views[i as int]);
            assert(entry_views(trace@) =~= so_far.push(entry));
            assert(shard_steps(views.take(i + 1)) =~= shard_steps(views.take(i as int)).push(entry));
            assert(entry_views(trace@) =~= before + shard_steps(views.take(i + 1)));
        }
        i += 1;
    }
    assert(views.take(shards.len() as int) =~= views);
}

/// Adds the entries for the splits of an allocation to a trace.
fn push_splits(trace: &mut Vec<TraceEntry>, allocation_key: &String, splits: &Vec<SplitOutcome>)
    ensures
        entry_views(final(trace)@) == entry_views(old(trace)@) + split_steps(
            allocation_key@,
            split_views(splits@),
        ),
{
    let ghost before = entry_views(trace@);
    let ghost views = split_views(splits@);
    assert(views.take(0) =~= Seq::<SplitOutcomeView>::empty());
    assert(before + split_steps(allocation_key@, views.take(0)) =~= before);
    let mut i: usize = 0;
    while i < splits.len()
        invariant
            i <= splits.len(),
            views == split_views(splits@),
            entry_views(trace@) == before + split_steps(allocation_key@, views.take(i as int)),
        decreases splits.len() - i,
    {
        let ghost so_far = entry_views(trace@);
        push_shards(trace, &splits[i].shards);
        let ghost with_shards = entry_views(trace@);
        trace.push(
            TraceEntry {
                stage: Stage::SplitResolution,
                identifier: splits[i].variation_key.clone(),
                matched: splits[i].matched,
                detail: allocation_key.clone(),
                shard_value: None,
            },
        );
        proof {
            let next = views.take(i + 1);
            assert(next.drop_last() =~= views.take(i as int));
            assert(next.last() == splits@[i as int]@);
            assert(entry_views(trace@) =~= with_shards.push(split_entry(allocation_key@, next.last())));
            assert(entry_views(trace@) =~= before + split_steps(allocation_key@, next));
        }
        i += 1;
    }
    assert(views.take(splits.len() as int) =~= views);
}

/// Adds the entries of one allocation to a trace.
fn push_allocation(trace: &mut Vec<TraceEntry>, outcome: &AllocationOutcome)
    ensures
        entry_views(final(trace)@) == entry_views(old(trace)@) + steps_of(outcome@),
{
    let ghost before = entry_views(trace@);
    if outcome.code == AllocationCode::Unevaluated {
        assert(before + Seq::<TraceEntryView>::empty() =~= before);
        return ;
    }
    push_rules(trace, &outcome.key, &outcome.rules);
    push_splits(trace, &outcome.key, &outcome.splits);
    let ghost inner = entry_views(trace@);
    trace.push(
        TraceEntry {
            stage: Stage::Allocation,
            identifier: outcome.key.clone(),
            matched: outcome.code == AllocationCode::Match,
            detail: outcome.code.label(),
            shard_value: None,
        },
    );
    assert(entry_views(trace@) =~= inner.push(allocation_entry(outcome@)));
    assert(entry_views(trace@) =~= before + steps_of(outcome@));
}

/// Writes the trace of an evaluation from what `eppo_core` recorded.
pub fn build_trace(
    flag_key: &str,
    code: Option<FlagCode>,
    flag_present: bool,
    allocations: &Vec<AllocationOutcome>,
) -> (trace: Vec<TraceEntry>)
    ensures
        entry_views(trace@) == trace_for(flag_key@, code, flag_present, outcome_views(allocations@)),
{
    let detail = match code {
        Some(code) => code.label(),
        None => String::new(),
    };
    let mut trace: Vec<TraceEntry> = Vec::new();
    trace.push(
        TraceEntry {
            stage: Stage::FlagLookup,
            identifier: String::from_str(flag_key),
            matched: flag_present,
            detail,
            shard_value: None,
        },
    );
    let ghost first = seq![lookup_entry(flag_key@, flag_present, code_name(code))];
    let ghost views = outcome_views(allocations@);
    assert(entry_views(trace@) =~= first);
    assert(views.take(0) =~= Seq::<AllocationOutcomeView>::empty());
    assert(first + allocation_steps(views.take(0)) =~= first);
    let mut i: usize = 0;
    while i < allocations.len()
        invariant
            i <= allocations.len(),
            views == outcome_views(allocations@),
            entry_views(trace@) == first + allocation_steps(views.take(i as int)),
        decreases allocations.len() - i,
    {
        push_allocation(&mut trace, &allocations[i]);
        proof {
            let next = views.take(i + 1);
            assert(next.drop_last() =~= views.take(i as int));
            assert(next.last() == allocations@[i as int]@);
            assert(first + allocation_steps(views.take(i as int)) + steps_of(next.last()) =~= first
                + allocation_steps(next));
        }
        i += 1;
    }
    assert(views.take(allocations.len() as int) =~= views);
    trace
}

} // verus!
