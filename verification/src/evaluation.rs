//! Evaluating a flag for a subject against a configuration snapshot.
//!
//! The matching of rules and the hashing of subjects into splits is done by
//! `eppo_core`. This module decides what is handed to it and what is made of
//! its answer: the fallback to the caller's default, the reason that is
//! reported, and the trace of the stages that the evaluation went through.

use std::collections::HashMap;
use vstd::prelude::*;
use vstd::string::*;

use crate::bindings::{
    allocation_count, allocation_head, allocations_of, attribute_kind, attribute_kind_of,
    can_evaluate, condition_heads,
    condition_values, conditions_of, configuration_flags,
    document_layouts, error_debug, error_debug_text, evaluate, evaluate_with_details, evaluated,
    evaluated_splits, flag_code, flag_layout, flag_of, parse_attributes, parsed_attributes,
    plain_value, recorded, value_of,
};
use eppo_core::eval::eval_details::EvaluationDetails as CoreEvaluationDetails;
use crate::configuration::Configuration;
use crate::trace::{
    build_trace, classify, condition_views, derive_warnings, entry_views, lookup_entry, outcome_views,
    reason_for, sharding_entries_hashed, trace_for, traced_shards_are_hashed, warning_views,
    warnings_for, AllocationOutcome, ConditionOutcome, ConditionOutcomeView, FlagCode,
    RecordedCondition, Reason, Stage, TraceEntry, TraceEntryView, Warning, WarningView,
};
use eppo_core::AttributeValue as CoreAttributeValue;

verus! {

/// The type of a flag's variations.
#[derive(Clone, Copy, Debug, PartialEq, Eq, Structural)]
pub enum VariationType {
    String,
    Integer,
    Numeric,
    Boolean,
    Json,
}

/// A value assigned to a subject.
///
/// A numeric value is held as the bits of its IEEE 754 double, a JSON value
/// as its text.
#[derive(Clone, Debug, PartialEq, Eq)]
pub enum AssignmentValue {
    String(String),
    Integer(i64),
    Numeric(u64),
    Boolean(bool),
    Json(String),
}

/// The mathematical value of an [`AssignmentValue`].
pub enum AssignmentValueView {
    String(Seq<char>),
    Integer(i64),
    Numeric(u64),
    Boolean(bool),
    Json(Seq<char>),
}

impl View for AssignmentValue {
    type V = AssignmentValueView;

    open spec fn view(&self) -> AssignmentValueView {
        match self {
            AssignmentValue::String(text) => AssignmentValueView::String(text@),
            AssignmentValue::Integer(value) => AssignmentValueView::Integer(*value),
            AssignmentValue::Numeric(bits) => AssignmentValueView::Numeric(*bits),
            AssignmentValue::Boolean(value) => AssignmentValueView::Boolean(*value),
            AssignmentValue::Json(text) => AssignmentValueView::Json(text@),
        }
    }
}

impl AssignmentValueView {
    /// The variation type that the value belongs to.
    pub open spec fn kind(self) -> VariationType {
        match self {
            AssignmentValueView::String(_) => VariationType::String,
            AssignmentValueView::Integer(_) => VariationType::Integer,
            AssignmentValueView::Numeric(_) => VariationType::Numeric,
            AssignmentValueView::Boolean(_) => VariationType::Boolean,
            AssignmentValueView::Json(_) => VariationType::Json,
        }
    }
}

impl AssignmentValue {
    /// The variation type that the value belongs to.
    pub fn variation_type(&self) -> (kind: VariationType)
        ensures
            kind == self@.kind(),
    {
        match self {
            AssignmentValue::String(_) => VariationType::String,
            AssignmentValue::Integer(_) => VariationType::Integer,
            AssignmentValue::Numeric(_) => VariationType::Numeric,
            AssignmentValue::Boolean(_) => VariationType::Boolean,
            AssignmentValue::Json(_) => VariationType::Json,
        }
    }
}

/// The view of a value that may be absent.
pub open spec fn value_view(value: Option<AssignmentValue>) -> Option<AssignmentValueView> {
    match value {
        Some(value) => Some(value@),
        None => None,
    }
}

/// The variation type that a caller expects, given the default it supplies:
/// the type of the default, or any type where there is no default.
pub open spec fn expected_kind(default: Option<AssignmentValueView>) -> Option<VariationType> {
    match default {
        Some(default) => Some(default.kind()),
        None => None,
    }
}

/// The attributes of a subject: a value for each attribute name.
pub struct Attributes {
    pub values: HashMap<String, CoreAttributeValue>,
}

/// The bytes are not an attributes document. Holds the parser's report.
#[derive(Debug)]
pub struct AttributesError {
    pub report: String,
}

impl Attributes {
    /// No attributes at all.
    pub fn new() -> (attributes: Attributes)
        ensures
            attributes.values@ == Map::<String, CoreAttributeValue>::empty(),
    {
        Attributes { values: HashMap::new() }
    }

    /// Builds the attributes from the outcome of parsing an attributes
    /// document, reporting a parse error with its `Debug` text.
    pub fn from_parsed(parsed: Result<HashMap<String, CoreAttributeValue>, serde_json::Error>) -> (result:
        Result<Attributes, AttributesError>)
        ensures
            match parsed {
                Ok(values) => result matches Ok(attributes) && attributes.values == values,
                Err(error) => result matches Err(failure) && failure.report@ == error_debug_text(error),
            },
    {
        match parsed {
            Ok(values) => Ok(Attributes { values }),
            Err(error) => Err(AttributesError { report: error_debug(&error) }),
        }
    }

    /// Reads the attributes from a JSON object whose members are strings,
    /// numbers, booleans or null.
    ///
    /// Succeeds exactly on the documents that the parser accepts.
    pub fn from_json(document: &[u8]) -> (result: Result<Attributes, AttributesError>)
        ensures
            match result {
                Ok(attributes) => parsed_attributes(document@) matches Ok(values) && values
                    == attributes.values@,
                Err(failure) => parsed_attributes(document@) matches Err(error) && failure.report@
                    == error_debug_text(error),
            },
    {
        Self::from_parsed(parse_attributes(document))
    }
}

/// The result of a detailed evaluation.
#[derive(Debug)]
pub struct AssignmentDetails {
    /// The assigned value, or the caller's default where none is assigned.
    pub value: Option<AssignmentValue>,
    /// Why the evaluation ended as it did.
    pub reason: Reason,
    /// The stages that the evaluation went through, in their order.
    pub trace: Vec<TraceEntry>,
    /// The attributes that were missing or of the wrong type for a
    /// condition, in the order in which the conditions were evaluated.
    pub warnings: Vec<Warning>,
}

/// The mathematical value of an [`AssignmentDetails`].
pub struct AssignmentDetailsView {
    pub value: Option<AssignmentValueView>,
    pub reason: Reason,
    pub trace: Seq<TraceEntryView>,
    pub warnings: Seq<WarningView>,
}

impl View for AssignmentDetails {
    type V = AssignmentDetailsView;

    open spec fn view(&self) -> AssignmentDetailsView {
        AssignmentDetailsView {
            value: value_view(self.value),
            reason: self.reason,
            trace: entry_views(self.trace@),
            warnings: warning_views(self.warnings@),
        }
    }
}

/// The value to return: the assigned one, else the default.
pub open spec fn assigned_or(
    assigned: Option<AssignmentValueView>,
    default: Option<AssignmentValueView>,
) -> Option<AssignmentValueView> {
    match assigned {
        Some(value) => Some(value),
        None => default,
    }
}

/// What `eppo_core` assigns, as a value of this crate.
pub open spec fn assigned_value(
    configuration: Configuration,
    flag_key: Seq<char>,
    subject_key: Seq<char>,
    attributes: Attributes,
    default: Option<AssignmentValueView>,
    now: i64,
) -> Option<AssignmentValueView> {
    match evaluated(
        flag_of(configuration.flags(), flag_key),
        subject_key,
        attributes.values@,
        expected_kind(default),
        now,
    ) {
        Some(value) => Some(value_of(value)),
        None => None,
    }
}

/// The value that an evaluation returns.
///
/// Without a configuration it is the default. A flag whose shard space is
/// empty cannot be evaluated and gives the default too. Otherwise it is the
/// value that `eppo_core` assigns for the flag, the subject, the attributes
/// and the time, with the type of the default expected; and the default
/// where nothing is assigned.
pub open spec fn assignment_for(
    configuration: Option<Configuration>,
    flag_key: Seq<char>,
    subject_key: Seq<char>,
    attributes: Attributes,
    default: Option<AssignmentValueView>,
    now: i64,
) -> Option<AssignmentValueView> {
    match configuration {
        None => default,
        Some(configuration) => if can_evaluate(*configuration.configuration, flag_key) {
            assigned_or(
                assigned_value(configuration, flag_key, subject_key, attributes, default, now),
                default,
            )
        } else {
            default
        },
    }
}

/// The details that an evaluation returns.
///
/// Without a configuration the reason is `NotConfigured` and the trace is
/// empty. A flag whose shard space is empty gives `ConfigurationError` and a
/// trace of its lookup alone. Otherwise reason, trace and warnings are made
/// from the record that `eppo_core` leaves. The value is that of [`assignment_for`].
pub open spec fn details_for(
    configuration: Option<Configuration>,
    flag_key: Seq<char>,
    subject_key: Seq<char>,
    attributes: Attributes,
    default: Option<AssignmentValueView>,
    now: i64,
) -> AssignmentDetailsView {
    match configuration {
        None => AssignmentDetailsView {
            value: default,
            reason: Reason::NotConfigured,
            trace: Seq::empty(),
            warnings: Seq::empty(),
        },
        Some(configuration) => if can_evaluate(*configuration.configuration, flag_key) {
            let record = recorded(
                flag_of(configuration.flags(), flag_key),
                subject_key,
                attributes.values@,
                expected_kind(default),
                now,
            );
            let present = document_layouts(configuration.flags()).contains_key(flag_key);
            AssignmentDetailsView {
                value: assigned_or(
                    assigned_value(configuration, flag_key, subject_key, attributes, default, now),
                    default,
                ),
                reason: reason_for(record.code, present, record.allocations),
                trace: trace_for(flag_key, record.code, present, record.allocations),
                warnings: warnings_for(condition_outcomes(record.conditions, attributes.values@)),
            }
        } else {
            AssignmentDetailsView {
                value: default,
                reason: Reason::ConfigurationError,
                trace: seq![lookup_entry(flag_key, true, Seq::empty())],
                warnings: Seq::empty(),
            }
        },
    }
}

/// The variation type that a caller expects, given the default it supplies.
pub fn expected_type(default: &Option<AssignmentValue>) -> (expected: Option<VariationType>)
    ensures
        expected == expected_kind(value_view(*default)),
{
    match default {
        Some(default) => Some(default.variation_type()),
        None => None,
    }
}

/// Chooses the value to return: the assigned one, else the default.
pub fn value_or_default(assigned: Option<AssignmentValue>, default: Option<AssignmentValue>) -> (result:
    Option<AssignmentValue>)
    ensures
        value_view(result) == assigned_or(value_view(assigned), value_view(default)),
{
    match assigned {
        Some(value) => Some(value),
        None => default,
    }
}

/// Makes the details of an evaluation from what `eppo_core` assigned and
/// recorded: the value or the default, the reason, the trace, and the
/// warnings.
pub fn details_from(
    flag_key: &str,
    assigned: Option<AssignmentValue>,
    default: Option<AssignmentValue>,
    code: Option<FlagCode>,
    flag_present: bool,
    allocations: &Vec<AllocationOutcome>,
    conditions: &Vec<ConditionOutcome>,
) -> (details: AssignmentDetails)
    ensures
        details@ == (AssignmentDetailsView {
            value: assigned_or(value_view(assigned), value_view(default)),
            reason: reason_for(code, flag_present, outcome_views(allocations@)),
            trace: trace_for(flag_key@, code, flag_present, outcome_views(allocations@)),
            warnings: warnings_for(condition_views(conditions@)),
        }),
{
    AssignmentDetails {
        value: value_or_default(assigned, default),
        reason: classify(code, flag_present, allocations),
        trace: build_trace(flag_key, code, flag_present, allocations),
        warnings: derive_warnings(conditions),
    }
}

/// The conditions of a record, each with the kind of value that the
/// subject has for the attribute of the condition.
pub open spec fn condition_outcomes(
    recorded: Seq<RecordedCondition>,
    attributes: Map<String, CoreAttributeValue>,
) -> Seq<ConditionOutcomeView> {
    Seq::new(
        recorded.len(),
        |i: int|
            ConditionOutcomeView {
                attribute: recorded[i].attribute,
                operator: recorded[i].operator,
                kind: recorded[i].kind,
                subject_kind: attribute_kind_of(attributes, recorded[i].attribute),
                matched: recorded[i].matched,
            },
    )
}

/// Reads the conditions off the record of an evaluation, in the order of
/// their evaluation, and looks up what the subject has for each.
pub fn read_conditions(record: &CoreEvaluationDetails, attributes: &Attributes) -> (conditions: Vec<
    ConditionOutcome,
>)
    ensures
        condition_views(conditions@) == condition_outcomes(conditions_of(*record), attributes.values@),
{
    let heads = condition_heads(record);
    let values = condition_values(record);
    let mut conditions: Vec<ConditionOutcome> = Vec::new();
    let mut i: usize = 0;
    while i < heads.len()
        invariant
            i <= heads.len(),
            heads@.len() == conditions_of(*record).len(),
            values@.len() == conditions_of(*record).len(),
            forall|k: int|
                0 <= k < heads@.len() ==> (#[trigger] heads@[k]).0@ == conditions_of(*record)[k].attribute
                    && heads@[k].1 == conditions_of(*record)[k].operator,
            forall|k: int|
                0 <= k < values@.len() ==> (#[trigger] values@[k]).0 == conditions_of(*record)[k].kind
                    && values@[k].1 == conditions_of(*record)[k].matched,
            conditions@.len() == i,
            forall|k: int|
                0 <= k < i ==> (#[trigger] conditions@[k])@ == condition_outcomes(
                    conditions_of(*record),
                    attributes.values@,
                )[k],
        decreases heads.len() - i,
    {
        let subject_kind = attribute_kind(&attributes.values, heads[i].0.as_str());
        conditions.push(
            ConditionOutcome {
                attribute: heads[i].0.clone(),
                operator: heads[i].1,
                kind: values[i].0,
                subject_kind,
                matched: values[i].1,
            },
        );
        i += 1;
    }
    assert(condition_views(conditions@) =~= condition_outcomes(conditions_of(*record), attributes.values@));
    conditions
}

/// Reads the allocations off the record of an evaluation, in their order.
pub fn read_allocations(record: &CoreEvaluationDetails) -> (outcomes: Vec<AllocationOutcome>)
    ensures
        outcome_views(outcomes@) == allocations_of(*record),
{
    let count = allocation_count(record);
    let mut outcomes: Vec<AllocationOutcome> = Vec::new();
    let mut i: usize = 0;
    while i < count
        invariant
            i <= count,
            count == allocations_of(*record).len(),
            outcomes@.len() == i,
            forall|k: int| 0 <= k < i ==> (#[trigger] outcomes@[k])@ == allocations_of(*record)[k],
        decreases count - i,
    {
        let (key, code, rules) = allocation_head(record, i);
        let splits = evaluated_splits(record, i);
        outcomes.push(AllocationOutcome { key, code, rules, splits });
        i += 1;
    }
    assert(outcome_views(outcomes@) =~= allocations_of(*record));
    outcomes
}

/// Evaluates a flag for a subject and returns the assigned value, or the
/// caller's default where none is assigned.
///
/// `now` is the time of the evaluation in nanoseconds since the Unix epoch.
/// The result is a function of the arguments alone.
pub fn get_assignment(
    configuration: Option<&Configuration>,
    flag_key: &str,
    subject_key: &str,
    attributes: &Attributes,
    default: Option<AssignmentValue>,
    now: i64,
) -> (result: Option<AssignmentValue>)
    ensures
        value_view(result) == assignment_for(
            match configuration {
                Some(configuration) => Some(*configuration),
                None => None,
            },
            flag_key@,
            subject_key@,
            *attributes,
            value_view(default),
            now,
        ),
        default matches Some(default) ==> (result matches Some(value) && value@.kind() == default@.kind()),
{
    let configuration = match configuration {
        Some(configuration) => configuration,
        None => { return default; },
    };
    if let Some(layout) = flag_layout(configuration_flags(&configuration.configuration), flag_key) {
        if layout.total_shards == 0 {
            return default;
        }
    }
    let expected = expected_type(&default);
    let assigned = match evaluate(
        &configuration.configuration,
        flag_key,
        subject_key,
        &attributes.values,
        expected,
        now,
    ) {
        Some(value) => Some(plain_value(value)),
        None => None,
    };
    value_or_default(assigned, default)
}

/// Evaluates a flag for a subject as [`get_assignment`] does, and says why
/// the evaluation ended as it did and which stages it went through.
pub fn get_assignment_details(
    configuration: Option<&Configuration>,
    flag_key: &str,
    subject_key: &str,
    attributes: &Attributes,
    default: Option<AssignmentValue>,
    now: i64,
) -> (result: AssignmentDetails)
    ensures
        result@ == details_for(
            match configuration {
                Some(configuration) => Some(*configuration),
                None => None,
            },
            flag_key@,
            subject_key@,
            *attributes,
            value_view(default),
            now,
        ),
        default matches Some(default) ==> (result.value matches Some(value) && value@.kind()
            == default@.kind()),
        result.reason != Reason::VariantFound ==> value_view(result.value) == value_view(default),
        result.reason == Reason::VariantFound ==> (configuration matches Some(configuration)
            && value_view(result.value) == assigned_value(
            *configuration,
            flag_key@,
            subject_key@,
            *attributes,
            value_view(default),
            now,
        ) && result.value is Some),
        configuration matches Some(snapshot) ==> (document_layouts(snapshot.flags()).contains_key(flag_key@)
            ==> sharding_entries_hashed(
            entry_views(result.trace@),
            subject_key@,
            document_layouts(snapshot.flags())[flag_key@].total_shards,
        )),
{
    let configuration = match configuration {
        Some(configuration) => configuration,
        None => {
            let trace: Vec<TraceEntry> = Vec::new();
            let warnings: Vec<Warning> = Vec::new();
            assert(entry_views(trace@) =~= Seq::<TraceEntryView>::empty());
            assert(warning_views(warnings@) =~= Seq::<WarningView>::empty());
            return AssignmentDetails { value: default, reason: Reason::NotConfigured, trace, warnings };
        },
    };
    let present = match flag_layout(configuration_flags(&configuration.configuration), flag_key) {
        Some(layout) => {
            if layout.total_shards == 0 {
                let mut trace: Vec<TraceEntry> = Vec::new();
                trace.push(
                    TraceEntry {
                        stage: Stage::FlagLookup,
                        identifier: String::from_str(flag_key),
                        matched: true,
                        detail: String::new(),
                        shard_value: None,
                    },
                );
                let warnings: Vec<Warning> = Vec::new();
                assert(entry_views(trace@) =~= seq![lookup_entry(flag_key@, true, Seq::empty())]);
                assert(warning_views(warnings@) =~= Seq::<WarningView>::empty());
                return AssignmentDetails {
                    value: default,
                    reason: Reason::ConfigurationError,
                    trace,
                    warnings,
                };
            }
            true
        },
        None => false,
    };
    let expected = expected_type(&default);
    let (assigned, record) = evaluate_with_details(
        &configuration.configuration,
        flag_key,
        subject_key,
        &attributes.values,
        expected,
        now,
    );
    let code = flag_code(&record);
    let allocations = read_allocations(&record);
    let conditions = read_conditions(&record, attributes);
    let assigned = match assigned {
        Some(value) => Some(plain_value(value)),
        None => None,
    };
    proof {
        if present {
            traced_shards_are_hashed(
                flag_key@,
                code,
                present,
                outcome_views(allocations@),
                subject_key@,
                document_layouts(configuration.flags())[flag_key@].total_shards,
            );
        }
    }
    details_from(flag_key, assigned, default, code, present, &allocations, &conditions)
}

/// Evaluation is deterministic: two evaluations of the same flag for the
/// same subject, with the same attributes and default, against the same
/// configuration and at the same time, return the same value.
pub proof fn assignment_is_deterministic(
    first: Option<Configuration>,
    second: Option<Configuration>,
    flag_key: Seq<char>,
    subject_key: Seq<char>,
    attributes: Attributes,
    default: Option<AssignmentValueView>,
    now: i64,
)
    requires
        first == second,
    ensures
        assignment_for(first, flag_key, subject_key, attributes, default, now) == assignment_for(
            second,
            flag_key,
            subject_key,
            attributes,
            default,
            now,
        ),
        details_for(first, flag_key, subject_key, attributes, default, now) == details_for(
            second,
            flag_key,
            subject_key,
            attributes,
            default,
            now,
        ),
{
}

/// Evaluation reads of the configuration the evaluated flag alone: two
/// snapshots that hold the same entry under a flag's key evaluate that flag
/// alike, whatever else they hold. So flags that are added to a
/// configuration, taken from it or changed in it leave the evaluation of
/// the others as it was.
pub proof fn evaluation_reads_the_flag_alone(
    first: Configuration,
    second: Configuration,
    flag_key: Seq<char>,
    subject_key: Seq<char>,
    attributes: Attributes,
    default: Option<AssignmentValueView>,
    now: i64,
)
    requires
        flag_of(first.flags(), flag_key) == flag_of(second.flags(), flag_key),
    ensures
        assignment_for(Some(first), flag_key, subject_key, attributes, default, now) == assignment_for(
            Some(second),
            flag_key,
            subject_key,
            attributes,
            default,
            now,
        ),
        details_for(Some(first), flag_key, subject_key, attributes, default, now) == details_for(
            Some(second),
            flag_key,
            subject_key,
            attributes,
            default,
            now,
        ),
{
}

/// Two snapshots that hold the same flags evaluate alike; so do two
/// snapshots that were built from the same document, and two sets of
/// attributes that hold the same values under the same names.
pub proof fn snapshots_of_the_same_flags_evaluate_alike(
    first: Configuration,
    second: Configuration,
    flag_key: Seq<char>,
    subject_key: Seq<char>,
    attributes: Attributes,
    other_attributes: Attributes,
    default: Option<AssignmentValueView>,
    now: i64,
)
    requires
        first.flags() == second.flags(),
        attributes.values@ == other_attributes.values@,
    ensures
        assignment_for(Some(first), flag_key, subject_key, attributes, default, now) == assignment_for(
            Some(second),
            flag_key,
            subject_key,
            other_attributes,
            default,
            now,
        ),
        details_for(Some(first), flag_key, subject_key, attributes, default, now) == details_for(
            Some(second),
            flag_key,
            subject_key,
            other_attributes,
            default,
            now,
        ),
{
}

/// The two entry points agree: the value that a detailed evaluation reports
/// is the value that the plain evaluation returns.
pub proof fn details_agree_with_assignment(
    configuration: Option<Configuration>,
    flag_key: Seq<char>,
    subject_key: Seq<char>,
    attributes: Attributes,
    default: Option<AssignmentValueView>,
    now: i64,
)
    ensures
        details_for(configuration, flag_key, subject_key, attributes, default, now).value
            == assignment_for(configuration, flag_key, subject_key, attributes, default, now),
{
}

/// Without a configuration every evaluation returns the default, for the
/// reason `NotConfigured`.
pub proof fn not_configured_gives_default(
    flag_key: Seq<char>,
    subject_key: Seq<char>,
    attributes: Attributes,
    default: Option<AssignmentValueView>,
    now: i64,
)
    ensures
        assignment_for(None, flag_key, subject_key, attributes, default, now) == default,
        details_for(None, flag_key, subject_key, attributes, default, now).value == default,
        details_for(None, flag_key, subject_key, attributes, default, now).reason == Reason::NotConfigured,
{
}

} // verus!
