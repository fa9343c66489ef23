//! The boundary to `eppo_core` and `serde_json`.
//!
//! Nothing in this module is proved. Each item states what the rest of the
//! crate assumes about a type or function that lives outside it.

use crate::coverage::{FlagLayout, FlagLayoutView, ShardLayout, ShardRange};
use crate::evaluation::{AssignmentValue, AssignmentValueView, VariationType};
use crate::trace::{
    shards_hashed, split_views, AllocationCode, AllocationOutcomeView, AttributeKind,
    EvaluationRecord, FlagCode, Operator, RecordedCondition, ShardOutcome, SplitOutcome,
};
use eppo_core::eval::eval_details::AllocationEvaluationCode as CoreAllocationCode;
use eppo_core::eval::eval_details::EvaluationDetails as CoreEvaluationDetails;
use eppo_core::eval::eval_details::FlagEvaluationCode as CoreFlagCode;
use eppo_core::ufc::AssignmentValue as CoreAssignmentValue;
use eppo_core::ufc::ConditionOperator as CoreOperator;
use eppo_core::ufc::VariationType as CoreVariationType;
use eppo_core::ufc::{Flag, TryParse, UniversalFlagConfig};
use eppo_core::AttributeValue as CoreAttributeValue;
use eppo_core::Configuration as CoreConfiguration;
use std::collections::HashMap;
use vstd::prelude::*;

verus! {

/// `eppo_core::Configuration`, carried through as an opaque value.
#[verifier::external_type_specification]
#[verifier::external_body]
pub struct ExCoreConfiguration(CoreConfiguration);

/// `eppo_core::ufc::UniversalFlagConfig`, the parsed form of a flags document.
#[verifier::external_type_specification]
#[verifier::external_body]
pub struct ExUniversalFlagConfig(UniversalFlagConfig);

/// `eppo_core::ufc::Flag`, the definition of one flag.
#[verifier::external_type_specification]
#[verifier::external_body]
pub struct ExFlag(Flag);

/// `eppo_core::ufc::TryParse`, which holds what was read, or the JSON value
/// that could not be read.
#[verifier::external_type_specification]
#[verifier::external_body]
#[verifier::reject_recursive_types(T)]
pub struct ExTryParse<T>(TryParse<T>);

/// `serde_json::Error`, carried from a failed call to the code that reports it.
#[verifier::external_type_specification]
#[verifier::external_body]
pub struct ExJsonError(serde_json::Error);

/// What `serde_json::from_slice` makes of a flags document: the flags it
/// read, or the error with which it rejects the bytes.
pub uninterp spec fn parsed_document(document: Seq<u8>) -> Result<UniversalFlagConfig, serde_json::Error>;

/// The flags that a configuration holds (its field `flags`).
pub uninterp spec fn flags_of(configuration: CoreConfiguration) -> UniversalFlagConfig;

/// The keys of the bandit models that a configuration holds (the keys of
/// `bandits.bandits`); empty where it has no bandits response.
pub uninterp spec fn bandit_keys_of(configuration: CoreConfiguration) -> Set<Seq<char>>;

/// The keys of the flags in a flags document (the keys of its map `flags`),
/// whether a flag is enabled or not and whether it could be read or not.
pub uninterp spec fn document_flag_keys(flags: UniversalFlagConfig) -> Set<Seq<char>>;

/// The entry of the flag map of a flags document under a key
/// (`HashMap::get`): `None` where the document has no flag of that key.
pub uninterp spec fn flag_of(flags: UniversalFlagConfig, flag_key: Seq<char>) -> Option<TryParse<Flag>>;

/// What the coverage rule reads of an entry of the flag map: `None` where
/// there is no entry or the flag could not be read; else the flag's
/// `total_shards` and, in definition order, its allocations, the splits of
/// each allocation, and the shards of each split with salt and ranges.
pub uninterp spec fn flag_layout_of(entry: Option<TryParse<Flag>>) -> Option<FlagLayoutView>;

/// For each flag of a flags document that could be read, by its key, what
/// the coverage rule reads of it.
pub open spec fn document_layouts(flags: UniversalFlagConfig) -> Map<Seq<char>, FlagLayoutView> {
    Map::new(
        |key: Seq<char>| flag_layout_of(flag_of(flags, key)) is Some,
        |key: Seq<char>| flag_layout_of(flag_of(flags, key))->0,
    )
}

/// The text that `Debug` gives for a `serde_json::Error`.
pub uninterp spec fn error_debug_text(error: serde_json::Error) -> Seq<char>;

/// The text that `Display` gives for a `serde_json::Error`.
pub uninterp spec fn error_display_text(error: serde_json::Error) -> Seq<char>;

/// `keys` names every member of `set` exactly once and nothing else.
pub open spec fn lists_exactly(keys: Seq<String>, set: Set<Seq<char>>) -> bool {
    &&& forall|i: int, j: int| 0 <= i < j < keys.len() ==> keys[i]@ != keys[j]@
    &&& forall|i: int| 0 <= i < keys.len() ==> set.contains(#[trigger] keys[i]@)
    &&& forall|key: Seq<char>| #[trigger]
        set.contains(key) ==> exists|i: int| 0 <= i < keys.len() && #[trigger] keys[i]@ == key
}

/// Calls `serde_json::from_slice` for a `UniversalFlagConfig`.
///
/// Assumed: whether the document is accepted, and what is read from it,
/// depends on the bytes alone.
#[verifier::external_body]
pub(crate) fn parse_flags(document: &[u8]) -> (parsed: Result<UniversalFlagConfig, serde_json::Error>)
    ensures
        parsed == parsed_document(document@),
{
    serde_json::from_slice(document)
}

/// Calls `eppo_core::Configuration::from_server_response` without a bandits
/// response.
///
/// Assumed: the configuration holds the flags it was given, and no bandit
/// models.
#[verifier::external_body]
pub(crate) fn configuration_from_flags(flags: UniversalFlagConfig) -> (configuration: CoreConfiguration)
    ensures
        flags_of(configuration) == flags,
        bandit_keys_of(configuration) == Set::<Seq<char>>::empty(),
{
    CoreConfiguration::from_server_response(flags, None)
}

/// Borrows the field `flags` of a configuration.
#[verifier::external_body]
pub(crate) fn configuration_flags(configuration: &CoreConfiguration) -> (flags: &UniversalFlagConfig)
    ensures
        *flags == flags_of(*configuration),
{
    &configuration.flags
}

/// Walks the keys of the flag map (`HashMap::keys`).
///
/// Assumed: every flag key comes out once; the order is left open.
#[verifier::external_body]
pub(crate) fn flag_keys(flags: &UniversalFlagConfig) -> (keys: Vec<String>)
    ensures
        lists_exactly(keys@, document_flag_keys(*flags)),
{
    flags.flags.keys().cloned().collect()
}

/// Tests whether the flag map holds a key (`HashMap::contains_key`).
#[verifier::external_body]
pub(crate) fn has_flag(flags: &UniversalFlagConfig, flag_key: &str) -> (held: bool)
    ensures
        held == document_flag_keys(*flags).contains(flag_key@),
{
    flags.flags.contains_key(flag_key)
}

/// Looks a flag up in the flag map (`HashMap::get`) and, where it is there
/// and could be read, copies out what the coverage rule reads of it.
///
/// Assumed: the layout is that of the entry under the key, so `Some`
/// exactly for the keys of flags that could be read, which are flag keys of
/// the document.
#[verifier::external_body]
pub(crate) fn flag_layout(flags: &UniversalFlagConfig, flag_key: &str) -> (layout: Option<FlagLayout>)
    ensures
        match layout {
            Some(layout) => document_flag_keys(*flags).contains(flag_key@) && flag_layout_of(
                flag_of(*flags, flag_key@),
            ) == Some(layout@),
            None => flag_layout_of(flag_of(*flags, flag_key@)) is None,
        },
{
    match flags.flags.get(flag_key) {
        Some(TryParse::Parsed(flag)) => Some(FlagLayout {
            total_shards: flag.total_shards,
            allocations: flag.allocations.iter().map(|allocation| allocation.splits.iter().map(|split|
                split.shards.iter().map(|shard| ShardLayout {
                    salt: shard.salt.clone(),
                    ranges: shard.ranges.iter().map(|r| ShardRange { start: r.start, end: r.end }).collect(),
                }).collect()
            ).collect()).collect(),
        }),
        _ => None,
    }
}

/// Walks the keys of the configuration's bandit map (`HashMap::keys`) where a
/// bandits response is present.
///
/// Assumed: `None` exactly where the configuration has no bandits response,
/// in which case it holds no bandit keys; otherwise every bandit key comes
/// out once, in an order that is left open.
#[verifier::external_body]
pub(crate) fn bandit_keys(configuration: &CoreConfiguration) -> (keys: Option<Vec<String>>)
    ensures
        match keys {
            Some(keys) => lists_exactly(keys@, bandit_keys_of(*configuration)),
            None => bandit_keys_of(*configuration) == Set::<Seq<char>>::empty(),
        },
{
    configuration.bandits.as_ref().map(|response| response.bandits.keys().cloned().collect())
}

/// The documents that `serde_json::to_vec` can write for the flags: the same
/// JSON text up to the order of the members of its objects, one document for
/// each order in which the hash maps of the flags can be walked. There is
/// none where the writer fails on the flags.
pub uninterp spec fn written_documents(flags: UniversalFlagConfig) -> Set<Seq<u8>>;

/// The document reads back as the flags: the reader accepts it, and what it
/// reads has the same flag keys and, for every flag, the same layout.
pub open spec fn reads_back(document: Seq<u8>, flags: UniversalFlagConfig) -> bool {
    parsed_document(document) matches Ok(reread) && document_flag_keys(reread) == document_flag_keys(flags)
        && forall|key: Seq<char>|
        flag_layout_of(#[trigger] flag_of(reread, key)) == flag_layout_of(flag_of(flags, key))
}

/// Calls `serde_json::to_vec` on a flags document.
///
/// Assumed: bytes that come back are one of the documents that the writer
/// can write for these flags. Which of them comes back is left open: the
/// order in which a hash map is written differs from one run to the next.
/// Whether the writer fails does not depend on that order: it fails on what
/// the flags hold, so where it fails there is no document that it can write
/// for them. Nothing is assumed of what comes of reading a written document
/// again: a flag that could not be read is written as the reader kept it,
/// which need not be as it stood in the document.
#[verifier::external_body]
pub(crate) fn serialize_flags(flags: &UniversalFlagConfig) -> (bytes: Result<Vec<u8>, serde_json::Error>)
    ensures
        bytes matches Ok(document) ==> written_documents(*flags).contains(document@),
        bytes is Err ==> written_documents(*flags) == Set::<Seq<u8>>::empty(),
{
    serde_json::to_vec(flags)
}

/// Formats a `serde_json::Error` with `Debug`.
#[verifier::external_body]
pub(crate) fn error_debug(error: &serde_json::Error) -> (text: String)
    ensures
        text@ == error_debug_text(*error),
{
    format!("{error:?}")
}

/// Formats a `serde_json::Error` with `Display`.
#[verifier::external_body]
pub(crate) fn error_display(error: &serde_json::Error) -> (text: String)
    ensures
        text@ == error_display_text(*error),
{
    format!("{error}")
}

/// What `eppo_core::sharder::get_md5_shard` returns for one piece of input:
/// the shard that the MD5 hash of the input's bytes falls into.
pub uninterp spec fn md5_shard(input: Seq<char>, total_shards: u64) -> u64;

/// Calls `eppo_core::sharder::get_md5_shard` on one piece of input.
///
/// Assumed: the shard depends on the input and the number of shards alone,
/// and is below the number of shards (it is a remainder of a division by it).
/// The call divides by `total_shards`, so that must not be zero.
#[verifier::external_body]
pub(crate) fn md5_shard_of(input: &str, total_shards: u64) -> (shard: u64)
    requires
        total_shards > 0,
    ensures
        shard == md5_shard(input@, total_shards),
        shard < total_shards,
{
    eppo_core::sharder::get_md5_shard(&[input], total_shards)
}

/// `eppo_core::AttributeValue`, one attribute of a subject.
#[verifier::external_type_specification]
#[verifier::external_body]
pub struct ExCoreAttributeValue(CoreAttributeValue);

/// `eppo_core::ufc::AssignmentValue`, a value as the evaluation returns it.
#[verifier::external_type_specification]
#[verifier::external_body]
pub struct ExCoreAssignmentValue(CoreAssignmentValue);

/// What `serde_json::from_slice` makes of an attributes document: the
/// attributes it read, by name, or the error with which it rejects the
/// bytes.
pub uninterp spec fn parsed_attributes(document: Seq<u8>) -> Result<
    Map<String, CoreAttributeValue>,
    serde_json::Error,
>;

/// What `eppo_core::eval::get_assignment` assigns for the entry of the flag
/// map under the evaluated key: the value, or `None` where it assigns
/// nothing or fails. Of the configuration, the evaluation reads that entry
/// alone.
pub uninterp spec fn evaluated(
    entry: Option<TryParse<Flag>>,
    subject_key: Seq<char>,
    attributes: Map<String, CoreAttributeValue>,
    expected: Option<VariationType>,
    now: i64,
) -> Option<CoreAssignmentValue>;

/// What an `eppo_core::ufc::AssignmentValue` holds.
pub uninterp spec fn value_of(value: CoreAssignmentValue) -> AssignmentValueView;

/// No evaluation of `flag_key` divides by zero: where the flag could be read,
/// its shard space is not empty.
pub open spec fn can_evaluate(configuration: CoreConfiguration, flag_key: Seq<char>) -> bool {
    document_layouts(flags_of(configuration)).contains_key(flag_key) ==> document_layouts(
        flags_of(configuration),
    )[flag_key].total_shards > 0
}

/// Calls `serde_json::from_slice` for a map from attribute names to
/// `AttributeValue`.
///
/// Assumed: whether the document is accepted, and what is read from it,
/// depends on the bytes alone.
#[verifier::external_body]
pub(crate) fn parse_attributes(document: &[u8]) -> (parsed: Result<
    HashMap<String, CoreAttributeValue>,
    serde_json::Error,
>)
    ensures
        match parsed {
            Ok(attributes) => parsed_attributes(document@) == Ok::<
                Map<String, CoreAttributeValue>,
                serde_json::Error,
            >(attributes@),
            Err(error) => parsed_attributes(document@) == Err::<
                Map<String, CoreAttributeValue>,
                serde_json::Error,
            >(error),
        },
{
    serde_json::from_slice(document)
}

/// Calls `eppo_core::eval::get_assignment` with a configuration, at the time
/// `now` (nanoseconds since the Unix epoch), and keeps the assigned value.
///
/// Assumed: the value depends on the entry of the flag map under the key,
/// the subject key, the attributes by name, the expected type and the time,
/// and on nothing else. Where a type is expected, a value is assigned only
/// if the flag has that type, and is then of that type. The call hashes the
/// subject into the flag's shard space, so that space must not be empty.
#[verifier::external_body]
pub(crate) fn evaluate(
    configuration: &CoreConfiguration,
    flag_key: &str,
    subject_key: &str,
    attributes: &HashMap<String, CoreAttributeValue>,
    expected: Option<VariationType>,
    now: i64,
) -> (value: Option<CoreAssignmentValue>)
    requires
        can_evaluate(*configuration, flag_key@),
    ensures
        value == evaluated(
            flag_of(flags_of(*configuration), flag_key@),
            subject_key@,
            attributes@,
            expected,
            now,
        ),
        expected matches Some(kind) && value matches Some(assigned) ==> value_of(assigned).kind() == kind,
{
    let meta = eppo_core::SdkMetadata { name: "eppo_config", version: "0.1.0" };
    let now = eppo_core::ufc::Timestamp::from_timestamp_nanos(now);
    let expected = expected.map(|kind| match kind {
        VariationType::String => CoreVariationType::String,
        VariationType::Integer => CoreVariationType::Integer,
        VariationType::Numeric => CoreVariationType::Numeric,
        VariationType::Boolean => CoreVariationType::Boolean,
        VariationType::Json => CoreVariationType::Json,
    });
    eppo_core::eval::get_assignment(Some(configuration), flag_key, subject_key, attributes, expected, now, &meta)
        .ok().flatten().map(|assignment| assignment.value)
}

/// Copies an `eppo_core::ufc::AssignmentValue` out into this crate's type: a
/// number by `to_bits`, a JSON value by `to_string`.
#[verifier::external_body]
pub(crate) fn plain_value(value: CoreAssignmentValue) -> (plain: AssignmentValue)
    ensures
        plain@ == value_of(value),
{
    match value {
        CoreAssignmentValue::String(text) => AssignmentValue::String(text),
        CoreAssignmentValue::Integer(value) => AssignmentValue::Integer(value),
        CoreAssignmentValue::Numeric(value) => AssignmentValue::Numeric(value.to_bits()),
        CoreAssignmentValue::Boolean(value) => AssignmentValue::Boolean(value),
        CoreAssignmentValue::Json(value) => AssignmentValue::Json(value.to_string()),
    }
}

/// `eppo_core::eval::eval_details::EvaluationDetails`, the record that a
/// detailed evaluation leaves.
#[verifier::external_type_specification]
#[verifier::external_body]
pub struct ExCoreEvaluationDetails(CoreEvaluationDetails);

/// What the record that `eppo_core::eval::get_assignment_details` leaves
/// holds of the evaluation: the flag evaluation code and the allocations.
/// Of the configuration, the evaluation reads the entry of the flag map
/// under the evaluated key alone.
pub uninterp spec fn recorded(
    entry: Option<TryParse<Flag>>,
    subject_key: Seq<char>,
    attributes: Map<String, CoreAttributeValue>,
    expected: Option<VariationType>,
    now: i64,
) -> EvaluationRecord;

/// The flag evaluation code of a record, where it has one.
pub uninterp spec fn flag_code_of(details: CoreEvaluationDetails) -> Option<FlagCode>;

/// The allocations of a record in their order, each with its key, its
/// evaluation code, whether each evaluated rule matched, and its evaluated
/// splits with their shards.
pub uninterp spec fn allocations_of(details: CoreEvaluationDetails) -> Seq<AllocationOutcomeView>;

/// The conditions that a record holds, over all allocations and their
/// rules in the order of their evaluation: for each the attribute it reads,
/// its operator, the kind of value that was taken for the attribute, and
/// whether it matched.
pub uninterp spec fn conditions_of(details: CoreEvaluationDetails) -> Seq<RecordedCondition>;

/// Calls `eppo_core::eval::get_assignment_details` with a configuration, at
/// the time `now` (nanoseconds since the Unix epoch), and keeps the assigned
/// value and the record.
///
/// Assumed: the value is the one that `get_assignment` assigns, and so of
/// the expected type where one is expected. The code, the allocations and
/// the conditions of the record depend on the same arguments as the value,
/// and on nothing else; the code is `Match` exactly where a value is assigned. Each shard
/// value in the record is the hash, as `get_md5_shard` gives it, of the
/// shard's salt, a hyphen and the subject key, among the `total_shards` of
/// the flag. The shard space of the flag must not be empty.
#[verifier::external_body]
pub(crate) fn evaluate_with_details(
    configuration: &CoreConfiguration,
    flag_key: &str,
    subject_key: &str,
    attributes: &HashMap<String, CoreAttributeValue>,
    expected: Option<VariationType>,
    now: i64,
) -> (result: (Option<CoreAssignmentValue>, CoreEvaluationDetails))
    requires
        can_evaluate(*configuration, flag_key@),
    ensures
        result.0 == evaluated(
            flag_of(flags_of(*configuration), flag_key@),
            subject_key@,
            attributes@,
            expected,
            now,
        ),
        flag_code_of(result.1) == recorded(
            flag_of(flags_of(*configuration), flag_key@),
            subject_key@,
            attributes@,
            expected,
            now,
        ).code,
        allocations_of(result.1) == recorded(
            flag_of(flags_of(*configuration), flag_key@),
            subject_key@,
            attributes@,
            expected,
            now,
        ).allocations,
        conditions_of(result.1) == recorded(
            flag_of(flags_of(*configuration), flag_key@),
            subject_key@,
            attributes@,
            expected,
            now,
        ).conditions,
        result.0 is Some <==> flag_code_of(result.1) == Some(FlagCode::Match),
        flag_layout_of(flag_of(flags_of(*configuration), flag_key@)) matches Some(layout) ==> shards_hashed(
            allocations_of(result.1),
            subject_key@,
            layout.total_shards,
        ),
        expected matches Some(kind) && result.0 matches Some(assigned) ==> value_of(assigned).kind() == kind,
{
    let meta = eppo_core::SdkMetadata { name: "eppo_config", version: "0.1.0" };
    let now = eppo_core::ufc::Timestamp::from_timestamp_nanos(now);
    let expected = expected.map(|kind| match kind {
        VariationType::String => CoreVariationType::String,
        VariationType::Integer => CoreVariationType::Integer,
        VariationType::Numeric => CoreVariationType::Numeric,
        VariationType::Boolean => CoreVariationType::Boolean,
        VariationType::Json => CoreVariationType::Json,
    });
    let (result, _) = eppo_core::eval::get_assignment_details(Some(configuration), flag_key, subject_key, attributes, expected, now, &meta);
    (result.variation, result.evaluation_details)
}

/// Reads the flag evaluation code off a record.
#[verifier::external_body]
pub(crate) fn flag_code(details: &CoreEvaluationDetails) -> (code: Option<FlagCode>)
    ensures
        code == flag_code_of(*details),
{
    details.flag_evaluation_code.map(|code| match code {
        CoreFlagCode::Match => FlagCode::Match,
        CoreFlagCode::ConfigurationMissing => FlagCode::ConfigurationMissing,
        CoreFlagCode::FlagUnrecognizedOrDisabled => FlagCode::FlagUnrecognizedOrDisabled,
        CoreFlagCode::DefaultAllocationNull => FlagCode::DefaultAllocationNull,
        CoreFlagCode::TypeMismatch => FlagCode::TypeMismatch,
        CoreFlagCode::UnexpectedConfigurationError => FlagCode::UnexpectedConfigurationError,
    })
}

/// The number of allocations in a record.
#[verifier::external_body]
pub(crate) fn allocation_count(details: &CoreEvaluationDetails) -> (count: usize)
    ensures
        count == allocations_of(*details).len(),
{
    details.allocations.len()
}

/// Reads the key of one allocation of a record, its evaluation code, and
/// whether each of its evaluated rules matched.
#[verifier::external_body]
pub(crate) fn allocation_head(details: &CoreEvaluationDetails, index: usize) -> (head: (
    String,
    AllocationCode,
    Vec<bool>,
))
    requires
        index < allocations_of(*details).len(),
    ensures
        head.0@ == allocations_of(*details)[index as int].key,
        head.1 == allocations_of(*details)[index as int].code,
        head.2@ == allocations_of(*details)[index as int].rules,
{
    let allocation = &details.allocations[index];
    let code = match allocation.allocation_evaluation_code {
        CoreAllocationCode::Unevaluated => AllocationCode::Unevaluated,
        CoreAllocationCode::Match => AllocationCode::Match,
        CoreAllocationCode::BeforeStartTime => AllocationCode::BeforeStartTime,
        CoreAllocationCode::AfterEndTime => AllocationCode::AfterEndTime,
        CoreAllocationCode::FailingRule => AllocationCode::FailingRule,
        CoreAllocationCode::TrafficExposureMiss => AllocationCode::TrafficExposureMiss,
    };
    (allocation.key.clone(), code, allocation.evaluated_rules.iter().map(|rule| rule.matched).collect())
}

/// Reads the evaluated splits of one allocation of a record, in their
/// order, each with its evaluated shards.
#[verifier::external_body]
pub(crate) fn evaluated_splits(details: &CoreEvaluationDetails, index: usize) -> (splits: Vec<SplitOutcome>)
    requires
        index < allocations_of(*details).len(),
    ensures
        split_views(splits@) == allocations_of(*details)[index as int].splits,
{
    details.allocations[index].evaluated_splits.iter().map(|split| SplitOutcome {
        variation_key: split.variation_key.clone(),
        matched: split.matched,
        shards: split.shards.iter().map(|shard| ShardOutcome {
            salt: shard.shard.salt.clone(),
            value: shard.shard_value,
            matched: shard.matched,
        }).collect(),
    }).collect()
}

/// Reads off a record, for each condition that it holds, the attribute
/// that the condition reads and its operator.
#[verifier::external_body]
pub(crate) fn condition_heads(details: &CoreEvaluationDetails) -> (heads: Vec<(String, Operator)>)
    ensures
        heads@.len() == conditions_of(*details).len(),
        forall|i: int|
            0 <= i < heads@.len() ==> (#[trigger] heads@[i]).0@ == conditions_of(*details)[i].attribute
                && heads@[i].1 == conditions_of(*details)[i].operator,
{
    details.allocations.iter().flat_map(|allocation| allocation.evaluated_rules.iter())
        .flat_map(|rule| rule.conditions.iter())
        .map(|evaluated| (evaluated.condition.attribute.to_string(), match evaluated.condition.operator {
            CoreOperator::Matches => Operator::Matches,
            CoreOperator::NotMatches => Operator::NotMatches,
            CoreOperator::Gte => Operator::Gte,
            CoreOperator::Gt => Operator::Gt,
            CoreOperator::Lte => Operator::Lte,
            CoreOperator::Lt => Operator::Lt,
            CoreOperator::OneOf => Operator::OneOf,
            CoreOperator::NotOneOf => Operator::NotOneOf,
            CoreOperator::IsNull => Operator::IsNull,
        })).collect()
}

/// Reads off a record, for each condition that it holds, the kind of value
/// that was taken for the attribute, and whether the condition matched.
#[verifier::external_body]
pub(crate) fn condition_values(details: &CoreEvaluationDetails) -> (values: Vec<(AttributeKind, bool)>)
    ensures
        values@.len() == conditions_of(*details).len(),
        forall|i: int|
            0 <= i < values@.len() ==> (#[trigger] values@[i]).0 == conditions_of(*details)[i].kind
                && values@[i].1 == conditions_of(*details)[i].matched,
{
    details.allocations.iter().flat_map(|allocation| allocation.evaluated_rules.iter())
        .flat_map(|rule| rule.conditions.iter())
        .map(|evaluated| (match &evaluated.attribute_value {
            None => AttributeKind::Missing,
            Some(CoreAttributeValue::Null) => AttributeKind::Null,
            Some(CoreAttributeValue::String(_)) => AttributeKind::String,
            Some(CoreAttributeValue::Number(_)) => AttributeKind::Number,
            Some(CoreAttributeValue::Boolean(_)) => AttributeKind::Boolean,
        }, evaluated.matched)).collect()
}

/// The kind of value that the attributes hold under a name
/// (`HashMap::get`): `Missing` where they hold none.
pub uninterp spec fn attribute_kind_of(attributes: Map<String, CoreAttributeValue>, name: Seq<char>) -> AttributeKind;

/// Looks an attribute up by its name (`HashMap::get`) and tells the
/// variants of `AttributeValue` apart.
#[verifier::external_body]
pub(crate) fn attribute_kind(attributes: &HashMap<String, CoreAttributeValue>, name: &str) -> (kind:
    AttributeKind)
    ensures
        kind == attribute_kind_of(attributes@, name@),
{
    match attributes.get(name) {
        None => AttributeKind::Missing,
        Some(CoreAttributeValue::Null) => AttributeKind::Null,
        Some(CoreAttributeValue::String(_)) => AttributeKind::String,
        Some(CoreAttributeValue::Number(_)) => AttributeKind::Number,
        Some(CoreAttributeValue::Boolean(_)) => AttributeKind::Boolean,
    }
}

} // verus!
