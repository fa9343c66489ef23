//! The configuration snapshot and what can be read from it.

use std::sync::Arc;
use vstd::prelude::*;
use vstd::string::*;

use crate::bindings::{
    flag_layout_of, flag_of, has_flag, bandit_keys, bandit_keys_of, configuration_flags, configuration_from_flags, document_flag_keys,
    document_layouts, error_debug, error_debug_text, error_display, error_display_text, flag_keys,
    flag_layout, flags_of, lists_exactly, parse_flags, parsed_document, reads_back,
    serialize_flags, written_documents,
};
use crate::coverage::FlagLayout;
use crate::coverage::{
    allocation_covered, check_layout, coverage_bound, family_size, layout_covered, pairwise_disjoint,
    same_layout,
    picked_claims, separated_splits_share_no_subject, split_covered, split_holds, split_sizes_bound,
    splits_agree, splits_separated, total_size,
};
use eppo_core::ufc::UniversalFlagConfig;
use eppo_core::Configuration as CoreConfiguration;

verus! {

/// Why a configuration could not be built or written out.
#[derive(Debug)]
pub enum ConfigurationError {
    /// The bytes are not a flags document. Holds the parser's report.
    InvalidFlagsConfiguration(String),
    /// A flag of the document breaks the coverage rule. Holds the flag's key.
    ShardCoverage(String),
    /// The flags could not be written as a document. Holds the writer's report.
    Serialization(String),
}

impl ConfigurationError {
    /// The message of the error.
    pub open spec fn message_text(&self) -> Seq<char> {
        match self {
            ConfigurationError::InvalidFlagsConfiguration(report) => "argument 'flags_configuration': "@
                + report@,
            ConfigurationError::ShardCoverage(key) => "argument 'flags_configuration': flag "@ + key@
                + " breaks the shard coverage rule"@,
            ConfigurationError::Serialization(report) => report@,
        }
    }

    /// Writes the message of the error: for a document that was refused,
    /// the argument that held it and why it was refused; for a failure to
    /// write the flags, the writer's report.
    pub fn message(&self) -> (message: String)
        ensures
            message@ == self.message_text(),
    {
        match self {
            ConfigurationError::InvalidFlagsConfiguration(report) => {
                String::from_str("argument 'flags_configuration': ").concat(report.as_str())
            },
            ConfigurationError::ShardCoverage(key) => {
                String::from_str("argument 'flags_configuration': flag ").concat(key.as_str()).concat(
                    " breaks the shard coverage rule",
                )
            },
            ConfigurationError::Serialization(report) => report.clone(),
        }
    }
}

/// Every flag of the document that could be read meets the coverage rule.
pub open spec fn document_covered(flags: UniversalFlagConfig) -> bool {
    forall|key: Seq<char>|
        document_flag_keys(flags).contains(key) && #[trigger] document_layouts(flags).contains_key(key)
            ==> layout_covered(document_layouts(flags)[key])
}

/// The document can be loaded: the parser accepts it and every flag that it
/// reads meets the coverage rule.
pub open spec fn loads(document: Seq<u8>) -> bool {
    parsed_document(document) matches Ok(flags) && document_covered(flags)
}

/// The two documents hold flags of the same keys, and under each key flags
/// of the same layout, or under both a flag that could not be read.
pub open spec fn same_layouts(first: UniversalFlagConfig, second: UniversalFlagConfig) -> bool {
    &&& document_flag_keys(first) == document_flag_keys(second)
    &&& forall|key: Seq<char>| #[trigger]
        document_flag_keys(first).contains(key) ==> flag_layout_of(flag_of(first, key)) == flag_layout_of(
            flag_of(second, key),
        )
}

/// Tests whether a document holds a flag under each of the keys.
fn holds_keys(flags: &UniversalFlagConfig, keys: &Vec<String>) -> (result: bool)
    ensures
        result == (forall|i: int|
            0 <= i < keys.len() ==> document_flag_keys(*flags).contains(#[trigger] keys@[i]@)),
{
    let mut i: usize = 0;
    while i < keys.len()
        invariant
            i <= keys.len(),
            forall|k: int| 0 <= k < i ==> document_flag_keys(*flags).contains(#[trigger] keys@[k]@),
        decreases keys.len() - i,
    {
        if !has_flag(flags, keys[i].as_str()) {
            return false;
        }
        i += 1;
    }
    true
}

/// Tests whether two layouts that may be absent are the same.
fn same_layout_or_none(first: &Option<FlagLayout>, second: &Option<FlagLayout>) -> (result: bool)
    ensures
        result == (match (*first, *second) {
            (Some(first), Some(second)) => first@ == second@,
            (None, None) => true,
            _ => false,
        }),
{
    match (first, second) {
        (Some(first), Some(second)) => same_layout(first, second),
        (None, None) => true,
        _ => false,
    }
}

/// Tests whether two documents hold flags of the same keys and layouts.
pub fn check_same_layouts(first: &UniversalFlagConfig, second: &UniversalFlagConfig) -> (result: bool)
    ensures
        result == same_layouts(*first, *second),
{
    let keys = flag_keys(first);
    let other_keys = flag_keys(second);
    if !holds_keys(second, &keys) || !holds_keys(first, &other_keys) {
        assert(document_flag_keys(*first) != document_flag_keys(*second));
        return false;
    }
    assert(document_flag_keys(*first) =~= document_flag_keys(*second)) by {
        assert forall|key: Seq<char>| document_flag_keys(*first).contains(key) implies document_flag_keys(
            *second,
        ).contains(key) by {
            let i = choose|i: int| 0 <= i < keys@.len() && #[trigger] keys@[i]@ == key;
            assert(document_flag_keys(*second).contains(keys@[i]@));
        }
        assert forall|key: Seq<char>| document_flag_keys(*second).contains(key) implies document_flag_keys(
            *first,
        ).contains(key) by {
            let i = choose|i: int| 0 <= i < other_keys@.len() && #[trigger] other_keys@[i]@ == key;
            assert(document_flag_keys(*first).contains(other_keys@[i]@));
        }
    }
    let mut i: usize = 0;
    while i < keys.len()
        invariant
            i <= keys.len(),
            lists_exactly(keys@, document_flag_keys(*first)),
            document_flag_keys(*first) == document_flag_keys(*second),
            forall|k: int|
                0 <= k < i ==> flag_layout_of(flag_of(*first, #[trigger] keys@[k]@)) == flag_layout_of(
                    flag_of(*second, keys@[k]@),
                ),
        decreases keys.len() - i,
    {
        let layout = flag_layout(first, keys[i].as_str());
        let other = flag_layout(second, keys[i].as_str());
        if !same_layout_or_none(&layout, &other) {
            assert(document_flag_keys(*first).contains(keys@[i as int]@));
            assert(flag_layout_of(flag_of(*first, keys@[i as int]@)) != flag_layout_of(
                flag_of(*second, keys@[i as int]@),
            ));
            return false;
        }
        i += 1;
    }
    assert forall|key: Seq<char>| #[trigger] document_flag_keys(*first).contains(key) implies flag_layout_of(
        flag_of(*first, key),
    ) == flag_layout_of(flag_of(*second, key)) by {
        let i = choose|i: int| 0 <= i < keys@.len() && #[trigger] keys@[i]@ == key;
        assert(flag_layout_of(flag_of(*first, keys@[i]@)) == flag_layout_of(flag_of(*second, keys@[i]@)));
    }
    true
}

/// `key` names a flag of the document that breaks the coverage rule.
pub open spec fn breaks_coverage(flags: UniversalFlagConfig, key: Seq<char>) -> bool {
    &&& document_flag_keys(flags).contains(key)
    &&& document_layouts(flags).contains_key(key)
    &&& !layout_covered(document_layouts(flags)[key])
}

/// Looks for a flag that breaks the coverage rule and returns its key.
///
/// Returns `None` exactly where the document meets the rule. Where several
/// flags break it, which of them is named is left open.
pub fn find_coverage_violation(flags: &UniversalFlagConfig) -> (violation: Option<String>)
    ensures
        match violation {
            Some(key) => breaks_coverage(*flags, key@),
            None => document_covered(*flags),
        },
{
    let keys = flag_keys(flags);
    let mut i: usize = 0;
    while i < keys.len()
        invariant
            i <= keys.len(),
            lists_exactly(keys@, document_flag_keys(*flags)),
            forall|k: int|
                0 <= k < i && document_layouts(*flags).contains_key(#[trigger] keys@[k]@)
                    ==> layout_covered(document_layouts(*flags)[keys@[k]@]),
        decreases keys.len() - i,
    {
        match flag_layout(flags, keys[i].as_str()) {
            Some(layout) => {
                if !check_layout(&layout) {
                    return Some(keys[i].clone());
                }
            },
            None => {},
        }
        i += 1;
    }
    assert forall|key: Seq<char>|
        document_flag_keys(*flags).contains(key) && #[trigger] document_layouts(*flags).contains_key(
            key,
        ) implies layout_covered(document_layouts(*flags)[key]) by {
        let k = choose|k: int| 0 <= k < keys@.len() && #[trigger] keys@[k]@ == key;
        assert(document_layouts(*flags).contains_key(keys@[k]@));
    }
    None
}

/// Configuration of the client: flag definitions and bandit models.
///
/// A thin handle on a shared, immutable snapshot. Nothing ever changes the
/// snapshot in place; a new configuration replaces the old one as a whole.
pub struct Configuration {
    pub configuration: Arc<CoreConfiguration>,
}

impl Configuration {
    /// The flags of the snapshot.
    pub open spec fn flags(&self) -> UniversalFlagConfig {
        flags_of(*self.configuration)
    }

    /// The keys of all flags in the snapshot, enabled or not.
    pub open spec fn flag_keys(&self) -> Set<Seq<char>> {
        document_flag_keys(self.flags())
    }

    /// The keys of all bandit models in the snapshot.
    pub open spec fn bandit_keys(&self) -> Set<Seq<char>> {
        bandit_keys_of(*self.configuration)
    }

    /// Every flag of the snapshot that could be read meets the coverage rule.
    pub open spec fn well_formed(&self) -> bool {
        document_covered(self.flags())
    }

    /// The writer has a document for the flags of the snapshot.
    pub open spec fn can_be_written(&self) -> bool {
        exists|document: Seq<u8>| self.flags_documents().contains(document)
    }

    /// The documents in the wire format that hold the flags of the snapshot.
    pub open spec fn flags_documents(&self) -> Set<Seq<u8>> {
        written_documents(self.flags())
    }

    /// Wraps an existing snapshot as it is.
    pub fn new(configuration: Arc<CoreConfiguration>) -> (result: Configuration)
        ensures
            result.configuration == configuration,
    {
        Configuration { configuration }
    }

    /// Builds a configuration from the outcome of parsing a flags document.
    ///
    /// A parse error is reported with its `Debug` text. A document that was
    /// read is checked against the coverage rule: if a flag breaks it, that
    /// flag is reported and no configuration is built; otherwise the snapshot
    /// holds exactly the flags of the document, and no bandit models.
    pub fn from_parsed(parsed: Result<UniversalFlagConfig, serde_json::Error>) -> (result: Result<
        Configuration,
        ConfigurationError,
    >)
        ensures
            match parsed {
                Ok(flags) => match result {
                    Ok(configuration) => document_covered(flags) && configuration.flags() == flags
                        && configuration.bandit_keys() == Set::<Seq<char>>::empty(),
                    Err(ConfigurationError::ShardCoverage(key)) => breaks_coverage(flags, key@),
                    Err(_) => false,
                },
                Err(error) => result matches Err(ConfigurationError::InvalidFlagsConfiguration(text))
                    && text@ == error_debug_text(error),
            },
    {
        match parsed {
            Ok(flags) => match find_coverage_violation(&flags) {
                Some(key) => Err(ConfigurationError::ShardCoverage(key)),
                None => Ok(Configuration { configuration: Arc::new(configuration_from_flags(flags)) }),
            },
            Err(error) => Err(ConfigurationError::InvalidFlagsConfiguration(error_debug(&error))),
        }
    }

    /// Builds a configuration from a flags document in its wire format.
    ///
    /// Succeeds exactly on the documents that the parser accepts and whose
    /// flags all meet the coverage rule. The configuration then holds the
    /// flags of the document and no bandit models, and is well formed. A
    /// document that the parser rejects is reported with the `Debug` text of
    /// the parser's error.
    pub fn from_flags_configuration(flags_configuration: &[u8]) -> (result: Result<
        Configuration,
        ConfigurationError,
    >)
        ensures
            match result {
                Ok(configuration) => parsed_document(flags_configuration@) matches Ok(flags) && flags
                    == configuration.flags() && configuration.well_formed()
                    && configuration.bandit_keys() == Set::<Seq<char>>::empty(),
                Err(ConfigurationError::InvalidFlagsConfiguration(report)) => parsed_document(
                    flags_configuration@,
                ) matches Err(error) && report@ == error_debug_text(error),
                Err(ConfigurationError::ShardCoverage(key)) => parsed_document(
                    flags_configuration@,
                ) matches Ok(flags) && breaks_coverage(flags, key@),
                Err(ConfigurationError::Serialization(_)) => false,
            },
            result is Ok <==> loads(flags_configuration@),
    {
        Self::from_parsed(parse_flags(flags_configuration))
    }

    /// Tests whether every flag of the snapshot meets the coverage rule.
    pub fn is_well_formed(&self) -> (result: bool)
        ensures
            result == self.well_formed(),
    {
        let violation = find_coverage_violation(configuration_flags(&self.configuration));
        proof {
            if violation is Some {
                assert(document_layouts(self.flags()).contains_key(violation->0@));
            }
        }
        violation.is_none()
    }

    /// Tests whether another snapshot holds flags of the same keys and
    /// layouts as this one. A snapshot that was built from the bytes that
    /// this one wrote can be held against this one so.
    pub fn has_the_layouts_of(&self, other: &Configuration) -> (result: bool)
        ensures
            result == same_layouts(self.flags(), other.flags()),
    {
        check_same_layouts(configuration_flags(&self.configuration), configuration_flags(&other.configuration))
    }

    /// The keys of all flags in the snapshot, each once, in no particular
    /// order. Disabled flags and flags that could not be read are included.
    pub fn get_flag_keys(&self) -> (keys: Vec<String>)
        ensures
            lists_exactly(keys@, self.flag_keys()),
    {
        flag_keys(configuration_flags(&self.configuration))
    }

    /// The bandit keys to report, given what was read from the snapshot:
    /// the keys that were found, or none where there is no bandits response.
    pub fn bandit_keys_or_none(found: Option<Vec<String>>) -> (keys: Vec<String>)
        ensures
            keys@ == match found {
                Some(found) => found@,
                None => Seq::<String>::empty(),
            },
    {
        match found {
            Some(found) => found,
            None => Vec::new(),
        }
    }

    /// The keys of all bandit models in the snapshot, each once, in no
    /// particular order. Empty where the snapshot has no bandits response.
    pub fn get_bandit_keys(&self) -> (keys: Vec<String>)
        ensures
            lists_exactly(keys@, self.bandit_keys()),
    {
        Self::bandit_keys_or_none(bandit_keys(&self.configuration))
    }

    /// Turns the outcome of writing the flags into this crate's result: the
    /// bytes as they are, or the writer's report as `Display` gives it.
    pub fn flags_configuration_from(written: Result<Vec<u8>, serde_json::Error>) -> (result: Result<
        Vec<u8>,
        ConfigurationError,
    >)
        ensures
            match written {
                Ok(bytes) => result == Ok::<Vec<u8>, ConfigurationError>(bytes),
                Err(error) => result matches Err(ConfigurationError::Serialization(text))
                    && text@ == error_display_text(error),
            },
    {
        match written {
            Ok(bytes) => Ok(bytes),
            Err(error) => Err(ConfigurationError::Serialization(error_display(&error))),
        }
    }

    /// The flags of the snapshot as a document in the wire format.
    ///
    /// The bytes are one of the documents that the writer gives for the flags
    /// of this snapshot; they differ from one another only in the order of
    /// the members of their objects, and which of them is returned is left
    /// open. They are to be treated as opaque and handed to another client,
    /// which builds its own snapshot from them. Whether they load there,
    /// and as what, is for the receiver to test: a flag that could not be
    /// read here is written as it was kept, and may read differently.
    ///
    /// Succeeds exactly where the writer has a document for the flags of
    /// the snapshot. A failure to write the document is always reported as
    /// [`ConfigurationError::Serialization`].
    pub fn get_flags_configuration(&self) -> (result: Result<Vec<u8>, ConfigurationError>)
        ensures
            match result {
                Ok(bytes) => self.flags_documents().contains(bytes@),
                Err(error) => error is Serialization && self.flags_documents() == Set::<Seq<u8>>::empty(),
            },
            result is Ok <==> self.can_be_written(),
    {
        let written = serialize_flags(configuration_flags(&self.configuration));
        proof {
            if written is Ok {
                assert(self.flags_documents().contains(written->Ok_0@));
            } else {
                assert(forall|document: Seq<u8>| !self.flags_documents().contains(document));
            }
        }
        Self::flags_configuration_from(written)
    }
}

/// Two configurations of the same layouts hold the same flag keys, and
/// either both meet the coverage rule or neither does. So a configuration
/// that was written out and built again keeps the coverage invariant
/// wherever it is found to have the layouts of the one that wrote it.
pub proof fn same_layouts_keep_coverage(first: Configuration, second: Configuration)
    requires
        same_layouts(first.flags(), second.flags()),
    ensures
        first.flag_keys() == second.flag_keys(),
        first.well_formed() == second.well_formed(),
        forall|key: Seq<char>| #[trigger]
            document_layouts(first.flags()).contains_key(key) && first.flag_keys().contains(key)
                ==> document_layouts(second.flags()).contains_key(key) && document_layouts(
                second.flags(),
            )[key] == document_layouts(first.flags())[key],
{
    let f = first.flags();
    let g = second.flags();
    assert forall|key: Seq<char>| document_flag_keys(f).contains(key) implies flag_layout_of(
        flag_of(f, key),
    ) == flag_layout_of(flag_of(g, key)) by {
        assert(document_flag_keys(f).contains(key));
    }
    if first.well_formed() {
        assert forall|key: Seq<char>|
            document_flag_keys(g).contains(key) && #[trigger] document_layouts(g).contains_key(
                key,
            ) implies layout_covered(document_layouts(g)[key]) by {
            assert(document_flag_keys(f).contains(key));
            assert(document_layouts(f).contains_key(key));
        }
    }
    if second.well_formed() {
        assert forall|key: Seq<char>|
            document_flag_keys(f).contains(key) && #[trigger] document_layouts(f).contains_key(
                key,
            ) implies layout_covered(document_layouts(f)[key]) by {
            assert(document_flag_keys(f).contains(key));
            assert(document_layouts(g).contains_key(key));
        }
    }
}

/// A document that reads back as the flags of a well-formed configuration
/// can be loaded, and what is loaded from it holds the same flag keys and
/// meets the coverage rule with the same layouts.
pub proof fn written_document_loads_again(configuration: Configuration, written: Seq<u8>)
    requires
        configuration.well_formed(),
        reads_back(written, configuration.flags()),
    ensures
        loads(written),
        parsed_document(written) matches Ok(reread) && document_flag_keys(reread)
            == configuration.flag_keys() && document_covered(reread) && document_layouts(reread)
            == document_layouts(configuration.flags()),
{
    let reread = parsed_document(written)->Ok_0;
    let flags = configuration.flags();
    assert forall|key: Seq<char>|
        document_flag_keys(reread).contains(key) && #[trigger] document_layouts(reread).contains_key(
            key,
        ) implies layout_covered(document_layouts(reread)[key]) by {
        assert(flag_layout_of(flag_of(reread, key)) == flag_layout_of(flag_of(flags, key)));
        assert(document_layouts(flags).contains_key(key));
    }
    assert(document_layouts(reread) =~= document_layouts(flags)) by {
        assert forall|key: Seq<char>| #[trigger]
            document_layouts(reread).contains_key(key) == document_layouts(flags).contains_key(key) by {
            assert(flag_layout_of(flag_of(reread, key)) == flag_layout_of(flag_of(flags, key)));
        }
        assert forall|key: Seq<char>| #[trigger]
            document_layouts(reread).contains_key(key) implies document_layouts(reread)[key]
            == document_layouts(flags)[key] by {
            assert(flag_layout_of(flag_of(reread, key)) == flag_layout_of(flag_of(flags, key)));
        }
    }
}

/// The coverage invariant of a well-formed configuration, over the splits
/// of an allocation: any two splits of one allocation of a flag agree in
/// every hash space they share and are told apart by one of them, so that no
/// subject, whatever its shard values are, falls into both.
pub proof fn well_formed_configuration_is_covered(
    configuration: Configuration,
    flag_key: Seq<char>,
    allocation: int,
    first: int,
    second: int,
    hash: spec_fn(Seq<char>) -> int,
)
    requires
        configuration.well_formed(),
        configuration.flag_keys().contains(flag_key),
        document_layouts(configuration.flags()).contains_key(flag_key),
        0 <= allocation < document_layouts(configuration.flags())[flag_key].allocations.len(),
        0 <= first < second < document_layouts(configuration.flags())[flag_key].allocations[allocation].len(),
    ensures
        splits_agree(
            document_layouts(configuration.flags())[flag_key].allocations[allocation][first],
            document_layouts(configuration.flags())[flag_key].allocations[allocation][second],
        ),
        splits_separated(
            document_layouts(configuration.flags())[flag_key].allocations[allocation][first],
            document_layouts(configuration.flags())[flag_key].allocations[allocation][second],
        ),
        !(split_holds(document_layouts(configuration.flags())[flag_key].allocations[allocation][first], hash)
            && split_holds(
            document_layouts(configuration.flags())[flag_key].allocations[allocation][second],
            hash,
        )),
{
    let layout = document_layouts(configuration.flags())[flag_key];
    let splits = layout.allocations[allocation];
    assert(allocation_covered(splits, layout.total_shards));
    separated_splits_share_no_subject(splits[first], splits[second], hash);
}

/// The coverage invariant of a well-formed configuration, in one hash
/// space: where a shard is picked from each split of an allocation, all in
/// one hash space and no two of them one shard repeated unchanged, the
/// picked shards pairwise claim nothing in common and their sizes add up to
/// no more than the flag's shard space holds.
pub proof fn well_formed_split_sizes_are_bounded(
    configuration: Configuration,
    flag_key: Seq<char>,
    allocation: int,
    picks: Seq<int>,
)
    requires
        configuration.well_formed(),
        configuration.flag_keys().contains(flag_key),
        document_layouts(configuration.flags()).contains_key(flag_key),
        0 <= allocation < document_layouts(configuration.flags())[flag_key].allocations.len(),
        picks.len() == document_layouts(configuration.flags())[flag_key].allocations[allocation].len(),
        forall|i: int|
            0 <= i < picks.len() ==> 0 <= #[trigger] picks[i] < document_layouts(
                configuration.flags(),
            )[flag_key].allocations[allocation][i].len(),
        forall|i: int, j: int|
            0 <= i < j < picks.len() ==> (#[trigger] document_layouts(
                configuration.flags(),
            )[flag_key].allocations[allocation][i])[picks[i]].salt == (#[trigger] document_layouts(
                configuration.flags(),
            )[flag_key].allocations[allocation][j])[picks[j]].salt && document_layouts(
                configuration.flags(),
            )[flag_key].allocations[allocation][i][picks[i]].ranges != document_layouts(
                configuration.flags(),
            )[flag_key].allocations[allocation][j][picks[j]].ranges,
    ensures
        family_size(
            picked_claims(document_layouts(configuration.flags())[flag_key].allocations[allocation], picks),
        ) <= document_layouts(configuration.flags())[flag_key].total_shards,
{
    let layout = document_layouts(configuration.flags())[flag_key];
    assert(allocation_covered(layout.allocations[allocation], layout.total_shards));
    split_sizes_bound(layout.allocations[allocation], layout.total_shards, picks);
}

/// Every shard of a well-formed configuration claims ranges that are
/// pairwise disjoint and add up to no more than the flag's shard space.
pub proof fn well_formed_shards_are_covered(
    configuration: Configuration,
    flag_key: Seq<char>,
    allocation: int,
    split: int,
    shard: int,
)
    requires
        configuration.well_formed(),
        configuration.flag_keys().contains(flag_key),
        document_layouts(configuration.flags()).contains_key(flag_key),
        0 <= allocation < document_layouts(configuration.flags())[flag_key].allocations.len(),
        0 <= split < document_layouts(configuration.flags())[flag_key].allocations[allocation].len(),
        0 <= shard < document_layouts(configuration.flags())[flag_key].allocations[allocation][split].len(),
    ensures
        pairwise_disjoint(
            document_layouts(configuration.flags())[flag_key].allocations[allocation][split][shard].ranges,
        ),
        total_size(
            document_layouts(configuration.flags())[flag_key].allocations[allocation][split][shard].ranges,
        ) <= document_layouts(configuration.flags())[flag_key].total_shards,
{
    let layout = document_layouts(configuration.flags())[flag_key];
    assert(allocation_covered(layout.allocations[allocation], layout.total_shards));
    assert(split_covered(layout.allocations[allocation][split], layout.total_shards));
    coverage_bound(layout.allocations[allocation][split][shard].ranges, layout.total_shards);
}

} // verus!
