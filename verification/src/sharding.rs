//! Deterministic mapping of a subject to a shard.

use vstd::prelude::*;
use vstd::string::*;

use crate::bindings::{md5_shard, md5_shard_of};

verus! {

/// The text that is hashed for a subject under a salt: the salt, a hyphen,
/// and the subject key.
pub open spec fn shard_input(subject_key: Seq<char>, salt: Seq<char>) -> Seq<char> {
    salt + seq!['-'] + subject_key
}

/// The shard of a subject under a salt, among `total_shards` shards.
pub open spec fn shard_value(subject_key: Seq<char>, salt: Seq<char>, total_shards: u64) -> u64 {
    md5_shard(shard_input(subject_key, salt), total_shards)
}

/// Computes the shard of a subject under a salt.
///
/// The shard is a function of the subject key, the salt and the number of
/// shards, and of nothing else: no configuration, no state and no randomness
/// enters it. It always lies in `[0, total_shards)`.
pub fn shard(subject_key: &str, salt: &str, total_shards: u64) -> (result: u64)
    requires
        total_shards > 0,
    ensures
        result == shard_value(subject_key@, salt@, total_shards),
        result < total_shards,
{
    let mut input = String::from_str(salt);
    input.append("-");
    input.append(subject_key);
    proof {
        reveal_strlit("-");
        assert("-"@ =~= seq!['-']);
        assert(input@ =~= shard_input(subject_key@, salt@));
    }
    md5_shard_of(input.as_str(), total_shards)
}

} // verus!
