//! Configuration snapshots for feature-flag evaluation, and the evaluation of
//! flags against them.
//!
//! A [`Configuration`] is an immutable snapshot of flag definitions and bandit
//! models. It is built once from a flags document, checked against the
//! coverage rule of [`coverage`], and then shared, read-only, between
//! evaluations. [`get_assignment`] and [`get_assignment_details`] evaluate a
//! flag for a subject; [`shard`] is the hash that places a subject in a split.
//!
//! The snapshot is held, and flags are matched, by `eppo_core`. What this
//! crate assumes about that crate and about `serde_json` is collected in
//! [`bindings`]; everything else is proved from those assumptions.

pub mod bindings;
pub mod configuration;
pub mod coverage;
pub mod evaluation;
pub mod sharding;
pub mod trace;

pub use configuration::{Configuration, ConfigurationError};
pub use coverage::{FlagLayout, ShardLayout, ShardRange};
pub use evaluation::{
    get_assignment, get_assignment_details, AssignmentDetails, AssignmentValue, Attributes,
    VariationType,
};
pub use sharding::shard;
pub use trace::{Reason, Stage, TraceEntry, Warning};
