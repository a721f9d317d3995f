//! The error taxonomy: every failure of initialization or of a query is
//! one of these variants, each carrying the key (and value) it concerns.

use vstd::prelude::*;

verus! {

/// Errors produced while initializing or querying the configuration store.
#[derive(Debug, Clone, PartialEq, Eq)]
pub enum EnvflagError {
    /// A second initialization attempt; the first store stays in place.
    AlreadyInitialized,
    /// A query ran before any successful initialization.
    NotInitialized,
    /// The overlay file could not be read for a reason other than absence.
    Io { message: String },
    /// The overlay file exists but could not be parsed.
    FileFormat { message: String },
    /// A required variable is absent.
    NotSet { key: String },
    /// Several prefixes are configured and none was chosen for this query.
    AmbiguousPrefix { key: String },
    /// A validator rejected the (possibly normalized) value.
    ValidationFailed { key: String, value: String },
    /// The (possibly normalized) value could not be parsed into the target
    /// type.
    ParseFailed { key: String, value: String },
}

/// `e` reports `name` as absent.
pub open spec fn is_not_set(e: EnvflagError, name: Seq<char>) -> bool {
    e matches EnvflagError::NotSet { key } && key@ == name
}

/// `e` reports `name` as ambiguous among several prefixes.
pub open spec fn is_ambiguous_prefix(e: EnvflagError, name: Seq<char>) -> bool {
    e matches EnvflagError::AmbiguousPrefix { key } && key@ == name
}

/// `e` reports that a validator rejected `val` for `name`.
pub open spec fn is_validation_failed(e: EnvflagError, name: Seq<char>, val: Seq<char>) -> bool {
    e matches EnvflagError::ValidationFailed { key, value } && key@ == name && value@ == val
}

/// `e` reports that `val` did not parse for `name`.
pub open spec fn is_parse_failed(e: EnvflagError, name: Seq<char>, val: Seq<char>) -> bool {
    e matches EnvflagError::ParseFailed { key, value } && key@ == name && value@ == val
}

} // verus!
