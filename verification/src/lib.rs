//! A strict, typed configuration reader over flat key/value stores.
//!
//! The crate resolves string values from an [`store::EnvStore`] — a flat
//! key-to-value mapping with optional key-prefix namespacing — and layers
//! typed parsing, boolean normalization, validation and a precise error
//! taxonomy on top of the raw lookup.
//!
//! A store is built either directly from key/value pairs
//! ([`store::EnvStore::from_map`]) or from a snapshot of the process
//! environment taken by unverified start-up code
//! ([`store::EnvStore::from_snapshot`]). Queries run through the chained
//! builder obtained from [`store::EnvStore::key`].

pub mod builder;
pub mod error;
pub mod laws;
pub mod num;
pub mod store;
pub mod text;
pub mod validators;
pub mod value;

pub use builder::{KeyBuilder, TypedKeyBuilder};
pub use error::EnvflagError;
pub use store::{EnvStore, InitBuilder};
pub use validators::Validator;
pub use value::EnvValue;
