//! The chained query builder: an untyped stage holding the name and the
//! preferred prefix, and a typed stage that adds a default value and an
//! ordered validator chain.
//!
//! [`get_post`] and [`required_post`] state the full resolution
//! algorithm: ambiguity first, then lookup, boolean normalization for
//! boolean targets, validators in order, and the typed parse.

use crate::error::{
    is_ambiguous_prefix, is_not_set, is_parse_failed, is_validation_failed, EnvflagError,
};
use crate::store::{opt_str_view, EnvStore};
use crate::validators::{normalize_bool, Validator};
use crate::value::{norm_for, EnvValue};
use vstd::prelude::*;

verus! {

/// Every validator of the chain accepts `s`.
pub open spec fn all_accept(vs: Seq<Validator>, s: Seq<char>) -> bool {
    forall|i: int| 0 <= i < vs.len() ==> (#[trigger] vs[i]).accepts(s)
}

/// What a defaulted query returns. With several prefixes configured and
/// none chosen, the query is ambiguous. An absent key yields the default
/// untouched: no validator or parse runs on it. A present value — the
/// normalized form for boolean targets — must pass every validator and
/// then parse into the target type.
pub open spec fn get_post<T: EnvValue>(
    store: EnvStore,
    name: Seq<char>,
    prefix: Option<Seq<char>>,
    default: T,
    validators: Seq<Validator>,
    r: Result<T, EnvflagError>,
) -> bool {
    if store.prefixes_seq().len() > 1 && prefix is None {
        r matches Err(e) && is_ambiguous_prefix(e, name)
    } else {
        match store.lookup_spec(name, prefix) {
            None => r == Ok::<T, EnvflagError>(default),
            Some(raw) => {
                let v = norm_for::<T>(raw);
                if !all_accept(validators, v) {
                    r matches Err(e) && is_validation_failed(e, name, v)
                } else if T::parse_ok(v) {
                    r matches Ok(w) && T::parse_of(v, w)
                } else {
                    r matches Err(e) && is_parse_failed(e, name, v)
                }
            },
        }
    }
}

/// What a required query returns: as [`get_post`], except that an absent
/// key is a `NotSet` error and no validators are involved.
pub open spec fn required_post<T: EnvValue>(
    store: EnvStore,
    name: Seq<char>,
    prefix: Option<Seq<char>>,
    r: Result<T, EnvflagError>,
) -> bool {
    if store.prefixes_seq().len() > 1 && prefix is None {
        r matches Err(e) && is_ambiguous_prefix(e, name)
    } else {
        match store.lookup_spec(name, prefix) {
            None => r matches Err(e) && is_not_set(e, name),
            Some(raw) => {
                let v = norm_for::<T>(raw);
                if T::parse_ok(v) {
                    r matches Ok(w) && T::parse_of(v, w)
                } else {
                    r matches Err(e) && is_parse_failed(e, name, v)
                }
            },
        }
    }
}

/// The untyped query stage: a name, an optional preferred prefix, and the
/// store the query reads.
#[derive(Debug)]
pub struct KeyBuilder<'a> {
    /// The store the query resolves against.
    pub store: &'a EnvStore,
    /// The queried name, without any prefix.
    pub name: &'a str,
    /// The preferred prefix, when one was chosen.
    pub prefix: Option<&'a str>,
}

impl EnvStore {
    /// Starts a chained query against this store.
    pub fn key<'a>(&'a self, name: &'a str) -> (r: KeyBuilder<'a>)
        ensures
            r.store == self,
            r.name@ == name@,
            r.prefix is None,
    {
        KeyBuilder { store: self, name, prefix: None }
    }
}

impl<'a> KeyBuilder<'a> {
    /// Chooses the prefix for this lookup: required when several prefixes
    /// are configured, optional with a single one.
    pub fn with_prefix(self, prefix: &'a str) -> (r: KeyBuilder<'a>)
        ensures
            r.store == self.store,
            r.name@ == self.name@,
            opt_str_view(r.prefix) == Some(prefix@),
    {
        KeyBuilder { store: self.store, name: self.name, prefix: Some(prefix) }
    }

    /// Sets a default value and moves to the typed stage, with an empty
    /// validator chain.
    pub fn default<T: EnvValue>(self, val: T) -> (r: TypedKeyBuilder<'a, T>)
        ensures
            r.store == self.store,
            r.name@ == self.name@,
            r.prefix == self.prefix,
            r.default_val == val,
            r.validators@ == Seq::<Validator>::empty(),
    {
        let r = TypedKeyBuilder {
            store: self.store,
            name: self.name,
            prefix: self.prefix,
            default_val: val,
            validators: Vec::new(),
        };
        proof {
            assert(r.validators@ =~= Seq::<Validator>::empty());
        }
        r
    }

    /// Resolves the variable as required: an absent key is an error, and
    /// the raw value (normalized for boolean targets) must parse.
    pub fn required<T: EnvValue>(self) -> (r: Result<T, EnvflagError>)
        ensures
            required_post::<T>(*self.store, self.name@, opt_str_view(self.prefix), r),
    {
        if self.store.prefixes().len() > 1 && self.prefix.is_none() {
            return Err(EnvflagError::AmbiguousPrefix { key: String::from_str(self.name) });
        }
        match self.store.lookup(self.name, self.prefix) {
            None => Err(EnvflagError::NotSet { key: String::from_str(self.name) }),
            Some(raw) => {
                let val_str = if T::needs_bool_norm() {
                    normalize_bool(raw.as_str())
                } else {
                    raw
                };
                match T::parse_env(val_str.as_str()) {
                    Some(v) => Ok(v),
                    None => Err(
                        EnvflagError::ParseFailed {
                            key: String::from_str(self.name),
                            value: val_str,
                        },
                    ),
                }
            },
        }
    }
}

/// The typed query stage: the untyped stage plus a default value of the
/// target type and an ordered validator chain.
pub struct TypedKeyBuilder<'a, T> {
    /// The store the query resolves against.
    pub store: &'a EnvStore,
    /// The queried name, without any prefix.
    pub name: &'a str,
    /// The preferred prefix, when one was chosen.
    pub prefix: Option<&'a str>,
    /// The value an absent key falls back to.
    pub default_val: T,
    /// The validators, in the order they run.
    pub validators: Vec<Validator>,
}

impl<'a, T: EnvValue> TypedKeyBuilder<'a, T> {
    /// Chains a validator; validators run in the order they were added,
    /// and the first to reject ends the query.
    pub fn validate(self, v: Validator) -> (r: TypedKeyBuilder<'a, T>)
        ensures
            r.store == self.store,
            r.name@ == self.name@,
            r.prefix == self.prefix,
            r.default_val == self.default_val,
            r.validators@ == self.validators@.push(v),
    {
        let mut validators = self.validators;
        validators.push(v);
        TypedKeyBuilder {
            store: self.store,
            name: self.name,
            prefix: self.prefix,
            default_val: self.default_val,
            validators,
        }
    }

    /// Runs the query, as [`get_post`] states: ambiguity check, lookup,
    /// boolean normalization for boolean targets, the validator chain in
    /// order, then the typed parse. An absent key yields the default.
    pub fn get(self) -> (r: Result<T, EnvflagError>)
        ensures
            get_post::<T>(
                *self.store,
                self.name@,
                opt_str_view(self.prefix),
                self.default_val,
                self.validators@,
                r,
            ),
    {
        if self.store.prefixes().len() > 1 && self.prefix.is_none() {
            return Err(EnvflagError::AmbiguousPrefix { key: String::from_str(self.name) });
        }
        match self.store.lookup(self.name, self.prefix) {
            None => Ok(self.default_val),
            Some(raw) => {
                let val_str = if T::needs_bool_norm() {
                    normalize_bool(raw.as_str())
                } else {
                    raw
                };
                let ghost v = val_str@;
                let ghost l = self.store.lookup_spec(self.name@, opt_str_view(self.prefix));
                let mut i: usize = 0;
                while i < self.validators.len()
                    invariant
                        i <= self.validators@.len(),
                        v == val_str@,
                        l == self.store.lookup_spec(self.name@, opt_str_view(self.prefix)),
                        l matches Some(rw) && norm_for::<T>(rw) == v,
                        !(self.store.prefixes_seq().len() > 1 && opt_str_view(self.prefix)
                            is None),
                        forall|j: int| 0 <= j < i ==> (#[trigger] self.validators@[j]).accepts(v),
                    decreases self.validators@.len() - i,
                {
                    if !self.validators[i].run(val_str.as_str()) {
                        proof {
                            assert(!all_accept(self.validators@, v));
                        }
                        return Err(
                            EnvflagError::ValidationFailed {
                                key: String::from_str(self.name),
                                value: val_str,
                            },
                        );
                    }
                    i = i + 1;
                }
                proof {
                    assert(all_accept(self.validators@, v));
                }
                match T::parse_env(val_str.as_str()) {
                    Some(w) => Ok(w),
                    None => Err(
                        EnvflagError::ParseFailed {
                            key: String::from_str(self.name),
                            value: val_str,
                        },
                    ),
                }
            },
        }
    }
}

} // verus!
