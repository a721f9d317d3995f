//! The closed set of target types a query can parse into.
//!
//! Each supported type implements [`EnvValue`]: a parse function with an
//! exact specification, and a flag that tells the query layers whether the
//! raw string is boolean-normalized before validation and parsing.

use crate::num::{
    parse_i64_str, parse_u64_str, signed_ok, signed_val, unsigned_ok, unsigned_val,
};
use crate::text::str_eq;
use vstd::prelude::*;

verus! {

/// A type that a raw configuration string can be parsed into.
///
/// `parse_ok` says exactly on which strings parsing succeeds, and
/// `parse_of` relates such a string to the value it yields; together they
/// pin the behaviour of `parse_env` the way `str::parse` behaves for the
/// type.
pub trait EnvValue: Sized {
    /// True when raw strings are boolean-normalized before validation and
    /// parsing (only the boolean type sets this).
    spec fn bool_norm() -> bool;

    /// True when `s` parses into this type.
    spec fn parse_ok(s: Seq<char>) -> bool;

    /// Relates a parseable string `s` to the value it parses to.
    spec fn parse_of(s: Seq<char>, v: Self) -> bool;

    /// Decides [`EnvValue::bool_norm`] at run time.
    fn needs_bool_norm() -> (r: bool)
        ensures
            r == Self::bool_norm(),
    ;

    /// Parses `s`, succeeding exactly on the strings `parse_ok` admits.
    fn parse_env(s: &str) -> (r: Option<Self>)
        ensures
            r is Some <==> Self::parse_ok(s@),
            r matches Some(v) ==> Self::parse_of(s@, v),
    ;
}

/// The string a typed parse sees: boolean targets see the normalized
/// form, every other target the raw string.
pub open spec fn norm_for<T: EnvValue>(raw: Seq<char>) -> Seq<char> {
    if T::bool_norm() {
        crate::validators::normalize_bool_spec(raw)
    } else {
        raw
    }
}

impl EnvValue for bool {
    open spec fn bool_norm() -> bool {
        true
    }

    open spec fn parse_ok(s: Seq<char>) -> bool {
        s == "true"@ || s == "false"@
    }

    open spec fn parse_of(s: Seq<char>, v: Self) -> bool {
        v == (s == "true"@)
    }

    fn needs_bool_norm() -> (r: bool) {
        true
    }

    fn parse_env(s: &str) -> (r: Option<Self>) {
        if str_eq(s, "true") {
            Some(true)
        } else if str_eq(s, "false") {
            Some(false)
        } else {
            None
        }
    }
}

impl EnvValue for String {
    open spec fn bool_norm() -> bool {
        false
    }

    open spec fn parse_ok(s: Seq<char>) -> bool {
        true
    }

    open spec fn parse_of(s: Seq<char>, v: Self) -> bool {
        v@ == s
    }

    fn needs_bool_norm() -> (r: bool) {
        false
    }

    fn parse_env(s: &str) -> (r: Option<Self>) {
        Some(String::from_str(s))
    }
}

impl EnvValue for u64 {
    open spec fn bool_norm() -> bool {
        false
    }

    open spec fn parse_ok(s: Seq<char>) -> bool {
        unsigned_ok(s) && unsigned_val(s) <= u64::MAX
    }

    open spec fn parse_of(s: Seq<char>, v: Self) -> bool {
        v as nat == unsigned_val(s)
    }

    fn needs_bool_norm() -> (r: bool) {
        false
    }

    fn parse_env(s: &str) -> (r: Option<Self>) {
        parse_u64_str(s)
    }
}

impl EnvValue for u32 {
    open spec fn bool_norm() -> bool {
        false
    }

    open spec fn parse_ok(s: Seq<char>) -> bool {
        unsigned_ok(s) && unsigned_val(s) <= u32::MAX
    }

    open spec fn parse_of(s: Seq<char>, v: Self) -> bool {
        v as nat == unsigned_val(s)
    }

    fn needs_bool_norm() -> (r: bool) {
        false
    }

    fn parse_env(s: &str) -> (r: Option<Self>) {
        match parse_u64_str(s) {
            Some(v) if v <= u32::MAX as u64 => Some(v as u32),
            _ => None,
        }
    }
}

impl EnvValue for u16 {
    open spec fn bool_norm() -> bool {
        false
    }

    open spec fn parse_ok(s: Seq<char>) -> bool {
        unsigned_ok(s) && unsigned_val(s) <= u16::MAX
    }

    open spec fn parse_of(s: Seq<char>, v: Self) -> bool {
        v as nat == unsigned_val(s)
    }

    fn needs_bool_norm() -> (r: bool) {
        false
    }

    fn parse_env(s: &str) -> (r: Option<Self>) {
        match parse_u64_str(s) {
            Some(v) if v <= u16::MAX as u64 => Some(v as u16),
            _ => None,
        }
    }
}

impl EnvValue for u8 {
    open spec fn bool_norm() -> bool {
        false
    }

    open spec fn parse_ok(s: Seq<char>) -> bool {
        unsigned_ok(s) && unsigned_val(s) <= u8::MAX
    }

    open spec fn parse_of(s: Seq<char>, v: Self) -> bool {
        v as nat == unsigned_val(s)
    }

    fn needs_bool_norm() -> (r: bool) {
        false
    }

    fn parse_env(s: &str) -> (r: Option<Self>) {
        match parse_u64_str(s) {
            Some(v) if v <= u8::MAX as u64 => Some(v as u8),
            _ => None,
        }
    }
}

impl EnvValue for i64 {
    open spec fn bool_norm() -> bool {
        false
    }

    open spec fn parse_ok(s: Seq<char>) -> bool {
        signed_ok(s) && i64::MIN <= signed_val(s) && signed_val(s) <= i64::MAX
    }

    open spec fn parse_of(s: Seq<char>, v: Self) -> bool {
        v as int == signed_val(s)
    }

    fn needs_bool_norm() -> (r: bool) {
        false
    }

    fn parse_env(s: &str) -> (r: Option<Self>) {
        parse_i64_str(s)
    }
}

impl EnvValue for i32 {
    open spec fn bool_norm() -> bool {
        false
    }

    open spec fn parse_ok(s: Seq<char>) -> bool {
        signed_ok(s) && i32::MIN <= signed_val(s) && signed_val(s) <= i32::MAX
    }

    open spec fn parse_of(s: Seq<char>, v: Self) -> bool {
        v as int == signed_val(s)
    }

    fn needs_bool_norm() -> (r: bool) {
        false
    }

    fn parse_env(s: &str) -> (r: Option<Self>) {
        match parse_i64_str(s) {
            Some(v) if i32::MIN as i64 <= v && v <= i32::MAX as i64 => Some(v as i32),
            _ => None,
        }
    }
}

impl EnvValue for i16 {
    open spec fn bool_norm() -> bool {
        false
    }

    open spec fn parse_ok(s: Seq<char>) -> bool {
        signed_ok(s) && i16::MIN <= signed_val(s) && signed_val(s) <= i16::MAX
    }

    open spec fn parse_of(s: Seq<char>, v: Self) -> bool {
        v as int == signed_val(s)
    }

    fn needs_bool_norm() -> (r: bool) {
        false
    }

    fn parse_env(s: &str) -> (r: Option<Self>) {
        match parse_i64_str(s) {
            Some(v) if i16::MIN as i64 <= v && v <= i16::MAX as i64 => Some(v as i16),
            _ => None,
        }
    }
}

impl EnvValue for i8 {
    open spec fn bool_norm() -> bool {
        false
    }

    open spec fn parse_ok(s: Seq<char>) -> bool {
        signed_ok(s) && i8::MIN <= signed_val(s) && signed_val(s) <= i8::MAX
    }

    open spec fn parse_of(s: Seq<char>, v: Self) -> bool {
        v as int == signed_val(s)
    }

    fn needs_bool_norm() -> (r: bool) {
        false
    }

    fn parse_env(s: &str) -> (r: Option<Self>) {
        match parse_i64_str(s) {
            Some(v) if i8::MIN as i64 <= v && v <= i8::MAX as i64 => Some(v as i8),
            _ => None,
        }
    }
}

} // verus!
