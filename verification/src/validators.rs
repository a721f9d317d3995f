//! Built-in validation predicates over raw string values, boolean
//! normalization, and the [`Validator`] values a query chains.
//!
//! Every predicate is pure and exactly specified; the regular-expression
//! validator alone calls into the `fancy_regex` crate through trusted
//! wrappers.

use crate::num::{signed_ok, signed_val, unsigned_ok, unsigned_val};
use crate::text::{seq_ieq, str_ieq, trim_spec, trim_str};
use vstd::prelude::*;

verus! {

/// True when `s` is not empty once trimmed.
pub open spec fn non_empty_spec(s: Seq<char>) -> bool {
    trim_spec(s).len() > 0
}

/// True when `s`, trimmed, parses as a signed 64-bit integer.
pub open spec fn integer_spec(s: Seq<char>) -> bool {
    let t = trim_spec(s);
    signed_ok(t) && i64::MIN <= signed_val(t) && signed_val(t) <= i64::MAX
}

/// True when `s`, trimmed, parses as an unsigned 64-bit integer above zero.
pub open spec fn positive_integer_spec(s: Seq<char>) -> bool {
    let t = trim_spec(s);
    unsigned_ok(t) && unsigned_val(t) <= u64::MAX && unsigned_val(t) > 0
}

/// True when `s`, trimmed, is one of the six boolean spellings, in any
/// letter case: `true`, `1`, `yes`, `false`, `0`, `no`.
pub open spec fn bool_spelling_spec(s: Seq<char>) -> bool {
    let t = trim_spec(s);
    ||| seq_ieq(t, "true"@)
    ||| seq_ieq(t, "1"@)
    ||| seq_ieq(t, "yes"@)
    ||| seq_ieq(t, "false"@)
    ||| seq_ieq(t, "0"@)
    ||| seq_ieq(t, "no"@)
}

/// True when `s`, trimmed, parses as an unsigned 16-bit integer above zero:
/// a usable port number.
pub open spec fn port_spec(s: Seq<char>) -> bool {
    let t = trim_spec(s);
    unsigned_ok(t) && unsigned_val(t) <= u16::MAX && unsigned_val(t) > 0
}

/// True when `s`, trimmed, parses as a signed 64-bit integer within
/// `min ..= max`.
pub open spec fn in_range_spec(s: Seq<char>, min: int, max: int) -> bool {
    let t = trim_spec(s);
    signed_ok(t) && i64::MIN <= signed_val(t) && signed_val(t) <= i64::MAX && min <= signed_val(
        t,
    ) && signed_val(t) <= max
}

/// The scheme separator `://` starts at position `i` of `s`.
pub open spec fn url_sep_at(s: Seq<char>, i: int) -> bool {
    0 <= i && i + 3 <= s.len() && s[i] == ':' && s[i + 1] == '/' && s[i + 2] == '/'
}

/// True when `s` contains `://` somewhere: the URL heuristic.
pub open spec fn url_spec(s: Seq<char>) -> bool {
    exists|i: int| url_sep_at(s, i)
}

/// Checks that a string is not empty and not just white space.
pub fn is_non_empty(s: &str) -> (r: bool)
    ensures
        r == non_empty_spec(s@),
{
    let t = trim_str(s);
    t.unicode_len() > 0
}

/// Checks that a string can be parsed as a signed 64-bit integer.
pub fn is_integer(s: &str) -> (r: bool)
    ensures
        r == integer_spec(s@),
{
    crate::num::parse_i64_str(trim_str(s)).is_some()
}

/// Checks that a string can be parsed as a positive integer (`> 0`).
///
/// The check runs against the unsigned 64-bit range; parsing into a
/// narrower type may still fail by overflow.
pub fn is_positive_integer(s: &str) -> (r: bool)
    ensures
        r == positive_integer_spec(s@),
{
    match crate::num::parse_u64_str(trim_str(s)) {
        Some(v) => v > 0,
        None => false,
    }
}

/// Checks that a string is one of the six boolean spellings
/// (case-insensitive): `true`, `1`, `yes`, `false`, `0`, `no`.
pub fn is_bool(s: &str) -> (r: bool)
    ensures
        r == bool_spelling_spec(s@),
{
    let t = trim_str(s);
    str_ieq(t, "true") || str_ieq(t, "1") || str_ieq(t, "yes") || str_ieq(t, "false") || str_ieq(
        t,
        "0",
    ) || str_ieq(t, "no")
}

/// Checks that a string is a usable port number (1–65535).
pub fn is_port(s: &str) -> (r: bool)
    ensures
        r == port_spec(s@),
{
    match crate::num::parse_u64_str(trim_str(s)) {
        Some(v) => v > 0 && v <= 65535,
        None => false,
    }
}

/// Checks that a string looks like a URL: it contains `://`.
pub fn is_url(s: &str) -> (r: bool)
    ensures
        r == url_spec(s@),
{
    let len = s.unicode_len();
    if len < 3 {
        proof {
            assert(forall|i: int| !url_sep_at(s@, i));
        }
        return false;
    }
    let mut i: usize = 0;
    while i <= len - 3
        invariant
            3 <= len,
            i <= len - 2,
            len == s@.len(),
            forall|j: int| 0 <= j < i ==> !url_sep_at(s@, j),
        decreases len - i,
    {
        if s.get_char(i) == ':' && s.get_char(i + 1) == '/' && s.get_char(i + 2) == '/' {
            proof {
                assert(url_sep_at(s@, i as int));
            }
            return true;
        }
        i = i + 1;
    }
    proof {
        assert forall|j: int| !url_sep_at(s@, j) by {
            if 0 <= j && j < i as int {
                assert(!url_sep_at(s@, j));
            }
        }
    }
    false
}

/// The canonical boolean form of `s`: trimmed and matched without regard
/// to letter case, `true`/`1`/`yes` become `true`, `false`/`0`/`no` become
/// `false`, and anything else is passed through unchanged (so that parsing
/// still fails downstream instead of silently coercing).
pub open spec fn normalize_bool_spec(s: Seq<char>) -> Seq<char> {
    let t = trim_spec(s);
    if seq_ieq(t, "true"@) || seq_ieq(t, "1"@) || seq_ieq(t, "yes"@) {
        "true"@
    } else if seq_ieq(t, "false"@) || seq_ieq(t, "0"@) || seq_ieq(t, "no"@) {
        "false"@
    } else {
        s
    }
}

/// Normalizes boolean spellings to `"true"` / `"false"`, as
/// [`normalize_bool_spec`] describes.
pub fn normalize_bool(s: &str) -> (r: String)
    ensures
        r@ == normalize_bool_spec(s@),
{
    let t = trim_str(s);
    if str_ieq(t, "true") || str_ieq(t, "1") || str_ieq(t, "yes") {
        String::from_str("true")
    } else if str_ieq(t, "false") || str_ieq(t, "0") || str_ieq(t, "no") {
        String::from_str("false")
    } else {
        String::from_str(s)
    }
}

/// The permissive boolean reading used by the `get_bool` convenience
/// accessor: case-insensitive `true`, `1` or `yes` mean true; anything
/// else, the empty string included, means false. Total, with no failure
/// case — deliberately more permissive than the typed query path.
pub open spec fn coerce_bool_spec(s: Seq<char>) -> bool {
    seq_ieq(s, "true"@) || seq_ieq(s, "1"@) || seq_ieq(s, "yes"@)
}

/// Reads a string as a boolean, as [`coerce_bool_spec`] describes.
pub fn coerce_bool(s: &str) -> (r: bool)
    ensures
        r == coerce_bool_spec(s@),
{
    str_ieq(s, "true") || str_ieq(s, "1") || str_ieq(s, "yes")
}

/// Whether `fancy_regex` accepts a pattern; compilation success is a
/// function of the pattern string alone.
pub uninterp spec fn regex_valid(pattern: Seq<char>) -> bool;

/// Whether the regular expression `pattern` matches anywhere in `s`; the
/// result is a function of the two strings alone. A pattern that does not
/// compile, or a match attempt that fails inside the engine, counts as no
/// match.
pub uninterp spec fn regex_match_of(pattern: Seq<char>, s: Seq<char>) -> bool;

/// Relies on `fancy_regex::Regex::new`: whether a pattern compiles
/// depends on the pattern string alone.
#[verifier::external_body]
fn regex_pattern_ok(pattern: &str) -> (r: bool)
    ensures
        r == regex_valid(pattern@),
{
    fancy_regex::Regex::new(pattern).is_ok()
}

/// Relies on `fancy_regex::Regex::new` and `fancy_regex::Regex::is_match`:
/// the match result depends on the pattern and the haystack alone; an
/// invalid pattern or an error inside the engine counts as no match.
#[verifier::external_body]
fn regex_is_match(pattern: &str, s: &str) -> (r: bool)
    ensures
        r == regex_match_of(pattern@, s@),
{
    match fancy_regex::Regex::new(pattern) {
        Ok(re) => re.is_match(s).unwrap_or(false),
        Err(_) => false,
    }
}

/// A validation step a query can chain: either one of the built-in
/// predicates, an integer range check, or a regular-expression match.
#[derive(Debug, Clone)]
pub enum Validator {
    /// Accepts strings that are not empty once trimmed.
    NonEmpty,
    /// Accepts signed 64-bit integers.
    Integer,
    /// Accepts unsigned 64-bit integers above zero.
    PositiveInteger,
    /// Accepts the six boolean spellings, in any letter case.
    BoolSpelling,
    /// Accepts usable port numbers (1–65535).
    Port,
    /// Accepts strings containing `://`.
    Url,
    /// Accepts signed 64-bit integers within `min ..= max`.
    IntegerInRange { min: i64, max: i64 },
    /// Accepts strings the regular expression `pattern` matches.
    Regex { pattern: String },
}

impl Validator {
    /// Which strings this validator accepts.
    pub open spec fn accepts(self, s: Seq<char>) -> bool {
        match self {
            Validator::NonEmpty => non_empty_spec(s),
            Validator::Integer => integer_spec(s),
            Validator::PositiveInteger => positive_integer_spec(s),
            Validator::BoolSpelling => bool_spelling_spec(s),
            Validator::Port => port_spec(s),
            Validator::Url => url_spec(s),
            Validator::IntegerInRange { min, max } => in_range_spec(s, min as int, max as int),
            Validator::Regex { pattern } => regex_match_of(pattern@, s),
        }
    }

    /// Runs the validator against `s`.
    pub fn run(&self, s: &str) -> (r: bool)
        ensures
            r == self.accepts(s@),
    {
        match self {
            Validator::NonEmpty => is_non_empty(s),
            Validator::Integer => is_integer(s),
            Validator::PositiveInteger => is_positive_integer(s),
            Validator::BoolSpelling => is_bool(s),
            Validator::Port => is_port(s),
            Validator::Url => is_url(s),
            Validator::IntegerInRange { min, max } => {
                match crate::num::parse_i64_str(trim_str(s)) {
                    Some(v) => *min <= v && v <= *max,
                    None => false,
                }
            },
            Validator::Regex { pattern } => regex_is_match(pattern.as_str(), s),
        }
    }
}

/// Returns a validator that accepts signed 64-bit integers within the
/// inclusive range `min ..= max`.
///
/// This allows range validation matched to the actual target type, where
/// [`is_positive_integer`] (which checks against `u64`) may accept values
/// that overflow narrower types.
pub fn is_integer_in_range(min: i64, max: i64) -> (v: Validator)
    ensures
        v == (Validator::IntegerInRange { min, max }),
{
    Validator::IntegerInRange { min, max }
}

/// Returns a validator that accepts strings matching the regular
/// expression `pattern`.
///
/// An invalid pattern is a programming error, so it is excluded up front:
/// use [`try_matches_regex`] to test a pattern of unknown validity.
pub fn matches_regex(pattern: &str) -> (v: Validator)
    requires
        regex_valid(pattern@),
    ensures
        v matches Validator::Regex { pattern: p } && p@ == pattern@,
{
    Validator::Regex { pattern: String::from_str(pattern) }
}

/// Returns a validator for `pattern`, or `None` when the pattern is not a
/// valid regular expression.
pub fn try_matches_regex(pattern: &str) -> (r: Option<Validator>)
    ensures
        r is Some <==> regex_valid(pattern@),
        r matches Some(v) ==> v matches Validator::Regex { pattern: p } && p@ == pattern@,
{
    if regex_pattern_ok(pattern) {
        Some(matches_regex(pattern))
    } else {
        None
    }
}

} // verus!
