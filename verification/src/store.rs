//! The configuration store: a flat key/value mapping with an ordered set
//! of configured key prefixes, and the prefix-aware lookup over it.
//!
//! A store is immutable once built. Its mapping is modelled by
//! [`map_lookup`] over the stored pair sequence; duplicate keys cannot
//! survive construction (last writer wins), so the sequence is a map.

use crate::text::{concat_strs, str_eq, str_starts_with};
use crate::value::EnvValue;
use vstd::prelude::*;

verus! {

/// The views of a sequence of string pairs.
pub open spec fn pairs_view(s: Seq<(String, String)>) -> Seq<(Seq<char>, Seq<char>)> {
    s.map_values(|p: (String, String)| (p.0@, p.1@))
}

/// The value stored under `k`, scanning from the end so that the last
/// writer wins; `None` when no pair carries the key.
pub open spec fn map_lookup(es: Seq<(Seq<char>, Seq<char>)>, k: Seq<char>) -> Option<Seq<char>>
    decreases es.len(),
{
    if es.len() == 0 {
        None
    } else if es.last().0 == k {
        Some(es.last().1)
    } else {
        map_lookup(es.drop_last(), k)
    }
}

/// No two pairs carry the same key.
pub open spec fn unique_keys(es: Seq<(Seq<char>, Seq<char>)>) -> bool {
    forall|i: int, j: int| 0 <= i < j < es.len() ==> es[i].0 != es[j].0
}

/// The view of an optional string argument.
pub open spec fn opt_str_view(p: Option<&str>) -> Option<Seq<char>> {
    match p {
        Some(s) => Some(s@),
        None => None,
    }
}

/// A key is kept under a prefix filter when no prefixes are configured or
/// some configured prefix starts the key.
pub open spec fn keeps_key(prefixes: Seq<Seq<char>>, k: Seq<char>) -> bool {
    prefixes.len() == 0 || exists|i: int|
        0 <= i < prefixes.len() && (#[trigger] prefixes[i]).is_prefix_of(k)
}

proof fn lemma_map_lookup_push(es: Seq<(Seq<char>, Seq<char>)>, p: (Seq<char>, Seq<char>), k: Seq<char>)
    ensures
        map_lookup(es.push(p), k) == (if p.0 == k {
            Some(p.1)
        } else {
            map_lookup(es, k)
        }),
{
    assert(es.push(p).drop_last() =~= es);
    assert(es.push(p).last() == p);
}

proof fn lemma_map_lookup_some(es: Seq<(Seq<char>, Seq<char>)>, k: Seq<char>)
    ensures
        map_lookup(es, k) is Some <==> exists|j: int| 0 <= j < es.len() && (#[trigger] es[j]).0 == k,
    decreases es.len(),
{
    if es.len() > 0 {
        lemma_map_lookup_some(es.drop_last(), k);
        if es.last().0 == k {
        } else if map_lookup(es.drop_last(), k) is Some {
            let j = choose|j: int| 0 <= j < es.drop_last().len() && (#[trigger] es.drop_last()[j]).0 == k;
            assert(es[j].0 == k);
        } else {
            assert forall|j: int| 0 <= j < es.len() implies (#[trigger] es[j]).0 != k by {
                if j < es.len() - 1 {
                    assert(es.drop_last()[j] == es[j]);
                }
            }
        }
    }
}

proof fn lemma_map_lookup_prepend(
    es: Seq<(Seq<char>, Seq<char>)>,
    p: (Seq<char>, Seq<char>),
    k: Seq<char>,
)
    ensures
        map_lookup(seq![p] + es, k) == (if map_lookup(es, k) is Some {
            map_lookup(es, k)
        } else if p.0 == k {
            Some(p.1)
        } else {
            None
        }),
    decreases es.len(),
{
    let s = seq![p] + es;
    assert(s.len() == es.len() + 1);
    if es.len() == 0 {
        assert(s.last() == p);
        assert(s.drop_last() =~= Seq::<(Seq<char>, Seq<char>)>::empty());
        assert(map_lookup(s.drop_last(), k) is None);
        if p.0 == k {
            assert(map_lookup(s, k) == Some(p.1));
        } else {
            assert(map_lookup(s, k) is None);
        }
    } else {
        assert(s.last() == es.last());
        assert(s.drop_last() =~= seq![p] + es.drop_last());
        lemma_map_lookup_prepend(es.drop_last(), p, k);
        if es.last().0 == k {
            assert(map_lookup(s, k) == Some(es.last().1));
            assert(map_lookup(es, k) == Some(es.last().1));
        } else {
            assert(map_lookup(s, k) == map_lookup(seq![p] + es.drop_last(), k));
            assert(map_lookup(es, k) == map_lookup(es.drop_last(), k));
        }
    }
}

/// The configuration store: resolved key/value entries plus the ordered
/// sequence of configured key prefixes.
#[derive(Debug)]
pub struct EnvStore {
    entries: Vec<(String, String)>,
    prefixes: Vec<String>,
}

impl EnvStore {
    /// The stored pairs, as character sequences.
    pub closed spec fn entries_seq(self) -> Seq<(Seq<char>, Seq<char>)> {
        pairs_view(self.entries@)
    }

    /// The configured prefixes, as character sequences.
    pub closed spec fn prefixes_seq(self) -> Seq<Seq<char>> {
        self.prefixes@.map_values(|p: String| p@)
    }

    /// Well-formedness: no two entries carry the same key.
    pub open spec fn wf(self) -> bool {
        unique_keys(self.entries_seq())
    }

    /// What a lookup returns: with no prefixes the key itself is
    /// consulted; with an explicit preferred prefix, the prefixed key;
    /// with exactly one configured prefix, that prefix is prepended
    /// silently; with several configured prefixes and no explicit choice,
    /// nothing resolves.
    pub open spec fn lookup_spec(self, key: Seq<char>, pref: Option<Seq<char>>) -> Option<
        Seq<char>,
    > {
        if self.prefixes_seq().len() == 0 {
            map_lookup(self.entries_seq(), key)
        } else if pref is Some {
            map_lookup(self.entries_seq(), pref->0 + key)
        } else if self.prefixes_seq().len() == 1 {
            map_lookup(self.entries_seq(), self.prefixes_seq()[0] + key)
        } else {
            None
        }
    }

    /// Scans the entries for `k`, last writer first.
    fn find_value(&self, k: &str) -> (r: Option<String>)
        ensures
            r is Some <==> map_lookup(self.entries_seq(), k@) is Some,
            r matches Some(v) ==> map_lookup(self.entries_seq(), k@) == Some(v@),
    {
        let ghost es = self.entries_seq();
        let mut i: usize = self.entries.len();
        assert(es.subrange(0, i as int) =~= es);
        while i > 0
            invariant
                i <= self.entries@.len(),
                es == self.entries_seq(),
                map_lookup(es, k@) == map_lookup(es.subrange(0, i as int), k@),
            decreases i,
        {
            i = i - 1;
            let pair = &self.entries[i];
            proof {
                assert(es[i as int] == (self.entries@[i as int].0@, self.entries@[i as int].1@));
                assert(es.subrange(0, i + 1).last() == es[i as int]);
                assert(es.subrange(0, i + 1).drop_last() =~= es.subrange(0, i as int));
            }
            if str_eq(pair.0.as_str(), k) {
                return Some(pair.1.clone());
            }
        }
        proof {
            assert(es.subrange(0, 0) =~= Seq::<(Seq<char>, Seq<char>)>::empty());
        }
        None
    }

    /// Looks a key up, honouring the configured prefixes.
    ///
    /// With no prefixes configured the key is consulted directly. With a
    /// `preferred_prefix` the prefixed key is consulted. With exactly one
    /// configured prefix that prefix is prepended silently. With several
    /// configured prefixes and no explicit choice the lookup does not
    /// resolve.
    pub fn lookup(&self, key: &str, preferred_prefix: Option<&str>) -> (r: Option<String>)
        ensures
            r is Some <==> self.lookup_spec(key@, opt_str_view(preferred_prefix)) is Some,
            r matches Some(v) ==> self.lookup_spec(key@, opt_str_view(preferred_prefix)) == Some(
                v@,
            ),
    {
        if self.prefixes.len() == 0 {
            return self.find_value(key);
        }
        match preferred_prefix {
            Some(p) => {
                let full = concat_strs(p, key);
                self.find_value(full.as_str())
            },
            None => {
                if self.prefixes.len() == 1 {
                    let p = &self.prefixes[0];
                    proof {
                        assert(self.prefixes_seq()[0] == self.prefixes@[0]@);
                    }
                    let full = concat_strs(p.as_str(), key);
                    self.find_value(full.as_str())
                } else {
                    None
                }
            },
        }
    }

    /// Returns the configured prefixes.
    pub fn prefixes(&self) -> (r: &Vec<String>)
        ensures
            r@.map_values(|p: String| p@) == self.prefixes_seq(),
            r@.len() == self.prefixes_seq().len(),
    {
        &self.prefixes
    }

    /// Returns all stored entries.
    ///
    /// The dump includes every stored value, sensitive ones too; callers
    /// that expose it should redact secrets themselves.
    pub fn entries(&self) -> (r: Vec<(String, String)>)
        ensures
            pairs_view(r@) == self.entries_seq(),
    {
        let mut out: Vec<(String, String)> = Vec::new();
        let mut i: usize = 0;
        while i < self.entries.len()
            invariant
                i <= self.entries@.len(),
                out@.len() == i,
                forall|j: int| 0 <= j < i ==> out@[j] == self.entries@[j],
            decreases self.entries@.len() - i,
        {
            let pair = &self.entries[i];
            out.push((pair.0.clone(), pair.1.clone()));
            i = i + 1;
        }
        proof {
            assert(out@ =~= self.entries@);
        }
        out
    }

    /// Creates a store directly from key/value pairs, with no prefixes.
    ///
    /// Intended for tests and for callers that own their configuration:
    /// no process-wide state is involved. If the input repeats a key, the
    /// last pair wins.
    pub fn from_map(map: Vec<(String, String)>) -> (r: EnvStore)
        ensures
            r.wf(),
            r.prefixes_seq() == Seq::<Seq<char>>::empty(),
            forall|k: Seq<char>| #[trigger] map_lookup(r.entries_seq(), k) == map_lookup(
                pairs_view(map@),
                k,
            ),
    {
        let entries = dedupe_last_wins(map);
        let r = EnvStore { entries, prefixes: Vec::new() };
        proof {
            assert(r.prefixes_seq() =~= Seq::<Seq<char>>::empty());
        }
        r
    }

    /// Creates a store from key/value pairs together with the configured
    /// prefixes. The pairs are stored as given (under their full keys);
    /// if the input repeats a key, the last pair wins.
    pub fn from_map_with_prefixes(map: Vec<(String, String)>, prefixes: Vec<String>) -> (r:
        EnvStore)
        ensures
            r.wf(),
            r.prefixes_seq() == prefixes@.map_values(|p: String| p@),
            forall|k: Seq<char>| #[trigger] map_lookup(r.entries_seq(), k) == map_lookup(
                pairs_view(map@),
                k,
            ),
    {
        let entries = dedupe_last_wins(map);
        EnvStore { entries, prefixes }
    }

    /// Creates a store from a full environment snapshot: when prefixes
    /// are configured, only keys starting with at least one of them are
    /// kept (under their full, unshortened names); with no prefixes the
    /// snapshot is stored verbatim. If the snapshot repeats a key, the
    /// last pair wins.
    pub fn from_snapshot(pairs: Vec<(String, String)>, prefixes: Vec<String>) -> (r: EnvStore)
        ensures
            r.wf(),
            r.prefixes_seq() == prefixes@.map_values(|p: String| p@),
            forall|k: Seq<char>| #[trigger] map_lookup(r.entries_seq(), k) == (if keeps_key(
                prefixes@.map_values(|p: String| p@),
                k,
            ) {
                map_lookup(pairs_view(pairs@), k)
            } else {
                None
            }),
    {
        let ghost pviews = prefixes@.map_values(|p: String| p@);
        let ghost full = pairs_view(pairs@);
        let mut kept: Vec<(String, String)> = Vec::new();
        let mut i: usize = 0;
        if prefixes.len() == 0 {
            return EnvStore::from_map_with_prefixes(pairs, prefixes);
        }
        while i < pairs.len()
            invariant
                i <= pairs@.len(),
                full == pairs_view(pairs@),
                pviews == prefixes@.map_values(|p: String| p@),
                pviews.len() > 0,
                forall|k: Seq<char>| #[trigger] map_lookup(pairs_view(kept@), k) == (if keeps_key(
                    pviews,
                    k,
                ) {
                    map_lookup(full.subrange(0, i as int), k)
                } else {
                    None
                }),
            decreases pairs@.len() - i,
        {
            let pair = &pairs[i];
            let ghost old_kept = pairs_view(kept@);
            proof {
                assert(full[i as int] == (pairs@[i as int].0@, pairs@[i as int].1@));
                assert(full.subrange(0, i + 1).drop_last() =~= full.subrange(0, i as int));
                assert(full.subrange(0, i + 1).last() == full[i as int]);
            }
            if matches_any_prefix(pair.0.as_str(), &prefixes) {
                proof {
                    lemma_keeps_key_exists(prefixes@, pair.0@);
                }
                kept.push((pair.0.clone(), pair.1.clone()));
                proof {
                    assert(pairs_view(kept@) =~= old_kept.push(full[i as int]));
                    assert forall|k: Seq<char>| #[trigger] map_lookup(pairs_view(kept@), k) == (
                    if keeps_key(pviews, k) {
                        map_lookup(full.subrange(0, i + 1), k)
                    } else {
                        None
                    }) by {
                        lemma_map_lookup_push(old_kept, full[i as int], k);
                        if full[i as int].0 == k {
                            assert(keeps_key(pviews, k));
                        }
                    }
                }
            } else {
                proof {
                    lemma_keeps_key_exists(prefixes@, pair.0@);
                    assert(!keeps_key(pviews, full[i as int].0));
                    assert forall|k: Seq<char>| #[trigger] map_lookup(pairs_view(kept@), k) == (
                    if keeps_key(pviews, k) {
                        map_lookup(full.subrange(0, i + 1), k)
                    } else {
                        None
                    }) by {
                        if k == full[i as int].0 {
                            assert(map_lookup(full.subrange(0, i + 1), k) is Some);
                        }
                    }
                }
            }
            i = i + 1;
        }
        proof {
            assert(full.subrange(0, pairs@.len() as int) =~= full);
        }
        EnvStore::from_map_with_prefixes(kept, prefixes)
    }
}

impl EnvStore {
    /// Retrieves a variable and parses it into `T`; a missing or
    /// unparseable value falls back to `default`.
    ///
    /// With several prefixes configured this method cannot resolve the
    /// key and returns the default; use a query with a chosen prefix
    /// instead.
    pub fn get<T: EnvValue>(&self, name: &str, default: T) -> (r: T)
        ensures
            ({
                match self.lookup_spec(name@, None) {
                    None => r == default,
                    Some(raw) => {
                        let v = crate::value::norm_for::<T>(raw);
                        if T::parse_ok(v) {
                            T::parse_of(v, r)
                        } else {
                            r == default
                        }
                    },
                }
            }),
    {
        match self.lookup(name, None) {
            None => default,
            Some(raw) => {
                let val_str = if T::needs_bool_norm() {
                    crate::validators::normalize_bool(raw.as_str())
                } else {
                    raw
                };
                match T::parse_env(val_str.as_str()) {
                    Some(v) => v,
                    None => default,
                }
            },
        }
    }

    /// Retrieves a variable as a string; a missing value falls back to
    /// `default`.
    pub fn get_string(&self, name: &str, default: &str) -> (r: String)
        ensures
            ({
                match self.lookup_spec(name@, None) {
                    None => r@ == default@,
                    Some(raw) => r@ == raw,
                }
            }),
    {
        match self.lookup(name, None) {
            Some(v) => v,
            None => String::from_str(default),
        }
    }

    /// Retrieves a variable parsed into `T`; `None` when the key is not
    /// set or the value does not parse.
    pub fn lookup_parsed<T: EnvValue>(&self, name: &str) -> (r: Option<T>)
        ensures
            ({
                match self.lookup_spec(name@, None) {
                    None => r is None,
                    Some(raw) => {
                        let v = crate::value::norm_for::<T>(raw);
                        if T::parse_ok(v) {
                            r matches Some(w) && T::parse_of(v, w)
                        } else {
                            r is None
                        }
                    },
                }
            }),
    {
        match self.lookup(name, None) {
            None => None,
            Some(raw) => {
                let val_str = if T::needs_bool_norm() {
                    crate::validators::normalize_bool(raw.as_str())
                } else {
                    raw
                };
                T::parse_env(val_str.as_str())
            },
        }
    }

    /// Reads a variable as a boolean with the permissive rule: a set
    /// value spelling `true`, `1` or `yes` in any letter case is true,
    /// and anything else — another spelling, the empty string, or an
    /// unset key — is false. Total, with no failure case.
    pub fn get_bool(&self, name: &str) -> (r: bool)
        ensures
            r == match self.lookup_spec(name@, None) {
                Some(v) => crate::validators::coerce_bool_spec(v),
                None => false,
            },
    {
        match self.lookup(name, None) {
            Some(v) => crate::validators::coerce_bool(v.as_str()),
            None => false,
        }
    }

    /// Retrieves a variable as a string; `None` when the key is not set.
    pub fn lookup_string(&self, name: &str) -> (r: Option<String>)
        ensures
            r is Some <==> self.lookup_spec(name@, None) is Some,
            r matches Some(v) ==> self.lookup_spec(name@, None) == Some(v@),
    {
        self.lookup(name, None)
    }

    /// Checks whether a variable resolves in this store.
    pub fn is_set(&self, name: &str) -> (r: bool)
        ensures
            r == (self.lookup_spec(name@, None) is Some),
    {
        self.lookup(name, None).is_some()
    }
}

/// Builder for assembling a configuration store from the process
/// environment: an optional overlay-file path plus the key prefixes to
/// filter by.
///
/// The builder itself only collects settings and turns an environment
/// snapshot into a store ([`InitBuilder::build`]); reading the overlay
/// file and the live environment, and publishing the store process-wide,
/// is the unverified start-up code's part.
#[derive(Debug)]
pub struct InitBuilder {
    path: Option<String>,
    prefixes: Vec<String>,
}

impl InitBuilder {
    /// The overlay path, if one was set.
    pub closed spec fn path_spec(self) -> Option<Seq<char>> {
        match self.path {
            Some(p) => Some(p@),
            None => None,
        }
    }

    /// The configured prefixes, as character sequences.
    pub closed spec fn prefixes_spec(self) -> Seq<Seq<char>> {
        self.prefixes@.map_values(|p: String| p@)
    }

    /// Creates a builder with no overlay path and no prefixes.
    pub fn new() -> (r: InitBuilder)
        ensures
            r.path_spec() is None,
            r.prefixes_spec() == Seq::<Seq<char>>::empty(),
    {
        let r = InitBuilder { path: None, prefixes: Vec::new() };
        proof {
            assert(r.prefixes_spec() =~= Seq::<Seq<char>>::empty());
        }
        r
    }

    /// Sets the path of the overlay file. A store built with an explicit
    /// path requires the file to exist.
    pub fn path(self, path: &str) -> (r: InitBuilder)
        ensures
            r.path_spec() == Some(path@),
            r.prefixes_spec() == self.prefixes_spec(),
    {
        InitBuilder { path: Some(String::from_str(path)), prefixes: self.prefixes }
    }

    /// Adds a prefix to filter environment variables by. Only keys
    /// matching at least one configured prefix are kept, under their
    /// original full name; lookups prepend a prefix again, so callers use
    /// the short name.
    pub fn prefix(self, prefix: &str) -> (r: InitBuilder)
        ensures
            r.path_spec() == self.path_spec(),
            r.prefixes_spec() == self.prefixes_spec().push(prefix@),
    {
        let mut prefixes = self.prefixes;
        prefixes.push(String::from_str(prefix));
        let r = InitBuilder { path: self.path, prefixes };
        proof {
            assert(r.prefixes_spec() =~= self.prefixes_spec().push(prefix@));
        }
        r
    }

    /// Hands the overlay path to the start-up code that loads the file.
    pub fn source_path(&self) -> (r: &Option<String>)
        ensures
            r is Some <==> self.path_spec() is Some,
            r matches Some(p) ==> self.path_spec() == Some(p@),
    {
        &self.path
    }

    /// Builds the store from a snapshot of the (post-overlay) process
    /// environment, filtering by this builder's prefixes.
    pub fn build(self, snapshot: Vec<(String, String)>) -> (r: EnvStore)
        ensures
            r.wf(),
            r.prefixes_seq() == self.prefixes_spec(),
            forall|k: Seq<char>| #[trigger] map_lookup(r.entries_seq(), k) == (if keeps_key(
                self.prefixes_spec(),
                k,
            ) {
                map_lookup(pairs_view(snapshot@), k)
            } else {
                None
            }),
    {
        EnvStore::from_snapshot(snapshot, self.prefixes)
    }
}

impl Default for InitBuilder {
    /// The same as [`InitBuilder::new`]: no overlay path, no prefixes.
    fn default() -> (r: Self)
        ensures
            r.path_spec() is None,
            r.prefixes_spec() == Seq::<Seq<char>>::empty(),
    {
        InitBuilder::new()
    }
}

/// Decides whether some configured prefix starts `key`.
fn matches_any_prefix(key: &str, prefixes: &Vec<String>) -> (r: bool)
    ensures
        r == exists|i: int|
            0 <= i < prefixes@.len() && (#[trigger] prefixes@[i]@).is_prefix_of(key@),
{
    let mut i: usize = 0;
    while i < prefixes.len()
        invariant
            i <= prefixes@.len(),
            forall|j: int| 0 <= j < i ==> !(#[trigger] prefixes@[j]@).is_prefix_of(key@),
        decreases prefixes@.len() - i,
    {
        if str_starts_with(key, prefixes[i].as_str()) {
            proof {
                assert(prefixes@[i as int]@.is_prefix_of(key@));
            }
            return true;
        }
        i = i + 1;
    }
    false
}

proof fn lemma_keeps_key_exists(prefixes: Seq<String>, k: Seq<char>)
    requires
        prefixes.len() > 0,
    ensures
        keeps_key(prefixes.map_values(|p: String| p@), k) == exists|i: int|
            0 <= i < prefixes.len() && (#[trigger] prefixes[i]@).is_prefix_of(k),
{
    let pv = prefixes.map_values(|p: String| p@);
    if exists|i: int| 0 <= i < prefixes.len() && (#[trigger] prefixes[i]@).is_prefix_of(k) {
        let i = choose|i: int| 0 <= i < prefixes.len() && (#[trigger] prefixes[i]@).is_prefix_of(
            k,
        );
        assert(pv[i].is_prefix_of(k));
    }
    if keeps_key(pv, k) {
        let i = choose|i: int| 0 <= i < pv.len() && (#[trigger] pv[i]).is_prefix_of(k);
        assert(prefixes[i]@.is_prefix_of(k));
    }
}

/// Keeps, for every key, the last pair carrying it; the result has unique
/// keys and the same mapping as the input.
fn dedupe_last_wins(map: Vec<(String, String)>) -> (r: Vec<(String, String)>)
    ensures
        unique_keys(pairs_view(r@)),
        forall|k: Seq<char>| #[trigger] map_lookup(pairs_view(r@), k) == map_lookup(
            pairs_view(map@),
            k,
        ),
{
    let ghost full = pairs_view(map@);
    let mut out: Vec<(String, String)> = Vec::new();
    let mut i: usize = map.len();
    while i > 0
        invariant
            i <= map@.len(),
            full == pairs_view(map@),
            unique_keys(pairs_view(out@)),
            forall|k: Seq<char>| #[trigger] map_lookup(pairs_view(out@), k) == map_lookup(
                full.subrange(i as int, full.len() as int),
                k,
            ),
        decreases i,
    {
        i = i - 1;
        let pair = &map[i];
        let ghost old_out = pairs_view(out@);
        let ghost suffix = full.subrange(i + 1, full.len() as int);
        proof {
            assert(full[i as int] == (map@[i as int].0@, map@[i as int].1@));
            assert(full.subrange(i as int, full.len() as int) =~= seq![full[i as int]] + suffix);
        }
        let present = contains_key(&out, pair.0.as_str());
        if !present {
            out.push((pair.0.clone(), pair.1.clone()));
            proof {
                assert(pairs_view(out@) =~= old_out.push(full[i as int]));
                lemma_map_lookup_some(old_out, full[i as int].0);
                assert forall|a: int, b: int|
                    0 <= a < b < pairs_view(out@).len() implies pairs_view(out@)[a].0 != pairs_view(
                    out@,
                )[b].0 by {
                    if b == pairs_view(out@).len() - 1 {
                        assert(pairs_view(out@)[a] == old_out[a]);
                        assert(map_lookup(old_out, full[i as int].0) is None);
                    } else {
                        assert(pairs_view(out@)[a] == old_out[a]);
                        assert(pairs_view(out@)[b] == old_out[b]);
                    }
                }
                assert forall|k: Seq<char>| #[trigger] map_lookup(pairs_view(out@), k)
                    == map_lookup(full.subrange(i as int, full.len() as int), k) by {
                    lemma_map_lookup_push(old_out, full[i as int], k);
                    lemma_map_lookup_prepend(suffix, full[i as int], k);
                }
            }
        } else {
            proof {
                assert forall|k: Seq<char>| #[trigger] map_lookup(pairs_view(out@), k)
                    == map_lookup(full.subrange(i as int, full.len() as int), k) by {
                    lemma_map_lookup_prepend(suffix, full[i as int], k);
                    if k == full[i as int].0 {
                        lemma_map_lookup_some(old_out, k);
                    }
                }
            }
        }
    }
    proof {
        assert(full.subrange(0, full.len() as int) =~= full);
    }
    out
}

/// Decides whether some stored pair carries the key `k`.
fn contains_key(es: &Vec<(String, String)>, k: &str) -> (r: bool)
    ensures
        r == (map_lookup(pairs_view(es@), k@) is Some),
{
    let ghost views = pairs_view(es@);
    let mut i: usize = 0;
    while i < es.len()
        invariant
            i <= es@.len(),
            views == pairs_view(es@),
            forall|j: int| 0 <= j < i ==> (#[trigger] views[j]).0 != k@,
        decreases es@.len() - i,
    {
        let pair = &es[i];
        proof {
            assert(views[i as int] == (es@[i as int].0@, es@[i as int].1@));
        }
        if str_eq(pair.0.as_str(), k) {
            proof {
                lemma_map_lookup_some(views, k@);
            }
            return true;
        }
        i = i + 1;
    }
    proof {
        lemma_map_lookup_some(views, k@);
    }
    false
}

} // verus!
