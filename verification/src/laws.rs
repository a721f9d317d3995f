//! The library's laws, stated and proved once and for all: the four
//! prefix-lookup cases, idempotence of boolean normalization, and the
//! numeric round trip through a defaulted query.

use crate::builder::get_post;
use crate::error::EnvflagError;
use crate::num::{i64_repr, lemma_signed_roundtrip, lemma_unsigned_roundtrip, u64_repr};
use crate::store::{map_lookup, EnvStore};
use crate::text::{is_space, seq_ieq, trim_end_rec, trim_spec, trim_start_rec};
use crate::validators::{normalize_bool_spec, Validator};
use vstd::prelude::*;

verus! {

/// With no prefixes configured, lookup is the identity passthrough: for
/// any preferred prefix, the entries are consulted under the key itself.
pub proof fn lemma_lookup_no_prefixes(store: EnvStore, k: Seq<char>, pref: Option<Seq<char>>)
    requires
        store.prefixes_seq().len() == 0,
    ensures
        store.lookup_spec(k, pref) == map_lookup(store.entries_seq(), k),
{
}

/// With exactly one configured prefix and no preferred prefix, the
/// entries are consulted under the prefixed key.
pub proof fn lemma_lookup_single_prefix(store: EnvStore, k: Seq<char>)
    requires
        store.prefixes_seq().len() == 1,
    ensures
        store.lookup_spec(k, None) == map_lookup(
            store.entries_seq(),
            store.prefixes_seq()[0] + k,
        ),
{
}

/// With two or more configured prefixes and no preferred prefix, nothing
/// resolves, whatever the entries hold.
pub proof fn lemma_lookup_multi_prefix_unresolved(store: EnvStore, k: Seq<char>)
    requires
        store.prefixes_seq().len() >= 2,
    ensures
        store.lookup_spec(k, None) is None,
{
}

/// With two or more configured prefixes and an explicit preferred prefix
/// among them, the entries are consulted under the prefixed key.
pub proof fn lemma_lookup_explicit_prefix(store: EnvStore, k: Seq<char>, p: Seq<char>)
    requires
        store.prefixes_seq().len() >= 2,
        store.prefixes_seq().contains(p),
    ensures
        store.lookup_spec(k, Some(p)) == map_lookup(store.entries_seq(), p + k),
{
}

proof fn lemma_normalize_canonical()
    ensures
        normalize_bool_spec("true"@) == "true"@,
        normalize_bool_spec("false"@) == "false"@,
{
    reveal_strlit("true");
    reveal_strlit("false");
    reveal_strlit("1");
    reveal_strlit("yes");
    let t = "true"@;
    assert(!is_space(t[0]));
    assert(trim_start_rec(t) == t);
    assert(!is_space(t.last()));
    assert(trim_end_rec(t) == t);
    assert(seq_ieq(t, "true"@));
    let f = "false"@;
    assert(!is_space(f[0]));
    assert(trim_start_rec(f) == f);
    assert(!is_space(f.last()));
    assert(trim_end_rec(f) == f);
    assert(!seq_ieq(f, "true"@));
    assert(!seq_ieq(f, "1"@));
    assert(!seq_ieq(f, "yes"@));
    assert(seq_ieq(f, "false"@));
}

/// Boolean normalization is idempotent: normalizing a normalized string
/// changes nothing.
pub proof fn lemma_normalize_bool_idempotent(s: Seq<char>)
    ensures
        normalize_bool_spec(normalize_bool_spec(s)) == normalize_bool_spec(s),
{
    let t = trim_spec(s);
    if seq_ieq(t, "true"@) || seq_ieq(t, "1"@) || seq_ieq(t, "yes"@) {
        lemma_normalize_canonical();
    } else if seq_ieq(t, "false"@) || seq_ieq(t, "0"@) || seq_ieq(t, "no"@) {
        lemma_normalize_canonical();
    } else {
    }
}

/// Round trip: when the store resolves `name` to the canonical decimal
/// rendering of `v`, a defaulted query with no validators yields `v`,
/// whatever the default.
pub proof fn lemma_roundtrip_u8(
    store: EnvStore,
    name: Seq<char>,
    dflt: u8,
    v: u8,
    r: Result<u8, EnvflagError>,
)
    requires
        store.prefixes_seq().len() == 0,
        map_lookup(store.entries_seq(), name) == Some(u64_repr(v as nat)),
        get_post::<u8>(store, name, None, dflt, Seq::<Validator>::empty(), r),
    ensures
        r == Ok::<u8, EnvflagError>(v),
{
    lemma_unsigned_roundtrip(v as nat);
}

/// Round trip: when the store resolves `name` to the canonical decimal
/// rendering of `v`, a defaulted query with no validators yields `v`,
/// whatever the default.
pub proof fn lemma_roundtrip_u16(
    store: EnvStore,
    name: Seq<char>,
    dflt: u16,
    v: u16,
    r: Result<u16, EnvflagError>,
)
    requires
        store.prefixes_seq().len() == 0,
        map_lookup(store.entries_seq(), name) == Some(u64_repr(v as nat)),
        get_post::<u16>(store, name, None, dflt, Seq::<Validator>::empty(), r),
    ensures
        r == Ok::<u16, EnvflagError>(v),
{
    lemma_unsigned_roundtrip(v as nat);
}

/// Round trip: when the store resolves `name` to the canonical decimal
/// rendering of `v`, a defaulted query with no validators yields `v`,
/// whatever the default.
pub proof fn lemma_roundtrip_u32(
    store: EnvStore,
    name: Seq<char>,
    dflt: u32,
    v: u32,
    r: Result<u32, EnvflagError>,
)
    requires
        store.prefixes_seq().len() == 0,
        map_lookup(store.entries_seq(), name) == Some(u64_repr(v as nat)),
        get_post::<u32>(store, name, None, dflt, Seq::<Validator>::empty(), r),
    ensures
        r == Ok::<u32, EnvflagError>(v),
{
    lemma_unsigned_roundtrip(v as nat);
}

/// Round trip: when the store resolves `name` to the canonical decimal
/// rendering of `v`, a defaulted query with no validators yields `v`,
/// whatever the default.
pub proof fn lemma_roundtrip_u64(
    store: EnvStore,
    name: Seq<char>,
    dflt: u64,
    v: u64,
    r: Result<u64, EnvflagError>,
)
    requires
        store.prefixes_seq().len() == 0,
        map_lookup(store.entries_seq(), name) == Some(u64_repr(v as nat)),
        get_post::<u64>(store, name, None, dflt, Seq::<Validator>::empty(), r),
    ensures
        r == Ok::<u64, EnvflagError>(v),
{
    lemma_unsigned_roundtrip(v as nat);
}

/// Round trip: when the store resolves `name` to the canonical decimal
/// rendering of `v`, a defaulted query with no validators yields `v`,
/// whatever the default.
pub proof fn lemma_roundtrip_i8(
    store: EnvStore,
    name: Seq<char>,
    dflt: i8,
    v: i8,
    r: Result<i8, EnvflagError>,
)
    requires
        store.prefixes_seq().len() == 0,
        map_lookup(store.entries_seq(), name) == Some(i64_repr(v as int)),
        get_post::<i8>(store, name, None, dflt, Seq::<Validator>::empty(), r),
    ensures
        r == Ok::<i8, EnvflagError>(v),
{
    lemma_signed_roundtrip(v as int);
}

/// Round trip: when the store resolves `name` to the canonical decimal
/// rendering of `v`, a defaulted query with no validators yields `v`,
/// whatever the default.
pub proof fn lemma_roundtrip_i16(
    store: EnvStore,
    name: Seq<char>,
    dflt: i16,
    v: i16,
    r: Result<i16, EnvflagError>,
)
    requires
        store.prefixes_seq().len() == 0,
        map_lookup(store.entries_seq(), name) == Some(i64_repr(v as int)),
        get_post::<i16>(store, name, None, dflt, Seq::<Validator>::empty(), r),
    ensures
        r == Ok::<i16, EnvflagError>(v),
{
    lemma_signed_roundtrip(v as int);
}

/// Round trip: when the store resolves `name` to the canonical decimal
/// rendering of `v`, a defaulted query with no validators yields `v`,
/// whatever the default.
pub proof fn lemma_roundtrip_i32(
    store: EnvStore,
    name: Seq<char>,
    dflt: i32,
    v: i32,
    r: Result<i32, EnvflagError>,
)
    requires
        store.prefixes_seq().len() == 0,
        map_lookup(store.entries_seq(), name) == Some(i64_repr(v as int)),
        get_post::<i32>(store, name, None, dflt, Seq::<Validator>::empty(), r),
    ensures
        r == Ok::<i32, EnvflagError>(v),
{
    lemma_signed_roundtrip(v as int);
}

/// Round trip: when the store resolves `name` to the canonical decimal
/// rendering of `v`, a defaulted query with no validators yields `v`,
/// whatever the default.
pub proof fn lemma_roundtrip_i64(
    store: EnvStore,
    name: Seq<char>,
    dflt: i64,
    v: i64,
    r: Result<i64, EnvflagError>,
)
    requires
        store.prefixes_seq().len() == 0,
        map_lookup(store.entries_seq(), name) == Some(i64_repr(v as int)),
        get_post::<i64>(store, name, None, dflt, Seq::<Validator>::empty(), r),
    ensures
        r == Ok::<i64, EnvflagError>(v),
{
    lemma_signed_roundtrip(v as int);
}

} // verus!
