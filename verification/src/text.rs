//! Character and string primitives: white-space trimming, ASCII
//! case-insensitive comparison, equality, prefix tests and concatenation.
//!
//! Everything here is stated over `Seq<char>` views, so the higher layers
//! can speak about trimmed and case-folded strings exactly.

use vstd::prelude::*;

verus! {

/// The code points that `str::trim` removes: the Unicode `White_Space` set.
pub open spec fn is_space(c: char) -> bool {
    let u = c as u32;
    ||| (9 <= u && u <= 13)
    ||| u == 0x20
    ||| u == 0x85
    ||| u == 0xa0
    ||| u == 0x1680
    ||| (0x2000 <= u && u <= 0x200a)
    ||| u == 0x2028
    ||| u == 0x2029
    ||| u == 0x202f
    ||| u == 0x205f
    ||| u == 0x3000
}

/// Decides [`is_space`] for one character.
pub fn char_is_space(c: char) -> (r: bool)
    ensures
        r == is_space(c),
{
    let u = c as u32;
    (9 <= u && u <= 13) || u == 0x20 || u == 0x85 || u == 0xa0 || u == 0x1680
        || (0x2000 <= u && u <= 0x200a) || u == 0x2028 || u == 0x2029 || u == 0x202f
        || u == 0x205f || u == 0x3000
}

/// What is left of `s` after dropping white space from the front.
pub open spec fn trim_start_rec(s: Seq<char>) -> Seq<char>
    decreases s.len(),
{
    if s.len() > 0 && is_space(s[0]) {
        trim_start_rec(s.drop_first())
    } else {
        s
    }
}

/// What is left of `s` after dropping white space from the back.
pub open spec fn trim_end_rec(s: Seq<char>) -> Seq<char>
    decreases s.len(),
{
    if s.len() > 0 && is_space(s.last()) {
        trim_end_rec(s.drop_last())
    } else {
        s
    }
}

/// The view of `s.trim()`: white space dropped from both ends.
pub open spec fn trim_spec(s: Seq<char>) -> Seq<char> {
    trim_end_rec(trim_start_rec(s))
}

proof fn lemma_trim_start_skip(s: Seq<char>, lo: int)
    requires
        0 <= lo <= s.len(),
        forall|j: int| 0 <= j < lo ==> is_space(s[j]),
    ensures
        trim_start_rec(s) == trim_start_rec(s.subrange(lo, s.len() as int)),
    decreases lo,
{
    if lo == 0 {
        assert(s.subrange(0, s.len() as int) =~= s);
    } else {
        assert(is_space(s[0]));
        assert(trim_start_rec(s) == trim_start_rec(s.drop_first()));
        lemma_trim_start_skip(s.drop_first(), lo - 1);
        assert(s.drop_first().subrange(lo - 1, s.drop_first().len() as int) =~= s.subrange(
            lo,
            s.len() as int,
        ));
    }
}

proof fn lemma_trim_end_skip(s: Seq<char>, hi: int)
    requires
        0 <= hi <= s.len(),
        forall|j: int| hi <= j < s.len() ==> is_space(s[j]),
    ensures
        trim_end_rec(s) == trim_end_rec(s.subrange(0, hi)),
    decreases s.len() - hi,
{
    if hi == s.len() {
        assert(s.subrange(0, s.len() as int) =~= s);
    } else {
        assert(is_space(s.last()));
        assert(trim_end_rec(s) == trim_end_rec(s.drop_last()));
        lemma_trim_end_skip(s.drop_last(), hi);
        assert(s.drop_last().subrange(0, hi) =~= s.subrange(0, hi));
    }
}

/// Returns `s` with leading and trailing white space removed, exactly as
/// [`trim_spec`] describes.
pub fn trim_str(s: &str) -> (r: &str)
    ensures
        r@ == trim_spec(s@),
{
    let len = s.unicode_len();
    let mut lo: usize = 0;
    while lo < len && char_is_space(s.get_char(lo))
        invariant
            0 <= lo <= len,
            len == s@.len(),
            forall|j: int| 0 <= j < lo ==> is_space(s@[j]),
        decreases len - lo,
    {
        lo = lo + 1;
    }
    let mut hi: usize = len;
    while hi > lo && char_is_space(s.get_char(hi - 1))
        invariant
            lo <= hi <= len,
            len == s@.len(),
            forall|j: int| hi <= j < len ==> is_space(s@[j]),
        decreases hi,
    {
        hi = hi - 1;
    }
    proof {
        lemma_trim_start_skip(s@, lo as int);
        let t = s@.subrange(lo as int, len as int);
        if lo < len {
            assert(!is_space(t[0]));
        }
        assert(trim_start_rec(t) == t);
        lemma_trim_end_skip(t, hi - lo);
        let u = t.subrange(0, hi - lo);
        if hi > lo {
            assert(u.last() == s@[hi - 1]);
            assert(!is_space(u.last()));
        }
        assert(trim_end_rec(u) == u);
        assert(u =~= s@.subrange(lo as int, hi as int));
    }
    s.substring_char(lo, hi)
}

/// ASCII lower-casing of a single character; other characters are unchanged.
pub open spec fn lower_c(c: char) -> char {
    if 'A' <= c && c <= 'Z' {
        ((c as u32) + 32) as char
    } else {
        c
    }
}

/// Case-insensitive (ASCII) equality of two character sequences.
pub open spec fn seq_ieq(a: Seq<char>, b: Seq<char>) -> bool {
    a.len() == b.len() && (forall|i: int| 0 <= i < a.len() ==> lower_c(a[i]) == lower_c(b[i]))
}

/// Decides whether two characters agree up to ASCII case.
fn char_ieq(a: char, b: char) -> (r: bool)
    ensures
        r == (lower_c(a) == lower_c(b)),
{
    let ua = a as u32;
    let ub = b as u32;
    let la = if 65 <= ua && ua <= 90 {
        ua + 32
    } else {
        ua
    };
    let lb = if 65 <= ub && ub <= 90 {
        ub + 32
    } else {
        ub
    };
    proof {
        assert(lower_c(a) as u32 == la);
        assert(lower_c(b) as u32 == lb);
    }
    la == lb
}

/// Decides [`seq_ieq`] on two strings.
pub fn str_ieq(a: &str, b: &str) -> (r: bool)
    ensures
        r == seq_ieq(a@, b@),
{
    let alen = a.unicode_len();
    let blen = b.unicode_len();
    if alen != blen {
        return false;
    }
    let mut i: usize = 0;
    while i < alen
        invariant
            0 <= i <= alen,
            alen == a@.len(),
            alen == b@.len(),
            forall|j: int| 0 <= j < i ==> lower_c(a@[j]) == lower_c(b@[j]),
        decreases alen - i,
    {
        if !char_ieq(a.get_char(i), b.get_char(i)) {
            return false;
        }
        i = i + 1;
    }
    true
}

/// Decides exact equality of two string views.
pub fn str_eq(a: &str, b: &str) -> (r: bool)
    ensures
        r == (a@ == b@),
{
    let alen = a.unicode_len();
    let blen = b.unicode_len();
    if alen != blen {
        return false;
    }
    let mut i: usize = 0;
    while i < alen
        invariant
            0 <= i <= alen,
            alen == a@.len(),
            alen == b@.len(),
            forall|j: int| 0 <= j < i ==> a@[j] == b@[j],
        decreases alen - i,
    {
        if a.get_char(i) != b.get_char(i) {
            return false;
        }
        i = i + 1;
    }
    proof {
        assert(a@ =~= b@);
    }
    true
}

/// Decides whether `p@` is a prefix of `s@`.
pub fn str_starts_with(s: &str, p: &str) -> (r: bool)
    ensures
        r == p@.is_prefix_of(s@),
{
    let slen = s.unicode_len();
    let plen = p.unicode_len();
    if plen > slen {
        return false;
    }
    let mut i: usize = 0;
    while i < plen
        invariant
            0 <= i <= plen,
            plen <= slen,
            slen == s@.len(),
            plen == p@.len(),
            forall|j: int| 0 <= j < i ==> p@[j] == s@[j],
        decreases plen - i,
    {
        if s.get_char(i) != p.get_char(i) {
            proof {
                assert(!(p@ =~= s@.subrange(0, p@.len() as int)));
            }
            return false;
        }
        i = i + 1;
    }
    proof {
        assert(p@ =~= s@.subrange(0, p@.len() as int));
    }
    true
}

/// Concatenates two strings; the result's view is the two views joined.
pub fn concat_strs(a: &str, b: &str) -> (r: String)
    ensures
        r@ == a@ + b@,
{
    let s = String::from_str(a);
    s.concat(b)
}

} // verus!
