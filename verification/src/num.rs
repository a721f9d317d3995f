//! Decimal integer parsing, exactly as `str::parse` accepts integers:
//! an optional sign (`+` for unsigned, `+`/`-` for signed) followed by one
//! or more ASCII digits, with a range check against the target type.
//!
//! The module also defines the canonical decimal rendering of a number
//! ([`u64_repr`], [`i64_repr`]) and proves that parsing a rendering gives
//! the number back, which the round-trip law builds on.

use vstd::prelude::*;

verus! {

/// True when `c` is an ASCII decimal digit.
pub open spec fn is_digit(c: char) -> bool {
    48 <= c as u32 && c as u32 <= 57
}

/// The numeric value of an ASCII digit.
pub open spec fn digit_val(c: char) -> nat
    recommends
        is_digit(c),
{
    (c as int - 48) as nat
}

/// True when every character of `s` is an ASCII digit.
pub open spec fn all_digits(s: Seq<char>) -> bool {
    forall|i: int| 0 <= i < s.len() ==> is_digit(#[trigger] s[i])
}

/// The value of a digit string, most significant digit first.
pub open spec fn dec_val(s: Seq<char>) -> nat
    decreases s.len(),
{
    if s.len() == 0 {
        0
    } else {
        dec_val(s.drop_last()) * 10 + digit_val(s.last())
    }
}

/// The digits of an unsigned literal: an optional leading `+` is dropped.
pub open spec fn unsigned_body(s: Seq<char>) -> Seq<char> {
    if s.len() > 0 && s[0] == '+' {
        s.drop_first()
    } else {
        s
    }
}

/// True when `s` is a well-formed unsigned decimal literal.
pub open spec fn unsigned_ok(s: Seq<char>) -> bool {
    unsigned_body(s).len() > 0 && all_digits(unsigned_body(s))
}

/// The value of a well-formed unsigned decimal literal.
pub open spec fn unsigned_val(s: Seq<char>) -> nat {
    dec_val(unsigned_body(s))
}

/// The digits of a signed literal: an optional leading sign is dropped.
pub open spec fn signed_body(s: Seq<char>) -> Seq<char> {
    if s.len() > 0 && (s[0] == '+' || s[0] == '-') {
        s.drop_first()
    } else {
        s
    }
}

/// True when the literal carries a minus sign.
pub open spec fn signed_neg(s: Seq<char>) -> bool {
    s.len() > 0 && s[0] == '-'
}

/// True when `s` is a well-formed signed decimal literal.
pub open spec fn signed_ok(s: Seq<char>) -> bool {
    signed_body(s).len() > 0 && all_digits(signed_body(s))
}

/// The value of a well-formed signed decimal literal.
pub open spec fn signed_val(s: Seq<char>) -> int {
    if signed_neg(s) {
        -(dec_val(signed_body(s)) as int)
    } else {
        dec_val(signed_body(s)) as int
    }
}

proof fn lemma_dec_val_step(s: Seq<char>, i: int)
    requires
        0 <= i < s.len(),
    ensures
        dec_val(s.subrange(0, i + 1)) == dec_val(s.subrange(0, i)) * 10 + digit_val(s[i]),
{
    let t = s.subrange(0, i + 1);
    assert(t.drop_last() =~= s.subrange(0, i));
    assert(t.last() == s[i]);
}

proof fn lemma_dec_val_prefix_le(s: Seq<char>, i: int)
    requires
        0 <= i <= s.len(),
    ensures
        dec_val(s.subrange(0, i)) <= dec_val(s),
    decreases s.len() - i,
{
    if i == s.len() {
        assert(s.subrange(0, i) =~= s);
    } else {
        lemma_dec_val_step(s, i);
        assert(dec_val(s.subrange(0, i)) <= dec_val(s.subrange(0, i + 1)));
        lemma_dec_val_prefix_le(s, i + 1);
    }
}

/// Parses the digits of `s` from position `from` on as a `u64`.
fn parse_digits(s: &str, from: usize) -> (r: Option<u64>)
    requires
        from as int <= s@.len(),
    ensures
        ({
            let b = s@.subrange(from as int, s@.len() as int);
            &&& (r is Some <==> (b.len() > 0 && all_digits(b) && dec_val(b) <= u64::MAX))
            &&& (r is Some ==> r->0 as nat == dec_val(b))
        }),
{
    let ghost b = s@.subrange(from as int, s@.len() as int);
    let len = s.unicode_len();
    if from == len {
        return None;
    }
    let mut acc: u64 = 0;
    let mut i: usize = from;
    while i < len
        invariant
            from <= i <= len,
            len == s@.len(),
            b == s@.subrange(from as int, s@.len() as int),
            all_digits(b.subrange(0, i - from)),
            acc as nat == dec_val(b.subrange(0, i - from)),
        decreases len - i,
    {
        let c = s.get_char(i);
        proof {
            assert(b[i - from] == s@[i as int]);
        }
        let u = c as u32;
        if u < 48 || u > 57 {
            proof {
                assert(!is_digit(b[i - from]));
            }
            return None;
        }
        let d = (u - 48) as u64;
        proof {
            lemma_dec_val_step(b, i - from);
        }
        if acc > (u64::MAX - d) / 10 {
            proof {
                assert(dec_val(b.subrange(0, i - from + 1)) > u64::MAX);
                lemma_dec_val_prefix_le(b, i - from + 1);
            }
            return None;
        }
        acc = acc * 10 + d;
        i = i + 1;
    }
    proof {
        assert(b.subrange(0, len - from) =~= b);
    }
    Some(acc)
}

/// Parses `s` as Rust's `u64::from_str` does: optional `+`, then digits.
pub fn parse_u64_str(s: &str) -> (r: Option<u64>)
    ensures
        r is Some <==> (unsigned_ok(s@) && unsigned_val(s@) <= u64::MAX),
        r is Some ==> r->0 as nat == unsigned_val(s@),
{
    let len = s.unicode_len();
    let from: usize = if len > 0 && s.get_char(0) == '+' {
        1
    } else {
        0
    };
    proof {
        assert(unsigned_body(s@) =~= s@.subrange(from as int, s@.len() as int));
    }
    parse_digits(s, from)
}

/// Parses `s` as Rust's `i64::from_str` does: optional sign, then digits.
pub fn parse_i64_str(s: &str) -> (r: Option<i64>)
    ensures
        r is Some <==> (signed_ok(s@) && i64::MIN <= signed_val(s@) && signed_val(s@)
            <= i64::MAX),
        r is Some ==> r->0 as int == signed_val(s@),
{
    let len = s.unicode_len();
    let mut neg = false;
    let mut from: usize = 0;
    if len > 0 {
        let c = s.get_char(0);
        if c == '+' {
            from = 1;
        } else if c == '-' {
            neg = true;
            from = 1;
        }
    }
    proof {
        assert(signed_body(s@) =~= s@.subrange(from as int, s@.len() as int));
        assert(neg == signed_neg(s@));
    }
    match parse_digits(s, from) {
        None => None,
        Some(mag) => {
            if neg {
                if mag < 9223372036854775808u64 {
                    Some(-(mag as i64))
                } else if mag == 9223372036854775808u64 {
                    Some(i64::MIN)
                } else {
                    None
                }
            } else {
                if mag <= 9223372036854775807u64 {
                    Some(mag as i64)
                } else {
                    None
                }
            }
        },
    }
}

/// The character for a digit value below ten.
pub open spec fn digit_char(d: nat) -> char
    recommends
        d < 10,
{
    (48 + d) as char
}

/// The canonical decimal rendering of a natural number, as `to_string`
/// writes it: no sign, no leading zeros (except for zero itself).
pub open spec fn u64_repr(n: nat) -> Seq<char>
    decreases n,
{
    if n < 10 {
        seq![digit_char(n)]
    } else {
        u64_repr(n / 10).push(digit_char(n % 10))
    }
}

/// The canonical decimal rendering of an integer: a `-` sign for negative
/// numbers, then the digits.
pub open spec fn i64_repr(i: int) -> Seq<char> {
    if i < 0 {
        seq!['-'] + u64_repr((-i) as nat)
    } else {
        u64_repr(i as nat)
    }
}

/// A canonical rendering consists of digits and parses back to its number.
pub proof fn lemma_u64_repr_parses(n: nat)
    ensures
        u64_repr(n).len() > 0,
        all_digits(u64_repr(n)),
        dec_val(u64_repr(n)) == n,
    decreases n,
{
    if n < 10 {
        let r = u64_repr(n);
        assert(digit_char(n) as u32 == 48 + n);
        assert(digit_char(n) as int == 48 + n);
        assert(r.drop_last() =~= Seq::<char>::empty());
        assert(dec_val(r.drop_last()) == 0);
        assert(dec_val(r) == digit_val(digit_char(n)));
    } else {
        lemma_u64_repr_parses(n / 10);
        let r = u64_repr(n);
        assert(r.drop_last() =~= u64_repr(n / 10));
        assert(r.last() == digit_char(n % 10));
        assert(digit_val(digit_char(n % 10)) == n % 10);
        assert(dec_val(r) == (n / 10) * 10 + n % 10);
        assert((n / 10) * 10 + n % 10 == n) by (nonlinear_arith);
    }
}

/// Parsing the canonical unsigned rendering gives the number back.
pub proof fn lemma_unsigned_roundtrip(n: nat)
    ensures
        unsigned_ok(u64_repr(n)),
        unsigned_val(u64_repr(n)) == n,
{
    lemma_u64_repr_parses(n);
    let r = u64_repr(n);
    assert(all_digits(r));
    assert(r.len() > 0);
    assert(is_digit(r[0]));
    assert(r[0] != '+');
    assert(unsigned_body(r) == r);
}

/// Parsing the canonical signed rendering gives the number back.
pub proof fn lemma_signed_roundtrip(i: int)
    ensures
        signed_ok(i64_repr(i)),
        signed_val(i64_repr(i)) == i,
{
    if i < 0 {
        lemma_u64_repr_parses((-i) as nat);
        let r = i64_repr(i);
        assert(r[0] == '-');
        assert(r.drop_first() =~= u64_repr((-i) as nat));
        assert(signed_neg(r));
        assert(dec_val(signed_body(r)) == (-i) as nat);
    } else {
        lemma_u64_repr_parses(i as nat);
        let r = i64_repr(i);
        assert(is_digit(r[0]));
        assert(signed_body(r) == r);
        assert(!signed_neg(r));
    }
}

} // verus!
