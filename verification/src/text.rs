//! Verified primitives over text: string equality and decimal numbers.

use vstd::prelude::*;

verus! {

/// A decimal digit character.
pub open spec fn is_digit(c: char) -> bool {
    '0' <= c && c <= '9'
}

/// The numeric value of a decimal digit character; characters that are not
/// digits are mapped to ten, a value no digit has.
pub open spec fn digit_val(c: char) -> nat {
    if c == '0' {
        0
    } else if c == '1' {
        1
    } else if c == '2' {
        2
    } else if c == '3' {
        3
    } else if c == '4' {
        4
    } else if c == '5' {
        5
    } else if c == '6' {
        6
    } else if c == '7' {
        7
    } else if c == '8' {
        8
    } else if c == '9' {
        9
    } else {
        10
    }
}

/// Every character of the text is a decimal digit.
pub open spec fn all_digits(s: Seq<char>) -> bool {
    forall|i: int| 0 <= i < s.len() ==> is_digit(#[trigger] s[i])
}

/// The value of a digit string read in base ten.
pub open spec fn dec_val(s: Seq<char>) -> nat
    decreases s.len(),
{
    if s.len() == 0 {
        0
    } else {
        dec_val(s.drop_last()) * 10 + digit_val(s.last())
    }
}

/// What parsing an unsigned decimal number returns: its value, where the
/// text is one or more digits and the value fits in a `u64`; nothing
/// otherwise.
pub open spec fn spec_parse_u64(s: Seq<char>) -> Option<u64> {
    if s.len() > 0 && all_digits(s) && dec_val(s) <= u64::MAX {
        Some(dec_val(s) as u64)
    } else {
        None
    }
}

/// The value of a digit string never shrinks when more digits follow: the
/// value of a prefix bounds the value of the whole from below.
proof fn lemma_dec_val_take_le(s: Seq<char>, i: int)
    requires
        0 <= i <= s.len(),
    ensures
        dec_val(s.take(i)) <= dec_val(s),
    decreases s.len() - i,
{
    if i == s.len() {
        assert(s.take(i) =~= s);
    } else {
        assert(s.take(i + 1).drop_last() =~= s.take(i));
        assert(s.take(i + 1).last() == s[i]);
        assert(dec_val(s.take(i + 1)) == dec_val(s.take(i)) * 10 + digit_val(s[i]));
        lemma_dec_val_take_le(s, i + 1);
    }
}

/// The value of one decimal digit character.
fn digit_value(c: char) -> (d: u64)
    requires
        is_digit(c),
    ensures
        d == digit_val(c),
{
    if c == '0' {
        0
    } else if c == '1' {
        1
    } else if c == '2' {
        2
    } else if c == '3' {
        3
    } else if c == '4' {
        4
    } else if c == '5' {
        5
    } else if c == '6' {
        6
    } else if c == '7' {
        7
    } else if c == '8' {
        8
    } else {
        9
    }
}

/// Parse an unsigned decimal number, rejecting empty text, any character
/// that is not a digit, and values that do not fit in a `u64`.
pub fn parse_u64(s: &str) -> (r: Option<u64>)
    ensures
        r == spec_parse_u64(s@),
{
    let n = s.unicode_len();
    if n == 0 {
        return None;
    }
    let mut acc: u64 = 0;
    let mut i: usize = 0;
    while i < n
        invariant
            n == s@.len(),
            0 < n,
            0 <= i <= n,
            all_digits(s@.take(i as int)),
            acc == dec_val(s@.take(i as int)),
        decreases n - i,
    {
        let c = s.get_char(i);
        if c < '0' || c > '9' {
            return None;
        }
        let d = digit_value(c);
        proof {
            assert(s@.take(i + 1).drop_last() =~= s@.take(i as int));
            assert(s@.take(i + 1).last() == s@[i as int]);
        }
        let q: u64 = 1844674407370955161;
        let rem: u64 = 5;
        if acc > q || (acc == q && d > rem) {
            proof {
                assert(dec_val(s@.take(i + 1)) == acc * 10 + d);
                assert(dec_val(s@.take(i + 1)) > u64::MAX);
                lemma_dec_val_take_le(s@, i + 1);
            }
            return None;
        }
        acc = acc * 10 + d;
        i += 1;
    }
    proof {
        assert(s@.take(n as int) =~= s@);
    }
    Some(acc)
}

/// Character-by-character string equality, stated over the views.
pub fn str_eq(a: &str, b: &str) -> (r: bool)
    ensures
        r == (a@ == b@),
{
    let n = a.unicode_len();
    if n != b.unicode_len() {
        return false;
    }
    let mut i: usize = 0;
    while i < n
        invariant
            n == a@.len(),
            n == b@.len(),
            0 <= i <= n,
            forall|j: int| 0 <= j < i ==> a@[j] == b@[j],
        decreases n - i,
    {
        if a.get_char(i) != b.get_char(i) {
            return false;
        }
        i += 1;
    }
    proof {
        assert(a@ =~= b@);
    }
    true
}

} // verus!
