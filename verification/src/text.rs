//! Verified text helpers: string equality, ASCII lowercase folding, and
//! bounded decimal and hexadecimal parsing for configuration values.

use vstd::prelude::*;

verus! {

/// Exact equality of two strings' characters.
pub fn str_eq(a: &str, b: &str) -> (r: bool)
    ensures
        r == (a@ == b@),
{
    let la = a.unicode_len();
    let lb = b.unicode_len();
    if la != lb {
        proof {
            assert(a@.len() != b@.len());
        }
        return false;
    }
    let mut i: usize = 0;
    while i < la
        invariant
            la == a@.len(),
            a@.len() == b@.len(),
            i <= la,
            forall|j: int| 0 <= j < i ==> a@[j] == b@[j],
        decreases la - i,
    {
        if a.get_char(i) != b.get_char(i) {
            proof {
                assert(a@[i as int] != b@[i as int]);
            }
            return false;
        }
        i = i + 1;
    }
    proof {
        assert(a@ =~= b@);
    }
    true
}

/// ASCII lowercase folding of one character; anything outside `A`–`Z`
/// is untouched.
pub open spec fn spec_to_lower_char(c: char) -> char {
    if 'A' <= c <= 'Z' {
        (((c as u8) + 32) as u8) as char
    } else {
        c
    }
}

/// ASCII lowercase folding of a string.
pub open spec fn spec_to_lower(s: Seq<char>) -> Seq<char> {
    s.map_values(|c: char| spec_to_lower_char(c))
}

/// Whether two strings agree after ASCII lowercase folding.
pub fn eq_ignore_ascii_case(a: &str, b: &str) -> (r: bool)
    ensures
        r == (spec_to_lower(a@) == spec_to_lower(b@)),
{
    let la = a.unicode_len();
    let lb = b.unicode_len();
    if la != lb {
        proof {
            assert(spec_to_lower(a@).len() != spec_to_lower(b@).len());
        }
        return false;
    }
    let mut i: usize = 0;
    while i < la
        invariant
            la == a@.len(),
            a@.len() == b@.len(),
            i <= la,
            forall|j: int|
                0 <= j < i ==> spec_to_lower_char(a@[j]) == spec_to_lower_char(b@[j]),
        decreases la - i,
    {
        let ca = to_lower_char(a.get_char(i));
        let cb = to_lower_char(b.get_char(i));
        if ca != cb {
            proof {
                assert(spec_to_lower(a@)[i as int] != spec_to_lower(b@)[i as int]);
            }
            return false;
        }
        i = i + 1;
    }
    proof {
        assert(spec_to_lower(a@) =~= spec_to_lower(b@));
    }
    true
}

/// ASCII lowercase folding of one character.
pub fn to_lower_char(c: char) -> (r: char)
    ensures
        r == spec_to_lower_char(c),
{
    if c >= 'A' && c <= 'Z' {
        ((c as u8) + 32) as char
    } else {
        c
    }
}

pub open spec fn spec_is_digit(c: char) -> bool {
    '0' <= c <= '9'
}

/// The value of a decimal digit string, most significant first.
pub open spec fn spec_dec_value(s: Seq<char>) -> int
    decreases s.len(),
{
    if s.len() == 0 {
        0
    } else {
        spec_dec_value(s.drop_last()) * 10 + (s.last() as int - '0' as int)
    }
}

pub proof fn lemma_dec_value_nonneg(s: Seq<char>)
    requires
        forall|i: int| 0 <= i < s.len() ==> spec_is_digit(#[trigger] s[i]),
    ensures
        spec_dec_value(s) >= 0,
    decreases s.len(),
{
    if s.len() > 0 {
        lemma_dec_value_nonneg(s.drop_last());
    }
}

pub open spec fn spec_all_digits(s: Seq<char>) -> bool {
    forall|i: int| 0 <= i < s.len() ==> spec_is_digit(#[trigger] s[i])
}

/// Decimal parsing of a 16-bit value: at least one digit, digits only,
/// in range.
pub open spec fn spec_parse_u16(s: Seq<char>) -> Option<u16> {
    if s.len() >= 1 && spec_all_digits(s) && spec_dec_value(s) <= 65535 {
        Some(spec_dec_value(s) as u16)
    } else {
        None
    }
}

/// Decimal parsing of an 8-bit value.
pub open spec fn spec_parse_u8(s: Seq<char>) -> Option<u8> {
    if s.len() >= 1 && spec_all_digits(s) && spec_dec_value(s) <= 255 {
        Some(spec_dec_value(s) as u8)
    } else {
        None
    }
}

/// Parses a decimal `u16`; see `spec_parse_u16`.
pub fn parse_u16(s: &str) -> (r: Option<u16>)
    ensures
        r == spec_parse_u16(s@),
{
    let n = s.unicode_len();
    if n == 0 {
        return None;
    }
    let mut acc: u32 = 0;
    let mut overflowed: bool = false;
    let mut i: usize = 0;
    while i < n
        invariant
            n == s@.len(),
            i <= n,
            forall|j: int| 0 <= j < i ==> spec_is_digit(#[trigger] s@[j]),
            !overflowed ==> acc == spec_dec_value(s@.subrange(0, i as int)) && acc <= 65535,
            overflowed ==> spec_dec_value(s@.subrange(0, i as int)) > 65535,
        decreases n - i,
    {
        let c = s.get_char(i);
        if !(c >= '0' && c <= '9') {
            proof {
                assert(!spec_is_digit(s@[i as int]));
            }
            return None;
        }
        let d: u32 = (c as u32) - ('0' as u32);
        proof {
            assert(s@.subrange(0, i + 1 as int).drop_last() =~= s@.subrange(0, i as int));
            assert(s@.subrange(0, i + 1 as int).last() == s@[i as int]);
            lemma_dec_value_nonneg(s@.subrange(0, i as int));
        }
        if !overflowed {
            let next: u32 = acc * 10 + d;
            if next > 65535 {
                overflowed = true;
            } else {
                acc = next;
            }
        } else {
            proof {
                lemma_dec_value_nonneg(s@.subrange(0, i as int));
            }
        }
        i = i + 1;
    }
    proof {
        assert(s@.subrange(0, n as int) =~= s@);
    }
    if overflowed {
        None
    } else {
        Some(acc as u16)
    }
}

/// Parses a decimal `u8`; see `spec_parse_u8`.
pub fn parse_u8(s: &str) -> (r: Option<u8>)
    ensures
        r == spec_parse_u8(s@),
{
    proof {
        if s@.len() >= 1 && spec_all_digits(s@) {
            lemma_dec_value_nonneg(s@);
        }
    }
    match parse_u16(s) {
        Some(v) => if v <= 255 {
            Some(v as u8)
        } else {
            None
        },
        None => None,
    }
}

pub open spec fn spec_is_hex_digit(c: char) -> bool {
    ('0' <= c <= '9') || ('a' <= c <= 'f') || ('A' <= c <= 'F')
}

pub open spec fn spec_hex_digit_value(c: char) -> int {
    if '0' <= c <= '9' {
        c as int - '0' as int
    } else if 'a' <= c <= 'f' {
        c as int - 'a' as int + 10
    } else {
        c as int - 'A' as int + 10
    }
}

/// The value of a hexadecimal digit string, most significant first.
pub open spec fn spec_hex_value(s: Seq<char>) -> int
    decreases s.len(),
{
    if s.len() == 0 {
        0
    } else {
        spec_hex_value(s.drop_last()) * 16 + spec_hex_digit_value(s.last())
    }
}

pub proof fn lemma_hex_value_nonneg(s: Seq<char>)
    requires
        forall|i: int| 0 <= i < s.len() ==> spec_is_hex_digit(#[trigger] s[i]),
    ensures
        spec_hex_value(s) >= 0,
    decreases s.len(),
{
    if s.len() > 0 {
        lemma_hex_value_nonneg(s.drop_last());
    }
}

pub open spec fn spec_all_hex_digits(s: Seq<char>) -> bool {
    forall|i: int| 0 <= i < s.len() ==> spec_is_hex_digit(#[trigger] s[i])
}

/// Hexadecimal parsing of a 16-bit value: at least one hex digit, hex
/// digits only, in range.
pub open spec fn spec_parse_hex_u16(s: Seq<char>) -> Option<u16> {
    if s.len() >= 1 && spec_all_hex_digits(s) && spec_hex_value(s) <= 65535 {
        Some(spec_hex_value(s) as u16)
    } else {
        None
    }
}

/// The value of one hexadecimal digit character.
pub fn hex_digit_value(c: char) -> (v: u8)
    requires
        spec_is_hex_digit(c),
    ensures
        v == spec_hex_digit_value(c),
        v < 16,
{
    if c >= '0' && c <= '9' {
        (c as u8) - ('0' as u8)
    } else if c >= 'a' && c <= 'f' {
        (c as u8) - ('a' as u8) + 10
    } else {
        (c as u8) - ('A' as u8) + 10
    }
}

/// Parses a hexadecimal `u16`; see `spec_parse_hex_u16`.
pub fn parse_hex_u16(s: &str) -> (r: Option<u16>)
    ensures
        r == spec_parse_hex_u16(s@),
{
    let n = s.unicode_len();
    if n == 0 {
        return None;
    }
    let mut acc: u32 = 0;
    let mut overflowed: bool = false;
    let mut i: usize = 0;
    while i < n
        invariant
            n == s@.len(),
            i <= n,
            forall|j: int| 0 <= j < i ==> spec_is_hex_digit(#[trigger] s@[j]),
            !overflowed ==> acc == spec_hex_value(s@.subrange(0, i as int)) && acc <= 65535,
            overflowed ==> spec_hex_value(s@.subrange(0, i as int)) > 65535,
        decreases n - i,
    {
        let c = s.get_char(i);
        if !((c >= '0' && c <= '9') || (c >= 'a' && c <= 'f') || (c >= 'A' && c <= 'F')) {
            proof {
                assert(!spec_is_hex_digit(s@[i as int]));
            }
            return None;
        }
        let d: u32 = hex_digit_value(c) as u32;
        proof {
            assert(s@.subrange(0, i + 1 as int).drop_last() =~= s@.subrange(0, i as int));
            assert(s@.subrange(0, i + 1 as int).last() == s@[i as int]);
            lemma_hex_value_nonneg(s@.subrange(0, i as int));
        }
        if !overflowed {
            let next: u32 = acc * 16 + d;
            if next > 65535 {
                overflowed = true;
            } else {
                acc = next;
            }
        } else {
            proof {
                lemma_hex_value_nonneg(s@.subrange(0, i as int));
            }
        }
        i = i + 1;
    }
    proof {
        assert(s@.subrange(0, n as int) =~= s@);
    }
    if overflowed {
        None
    } else {
        Some(acc as u16)
    }
}

} // verus!
