//! The storage adapter's parsing and assembly of firewall settings:
//! filter values arrive as text (IP literals, MAC addresses, port and
//! protocol numbers), rows carry a policy name each, and the result is
//! one consistent rule set.  The queries themselves run in the embedding
//! process, which hands the rows here.

use vstd::prelude::*;

use crate::errors::ServiceError;
use crate::firewall::{spec_any_match, spec_matches, Filter, FirewallPacket, IpFirewall, Policy};
use crate::text::{
    eq_ignore_ascii_case, parse_hex_u16, parse_u16, parse_u8, spec_dec_value, spec_hex_value,
    spec_is_digit, spec_is_hex_digit, spec_parse_hex_u16, spec_parse_u16, spec_parse_u8,
    spec_to_lower, str_eq, hex_digit_value, spec_hex_digit_value,
};
use crate::types::{IpAddress, MacAddr};

verus! {

broadcast use vstd::array::group_array_axioms;

pub struct DbService {}

/// The end of the run of decimal digits starting at `i`.
pub open spec fn spec_digit_end(s: Seq<char>, i: int) -> int
    decreases s.len() - i when 0 <= i <= s.len()
{
    if i < s.len() && spec_is_digit(s[i]) {
        spec_digit_end(s, i + 1)
    } else {
        i
    }
}

pub proof fn lemma_digit_end_bounds(s: Seq<char>, i: int)
    requires
        0 <= i <= s.len(),
    ensures
        i <= spec_digit_end(s, i) <= s.len(),
    decreases s.len() - i,
{
    if i < s.len() && spec_is_digit(s[i]) {
        lemma_digit_end_bounds(s, i + 1);
    }
}

/// The end of the run of hexadecimal digits starting at `i`.
pub open spec fn spec_hex_end(s: Seq<char>, i: int) -> int
    decreases s.len() - i when 0 <= i <= s.len()
{
    if i < s.len() && spec_is_hex_digit(s[i]) {
        spec_hex_end(s, i + 1)
    } else {
        i
    }
}

pub proof fn lemma_hex_end_bounds(s: Seq<char>, i: int)
    requires
        0 <= i <= s.len(),
    ensures
        i <= spec_hex_end(s, i) <= s.len(),
    decreases s.len() - i,
{
    if i < s.len() && spec_is_hex_digit(s[i]) {
        lemma_hex_end_bounds(s, i + 1);
    }
}

/// Every character in a digit run is a digit.
pub proof fn lemma_digit_end_chars(s: Seq<char>, i: int)
    requires
        0 <= i <= s.len(),
    ensures
        forall|t: int| i <= t < spec_digit_end(s, i) ==> spec_is_digit(#[trigger] s[t]),
    decreases s.len() - i,
{
    if i < s.len() && spec_is_digit(s[i]) {
        lemma_digit_end_chars(s, i + 1);
        lemma_digit_end_bounds(s, i + 1);
    }
}

/// Every character in a hex run is a hex digit.
pub proof fn lemma_hex_end_chars(s: Seq<char>, i: int)
    requires
        0 <= i <= s.len(),
    ensures
        forall|t: int| i <= t < spec_hex_end(s, i) ==> spec_is_hex_digit(#[trigger] s[t]),
    decreases s.len() - i,
{
    if i < s.len() && spec_is_hex_digit(s[i]) {
        lemma_hex_end_chars(s, i + 1);
        lemma_hex_end_bounds(s, i + 1);
    }
}

/// A short decimal digit string is small: each digit multiplies the
/// bound by ten.
pub proof fn lemma_dec_value_small(s: Seq<char>)
    requires
        forall|t: int| 0 <= t < s.len() ==> spec_is_digit(#[trigger] s[t]),
    ensures
        s.len() == 0 ==> spec_dec_value(s) == 0,
        s.len() == 1 ==> spec_dec_value(s) < 10,
        s.len() == 2 ==> spec_dec_value(s) < 100,
        s.len() == 3 ==> spec_dec_value(s) < 1000,
    decreases s.len(),
{
    if s.len() > 0 {
        lemma_dec_value_small(s.drop_last());
    }
}

/// A short hex digit string is small: each digit multiplies the bound
/// by sixteen.
pub proof fn lemma_hex_value_small(s: Seq<char>)
    requires
        forall|t: int| 0 <= t < s.len() ==> spec_is_hex_digit(#[trigger] s[t]),
    ensures
        s.len() == 0 ==> spec_hex_value(s) == 0,
        s.len() == 1 ==> spec_hex_value(s) < 16,
        s.len() == 2 ==> spec_hex_value(s) < 256,
        s.len() == 3 ==> spec_hex_value(s) < 4096,
        s.len() == 4 ==> spec_hex_value(s) < 65536,
    decreases s.len(),
{
    if s.len() > 0 {
        lemma_hex_value_small(s.drop_last());
    }
}

/// One octet of a dotted quad starting at `i`: one to three digits, no
/// leading zero, value at most 255.  Yields the value and the position
/// after the digits.
pub open spec fn spec_parse_octet(s: Seq<char>, i: int) -> Option<(u8, int)>
    recommends
        0 <= i <= s.len(),
{
    let j = spec_digit_end(s, i);
    if j == i || j - i > 3 {
        None
    } else if j - i > 1 && s[i] == '0' {
        None
    } else {
        let v = spec_dec_value(s.subrange(i, j));
        if v <= 255 {
            Some((v as u8, j))
        } else {
            None
        }
    }
}

/// A dotted-quad IPv4 literal: four octets joined by dots, nothing
/// before or after.
pub open spec fn spec_parse_ipv4(s: Seq<char>) -> Option<Seq<u8>> {
    match spec_parse_octet(s, 0) {
        None => None,
        Some((b0, p0)) => if p0 < s.len() && s[p0] == '.' {
            match spec_parse_octet(s, p0 + 1) {
                None => None,
                Some((b1, p1)) => if p1 < s.len() && s[p1] == '.' {
                    match spec_parse_octet(s, p1 + 1) {
                        None => None,
                        Some((b2, p2)) => if p2 < s.len() && s[p2] == '.' {
                            match spec_parse_octet(s, p2 + 1) {
                                None => None,
                                Some((b3, p3)) => if p3 == s.len() {
                                    Some(seq![b0, b1, b2, b3])
                                } else {
                                    None
                                },
                            }
                        } else {
                            None
                        },
                    }
                } else {
                    None
                },
            }
        } else {
            None
        },
    }
}

/// One 16-bit group of an IPv6 literal starting at `i`: one to four hex
/// digits.  Yields the value and the position after the digits.
pub open spec fn spec_parse_group(s: Seq<char>, i: int) -> Option<(u16, int)>
    recommends
        0 <= i <= s.len(),
{
    let j = spec_hex_end(s, i);
    if j == i || j - i > 4 {
        None
    } else {
        let v = spec_hex_value(s.subrange(i, j));
        if v <= 65535 {
            Some((v as u16, j))
        } else {
            None
        }
    }
}

/// `n` colon-separated groups starting at `i`, as big-endian bytes,
/// with the position after the last group.
pub open spec fn spec_parse_groups(s: Seq<char>, i: int, n: nat) -> Option<(Seq<u8>, int)>
    recommends
        0 <= i <= s.len(),
    decreases n,
{
    if n == 0 {
        None
    } else {
        match spec_parse_group(s, i) {
            None => None,
            Some((v, j)) => {
                let hi = (v / 256) as u8;
                let lo = (v % 256) as u8;
                if n == 1 {
                    Some((seq![hi, lo], j))
                } else if j < s.len() && s[j] == ':' {
                    match spec_parse_groups(s, j + 1, (n - 1) as nat) {
                        None => None,
                        Some((rest, k)) => Some((seq![hi, lo] + rest, k)),
                    }
                } else {
                    None
                }
            },
        }
    }
}

/// An IPv6 literal in the uncompressed eight-group form, nothing before
/// or after.
pub open spec fn spec_parse_ipv6(s: Seq<char>) -> Option<Seq<u8>> {
    match spec_parse_groups(s, 0, 8) {
        None => None,
        Some((b, k)) => if k == s.len() {
            Some(b)
        } else {
            None
        },
    }
}

/// An IP literal: a dotted-quad IPv4 address or an uncompressed IPv6
/// address; the byte count carries the family.
pub open spec fn spec_parse_ip(s: Seq<char>) -> Option<Seq<u8>> {
    if spec_parse_ipv4(s) is Some {
        spec_parse_ipv4(s)
    } else {
        spec_parse_ipv6(s)
    }
}

/// A MAC address written as six two-digit hex groups joined by `:` or
/// `-` separators (the separators may be mixed).
pub open spec fn spec_parse_mac(s: Seq<char>) -> Option<Seq<u8>> {
    if s.len() == 17 && (forall|k: int|
        0 <= k < 17 && k % 3 == 2 ==> (#[trigger] s[k] == ':' || s[k] == '-')) && (forall|k: int|
        0 <= k < 17 && k % 3 != 2 ==> spec_is_hex_digit(#[trigger] s[k])) {
        Some(
            seq![
                (spec_hex_digit_value(s[0]) * 16 + spec_hex_digit_value(s[1])) as u8,
                (spec_hex_digit_value(s[3]) * 16 + spec_hex_digit_value(s[4])) as u8,
                (spec_hex_digit_value(s[6]) * 16 + spec_hex_digit_value(s[7])) as u8,
                (spec_hex_digit_value(s[9]) * 16 + spec_hex_digit_value(s[10])) as u8,
                (spec_hex_digit_value(s[12]) * 16 + spec_hex_digit_value(s[13])) as u8,
                (spec_hex_digit_value(s[15]) * 16 + spec_hex_digit_value(s[16])) as u8,
            ],
        )
    } else {
        None
    }
}

/// An EtherType filter value: `0x`-prefixed hexadecimal or plain
/// decimal.
pub open spec fn spec_parse_ethertype(s: Seq<char>) -> Option<u16> {
    if s.len() >= 2 && s[0] == '0' && s[1] == 'x' {
        spec_parse_hex_u16(s.skip(2))
    } else {
        spec_parse_u16(s)
    }
}

/// The end of the run of decimal digits starting at `i`.
fn digit_end(s: &str, i: usize) -> (j: usize)
    requires
        i <= s@.len(),
    ensures
        j == spec_digit_end(s@, i as int),
        i <= j <= s@.len(),
    decreases s@.len() - i,
{
    if i < s.unicode_len() {
        let c = s.get_char(i);
        if c >= '0' && c <= '9' {
            return digit_end(s, i + 1);
        }
    }
    i
}

/// The end of the run of hexadecimal digits starting at `i`.
fn hex_end(s: &str, i: usize) -> (j: usize)
    requires
        i <= s@.len(),
    ensures
        j == spec_hex_end(s@, i as int),
        i <= j <= s@.len(),
    decreases s@.len() - i,
{
    if i < s.unicode_len() {
        let c = s.get_char(i);
        if (c >= '0' && c <= '9') || (c >= 'a' && c <= 'f') || (c >= 'A' && c <= 'F') {
            return hex_end(s, i + 1);
        }
    }
    i
}

/// Parses one dotted-quad octet at `i`; see `spec_parse_octet`.
fn parse_octet(s: &str, i: usize) -> (r: Option<(u8, usize)>)
    requires
        i <= s@.len(),
    ensures
        spec_parse_octet(s@, i as int) is None ==> r is None,
        spec_parse_octet(s@, i as int) matches Some(t) ==> (r matches Some(e) && e.0 == t.0
            && e.1 == t.1),
{
    let j = digit_end(s, i);
    if j == i || j - i > 3 {
        return None;
    }
    if j - i > 1 && s.get_char(i) == '0' {
        return None;
    }
    proof {
        lemma_digit_end_chars(s@, i as int);
    }
    let mut v: u32 = 0;
    let mut k: usize = i;
    while k < j
        invariant
            i <= k <= j <= s@.len(),
            j - i <= 3,
            forall|t: int| i <= t < j ==> spec_is_digit(#[trigger] s@[t]),
            v == spec_dec_value(s@.subrange(i as int, k as int)),
            v < 1000,
        decreases j - k,
    {
        let c = s.get_char(k);
        proof {
            assert(spec_is_digit(s@[k as int]));
            assert(s@.subrange(i as int, k + 1 as int).drop_last() =~= s@.subrange(
                i as int,
                k as int,
            ));
            assert(s@.subrange(i as int, k + 1 as int).last() == s@[k as int]);
            crate::text::lemma_dec_value_nonneg(s@.subrange(i as int, k as int));
            lemma_dec_value_small(s@.subrange(i as int, k as int));
            lemma_dec_value_small(s@.subrange(i as int, k + 1 as int));
        }
        v = v * 10 + ((c as u32) - ('0' as u32));
        k = k + 1;
    }
    proof {
        crate::text::lemma_dec_value_nonneg(s@.subrange(i as int, j as int));
    }
    if v <= 255 {
        Some((v as u8, j))
    } else {
        None
    }
}

/// Parses one IPv6 group at `i`; see `spec_parse_group`.
fn parse_group(s: &str, i: usize) -> (r: Option<(u16, usize)>)
    requires
        i <= s@.len(),
    ensures
        spec_parse_group(s@, i as int) is None ==> r is None,
        spec_parse_group(s@, i as int) matches Some(t) ==> (r matches Some(e) && e.0 == t.0
            && e.1 == t.1),
{
    let j = hex_end(s, i);
    if j == i || j - i > 4 {
        return None;
    }
    proof {
        lemma_hex_end_chars(s@, i as int);
    }
    let mut v: u32 = 0;
    let mut k: usize = i;
    while k < j
        invariant
            i <= k <= j <= s@.len(),
            j - i <= 4,
            forall|t: int| i <= t < j ==> spec_is_hex_digit(#[trigger] s@[t]),
            v == spec_hex_value(s@.subrange(i as int, k as int)),
            v < 65536,
        decreases j - k,
    {
        let c = s.get_char(k);
        proof {
            assert(spec_is_hex_digit(s@[k as int]));
            assert(s@.subrange(i as int, k + 1 as int).drop_last() =~= s@.subrange(
                i as int,
                k as int,
            ));
            assert(s@.subrange(i as int, k + 1 as int).last() == s@[k as int]);
            crate::text::lemma_hex_value_nonneg(s@.subrange(i as int, k as int));
            lemma_hex_value_small(s@.subrange(i as int, k as int));
            lemma_hex_value_small(s@.subrange(i as int, k + 1 as int));
        }
        v = v * 16 + (hex_digit_value(c) as u32);
        k = k + 1;
    }
    proof {
        crate::text::lemma_hex_value_nonneg(s@.subrange(i as int, j as int));
    }
    if v <= 65535 {
        Some((v as u16, j))
    } else {
        None
    }
}

/// Parses `n` colon-separated IPv6 groups at `i`; see
/// `spec_parse_groups`.
fn parse_groups(s: &str, i: usize, n: usize) -> (r: Option<(Vec<u8>, usize)>)
    requires
        i <= s@.len(),
        n >= 1,
    ensures
        spec_parse_groups(s@, i as int, n as nat) is None ==> r is None,
        spec_parse_groups(s@, i as int, n as nat) matches Some(t) ==> (r matches Some(e)
            && e.0@ == t.0 && e.1 == t.1),
    decreases n,
{
    let (v, j) = match parse_group(s, i) {
        Some(e) => e,
        None => {
            return None;
        },
    };
    let hi: u8 = (v / 256) as u8;
    let lo: u8 = (v % 256) as u8;
    if n == 1 {
        let mut out: Vec<u8> = Vec::new();
        out.push(hi);
        out.push(lo);
        proof {
            assert(out@ =~= seq![hi, lo]);
        }
        return Some((out, j));
    }
    if j < s.unicode_len() && s.get_char(j) == ':' {
        match parse_groups(s, j + 1, n - 1) {
            Some((mut rest, k)) => {
                let mut out: Vec<u8> = Vec::new();
                out.push(hi);
                out.push(lo);
                out.append(&mut rest);
                proof {
                    assert(out@ =~= seq![hi, lo] + (
                    spec_parse_groups(s@, j + 1 as int, (n - 1) as nat)->Some_0).0);
                }
                Some((out, k))
            },
            None => None,
        }
    } else {
        None
    }
}

/// Parses a dotted-quad IPv4 literal; see `spec_parse_ipv4`.
fn parse_ipv4_literal(s: &str) -> (r: Option<IpAddress>)
    ensures
        spec_parse_ipv4(s@) is None ==> r is None,
        spec_parse_ipv4(s@) matches Some(b) ==> (r matches Some(a) && a is V4 && a@ == b),
{
    let (b0, p0) = match parse_octet(s, 0) {
        Some(e) => e,
        None => {
            return None;
        },
    };
    if !(p0 < s.unicode_len() && s.get_char(p0) == '.') {
        return None;
    }
    let (b1, p1) = match parse_octet(s, p0 + 1) {
        Some(e) => e,
        None => {
            return None;
        },
    };
    if !(p1 < s.unicode_len() && s.get_char(p1) == '.') {
        return None;
    }
    let (b2, p2) = match parse_octet(s, p1 + 1) {
        Some(e) => e,
        None => {
            return None;
        },
    };
    if !(p2 < s.unicode_len() && s.get_char(p2) == '.') {
        return None;
    }
    let (b3, p3) = match parse_octet(s, p2 + 1) {
        Some(e) => e,
        None => {
            return None;
        },
    };
    if p3 != s.unicode_len() {
        return None;
    }
    let a = IpAddress::V4([b0, b1, b2, b3]);
    proof {
        assert(a@ =~= seq![b0, b1, b2, b3]);
    }
    Some(a)
}

/// Parses an uncompressed IPv6 literal; see `spec_parse_ipv6`.
fn parse_ipv6_literal(s: &str) -> (r: Option<IpAddress>)
    ensures
        spec_parse_ipv6(s@) is None ==> r is None,
        spec_parse_ipv6(s@) matches Some(b) ==> (r matches Some(a) && a is V6 && a@ == b),
{
    match parse_groups(s, 0, 8) {
        Some((bytes, k)) => {
            if k != s.unicode_len() {
                return None;
            }
            proof {
                assert(bytes@.len() == 16) by {
                    lemma_groups_len(s@, 0, 8);
                }
            }
            let a = IpAddress::V6(
                [
                    bytes[0],
                    bytes[1],
                    bytes[2],
                    bytes[3],
                    bytes[4],
                    bytes[5],
                    bytes[6],
                    bytes[7],
                    bytes[8],
                    bytes[9],
                    bytes[10],
                    bytes[11],
                    bytes[12],
                    bytes[13],
                    bytes[14],
                    bytes[15],
                ],
            );
            proof {
                assert(a@ =~= bytes@);
            }
            Some(a)
        },
        None => None,
    }
}

/// A successful group parse yields two bytes per group.
pub proof fn lemma_groups_len(s: Seq<char>, i: int, n: nat)
    requires
        spec_parse_groups(s, i, n) is Some,
    ensures
        (spec_parse_groups(s, i, n)->Some_0).0.len() == 2 * n,
    decreases n,
{
    if n > 1 {
        let j = (spec_parse_group(s, i)->Some_0).1;
        if j < s.len() && s[j] == ':' {
            lemma_groups_len(s, j + 1, (n - 1) as nat);
        }
    }
}

/// Parses an IP literal of either family; see `spec_parse_ip`.
pub fn parse_ip_literal(s: &str) -> (r: Option<IpAddress>)
    ensures
        spec_parse_ip(s@) is None ==> r is None,
        spec_parse_ip(s@) matches Some(b) ==> (r matches Some(a) && a@ == b),
{
    match parse_ipv4_literal(s) {
        Some(a) => Some(a),
        None => parse_ipv6_literal(s),
    }
}

impl DbService {
    /// Parses a MAC address filter value; see `spec_parse_mac`.
    pub fn parse_mac_address(mac_str: &str) -> (r: Option<MacAddr>)
        ensures
            spec_parse_mac(mac_str@) is None ==> r is None,
            spec_parse_mac(mac_str@) matches Some(b) ==> (r matches Some(m) && m.0@ == b),
    {
        if mac_str.unicode_len() != 17 {
            return None;
        }
        let mut bytes: Vec<u8> = Vec::new();
        let mut g: usize = 0;
        while g < 6
            invariant
                mac_str@.len() == 17,
                g <= 6,
                bytes@.len() == g,
                forall|k: int|
                    0 <= k < 3 * g && k < 17 && k % 3 == 2 ==> (#[trigger] mac_str@[k] == ':'
                        || mac_str@[k] == '-'),
                forall|k: int|
                    0 <= k < 3 * g && k % 3 != 2 ==> spec_is_hex_digit(#[trigger] mac_str@[k]),
                forall|k: int|
                    0 <= k < g ==> #[trigger] bytes@[k] == (spec_hex_digit_value(
                        mac_str@[3 * k],
                    ) * 16 + spec_hex_digit_value(mac_str@[3 * k + 1])) as u8,
            decreases 6 - g,
        {
            let c1 = mac_str.get_char(3 * g);
            let c2 = mac_str.get_char(3 * g + 1);
            let hex1 = (c1 >= '0' && c1 <= '9') || (c1 >= 'a' && c1 <= 'f') || (c1 >= 'A' && c1
                <= 'F');
            let hex2 = (c2 >= '0' && c2 <= '9') || (c2 >= 'a' && c2 <= 'f') || (c2 >= 'A' && c2
                <= 'F');
            if !hex1 || !hex2 {
                return None;
            }
            if g < 5 {
                let sep = mac_str.get_char(3 * g + 2);
                if sep != ':' && sep != '-' {
                    return None;
                }
            }
            let b: u8 = hex_digit_value(c1) * 16 + hex_digit_value(c2);
            bytes.push(b);
            g = g + 1;
        }
        let m = MacAddr([bytes[0], bytes[1], bytes[2], bytes[3], bytes[4], bytes[5]]);
        proof {
            let b = spec_parse_mac(mac_str@)->Some_0;
            assert(m.0@ =~= b);
        }
        Some(m)
    }
}

/// One row of `firewall_settings` as text.
#[derive(Debug)]
pub struct FirewallSettingRow {
    pub policy: String,
    pub filter_type: String,
    pub filter_value: String,
    pub priority: i16,
}

/// The policy a row names, case-folded; anything else is unknown and
/// skipped.
pub open spec fn spec_policy_of(s: Seq<char>) -> Option<Policy> {
    if spec_to_lower(s) == "whitelist"@ {
        Some(Policy::Whitelist)
    } else if spec_to_lower(s) == "blacklist"@ {
        Some(Policy::Blacklist)
    } else {
        None
    }
}

/// Parses a policy name; see `spec_policy_of`.
pub fn policy_of(s: &str) -> (r: Option<Policy>)
    ensures
        r == spec_policy_of(s@),
{
    proof {
        reveal_strlit("whitelist");
        reveal_strlit("blacklist");
        assert("whitelist"@.len() == 9);
        assert("blacklist"@.len() == 9);
        assert("whitelist"@[0] == 'w');
        assert("blacklist"@[0] == 'b');
        assert(spec_to_lower("whitelist"@) =~= "whitelist"@);
        assert(spec_to_lower("blacklist"@) =~= "blacklist"@);
    }
    if eq_ignore_ascii_case(s, "whitelist") {
        Some(Policy::Whitelist)
    } else if eq_ignore_ascii_case(s, "blacklist") {
        Some(Policy::Blacklist)
    } else {
        None
    }
}

/// Whether the filter a row describes matches a packet: the named field
/// equals the parsed value.  A row whose type or value does not parse
/// matches nothing.
pub open spec fn spec_row_match(ft: Seq<char>, fv: Seq<char>, p: FirewallPacket) -> bool {
    if ft == "SrcIpAddress"@ {
        match spec_parse_ip(fv) {
            Some(b) => p.src_ip@ == b,
            None => false,
        }
    } else if ft == "DstIpAddress"@ {
        match spec_parse_ip(fv) {
            Some(b) => p.dst_ip@ == b,
            None => false,
        }
    } else if ft == "SrcPort"@ {
        match spec_parse_u16(fv) {
            Some(v) => p.src_port == v,
            None => false,
        }
    } else if ft == "DstPort"@ {
        match spec_parse_u16(fv) {
            Some(v) => p.dst_port == v,
            None => false,
        }
    } else if ft == "EtherType"@ {
        match spec_parse_ethertype(fv) {
            Some(v) => p.ether_type.0 == v,
            None => false,
        }
    } else if ft == "IpProtocol"@ {
        match spec_parse_u8(fv) {
            Some(v) => p.ip_protocol.0 == v,
            None => false,
        }
    } else if ft == "SrcMacAddress"@ {
        match spec_parse_mac(fv) {
            Some(b) => p.src_mac.0@ == b,
            None => false,
        }
    } else if ft == "DstMacAddress"@ {
        match spec_parse_mac(fv) {
            Some(b) => p.dst_mac.0@ == b,
            None => false,
        }
    } else {
        false
    }
}

/// The first known policy at or after `i`, in row order.
pub open spec fn spec_first_policy_from(rows: Seq<FirewallSettingRow>, i: int) -> Option<Policy>
    decreases rows.len() - i when 0 <= i <= rows.len()
{
    if i >= rows.len() {
        None
    } else {
        match spec_policy_of(rows[i].policy@) {
            Some(p) => Some(p),
            None => spec_first_policy_from(rows, i + 1),
        }
    }
}

/// The policy the rule set runs under: the first known policy among the
/// rows, a whitelist when none names one.
pub open spec fn spec_resolved_policy(rows: Seq<FirewallSettingRow>) -> Policy {
    match spec_first_policy_from(rows, 0) {
        Some(p) => p,
        None => Policy::Whitelist,
    }
}

/// No two rows name different known policies.
pub open spec fn spec_policies_consistent(rows: Seq<FirewallSettingRow>) -> bool {
    forall|i: int, j: int|
        0 <= i < rows.len() && 0 <= j < rows.len() && #[trigger] spec_policy_of(
            rows[i].policy@,
        ) is Some && #[trigger] spec_policy_of(rows[j].policy@) is Some ==> spec_policy_of(
            rows[i].policy@,
        ) == spec_policy_of(rows[j].policy@)
}

/// Whether some row's filter matches the packet.
pub open spec fn spec_rows_match(rows: Seq<FirewallSettingRow>, p: FirewallPacket) -> bool {
    exists|j: int|
        0 <= j < rows.len() && #[trigger] spec_row_match(
            rows[j].filter_type@,
            rows[j].filter_value@,
            p,
        )
}

/// Rows before `i` never name a policy, so the first known policy of
/// the whole sequence is the first at or after `i`.
proof fn lemma_first_policy_skip(rows: Seq<FirewallSettingRow>, i: int)
    requires
        0 <= i <= rows.len(),
        forall|j: int| 0 <= j < i ==> spec_policy_of((#[trigger] rows[j]).policy@) is None,
    ensures
        spec_first_policy_from(rows, 0) == spec_first_policy_from(rows, i),
    decreases i,
{
    if i > 0 {
        lemma_first_policy_skip(rows, i - 1);
    }
}

impl DbService {
    /// Parses one stored filter row into the engine's filter.  The
    /// returned filter matches exactly the packets the row describes;
    /// an unknown filter type or an unparseable value yields nothing,
    /// and such a row matches nothing.
    pub fn parse_filter_rule(filter_type: &str, filter_value: &str) -> (r: Option<Filter>)
        ensures
            r matches Some(f) ==> (forall|p: FirewallPacket|
                spec_matches(f, p) == spec_row_match(filter_type@, filter_value@, p)),
            r is None ==> (forall|p: FirewallPacket|
                !spec_row_match(filter_type@, filter_value@, p)),
    {
        proof {
            reveal_strlit("SrcIpAddress");
            reveal_strlit("DstIpAddress");
            reveal_strlit("SrcPort");
            reveal_strlit("DstPort");
            reveal_strlit("EtherType");
            reveal_strlit("IpProtocol");
            reveal_strlit("SrcMacAddress");
            reveal_strlit("DstMacAddress");
            assert("SrcIpAddress"@.len() == 12);
            assert("DstIpAddress"@.len() == 12);
            assert("SrcPort"@.len() == 7);
            assert("DstPort"@.len() == 7);
            assert("EtherType"@.len() == 9);
            assert("IpProtocol"@.len() == 10);
            assert("SrcMacAddress"@.len() == 13);
            assert("DstMacAddress"@.len() == 13);
            assert("SrcIpAddress"@[0] == 'S');
            assert("DstIpAddress"@[0] == 'D');
            assert("SrcPort"@[0] == 'S');
            assert("DstPort"@[0] == 'D');
            assert("SrcMacAddress"@[0] == 'S');
            assert("DstMacAddress"@[0] == 'D');
        }
        if str_eq(filter_type, "SrcIpAddress") {
            match parse_ip_literal(filter_value) {
                Some(ip) => {
                    let f = Filter::SrcIpAddress(ip);
                    proof {
                        assert forall|p: FirewallPacket|
                            spec_matches(f, p) == spec_row_match(
                                filter_type@,
                                filter_value@,
                                p,
                            ) by {
                            if p.src_ip@ == ip@ {
                                crate::analyzer::lemma_ip_view_unique(p.src_ip, ip);
                            }
                        }
                    }
                    Some(f)
                },
                None => None,
            }
        } else if str_eq(filter_type, "DstIpAddress") {
            match parse_ip_literal(filter_value) {
                Some(ip) => {
                    let f = Filter::DstIpAddress(ip);
                    proof {
                        assert forall|p: FirewallPacket|
                            spec_matches(f, p) == spec_row_match(
                                filter_type@,
                                filter_value@,
                                p,
                            ) by {
                            if p.dst_ip@ == ip@ {
                                crate::analyzer::lemma_ip_view_unique(p.dst_ip, ip);
                            }
                        }
                    }
                    Some(f)
                },
                None => None,
            }
        } else if str_eq(filter_type, "SrcPort") {
            match parse_u16(filter_value) {
                Some(v) => Some(Filter::SrcPort(v)),
                None => None,
            }
        } else if str_eq(filter_type, "DstPort") {
            match parse_u16(filter_value) {
                Some(v) => Some(Filter::DstPort(v)),
                None => None,
            }
        } else if str_eq(filter_type, "EtherType") {
            let n = filter_value.unicode_len();
            let has_prefix = n >= 2 && filter_value.get_char(0) == '0' && filter_value.get_char(1)
                == 'x';
            let parsed: Option<u16> = if has_prefix {
                let rest = filter_value.substring_char(2, n);
                proof {
                    assert(rest@ =~= filter_value@.skip(2));
                }
                parse_hex_u16(rest)
            } else {
                parse_u16(filter_value)
            };
            match parsed {
                Some(v) => Some(Filter::EtherType(v)),
                None => None,
            }
        } else if str_eq(filter_type, "IpProtocol") {
            match parse_u8(filter_value) {
                Some(v) => Some(Filter::IpProtocol(v)),
                None => None,
            }
        } else if str_eq(filter_type, "SrcMacAddress") {
            match DbService::parse_mac_address(filter_value) {
                Some(m) => {
                    let f = Filter::SrcMacAddress(m);
                    proof {
                        assert forall|p: FirewallPacket|
                            spec_matches(f, p) == spec_row_match(
                                filter_type@,
                                filter_value@,
                                p,
                            ) by {
                            if p.src_mac.0@ == m.0@ {
                                assert(p.src_mac.0 =~= m.0);
                            }
                        }
                    }
                    Some(f)
                },
                None => None,
            }
        } else if str_eq(filter_type, "DstMacAddress") {
            match DbService::parse_mac_address(filter_value) {
                Some(m) => {
                    let f = Filter::DstMacAddress(m);
                    proof {
                        assert forall|p: FirewallPacket|
                            spec_matches(f, p) == spec_row_match(
                                filter_type@,
                                filter_value@,
                                p,
                            ) by {
                            if p.dst_mac.0@ == m.0@ {
                                assert(p.dst_mac.0 =~= m.0);
                            }
                        }
                    }
                    Some(f)
                },
                None => None,
            }
        } else {
            None
        }
    }

    /// Builds the firewall a set of stored rows describes: the single
    /// resolved policy and one rule per parseable row.  Rows that name
    /// two different known policies are inconsistent, and the whole
    /// load fails; unknown filter types and unparseable values are
    /// skipped.
    pub fn load_firewall_settings(rows: &Vec<FirewallSettingRow>) -> (r: Result<
        IpFirewall,
        ServiceError,
    >)
        ensures
            spec_policies_consistent(rows@) <==> r is Ok,
            r matches Err(e) ==> e is InconsistentPolicyError,
            r matches Ok(fw) ==> (fw.wf() && fw.spec_policy() == spec_resolved_policy(rows@) && (
            forall|p: FirewallPacket|
                spec_any_match(fw.rules(), p) == spec_rows_match(rows@, p))),
    {
        let mut policy = Policy::Whitelist;
        let mut found = false;
        let ghost mut first_idx: int = 0;

        let mut i: usize = 0;
        while i < rows.len()
            invariant
                i <= rows@.len(),
                !found ==> (forall|j: int|
                    0 <= j < i ==> spec_policy_of((#[trigger] rows@[j]).policy@) is None),
                !found ==> policy == Policy::Whitelist,
                found ==> 0 <= first_idx < i && spec_policy_of(rows@[first_idx].policy@)
                    == Some(policy),
                found ==> (forall|j: int|
                    0 <= j < first_idx ==> spec_policy_of((#[trigger] rows@[j]).policy@) is None),
                forall|j: int|
                    0 <= j < i && spec_policy_of((#[trigger] rows@[j]).policy@) is Some
                        ==> spec_policy_of(rows@[j].policy@) == Some(policy) && found,
            decreases rows@.len() - i,
        {
            match policy_of(rows[i].policy.as_str()) {
                Some(pol) => {
                    if !found {
                        policy = pol;
                        found = true;
                        proof {
                            first_idx = i as int;
                        }
                    } else if pol != policy {
                        proof {
                            assert(spec_policy_of(rows@[first_idx].policy@) == Some(policy));
                            assert(spec_policy_of(rows@[i as int].policy@) == Some(pol));
                            assert(!spec_policies_consistent(rows@));
                        }
                        return Err(ServiceError::InconsistentPolicyError(String::new()));
                    }
                },
                None => {},
            }
            i = i + 1;
        }

        proof {
            if found {
                lemma_first_policy_skip(rows@, first_idx);
                assert(spec_first_policy_from(rows@, first_idx) == Some(policy));
            } else {
                lemma_first_policy_skip(rows@, rows@.len() as int);
            }
            assert(spec_resolved_policy(rows@) == policy);
            assert(spec_policies_consistent(rows@));
        }

        let mut firewall = IpFirewall::new(policy);

        let mut k: usize = 0;
        while k < rows.len()
            invariant
                k <= rows@.len(),
                firewall.wf(),
                firewall.spec_policy() == policy,
                forall|p: FirewallPacket|
                    spec_any_match(#[trigger] firewall.rules(), p) == (exists|j: int|
                        0 <= j < k && #[trigger] spec_row_match(
                            rows@[j].filter_type@,
                            rows@[j].filter_value@,
                            p,
                        )),
            decreases rows@.len() - k,
        {
            let ghost rules_pre = firewall.rules();
            match DbService::parse_filter_rule(
                rows[k].filter_type.as_str(),
                rows[k].filter_value.as_str(),
            ) {
                Some(filter) => {
                    firewall.add_rule(filter, rows[k].priority as u8);
                    proof {
                        assert forall|p: FirewallPacket|
                            spec_any_match(#[trigger] firewall.rules(), p) == (exists|j: int|
                                0 <= j < k + 1 && #[trigger] spec_row_match(
                                    rows@[j].filter_type@,
                                    rows@[j].filter_value@,
                                    p,
                                )) by {
                            assert(spec_any_match(firewall.rules(), p) == (spec_any_match(
                                rules_pre,
                                p,
                            ) || spec_matches(filter, p)));
                            if spec_any_match(rules_pre, p) {
                                let j0 = choose|j: int|
                                    0 <= j < k && #[trigger] spec_row_match(
                                        rows@[j].filter_type@,
                                        rows@[j].filter_value@,
                                        p,
                                    );
                                assert(spec_row_match(
                                    rows@[j0].filter_type@,
                                    rows@[j0].filter_value@,
                                    p,
                                ));
                            }
                            if spec_matches(filter, p) {
                                assert(spec_row_match(
                                    rows@[k as int].filter_type@,
                                    rows@[k as int].filter_value@,
                                    p,
                                ));
                            }
                            if exists|j: int|
                                0 <= j < k + 1 && #[trigger] spec_row_match(
                                    rows@[j].filter_type@,
                                    rows@[j].filter_value@,
                                    p,
                                ) {
                                let j1 = choose|j: int|
                                    0 <= j < k + 1 && #[trigger] spec_row_match(
                                        rows@[j].filter_type@,
                                        rows@[j].filter_value@,
                                        p,
                                    );
                                if j1 < k {
                                    assert(spec_any_match(rules_pre, p));
                                } else {
                                    assert(spec_matches(filter, p));
                                }
                            }
                        }
                    }
                },
                None => {
                    proof {
                        assert forall|p: FirewallPacket|
                            spec_any_match(#[trigger] firewall.rules(), p) == (exists|j: int|
                                0 <= j < k + 1 && #[trigger] spec_row_match(
                                    rows@[j].filter_type@,
                                    rows@[j].filter_value@,
                                    p,
                                )) by {
                            if exists|j: int|
                                0 <= j < k + 1 && #[trigger] spec_row_match(
                                    rows@[j].filter_type@,
                                    rows@[j].filter_value@,
                                    p,
                                ) {
                                let j1 = choose|j: int|
                                    0 <= j < k + 1 && #[trigger] spec_row_match(
                                        rows@[j].filter_type@,
                                        rows@[j].filter_value@,
                                        p,
                                    );
                                assert(j1 < k);
                            }
                        }
                    }
                },
            }
            k = k + 1;
        }

        Ok(firewall)
    }
}


} // verus!
