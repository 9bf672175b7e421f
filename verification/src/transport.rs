//! Transport-layer decoding: port and flag extraction at a given header
//! offset, and the TCP checksum computation over the IPv4 pseudo-header.
//!
//! A checksum mismatch is never a rejection; the verification result is
//! surfaced to the caller, which may log it.

use vstd::prelude::*;

use crate::analyzer::AnalyzeResult;
use crate::ethernet::spec_u16_be;
use crate::ip::{parse_ip_header, spec_parse_ip_header};
use crate::types::{EtherType, IpAddress};

verus! {

#[derive(Debug)]
pub struct TransportHeader {
    pub src_port: u16,
    pub dst_port: u16,
    pub flags: u8,
}

/// The ports and flags byte read at `hl` bytes into an IP packet, when at
/// least fourteen bytes of transport header are present.
pub open spec fn spec_transport_ports(data: Seq<u8>, hl: nat) -> Option<(u16, u16, u8)> {
    if data.len() >= hl + 14 {
        Some(
            (
                spec_u16_be(data[hl as int], data[hl as int + 1]),
                spec_u16_be(data[hl as int + 2], data[hl as int + 3]),
                data[hl as int + 13],
            ),
        )
    } else {
        None
    }
}

/// One's-complement accumulation of big-endian 16-bit words, an odd final
/// byte padded with a zero low byte.
pub open spec fn spec_sum16(data: Seq<u8>) -> int
    decreases data.len(),
{
    if data.len() == 0 {
        0
    } else if data.len() == 1 {
        (data[0] as int) * 256
    } else {
        (data[0] as int) * 256 + (data[1] as int) + spec_sum16(data.skip(2))
    }
}

pub proof fn lemma_sum16_bound(data: Seq<u8>)
    ensures
        0 <= spec_sum16(data) <= (data.len() + 1) / 2 * 65535,
    decreases data.len(),
{
    if data.len() >= 2 {
        lemma_sum16_bound(data.skip(2));
    }
}

/// Folds the carries of a one's-complement sum until the high sixteen
/// bits are clear.
pub open spec fn spec_carry_fold(sum: u32) -> u32
    decreases sum,
    via spec_carry_fold_decreases
{
    if sum >> 16 == 0 {
        sum
    } else {
        spec_carry_fold(((sum & 0xFFFF) + (sum >> 16)) as u32)
    }
}

#[via_fn]
proof fn spec_carry_fold_decreases(sum: u32) {
    assert(sum >> 16 != 0 ==> (((sum & 0xFFFF) + (sum >> 16)) as u32) < sum) by (bit_vector);
}

/// The TCP pseudo-header for an IPv4 segment: source and destination
/// addresses, a zero byte, protocol six, and the big-endian segment length.
pub open spec fn spec_pseudo_header(src: Seq<u8>, dst: Seq<u8>, tcp_len: nat) -> Seq<u8> {
    src + dst + seq![0u8, 6u8, (tcp_len / 256) as u8, (tcp_len % 256) as u8]
}

/// The transport bytes with the checksum field zeroed.
pub open spec fn spec_zeroed_segment(t: Seq<u8>) -> Seq<u8> {
    t.update(16, 0u8).update(17, 0u8)
}

/// The checksum the sender should have written: the folded, inverted
/// one's-complement sum over pseudo-header and zeroed segment.
pub open spec fn spec_tcp_checksum(t: Seq<u8>, src: Seq<u8>, dst: Seq<u8>) -> u16
    recommends
        18 <= t.len() <= 65535,
{
    !spec_carry_fold(
        (spec_sum16(spec_pseudo_header(src, dst, t.len())) + spec_sum16(spec_zeroed_segment(t)))
            as u32,
    ) as u16
}

/// Sums the given bytes as big-endian 16-bit words into a 32-bit
/// accumulator; see `spec_sum16`.
pub fn calculate_checksum_sum(data: &[u8]) -> (sum: u32)
    requires
        data@.len() <= 65535,
    ensures
        sum == spec_sum16(data@),
{
    proof {
        lemma_sum16_bound(data@);
        assert(data@.skip(0) =~= data@);
    }
    let mut sum: u32 = 0;
    let mut i: usize = 0;
    while i + 2 <= data.len()
        invariant
            data@.len() <= 65535,
            i <= data@.len(),
            i % 2 == 0,
            sum == spec_sum16(data@) - spec_sum16(data@.skip(i as int)),
            sum <= (i as int) / 2 * 65535,
        decreases data@.len() - i,
    {
        proof {
            lemma_sum16_bound(data@.skip(i as int));
            lemma_sum16_bound(data@.skip(i + 2));
            assert(data@.skip(i as int).skip(2) =~= data@.skip(i + 2));
        }
        let word: u32 = (data[i] as u32) * 256 + (data[i + 1] as u32);
        sum = sum + word;
        i = i + 2;
    }
    if i < data.len() {
        proof {
            lemma_sum16_bound(data@.skip(i as int));
        }
        sum = sum + (data[i] as u32) * 256;
        proof {
            assert(data@.skip(i as int).len() == 1);
        }
    } else {
        proof {
            assert(data@.skip(i as int).len() == 0);
        }
    }
    sum
}

/// Runs the carry fold of `spec_carry_fold` on a 32-bit accumulator.
fn carry_fold(start: u32) -> (r: u32)
    ensures
        r == spec_carry_fold(start),
        r >> 16 == 0,
{
    let mut sum: u32 = start;
    while sum >> 16 != 0
        invariant
            spec_carry_fold(sum) == spec_carry_fold(start),
        decreases sum,
    {
        proof {
            assert((sum & 0xFFFF) + (sum >> 16) <= 0x1FFFE) by (bit_vector);
        }
        let folded: u32 = (sum & 0xFFFF) + (sum >> 16);
        proof {
            assert(sum >> 16 != 0 ==> folded < sum) by (bit_vector)
                requires
                    folded == (sum & 0xFFFF) + (sum >> 16),
            ;
            assert(folded == ((sum & 0xFFFF) + (sum >> 16)) as u32);
        }
        sum = folded;
    }
    sum
}

impl TransportHeader {
    /// Recomputes the TCP checksum over the IPv4 pseudo-header and the
    /// segment with its checksum field zeroed, and compares it with the
    /// checksum stored in the segment.  Addresses outside IPv4 are never
    /// valid here.
    pub fn verify_tcp_checksum(
        &self,
        transport_data: &[u8],
        src_ip: &IpAddress,
        dst_ip: &IpAddress,
    ) -> (r: bool)
        requires
            18 <= transport_data@.len() <= 65535,
        ensures
            (src_ip is V4 && dst_ip is V4) ==> r == (spec_u16_be(
                transport_data@[16],
                transport_data@[17],
            ) == spec_tcp_checksum(transport_data@, src_ip@, dst_ip@)),
            !(src_ip is V4 && dst_ip is V4) ==> r == false,
    {
        let packet_checksum: u16 = (transport_data[16] as u16) * 256 + (transport_data[17]
            as u16);

        let (s, d) = match (src_ip, dst_ip) {
            (IpAddress::V4(s), IpAddress::V4(d)) => (s, d),
            _ => {
                return false;
            },
        };

        let mut pseudo_header: Vec<u8> = Vec::new();
        pseudo_header.push(s[0]);
        pseudo_header.push(s[1]);
        pseudo_header.push(s[2]);
        pseudo_header.push(s[3]);
        pseudo_header.push(d[0]);
        pseudo_header.push(d[1]);
        pseudo_header.push(d[2]);
        pseudo_header.push(d[3]);
        pseudo_header.push(0);
        pseudo_header.push(6);
        let tcp_len: usize = transport_data.len();
        pseudo_header.push((tcp_len / 256) as u8);
        pseudo_header.push((tcp_len % 256) as u8);
        proof {
            assert(pseudo_header@ =~= spec_pseudo_header(src_ip@, dst_ip@, transport_data@.len()));
        }

        let mut zeroed: Vec<u8> = Vec::new();
        let mut j: usize = 0;
        while j < transport_data.len()
            invariant
                j <= transport_data@.len(),
                transport_data@.len() >= 18,
                zeroed@ == spec_zeroed_segment(transport_data@).subrange(0, j as int),
            decreases transport_data@.len() - j,
        {
            if j == 16 || j == 17 {
                zeroed.push(0);
            } else {
                zeroed.push(transport_data[j]);
            }
            proof {
                assert(spec_zeroed_segment(transport_data@).subrange(0, j + 1) =~= spec_zeroed_segment(
                    transport_data@,
                ).subrange(0, j as int).push(spec_zeroed_segment(transport_data@)[j as int]));
            }
            j = j + 1;
        }
        proof {
            assert(zeroed@ =~= spec_zeroed_segment(transport_data@));
        }

        let sum_pseudo: u32 = calculate_checksum_sum(pseudo_header.as_slice());
        let sum_segment: u32 = calculate_checksum_sum(zeroed.as_slice());
        proof {
            lemma_sum16_bound(pseudo_header@);
            lemma_sum16_bound(zeroed@);
        }
        let total: u32 = sum_pseudo + sum_segment;

        let folded: u32 = carry_fold(total);
        let calculated_checksum: u16 = !folded as u16;

        packet_checksum == calculated_checksum
    }
}

/// The checksum verdict for a whole captured frame: `Some` exactly for
/// an IPv4 TCP frame whose header parses and whose transport region
/// reaches the checksum field, carrying whether the stored checksum is
/// the recomputed one.
pub open spec fn spec_frame_checksum(frame: Seq<u8>) -> Option<bool> {
    if frame.len() < 34 {
        None
    } else if spec_u16_be(frame[12], frame[13]) != EtherType::IP_V4 {
        None
    } else {
        match spec_parse_ip_header(frame.skip(14)) {
            None => None,
            Some(m) => {
                if m.version == 4 && m.protocol == 6 && frame.len() >= 14 + m.header_length + 18 {
                    let t = frame.subrange(14 + m.header_length as int, frame.len() as int);
                    Some(spec_u16_be(t[16], t[17]) == spec_tcp_checksum(t, m.src, m.dst))
                } else {
                    None
                }
            },
        }
    }
}

/// Recomputes the TCP checksum of a captured frame where one is
/// present; see `spec_frame_checksum`.  The verdict is for the capture
/// log only — a mismatch never rejects a frame.
pub fn verify_frame_checksum(frame: &[u8]) -> (r: Option<bool>)
    requires
        frame@.len() <= 65549,
    ensures
        r == spec_frame_checksum(frame@),
{
    if frame.len() < 34 {
        return None;
    }
    let ether_type: u16 = (frame[12] as u16) * 256 + (frame[13] as u16);
    if ether_type != EtherType::IP_V4 {
        return None;
    }
    let ip_data: &[u8] = vstd::slice::slice_subrange(frame, 14, frame.len());
    proof {
        assert(ip_data@ =~= frame@.skip(14));
    }
    let header = match parse_ip_header(ip_data) {
        Ok(Some(h)) => h,
        _ => {
            return None;
        },
    };
    if !(header.version == 4 && header.ip_protocol.0 == 6 && frame.len() >= 14
        + header.header_length + 18) {
        return None;
    }
    let transport: &[u8] = vstd::slice::slice_subrange(
        frame,
        14 + header.header_length,
        frame.len(),
    );
    proof {
        assert(transport@ =~= frame@.subrange(
            14 + header.header_length as int,
            frame@.len() as int,
        ));
        if header.src_ip is V6 {
            assert(header.src_ip@.len() == 16);
        }
        if header.dst_ip is V6 {
            assert(header.dst_ip@.len() == 16);
        }
    }
    let header_fields = TransportHeader { src_port: 0, dst_port: 0, flags: 0 };
    let ok = header_fields.verify_tcp_checksum(transport, &header.src_ip, &header.dst_ip);
    Some(ok)
}

/// Reads ports and flags from the transport region that starts
/// `header_length` bytes into `data`.  Fails (and the caller then leaves
/// ports and flags zero) exactly when fewer than fourteen transport bytes
/// are present.
pub fn parse_transport_header(data: &[u8], header_length: usize) -> (r: Result<
    TransportHeader,
    AnalyzeResult,
>)
    ensures
        spec_transport_ports(data@, header_length as nat) is None ==> (r matches Err(e)
            && e is Reject),
        spec_transport_ports(data@, header_length as nat) matches Some(t) ==> (r matches Ok(h)
            && h.src_port == t.0 && h.dst_port == t.1 && h.flags == t.2),
{
    if data.len() < header_length || data.len() - header_length < 14 {
        return Err(AnalyzeResult::Reject);
    }

    let header = TransportHeader {
        src_port: (data[header_length] as u16) * 256 + (data[header_length + 1] as u16),
        dst_port: (data[header_length + 2] as u16) * 256 + (data[header_length + 3] as u16),
        flags: data[header_length + 13],
    };

    Ok(header)
}

} // verus!
