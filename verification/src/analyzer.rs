//! The packet analysis pipeline: length pre-check, Ethernet and IP
//! decoding, the firewall consultation, and the IPv6 post-firewall guard.
//!
//! The guard rejecting IPv6 frames stands after the firewall check and
//! holds regardless of the firewall's disposition.

use vstd::prelude::*;

use crate::clock::now_micros;
use crate::ethernet::{parse_ethernet_header, spec_u16_be};
use crate::firewall::FirewallPacket;
use crate::firewall_service::FirewallService;
use crate::ip::{parse_ip_packet, spec_parse_ip_packet};
use crate::types::{EtherType, InetAddr, IpAddress, PacketData, PacketModel};

verus! {

broadcast use vstd::array::group_array_axioms;

/// The outcome of analysing one captured frame: a record ready for the
/// buffer, or a rejection (too short, unknown IP version, truncated
/// header, firewall deny, or IPv6).
pub enum AnalyzeResult {
    Accept(PacketData),
    Reject,
}

pub struct PacketAnalyzer {}

/// Whether `fp` is the firewall projection of `frame`: MAC addresses and
/// EtherType from the Ethernet header, addresses, protocol and ports
/// from the IP and transport decode, and the IP version from the source
/// address family.  No projection exists for frames the parser rejects.
pub open spec fn spec_is_frame_packet(fp: FirewallPacket, frame: Seq<u8>) -> bool {
    match spec_parse_ip_packet(frame, spec_u16_be(frame[12], frame[13])) {
        Some(t) => {
            &&& fp.src_mac.0@ == frame.subrange(6, 12)
            &&& fp.dst_mac.0@ == frame.subrange(0, 6)
            &&& fp.ether_type.0 == spec_u16_be(frame[12], frame[13])
            &&& fp.src_ip@ == t.0
            &&& fp.dst_ip@ == t.1
            &&& fp.ip_version == fp.src_ip.spec_version()
            &&& fp.ip_protocol.0 == t.2
            &&& fp.src_port == t.3
            &&& fp.dst_port == t.4
        },
        None => false,
    }
}

/// A frame determines its firewall projection completely.
pub proof fn lemma_frame_packet_unique(a: FirewallPacket, b: FirewallPacket, frame: Seq<u8>)
    requires
        spec_is_frame_packet(a, frame),
        spec_is_frame_packet(b, frame),
    ensures
        a == b,
{
    assert(a.src_mac.0 =~= b.src_mac.0);
    assert(a.dst_mac.0 =~= b.dst_mac.0);
    lemma_ip_view_unique(a.src_ip, b.src_ip);
    lemma_ip_view_unique(a.dst_ip, b.dst_ip);
}

/// Two addresses with the same octet view are the same address: the
/// octet count separates the families.
pub proof fn lemma_ip_view_unique(a: IpAddress, b: IpAddress)
    requires
        a@ == b@,
    ensures
        a == b,
{
    match (a, b) {
        (IpAddress::V4(x), IpAddress::V4(y)) => {
            assert(x =~= y);
        },
        (IpAddress::V6(x), IpAddress::V6(y)) => {
            assert(x =~= y);
        },
        (IpAddress::V4(x), IpAddress::V6(y)) => {
            assert(x@.len() == 4);
            assert(y@.len() == 16);
        },
        (IpAddress::V6(x), IpAddress::V4(y)) => {
            assert(x@.len() == 16);
            assert(y@.len() == 4);
        },
    }
}

/// The accepted record carries the projection's fields, the raw frame,
/// and the capture timestamp.
pub open spec fn spec_accept_fields(m: PacketModel, fp: FirewallPacket, frame: Seq<u8>) -> bool {
    &&& m.src_mac == fp.src_mac
    &&& m.dst_mac == fp.dst_mac
    &&& m.ether_type == fp.ether_type
    &&& m.src_ip == fp.src_ip
    &&& m.dst_ip == fp.dst_ip
    &&& m.src_port == fp.src_port as i32
    &&& m.dst_port == fp.dst_port as i32
    &&& m.ip_protocol == fp.ip_protocol
    &&& m.raw == frame
}

/// How the analysis must decide once the parser has produced the
/// projection `fp`: a firewall deny rejects, an IPv6 frame is rejected
/// after the firewall ran, everything else is accepted with the
/// projection's fields.
pub open spec fn spec_analysis_ok(
    service: FirewallService,
    frame: Seq<u8>,
    fp: FirewallPacket,
    r: AnalyzeResult,
) -> bool {
    &&& (!service.spec_check(fp) ==> r is Reject)
    &&& ((service.spec_check(fp) && spec_u16_be(frame[12], frame[13]) == EtherType::IP_V6)
        ==> r is Reject)
    &&& ((service.spec_check(fp) && spec_u16_be(frame[12], frame[13]) != EtherType::IP_V6) ==> (
    r matches AnalyzeResult::Accept(pd) && spec_accept_fields(pd@, fp, frame)))
}

/// The record invariant: a non-zero protocol number only ever comes
/// from an IP frame, since every other EtherType leaves protocol and
/// ports zero.
pub proof fn lemma_accepted_record_invariant(fp: FirewallPacket, frame: Seq<u8>)
    requires
        spec_is_frame_packet(fp, frame),
    ensures
        fp.ip_protocol.0 != 0 ==> (fp.ether_type.0 == EtherType::IP_V4 || fp.ether_type.0
            == EtherType::IP_V6),
        (fp.src_port != 0 || fp.dst_port != 0) ==> (fp.ether_type.0 == EtherType::IP_V4
            || fp.ether_type.0 == EtherType::IP_V6),
{
}

/// A byte-for-byte copy of a slice.
pub fn slice_to_vec(data: &[u8]) -> (r: Vec<u8>)
    ensures
        r@ == data@,
{
    let mut out: Vec<u8> = Vec::new();
    let mut i: usize = 0;
    while i < data.len()
        invariant
            i <= data@.len(),
            out@ == data@.subrange(0, i as int),
        decreases data@.len() - i,
    {
        out.push(data[i]);
        proof {
            assert(data@.subrange(0, i + 1 as int) =~= data@.subrange(0, i as int).push(
                data@[i as int],
            ));
        }
        i = i + 1;
    }
    proof {
        assert(data@.subrange(0, data@.len() as int) =~= data@);
    }
    out
}

impl PacketAnalyzer {
    /// Analyses one captured frame against the firewall, stamping the
    /// accepted record with the given capture time.
    pub fn analyze_packet_at(
        firewall: &FirewallService,
        ethernet_frame: &[u8],
        timestamp_micros: i64,
    ) -> (r: AnalyzeResult)
        ensures
            ethernet_frame@.len() < 34 ==> r is Reject,
            (ethernet_frame@.len() >= 34 && spec_parse_ip_packet(
                ethernet_frame@,
                spec_u16_be(ethernet_frame@[12], ethernet_frame@[13]),
            ) is None) ==> r is Reject,
            ethernet_frame@.len() >= 34 ==> (forall|fp: FirewallPacket|
                spec_is_frame_packet(fp, ethernet_frame@) ==> spec_analysis_ok(
                    *firewall,
                    ethernet_frame@,
                    fp,
                    r,
                )),
            r matches AnalyzeResult::Accept(pd) ==> pd@.timestamp_micros == timestamp_micros,
    {
        if ethernet_frame.len() < 14 + 20 {
            return AnalyzeResult::Reject;
        }

        let ethernet_header = match parse_ethernet_header(ethernet_frame) {
            Ok(result) => result,
            Err(_) => {
                return AnalyzeResult::Reject;
            },
        };

        let (src_ip, dst_ip, ip_protocol, src_port, dst_port, _flags) = match parse_ip_packet(
            ethernet_frame,
            ethernet_header.ether_type,
        ) {
            Ok(result) => result,
            Err(e) => {
                return e;
            },
        };

        let firewall_packet = FirewallPacket::from_packet(
            ethernet_header.src_mac,
            ethernet_header.dst_mac,
            ethernet_header.ether_type,
            src_ip,
            dst_ip,
            ip_protocol,
            src_port,
            dst_port,
        );
        proof {
            assert(spec_is_frame_packet(firewall_packet, ethernet_frame@));
        }

        let allowed = firewall.check_packet(&firewall_packet);

        if !allowed {
            proof {
                assert forall|fp: FirewallPacket|
                    spec_is_frame_packet(fp, ethernet_frame@) implies fp
                    == firewall_packet by {
                    lemma_frame_packet_unique(fp, firewall_packet, ethernet_frame@);
                }
            }
            return AnalyzeResult::Reject;
        }

        if ethernet_header.ether_type.value() == EtherType::IP_V6 {
            proof {
                assert forall|fp: FirewallPacket|
                    spec_is_frame_packet(fp, ethernet_frame@) implies fp
                    == firewall_packet by {
                    lemma_frame_packet_unique(fp, firewall_packet, ethernet_frame@);
                }
            }
            return AnalyzeResult::Reject;
        }

        let raw_packet = slice_to_vec(ethernet_frame);
        let r = AnalyzeResult::Accept(
            PacketData {
                src_mac: ethernet_header.src_mac,
                dst_mac: ethernet_header.dst_mac,
                ether_type: ethernet_header.ether_type,
                src_ip: InetAddr(src_ip),
                dst_ip: InetAddr(dst_ip),
                src_port: src_port as i32,
                dst_port: dst_port as i32,
                ip_protocol,
                timestamp_micros,
                raw_packet,
            },
        );
        proof {
            assert forall|fp: FirewallPacket|
                spec_is_frame_packet(fp, ethernet_frame@) implies fp == firewall_packet by {
                lemma_frame_packet_unique(fp, firewall_packet, ethernet_frame@);
            }
        }
        r
    }

    /// Analyses one captured frame, stamping accepted records with the
    /// current time.
    pub fn analyze_packet(firewall: &FirewallService, ethernet_frame: &[u8]) -> (r: AnalyzeResult)
        ensures
            ethernet_frame@.len() < 34 ==> r is Reject,
            (ethernet_frame@.len() >= 34 && spec_parse_ip_packet(
                ethernet_frame@,
                spec_u16_be(ethernet_frame@[12], ethernet_frame@[13]),
            ) is None) ==> r is Reject,
            ethernet_frame@.len() >= 34 ==> (forall|fp: FirewallPacket|
                spec_is_frame_packet(fp, ethernet_frame@) ==> spec_analysis_ok(
                    *firewall,
                    ethernet_frame@,
                    fp,
                    r,
                )),
    {
        let timestamp_micros = now_micros();
        Self::analyze_packet_at(firewall, ethernet_frame, timestamp_micros)
    }
}

} // verus!
