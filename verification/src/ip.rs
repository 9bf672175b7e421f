//! IP-layer decoding: version dispatch on the first nibble, IPv4 header
//! length handling, IPv6 fixed header, and the combined address/port
//! extraction used by the analyzer.

use vstd::prelude::*;

use crate::analyzer::AnalyzeResult;
use crate::transport::{parse_transport_header, spec_transport_ports};
use crate::types::{EtherType, IpAddress, IpProtocol};

verus! {

broadcast use vstd::array::group_array_axioms;

#[derive(Debug)]
pub struct IpHeader {
    /// 4 or 6, from the version nibble.
    pub version: u8,
    pub ip_protocol: IpProtocol,
    pub src_ip: IpAddress,
    pub dst_ip: IpAddress,
    /// Bytes from the start of the IP packet to the transport header.
    pub header_length: usize,
}

/// The model of a successfully decoded IP header.
pub struct IpHeaderModel {
    pub version: u8,
    pub protocol: u8,
    pub src: Seq<u8>,
    pub dst: Seq<u8>,
    pub header_length: nat,
}

/// The declared IPv4 header length: low nibble of the first byte, in
/// 32-bit words.
pub open spec fn spec_ihl(b0: u8) -> nat {
    ((b0 & 0x0F) as nat) * 4
}

/// Decodes the header of an IP packet (the bytes after the Ethernet
/// header).  IPv4 needs twenty bytes and as many as its declared header
/// length; IPv6 needs its fixed forty; any other version nibble fails.
pub open spec fn spec_parse_ip_header(data: Seq<u8>) -> Option<IpHeaderModel>
    recommends
        data.len() >= 1,
{
    let version = data[0] >> 4;
    if version == 4 {
        if data.len() < 20 || data.len() < spec_ihl(data[0]) {
            None
        } else {
            Some(
                IpHeaderModel {
                    version: 4,
                    protocol: data[9],
                    src: data.subrange(12, 16),
                    dst: data.subrange(16, 20),
                    header_length: spec_ihl(data[0]),
                },
            )
        }
    } else if version == 6 {
        if data.len() < 40 {
            None
        } else {
            Some(
                IpHeaderModel {
                    version: 6,
                    protocol: data[6],
                    src: data.subrange(8, 24),
                    dst: data.subrange(24, 40),
                    header_length: 40,
                },
            )
        }
    } else {
        None
    }
}

/// Decodes an IP header as `spec_parse_ip_header` describes.
pub fn parse_ip_header(data: &[u8]) -> (r: Result<Option<IpHeader>, AnalyzeResult>)
    requires
        data@.len() >= 1,
    ensures
        spec_parse_ip_header(data@) is None ==> (r matches Err(e) && e is Reject),
        spec_parse_ip_header(data@) matches Some(m) ==> (r matches Ok(o) && o matches Some(h)
            && h.version == m.version && h.ip_protocol.0 == m.protocol && h.src_ip@ == m.src
            && h.dst_ip@ == m.dst && h.header_length == m.header_length),
{
    let b0: u8 = data[0];
    let version: u8 = (b0 >> 4) & 0xF;
    proof {
        assert((b0 >> 4) & 0xF == b0 >> 4) by (bit_vector);
    }
    if version == 4 {
        if data.len() < 20 {
            return Err(AnalyzeResult::Reject);
        }

        proof {
            assert((b0 & 0xF) < 16) by (bit_vector);
        }
        let ihl: usize = ((b0 & 0xF) as usize) * 4;
        if data.len() < ihl {
            return Err(AnalyzeResult::Reject);
        }

        let ip_protocol = IpProtocol::new(data[9]);
        let src_ip = IpAddress::V4([data[12], data[13], data[14], data[15]]);
        let dst_ip = IpAddress::V4([data[16], data[17], data[18], data[19]]);
        proof {
            assert(src_ip@ =~= data@.subrange(12, 16));
            assert(dst_ip@ =~= data@.subrange(16, 20));
        }

        Ok(
            Some(
                IpHeader {
                    version: 4,
                    ip_protocol,
                    src_ip,
                    dst_ip,
                    header_length: ihl,
                },
            ),
        )
    } else if version == 6 {
        if data.len() < 40 {
            return Err(AnalyzeResult::Reject);
        }

        let ip_protocol = IpProtocol::new(data[6]);
        let src_ip = IpAddress::V6(
            [
                data[8],
                data[9],
                data[10],
                data[11],
                data[12],
                data[13],
                data[14],
                data[15],
                data[16],
                data[17],
                data[18],
                data[19],
                data[20],
                data[21],
                data[22],
                data[23],
            ],
        );
        let dst_ip = IpAddress::V6(
            [
                data[24],
                data[25],
                data[26],
                data[27],
                data[28],
                data[29],
                data[30],
                data[31],
                data[32],
                data[33],
                data[34],
                data[35],
                data[36],
                data[37],
                data[38],
                data[39],
            ],
        );
        proof {
            assert(src_ip@ =~= data@.subrange(8, 24));
            assert(dst_ip@ =~= data@.subrange(24, 40));
        }

        Ok(
            Some(
                IpHeader {
                    version: 6,
                    ip_protocol,
                    src_ip,
                    dst_ip,
                    header_length: 40,
                },
            ),
        )
    } else {
        Err(AnalyzeResult::Reject)
    }
}

/// The L3/L4 fields the analyzer extracts from a frame: source and
/// destination address octets, protocol number, ports, and the transport
/// flags byte.  `None` is a parser rejection.  Frames outside IPv4/IPv6
/// yield the all-zero IPv4 address and protocol zero, so that rules on L2
/// fields can still apply.
pub open spec fn spec_parse_ip_packet(frame: Seq<u8>, ether_type: u16) -> Option<
    (Seq<u8>, Seq<u8>, u8, u16, u16, u8),
>
    recommends
        frame.len() >= 15,
{
    if ether_type == EtherType::IP_V4 || ether_type == EtherType::IP_V6 {
        match spec_parse_ip_header(frame.skip(14)) {
            None => None,
            Some(m) => match spec_transport_ports(frame.skip(14), m.header_length) {
                None => Some((m.src, m.dst, m.protocol, 0u16, 0u16, 0u8)),
                Some(t) => Some((m.src, m.dst, m.protocol, t.0, t.1, t.2)),
            },
        }
    } else {
        Some((seq![0u8, 0u8, 0u8, 0u8], seq![0u8, 0u8, 0u8, 0u8], 0u8, 0u16, 0u16, 0u8))
    }
}

/// Every IPv4 frame long enough for its declared header parses, and
/// its addresses and protocol come from the fixed offsets: the protocol
/// byte at 23, the source address at 26, the destination at 30.
pub proof fn lemma_ipv4_fixed_offsets(frame: Seq<u8>)
    requires
        frame.len() >= 34,
        frame[14] >> 4 == 4,
        frame.len() >= 14 + spec_ihl(frame[14]),
    ensures
        spec_parse_ip_packet(frame, EtherType::IP_V4) matches Some(t) && t.0 == frame.subrange(
            26,
            30,
        ) && t.1 == frame.subrange(30, 34) && t.2 == frame[23],
{
    let data = frame.skip(14);
    assert(data[0] == frame[14]);
    assert(data.len() >= 20);
    assert(spec_parse_ip_header(data) is Some);
    assert(data.subrange(12, 16) =~= frame.subrange(26, 30));
    assert(data.subrange(16, 20) =~= frame.subrange(30, 34));
    assert(data[9] == frame[23]);
}

/// Extracts addresses, protocol, ports and flags from a frame whose
/// Ethernet header is already known; see `spec_parse_ip_packet`.  A
/// missing or truncated transport header leaves ports and flags zero
/// without failing.
pub fn parse_ip_packet(ethernet_frame: &[u8], ether_type: EtherType) -> (r: Result<
    (IpAddress, IpAddress, IpProtocol, u16, u16, u8),
    AnalyzeResult,
>)
    requires
        ethernet_frame@.len() >= 34,
    ensures
        spec_parse_ip_packet(ethernet_frame@, ether_type.0) is None ==> (r matches Err(e)
            && e is Reject),
        spec_parse_ip_packet(ethernet_frame@, ether_type.0) matches Some(t) ==> (r matches Ok(v)
            && v.0@ == t.0 && v.1@ == t.1 && v.2.0 == t.2 && v.3 == t.3 && v.4 == t.4
            && v.5 == t.5),
{
    if ether_type.value() == EtherType::IP_V4 || ether_type.value() == EtherType::IP_V6 {
        let ip_data: &[u8] = vstd::slice::slice_subrange(ethernet_frame, 14, ethernet_frame.len());
        proof {
            assert(ip_data@ =~= ethernet_frame@.skip(14));
        }

        match parse_ip_header(ip_data) {
            Ok(Some(ip_header)) => {
                let (src_port, dst_port, flags) = match parse_transport_header(
                    ip_data,
                    ip_header.header_length,
                ) {
                    Ok(transport_header) => (
                        transport_header.src_port,
                        transport_header.dst_port,
                        transport_header.flags,
                    ),
                    Err(_) => (0u16, 0u16, 0u8),
                };

                Ok(
                    (
                        ip_header.src_ip,
                        ip_header.dst_ip,
                        ip_header.ip_protocol,
                        src_port,
                        dst_port,
                        flags,
                    ),
                )
            },
            Ok(None) => Err(AnalyzeResult::Reject),
            Err(e) => Err(e),
        }
    } else {
        let src_ip = IpAddress::unspecified();
        let dst_ip = IpAddress::unspecified();
        proof {
            assert(src_ip@ =~= seq![0u8, 0u8, 0u8, 0u8]);
        }
        Ok((src_ip, dst_ip, IpProtocol::new(0), 0, 0, 0))
    }
}

} // verus!
