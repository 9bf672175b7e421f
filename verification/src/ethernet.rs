//! Ethernet header extraction: destination and source MAC plus EtherType
//! from the first fourteen bytes of a frame.

use vstd::prelude::*;

use crate::analyzer::AnalyzeResult;
use crate::types::{EtherType, MacAddr};

verus! {

broadcast use vstd::array::group_array_axioms;

#[derive(Debug)]
pub struct EthernetHeader {
    pub src_mac: MacAddr,
    pub dst_mac: MacAddr,
    pub ether_type: EtherType,
}

/// The big-endian 16-bit value of two bytes.
pub open spec fn spec_u16_be(hi: u8, lo: u8) -> u16 {
    ((hi as u16) * 256 + lo as u16) as u16
}

/// Reads the two MAC addresses of an Ethernet header, returned as
/// (source, destination).
pub fn extract_mac_addresses(frame: &[u8]) -> (r: (MacAddr, MacAddr))
    requires
        frame@.len() >= 12,
    ensures
        r.0.0@ == frame@.subrange(6, 12),
        r.1.0@ == frame@.subrange(0, 6),
{
    let dst_mac = MacAddr([frame[0], frame[1], frame[2], frame[3], frame[4], frame[5]]);
    let src_mac = MacAddr([frame[6], frame[7], frame[8], frame[9], frame[10], frame[11]]);
    proof {
        assert(src_mac.0@ =~= frame@.subrange(6, 12));
        assert(dst_mac.0@ =~= frame@.subrange(0, 6));
    }
    (src_mac, dst_mac)
}

/// Reads the EtherType field, a big-endian 16-bit value at offset 12.
pub fn parse_ether_type(frame: &[u8]) -> (r: EtherType)
    requires
        frame@.len() >= 14,
    ensures
        r.0 == spec_u16_be(frame@[12], frame@[13]),
{
    let type_value: u16 = (frame[12] as u16) * 256 + (frame[13] as u16);
    EtherType::new(type_value)
}

/// Splits an Ethernet header off a raw frame.  Fails exactly when fewer
/// than fourteen bytes are present; any EtherType value is accepted.
pub fn parse_ethernet_header(frame: &[u8]) -> (r: Result<EthernetHeader, AnalyzeResult>)
    ensures
        frame@.len() < 14 ==> (r matches Err(e) && e is Reject),
        frame@.len() >= 14 ==> (r matches Ok(h)
            && h.dst_mac.0@ == frame@.subrange(0, 6)
            && h.src_mac.0@ == frame@.subrange(6, 12)
            && h.ether_type.0 == spec_u16_be(frame@[12], frame@[13])),
{
    if frame.len() < 14 {
        return Err(AnalyzeResult::Reject);
    }

    let (src_mac, dst_mac) = extract_mac_addresses(frame);
    let ether_type = parse_ether_type(frame);

    Ok(EthernetHeader { src_mac, dst_mac, ether_type })
}

} // verus!
