//! Core wire-level value types: MAC addresses, IP addresses, protocol
//! numbers, and the parsed-packet record that flows through the pipeline.
//!
//! The bit-exact column encodings used when a packet is persisted (raw
//! `macaddr` octets, the tagged INET format) live here as pure functions.

use vstd::prelude::*;

verus! {

broadcast use vstd::array::group_array_axioms;

/// An EtherType as it appears in an Ethernet header (IEEE 802.3).
#[derive(Debug, Clone, Copy, PartialEq, Eq, Structural)]
pub struct EtherType(pub u16);

impl EtherType {
    pub const IP_V4: u16 = 0x0800;
    pub const IP_V6: u16 = 0x86DD;
    pub const ARP: u16 = 0x0806;
    pub const RARP: u16 = 0x8035;
    pub const VLAN: u16 = 0x8100;
    pub const UNKNOWN: u16 = 0;

    pub fn new(value: u16) -> (r: Self)
        ensures
            r.0 == value,
    {
        EtherType(value)
    }

    pub fn value(&self) -> (r: u16)
        ensures
            r == self.0,
    {
        self.0
    }

    /// The signed 32-bit widening used for the stored `ether_type` column.
    pub fn as_i32(&self) -> (r: i32)
        ensures
            r == self.0 as i32,
            0 <= r <= u16::MAX,
    {
        self.0 as i32
    }

    /// True for values in the EtherType range proper (as opposed to an
    /// IEEE 802.3 length field).
    pub fn is_ethernet_protocol(&self) -> (r: bool)
        ensures
            r == (self.0 >= 0x0800),
    {
        self.0 >= 0x0800
    }
}

/// An IP protocol number (IANA "protocol" / IPv6 "next header" registry).
#[derive(Debug, Clone, Copy, PartialEq, Eq, Structural)]
pub struct IpProtocol(pub u8);

impl IpProtocol {
    pub const ICMP: u8 = 1;
    pub const TCP: u8 = 6;
    pub const UDP: u8 = 17;
    pub const ICMP_V6: u8 = 58;
    pub const UNKNOWN: u8 = 0;

    pub fn new(value: u8) -> (r: Self)
        ensures
            r.0 == value,
    {
        IpProtocol(value)
    }

    pub fn value(&self) -> (r: u8)
        ensures
            r == self.0,
    {
        self.0
    }

    /// The signed 32-bit widening used for the stored `ip_protocol` column.
    pub fn as_i32(&self) -> (r: i32)
        ensures
            r == self.0 as i32,
            0 <= r <= u8::MAX,
    {
        self.0 as i32
    }

    /// True exactly for TCP and UDP.
    pub fn is_transport_protocol(&self) -> (r: bool)
        ensures
            r == (self.0 == 6 || self.0 == 17),
    {
        self.0 == 6 || self.0 == 17
    }

    /// True exactly for ICMP and ICMPv6.
    pub fn is_icmp(&self) -> (r: bool)
        ensures
            r == (self.0 == 1 || self.0 == 58),
    {
        self.0 == 1 || self.0 == 58
    }
}

/// A MAC address: exactly six raw octets, stored and sent as-is.
#[derive(Debug, Clone, Copy)]
pub struct MacAddr(pub [u8; 6]);

impl PartialEq for MacAddr {
    fn eq(&self, other: &MacAddr) -> (r: bool) {
        let r = self.0[0] == other.0[0] && self.0[1] == other.0[1] && self.0[2] == other.0[2]
            && self.0[3] == other.0[3] && self.0[4] == other.0[4] && self.0[5] == other.0[5];
        proof {
            if r {
                assert(self.0 =~= other.0);
            }
        }
        r
    }
}

impl vstd::std_specs::cmp::PartialEqSpecImpl for MacAddr {
    open spec fn obeys_eq_spec() -> bool {
        true
    }

    open spec fn eq_spec(&self, other: &MacAddr) -> bool {
        self.0 == other.0
    }
}

impl MacAddr {
    /// The raw `macaddr` column encoding: the six octets unchanged.
    pub fn to_sql_bytes(&self) -> (r: Vec<u8>)
        ensures
            r@ == self.0@,
    {
        let mut out: Vec<u8> = Vec::new();
        out.push(self.0[0]);
        out.push(self.0[1]);
        out.push(self.0[2]);
        out.push(self.0[3]);
        out.push(self.0[4]);
        out.push(self.0[5]);
        proof {
            assert(out@ =~= self.0@);
        }
        out
    }

    /// Decodes the raw `macaddr` column value: succeeds exactly on a
    /// six-byte input, returning those octets.
    pub fn from_sql_bytes(raw: &[u8]) -> (r: Option<MacAddr>)
        ensures
            raw@.len() == 6 ==> (r matches Some(m) && m.0@ == raw@),
            raw@.len() != 6 ==> r is None,
    {
        if raw.len() != 6 {
            return None;
        }
        let m = MacAddr([raw[0], raw[1], raw[2], raw[3], raw[4], raw[5]]);
        proof {
            assert(m.0@ =~= raw@);
        }
        Some(m)
    }

}

/// An IP address: four raw octets for IPv4 or sixteen for IPv6, in network
/// order.  The address family is the tag.
#[derive(Debug, Clone, Copy)]
pub enum IpAddress {
    V4([u8; 4]),
    V6([u8; 16]),
}

impl PartialEq for IpAddress {
    fn eq(&self, other: &IpAddress) -> (r: bool) {
        match (self, other) {
            (IpAddress::V4(a), IpAddress::V4(b)) => {
                let r = a[0] == b[0] && a[1] == b[1] && a[2] == b[2] && a[3] == b[3];
                proof {
                    if r {
                        assert(*a =~= *b);
                    }
                }
                r
            },
            (IpAddress::V6(a), IpAddress::V6(b)) => {
                let mut i: usize = 0;
                let mut same = true;
                while i < 16
                    invariant
                        i <= 16,
                        same == (forall|j: int| 0 <= j < i ==> a@[j] == b@[j]),
                    decreases 16 - i,
                {
                    same = same && a[i] == b[i];
                    i = i + 1;
                }
                proof {
                    if same {
                        assert(*a =~= *b);
                    }
                }
                same
            },
            _ => false,
        }
    }
}

impl vstd::std_specs::cmp::PartialEqSpecImpl for IpAddress {
    open spec fn obeys_eq_spec() -> bool {
        true
    }

    open spec fn eq_spec(&self, other: &IpAddress) -> bool {
        *self == *other
    }
}

impl View for IpAddress {
    type V = Seq<u8>;

    /// The raw octets: four for IPv4, sixteen for IPv6.  The length
    /// recovers the family.
    open spec fn view(&self) -> Seq<u8> {
        match self {
            IpAddress::V4(o) => o@,
            IpAddress::V6(o) => o@,
        }
    }
}

impl IpAddress {
    /// The IP version implied by the address family: 4 or 6.
    pub fn version(&self) -> (v: u8)
        ensures
            v == self.spec_version(),
    {
        match self {
            IpAddress::V4(_) => 4,
            IpAddress::V6(_) => 6,
        }
    }

    pub open spec fn spec_version(&self) -> u8 {
        match self {
            IpAddress::V4(_) => 4u8,
            IpAddress::V6(_) => 6u8,
        }
    }

    /// The all-zero IPv4 address used when a frame carries no IP layer.
    pub fn unspecified() -> (r: IpAddress)
        ensures
            r == IpAddress::V4([0u8, 0u8, 0u8, 0u8]),
    {
        IpAddress::V4([0, 0, 0, 0])
    }
}

/// An IP address destined for an INET column, carrying the encoding rules.
#[derive(Debug, Clone, Copy)]
pub struct InetAddr(pub IpAddress);

/// The tagged INET column encoding of an address: one byte of address
/// family (2 for IPv4, 3 for IPv6), the prefix bits (32 or 128), a cidr
/// flag of 1, the octet count (4 or 16), then the raw octets.
pub open spec fn spec_inet_encoding(addr: IpAddress) -> Seq<u8> {
    match addr {
        IpAddress::V4(o) => seq![2u8, 32u8, 1u8, 4u8] + o@,
        IpAddress::V6(o) => seq![3u8, 128u8, 1u8, 16u8] + o@,
    }
}

impl InetAddr {
    /// The INET column encoding of this address; see `spec_inet_encoding`.
    pub fn to_sql_bytes(&self) -> (r: Vec<u8>)
        ensures
            r@ == spec_inet_encoding(self.0),
    {
        let mut out: Vec<u8> = Vec::new();
        match &self.0 {
            IpAddress::V4(o) => {
                out.push(2);
                out.push(32);
                out.push(1);
                out.push(4);
                let mut i: usize = 0;
                while i < 4
                    invariant
                        i <= 4,
                        out@ == seq![2u8, 32u8, 1u8, 4u8] + o@.subrange(0, i as int),
                    decreases 4 - i,
                {
                    out.push(o[i]);
                    proof {
                        assert(o@.subrange(0, i + 1 as int)
                            =~= o@.subrange(0, i as int).push(o@[i as int]));
                    }
                    i = i + 1;
                }
                proof {
                    assert(o@.subrange(0, 4) =~= o@);
                }
            },
            IpAddress::V6(o) => {
                out.push(3);
                out.push(128);
                out.push(1);
                out.push(16);
                let mut i: usize = 0;
                while i < 16
                    invariant
                        i <= 16,
                        out@ == seq![3u8, 128u8, 1u8, 16u8] + o@.subrange(0, i as int),
                    decreases 16 - i,
                {
                    out.push(o[i]);
                    proof {
                        assert(o@.subrange(0, i + 1 as int)
                            =~= o@.subrange(0, i as int).push(o@[i as int]));
                    }
                    i = i + 1;
                }
                proof {
                    assert(o@.subrange(0, 16) =~= o@);
                }
            },
        }
        out
    }
}

/// A fully parsed, firewall-approved frame, as queued for persistence.
///
/// Ports are zero when no transport header was present or parseable, and
/// the EtherType is IPv4 or IPv6 whenever the protocol number is non-zero.
#[derive(Debug)]
pub struct PacketData {
    pub src_mac: MacAddr,
    pub dst_mac: MacAddr,
    pub ether_type: EtherType,
    pub src_ip: InetAddr,
    pub dst_ip: InetAddr,
    pub src_port: i32,
    pub dst_port: i32,
    pub ip_protocol: IpProtocol,
    /// Capture time as microseconds since the Unix epoch, UTC.
    pub timestamp_micros: i64,
    pub raw_packet: Vec<u8>,
}

/// The mathematical model of a `PacketData` record: the same fields with
/// the raw frame as a sequence of bytes.
pub struct PacketModel {
    pub src_mac: MacAddr,
    pub dst_mac: MacAddr,
    pub ether_type: EtherType,
    pub src_ip: IpAddress,
    pub dst_ip: IpAddress,
    pub src_port: i32,
    pub dst_port: i32,
    pub ip_protocol: IpProtocol,
    pub timestamp_micros: i64,
    pub raw: Seq<u8>,
}

impl View for PacketData {
    type V = PacketModel;

    open spec fn view(&self) -> PacketModel {
        PacketModel {
            src_mac: self.src_mac,
            dst_mac: self.dst_mac,
            ether_type: self.ether_type,
            src_ip: self.src_ip.0,
            dst_ip: self.dst_ip.0,
            src_port: self.src_port,
            dst_port: self.dst_port,
            ip_protocol: self.ip_protocol,
            timestamp_micros: self.timestamp_micros,
            raw: self.raw_packet@,
        }
    }
}

/// The models of a sequence of records, in order.
pub open spec fn spec_models(packets: Seq<PacketData>) -> Seq<PacketModel> {
    packets.map(|i: int, p: PacketData| p@)
}

pub broadcast proof fn lemma_models_index(s: Seq<PacketData>, i: int)
    requires
        0 <= i < s.len(),
    ensures
        #[trigger] spec_models(s)[i] == s[i]@,
{
}

impl PacketData {
    /// A field-for-field copy of this record.
    pub fn duplicate(&self) -> (r: PacketData)
        ensures
            r@ == self@,
    {
        let raw = clone_bytes(&self.raw_packet);
        PacketData {
            src_mac: self.src_mac,
            dst_mac: self.dst_mac,
            ether_type: self.ether_type,
            src_ip: self.src_ip,
            dst_ip: self.dst_ip,
            src_port: self.src_port,
            dst_port: self.dst_port,
            ip_protocol: self.ip_protocol,
            timestamp_micros: self.timestamp_micros,
            raw_packet: raw,
        }
    }
}

/// A byte-for-byte copy of a byte vector.
pub fn clone_bytes(v: &Vec<u8>) -> (r: Vec<u8>)
    ensures
        r@ == v@,
{
    let mut out: Vec<u8> = Vec::new();
    let mut i: usize = 0;
    while i < v.len()
        invariant
            i <= v@.len(),
            out@ == v@.subrange(0, i as int),
        decreases v@.len() - i,
    {
        out.push(v[i]);
        proof {
            assert(v@.subrange(0, i + 1 as int)
                =~= v@.subrange(0, i as int).push(v@[i as int]));
        }
        i = i + 1;
    }
    proof {
        assert(v@.subrange(0, v@.len() as int) =~= v@);
    }
    out
}

} // verus!
