use idps_node::analyzer::AnalyzeResult;
use idps_node::ethernet::parse_ethernet_header;
use idps_node::ip::parse_ip_packet;
use idps_node::transport::{
    calculate_checksum_sum, parse_transport_header, verify_frame_checksum, TransportHeader,
};
use idps_node::types::{EtherType, IpAddress};

/// A minimal Ethernet + IPv4 + TCP frame: 54 bytes, version 4, IHL 5,
/// protocol 6, 10.0.0.1 -> 10.0.0.2, ports 1000 -> 80, SYN set.
fn ipv4_tcp_syn_frame() -> Vec<u8> {
    let mut frame = vec![0u8; 54];
    // Ethernet
    frame[0] = 0xAA;
    frame[6] = 0xBB;
    frame[12] = 0x08;
    frame[13] = 0x00;
    // IPv4 header
    frame[14] = 0x45;
    frame[23] = 6; // protocol
    frame[26] = 10;
    frame[27] = 0;
    frame[28] = 0;
    frame[29] = 1;
    frame[30] = 10;
    frame[31] = 0;
    frame[32] = 0;
    frame[33] = 2;
    // TCP header
    frame[34] = 0x03;
    frame[35] = 0xE8; // src port 1000
    frame[36] = 0x00;
    frame[37] = 0x50; // dst port 80
    frame[47] = 0x02; // SYN
    frame
}

#[test]
fn ethernet_header_fields() {
    let frame = ipv4_tcp_syn_frame();
    let header = parse_ethernet_header(&frame).ok().unwrap();
    assert_eq!(header.dst_mac.0, [0xAA, 0, 0, 0, 0, 0]);
    assert_eq!(header.src_mac.0, [0xBB, 0, 0, 0, 0, 0]);
    assert_eq!(header.ether_type.value(), 0x0800);
}

#[test]
fn ethernet_header_too_short() {
    let frame = vec![0u8; 13];
    assert!(parse_ethernet_header(&frame).is_err());
}

#[test]
fn ipv4_fields_from_fixed_offsets() {
    let frame = ipv4_tcp_syn_frame();
    let (src_ip, dst_ip, protocol, src_port, dst_port, flags) =
        parse_ip_packet(&frame, EtherType::new(0x0800)).ok().unwrap();
    assert_eq!(src_ip, IpAddress::V4([10, 0, 0, 1]));
    assert_eq!(dst_ip, IpAddress::V4([10, 0, 0, 2]));
    assert_eq!(protocol.value(), 6);
    assert_eq!(src_port, 1000);
    assert_eq!(dst_port, 80);
    assert_eq!(flags, 0x02);
}

#[test]
fn non_ip_frame_gets_zero_addresses() {
    let mut frame = ipv4_tcp_syn_frame();
    frame[12] = 0x08;
    frame[13] = 0x06; // ARP
    let (src_ip, dst_ip, protocol, src_port, dst_port, flags) =
        parse_ip_packet(&frame, EtherType::new(0x0806)).ok().unwrap();
    assert_eq!(src_ip, IpAddress::V4([0, 0, 0, 0]));
    assert_eq!(dst_ip, IpAddress::V4([0, 0, 0, 0]));
    assert_eq!(protocol.value(), 0);
    assert_eq!(src_port, 0);
    assert_eq!(dst_port, 0);
    assert_eq!(flags, 0);
}

#[test]
fn ipv4_truncated_header_rejected() {
    let mut frame = ipv4_tcp_syn_frame();
    frame[14] = 0x4F; // IHL 15 -> 60 bytes declared, only 40 present
    assert!(parse_ip_packet(&frame, EtherType::new(0x0800)).is_err());
}

#[test]
fn unknown_ip_version_rejected() {
    let mut frame = ipv4_tcp_syn_frame();
    frame[14] = 0x55; // version nibble 5
    assert!(parse_ip_packet(&frame, EtherType::new(0x0800)).is_err());
}

#[test]
fn short_transport_leaves_ports_zero() {
    // 14 + 20 IPv4 + 10 transport bytes: too short for ports to count.
    let mut frame = vec![0u8; 44];
    frame[12] = 0x08;
    frame[13] = 0x00;
    frame[14] = 0x45;
    frame[23] = 6;
    let (_, _, _, src_port, dst_port, flags) =
        parse_ip_packet(&frame, EtherType::new(0x0800)).ok().unwrap();
    assert_eq!(src_port, 0);
    assert_eq!(dst_port, 0);
    assert_eq!(flags, 0);
}

#[test]
fn transport_ports_and_flags() {
    let frame = ipv4_tcp_syn_frame();
    let ip_data = &frame[14..];
    let header = parse_transport_header(ip_data, 20).ok().unwrap();
    assert_eq!(header.src_port, 1000);
    assert_eq!(header.dst_port, 80);
    assert_eq!(header.flags, 0x02);
    assert!(matches!(parse_transport_header(&ip_data[..30], 20), Err(AnalyzeResult::Reject)));
}

#[test]
fn checksum_sum_of_words() {
    assert_eq!(calculate_checksum_sum(&[0x12, 0x34, 0x56, 0x78]), 0x1234 + 0x5678);
    assert_eq!(calculate_checksum_sum(&[0x12, 0x34, 0x56]), 0x1234 + 0x5600);
    assert_eq!(calculate_checksum_sum(&[]), 0);
}

/// The reference one's-complement checksum, written out plainly.
fn reference_checksum(transport: &[u8], src: [u8; 4], dst: [u8; 4]) -> u16 {
    let mut pseudo: Vec<u8> = Vec::new();
    pseudo.extend_from_slice(&src);
    pseudo.extend_from_slice(&dst);
    pseudo.push(0);
    pseudo.push(6);
    let len = transport.len() as u16;
    pseudo.push((len >> 8) as u8);
    pseudo.push((len & 0xFF) as u8);
    let mut zeroed = transport.to_vec();
    zeroed[16] = 0;
    zeroed[17] = 0;
    let mut sum: u32 = 0;
    for chunk in pseudo.chunks(2).chain(zeroed.chunks(2)) {
        if chunk.len() == 2 {
            sum += u16::from_be_bytes([chunk[0], chunk[1]]) as u32;
        } else {
            sum += (chunk[0] as u32) << 8;
        }
    }
    while sum >> 16 != 0 {
        sum = (sum & 0xFFFF) + (sum >> 16);
    }
    !(sum as u16)
}

#[test]
fn tcp_checksum_accepts_the_reference_value() {
    let mut transport = vec![0u8; 20];
    transport[0] = 0x03;
    transport[1] = 0xE8;
    transport[2] = 0x00;
    transport[3] = 0x50;
    transport[13] = 0x02;
    let src = [10, 0, 0, 1];
    let dst = [10, 0, 0, 2];
    let checksum = reference_checksum(&transport, src, dst);
    transport[16] = (checksum >> 8) as u8;
    transport[17] = (checksum & 0xFF) as u8;

    let header = TransportHeader { src_port: 1000, dst_port: 80, flags: 0x02 };
    assert!(header.verify_tcp_checksum(&transport, &IpAddress::V4(src), &IpAddress::V4(dst)));

    transport[17] ^= 0xFF;
    assert!(!header.verify_tcp_checksum(&transport, &IpAddress::V4(src), &IpAddress::V4(dst)));
}

#[test]
fn tcp_checksum_never_valid_outside_ipv4() {
    let transport = vec![0u8; 20];
    let header = TransportHeader { src_port: 0, dst_port: 0, flags: 0 };
    assert!(!header.verify_tcp_checksum(
        &transport,
        &IpAddress::V6([0; 16]),
        &IpAddress::V4([10, 0, 0, 2])
    ));
}

#[test]
fn frame_level_checksum_verdicts() {
    // A full IPv4 TCP frame with the reference checksum written in.
    let mut frame = ipv4_tcp_syn_frame();
    let transport: Vec<u8> = frame[34..].to_vec();
    let checksum = reference_checksum(&transport, [10, 0, 0, 1], [10, 0, 0, 2]);
    frame[34 + 16] = (checksum >> 8) as u8;
    frame[34 + 17] = (checksum & 0xFF) as u8;
    assert_eq!(verify_frame_checksum(&frame), Some(true));

    frame[34 + 17] ^= 0xFF;
    assert_eq!(verify_frame_checksum(&frame), Some(false));

    // Not TCP: no verdict.
    let mut udp = ipv4_tcp_syn_frame();
    udp[23] = 17;
    assert_eq!(verify_frame_checksum(&udp), None);

    // Not IPv4 at L2: no verdict.
    let mut arp = ipv4_tcp_syn_frame();
    arp[13] = 0x06;
    assert_eq!(verify_frame_checksum(&arp), None);

    // Transport region too short for the checksum field: no verdict.
    let short = ipv4_tcp_syn_frame()[..48].to_vec();
    assert_eq!(verify_frame_checksum(&short), None);
}
