use idps_node::analyzer::{AnalyzeResult, PacketAnalyzer};
use idps_node::buffer::PacketBuffer;
use idps_node::firewall::{Filter, IpFirewall, Policy};
use idps_node::firewall_service::FirewallService;
use idps_node::monitor::{NetworkMonitor, PACKET_OUTGOING};
use idps_node::types::IpAddress;
use idps_node::writer::PacketWriter;

fn open_service() -> FirewallService {
    let mut service = FirewallService::new();
    service.install(IpFirewall::new(Policy::Blacklist));
    service
}

fn ipv4_tcp_syn_frame() -> Vec<u8> {
    let mut frame = vec![0u8; 54];
    frame[12] = 0x08;
    frame[13] = 0x00;
    frame[14] = 0x45;
    frame[23] = 6;
    frame[26] = 10;
    frame[29] = 1;
    frame[30] = 10;
    frame[33] = 2;
    frame[34] = 0x03;
    frame[35] = 0xE8;
    frame[37] = 0x50;
    frame[47] = 0x02;
    frame
}

#[test]
fn short_frame_is_rejected_and_buffer_unchanged() {
    let service = open_service();
    let mut writer = PacketWriter::default();
    let frame = vec![0u8; 20];
    assert!(matches!(
        PacketAnalyzer::analyze_packet(&service, &frame),
        AnalyzeResult::Reject
    ));
    assert!(writer.process_packet(&service, &frame).is_ok());
    assert_eq!(writer.pending_len(), 0);
}

#[test]
fn accepted_syn_grows_buffer_by_one() {
    let mut service = FirewallService::new();
    let mut firewall = IpFirewall::new(Policy::Whitelist);
    firewall.add_rule(Filter::DstIpAddress(IpAddress::V4([10, 0, 0, 2])), 10);
    service.install(firewall);

    let mut writer = PacketWriter::default();
    let frame = ipv4_tcp_syn_frame();
    assert!(writer.process_packet(&service, &frame).is_ok());
    assert_eq!(writer.pending_len(), 1);

    let drained = writer.take_pending();
    assert_eq!(drained.len(), 1);
    let record = &drained[0];
    assert_eq!(record.src_ip.0, IpAddress::V4([10, 0, 0, 1]));
    assert_eq!(record.dst_ip.0, IpAddress::V4([10, 0, 0, 2]));
    assert_eq!(record.src_port, 1000);
    assert_eq!(record.dst_port, 80);
    assert_eq!(record.ip_protocol.value(), 6);
    assert_eq!(record.ether_type.value(), 0x0800);
    assert_eq!(record.raw_packet, frame);
    assert_eq!(writer.pending_len(), 0);
}

#[test]
fn firewall_deny_keeps_buffer_unchanged() {
    let mut service = FirewallService::new();
    service.install(IpFirewall::new(Policy::Whitelist)); // empty whitelist denies
    let mut writer = PacketWriter::default();
    assert!(writer.process_packet(&service, &ipv4_tcp_syn_frame()).is_ok());
    assert_eq!(writer.pending_len(), 0);
}

#[test]
fn ipv6_frame_passes_parser_but_never_reaches_buffer() {
    let mut frame = vec![0u8; 54];
    frame[12] = 0x86;
    frame[13] = 0xDD;
    frame[14] = 0x60; // version 6
    let service = open_service();
    assert!(matches!(
        PacketAnalyzer::analyze_packet(&service, &frame),
        AnalyzeResult::Reject
    ));
    let mut writer = PacketWriter::default();
    assert!(writer.process_packet(&service, &frame).is_ok());
    assert_eq!(writer.pending_len(), 0);
}

#[test]
fn outgoing_frames_never_reach_the_buffer() {
    let service = open_service();
    let mut writer = PacketWriter::default();
    let frame = ipv4_tcp_syn_frame();
    let skipped = NetworkMonitor::handle_frame(&mut writer, &service, PACKET_OUTGOING, &frame);
    assert!(skipped);
    assert_eq!(writer.pending_len(), 0);

    let skipped = NetworkMonitor::handle_frame(&mut writer, &service, 0, &frame);
    assert!(!skipped);
    assert_eq!(writer.pending_len(), 1);
}

#[test]
fn buffer_round_trip_returns_pushes_in_order() {
    let service = open_service();
    let mut writer = PacketWriter::default();
    let mut frame = ipv4_tcp_syn_frame();
    for k in 0..4u8 {
        frame[29] = k + 1;
        assert!(writer.process_packet(&service, &frame).is_ok());
    }
    let drained = writer.take_pending();
    assert_eq!(drained.len(), 4);
    for (k, record) in drained.iter().enumerate() {
        assert_eq!(record.src_ip.0, IpAddress::V4([10, 0, 0, (k + 1) as u8]));
    }

    let mut buffer = PacketBuffer::new();
    assert!(buffer.is_empty());
    for record in drained {
        buffer.push(record);
    }
    assert_eq!(buffer.len(), 4);
    let out = buffer.drain();
    assert_eq!(out.len(), 4);
    assert!(buffer.is_empty());
    assert_eq!(buffer.drain().len(), 0);
}

#[test]
fn analysis_stamps_the_given_capture_time() {
    let service = open_service();
    let frame = ipv4_tcp_syn_frame();
    match PacketAnalyzer::analyze_packet_at(&service, &frame, 1_234_567) {
        AnalyzeResult::Accept(record) => assert_eq!(record.timestamp_micros, 1_234_567),
        AnalyzeResult::Reject => panic!("frame should be accepted"),
    }
}
