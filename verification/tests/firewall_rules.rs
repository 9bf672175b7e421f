use idps_node::db_service::{DbService, FirewallSettingRow};
use idps_node::errors::ServiceError;
use idps_node::firewall::{Filter, FirewallPacket, IpFirewall, Policy};
use idps_node::firewall_service::FirewallService;
use idps_node::types::{EtherType, IpAddress, IpProtocol, MacAddr};

fn sample_packet() -> FirewallPacket {
    FirewallPacket::from_packet(
        MacAddr([1, 2, 3, 4, 5, 6]),
        MacAddr([7, 8, 9, 10, 11, 12]),
        EtherType::new(0x0800),
        IpAddress::V4([10, 0, 0, 1]),
        IpAddress::V4([10, 0, 0, 2]),
        IpProtocol::new(6),
        1000,
        80,
    )
}

#[test]
fn ip_version_follows_source_family() {
    assert_eq!(sample_packet().ip_version, 4);
    let p6 = FirewallPacket::from_packet(
        MacAddr([0; 6]),
        MacAddr([0; 6]),
        EtherType::new(0x86DD),
        IpAddress::V6([0; 16]),
        IpAddress::V6([0; 16]),
        IpProtocol::new(58),
        0,
        0,
    );
    assert_eq!(p6.ip_version, 6);
}

#[test]
fn whitelist_allows_exactly_matched_packets() {
    let mut firewall = IpFirewall::new(Policy::Whitelist);
    assert!(!firewall.check(&sample_packet()));
    firewall.add_rule(Filter::DstIpAddress(IpAddress::V4([10, 0, 0, 2])), 10);
    assert!(firewall.check(&sample_packet()));
    let mut other = sample_packet();
    other.dst_ip = IpAddress::V4([10, 0, 0, 3]);
    assert!(!firewall.check(&other));
}

#[test]
fn blacklist_allows_exactly_unmatched_packets() {
    let mut firewall = IpFirewall::new(Policy::Blacklist);
    assert!(firewall.check(&sample_packet()));
    firewall.add_rule(Filter::SrcPort(1000), 5);
    assert!(!firewall.check(&sample_packet()));
    let mut other = sample_packet();
    other.src_port = 1001;
    assert!(firewall.check(&other));
}

#[test]
fn every_filter_field_matches() {
    let p = sample_packet();
    let cases = vec![
        Filter::SrcMacAddress(MacAddr([1, 2, 3, 4, 5, 6])),
        Filter::DstMacAddress(MacAddr([7, 8, 9, 10, 11, 12])),
        Filter::EtherType(0x0800),
        Filter::SrcIpAddress(IpAddress::V4([10, 0, 0, 1])),
        Filter::DstIpAddress(IpAddress::V4([10, 0, 0, 2])),
        Filter::IpProtocol(6),
        Filter::SrcPort(1000),
        Filter::DstPort(80),
    ];
    for filter in cases {
        let mut firewall = IpFirewall::new(Policy::Whitelist);
        firewall.add_rule(filter, 1);
        assert!(firewall.check(&p));
    }
    let mut firewall = IpFirewall::new(Policy::Whitelist);
    firewall.add_rule(Filter::SrcPort(9999), 1);
    assert!(!firewall.check(&p));
}

#[test]
fn re_adding_a_filter_keeps_one_rule() {
    let mut firewall = IpFirewall::new(Policy::Whitelist);
    firewall.add_rule(Filter::SrcPort(1000), 1);
    firewall.add_rule(Filter::SrcPort(1000), 200);
    assert_eq!(firewall.rule_count(), 1);
    assert!(firewall.check(&sample_packet()));
}

#[test]
fn disposition_ignores_priorities() {
    let mut low = IpFirewall::new(Policy::Whitelist);
    low.add_rule(Filter::SrcPort(1000), 1);
    low.add_rule(Filter::DstPort(9999), 2);
    let mut high = IpFirewall::new(Policy::Whitelist);
    high.add_rule(Filter::SrcPort(1000), 250);
    high.add_rule(Filter::DstPort(9999), 3);
    assert_eq!(low.check(&sample_packet()), high.check(&sample_packet()));
}

#[test]
fn unconfigured_service_denies_everything() {
    let service = FirewallService::new();
    assert!(!service.check_packet(&sample_packet()));
}

fn row(policy: &str, filter_type: &str, filter_value: &str, priority: i16) -> FirewallSettingRow {
    FirewallSettingRow {
        policy: policy.to_string(),
        filter_type: filter_type.to_string(),
        filter_value: filter_value.to_string(),
        priority,
    }
}

#[test]
fn mixed_policies_fail_initialization() {
    let rows = vec![
        row("whitelist", "DstIpAddress", "10.0.0.2", 10),
        row("blacklist", "SrcPort", "1000", 5),
    ];
    let mut service = FirewallService::new();
    let result = service.initialize(&rows);
    assert!(matches!(result, Err(ServiceError::InconsistentPolicyError(_))));
    assert!(!service.check_packet(&sample_packet()));
}

#[test]
fn consistent_rows_install_a_working_firewall() {
    let rows = vec![
        row("Whitelist", "DstIpAddress", "10.0.0.2", 10),
        row("whitelist", "SrcPort", "4242", 3),
    ];
    let mut service = FirewallService::new();
    assert!(service.initialize(&rows).is_ok());
    assert!(service.check_packet(&sample_packet()));
    let mut other = sample_packet();
    other.dst_ip = IpAddress::V4([10, 9, 9, 9]);
    assert!(!service.check_packet(&other));
}

#[test]
fn unknown_policy_rows_default_to_whitelist() {
    let rows = vec![row("mystery", "SrcPort", "1000", 1)];
    let mut service = FirewallService::new();
    assert!(service.initialize(&rows).is_ok());
    assert!(service.check_packet(&sample_packet()));
    let mut other = sample_packet();
    other.src_port = 1;
    assert!(!service.check_packet(&other));
}

#[test]
fn unparseable_rules_are_skipped() {
    let rows = vec![
        row("blacklist", "SrcIpAddress", "not-an-ip", 1),
        row("blacklist", "Mystery", "1", 1),
    ];
    let mut service = FirewallService::new();
    assert!(service.initialize(&rows).is_ok());
    // Blacklist with no effective rules allows everything.
    assert!(service.check_packet(&sample_packet()));
}

#[test]
fn filter_rule_parsing_covers_every_type() {
    assert!(matches!(
        DbService::parse_filter_rule("SrcIpAddress", "10.0.0.1"),
        Some(Filter::SrcIpAddress(IpAddress::V4([10, 0, 0, 1])))
    ));
    assert!(matches!(
        DbService::parse_filter_rule("DstIpAddress", "1:2:3:4:5:6:7:8"),
        Some(Filter::DstIpAddress(IpAddress::V6(_)))
    ));
    assert!(matches!(
        DbService::parse_filter_rule("SrcPort", "1000"),
        Some(Filter::SrcPort(1000))
    ));
    assert!(matches!(DbService::parse_filter_rule("DstPort", "80"), Some(Filter::DstPort(80))));
    assert!(matches!(
        DbService::parse_filter_rule("EtherType", "0x0800"),
        Some(Filter::EtherType(0x0800))
    ));
    assert!(matches!(
        DbService::parse_filter_rule("EtherType", "2048"),
        Some(Filter::EtherType(2048))
    ));
    assert!(matches!(
        DbService::parse_filter_rule("IpProtocol", "6"),
        Some(Filter::IpProtocol(6))
    ));
    assert!(matches!(
        DbService::parse_filter_rule("SrcMacAddress", "aa:bb:cc:dd:ee:ff"),
        Some(Filter::SrcMacAddress(MacAddr([0xAA, 0xBB, 0xCC, 0xDD, 0xEE, 0xFF])))
    ));
    assert!(matches!(
        DbService::parse_filter_rule("DstMacAddress", "01-02-03-04-05-06"),
        Some(Filter::DstMacAddress(MacAddr([1, 2, 3, 4, 5, 6])))
    ));
    assert!(DbService::parse_filter_rule("Nonsense", "1").is_none());
    assert!(DbService::parse_filter_rule("SrcPort", "65536").is_none());
    assert!(DbService::parse_filter_rule("IpProtocol", "256").is_none());
}

#[test]
fn mac_address_parsing() {
    assert_eq!(
        DbService::parse_mac_address("aa:bb:cc:dd:ee:ff").map(|m| m.0),
        Some([0xAA, 0xBB, 0xCC, 0xDD, 0xEE, 0xFF])
    );
    assert_eq!(
        DbService::parse_mac_address("AA-BB-CC-DD-EE-0F").map(|m| m.0),
        Some([0xAA, 0xBB, 0xCC, 0xDD, 0xEE, 0x0F])
    );
    assert!(DbService::parse_mac_address("aa:bb:cc:dd:ee").is_none());
    assert!(DbService::parse_mac_address("aa:bb:cc:dd:ee:gg").is_none());
    assert!(DbService::parse_mac_address("aabbccddeeff0011").is_none());
}
