use idps_node::config::{parse_docker_mode, parse_node_id};
use idps_node::db_service::parse_ip_literal;
use idps_node::errors::{ConfigError, InterfaceError, TaskError};
use idps_node::interface::{select_docker_interface, validate_selection};
use idps_node::logger::{set_idps_settings, select_path_info, LogSettings, OutputMode};
use idps_node::tasks::{
    handle_task_result, shutdown_decision, ShutdownDecision, TaskOutcome, TaskState,
};
use idps_node::text::{parse_hex_u16, parse_u16, parse_u8, str_eq};
use idps_node::types::{EtherType, IpAddress, IpProtocol};

#[test]
fn protocol_constants_and_predicates() {
    assert_eq!(EtherType::IP_V4, 0x0800);
    assert_eq!(EtherType::IP_V6, 0x86DD);
    assert_eq!(EtherType::ARP, 0x0806);
    assert_eq!(EtherType::RARP, 0x8035);
    assert_eq!(EtherType::VLAN, 0x8100);
    let e = EtherType::new(0x0800);
    assert_eq!(e.value(), 0x0800);
    assert_eq!(e.as_i32(), 0x0800);
    assert!(e.is_ethernet_protocol());
    assert!(!EtherType::new(0x05DC).is_ethernet_protocol());

    assert_eq!(IpProtocol::ICMP, 1);
    assert_eq!(IpProtocol::TCP, 6);
    assert_eq!(IpProtocol::UDP, 17);
    assert_eq!(IpProtocol::ICMP_V6, 58);
    assert!(IpProtocol::new(6).is_transport_protocol());
    assert!(IpProtocol::new(17).is_transport_protocol());
    assert!(!IpProtocol::new(1).is_transport_protocol());
    assert!(IpProtocol::new(1).is_icmp());
    assert!(IpProtocol::new(58).is_icmp());
    assert!(!IpProtocol::new(6).is_icmp());
    assert_eq!(IpProtocol::new(17).value(), 17);
    assert_eq!(IpProtocol::new(17).as_i32(), 17);
}

#[test]
fn numeric_parsing() {
    assert_eq!(parse_u16("0"), Some(0));
    assert_eq!(parse_u16("65535"), Some(65535));
    assert_eq!(parse_u16("65536"), None);
    assert_eq!(parse_u16(""), None);
    assert_eq!(parse_u16("12a"), None);
    assert_eq!(parse_u16("0012"), Some(12));
    assert_eq!(parse_u8("255"), Some(255));
    assert_eq!(parse_u8("256"), None);
    assert_eq!(parse_hex_u16("0800"), Some(0x0800));
    assert_eq!(parse_hex_u16("ffff"), Some(0xFFFF));
    assert_eq!(parse_hex_u16("10000"), None);
    assert_eq!(parse_hex_u16("g"), None);
}

#[test]
fn ip_literals() {
    assert_eq!(parse_ip_literal("10.0.0.1"), Some(IpAddress::V4([10, 0, 0, 1])));
    assert_eq!(parse_ip_literal("255.255.255.255"), Some(IpAddress::V4([255; 4])));
    assert_eq!(parse_ip_literal("256.0.0.1"), None);
    assert_eq!(parse_ip_literal("01.0.0.1"), None);
    assert_eq!(parse_ip_literal("10.0.0"), None);
    assert_eq!(parse_ip_literal("10.0.0.1.2"), None);
    assert_eq!(parse_ip_literal("nonsense"), None);

    let mut expected = [0u8; 16];
    expected[1] = 1;
    expected[3] = 2;
    expected[5] = 3;
    expected[7] = 4;
    expected[9] = 5;
    expected[11] = 6;
    expected[13] = 7;
    expected[15] = 8;
    assert_eq!(parse_ip_literal("1:2:3:4:5:6:7:8"), Some(IpAddress::V6(expected)));
    assert_eq!(
        parse_ip_literal("fe80:0:0:0:0:0:0:1"),
        Some(IpAddress::V6([0xFE, 0x80, 0, 0, 0, 0, 0, 0, 0, 0, 0, 0, 0, 0, 0, 1]))
    );
    assert_eq!(parse_ip_literal("1:2:3:4:5:6:7"), None);
}

#[test]
fn node_id_and_docker_mode() {
    assert_eq!(parse_node_id("7"), Ok(7));
    assert_eq!(parse_node_id("32767"), Ok(32767));
    assert!(matches!(parse_node_id("32768"), Err(ConfigError::EnvVarParseError(_))));
    assert!(matches!(parse_node_id("-1"), Err(ConfigError::EnvVarParseError(_))));
    assert!(matches!(parse_node_id("abc"), Err(ConfigError::EnvVarParseError(_))));
    assert!(parse_docker_mode("true"));
    assert!(parse_docker_mode("TRUE"));
    assert!(!parse_docker_mode("false"));
    assert!(!parse_docker_mode("1"));
}

#[test]
fn interface_selection() {
    let names = vec!["lo".to_string(), "eth0".to_string()];
    assert_eq!(select_docker_interface(&names, "eth0"), Ok(1));
    assert!(matches!(
        select_docker_interface(&names, "wlan0"),
        Err(InterfaceError::DockerInterfaceNotFound(_))
    ));
    let empty: Vec<String> = Vec::new();
    assert!(matches!(
        select_docker_interface(&empty, "eth0"),
        Err(InterfaceError::NoAvailableNetworkInterfaceError)
    ));

    assert_eq!(validate_selection(1, 2), Ok(0));
    assert_eq!(validate_selection(2, 2), Ok(1));
    assert!(matches!(
        validate_selection(0, 2),
        Err(InterfaceError::OutOfRangeInterfaceNumberError)
    ));
    assert!(matches!(
        validate_selection(3, 2),
        Err(InterfaceError::OutOfRangeInterfaceNumberError)
    ));
}

#[test]
fn task_state_flags_and_shutdown() {
    let mut state = TaskState::new();
    assert!(state.is_all_inactive());
    assert!(state.set_task("reader", true).is_ok());
    assert!(state.set_task("writer", true).is_ok());
    assert!(state.set_task("analysis", true).is_ok());
    assert!(!state.is_all_inactive());
    assert!(matches!(
        state.set_task("mystery", true),
        Err(TaskError::StateUpdateError(_))
    ));

    assert_eq!(shutdown_decision(&state, 0, 5000), ShutdownDecision::KeepWaiting);
    assert_eq!(shutdown_decision(&state, 5000, 5000), ShutdownDecision::TimedOut);
    assert!(state.set_task("reader", false).is_ok());
    assert!(state.set_task("writer", false).is_ok());
    assert!(state.set_task("analysis", false).is_ok());
    assert_eq!(shutdown_decision(&state, 100, 5000), ShutdownDecision::CleanExit);
}

#[test]
fn task_outcomes_classify() {
    assert!(handle_task_result(TaskOutcome::Completed).is_ok());
    assert!(matches!(
        handle_task_result(TaskOutcome::Failed("boom".to_string())),
        Err(TaskError::ExecutionError(_))
    ));
    assert!(matches!(
        handle_task_result(TaskOutcome::Panicked("boom".to_string())),
        Err(TaskError::PanicError(_))
    ));
}

#[test]
fn logger_settings() {
    assert_eq!(OutputMode::from_name("all"), OutputMode::All);
    assert_eq!(OutputMode::from_name("file"), OutputMode::FileOnly);
    assert_eq!(OutputMode::from_name("console"), OutputMode::ConsoleOnly);
    assert_eq!(OutputMode::from_name("none"), OutputMode::Disabled);
    assert_eq!(OutputMode::from_name("mystery"), OutputMode::All);

    assert!(OutputMode::All.writes_file());
    assert!(OutputMode::FileOnly.writes_file());
    assert!(!OutputMode::ConsoleOnly.writes_file());
    assert!(OutputMode::All.writes_console());
    assert!(!OutputMode::FileOnly.writes_console());
    assert!(!OutputMode::Disabled.writes_console());

    let mut settings = LogSettings::new();
    assert!(set_idps_settings(&mut settings, OutputMode::FileOnly, "/tmp/idps.log", "file_path")
        .is_ok());
    assert_eq!(settings.mode, OutputMode::FileOnly);
    assert_eq!(settings.file_path.as_deref(), Some("/tmp/idps.log"));
    assert_eq!(settings.path_style.as_deref(), Some("file_path"));

    assert_eq!(select_path_info("file_path", "a.rs", "m::n"), "a.rs");
    assert_eq!(select_path_info("module", "a.rs", "m::n"), "m::n");
    assert_eq!(select_path_info("none", "a.rs", "m::n"), "");
    assert_eq!(select_path_info("mystery", "a.rs", "m::n"), "a.rs");
}

#[test]
fn string_equality() {
    assert!(str_eq("abc", "abc"));
    assert!(!str_eq("abc", "abd"));
    assert!(!str_eq("abc", "ab"));
    assert!(str_eq("", ""));
}
