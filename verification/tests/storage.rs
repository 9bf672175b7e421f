use idps_node::errors::DatabaseError;
use idps_node::repository::PacketRepository;
use idps_node::types::{
    EtherType, InetAddr, IpAddress, IpProtocol, MacAddr, PacketData,
};

fn sample_packet(k: u8) -> PacketData {
    PacketData {
        src_mac: MacAddr([1, 2, 3, 4, 5, k]),
        dst_mac: MacAddr([6, 7, 8, 9, 10, k]),
        ether_type: EtherType::new(0x0800),
        src_ip: InetAddr(IpAddress::V4([10, 0, 0, k])),
        dst_ip: InetAddr(IpAddress::V4([10, 0, 1, k])),
        src_port: 1000 + k as i32,
        dst_port: 80,
        ip_protocol: IpProtocol::new(6),
        timestamp_micros: 1_000_000 + k as i64,
        raw_packet: vec![k; 54],
    }
}

#[test]
fn a_flush_of_125_packets_makes_three_chunks() {
    let packets: Vec<PacketData> = (0..125).map(|k| sample_packet(k as u8)).collect();
    let chunks = PacketRepository::chunk_count(packets.len());
    assert_eq!(chunks, 3);

    let mut total = 0;
    let expected = [50usize, 50, 25];
    for k in 0..chunks {
        let chunk = PacketRepository::chunk(&packets, k);
        assert_eq!(chunk.len(), expected[k]);
        assert_eq!(chunk[0].raw_packet, vec![(k * 50) as u8; 54]);
        let batch = PacketRepository::build_insert_batch(7, &chunk);
        assert_eq!(batch.node_ids.len(), expected[k]);
        assert!(batch.node_ids.iter().all(|n| *n == 7));
        assert_eq!(batch.timestamps.len(), expected[k]);
        assert_eq!(batch.raw_packets.len(), expected[k]);
        total += chunk.len();
    }
    assert_eq!(total, 125);
}

#[test]
fn chunk_counts_around_the_boundary() {
    assert_eq!(PacketRepository::chunk_count(0), 0);
    assert_eq!(PacketRepository::chunk_count(1), 1);
    assert_eq!(PacketRepository::chunk_count(50), 1);
    assert_eq!(PacketRepository::chunk_count(51), 2);
    assert_eq!(PacketRepository::chunk_count(100), 2);
}

#[test]
fn insert_batch_columns_are_row_aligned() {
    let packets = vec![sample_packet(1), sample_packet(2)];
    let batch = PacketRepository::build_insert_batch(3, &packets);
    assert_eq!(batch.node_ids, vec![3, 3]);
    assert_eq!(batch.timestamps, vec![1_000_001, 1_000_002]);
    assert_eq!(batch.src_macs[0].0, [1, 2, 3, 4, 5, 1]);
    assert_eq!(batch.dst_macs[1].0, [6, 7, 8, 9, 10, 2]);
    assert_eq!(batch.ether_types, vec![0x0800, 0x0800]);
    assert_eq!(batch.ip_protocols, vec![6, 6]);
    assert_eq!(batch.src_ips[0].0, IpAddress::V4([10, 0, 0, 1]));
    assert_eq!(batch.dst_ips[1].0, IpAddress::V4([10, 0, 1, 2]));
    assert_eq!(batch.src_ports, vec![1001, 1002]);
    assert_eq!(batch.dst_ports, vec![80, 80]);
    assert_eq!(batch.raw_packets[0], vec![1; 54]);
}

#[test]
fn retry_delays_back_off_then_give_up() {
    assert_eq!(PacketRepository::next_retry_delay_ms(0), Some(100));
    assert_eq!(PacketRepository::next_retry_delay_ms(1), Some(200));
    assert_eq!(PacketRepository::next_retry_delay_ms(2), Some(300));
    assert_eq!(PacketRepository::next_retry_delay_ms(3), None);
    assert_eq!(PacketRepository::next_retry_delay_ms(100), None);
}

#[test]
fn row_count_mismatch_is_a_hard_error() {
    assert!(PacketRepository::verify_insert_count(50, 50).is_ok());
    assert!(matches!(
        PacketRepository::verify_insert_count(50, 49),
        Err(DatabaseError::QueryExecutionError(_))
    ));
}

#[test]
fn mac_column_encoding_is_the_raw_octets() {
    let mac = MacAddr([0xDE, 0xAD, 0xBE, 0xEF, 0x00, 0x01]);
    assert_eq!(mac.to_sql_bytes(), vec![0xDE, 0xAD, 0xBE, 0xEF, 0x00, 0x01]);
    assert_eq!(
        MacAddr::from_sql_bytes(&[1, 2, 3, 4, 5, 6]).map(|m| m.0),
        Some([1, 2, 3, 4, 5, 6])
    );
    assert!(MacAddr::from_sql_bytes(&[1, 2, 3]).is_none());
}

#[test]
fn inet_column_encoding_is_tagged() {
    let v4 = InetAddr(IpAddress::V4([10, 0, 0, 1]));
    assert_eq!(v4.to_sql_bytes(), vec![2, 32, 1, 4, 10, 0, 0, 1]);

    let mut octets = [0u8; 16];
    octets[15] = 1;
    let v6 = InetAddr(IpAddress::V6(octets));
    let mut expected = vec![3, 128, 1, 16];
    expected.extend_from_slice(&octets);
    assert_eq!(v6.to_sql_bytes(), expected);
}

#[test]
fn packet_duplicate_is_field_for_field() {
    let p = sample_packet(9);
    let q = p.duplicate();
    assert_eq!(q.src_mac, p.src_mac);
    assert_eq!(q.raw_packet, p.raw_packet);
    assert_eq!(q.timestamp_micros, p.timestamp_micros);
}
