use idps_node::reader::{PacketReader, ProcessedMarker, StoredPacket};
use idps_node::sender::PacketSender;

fn stored(id: i64, node_id: i16, timestamp_micros: i64, raw: Vec<u8>) -> StoredPacket {
    StoredPacket { id, node_id, timestamp_micros, raw_packet: raw }
}

#[test]
fn fetch_plan_windows() {
    let now = 10_000_000;
    let first = PacketReader::new();
    let plan = first.fetch_plan(now);
    assert_eq!(plan.min_timestamp_micros, 6_000_000);
    assert!(!plan.strict);
    assert!(!plan.mark);

    let later = PacketReader { last_timestamp_micros: Some(7_500_000), is_first_fetch: false };
    let plan = later.fetch_plan(now);
    assert_eq!(plan.min_timestamp_micros, 7_500_000);
    assert!(plan.strict);
    assert!(plan.mark);

    let fallback = PacketReader { last_timestamp_micros: None, is_first_fetch: false };
    let plan = fallback.fetch_plan(now);
    assert_eq!(plan.min_timestamp_micros, 5_000_000);
    assert!(plan.strict);
    assert!(plan.mark);
}

#[test]
fn replay_marks_each_peer_packet_exactly_once() {
    let table = vec![
        stored(1, 2, 9_000_000, vec![0xA1; 60]),
        stored(2, 2, 9_100_000, vec![0xB2; 60]),
    ];
    let mut processed: Vec<ProcessedMarker> = Vec::new();
    let mut reader = PacketReader { last_timestamp_micros: None, is_first_fetch: false };

    let sent = reader.fetch_and_mark(&table, &mut processed, 1, 10_000_000);
    assert_eq!(sent.len(), 2);
    assert_eq!(sent[0].0, 9_000_000);
    assert_eq!(sent[0].1, vec![0xA1; 60]);
    assert_eq!(sent[1].0, 9_100_000);
    assert_eq!(sent[1].1, vec![0xB2; 60]);
    assert_eq!(
        processed,
        vec![
            ProcessedMarker { packet_id: 1, node_id: 1 },
            ProcessedMarker { packet_id: 2, node_id: 1 },
        ]
    );
    assert_eq!(reader.last_timestamp_micros, Some(9_100_000));
    assert!(!reader.is_first_fetch);

    // No new arrivals: the second iteration selects nothing and adds no marker.
    let sent = reader.fetch_and_mark(&table, &mut processed, 1, 10_500_000);
    assert_eq!(sent.len(), 0);
    assert_eq!(processed.len(), 2);
    assert_eq!(reader.last_timestamp_micros, Some(9_100_000));
}

#[test]
fn own_rows_and_stale_rows_are_not_selected() {
    let table = vec![
        stored(1, 1, 9_000_000, vec![1]),  // this node's own packet
        stored(2, 2, 4_000_000, vec![2]),  // older than the window
        stored(3, 2, 9_000_000, vec![3]),
    ];
    let mut processed: Vec<ProcessedMarker> = Vec::new();
    let mut reader = PacketReader { last_timestamp_micros: None, is_first_fetch: false };
    let sent = reader.fetch_and_mark(&table, &mut processed, 1, 10_000_000);
    assert_eq!(sent.len(), 1);
    assert_eq!(sent[0].1, vec![3]);
    assert_eq!(processed, vec![ProcessedMarker { packet_id: 3, node_id: 1 }]);
}

#[test]
fn bootstrap_fetch_sends_without_marking() {
    let table = vec![stored(7, 2, 9_000_000, vec![9; 40])];
    let mut processed: Vec<ProcessedMarker> = Vec::new();
    let mut reader = PacketReader::new();
    let sent = reader.fetch_and_mark(&table, &mut processed, 1, 10_000_000);
    assert_eq!(sent.len(), 1);
    assert!(processed.is_empty());
    assert!(!reader.is_first_fetch);
    assert_eq!(reader.last_timestamp_micros, Some(9_000_000));

    // The cursor now excludes the already replayed row.
    let sent = reader.fetch_and_mark(&table, &mut processed, 1, 10_500_000);
    assert_eq!(sent.len(), 0);
    assert!(processed.is_empty());
}

#[test]
fn already_marked_rows_are_skipped() {
    let table = vec![stored(5, 2, 9_000_000, vec![5])];
    let mut processed = vec![ProcessedMarker { packet_id: 5, node_id: 1 }];
    let mut reader = PacketReader { last_timestamp_micros: None, is_first_fetch: false };
    let sent = reader.fetch_and_mark(&table, &mut processed, 1, 10_000_000);
    assert_eq!(sent.len(), 0);
    assert_eq!(processed.len(), 1);
}

#[test]
fn send_plan_preserves_inter_arrival_gaps() {
    let packets = vec![
        (1_000_000i64, vec![0u8; 100]),
        (1_000_100, vec![0u8; 100]),
        (1_000_400, vec![0u8; 100]),
    ];
    let plan = PacketSender::plan_send(&packets);
    assert_eq!(plan.len(), 3);
    assert_eq!(plan[0].wait_micros, 0);
    assert_eq!(plan[1].wait_micros, 100);
    assert_eq!(plan[2].wait_micros, 300);
    assert!(plan.iter().all(|s| s.send));
    // The cumulative offsets dominate the original spacing.
    let offsets: Vec<i64> = plan
        .iter()
        .scan(0i64, |acc, s| {
            *acc += s.wait_micros;
            Some(*acc)
        })
        .collect();
    assert!(offsets[2] - offsets[0] >= 1_000_400 - 1_000_000);
}

#[test]
fn oversized_frames_are_dropped_and_keep_the_reference() {
    let packets = vec![
        (1_000_000i64, vec![0u8; 100]),
        (1_000_100, vec![0u8; 1501]),
        (1_000_400, vec![0u8; 1500]),
    ];
    let plan = PacketSender::plan_send(&packets);
    assert!(plan[0].send);
    assert!(!plan[1].send);
    assert!(plan[2].send);
    // The skipped frame does not advance the reference time.
    assert_eq!(plan[2].wait_micros, 400);
}

#[test]
fn iteration_pacing() {
    assert_eq!(PacketReader::post_iteration_delay_ms(true), 10);
    assert_eq!(PacketReader::post_iteration_delay_ms(false), 5000);
}
