use emotibit_sync::packet::DataPacket;
use emotibit_sync::pairing::{extract_sync_pairs, make_pair, pair_events};
use emotibit_sync::reduce::{device_range, pair_qualifies, reduce_sync_map};
use emotibit_sync::sync::{read_event, sync_events, SyncError, SyncEvent, SyncPair};
use emotibit_sync::syncmap::{DeviceRange, ReductionError, SyncMap, ROUND_TRIP_LIMIT};

fn packet(device: i64, number: u64, tag: &str, payload: &[&str]) -> DataPacket {
    DataPacket {
        local_timestamp: None,
        device_timestamp: device,
        packet_number: number,
        data_length: payload.len() as u32,
        protocol_version: 1,
        data_reliability: 100,
        data_type: tag.to_string(),
        payload: payload.iter().map(|s| s.to_string()).collect(),
    }
}

fn request(id: u32, at: i64) -> SyncEvent {
    SyncEvent::Request { id, device_time: at }
}

fn ack(id: u32, at: i64) -> SyncEvent {
    SyncEvent::Acknowledgement { id, device_time: at }
}

fn clock(host: i64) -> SyncEvent {
    SyncEvent::HostClock { host_time: host }
}

fn pair(id: u32, received: i64, sent: i64, host: Option<i64>) -> SyncPair {
    SyncPair {
        request_id: id,
        ts_received: received,
        ts_sent: sent,
        ack_id: id,
        round_trip: sent - received,
        host_time: host,
    }
}

#[test]
fn reads_the_event_of_each_kind_of_packet() {
    assert_eq!(read_event(&packet(1000, 7, "RD", &["TL", "TU"])), Some(request(7, 1000)));
    assert_eq!(read_event(&packet(1012, 8, "AK", &["7", "RD"])), Some(ack(7, 1012)));
    assert_eq!(
        read_event(&packet(1005, 9, "TL", &["1970-01-01_00-00-10-000"])),
        Some(clock(10_000))
    );
    assert_eq!(read_event(&packet(1005, 9, "HR", &["70"])), None);
}

#[test]
fn passes_over_packets_without_a_readable_id_or_clock() {
    assert_eq!(read_event(&packet(1, 4_294_967_296, "RD", &[])), None);
    assert_eq!(read_event(&packet(1, 4_294_967_295, "RD", &[])), Some(request(u32::MAX, 1)));
    assert_eq!(read_event(&packet(1, 1, "AK", &[])), None);
    assert_eq!(read_event(&packet(1, 1, "AK", &["RD", "7"])), None);
    assert_eq!(read_event(&packet(1, 1, "AK", &["4294967296", "RD"])), None);
    assert_eq!(read_event(&packet(1, 1, "AK", &["4294967295"])), Some(ack(u32::MAX, 1)));
    assert_eq!(read_event(&packet(1, 1, "TL", &[])), None);
    assert_eq!(read_event(&packet(1, 1, "TL", &["yesterday"])), None);
}

#[test]
fn collects_events_in_stream_order() {
    let packets = vec![
        packet(1000, 1, "RD", &["TL"]),
        packet(1001, 2, "HR", &["70"]),
        packet(1005, 3, "TL", &["1970-01-01_00-00-10-000"]),
        packet(1010, 4, "AK", &["1", "RD"]),
        packet(1011, 5, "AK", &["oops"]),
    ];
    assert_eq!(
        sync_events(&packets),
        Ok(vec![request(1, 1000), clock(10_000), ack(1, 1010)])
    );
}

#[test]
fn a_stream_without_sync_packets_has_no_events_and_no_error() {
    assert_eq!(sync_events(&Vec::new()), Ok(Vec::new()));
    let packets = vec![packet(1, 1, "HR", &["70"]), packet(2, 2, "TL", &["nonsense"])];
    assert_eq!(sync_events(&packets), Ok(Vec::new()));
    assert_eq!(extract_sync_pairs(&packets), Ok(Vec::new()));
}

#[test]
fn sync_packets_without_any_readable_id_are_a_structural_error() {
    let packets = vec![
        packet(1, 1, "HR", &["70"]),
        packet(2, 2, "AK", &["x", "RD"]),
        packet(3, 3, "AK", &[]),
    ];
    assert_eq!(sync_events(&packets), Err(SyncError::NoTransactionId));
    assert_eq!(extract_sync_pairs(&packets), Err(SyncError::NoTransactionId));
    let packets = vec![packet(2, 5_000_000_000, "RD", &["TL"])];
    assert_eq!(extract_sync_pairs(&packets), Err(SyncError::NoTransactionId));
}

#[test]
fn one_readable_id_is_enough_to_look_for_pairs() {
    let packets = vec![packet(2, 2, "AK", &["x", "RD"]), packet(3, 3, "AK", &["9", "RD"])];
    assert_eq!(sync_events(&packets), Ok(vec![ack(9, 3)]));
    assert_eq!(extract_sync_pairs(&packets), Ok(Vec::new()));
}

#[test]
fn pairs_a_request_with_its_acknowledgement() {
    let pairs = pair_events(&vec![request(7, 1000), ack(7, 1012)]);
    assert_eq!(
        pairs,
        vec![SyncPair {
            request_id: 7,
            ts_received: 1000,
            ts_sent: 1012,
            ack_id: 7,
            round_trip: 12,
            host_time: None,
        }]
    );
}

#[test]
fn a_pair_carries_the_first_host_clock_between_its_ends() {
    let events = vec![
        clock(1),
        request(7, 1000),
        clock(10_000),
        clock(10_001),
        ack(7, 1012),
        clock(10_002),
    ];
    assert_eq!(pair_events(&events), vec![pair(7, 1000, 1012, Some(10_000))]);
}

#[test]
fn round_trips_are_never_negative() {
    let events = vec![
        request(1, 1000),
        ack(1, 990),
        request(2, 2000),
        ack(2, 2000),
        request(3, 3000),
        ack(3, 3100),
    ];
    let pairs = pair_events(&events);
    assert_eq!(pairs, vec![pair(2, 2000, 2000, None), pair(3, 3000, 3100, None)]);
    for p in &pairs {
        assert!(p.round_trip >= 0);
        assert_eq!(p.round_trip, p.ts_sent - p.ts_received);
        assert_eq!(p.ack_id, p.request_id);
    }
}

#[test]
fn a_round_trip_that_does_not_fit_gives_no_pair() {
    assert_eq!(make_pair(1, i64::MIN, i64::MAX, None), None);
    assert_eq!(make_pair(1, -1, i64::MAX, None), None);
    assert_eq!(make_pair(1, 0, i64::MAX, None), Some(pair(1, 0, i64::MAX, None)));
    assert_eq!(make_pair(1, 5, 4, Some(3)), None);
    assert_eq!(make_pair(1, 4, 5, Some(3)), Some(pair(1, 4, 5, Some(3))));
}

#[test]
fn unanswered_requests_and_stray_acknowledgements_are_passed_over() {
    let events = vec![ack(9, 500), request(1, 1000), request(2, 2000), ack(2, 2010), ack(2, 2020)];
    assert_eq!(pair_events(&events), vec![pair(2, 2000, 2010, None)]);
    assert_eq!(pair_events(&vec![request(1, 1000)]), Vec::new());
    assert_eq!(pair_events(&vec![ack(1, 1000)]), Vec::new());
    assert_eq!(pair_events(&Vec::new()), Vec::new());
}

#[test]
fn an_acknowledgement_before_its_request_does_not_count() {
    assert_eq!(pair_events(&vec![ack(1, 1000), request(1, 1010)]), Vec::new());
}

#[test]
fn the_earliest_of_repeated_requests_is_matched() {
    let events = vec![request(4, 1000), request(4, 1003), request(4, 1006), ack(4, 1010)];
    assert_eq!(pair_events(&events), vec![pair(4, 1000, 1010, None)]);
}

#[test]
fn an_id_can_be_used_again_once_it_is_acknowledged() {
    let events = vec![request(4, 1000), ack(4, 1010), request(4, 2000), ack(4, 2015)];
    assert_eq!(
        pair_events(&events),
        vec![pair(4, 1000, 1010, None), pair(4, 2000, 2015, None)]
    );
}

#[test]
fn pairs_come_out_in_the_order_of_their_requests() {
    let events = vec![request(1, 1000), request(2, 1001), ack(2, 1005), ack(1, 1009)];
    assert_eq!(
        pair_events(&events),
        vec![pair(1, 1000, 1009, None), pair(2, 1001, 1005, None)]
    );
}

#[test]
fn a_pair_whose_times_are_out_of_order_still_closes_its_request() {
    // The first acknowledgement closes the request although it gives no
    // pair; the second one finds nothing pending.
    let events = vec![request(1, 1000), ack(1, 900), ack(1, 1100)];
    assert_eq!(pair_events(&events), Vec::new());
}

#[test]
fn extracts_pairs_from_packets() {
    let packets = vec![
        packet(1000, 1, "RD", &["TL"]),
        packet(1005, 2, "TL", &["1970-01-01_00-00-10-000"]),
        packet(1010, 3, "AK", &["1", "RD"]),
        packet(1500, 4, "HR", &["70"]),
    ];
    assert_eq!(extract_sync_pairs(&packets), Ok(vec![pair(1, 1000, 1010, Some(10_000))]));
}

#[test]
fn finds_the_device_range() {
    assert_eq!(device_range(&Vec::new()), None);
    assert_eq!(
        device_range(&vec![packet(5, 1, "HR", &[])]),
        Some(DeviceRange { start: 5, end: 5 })
    );
    let packets = vec![
        packet(30, 1, "HR", &[]),
        packet(-10, 2, "HR", &[]),
        packet(70, 3, "HR", &[]),
        packet(20, 4, "HR", &[]),
    ];
    assert_eq!(device_range(&packets), Some(DeviceRange { start: -10, end: 70 }));
}

#[test]
fn a_pair_qualifies_with_a_short_round_trip_and_a_host_clock() {
    assert_eq!(ROUND_TRIP_LIMIT, 1000);
    assert!(pair_qualifies(&pair(1, 0, 0, Some(5))));
    assert!(pair_qualifies(&pair(1, 0, 999, Some(5))));
    assert!(!pair_qualifies(&pair(1, 0, 1000, Some(5))));
    assert!(!pair_qualifies(&pair(1, 0, 12, None)));
    let mut broken = pair(1, 0, 12, Some(5));
    broken.round_trip = -1;
    assert!(!pair_qualifies(&broken));
}

const RANGE: DeviceRange = DeviceRange { start: 10, end: 9000 };

#[test]
fn no_qualifying_pair_is_no_usable_sync() {
    assert_eq!(reduce_sync_map(&Vec::new(), RANGE), Err(ReductionError::NoUsableSync));
    let pairs = vec![pair(1, 100, 110, None), pair(2, 200, 1500, Some(7))];
    assert_eq!(reduce_sync_map(&pairs, RANGE), Err(ReductionError::NoUsableSync));
}

#[test]
fn one_qualifying_pair_is_not_enough() {
    let pairs = vec![pair(1, 100, 110, Some(5000)), pair(2, 200, 210, None)];
    assert_eq!(reduce_sync_map(&pairs, RANGE), Err(ReductionError::SingleSync));
}

#[test]
fn pairs_at_one_device_time_give_no_map() {
    let pairs = vec![pair(1, 100, 110, Some(5000)), pair(2, 100, 120, Some(6000))];
    assert_eq!(reduce_sync_map(&pairs, RANGE), Err(ReductionError::DegenerateSpan));
    let pairs = vec![
        pair(1, 100, 110, Some(5000)),
        pair(2, 100, 120, Some(6000)),
        pair(3, 100, 130, Some(7000)),
    ];
    assert_eq!(reduce_sync_map(&pairs, RANGE), Err(ReductionError::DegenerateSpan));
}

fn expected_map(te0: i64, te1: i64, tl0: i64, tl1: i64, count: u64) -> SyncMap {
    SyncMap {
        te0,
        te1,
        tl0,
        tl1,
        sync_count: count,
        device_start_time: 10,
        device_end_time: 9000,
        parser_version: "1.0.0".to_string(),
    }
}

#[test]
fn the_map_runs_through_the_first_and_the_last_qualifying_pair() {
    let pairs = vec![
        pair(1, 100, 2000, Some(1)),
        pair(2, 1000, 1010, Some(10_000)),
        pair(3, 1500, 1510, Some(11_000)),
        pair(4, 1700, 1705, None),
        pair(5, 2000, 2008, Some(12_000)),
        pair(6, 3000, 5000, Some(99)),
    ];
    assert_eq!(
        reduce_sync_map(&pairs, RANGE),
        Ok(expected_map(1000, 2000, 10_000, 12_000, 3))
    );
}

#[test]
fn two_qualifying_pairs_are_enough() {
    let pairs = vec![pair(1, 1000, 1010, Some(10_000)), pair(2, 2000, 2008, Some(12_000))];
    let map = reduce_sync_map(&pairs, RANGE).unwrap();
    assert_eq!(map, expected_map(1000, 2000, 10_000, 12_000, 2));
    assert!(map.te1 >= map.te0);
    assert!(map.sync_count >= 2);
}

#[test]
fn the_map_takes_the_earliest_and_latest_device_times_whatever_the_order() {
    let pairs = vec![
        pair(1, 2000, 2008, Some(12_000)),
        pair(2, 1000, 1010, Some(10_000)),
        pair(3, 1500, 1510, Some(11_000)),
    ];
    assert_eq!(
        reduce_sync_map(&pairs, RANGE),
        Ok(expected_map(1000, 2000, 10_000, 12_000, 3))
    );
}

#[test]
fn among_equal_device_times_the_first_opens_and_the_last_closes_the_map() {
    let pairs = vec![
        pair(1, 1000, 1010, Some(10_000)),
        pair(2, 1000, 1020, Some(10_500)),
        pair(3, 2000, 2008, Some(12_000)),
        pair(4, 2000, 2009, Some(12_700)),
    ];
    assert_eq!(
        reduce_sync_map(&pairs, RANGE),
        Ok(expected_map(1000, 2000, 10_000, 12_700, 4))
    );
}
