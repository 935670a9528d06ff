use emotibit_sync::mux::{signal_table, signal_tables, type_tags};
use emotibit_sync::packet::{DataPacket, DecodeReason, ParseError};
use emotibit_sync::pipeline::{make_sync_map, plan_outputs, process_file, process_log};
use emotibit_sync::render::{
    reason_words, reduction_error_words, render_error, render_map, render_packet, render_pair,
    sync_error_words,
};
use emotibit_sync::names::NameError;
use emotibit_sync::stream::PacketStream;
use emotibit_sync::sync::{SyncError, SyncPair};
use emotibit_sync::syncmap::{ReductionError, SyncMap};
use emotibit_sync::tables::{
    error_report, make_output_name, make_signal_header, sync_map_table, timesync_table,
};

fn strings(items: &[&str]) -> Vec<String> {
    items.iter().map(|s| s.to_string()).collect()
}

fn packet(device: i64, number: u64, tag: &str, payload: &[&str]) -> DataPacket {
    DataPacket {
        local_timestamp: None,
        device_timestamp: device,
        packet_number: number,
        data_length: payload.len() as u32,
        protocol_version: 1,
        data_reliability: 100,
        data_type: tag.to_string(),
        payload: strings(payload),
    }
}

const SIGNAL_PREFIX: [&str; 7] = [
    "LocalTimestamp",
    "EmotiBitTimestamp",
    "PacketNumber",
    "DataLength",
    "TypeTag",
    "ProtocolVersion",
    "DataReliability",
];

fn signal_header(tag: &str) -> Vec<String> {
    let mut header = strings(&SIGNAL_PREFIX);
    header.push(tag.to_string());
    header
}

#[test]
fn names_the_output_files() {
    assert_eq!(make_output_name("rec", "ERROR"), "rec_ERROR.csv");
    assert_eq!(make_output_name("rec", "timesyncs"), "rec_timesyncs.csv");
    assert_eq!(make_output_name("rec", "timeSyncMap"), "rec_timeSyncMap.csv");
    assert_eq!(make_output_name("rec", "HR"), "rec_HR.csv");
    assert_eq!(make_output_name("", ""), "_.csv");
}

#[test]
fn renders_a_packet_without_host_time() {
    let record = render_packet(&packet(1126349, 49106, "AX", &["0.5", "-0.25"]));
    assert_eq!(record, strings(&["", "1126349", "49106", "2", "AX", "1", "100", "0.5", "-0.25"]));
}

#[test]
fn renders_a_packet_with_host_time() {
    let mut p = packet(-5, 0, "HR", &[]);
    p.local_timestamp = Some(1_589_802_007_635);
    p.data_length = 3;
    p.protocol_version = 255;
    p.data_reliability = 0;
    assert_eq!(
        render_packet(&p),
        strings(&["1589802007635", "-5", "0", "3", "HR", "255", "0"])
    );
}

#[test]
fn renders_a_pair() {
    let pair = SyncPair {
        request_id: 7,
        ts_received: 1000,
        ts_sent: 1012,
        ack_id: 7,
        round_trip: 12,
        host_time: Some(5),
    };
    assert_eq!(render_pair(&pair), strings(&["7", "1000", "1012", "7", "12"]));
}

fn sample_map() -> SyncMap {
    SyncMap {
        te0: 1000,
        te1: 2000,
        tl0: 10_000,
        tl1: 12_000,
        sync_count: 2,
        device_start_time: -4,
        device_end_time: 2500,
        parser_version: "1.0.0".to_string(),
    }
}

#[test]
fn renders_a_map() {
    assert_eq!(
        render_map(&sample_map()),
        strings(&["1000", "2000", "10000", "12000", "2", "-4", "2500", "1.0.0"])
    );
}

#[test]
fn renders_a_decode_error() {
    let error = ParseError {
        row_index: 12,
        raw: "1,2,3".to_string(),
        reason: DecodeReason::FieldCount,
    };
    assert_eq!(render_error(&error), "row 12: missing column, record: 1,2,3");
}

#[test]
fn every_reason_has_its_words() {
    assert_eq!(reason_words(DecodeReason::FieldCount), "missing column");
    assert_eq!(reason_words(DecodeReason::NonNumeric), "field is not a number");
    assert_eq!(reason_words(DecodeReason::UnknownTypeTag), "unknown type tag");
    assert_eq!(
        reason_words(DecodeReason::LengthMismatch),
        "payload length differs from data length"
    );
    assert_eq!(
        reason_words(DecodeReason::BadTimestamp),
        "timestamp is not a whole number of milliseconds"
    );
    assert_eq!(
        sync_error_words(SyncError::NoTransactionId),
        "sync packets carry no readable transaction id"
    );
    assert_eq!(reduction_error_words(ReductionError::NoUsableSync), "no usable sync data");
    assert_eq!(reduction_error_words(ReductionError::SingleSync), "only one usable sync pair");
    assert_eq!(
        reduction_error_words(ReductionError::DegenerateSpan),
        "usable sync pairs share one device time"
    );
}

#[test]
fn the_signal_header_ends_with_the_type() {
    assert_eq!(make_signal_header("HR"), signal_header("HR"));
}

#[test]
fn the_timesync_table_lists_the_pairs_under_its_header() {
    let pair = SyncPair {
        request_id: 7,
        ts_received: 1000,
        ts_sent: 1012,
        ack_id: 7,
        round_trip: 12,
        host_time: None,
    };
    let table = timesync_table("rec", &Ok(vec![pair, SyncPair { request_id: 8, ..pair }]));
    assert_eq!(table.file_name, "rec_timesyncs.csv");
    assert_eq!(
        table.records,
        vec![
            strings(&["RD", "TS_received", "TS_sent", "AK", "RoundTrip"]),
            strings(&["7", "1000", "1012", "7", "12"]),
            strings(&["8", "1000", "1012", "7", "12"]),
        ]
    );
    let table = timesync_table("rec", &Ok(Vec::new()));
    assert_eq!(
        table.records,
        vec![strings(&["RD", "TS_received", "TS_sent", "AK", "RoundTrip"])]
    );
}

#[test]
fn the_timesync_table_reports_a_failed_search_in_one_record() {
    let table = timesync_table("rec", &Err(SyncError::NoTransactionId));
    assert_eq!(table.file_name, "rec_timesyncs.csv");
    assert_eq!(
        table.records,
        vec![strings(&["sync packets carry no readable transaction id"])]
    );
}

#[test]
fn the_sync_map_table_holds_the_map_under_its_header() {
    let table = sync_map_table("rec", &Ok(sample_map()));
    assert_eq!(table.file_name, "rec_timeSyncMap.csv");
    assert_eq!(
        table.records,
        vec![
            strings(&[
                "TE0",
                "TE1",
                "TL0",
                "TL1",
                "TimeSyncsReceived",
                "EmotiBitStartTime",
                "EmotiBitEndTime",
                "DataParserVersion"
            ]),
            strings(&["1000", "2000", "10000", "12000", "2", "-4", "2500", "1.0.0"]),
        ]
    );
}

#[test]
fn the_sync_map_table_reports_a_failed_reduction_in_one_record() {
    for (error, words) in [
        (ReductionError::NoUsableSync, "no usable sync data"),
        (ReductionError::SingleSync, "only one usable sync pair"),
        (ReductionError::DegenerateSpan, "usable sync pairs share one device time"),
    ] {
        let table = sync_map_table("rec", &Err(error));
        assert_eq!(table.records, vec![strings(&[words])]);
    }
}

#[test]
fn the_error_report_has_one_line_per_error() {
    let errors = vec![
        ParseError { row_index: 0, raw: "x".to_string(), reason: DecodeReason::FieldCount },
        ParseError {
            row_index: 3,
            raw: "1,1,1,ZZ,1,100,5".to_string(),
            reason: DecodeReason::UnknownTypeTag,
        },
    ];
    let report = error_report("rec", &errors);
    assert_eq!(report.file_name, "rec_ERROR.csv");
    assert_eq!(
        report.lines,
        strings(&[
            "row 0: missing column, record: x",
            "row 3: unknown type tag, record: 1,1,1,ZZ,1,100,5"
        ])
    );
    assert_eq!(error_report("rec", &Vec::new()).lines, Vec::<String>::new());
}

fn mixed_packets() -> Vec<DataPacket> {
    vec![
        packet(10, 1, "HR", &["70"]),
        packet(20, 2, "AX", &["0.5"]),
        packet(30, 3, "HR", &["71"]),
        packet(40, 4, "T1", &["36.6"]),
        packet(50, 5, "AX", &["0.75"]),
        packet(60, 6, "HR", &["72"]),
    ]
}

#[test]
fn type_tags_are_distinct_and_in_order_of_first_appearance() {
    assert_eq!(type_tags(&mixed_packets()), strings(&["HR", "AX", "T1"]));
    assert_eq!(type_tags(&Vec::new()), Vec::<String>::new());
}

#[test]
fn a_signal_table_holds_the_packets_of_its_type_only() {
    let table = signal_table("rec", "AX", &mixed_packets());
    assert_eq!(table.file_name, "rec_AX.csv");
    assert_eq!(
        table.records,
        vec![
            signal_header("AX"),
            strings(&["", "20", "2", "1", "AX", "1", "100", "0.5"]),
            strings(&["", "50", "5", "1", "AX", "1", "100", "0.75"]),
        ]
    );
    let table = signal_table("rec", "PI", &mixed_packets());
    assert_eq!(table.records, vec![signal_header("PI")]);
}

#[test]
fn every_type_gets_exactly_one_table_of_its_own_packets() {
    let packets = mixed_packets();
    let tables = signal_tables("rec", &packets);
    let names: Vec<&str> = tables.iter().map(|t| t.file_name.as_str()).collect();
    assert_eq!(names, vec!["rec_HR.csv", "rec_AX.csv", "rec_T1.csv"]);
    let tags = ["HR", "AX", "T1"];
    let mut data_rows = 0;
    for (table, tag) in tables.iter().zip(tags.iter()) {
        assert_eq!(table.records[0], signal_header(tag));
        for record in &table.records[1..] {
            assert_eq!(record[4], *tag);
            data_rows += 1;
        }
    }
    assert_eq!(data_rows, packets.len());
    for p in &packets {
        let name = format!("rec_{}.csv", p.data_type);
        assert_eq!(tables.iter().filter(|t| t.file_name == name).count(), 1);
    }
    assert_eq!(tables[0].records.len(), 4);
    assert_eq!(tables[1].records.len(), 3);
    assert_eq!(tables[2].records.len(), 2);
}

#[test]
fn scenario_malformed_row_request_and_acknowledgement() {
    let rows = strings(&[
        "this is not a packet",
        "1000,7,2,RD,1,100,TL,TU",
        "1012,8,2,AK,1,100,7,RD",
    ]);
    let out = process_log("rec", &rows);
    assert_eq!(out.errors.file_name, "rec_ERROR.csv");
    assert_eq!(
        out.errors.lines,
        strings(&["row 0: missing column, record: this is not a packet"])
    );
    assert_eq!(out.timesyncs.file_name, "rec_timesyncs.csv");
    assert_eq!(
        out.timesyncs.records,
        vec![
            strings(&["RD", "TS_received", "TS_sent", "AK", "RoundTrip"]),
            strings(&["7", "1000", "1012", "7", "12"]),
        ]
    );
    assert_eq!(out.sync_map.file_name, "rec_timeSyncMap.csv");
    assert_eq!(out.sync_map.records, vec![strings(&["no usable sync data"])]);
    assert_eq!(out.signals.len(), 2);
    assert_eq!(out.signals[0].file_name, "rec_RD.csv");
    assert_eq!(
        out.signals[0].records,
        vec![signal_header("RD"), strings(&["", "1000", "7", "2", "RD", "1", "100", "TL", "TU"])]
    );
    assert_eq!(out.signals[1].file_name, "rec_AK.csv");
    assert_eq!(
        out.signals[1].records,
        vec![signal_header("AK"), strings(&["", "1012", "8", "2", "AK", "1", "100", "7", "RD"])]
    );
}

#[test]
fn scenario_one_complete_exchange_is_one_pair_too_few() {
    let rows = strings(&[
        "1000,7,2,RD,1,100,TL,TU",
        "1004,8,1,TL,1,100,2020-05-18_11-40-07-635596",
        "1012,9,2,AK,1,100,7,RD",
    ]);
    let out = process_log("rec", &rows);
    assert_eq!(out.timesyncs.records[1], strings(&["7", "1000", "1012", "7", "12"]));
    assert_eq!(out.sync_map.records, vec![strings(&["only one usable sync pair"])]);
}

#[test]
fn scenario_no_sync_pairs_leaves_every_packet_with_an_empty_host_time() {
    let rows = strings(&[
        "10,1,1,HR,1,100,70",
        "20,2,1,AX,1,100,0.5",
        "30,3,1,HR,1,100,71",
        "oops",
        "40,4,2,RD,1,100,TL,TU",
        "50,5,1,T1,1,100,36.5",
    ]);
    let out = process_log("rec", &rows);
    assert_eq!(
        out.timesyncs.records,
        vec![strings(&["RD", "TS_received", "TS_sent", "AK", "RoundTrip"])]
    );
    assert_eq!(out.sync_map.records, vec![strings(&["no usable sync data"])]);
    let names: Vec<&str> = out.signals.iter().map(|t| t.file_name.as_str()).collect();
    assert_eq!(names, vec!["rec_HR.csv", "rec_AX.csv", "rec_RD.csv", "rec_T1.csv"]);
    let mut data_rows = 0;
    for table in &out.signals {
        for record in &table.records[1..] {
            assert_eq!(record[0], "");
            data_rows += 1;
        }
    }
    assert_eq!(data_rows, 5);
    assert_eq!(
        out.signals[0].records,
        vec![
            signal_header("HR"),
            strings(&["", "10", "1", "1", "HR", "1", "100", "70"]),
            strings(&["", "30", "3", "1", "HR", "1", "100", "71"]),
        ]
    );
}

#[test]
fn scenario_unreadable_transaction_ids_degrade_to_no_pairs() {
    let rows = strings(&["10,1,1,HR,1,100,70", "20,2,2,AK,1,100,x,RD"]);
    let out = process_log("rec", &rows);
    assert_eq!(
        out.timesyncs.records,
        vec![strings(&["sync packets carry no readable transaction id"])]
    );
    assert_eq!(out.sync_map.records, vec![strings(&["no usable sync data"])]);
    assert_eq!(out.signals.len(), 2);
    assert_eq!(out.signals[0].records[1][0], "");
    assert_eq!(out.signals[1].records[1][0], "");
}

fn synced_rows() -> Vec<String> {
    strings(&[
        "1000,1,2,RD,1,100,TL,TU",
        "1005,2,1,TL,1,100,1970-01-01_00-00-10-000",
        "1010,3,2,AK,1,100,1,RD",
        "1500,4,1,HR,1,100,70",
        "broken,row",
        "2000,5,2,RD,1,100,TL,TU",
        "2004,6,1,TL,1,100,1970-01-01_00-00-12-000",
        "2008,7,2,AK,1,100,5,RD",
        "2500,8,1,HR,1,100,71",
        "500,9,1,HR,1,100,69",
    ])
}

#[test]
fn scenario_two_exchanges_give_a_map_and_host_times() {
    let out = process_log("session", &synced_rows());
    assert_eq!(out.errors.lines, strings(&["row 4: missing column, record: broken,row"]));
    assert_eq!(
        out.timesyncs.records,
        vec![
            strings(&["RD", "TS_received", "TS_sent", "AK", "RoundTrip"]),
            strings(&["1", "1000", "1010", "1", "10"]),
            strings(&["5", "2000", "2008", "5", "8"]),
        ]
    );
    assert_eq!(
        out.sync_map.records[1],
        strings(&["1000", "2000", "10000", "12000", "2", "500", "2500", "1.0.0"])
    );
    let names: Vec<&str> = out.signals.iter().map(|t| t.file_name.as_str()).collect();
    assert_eq!(
        names,
        vec!["session_RD.csv", "session_TL.csv", "session_AK.csv", "session_HR.csv"]
    );
    assert_eq!(
        out.signals[3].records,
        vec![
            signal_header("HR"),
            strings(&["11000", "1500", "4", "1", "HR", "1", "100", "70"]),
            strings(&["13000", "2500", "8", "1", "HR", "1", "100", "71"]),
            strings(&["9000", "500", "9", "1", "HR", "1", "100", "69"]),
        ]
    );
    assert_eq!(out.signals[0].records[1][0], "10000");
    assert_eq!(out.signals[0].records[2][0], "12000");
    assert_eq!(out.signals[1].records[1][0], "10010");
    assert_eq!(out.signals[2].records[1][0], "10020");
}

#[test]
fn running_twice_gives_the_same_outputs() {
    let rows = synced_rows();
    let first = process_log("session", &rows);
    let second = process_log("session", &rows);
    assert_eq!(first, second);
    assert_eq!(first.sync_map, second.sync_map);
    assert_eq!(first.signals, second.signals);
}

#[test]
fn planning_from_a_decoded_stream_matches_the_whole_run() {
    let stream = PacketStream {
        valid: vec![
            packet(1000, 7, "RD", &["TL", "TU"]),
            packet(1012, 8, "AK", &["7", "RD"]),
        ],
        errors: vec![ParseError {
            row_index: 0,
            raw: "this is not a packet".to_string(),
            reason: DecodeReason::FieldCount,
        }],
    };
    let rows = strings(&[
        "this is not a packet",
        "1000,7,2,RD,1,100,TL,TU",
        "1012,8,2,AK,1,100,7,RD",
    ]);
    assert_eq!(plan_outputs("rec", stream), process_log("rec", &rows));
}

#[test]
fn the_sync_map_needs_pairs_and_packets() {
    let packets = vec![packet(10, 1, "HR", &["70"])];
    assert_eq!(make_sync_map(&Err(SyncError::NoTransactionId), &packets), Err(ReductionError::NoUsableSync));
    assert_eq!(make_sync_map(&Ok(Vec::new()), &packets), Err(ReductionError::NoUsableSync));
    let pairs = vec![
        SyncPair {
            request_id: 1,
            ts_received: 1000,
            ts_sent: 1010,
            ack_id: 1,
            round_trip: 10,
            host_time: Some(10_000),
        },
        SyncPair {
            request_id: 2,
            ts_received: 2000,
            ts_sent: 2010,
            ack_id: 2,
            round_trip: 10,
            host_time: Some(12_000),
        },
    ];
    assert_eq!(make_sync_map(&Ok(pairs.clone()), &Vec::new()), Err(ReductionError::NoUsableSync));
    let map = make_sync_map(&Ok(pairs), &packets).unwrap();
    assert_eq!((map.te0, map.te1, map.tl0, map.tl1), (1000, 2000, 10_000, 12_000));
    assert_eq!((map.device_start_time, map.device_end_time), (10, 10));
}

#[test]
fn an_empty_log_still_gives_the_three_diagnostic_outputs() {
    let out = process_log("rec", &Vec::new());
    assert_eq!(out.errors.lines, Vec::<String>::new());
    assert_eq!(out.timesyncs.records.len(), 1);
    assert_eq!(out.sync_map.records, vec![strings(&["no usable sync data"])]);
    assert!(out.signals.is_empty());
}

#[test]
fn a_run_takes_its_base_name_from_the_file_name() {
    let rows = strings(&["10,1,1,HR,1,100,70"]);
    let out = process_file("2020-05-18.csv", &rows).unwrap();
    assert_eq!(out.errors.file_name, "2020-05-18_ERROR.csv");
    assert_eq!(out.timesyncs.file_name, "2020-05-18_timesyncs.csv");
    assert_eq!(out.sync_map.file_name, "2020-05-18_timeSyncMap.csv");
    assert_eq!(out.signals[0].file_name, "2020-05-18_HR.csv");
    assert_eq!(out, process_log("2020-05-18", &rows));
}

#[test]
fn a_run_on_a_name_without_extension_fails_before_any_output() {
    let rows = strings(&["10,1,1,HR,1,100,70"]);
    assert_eq!(process_file("recording", &rows), Err(NameError::NoExtension));
}
