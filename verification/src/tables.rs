//! The output tables: their names, their headers, and the tables that
//! report the sync pairs, the sync map and the decode errors.

use crate::packet::{texts, ErrorView, ParseError};
use crate::render::{
    error_line, map_record, pair_record, push_field, reduction_error_text,
    reduction_error_words, render_error, render_map, render_pair, sync_error_text,
    sync_error_words,
};
use crate::stream::error_views;
use crate::sync::{SyncError, SyncPair};
use crate::syncmap::{reduction_view, ReductionError, SyncMap, SyncMapView};
use vstd::prelude::*;

verus! {

/// One output file: its name and its records, the header first where the
/// table has one.
#[derive(Debug, Clone, PartialEq, Eq)]
pub struct Table {
    pub file_name: String,
    pub records: Vec<Vec<String>>,
}

/// The mathematical content of a [`Table`].
pub struct TableView {
    pub file_name: Seq<char>,
    pub records: Seq<Seq<Seq<char>>>,
}

/// The text of each field of each record.
pub open spec fn records_view(records: Seq<Vec<String>>) -> Seq<Seq<Seq<char>>> {
    Seq::new(records.len(), |i: int| texts(records[i]@))
}

impl View for Table {
    type V = TableView;

    open spec fn view(&self) -> TableView {
        TableView { file_name: self.file_name@, records: records_view(self.records@) }
    }
}

/// The decode errors as they go to their file: one line each.
#[derive(Debug, Clone, PartialEq, Eq)]
pub struct ErrorReport {
    pub file_name: String,
    pub lines: Vec<String>,
}

/// The mathematical content of an [`ErrorReport`].
pub struct ErrorReportView {
    pub file_name: Seq<char>,
    pub lines: Seq<Seq<char>>,
}

impl View for ErrorReport {
    type V = ErrorReportView;

    open spec fn view(&self) -> ErrorReportView {
        ErrorReportView { file_name: self.file_name@, lines: texts(self.lines@) }
    }
}

/// The name of an output file: the base name of the input, an underscore,
/// the suffix of the output's kind, and `.csv`.
pub open spec fn output_name(base: Seq<char>, suffix: Seq<char>) -> Seq<char> {
    base + "_"@ + suffix + ".csv"@
}

/// Builds the name of an output file.
pub fn make_output_name(base: &str, suffix: &str) -> (name: String)
    ensures
        name@ == output_name(base@, suffix@),
{
    let mut name: String = String::from_str(base);
    name.append("_");
    name.append(suffix);
    name.append(".csv");
    name
}

/// Appends one record to a list of records.
pub fn push_record(records: &mut Vec<Vec<String>>, record: Vec<String>)
    ensures
        records_view(final(records)@) == records_view(old(records)@).push(texts(record@)),
{
    records.push(record);
    assert(records_view(records@) =~= records_view(old(records)@).push(texts(record@)));
}

/// The header of the sync-pairs table.
pub open spec fn timesync_header() -> Seq<Seq<char>> {
    seq!["RD"@, "TS_received"@, "TS_sent"@, "AK"@, "RoundTrip"@]
}

/// The header of the sync-map table.
pub open spec fn sync_map_header() -> Seq<Seq<char>> {
    seq![
        "TE0"@,
        "TE1"@,
        "TL0"@,
        "TL1"@,
        "TimeSyncsReceived"@,
        "EmotiBitStartTime"@,
        "EmotiBitEndTime"@,
        "DataParserVersion"@,
    ]
}

/// The header of the table of one signal type: the seven fixed columns,
/// then a column named after the type.
pub open spec fn signal_header(tag: Seq<char>) -> Seq<Seq<char>> {
    seq![
        "LocalTimestamp"@,
        "EmotiBitTimestamp"@,
        "PacketNumber"@,
        "DataLength"@,
        "TypeTag"@,
        "ProtocolVersion"@,
        "DataReliability"@,
        tag,
    ]
}

fn make_timesync_header() -> (header: Vec<String>)
    ensures
        texts(header@) == timesync_header(),
{
    let mut header: Vec<String> = Vec::new();
    push_field(&mut header, String::from_str("RD"));
    push_field(&mut header, String::from_str("TS_received"));
    push_field(&mut header, String::from_str("TS_sent"));
    push_field(&mut header, String::from_str("AK"));
    push_field(&mut header, String::from_str("RoundTrip"));
    assert(texts(header@) =~= timesync_header());
    header
}

fn make_sync_map_header() -> (header: Vec<String>)
    ensures
        texts(header@) == sync_map_header(),
{
    let mut header: Vec<String> = Vec::new();
    push_field(&mut header, String::from_str("TE0"));
    push_field(&mut header, String::from_str("TE1"));
    push_field(&mut header, String::from_str("TL0"));
    push_field(&mut header, String::from_str("TL1"));
    push_field(&mut header, String::from_str("TimeSyncsReceived"));
    push_field(&mut header, String::from_str("EmotiBitStartTime"));
    push_field(&mut header, String::from_str("EmotiBitEndTime"));
    push_field(&mut header, String::from_str("DataParserVersion"));
    assert(texts(header@) =~= sync_map_header());
    header
}

/// Builds the header of the table of one signal type.
pub fn make_signal_header(tag: &str) -> (header: Vec<String>)
    ensures
        texts(header@) == signal_header(tag@),
{
    let mut header: Vec<String> = Vec::new();
    push_field(&mut header, String::from_str("LocalTimestamp"));
    push_field(&mut header, String::from_str("EmotiBitTimestamp"));
    push_field(&mut header, String::from_str("PacketNumber"));
    push_field(&mut header, String::from_str("DataLength"));
    push_field(&mut header, String::from_str("TypeTag"));
    push_field(&mut header, String::from_str("ProtocolVersion"));
    push_field(&mut header, String::from_str("DataReliability"));
    push_field(&mut header, String::from_str(tag));
    assert(texts(header@) =~= signal_header(tag@));
    header
}

/// The record of each pair, in order.
pub open spec fn pair_records(pairs: Seq<SyncPair>) -> Seq<Seq<Seq<char>>> {
    Seq::new(pairs.len(), |i: int| pair_record(pairs[i]))
}

/// The content of a search for exchanges.
pub open spec fn pairs_view(r: Result<Vec<SyncPair>, SyncError>) -> Result<
    Seq<SyncPair>,
    SyncError,
> {
    match r {
        Ok(pairs) => Ok(pairs@),
        Err(e) => Err(e),
    }
}

/// The sync-pairs table: the header and one record per pair, or, where the
/// search for exchanges failed, the one record that says so.
pub open spec fn timesync_table_of(base: Seq<char>, pairs: Result<Seq<SyncPair>, SyncError>)
    -> TableView {
    TableView {
        file_name: output_name(base, "timesyncs"@),
        records: match pairs {
            Ok(found) => seq![timesync_header()] + pair_records(found),
            Err(e) => seq![seq![sync_error_text(e)]],
        },
    }
}

/// Lays out the sync-pairs table.
pub fn timesync_table(base: &str, pairs: &Result<Vec<SyncPair>, SyncError>) -> (table: Table)
    ensures
        table@ == timesync_table_of(base@, pairs_view(*pairs)),
{
    let mut records: Vec<Vec<String>> = Vec::new();
    match pairs {
        Ok(found) => {
            push_record(&mut records, make_timesync_header());
            let mut i: usize = 0;
            while i < found.len()
                invariant
                    i <= found.len(),
                    records_view(records@) == seq![timesync_header()] + pair_records(
                        found@,
                    ).subrange(0, i as int),
                decreases found.len() - i,
            {
                push_record(&mut records, render_pair(&found[i]));
                i = i + 1;
                assert(records_view(records@) =~= seq![timesync_header()] + pair_records(
                    found@,
                ).subrange(0, i as int));
            }
            assert(pair_records(found@).subrange(0, found.len() as int) =~= pair_records(found@));
        },
        Err(e) => {
            let mut record: Vec<String> = Vec::new();
            push_field(&mut record, String::from_str(sync_error_words(*e)));
            assert(texts(record@) =~= seq![sync_error_text(*e)]);
            push_record(&mut records, record);
            assert(records_view(records@) =~= seq![seq![sync_error_text(*e)]]);
        },
    }
    Table { file_name: make_output_name(base, "timesyncs"), records }
}

/// The sync-map table: the header and the one record of the map, or,
/// where there is no map, the one record that says why.
pub open spec fn sync_map_table_of(base: Seq<char>, map: Result<SyncMapView, ReductionError>)
    -> TableView {
    TableView {
        file_name: output_name(base, "timeSyncMap"@),
        records: match map {
            Ok(m) => seq![sync_map_header(), map_record(m)],
            Err(e) => seq![seq![reduction_error_text(e)]],
        },
    }
}

/// Lays out the sync-map table.
pub fn sync_map_table(base: &str, map: &Result<SyncMap, ReductionError>) -> (table: Table)
    ensures
        table@ == sync_map_table_of(base@, reduction_view(*map)),
{
    let mut records: Vec<Vec<String>> = Vec::new();
    match map {
        Ok(m) => {
            push_record(&mut records, make_sync_map_header());
            push_record(&mut records, render_map(m));
            assert(records_view(records@) =~= seq![sync_map_header(), map_record(m@)]);
        },
        Err(e) => {
            let mut record: Vec<String> = Vec::new();
            push_field(&mut record, String::from_str(reduction_error_words(*e)));
            assert(texts(record@) =~= seq![reduction_error_text(*e)]);
            push_record(&mut records, record);
            assert(records_view(records@) =~= seq![seq![reduction_error_text(*e)]]);
        },
    }
    Table { file_name: make_output_name(base, "timeSyncMap"), records }
}

/// The line of each decode error, in order.
pub open spec fn error_lines(errors: Seq<ErrorView>) -> Seq<Seq<char>> {
    Seq::new(errors.len(), |i: int| error_line(errors[i]))
}

/// The report of the decode errors: one line per error, in row order.
pub open spec fn error_report_of(base: Seq<char>, errors: Seq<ErrorView>) -> ErrorReportView {
    ErrorReportView { file_name: output_name(base, "ERROR"@), lines: error_lines(errors) }
}

/// Lays out the report of the decode errors.
pub fn error_report(base: &str, errors: &Vec<ParseError>) -> (report: ErrorReport)
    ensures
        report@ == error_report_of(base@, error_views(errors@)),
{
    let mut lines: Vec<String> = Vec::new();
    let mut i: usize = 0;
    while i < errors.len()
        invariant
            i <= errors.len(),
            texts(lines@) == error_lines(error_views(errors@)).subrange(0, i as int),
        decreases errors.len() - i,
    {
        push_field(&mut lines, render_error(&errors[i]));
        i = i + 1;
        assert(texts(lines@) =~= error_lines(error_views(errors@)).subrange(0, i as int));
    }
    assert(texts(lines@) =~= error_lines(error_views(errors@)));
    ErrorReport { file_name: make_output_name(base, "ERROR"), lines }
}

} // verus!
