//! The whole run: from the rows of a log to the contents of every output
//! file.
//!
//! A row that does not decode, a stream without readable exchanges, and
//! exchanges that give no map each end up in their own diagnostic output;
//! none of them stops the run, and none of them costs a packet its record.

use crate::mux::{signal_tables, signal_tables_of, table_views};
use crate::names::{base_name, base_name_of, NameError};
use crate::packet::{texts, DataPacket, ErrorView, PacketView};
use crate::pairing::{extract_sync_pairs, pairs_of};
use crate::reduce::{device_range, device_range_of, reduce_sync_map};
use crate::reproject::{reproject_all, reprojected_all};
use crate::stream::{
    build_stream, error_views, errors_upto, packet_views, valid_upto, PacketStream,
};
use crate::sync::{events_of, no_transaction_id, SyncError, SyncPair};
use crate::syncmap::{reduced, reduction_view, ReductionError, SyncMap, SyncMapView};
use crate::tables::{
    error_report, error_report_of, pairs_view, sync_map_table, sync_map_table_of,
    timesync_table, timesync_table_of, ErrorReport, ErrorReportView, Table, TableView,
};
use vstd::prelude::*;

verus! {

/// The contents of every output file of one run.
#[derive(Debug, Clone, PartialEq, Eq)]
pub struct Outputs {
    /// The decode errors, one line each.
    pub errors: ErrorReport,
    /// The sync pairs, or the record that says why there are none.
    pub timesyncs: Table,
    /// The sync map, or the record that says why there is none.
    pub sync_map: Table,
    /// One table per signal type, in order of first appearance.
    pub signals: Vec<Table>,
}

/// The mathematical content of [`Outputs`].
pub struct OutputsView {
    pub errors: ErrorReportView,
    pub timesyncs: TableView,
    pub sync_map: TableView,
    pub signals: Seq<TableView>,
}

impl View for Outputs {
    type V = OutputsView;

    open spec fn view(&self) -> OutputsView {
        OutputsView {
            errors: self.errors@,
            timesyncs: self.timesyncs@,
            sync_map: self.sync_map@,
            signals: table_views(self.signals@),
        }
    }
}

/// The outcome of the search for exchanges in a packet stream.
pub open spec fn found_pairs(packets: Seq<PacketView>) -> Result<Seq<SyncPair>, SyncError> {
    if no_transaction_id(packets) {
        Err(SyncError::NoTransactionId)
    } else {
        Ok(pairs_of(events_of(packets)))
    }
}

/// The outcome of the reduction for a packet stream and the outcome of
/// its search for exchanges. A failed search counts as no pairs, and so
/// does a stream without packets.
pub open spec fn sync_map_of(pairs: Result<Seq<SyncPair>, SyncError>, packets: Seq<PacketView>)
    -> Result<SyncMapView, ReductionError> {
    match (pairs, device_range_of(packets)) {
        (Ok(found), Some(range)) => reduced(found, range),
        _ => Err(ReductionError::NoUsableSync),
    }
}

/// The map of a reduction that gave one.
pub open spec fn map_of(r: Result<SyncMapView, ReductionError>) -> Option<SyncMapView> {
    match r {
        Ok(m) => Some(m),
        Err(_) => None,
    }
}

/// The outputs for a decoded stream under a base name.
pub open spec fn planned(base: Seq<char>, valid: Seq<PacketView>, errors: Seq<ErrorView>)
    -> OutputsView {
    let pairs = found_pairs(valid);
    let map = sync_map_of(pairs, valid);
    OutputsView {
        errors: error_report_of(base, errors),
        timesyncs: timesync_table_of(base, pairs),
        sync_map: sync_map_table_of(base, map),
        signals: signal_tables_of(base, reprojected_all(map_of(map), valid)),
    }
}

/// The outputs for the rows of a log under a base name.
pub open spec fn processed(base: Seq<char>, rows: Seq<Seq<char>>) -> OutputsView {
    planned(base, valid_upto(rows, rows.len() as int), errors_upto(rows, rows.len() as int))
}

/// The content of the outcome of a run.
pub open spec fn run_view(r: Result<Outputs, NameError>) -> Result<OutputsView, NameError> {
    match r {
        Ok(outputs) => Ok(outputs@),
        Err(e) => Err(e),
    }
}

/// The outcome of a run on the rows of the file called `file_name`: the
/// outputs under the file's base name, or, before anything is laid out, the
/// error of a name that gives no base name.
pub open spec fn run_of(file_name: Seq<char>, rows: Seq<Seq<char>>) -> Result<
    OutputsView,
    NameError,
> {
    match base_name_of(file_name) {
        Ok(base) => Ok(processed(base, rows)),
        Err(e) => Err(e),
    }
}

/// Two runs on the same rows under the same base name lay out the same
/// outputs, to the last character.
pub proof fn lemma_same_input_same_outputs(
    first: OutputsView,
    second: OutputsView,
    base: Seq<char>,
    rows: Seq<Seq<char>>,
)
    requires
        first == processed(base, rows),
        second == processed(base, rows),
    ensures
        first == second,
        first.sync_map.records == second.sync_map.records,
        first.signals == second.signals,
{
}

/// Computes the sync map of a packet stream from the outcome of its search
/// for exchanges.
pub fn make_sync_map(pairs: &Result<Vec<SyncPair>, SyncError>, packets: &Vec<DataPacket>) -> (r:
    Result<SyncMap, ReductionError>)
    ensures
        reduction_view(r) == sync_map_of(pairs_view(*pairs), packet_views(packets@)),
        r matches Ok(map) ==> map@.usable(),
{
    match pairs {
        Ok(found) => match device_range(packets) {
            Some(range) => reduce_sync_map(found, range),
            None => Err(ReductionError::NoUsableSync),
        },
        Err(_) => Err(ReductionError::NoUsableSync),
    }
}

/// Lays out every output for a decoded stream.
pub fn plan_outputs(base: &str, stream: PacketStream) -> (outputs: Outputs)
    ensures
        outputs@ == planned(base@, packet_views(stream.valid@), error_views(stream.errors@)),
{
    let PacketStream { valid, errors } = stream;
    let errors_out: ErrorReport = error_report(base, &errors);
    let pairs: Result<Vec<SyncPair>, SyncError> = extract_sync_pairs(&valid);
    let timesyncs: Table = timesync_table(base, &pairs);
    let map: Result<SyncMap, ReductionError> = make_sync_map(&pairs, &valid);
    let sync_map: Table = sync_map_table(base, &map);
    let stamped: Vec<DataPacket> = match &map {
        Ok(m) => reproject_all(valid, Some(m)),
        Err(_) => reproject_all(valid, None),
    };
    let signals: Vec<Table> = signal_tables(base, &stamped);
    Outputs { errors: errors_out, timesyncs, sync_map, signals }
}

/// Decodes the rows of a log and lays out every output under `base`.
pub fn process_log(base: &str, rows: &Vec<String>) -> (outputs: Outputs)
    ensures
        outputs@ == processed(base@, texts(rows@)),
{
    plan_outputs(base, build_stream(rows))
}

/// Runs the whole pipeline on the rows of the file called `file_name`.
///
/// Fails, before anything is laid out, exactly when the name has no
/// extension to take away.
pub fn process_file(file_name: &str, rows: &Vec<String>) -> (r: Result<Outputs, NameError>)
    ensures
        run_view(r) == run_of(file_name@, texts(rows@)),
{
    match base_name(file_name) {
        Ok(base) => Ok(process_log(base.as_str(), rows)),
        Err(e) => Err(e),
    }
}

} // verus!
