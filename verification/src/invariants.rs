//! What holds of every packet, pair and table that the library makes.

use crate::mux::{records_of_type, signal_tables_of, tags_of};
use crate::packet::{decoded, ErrorView, PacketView, RawFields};
use crate::pairing::{
    ack_from, device_time_of, is_ack, pair_at, pairs_of, pairs_upto,
};
use crate::pipeline::{found_pairs, map_of, planned, sync_map_of};
use crate::reduce::{device_range_of, greatest_time, least_time, lemma_device_range_bounds};
use crate::render::packet_record;
use crate::reproject::reprojected_all;
use crate::stream::{row_outcome, valid_upto};
use crate::sync::{event_of, events_of, events_upto, SyncEvent, SyncPair};
use crate::syncmap::{
    earliest_among, earliest_index, latest_among, latest_index, lemma_extremes_exist,
    lemma_qualifying_upto, lemma_reduction_outcome,
};
use vstd::prelude::*;

verus! {

/// A decoded packet holds as many payload values as it declares and has
/// no host time yet.
pub proof fn lemma_decoded_packet_well_formed(
    index: usize,
    row: Seq<char>,
    parsed: Result<RawFields, Seq<char>>,
)
    ensures
        decoded(index, row, parsed) matches Ok(p) ==> p.payload.len() == p.data_length
            && p.local_timestamp is None,
{
}

/// Whether no packet of the stream has a host time.
pub open spec fn all_unstamped(packets: Seq<PacketView>) -> bool {
    forall|i: int| 0 <= i < packets.len() ==> (#[trigger] packets[i]).local_timestamp is None
}

/// The packets of a freshly decoded log have no host time.
pub proof fn lemma_decoded_stream_unstamped(rows: Seq<Seq<char>>, n: int)
    requires
        0 <= n <= rows.len(),
    ensures
        all_unstamped(valid_upto(rows, n)),
    decreases n,
{
    if n > 0 {
        lemma_decoded_stream_unstamped(rows, n - 1);
        let earlier = valid_upto(rows, n - 1);
        let all = valid_upto(rows, n);
        assert forall|i: int| 0 <= i < all.len() implies (#[trigger] all[i]).local_timestamp is None by {
            if i < earlier.len() {
                assert(all[i] == earlier[i]);
            } else {
                assert(row_outcome(rows, n - 1) == Ok::<PacketView, ErrorView>(all[i]));
            }
        }
    }
}

/// Whether some packet of the stream was captured at device time `t`.
pub open spec fn is_packet_time(packets: Seq<PacketView>, t: i64) -> bool {
    exists|i: int| 0 <= i < packets.len() && (#[trigger] packets[i]).device_timestamp == t
}

/// Whether the event is a request or an acknowledgement.
pub open spec fn is_exchange_event(e: SyncEvent) -> bool {
    e is Request || e is Acknowledgement
}

/// The device time of every request and acknowledgement among the events
/// of a stream is the device time of one of its packets.
pub proof fn lemma_event_times_are_packet_times(packets: Seq<PacketView>, n: int, k: int)
    requires
        0 <= n <= packets.len(),
        0 <= k < events_upto(packets, n).len(),
        is_exchange_event(events_upto(packets, n)[k]),
    ensures
        is_packet_time(packets, device_time_of(events_upto(packets, n)[k])),
    decreases n,
{
    let earlier = events_upto(packets, n - 1);
    if k < earlier.len() {
        assert(events_upto(packets, n)[k] == earlier[k]);
        lemma_event_times_are_packet_times(packets, n - 1, k);
    } else {
        assert(event_of(packets[n - 1]) == Some(events_upto(packets, n)[k]));
        assert(packets[n - 1].device_timestamp == device_time_of(events_upto(packets, n)[k]));
    }
}

/// Where an acknowledgement of `id` is found from `from` on, it stands at
/// or after `from` and is one.
pub proof fn lemma_ack_found(events: Seq<SyncEvent>, id: u32, from: int)
    ensures
        ack_from(events, id, from) matches Some(j) ==> from <= j < events.len() && is_ack(
            events[j],
            id,
        ),
    decreases events.len() - from,
{
    if 0 <= from < events.len() && !is_ack(events[from], id) {
        lemma_ack_found(events, id, from + 1);
    }
}

/// Whether `pair` joins the request at position `i` with the
/// acknowledgement at a later position `j`.
pub open spec fn joins(events: Seq<SyncEvent>, pair: SyncPair, i: int, j: int) -> bool {
    &&& 0 <= i < j < events.len()
    &&& events[i] is Request
    &&& events[j] is Acknowledgement
    &&& pair.ts_received == device_time_of(events[i])
    &&& pair.ts_sent == device_time_of(events[j])
}

/// Whether `pair` joins some request with some later acknowledgement.
pub open spec fn joins_some(events: Seq<SyncEvent>, pair: SyncPair) -> bool {
    exists|i: int, j: int| joins(events, pair, i, j)
}

/// Every pair joins a request of the stream with an acknowledgement that
/// follows it.
pub proof fn lemma_pairs_join_events(events: Seq<SyncEvent>, n: int, k: int)
    requires
        0 <= n <= events.len(),
        0 <= k < pairs_upto(events, n).len(),
    ensures
        joins_some(events, pairs_upto(events, n)[k]),
    decreases n,
{
    let earlier = pairs_upto(events, n - 1);
    let pair = pairs_upto(events, n)[k];
    if k < earlier.len() {
        assert(pair == earlier[k]);
        lemma_pairs_join_events(events, n - 1, k);
    } else {
        let i = n - 1;
        assert(pair_at(events, i) == Some(pair));
        match events[i] {
            SyncEvent::Request { id, device_time } => {
                lemma_ack_found(events, id, i + 1);
                let j = ack_from(events, id, i + 1)->0;
                assert(joins(events, pair, i, j));
            },
            _ => {},
        }
    }
}

/// Both times of every pair lie within the device-time bounds of the
/// stream the pair was found in.
pub proof fn lemma_pair_times_in_range(packets: Seq<PacketView>, k: int)
    requires
        0 <= k < pairs_of(events_of(packets)).len(),
    ensures
        device_range_of(packets) matches Some(range) && range.start <= pairs_of(
            events_of(packets),
        )[k].ts_received <= range.end && range.start <= pairs_of(events_of(packets))[k].ts_sent
            <= range.end,
{
    let events = events_of(packets);
    let pair = pairs_of(events)[k];
    let n = packets.len() as int;
    lemma_pairs_join_events(events, events.len() as int, k);
    let (i, j) = choose|i: int, j: int| joins(events, pair, i, j);
    lemma_event_times_are_packet_times(packets, n, i);
    lemma_event_times_are_packet_times(packets, n, j);
    let a = choose|a: int|
        0 <= a < packets.len() && (#[trigger] packets[a]).device_timestamp == pair.ts_received;
    let b = choose|b: int|
        0 <= b < packets.len() && (#[trigger] packets[b]).device_timestamp == pair.ts_sent;
    lemma_device_range_bounds(packets, n);
    assert(least_time(packets, n) <= packets[a].device_timestamp <= greatest_time(packets, n));
    assert(least_time(packets, n) <= packets[b].device_timestamp <= greatest_time(packets, n));
}

/// The map of a stream rests on that stream: its two device times are
/// apart, in order, and within the bounds of the session, which are in
/// order too.
pub proof fn lemma_map_within_session(packets: Seq<PacketView>)
    ensures
        sync_map_of(found_pairs(packets), packets) matches Ok(map) ==> map.device_start_time
            <= map.te0 < map.te1 <= map.device_end_time && map.sync_count >= 2,
{
    let outcome = sync_map_of(found_pairs(packets), packets);
    if outcome is Ok {
        let pairs = pairs_of(events_of(packets));
        let range = device_range_of(packets)->0;
        let n = pairs.len() as int;
        lemma_reduction_outcome(pairs, range);
        lemma_qualifying_upto(pairs, n);
        lemma_extremes_exist(pairs, n);
        let first = earliest_index(pairs);
        let last = latest_index(pairs);
        assert(earliest_among(pairs, n, first));
        assert(latest_among(pairs, n, last));
        lemma_pair_times_in_range(packets, first);
        lemma_pair_times_in_range(packets, last);
    }
}

/// The record of every packet stands in the table of the packet's type.
pub proof fn lemma_record_present(packets: Seq<PacketView>, n: int, i: int)
    requires
        0 <= i < n <= packets.len(),
    ensures
        records_of_type(packets, packets[i].data_type, n).contains(packet_record(packets[i])),
    decreases n,
{
    let tag = packets[i].data_type;
    let all = records_of_type(packets, tag, n);
    if i == n - 1 {
        assert(all[all.len() - 1] == packet_record(packets[i]));
    } else {
        lemma_record_present(packets, n - 1, i);
        let earlier = records_of_type(packets, tag, n - 1);
        let r = choose|r: int| 0 <= r < earlier.len() && earlier[r] == packet_record(packets[i]);
        assert(all[r] == packet_record(packets[i]));
    }
}

/// Where no packet has a host time, the first field of every record of a
/// type's table is empty.
pub proof fn lemma_unstamped_records(packets: Seq<PacketView>, tag: Seq<char>, n: int)
    requires
        0 <= n <= packets.len(),
        all_unstamped(packets),
    ensures
        forall|r: int|
            0 <= r < records_of_type(packets, tag, n).len() ==> (#[trigger] records_of_type(
                packets,
                tag,
                n,
            )[r])[0].len() == 0,
    decreases n,
{
    if n > 0 {
        lemma_unstamped_records(packets, tag, n - 1);
        let earlier = records_of_type(packets, tag, n - 1);
        let all = records_of_type(packets, tag, n);
        assert forall|r: int| 0 <= r < all.len() implies (#[trigger] all[r])[0].len() == 0 by {
            if r < earlier.len() {
                assert(all[r] == earlier[r]);
            } else {
                assert(all[r] == packet_record(packets[n - 1]));
                assert(packets[n - 1].local_timestamp is None);
            }
        }
    }
}

/// Without a map nothing is lost and nothing is made up: the signal
/// tables are those of the packets as they were decoded, and where these
/// have no host time, every record after a header has an empty first field.
pub proof fn lemma_no_map_no_host_time(
    base: Seq<char>,
    valid: Seq<PacketView>,
    errors: Seq<ErrorView>,
)
    requires
        sync_map_of(found_pairs(valid), valid) is Err,
        all_unstamped(valid),
    ensures
        planned(base, valid, errors).signals == signal_tables_of(base, valid),
        forall|k: int, r: int|
            0 <= k < planned(base, valid, errors).signals.len() && 1 <= r < planned(
                base,
                valid,
                errors,
            ).signals[k].records.len() ==> (#[trigger] planned(
                base,
                valid,
                errors,
            ).signals[k].records[r])[0].len() == 0,
{
    let map = sync_map_of(found_pairs(valid), valid);
    assert(map_of(map) is None);
    assert(reprojected_all(map_of(map), valid) == valid);
    let tables = signal_tables_of(base, valid);
    let tags = tags_of(valid);
    let n = valid.len() as int;
    assert forall|k: int, r: int|
        0 <= k < tables.len() && 1 <= r < tables[k].records.len() implies (#[trigger] tables[k].records[r])[0].len()
        == 0 by {
        lemma_unstamped_records(valid, tags[k], n);
        let rows = records_of_type(valid, tags[k], n);
        assert(tables[k].records[r] == rows[r - 1]);
    }
}

} // verus!
