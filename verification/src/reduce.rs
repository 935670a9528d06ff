//! Computing the synchronisation map and the device-time bounds of a session.

use crate::packet::{DataPacket, PacketView};
use crate::stream::packet_views;
use crate::sync::SyncPair;
use crate::syncmap::{
    earliest_among, earliest_index, host_reading, latest_among, latest_index,
    lemma_extremes_unique, lemma_qualifying_upto,
    qualifies, qualifying_upto, reduced, reduction_view, DeviceRange, ReductionError, SyncMap,
    ROUND_TRIP_LIMIT,
};
use vstd::prelude::*;

verus! {

/// The least device time among the first `n` packets, for `n` of one or more.
pub open spec fn least_time(packets: Seq<PacketView>, n: int) -> i64
    decreases n,
{
    if n <= 1 {
        packets[0].device_timestamp
    } else if packets[n - 1].device_timestamp < least_time(packets, n - 1) {
        packets[n - 1].device_timestamp
    } else {
        least_time(packets, n - 1)
    }
}

/// The greatest device time among the first `n` packets, for `n` of one or more.
pub open spec fn greatest_time(packets: Seq<PacketView>, n: int) -> i64
    decreases n,
{
    if n <= 1 {
        packets[0].device_timestamp
    } else if packets[n - 1].device_timestamp > greatest_time(packets, n - 1) {
        packets[n - 1].device_timestamp
    } else {
        greatest_time(packets, n - 1)
    }
}

/// The device-time bounds of a packet stream; none for an empty stream.
pub open spec fn device_range_of(packets: Seq<PacketView>) -> Option<DeviceRange> {
    if packets.len() == 0 {
        None
    } else {
        Some(
            DeviceRange {
                start: least_time(packets, packets.len() as int),
                end: greatest_time(packets, packets.len() as int),
            },
        )
    }
}

/// The bounds enclose the device time of every packet, and each bound is
/// the device time of some packet.
pub proof fn lemma_device_range_bounds(packets: Seq<PacketView>, n: int)
    requires
        1 <= n <= packets.len(),
    ensures
        forall|i: int|
            0 <= i < n ==> least_time(packets, n) <= (#[trigger] packets[i]).device_timestamp
                <= greatest_time(packets, n),
        exists|i: int| 0 <= i < n && (#[trigger] packets[i]).device_timestamp == least_time(packets, n),
        exists|i: int|
            0 <= i < n && (#[trigger] packets[i]).device_timestamp == greatest_time(packets, n),
    decreases n,
{
    if n > 1 {
        let m = n - 1;
        lemma_device_range_bounds(packets, m);
        let lo = choose|i: int|
            0 <= i < m && (#[trigger] packets[i]).device_timestamp == least_time(packets, m);
        let hi = choose|i: int|
            0 <= i < m && (#[trigger] packets[i]).device_timestamp == greatest_time(packets, m);
        if packets[m].device_timestamp < least_time(packets, m) {
            assert(packets[m].device_timestamp == least_time(packets, n));
        } else {
            assert(packets[lo].device_timestamp == least_time(packets, n));
        }
        if packets[m].device_timestamp > greatest_time(packets, m) {
            assert(packets[m].device_timestamp == greatest_time(packets, n));
        } else {
            assert(packets[hi].device_timestamp == greatest_time(packets, n));
        }
    } else {
        assert(packets[0].device_timestamp == least_time(packets, n));
    }
}

/// Finds the least and the greatest device time of a packet stream.
pub fn device_range(packets: &Vec<DataPacket>) -> (r: Option<DeviceRange>)
    ensures
        r == device_range_of(packet_views(packets@)),
{
    if packets.len() == 0 {
        return None;
    }
    let ghost views = packet_views(packets@);
    let mut start: i64 = packets[0].device_timestamp;
    let mut end: i64 = packets[0].device_timestamp;
    let mut i: usize = 1;
    while i < packets.len()
        invariant
            1 <= i <= packets.len(),
            views == packet_views(packets@),
            start == least_time(views, i as int),
            end == greatest_time(views, i as int),
        decreases packets.len() - i,
    {
        let t: i64 = packets[i].device_timestamp;
        assert(views[i as int].device_timestamp == t);
        if t < start {
            start = t;
        }
        if t > end {
            end = t;
        }
        i = i + 1;
    }
    Some(DeviceRange { start, end })
}

/// Tests whether a pair is used for the map.
pub fn pair_qualifies(pair: &SyncPair) -> (b: bool)
    ensures
        b == qualifies(*pair),
{
    0 <= pair.round_trip && pair.round_trip < ROUND_TRIP_LIMIT && pair.host_time.is_some()
}

fn host_time_or_zero(pair: &SyncPair) -> (t: i64)
    ensures
        t == host_reading(*pair),
{
    match pair.host_time {
        Some(t) => t,
        None => 0,
    }
}

/// Reduces the pairs to the map through the earliest and the latest
/// qualifying pair.
///
/// Fails with `NoUsableSync` when no pair qualifies, with `SingleSync` when
/// one does, and with `DegenerateSpan` when two or more do and all share
/// one device time. In every other case there is a map, and its device
/// times are apart and in order.
pub fn reduce_sync_map(pairs: &Vec<SyncPair>, range: DeviceRange) -> (r: Result<
    SyncMap,
    ReductionError,
>)
    ensures
        reduction_view(r) == reduced(pairs@, range),
        r matches Ok(map) ==> map@.usable(),
{
    let mut count: usize = 0;
    let mut first: usize = 0;
    let mut last: usize = 0;
    let mut i: usize = 0;
    while i < pairs.len()
        invariant
            i <= pairs.len(),
            count <= i,
            count == qualifying_upto(pairs@, i as int),
            count > 0 ==> earliest_among(pairs@, i as int, first as int) && latest_among(
                pairs@,
                i as int,
                last as int,
            ),
        decreases pairs.len() - i,
    {
        proof {
            lemma_qualifying_upto(pairs@, i as int);
        }
        if pair_qualifies(&pairs[i]) {
            if count == 0 {
                first = i;
                last = i;
            } else {
                if pairs[i].ts_received < pairs[first].ts_received {
                    first = i;
                }
                if pairs[i].ts_received >= pairs[last].ts_received {
                    last = i;
                }
            }
            count = count + 1;
        }
        i = i + 1;
    }
    if count == 0 {
        return Err(ReductionError::NoUsableSync);
    }
    if count == 1 {
        return Err(ReductionError::SingleSync);
    }
    proof {
        let n = pairs.len() as int;
        assert(earliest_among(pairs@, n, earliest_index(pairs@)));
        assert(latest_among(pairs@, n, latest_index(pairs@)));
        lemma_extremes_unique(pairs@, n, first as int, earliest_index(pairs@));
        lemma_extremes_unique(pairs@, n, last as int, latest_index(pairs@));
        assert(qualifies(pairs@[first as int]) && qualifies(pairs@[last as int]));
    }
    if pairs[first].ts_received == pairs[last].ts_received {
        return Err(ReductionError::DegenerateSpan);
    }
    Ok(
        SyncMap {
            te0: pairs[first].ts_received,
            te1: pairs[last].ts_received,
            tl0: host_time_or_zero(&pairs[first]),
            tl1: host_time_or_zero(&pairs[last]),
            sync_count: count as u64,
            device_start_time: range.start,
            device_end_time: range.end,
            parser_version: String::from_str("1.0.0"),
        },
    )
}

} // verus!
