//! Pairing each synchronisation request with its acknowledgement.
//!
//! Under one transaction id at most one request is pending at a time. A
//! request becomes pending when none is pending under its id; a request
//! that arrives while another is pending under the same id is a
//! retransmission and is passed over. An acknowledgement closes the request
//! pending under its id, if there is one. The pairs come out in the order of
//! their requests.

use crate::packet::DataPacket;
use crate::stream::packet_views;
use crate::sync::{events_of, no_transaction_id, sync_events, SyncError, SyncEvent, SyncPair};
use vstd::prelude::*;

verus! {

/// Whether the event is a request under transaction `id`.
pub open spec fn is_request(e: SyncEvent, id: u32) -> bool {
    match e {
        SyncEvent::Request { id: k, .. } => k == id,
        _ => false,
    }
}

/// Whether the event is an acknowledgement of transaction `id`.
pub open spec fn is_ack(e: SyncEvent, id: u32) -> bool {
    match e {
        SyncEvent::Acknowledgement { id: k, .. } => k == id,
        _ => false,
    }
}

/// The device time of a request or an acknowledgement.
pub open spec fn device_time_of(e: SyncEvent) -> i64 {
    match e {
        SyncEvent::Request { device_time, .. } => device_time,
        SyncEvent::Acknowledgement { device_time, .. } => device_time,
        SyncEvent::HostClock { .. } => 0,
    }
}

/// Whether a request is pending under `id` just before event `i`: the
/// nearest earlier request or acknowledgement of that id is a request.
pub open spec fn pending_before(events: Seq<SyncEvent>, id: u32, i: int) -> bool
    decreases i,
{
    if i <= 0 || i > events.len() {
        false
    } else if is_request(events[i - 1], id) {
        true
    } else if is_ack(events[i - 1], id) {
        false
    } else {
        pending_before(events, id, i - 1)
    }
}

/// The position of the first acknowledgement of `id` at or after `from`.
pub open spec fn ack_from(events: Seq<SyncEvent>, id: u32, from: int) -> Option<int>
    decreases events.len() - from,
{
    if from < 0 || from >= events.len() {
        None
    } else if is_ack(events[from], id) {
        Some(from)
    } else {
        ack_from(events, id, from + 1)
    }
}

/// The first host clock reading among the events from `from` up to, but
/// not including, `to`.
pub open spec fn clock_between(events: Seq<SyncEvent>, from: int, to: int) -> Option<i64>
    decreases to - from,
{
    if from < 0 || from >= to || from >= events.len() {
        None
    } else {
        match events[from] {
            SyncEvent::HostClock { host_time } => Some(host_time),
            _ => clock_between(events, from + 1, to),
        }
    }
}

/// The pair of a request observed at `received` and an acknowledgement
/// sent at `sent`. There is none when the acknowledgement is the earlier of
/// the two, or when the time between them does not fit the clock's type.
pub open spec fn pair_of(id: u32, received: i64, sent: i64, host_time: Option<i64>) -> Option<
    SyncPair,
> {
    if received <= sent && sent - received <= i64::MAX {
        Some(
            SyncPair {
                request_id: id,
                ts_received: received,
                ts_sent: sent,
                ack_id: id,
                round_trip: (sent - received) as i64,
                host_time,
            },
        )
    } else {
        None
    }
}

/// The pair that event `i` opens, if it is a request that becomes pending
/// and an acknowledgement of its id follows.
pub open spec fn pair_at(events: Seq<SyncEvent>, i: int) -> Option<SyncPair> {
    match events[i] {
        SyncEvent::Request { id, device_time } => if pending_before(events, id, i) {
            None
        } else {
            match ack_from(events, id, i + 1) {
                Some(j) => pair_of(
                    id,
                    device_time,
                    device_time_of(events[j]),
                    clock_between(events, i + 1, j),
                ),
                None => None,
            }
        },
        _ => None,
    }
}

/// The pairs opened by the first `n` events, in the order of their requests.
pub open spec fn pairs_upto(events: Seq<SyncEvent>, n: int) -> Seq<SyncPair>
    decreases n,
{
    if n <= 0 {
        Seq::empty()
    } else {
        match pair_at(events, n - 1) {
            Some(pair) => pairs_upto(events, n - 1).push(pair),
            None => pairs_upto(events, n - 1),
        }
    }
}

/// The pairs of a whole event sequence.
pub open spec fn pairs_of(events: Seq<SyncEvent>) -> Seq<SyncPair> {
    pairs_upto(events, events.len() as int)
}

/// Every pair joins one transaction and has a round trip that is the time
/// from request to acknowledgement and is not negative.
pub proof fn lemma_pairs_well_formed(events: Seq<SyncEvent>, n: int)
    requires
        0 <= n <= events.len(),
    ensures
        forall|k: int|
            0 <= k < pairs_upto(events, n).len() ==> (#[trigger] pairs_upto(
                events,
                n,
            )[k]).well_formed(),
    decreases n,
{
    if n > 0 {
        lemma_pairs_well_formed(events, n - 1);
        let earlier = pairs_upto(events, n - 1);
        let all = pairs_upto(events, n);
        assert forall|k: int| 0 <= k < all.len() implies (#[trigger] all[k]).well_formed() by {
            if k < earlier.len() {
                assert(all[k] == earlier[k]);
            } else {
                assert(pair_at(events, n - 1) == Some(all[k]));
            }
        }
    }
}

/// Whether the request at position `j` is still open just before event
/// `i`: it is a request under `id`, and no acknowledgement of `id` stands
/// between it and `i`.
pub open spec fn open_since(events: Seq<SyncEvent>, id: u32, j: int, i: int) -> bool {
    &&& 0 <= j < i
    &&& is_request(events[j], id)
    &&& forall|k: int| j < k < i ==> !is_ack(#[trigger] events[k], id)
}

/// A request is pending under an id exactly when some earlier request
/// under that id has not been acknowledged since: what a table of pending
/// requests, keyed by id, would hold at that moment.
pub proof fn lemma_pending_means_open_request(events: Seq<SyncEvent>, id: u32, i: int)
    requires
        0 <= i <= events.len(),
    ensures
        pending_before(events, id, i) <==> exists|j: int| open_since(events, id, j, i),
    decreases i,
{
    if i > 0 {
        let last = i - 1;
        lemma_pending_means_open_request(events, id, last);
        if is_request(events[last], id) {
            assert(open_since(events, id, last, i));
        } else if is_ack(events[last], id) {
            assert forall|j: int| !open_since(events, id, j, i) by {
                if 0 <= j < last {
                    assert(is_ack(events[last], id));
                }
            }
        } else if pending_before(events, id, last) {
            let j = choose|j: int| open_since(events, id, j, last);
            assert(open_since(events, id, j, i));
        } else {
            assert forall|j: int| !open_since(events, id, j, i) by {
                if open_since(events, id, j, i) {
                    assert(open_since(events, id, j, last));
                }
            }
        }
    }
}

/// A request that arrives while another is pending under its id opens no pair.
pub proof fn lemma_retransmission_opens_no_pair(events: Seq<SyncEvent>, i: int, id: u32)
    requires
        0 <= i < events.len(),
        is_request(events[i], id),
        pending_before(events, id, i),
    ensures
        pair_at(events, i) is None,
{
}

/// A request that no acknowledgement of its id follows opens no pair.
pub proof fn lemma_unanswered_opens_no_pair(events: Seq<SyncEvent>, i: int, id: u32)
    requires
        0 <= i < events.len(),
        is_request(events[i], id),
        ack_from(events, id, i + 1) is None,
    ensures
        pair_at(events, i) is None,
{
}

fn request_pending(events: &Vec<SyncEvent>, id: u32, i: usize) -> (pending: bool)
    requires
        i <= events.len(),
    ensures
        pending == pending_before(events@, id, i as int),
{
    let mut j: usize = i;
    while j > 0
        invariant
            j <= i <= events.len(),
            pending_before(events@, id, i as int) == pending_before(events@, id, j as int),
        decreases j,
    {
        match events[j - 1] {
            SyncEvent::Request { id: k, .. } => {
                if k == id {
                    return true;
                }
            },
            SyncEvent::Acknowledgement { id: k, .. } => {
                if k == id {
                    return false;
                }
            },
            SyncEvent::HostClock { .. } => {},
        }
        j = j - 1;
    }
    false
}

fn find_ack(events: &Vec<SyncEvent>, id: u32, from: usize) -> (r: Option<(usize, i64)>)
    ensures
        match r {
            Some((j, sent)) => ack_from(events@, id, from as int) == Some(j as int) && j
                < events.len() && sent == device_time_of(events[j as int]),
            None => ack_from(events@, id, from as int) is None,
        },
{
    let mut j: usize = from;
    while j < events.len()
        invariant
            from <= j,
            ack_from(events@, id, from as int) == ack_from(events@, id, j as int),
        decreases events.len() - j,
    {
        match events[j] {
            SyncEvent::Acknowledgement { id: k, device_time } => {
                if k == id {
                    return Some((j, device_time));
                }
            },
            _ => {},
        }
        j = j + 1;
    }
    None
}

fn find_clock(events: &Vec<SyncEvent>, from: usize, to: usize) -> (r: Option<i64>)
    requires
        to <= events.len(),
    ensures
        r == clock_between(events@, from as int, to as int),
{
    let mut j: usize = from;
    while j < to
        invariant
            from <= j,
            to <= events.len(),
            clock_between(events@, from as int, to as int) == clock_between(
                events@,
                j as int,
                to as int,
            ),
        decreases to - j,
    {
        match events[j] {
            SyncEvent::HostClock { host_time } => {
                return Some(host_time);
            },
            _ => {},
        }
        j = j + 1;
    }
    None
}

/// Joins a request and an acknowledgement of transaction `id` into a pair.
pub fn make_pair(id: u32, received: i64, sent: i64, host_time: Option<i64>) -> (r: Option<
    SyncPair,
>)
    ensures
        r == pair_of(id, received, sent, host_time),
        r matches Some(pair) ==> pair.well_formed(),
{
    if received > sent {
        return None;
    }
    let round_trip: i128 = sent as i128 - received as i128;
    if round_trip > i64::MAX as i128 {
        return None;
    }
    Some(
        SyncPair {
            request_id: id,
            ts_received: received,
            ts_sent: sent,
            ack_id: id,
            round_trip: round_trip as i64,
            host_time,
        },
    )
}

/// Pairs the requests among the events with their acknowledgements.
pub fn pair_events(events: &Vec<SyncEvent>) -> (pairs: Vec<SyncPair>)
    ensures
        pairs@ == pairs_of(events@),
        forall|k: int| 0 <= k < pairs.len() ==> (#[trigger] pairs[k]).well_formed(),
{
    let mut pairs: Vec<SyncPair> = Vec::new();
    let mut i: usize = 0;
    while i < events.len()
        invariant
            i <= events.len(),
            pairs@ == pairs_upto(events@, i as int),
        decreases events.len() - i,
    {
        match events[i] {
            SyncEvent::Request { id, device_time } => {
                if !request_pending(events, id, i) {
                    match find_ack(events, id, i + 1) {
                        Some((j, sent)) => {
                            let host_time: Option<i64> = find_clock(events, i + 1, j);
                            match make_pair(id, device_time, sent, host_time) {
                                Some(pair) => {
                                    pairs.push(pair);
                                },
                                None => {},
                            }
                        },
                        None => {},
                    }
                }
            },
            _ => {},
        }
        i = i + 1;
    }
    proof {
        lemma_pairs_well_formed(events@, events.len() as int);
    }
    pairs
}

/// Finds the completed synchronisation exchanges of a packet stream.
///
/// Fails only when requests or acknowledgements are present and none
/// carries a readable transaction id. Requests left unanswered and
/// acknowledgements of nothing pending are passed over without complaint.
pub fn extract_sync_pairs(packets: &Vec<DataPacket>) -> (r: Result<Vec<SyncPair>, SyncError>)
    ensures
        match r {
            Ok(pairs) => {
                &&& !no_transaction_id(packet_views(packets@))
                &&& pairs@ == pairs_of(events_of(packet_views(packets@)))
                &&& forall|k: int| 0 <= k < pairs.len() ==> (#[trigger] pairs[k]).well_formed()
            },
            Err(e) => no_transaction_id(packet_views(packets@)) && e
                == SyncError::NoTransactionId,
        },
{
    match sync_events(packets) {
        Ok(events) => Ok(pair_events(&events)),
        Err(e) => Err(e),
    }
}

} // verus!
