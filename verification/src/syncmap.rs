//! Reducing the synchronisation pairs to one two-point map from device
//! time to host time.
//!
//! Only pairs with a short round trip and a host clock reading are used.
//! The map runs through the earliest and the latest of them by device time;
//! in a stream that is in time order these are the first and the last.
//! Two points are enough for a clock whose drift is close to linear over a
//! recording, and they keep the correction easy to audit; a fit over all
//! pairs would give other numbers.

use vstd::prelude::*;
use crate::sync::SyncPair;

verus! {

/// Round trips of this many milliseconds or more are taken to be degraded
/// by scheduling and are not used.
pub const ROUND_TRIP_LIMIT: i64 = 1000;

/// The mapping from device time to host time, with the bounds of the session.
#[derive(Debug, Clone, PartialEq, Eq)]
pub struct SyncMap {
    /// Device time of the earliest pair used.
    pub te0: i64,
    /// Device time of the latest pair used.
    pub te1: i64,
    /// Host time at `te0`.
    pub tl0: i64,
    /// Host time at `te1`.
    pub tl1: i64,
    /// Number of pairs that qualified.
    pub sync_count: u64,
    /// Least device time among all valid packets.
    pub device_start_time: i64,
    /// Greatest device time among all valid packets.
    pub device_end_time: i64,
    /// Version of the mapping rules.
    pub parser_version: String,
}

/// The mathematical content of a [`SyncMap`].
pub struct SyncMapView {
    pub te0: i64,
    pub te1: i64,
    pub tl0: i64,
    pub tl1: i64,
    pub sync_count: nat,
    pub device_start_time: i64,
    pub device_end_time: i64,
    pub parser_version: Seq<char>,
}

impl View for SyncMap {
    type V = SyncMapView;

    open spec fn view(&self) -> SyncMapView {
        SyncMapView {
            te0: self.te0,
            te1: self.te1,
            tl0: self.tl0,
            tl1: self.tl1,
            sync_count: self.sync_count as nat,
            device_start_time: self.device_start_time,
            device_end_time: self.device_end_time,
            parser_version: self.parser_version@,
        }
    }
}

impl SyncMapView {
    /// A map can be applied when it rests on two pairs at least and its two
    /// device times are apart and in order.
    pub open spec fn usable(self) -> bool {
        self.te0 < self.te1 && self.sync_count >= 2
    }
}

/// Why no map was made.
#[derive(Debug, Clone, Copy, PartialEq, Eq, Structural)]
pub enum ReductionError {
    /// No pair qualified: there is no usable sync data.
    NoUsableSync,
    /// Exactly one pair qualified; a line needs two points.
    SingleSync,
    /// All qualifying pairs share one device time; a line needs two
    /// distinct points.
    DegenerateSpan,
}

/// The device-time bounds of a session.
#[derive(Debug, Clone, Copy, PartialEq, Eq, Structural)]
pub struct DeviceRange {
    pub start: i64,
    pub end: i64,
}

/// The version of the mapping rules, as written into every map.
pub open spec fn parser_version() -> Seq<char> {
    "1.0.0"@
}

/// Whether a pair is used for the map: its round trip is short and it
/// carries a host clock reading.
pub open spec fn qualifies(p: SyncPair) -> bool {
    0 <= p.round_trip < ROUND_TRIP_LIMIT && p.host_time is Some
}

/// The host clock reading of a pair that carries one.
pub open spec fn host_reading(p: SyncPair) -> i64 {
    match p.host_time {
        Some(t) => t,
        None => 0,
    }
}

/// How many of the first `n` pairs qualify.
pub open spec fn qualifying_upto(pairs: Seq<SyncPair>, n: int) -> nat
    decreases n,
{
    if n <= 0 {
        0
    } else if qualifies(pairs[n - 1]) {
        qualifying_upto(pairs, n - 1) + 1
    } else {
        qualifying_upto(pairs, n - 1)
    }
}

/// How many pairs qualify.
pub open spec fn qualifying_count(pairs: Seq<SyncPair>) -> nat {
    qualifying_upto(pairs, pairs.len() as int)
}

/// Whether pair `i` is the earliest qualifying pair among the first `n`:
/// none has a smaller device time, and of those with the same it is the
/// first.
pub open spec fn earliest_among(pairs: Seq<SyncPair>, n: int, i: int) -> bool {
    &&& 0 <= i < n
    &&& qualifies(pairs[i])
    &&& forall|j: int|
        0 <= j < n && qualifies(#[trigger] pairs[j]) ==> pairs[i].ts_received
            < pairs[j].ts_received || (pairs[i].ts_received == pairs[j].ts_received && i <= j)
}

/// Whether pair `i` is the latest qualifying pair among the first `n`:
/// none has a greater device time, and of those with the same it is the last.
pub open spec fn latest_among(pairs: Seq<SyncPair>, n: int, i: int) -> bool {
    &&& 0 <= i < n
    &&& qualifies(pairs[i])
    &&& forall|j: int|
        0 <= j < n && qualifies(#[trigger] pairs[j]) ==> pairs[j].ts_received
            < pairs[i].ts_received || (pairs[j].ts_received == pairs[i].ts_received && j <= i)
}

/// The position of the earliest qualifying pair.
pub open spec fn earliest_index(pairs: Seq<SyncPair>) -> int {
    choose|i: int| earliest_among(pairs, pairs.len() as int, i)
}

/// The position of the latest qualifying pair.
pub open spec fn latest_index(pairs: Seq<SyncPair>) -> int {
    choose|i: int| latest_among(pairs, pairs.len() as int, i)
}

/// The outcome of the reduction: the map through the earliest and the
/// latest qualifying pair, or the reason there is none.
pub open spec fn reduced(pairs: Seq<SyncPair>, range: DeviceRange) -> Result<
    SyncMapView,
    ReductionError,
> {
    let count = qualifying_count(pairs);
    let first = pairs[earliest_index(pairs)];
    let last = pairs[latest_index(pairs)];
    if count == 0 {
        Err(ReductionError::NoUsableSync)
    } else if count == 1 {
        Err(ReductionError::SingleSync)
    } else if first.ts_received == last.ts_received {
        Err(ReductionError::DegenerateSpan)
    } else {
        Ok(
            SyncMapView {
                te0: first.ts_received,
                te1: last.ts_received,
                tl0: host_reading(first),
                tl1: host_reading(last),
                sync_count: count,
                device_start_time: range.start,
                device_end_time: range.end,
                parser_version: parser_version(),
            },
        )
    }
}

/// The content of a reduction outcome.
pub open spec fn reduction_view(r: Result<SyncMap, ReductionError>) -> Result<
    SyncMapView,
    ReductionError,
> {
    match r {
        Ok(map) => Ok(map@),
        Err(e) => Err(e),
    }
}

/// Among the first `n` pairs no more than `n` qualify, and one qualifies
/// exactly when the count is not zero.
pub proof fn lemma_qualifying_upto(pairs: Seq<SyncPair>, n: int)
    requires
        0 <= n <= pairs.len(),
    ensures
        qualifying_upto(pairs, n) <= n,
        qualifying_upto(pairs, n) > 0 <==> exists|j: int| 0 <= j < n && qualifies(#[trigger] pairs[j]),
    decreases n,
{
    if n > 0 {
        lemma_qualifying_upto(pairs, n - 1);
        if qualifies(pairs[n - 1]) {
        } else if qualifying_upto(pairs, n) > 0 {
            let j = choose|j: int| 0 <= j < n - 1 && qualifies(#[trigger] pairs[j]);
            assert(0 <= j < n && qualifies(pairs[j]));
        } else {
            assert forall|j: int| 0 <= j < n implies !qualifies(#[trigger] pairs[j]) by {
                if j < n - 1 {
                }
            }
        }
    }
}

/// There is at most one earliest and at most one latest qualifying pair.
pub proof fn lemma_extremes_unique(pairs: Seq<SyncPair>, n: int, i: int, k: int)
    ensures
        earliest_among(pairs, n, i) && earliest_among(pairs, n, k) ==> i == k,
        latest_among(pairs, n, i) && latest_among(pairs, n, k) ==> i == k,
{
    if earliest_among(pairs, n, i) && earliest_among(pairs, n, k) {
        assert(qualifies(pairs[i]) && qualifies(pairs[k]));
    }
    if latest_among(pairs, n, i) && latest_among(pairs, n, k) {
        assert(qualifies(pairs[i]) && qualifies(pairs[k]));
    }
}

/// Whether the pairs stand in the order of their device times.
pub open spec fn in_time_order(pairs: Seq<SyncPair>) -> bool {
    forall|i: int, j: int|
        0 <= i <= j < pairs.len() ==> (#[trigger] pairs[i]).ts_received <= (#[trigger] pairs[j]).ts_received
}

/// Whether pair `i` qualifies and none before it does.
pub open spec fn first_qualifying(pairs: Seq<SyncPair>, i: int) -> bool {
    &&& 0 <= i < pairs.len()
    &&& qualifies(pairs[i])
    &&& forall|j: int| 0 <= j < i ==> !qualifies(#[trigger] pairs[j])
}

/// Whether pair `i` qualifies and none after it does.
pub open spec fn last_qualifying(pairs: Seq<SyncPair>, i: int) -> bool {
    &&& 0 <= i < pairs.len()
    &&& qualifies(pairs[i])
    &&& forall|j: int| i < j < pairs.len() ==> !qualifies(#[trigger] pairs[j])
}

/// Where the pairs stand in time order, the map runs through the first
/// and the last pair that qualify.
pub proof fn lemma_first_and_last_in_time_order(pairs: Seq<SyncPair>, first: int, last: int)
    requires
        in_time_order(pairs),
        first_qualifying(pairs, first),
        last_qualifying(pairs, last),
    ensures
        earliest_index(pairs) == first,
        latest_index(pairs) == last,
{
    let n = pairs.len() as int;
    assert(earliest_among(pairs, n, first)) by {
        assert forall|j: int| 0 <= j < n && qualifies(#[trigger] pairs[j]) implies pairs[first].ts_received
            < pairs[j].ts_received || (pairs[first].ts_received == pairs[j].ts_received && first
            <= j) by {
            assert(first <= j);
            assert(pairs[first].ts_received <= pairs[j].ts_received);
        }
    }
    assert(latest_among(pairs, n, last)) by {
        assert forall|j: int| 0 <= j < n && qualifies(#[trigger] pairs[j]) implies pairs[j].ts_received
            < pairs[last].ts_received || (pairs[j].ts_received == pairs[last].ts_received && j
            <= last) by {
            assert(j <= last);
            assert(pairs[j].ts_received <= pairs[last].ts_received);
        }
    }
    lemma_extremes_unique(pairs, n, first, earliest_index(pairs));
    lemma_extremes_unique(pairs, n, last, latest_index(pairs));
}

/// The reduction fails exactly when fewer than two pairs qualify or the
/// two device times coincide; when it succeeds, the map rests on two pairs
/// at least and its device times are apart and in order.
pub proof fn lemma_reduction_outcome(pairs: Seq<SyncPair>, range: DeviceRange)
    ensures
        reduced(pairs, range) is Err <==> (qualifying_count(pairs) < 2 || pairs[earliest_index(
            pairs,
        )].ts_received == pairs[latest_index(pairs)].ts_received),
        reduced(pairs, range) matches Ok(map) ==> map.usable() && map.sync_count
            == qualifying_count(pairs),
{
    let n = pairs.len() as int;
    lemma_qualifying_upto(pairs, n);
    if qualifying_count(pairs) >= 2 {
        lemma_extremes_exist(pairs, n);
        let i = earliest_index(pairs);
        let k = latest_index(pairs);
        assert(earliest_among(pairs, n, i));
        assert(latest_among(pairs, n, k));
        assert(qualifies(pairs[i]) && qualifies(pairs[k]));
    }
}

/// Where a pair qualifies among the first `n`, one of them is the earliest
/// and one the latest.
pub proof fn lemma_extremes_exist(pairs: Seq<SyncPair>, n: int)
    requires
        0 <= n <= pairs.len(),
        qualifying_upto(pairs, n) > 0,
    ensures
        exists|i: int| earliest_among(pairs, n, i),
        exists|i: int| latest_among(pairs, n, i),
    decreases n,
{
    let m = n - 1;
    let p = pairs[m];
    if qualifying_upto(pairs, m) > 0 {
        lemma_extremes_exist(pairs, m);
        let i = choose|i: int| earliest_among(pairs, m, i);
        let k = choose|k: int| latest_among(pairs, m, k);
        if qualifies(p) && p.ts_received < pairs[i].ts_received {
            assert(earliest_among(pairs, n, n - 1));
        } else {
            assert(earliest_among(pairs, n, i));
        }
        if qualifies(p) && p.ts_received >= pairs[k].ts_received {
            assert(latest_among(pairs, n, n - 1));
        } else {
            assert(latest_among(pairs, n, k));
        }
    } else {
        lemma_qualifying_upto(pairs, m);
        assert(qualifies(p));
        assert(earliest_among(pairs, n, n - 1));
        assert(latest_among(pairs, n, n - 1));
    }
}

} // verus!
