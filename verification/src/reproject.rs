//! Carrying device time over to host time along the synchronisation map.

use crate::packet::{DataPacket, PacketView};
use crate::stream::packet_views;
use crate::syncmap::{SyncMap, SyncMapView};
use vstd::arithmetic::div_mod::{
    lemma_div_multiples_vanish, lemma_fundamental_div_mod, lemma_fundamental_div_mod_converse,
    lemma_mod_bound,
};
use vstd::prelude::*;

verus! {

/// Why a device time was not carried over.
#[derive(Debug, Clone, Copy, PartialEq, Eq, Structural)]
pub enum ReprojectError {
    /// The two device times of the map are not apart and in order, so
    /// there is no line to follow.
    DegenerateMap,
    /// The host time does not fit the clock's type.
    OutOfRange,
}

/// The host time of `device_time` on the line through `(te0, tl0)` and
/// `(te1, tl1)`: `tl0 + (device_time - te0) * (tl1 - tl0) / (te1 - te0)`,
/// with the quotient rounded down. Times before `te0` and after `te1` lie
/// on the same line. Meaningful where `te0 < te1`.
pub open spec fn projected(map: SyncMapView, device_time: i64) -> int {
    map.tl0 + ((device_time - map.te0) * (map.tl1 - map.tl0)) / (map.te1 - map.te0)
}

/// The outcome of carrying `device_time` over along `map`.
pub open spec fn reprojected(map: SyncMapView, device_time: i64) -> Result<i64, ReprojectError> {
    if !(map.te0 < map.te1) {
        Err(ReprojectError::DegenerateMap)
    } else if i64::MIN <= projected(map, device_time) <= i64::MAX {
        Ok(projected(map, device_time) as i64)
    } else {
        Err(ReprojectError::OutOfRange)
    }
}

/// The line runs through both of its reference points: `te0` is carried to
/// `tl0` and `te1` to `tl1`, exactly.
pub proof fn lemma_reference_points(map: SyncMapView)
    requires
        map.te0 < map.te1,
    ensures
        projected(map, map.te0) == map.tl0,
        projected(map, map.te1) == map.tl1,
        reprojected(map, map.te0) == Ok::<i64, ReprojectError>(map.tl0),
        reprojected(map, map.te1) == Ok::<i64, ReprojectError>(map.tl1),
{
    let c: int = map.te1 - map.te0;
    let b: int = map.tl1 - map.tl0;
    assert((map.te0 - map.te0) * b == 0);
    assert(0int / c == 0);
    lemma_div_multiples_vanish(b, c);
    assert((map.te1 - map.te0) * b == c * b);
}

/// The quotient of `-(magnitude)` by `divisor`, rounded down, from the
/// quotient and remainder of `magnitude` itself.
proof fn lemma_floor_of_negative(magnitude: int, divisor: int)
    requires
        magnitude >= 0,
        divisor > 0,
    ensures
        (-magnitude) / divisor == if magnitude % divisor == 0 {
            -(magnitude / divisor)
        } else {
            -(magnitude / divisor) - 1
        },
{
    let q = magnitude / divisor;
    let r = magnitude % divisor;
    lemma_fundamental_div_mod(magnitude, divisor);
    assert(0 <= r < divisor) by {
        lemma_mod_bound(magnitude, divisor);
    }
    if r == 0 {
        assert(-magnitude == (-q) * divisor + 0) by (nonlinear_arith)
            requires
                magnitude == divisor * q + r,
                r == 0,
        ;
        lemma_fundamental_div_mod_converse(-magnitude, divisor, -q, 0);
    } else {
        assert(-magnitude == (-q - 1) * divisor + (divisor - r)) by (nonlinear_arith)
            requires
                magnitude == divisor * q + r,
        ;
        lemma_fundamental_div_mod_converse(-magnitude, divisor, -q - 1, divisor - r);
    }
}

/// Carries one device time over to host time along `map`.
///
/// Fails with `DegenerateMap` exactly when the map's device times are not
/// apart and in order, and with `OutOfRange` exactly when they are and the
/// host time does not fit.
pub fn reproject(map: &SyncMap, device_time: i64) -> (r: Result<i64, ReprojectError>)
    ensures
        r == reprojected(map@, device_time),
{
    if map.te0 >= map.te1 {
        return Err(ReprojectError::DegenerateMap);
    }
    let a: i128 = device_time as i128 - map.te0 as i128;
    let b: i128 = map.tl1 as i128 - map.tl0 as i128;
    let c: u128 = (map.te1 as i128 - map.te0 as i128) as u128;
    let negative: bool = (a < 0) != (b < 0);
    let ma: u128 = if a < 0 {
        (-a) as u128
    } else {
        a as u128
    };
    let mb: u128 = if b < 0 {
        (-b) as u128
    } else {
        b as u128
    };
    assert(ma * mb <= 0xffff_ffff_ffff_ffff * 0xffff_ffff_ffff_ffff) by (nonlinear_arith)
        requires
            0 <= ma <= 0xffff_ffff_ffff_ffff,
            0 <= mb <= 0xffff_ffff_ffff_ffff,
    ;
    let magnitude: u128 = ma * mb;
    let whole: u128 = magnitude / c;
    let rest: u128 = magnitude % c;
    proof {
        let product: int = (device_time - map.te0) * (map.tl1 - map.tl0);
        assert(product == a * b);
        if negative {
            assert(a * b == -(ma * mb)) by (nonlinear_arith)
                requires
                    (a < 0) != (b < 0),
                    a < 0 ==> ma == -a,
                    a >= 0 ==> ma == a,
                    b < 0 ==> mb == -b,
                    b >= 0 ==> mb == b,
            ;
            lemma_floor_of_negative(magnitude as int, c as int);
        } else {
            assert(a * b == ma * mb) by (nonlinear_arith)
                requires
                    (a < 0) == (b < 0),
                    a < 0 ==> ma == -a,
                    a >= 0 ==> ma == a,
                    b < 0 ==> mb == -b,
                    b >= 0 ==> mb == b,
            ;
        }
    }
    if whole > 0x1_0000_0000_0000_0000 {
        return Err(ReprojectError::OutOfRange);
    }
    let quotient: i128 = if negative {
        if rest == 0 {
            -(whole as i128)
        } else {
            -(whole as i128) - 1
        }
    } else {
        whole as i128
    };
    let host: i128 = map.tl0 as i128 + quotient;
    if host < i64::MIN as i128 || host > i64::MAX as i128 {
        return Err(ReprojectError::OutOfRange);
    }
    Ok(host as i64)
}

/// The host time that a packet receives: the reprojection of its device
/// time where that succeeds, none where it does not.
pub open spec fn host_time_on(map: SyncMapView, device_time: i64) -> Option<i64> {
    match reprojected(map, device_time) {
        Ok(t) => Some(t),
        Err(_) => None,
    }
}

/// A packet with its host time set from the map. Nothing else changes.
pub open spec fn stamped(map: SyncMapView, p: PacketView) -> PacketView {
    PacketView { local_timestamp: host_time_on(map, p.device_timestamp), ..p }
}

/// Each packet of a stream with its host time set from the map.
pub open spec fn stamped_all(map: SyncMapView, packets: Seq<PacketView>) -> Seq<PacketView> {
    Seq::new(packets.len(), |i: int| stamped(map, packets[i]))
}

/// Sets the host time of a packet from the map.
pub fn inject_host_timestamp(packet: DataPacket, map: &SyncMap) -> (r: DataPacket)
    ensures
        r@ == stamped(map@, packet@),
{
    let local_timestamp: Option<i64> = match reproject(map, packet.device_timestamp) {
        Ok(t) => Some(t),
        Err(_) => None,
    };
    DataPacket {
        local_timestamp,
        device_timestamp: packet.device_timestamp,
        packet_number: packet.packet_number,
        data_length: packet.data_length,
        protocol_version: packet.protocol_version,
        data_reliability: packet.data_reliability,
        data_type: packet.data_type,
        payload: packet.payload,
    }
}

/// The packets as they leave the reprojector: stamped along the map when
/// there is one, unchanged when there is none.
pub open spec fn reprojected_all(map: Option<SyncMapView>, packets: Seq<PacketView>) -> Seq<
    PacketView,
> {
    match map {
        Some(m) => stamped_all(m, packets),
        None => packets,
    }
}

/// Sets the host time of every packet from the map. Without a map the
/// packets pass through as they are. No packet is dropped either way.
pub fn reproject_all(packets: Vec<DataPacket>, map: Option<&SyncMap>) -> (r: Vec<DataPacket>)
    ensures
        packet_views(r@) == reprojected_all(
            match map {
                Some(m) => Some(m@),
                None => None,
            },
            packet_views(packets@),
        ),
        r.len() == packets.len(),
{
    match map {
        None => packets,
        Some(m) => {
            let ghost incoming = packets@;
            let mut out: Vec<DataPacket> = Vec::new();
            for packet in it: packets.into_iter()
                invariant
                    it.seq() == incoming,
                    out.len() == it.index(),
                    forall|j: int|
                        0 <= j < out.len() ==> (#[trigger] out[j])@ == stamped(m@, incoming[j]@),
            {
                out.push(inject_host_timestamp(packet, m));
            }
            assert(packet_views(out@) =~= stamped_all(m@, packet_views(incoming)));
            out
        },
    }
}

} // verus!
