//! Time-synchronisation exchanges: finding them among the packets and
//! pairing each request with its acknowledgement.
//!
//! The device asks for the host's time with a request packet (`RD`), the
//! host answers with its clock (`TL`), and the exchange closes with an
//! acknowledgement (`AK`) that names the request by its packet number. That
//! number is the transaction id of the exchange.

use crate::host_clock::{host_millis, parse_host_clock};
use crate::packet::{DataPacket, PacketView};
use crate::stream::packet_views;
use crate::text::{chars_of, parse_unsigned, same_text, unsigned_of};
use vstd::prelude::*;

verus! {

/// What a packet says of a synchronisation exchange.
#[derive(Debug, Clone, Copy, PartialEq, Eq, Structural)]
pub enum SyncEvent {
    /// A request under transaction `id`, observed at `device_time`.
    Request { id: u32, device_time: i64 },
    /// The host's clock reading.
    HostClock { host_time: i64 },
    /// The acknowledgement of transaction `id`, sent at `device_time`.
    Acknowledgement { id: u32, device_time: i64 },
}

/// One completed exchange: a request and the acknowledgement that answers it.
#[derive(Debug, Clone, Copy, PartialEq, Eq, Structural)]
pub struct SyncPair {
    /// Transaction id of the request.
    pub request_id: u32,
    /// Device time at which the request was observed.
    pub ts_received: i64,
    /// Device time at which the acknowledgement was sent.
    pub ts_sent: i64,
    /// Transaction id that the acknowledgement names.
    pub ack_id: u32,
    /// `ts_sent - ts_received`.
    pub round_trip: i64,
    /// The host's clock as reported during the exchange, if it was.
    pub host_time: Option<i64>,
}

impl SyncPair {
    /// A pair joins a request and an acknowledgement of one transaction,
    /// and its round trip is the time between them, never negative.
    pub open spec fn well_formed(self) -> bool {
        &&& self.ack_id == self.request_id
        &&& self.round_trip == self.ts_sent - self.ts_received
        &&& self.round_trip >= 0
    }
}

/// Why no exchanges could be looked for.
#[derive(Debug, Clone, Copy, PartialEq, Eq, Structural)]
pub enum SyncError {
    /// There are request or acknowledgement packets, but not one of them
    /// carries a transaction id that can be read.
    NoTransactionId,
}

/// Whether the packet is a request or an acknowledgement.
pub open spec fn is_exchange_packet(p: PacketView) -> bool {
    p.data_type == "RD"@ || p.data_type == "AK"@
}

/// The transaction id of a request: its packet number, if that fits.
pub open spec fn request_id_of(p: PacketView) -> Option<u32> {
    if p.packet_number <= u32::MAX {
        Some(p.packet_number as u32)
    } else {
        None
    }
}

/// The transaction id that an acknowledgement names: the first value of
/// its payload, read as a decimal number, if that fits.
pub open spec fn ack_id_of(p: PacketView) -> Option<u32> {
    if p.payload.len() == 0 {
        None
    } else {
        match unsigned_of(p.payload[0]) {
            Some(v) => if v <= u32::MAX {
                Some(v as u32)
            } else {
                None
            },
            None => None,
        }
    }
}

/// The host clock that a clock packet reports: the first value of its payload.
pub open spec fn host_time_of(p: PacketView) -> Option<i64> {
    if p.payload.len() == 0 {
        None
    } else {
        host_millis(p.payload[0])
    }
}

/// What a packet says of a synchronisation exchange, if anything.
pub open spec fn event_of(p: PacketView) -> Option<SyncEvent> {
    if p.data_type == "RD"@ {
        match request_id_of(p) {
            Some(id) => Some(SyncEvent::Request { id, device_time: p.device_timestamp }),
            None => None,
        }
    } else if p.data_type == "AK"@ {
        match ack_id_of(p) {
            Some(id) => Some(SyncEvent::Acknowledgement { id, device_time: p.device_timestamp }),
            None => None,
        }
    } else if p.data_type == "TL"@ {
        match host_time_of(p) {
            Some(host_time) => Some(SyncEvent::HostClock { host_time }),
            None => None,
        }
    } else {
        None
    }
}

/// The events of the first `n` packets, in packet order.
pub open spec fn events_upto(packets: Seq<PacketView>, n: int) -> Seq<SyncEvent>
    decreases n,
{
    if n <= 0 {
        Seq::empty()
    } else {
        match event_of(packets[n - 1]) {
            Some(event) => events_upto(packets, n - 1).push(event),
            None => events_upto(packets, n - 1),
        }
    }
}

/// The events of a whole packet stream.
pub open spec fn events_of(packets: Seq<PacketView>) -> Seq<SyncEvent> {
    events_upto(packets, packets.len() as int)
}

/// Whether packet `i` is a request or an acknowledgement.
pub open spec fn exchange_at(packets: Seq<PacketView>, i: int) -> bool {
    0 <= i < packets.len() && is_exchange_packet(packets[i])
}

/// Whether packet `i` is a request or an acknowledgement with a readable
/// transaction id.
pub open spec fn readable_at(packets: Seq<PacketView>, i: int) -> bool {
    exchange_at(packets, i) && event_of(packets[i]) is Some
}

/// Requests or acknowledgements are present, and none carries a readable
/// transaction id.
pub open spec fn no_transaction_id(packets: Seq<PacketView>) -> bool {
    (exists|i: int| exchange_at(packets, i)) && !(exists|i: int| readable_at(packets, i))
}

fn read_ack_id(packet: &DataPacket) -> (r: Option<u32>)
    ensures
        r == ack_id_of(packet@),
{
    if packet.payload.len() == 0 {
        return None;
    }
    let chars: Vec<char> = chars_of(packet.payload[0].as_str());
    match parse_unsigned(&chars) {
        Some(v) => if v <= u32::MAX as u64 {
            Some(v as u32)
        } else {
            None
        },
        None => None,
    }
}

/// Reads what a packet says of a synchronisation exchange.
pub fn read_event(packet: &DataPacket) -> (r: Option<SyncEvent>)
    ensures
        r == event_of(packet@),
{
    let tag: &str = packet.data_type.as_str();
    if same_text(tag, "RD") {
        if packet.packet_number <= u32::MAX as u64 {
            Some(
                SyncEvent::Request {
                    id: packet.packet_number as u32,
                    device_time: packet.device_timestamp,
                },
            )
        } else {
            None
        }
    } else if same_text(tag, "AK") {
        match read_ack_id(packet) {
            Some(id) => Some(
                SyncEvent::Acknowledgement { id, device_time: packet.device_timestamp },
            ),
            None => None,
        }
    } else if same_text(tag, "TL") {
        if packet.payload.len() == 0 {
            None
        } else {
            match parse_host_clock(packet.payload[0].as_str()) {
                Some(host_time) => Some(SyncEvent::HostClock { host_time }),
                None => None,
            }
        }
    } else {
        None
    }
}

/// Collects the synchronisation events of a packet stream, in stream order.
///
/// Fails only when requests or acknowledgements are present and none of
/// them carries a readable transaction id. Single packets without a
/// readable id, and clock packets without a readable clock, are passed over.
pub fn sync_events(packets: &Vec<DataPacket>) -> (r: Result<Vec<SyncEvent>, SyncError>)
    ensures
        match r {
            Ok(events) => !no_transaction_id(packet_views(packets@)) && events@ == events_of(
                packet_views(packets@),
            ),
            Err(e) => no_transaction_id(packet_views(packets@)) && e
                == SyncError::NoTransactionId,
        },
{
    let ghost views = packet_views(packets@);
    let mut events: Vec<SyncEvent> = Vec::new();
    let mut seen_exchange: bool = false;
    let mut seen_readable: bool = false;
    let mut i: usize = 0;
    while i < packets.len()
        invariant
            i <= packets.len(),
            views == packet_views(packets@),
            events@ == events_upto(views, i as int),
            seen_exchange == (exists|k: int| k < i && exchange_at(views, k)),
            seen_readable == (exists|k: int| k < i && readable_at(views, k)),
        decreases packets.len() - i,
    {
        let packet: &DataPacket = &packets[i];
        let tag: &str = packet.data_type.as_str();
        let exchange: bool = same_text(tag, "RD") || same_text(tag, "AK");
        let event: Option<SyncEvent> = read_event(packet);
        proof {
            assert(views[i as int] == packet@);
            assert(exchange == exchange_at(views, i as int));
            assert(readable_at(views, i as int) == (exchange && event is Some));
        }
        if exchange {
            seen_exchange = true;
            if event.is_some() {
                seen_readable = true;
            }
        }
        match event {
            Some(e) => {
                events.push(e);
            },
            None => {},
        }
        proof {
            assert forall|k: int| k < i + 1 && exchange_at(views, k) implies (k < i && exchange_at(
                views,
                k,
            )) || k == i by {}
            assert forall|k: int| k < i + 1 && readable_at(views, k) implies (k < i && readable_at(
                views,
                k,
            )) || k == i by {}
        }
        i = i + 1;
    }
    if seen_exchange && !seen_readable {
        Err(SyncError::NoTransactionId)
    } else {
        Ok(events)
    }
}

} // verus!
