//! Writing packets, pairs, maps and errors as records of text fields.

use crate::packet::{texts, DataPacket, DecodeReason, ErrorView, PacketView, ParseError};
use crate::sync::{SyncError, SyncPair};
use crate::syncmap::{ReductionError, SyncMap, SyncMapView};
use crate::text::{decimal_digits, decimal_text, signed_to_string, unsigned_to_string};
use vstd::prelude::*;

verus! {

/// Appends one field to a record.
pub fn push_field(record: &mut Vec<String>, field: String)
    ensures
        texts(final(record)@) == texts(old(record)@).push(field@),
{
    record.push(field);
    assert(texts(record@) =~= texts(old(record)@).push(field@));
}

/// Copies a piece of text.
pub fn copy_text(s: &String) -> (r: String)
    ensures
        r@ == s@,
{
    String::from_str(s.as_str())
}

/// The text of an optional time: its decimal text, or nothing at all.
pub open spec fn optional_time_text(t: Option<i64>) -> Seq<char> {
    match t {
        Some(v) => decimal_text(v as int),
        None => Seq::empty(),
    }
}

/// The record of a packet: host time (empty while absent), device time,
/// packet number, data length, type tag, protocol version, reliability, and
/// then the payload values.
pub open spec fn packet_record(p: PacketView) -> Seq<Seq<char>> {
    seq![
        optional_time_text(p.local_timestamp),
        decimal_text(p.device_timestamp as int),
        decimal_digits(p.packet_number as nat),
        decimal_digits(p.data_length as nat),
        p.data_type,
        decimal_digits(p.protocol_version as nat),
        decimal_digits(p.data_reliability as nat),
    ] + p.payload
}

/// Writes a packet as a record.
pub fn render_packet(packet: &DataPacket) -> (record: Vec<String>)
    ensures
        texts(record@) == packet_record(packet@),
{
    let mut record: Vec<String> = Vec::new();
    let local: String = match packet.local_timestamp {
        Some(t) => signed_to_string(t),
        None => String::new(),
    };
    push_field(&mut record, local);
    push_field(&mut record, signed_to_string(packet.device_timestamp));
    push_field(&mut record, unsigned_to_string(packet.packet_number));
    push_field(&mut record, unsigned_to_string(packet.data_length as u64));
    push_field(&mut record, copy_text(&packet.data_type));
    push_field(&mut record, unsigned_to_string(packet.protocol_version as u64));
    push_field(&mut record, unsigned_to_string(packet.data_reliability as u64));
    let ghost prefix = texts(record@);
    let mut i: usize = 0;
    while i < packet.payload.len()
        invariant
            i <= packet.payload.len(),
            texts(record@) == prefix + texts(packet.payload@).subrange(0, i as int),
        decreases packet.payload.len() - i,
    {
        let ghost before = texts(record@);
        push_field(&mut record, copy_text(&packet.payload[i]));
        i = i + 1;
        assert(texts(record@) =~= prefix + texts(packet.payload@).subrange(0, i as int));
    }
    assert(texts(packet.payload@).subrange(0, packet.payload.len() as int) =~= texts(
        packet.payload@,
    ));
    assert(prefix =~= packet_record(packet@).subrange(0, 7));
    assert(texts(record@) =~= packet_record(packet@));
    record
}

/// The record of a pair: request id, device time of the request, device
/// time of the acknowledgement, acknowledged id, round trip.
pub open spec fn pair_record(p: SyncPair) -> Seq<Seq<char>> {
    seq![
        decimal_digits(p.request_id as nat),
        decimal_text(p.ts_received as int),
        decimal_text(p.ts_sent as int),
        decimal_digits(p.ack_id as nat),
        decimal_text(p.round_trip as int),
    ]
}

/// Writes a pair as a record.
pub fn render_pair(pair: &SyncPair) -> (record: Vec<String>)
    ensures
        texts(record@) == pair_record(*pair),
{
    let mut record: Vec<String> = Vec::new();
    push_field(&mut record, unsigned_to_string(pair.request_id as u64));
    push_field(&mut record, signed_to_string(pair.ts_received));
    push_field(&mut record, signed_to_string(pair.ts_sent));
    push_field(&mut record, unsigned_to_string(pair.ack_id as u64));
    push_field(&mut record, signed_to_string(pair.round_trip));
    assert(texts(record@) =~= pair_record(*pair));
    record
}

/// The record of a map: the two device times, the two host times, the
/// number of pairs, the session bounds, the version.
pub open spec fn map_record(m: SyncMapView) -> Seq<Seq<char>> {
    seq![
        decimal_text(m.te0 as int),
        decimal_text(m.te1 as int),
        decimal_text(m.tl0 as int),
        decimal_text(m.tl1 as int),
        decimal_digits(m.sync_count),
        decimal_text(m.device_start_time as int),
        decimal_text(m.device_end_time as int),
        m.parser_version,
    ]
}

/// Writes a map as a record.
pub fn render_map(map: &SyncMap) -> (record: Vec<String>)
    ensures
        texts(record@) == map_record(map@),
{
    let mut record: Vec<String> = Vec::new();
    push_field(&mut record, signed_to_string(map.te0));
    push_field(&mut record, signed_to_string(map.te1));
    push_field(&mut record, signed_to_string(map.tl0));
    push_field(&mut record, signed_to_string(map.tl1));
    push_field(&mut record, unsigned_to_string(map.sync_count));
    push_field(&mut record, signed_to_string(map.device_start_time));
    push_field(&mut record, signed_to_string(map.device_end_time));
    push_field(&mut record, copy_text(&map.parser_version));
    assert(texts(record@) =~= map_record(map@));
    record
}

/// The words for a decode reason.
pub open spec fn reason_text(reason: DecodeReason) -> Seq<char> {
    match reason {
        DecodeReason::FieldCount => "missing column"@,
        DecodeReason::NonNumeric => "field is not a number"@,
        DecodeReason::UnknownTypeTag => "unknown type tag"@,
        DecodeReason::LengthMismatch => "payload length differs from data length"@,
        DecodeReason::BadTimestamp => "timestamp is not a whole number of milliseconds"@,
    }
}

/// Gives the words for a decode reason.
pub fn reason_words(reason: DecodeReason) -> (s: &'static str)
    ensures
        s@ == reason_text(reason),
{
    match reason {
        DecodeReason::FieldCount => "missing column",
        DecodeReason::NonNumeric => "field is not a number",
        DecodeReason::UnknownTypeTag => "unknown type tag",
        DecodeReason::LengthMismatch => "payload length differs from data length",
        DecodeReason::BadTimestamp => "timestamp is not a whole number of milliseconds",
    }
}

/// The line that reports a decode error: the row's position, the reason,
/// and the row as it was read.
pub open spec fn error_line(e: ErrorView) -> Seq<char> {
    "row "@ + decimal_digits(e.row_index as nat) + ": "@ + reason_text(e.reason) + ", record: "@
        + e.raw
}

/// Writes the line that reports a decode error.
pub fn render_error(error: &ParseError) -> (line: String)
    ensures
        line@ == error_line(error@),
{
    let mut line: String = String::from_str("row ");
    let index: String = unsigned_to_string(error.row_index as u64);
    line.append(index.as_str());
    line.append(": ");
    line.append(reason_words(error.reason));
    line.append(", record: ");
    line.append(error.raw.as_str());
    line
}

/// The words for a failed search for exchanges.
pub open spec fn sync_error_text(e: SyncError) -> Seq<char> {
    match e {
        SyncError::NoTransactionId => "sync packets carry no readable transaction id"@,
    }
}

/// Gives the words for a failed search for exchanges.
pub fn sync_error_words(e: SyncError) -> (s: &'static str)
    ensures
        s@ == sync_error_text(e),
{
    match e {
        SyncError::NoTransactionId => "sync packets carry no readable transaction id",
    }
}

/// The words for a failed reduction.
pub open spec fn reduction_error_text(e: ReductionError) -> Seq<char> {
    match e {
        ReductionError::NoUsableSync => "no usable sync data"@,
        ReductionError::SingleSync => "only one usable sync pair"@,
        ReductionError::DegenerateSpan => "usable sync pairs share one device time"@,
    }
}

/// Gives the words for a failed reduction.
pub fn reduction_error_words(e: ReductionError) -> (s: &'static str)
    ensures
        s@ == reduction_error_text(e),
{
    match e {
        ReductionError::NoUsableSync => "no usable sync data",
        ReductionError::SingleSync => "only one usable sync pair",
        ReductionError::DegenerateSpan => "usable sync pairs share one device time",
    }
}

} // verus!
