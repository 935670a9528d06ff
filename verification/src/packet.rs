//! Packets, decode errors, and the decoding of one row.

use crate::millis::{millis_from_bits, whole_millis};
use crate::text::{has_prefix, starts_with};
use vstd::prelude::*;

verus! {

/// One decoded record of the log.
#[derive(Debug, Clone, PartialEq, Eq)]
pub struct DataPacket {
    /// Host time in milliseconds; absent until the packet is reprojected.
    pub local_timestamp: Option<i64>,
    /// Device clock at capture, in milliseconds.
    pub device_timestamp: i64,
    /// Sequence number that the device gave the packet.
    pub packet_number: u64,
    /// Number of payload values that the row declares.
    pub data_length: u32,
    pub protocol_version: u8,
    pub data_reliability: u8,
    /// Short tag naming the signal.
    pub data_type: String,
    /// The payload values, each as text.
    pub payload: Vec<String>,
}

/// The mathematical content of a [`DataPacket`].
pub struct PacketView {
    pub local_timestamp: Option<i64>,
    pub device_timestamp: i64,
    pub packet_number: u64,
    pub data_length: u32,
    pub protocol_version: u8,
    pub data_reliability: u8,
    pub data_type: Seq<char>,
    pub payload: Seq<Seq<char>>,
}

/// The text of each string of a sequence.
pub open spec fn texts(v: Seq<String>) -> Seq<Seq<char>> {
    Seq::new(v.len(), |i: int| v[i]@)
}

impl View for DataPacket {
    type V = PacketView;

    open spec fn view(&self) -> PacketView {
        PacketView {
            local_timestamp: self.local_timestamp,
            device_timestamp: self.device_timestamp,
            packet_number: self.packet_number,
            data_length: self.data_length,
            protocol_version: self.protocol_version,
            data_reliability: self.data_reliability,
            data_type: self.data_type@,
            payload: texts(self.payload@),
        }
    }
}

/// Why a row was not decoded.
#[derive(Debug, Clone, Copy, PartialEq, Eq, Structural)]
pub enum DecodeReason {
    /// The row has fewer than the six leading fields.
    FieldCount,
    /// A numeric field does not read as a number.
    NonNumeric,
    /// The type tag is not one the format knows.
    UnknownTypeTag,
    /// The payload does not hold as many values as the row declares.
    LengthMismatch,
    /// The device clock reading is not a whole number of milliseconds.
    BadTimestamp,
}

/// A row that was not decoded: where it stood, what it said, and why it failed.
#[derive(Debug, Clone, PartialEq, Eq)]
pub struct ParseError {
    pub row_index: usize,
    pub raw: String,
    pub reason: DecodeReason,
}

/// The mathematical content of a [`ParseError`].
pub struct ErrorView {
    pub row_index: usize,
    pub raw: Seq<char>,
    pub reason: DecodeReason,
}

impl View for ParseError {
    type V = ErrorView;

    open spec fn view(&self) -> ErrorView {
        ErrorView { row_index: self.row_index, raw: self.raw@, reason: self.reason }
    }
}

/// The fields of a row as the row parser reads them, before this library
/// has checked them.
#[derive(Debug, Clone, PartialEq, Eq)]
pub struct RawPacket {
    /// The device clock reading, as the bit pattern of a binary64 number.
    pub timestamp_bits: u64,
    pub packet_number: u64,
    pub data_length: u32,
    pub protocol_version: u8,
    pub data_reliability: u8,
    pub data_type: String,
    pub payload: Vec<String>,
}

/// The mathematical content of a [`RawPacket`].
pub struct RawFields {
    pub timestamp_bits: u64,
    pub packet_number: u64,
    pub data_length: u32,
    pub protocol_version: u8,
    pub data_reliability: u8,
    pub data_type: Seq<char>,
    pub payload: Seq<Seq<char>>,
}

impl View for RawPacket {
    type V = RawFields;

    open spec fn view(&self) -> RawFields {
        RawFields {
            timestamp_bits: self.timestamp_bits,
            packet_number: self.packet_number,
            data_length: self.data_length,
            protocol_version: self.protocol_version,
            data_reliability: self.data_reliability,
            data_type: self.data_type@,
            payload: texts(self.payload@),
        }
    }
}

/// The content of what the row parser returned: fields, or its message.
pub open spec fn parse_view(r: Result<RawPacket, String>) -> Result<RawFields, Seq<char>> {
    match r {
        Ok(raw) => Ok(raw@),
        Err(message) => Err(message@),
    }
}

/// The content of a decoding outcome.
pub open spec fn outcome_view(r: Result<DataPacket, ParseError>) -> Result<PacketView, ErrorView> {
    match r {
        Ok(packet) => Ok(packet@),
        Err(error) => Err(error@),
    }
}

/// What the row parser makes of a row: the fields it read, or the message
/// with which it refused the row.
pub uninterp spec fn parsed_row(row: Seq<char>) -> Result<RawFields, Seq<char>>;

/// Hands one row to `emotibit_data`'s `DataPacket::try_from(&str)` and
/// copies out what it returned.
///
/// Trusted, not proved: that the parser's answer depends on the row's text
/// alone, so that it can be called `parsed_row` of that text. The fields are
/// copied one for one, the clock reading as its bit pattern, the tag as
/// `DataType::as_str` gives it, the payload as `DataType::payload` gives it;
/// a refusal is copied as the text of the parser's error.
#[verifier::external_body]
fn parse_row(row: &str) -> (r: Result<RawPacket, String>)
    ensures
        parse_view(r) == parsed_row(row@),
{
    match emotibit_data::types::DataPacket::try_from(row) {
        Ok(p) => Ok(
            RawPacket {
                timestamp_bits: p.emotibit_timestamp.to_bits(),
                packet_number: u64::from(p.packet_id),
                data_length: u32::from(p.data_points),
                protocol_version: p.version,
                data_reliability: p.reliability,
                data_type: p.data_type.as_str().to_string(),
                payload: p.data_type.payload(),
            },
        ),
        Err(e) => Err(e.to_string()),
    }
}

/// The reason that a refusal of the row parser stands for. The parser
/// opens its message with `Missing Column` for a row that is too short and
/// with `Unknown Type` for a tag it does not know; every other refusal is
/// of a field that does not read as a number.
pub open spec fn refusal_reason(message: Seq<char>) -> DecodeReason {
    if has_prefix(message, "Missing Column"@) {
        DecodeReason::FieldCount
    } else if has_prefix(message, "Unknown Type"@) {
        DecodeReason::UnknownTypeTag
    } else {
        DecodeReason::NonNumeric
    }
}

/// The outcome of decoding the row at `index` with text `row`, given what
/// the row parser made of it.
///
/// A refusal of the parser is an error with the reason its message stands
/// for. Fields whose payload does not have the declared length are an error,
/// and so, after that, are fields whose clock reading is not a whole number
/// of milliseconds. Everything else is a packet with no host time yet.
pub open spec fn decoded(index: usize, row: Seq<char>, parsed: Result<RawFields, Seq<char>>)
    -> Result<PacketView, ErrorView> {
    match parsed {
        Err(message) => Err(
            ErrorView { row_index: index, raw: row, reason: refusal_reason(message) },
        ),
        Ok(raw) => if raw.payload.len() != raw.data_length {
            Err(ErrorView { row_index: index, raw: row, reason: DecodeReason::LengthMismatch })
        } else {
            match whole_millis(raw.timestamp_bits) {
                None => Err(
                    ErrorView { row_index: index, raw: row, reason: DecodeReason::BadTimestamp },
                ),
                Some(millis) => Ok(
                    PacketView {
                        local_timestamp: None,
                        device_timestamp: millis,
                        packet_number: raw.packet_number,
                        data_length: raw.data_length,
                        protocol_version: raw.protocol_version,
                        data_reliability: raw.data_reliability,
                        data_type: raw.data_type,
                        payload: raw.payload,
                    },
                ),
            }
        },
    }
}

/// Names the reason that a refusal of the row parser stands for.
pub fn classify_refusal(message: &str) -> (reason: DecodeReason)
    ensures
        reason == refusal_reason(message@),
{
    if starts_with(message, "Missing Column") {
        DecodeReason::FieldCount
    } else if starts_with(message, "Unknown Type") {
        DecodeReason::UnknownTypeTag
    } else {
        DecodeReason::NonNumeric
    }
}

/// Completes the decoding of the row at `index`, given what the row parser
/// made of it.
pub fn finish_row(index: usize, row: &str, parsed: Result<RawPacket, String>) -> (r: Result<
    DataPacket,
    ParseError,
>)
    ensures
        outcome_view(r) == decoded(index, row@, parse_view(parsed)),
        r matches Ok(packet) ==> packet.payload.len() == packet.data_length
            && packet.local_timestamp is None,
{
    match parsed {
        Err(message) => Err(
            ParseError {
                row_index: index,
                raw: String::from_str(row),
                reason: classify_refusal(message.as_str()),
            },
        ),
        Ok(raw) => {
            let declared: usize = raw.data_length as usize;
            if raw.payload.len() != declared {
                return Err(
                    ParseError {
                        row_index: index,
                        raw: String::from_str(row),
                        reason: DecodeReason::LengthMismatch,
                    },
                );
            }
            match millis_from_bits(raw.timestamp_bits) {
                None => Err(
                    ParseError {
                        row_index: index,
                        raw: String::from_str(row),
                        reason: DecodeReason::BadTimestamp,
                    },
                ),
                Some(millis) => Ok(
                    DataPacket {
                        local_timestamp: None,
                        device_timestamp: millis,
                        packet_number: raw.packet_number,
                        data_length: raw.data_length,
                        protocol_version: raw.protocol_version,
                        data_reliability: raw.data_reliability,
                        data_type: raw.data_type,
                        payload: raw.payload,
                    },
                ),
            }
        },
    }
}

/// Decodes the row at `index`: a packet, or the error that says why not.
pub fn decode_row(index: usize, row: &str) -> (r: Result<DataPacket, ParseError>)
    ensures
        outcome_view(r) == decoded(index, row@, parsed_row(row@)),
        r matches Ok(packet) ==> packet.payload.len() == packet.data_length
            && packet.local_timestamp is None,
        r matches Err(error) ==> error.row_index == index && error.raw@ == row@,
{
    finish_row(index, row, parse_row(row))
}

} // verus!
