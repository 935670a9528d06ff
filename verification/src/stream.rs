//! Decoding a whole log into its valid packets and its decode errors.

use crate::packet::{
    decode_row, decoded, parsed_row, texts, DataPacket, ErrorView, PacketView, ParseError,
};
use vstd::prelude::*;

verus! {

/// A decoded log: the packets of the rows that decoded and the errors of
/// the rows that did not, each in the order of the rows.
#[derive(Debug, Clone, PartialEq, Eq)]
pub struct PacketStream {
    pub valid: Vec<DataPacket>,
    pub errors: Vec<ParseError>,
}

/// The content of each packet of a sequence.
pub open spec fn packet_views(v: Seq<DataPacket>) -> Seq<PacketView> {
    Seq::new(v.len(), |i: int| v[i]@)
}

/// The content of each error of a sequence.
pub open spec fn error_views(v: Seq<ParseError>) -> Seq<ErrorView> {
    Seq::new(v.len(), |i: int| v[i]@)
}

/// The outcome of decoding row `i` of a log.
pub open spec fn row_outcome(rows: Seq<Seq<char>>, i: int) -> Result<PacketView, ErrorView> {
    decoded(i as usize, rows[i], parsed_row(rows[i]))
}

/// The packets of the first `n` rows, in row order.
pub open spec fn valid_upto(rows: Seq<Seq<char>>, n: int) -> Seq<PacketView>
    decreases n,
{
    if n <= 0 {
        Seq::empty()
    } else {
        match row_outcome(rows, n - 1) {
            Ok(packet) => valid_upto(rows, n - 1).push(packet),
            Err(_) => valid_upto(rows, n - 1),
        }
    }
}

/// The decode errors of the first `n` rows, in row order.
pub open spec fn errors_upto(rows: Seq<Seq<char>>, n: int) -> Seq<ErrorView>
    decreases n,
{
    if n <= 0 {
        Seq::empty()
    } else {
        match row_outcome(rows, n - 1) {
            Ok(_) => errors_upto(rows, n - 1),
            Err(error) => errors_upto(rows, n - 1).push(error),
        }
    }
}

/// Every row is accounted for: among the first `n` rows, the packets and
/// the errors together are `n`.
pub proof fn lemma_rows_accounted(rows: Seq<Seq<char>>, n: int)
    requires
        0 <= n <= rows.len(),
    ensures
        valid_upto(rows, n).len() + errors_upto(rows, n).len() == n,
    decreases n,
{
    if n > 0 {
        lemma_rows_accounted(rows, n - 1);
    }
}

/// Decodes a log row by row. No row is dropped and none stops the rest:
/// each yields a packet or an error, and both lists keep the rows' order.
pub fn build_stream(rows: &Vec<String>) -> (stream: PacketStream)
    ensures
        packet_views(stream.valid@) == valid_upto(texts(rows@), rows.len() as int),
        error_views(stream.errors@) == errors_upto(texts(rows@), rows.len() as int),
        stream.valid.len() + stream.errors.len() == rows.len(),
{
    let mut valid: Vec<DataPacket> = Vec::new();
    let mut errors: Vec<ParseError> = Vec::new();
    let ghost lines = texts(rows@);
    let mut i: usize = 0;
    while i < rows.len()
        invariant
            i <= rows.len(),
            lines == texts(rows@),
            packet_views(valid@) == valid_upto(lines, i as int),
            error_views(errors@) == errors_upto(lines, i as int),
            valid.len() + errors.len() == i,
        decreases rows.len() - i,
    {
        let ghost valid_before = valid@;
        let ghost errors_before = errors@;
        match decode_row(i, rows[i].as_str()) {
            Ok(packet) => {
                valid.push(packet);
                assert(packet_views(valid@) =~= packet_views(valid_before).push(packet@));
            },
            Err(error) => {
                errors.push(error);
                assert(error_views(errors@) =~= error_views(errors_before).push(error@));
            },
        }
        i = i + 1;
    }
    PacketStream { valid, errors }
}

} // verus!
