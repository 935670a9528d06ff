//! Reconciles a sensor log recorded on a device clock with the host clock.
//!
//! A log is a sequence of text rows, one packet per row. The library decodes
//! the rows, pairs the time-synchronisation requests and acknowledgements
//! found among them, reduces those pairs to a two-point linear map from
//! device time to host time, applies the map to every packet, and lays the
//! result out as one table per signal type plus the diagnostic tables.
//!
//! All times are whole milliseconds held in `i64`.

pub mod host_clock;
pub mod invariants;
pub mod millis;
pub mod mux;
pub mod names;
pub mod packet;
pub mod pairing;
pub mod pipeline;
pub mod reduce;
pub mod render;
pub mod reproject;
pub mod stream;
pub mod sync;
pub mod syncmap;
pub mod tables;
pub mod text;
