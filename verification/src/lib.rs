//! The packet model of a minimal NTP client: the 48-byte header, its
//! network-order encoding and decoding, and the conversion of NTP's
//! fixed-point timestamps to Unix time.
//!
//! Everything here is pure: no sockets, no clocks. A caller builds a request
//! with [`NTPHeader::new`], sends the bytes of [`NTPHeader::encode`], hands the
//! reply to [`NTPHeader::decode`] and reads the server's clock with
//! [`NTPTimestamp::as_timespec`] on the reply's transmit timestamp.

pub mod decimal;
pub mod endian;
pub mod error;
pub mod ntp;

pub use error::Error;
pub use ntp::{NTPHeader, NTPTimestamp, Timespec};
