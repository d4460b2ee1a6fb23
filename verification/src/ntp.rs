//! The NTP packet header and its fixed-point timestamps.

use crate::endian::{
    be_bytes, be_word, lemma_agree_one_more_word, lemma_append_word, lemma_be_bytes_len,
    lemma_be_bytes_of_word, lemma_be_word_of_bytes, read_u32, write_u32,
};
use crate::error::Error;
use vstd::prelude::*;

verus! {

/// UDP port on which NTP servers listen.
pub const NTP_PORT: u16 = 123;

/// Protocol version announced in a request.
pub const NTP_VERSION: u8 = 3;

/// Packet mode of a client request.
pub const NTP_CLIENT: u8 = 3;

/// Length of the header on the wire, in bytes (twelve 32-bit words).
pub const NTP_HEADER_SIZE: usize = 48;

/// Seconds from the NTP epoch (1900-01-01T00:00:00Z) to the Unix epoch
/// (1970-01-01T00:00:00Z).
pub const NTP_TO_UNIX_EPOCH: i64 = 2208988800;

/// Nanoseconds in a second.
pub const NSEC_PER_SEC: i32 = 1_000_000_000;

/// Position of the leap indicator inside the first byte.
pub const LEAP_SHIFT: u8 = 6;

/// Position of the version number inside the first byte.
pub const VERSION_SHIFT: u8 = 3;

/// A point in time as seconds and nanoseconds since the Unix epoch.
///
/// Times before the epoch have a negative `sec` and a non-negative `nsec`.
#[derive(Debug, Clone, Copy, PartialEq, Eq)]
pub struct Timespec {
    pub sec: i64,
    pub nsec: i32,
}

impl Timespec {
    /// The nanosecond part is a proper fraction of a second.
    pub open spec fn well_formed(&self) -> bool {
        0 <= self.nsec < NSEC_PER_SEC
    }
}

/// NTP's 64-bit fixed-point time: whole seconds since the NTP epoch and a
/// binary fraction of a second, `fraction / 2^32`.
#[derive(Debug, Clone, Copy, PartialEq, Eq)]
pub struct NTPTimestamp {
    pub seconds: u32,
    pub fraction: u32,
}

impl NTPTimestamp {
    /// Whole seconds since the Unix epoch.
    pub open spec fn unix_seconds(&self) -> int {
        self.seconds - NTP_TO_UNIX_EPOCH
    }

    /// The fraction in nanoseconds, rounded down: the largest `k` with
    /// `k / 10^9 <= fraction / 2^32`.
    pub open spec fn nanoseconds(&self) -> int {
        self.fraction * NSEC_PER_SEC / 0x1_0000_0000
    }

    /// Converts to Unix time.
    ///
    /// The epoch offset is subtracted from the seconds, and the binary
    /// fraction is scaled to nanoseconds in integer arithmetic, rounding
    /// down, so the nanosecond part never reaches a full second.
    pub fn as_timespec(&self) -> (t: Timespec)
        ensures
            t.sec == self.unix_seconds(),
            t.nsec == self.nanoseconds(),
            t.well_formed(),
    {
        let scaled: u64 = (self.fraction as u64) * (NSEC_PER_SEC as u64);
        let nsec: u64 = scaled / 0x1_0000_0000;
        Timespec { sec: (self.seconds as i64) - NTP_TO_UNIX_EPOCH, nsec: nsec as i32 }
    }
}

/// The first byte of a header: leap indicator in the top two bits, version in
/// the next three, mode in the low three.
pub open spec fn pack_flags(leap: u8, version: u8, mode: u8) -> u8 {
    leap << LEAP_SHIFT | version << VERSION_SHIFT | mode
}

/// The leap indicator held in a first byte.
pub open spec fn leap_of(flags: u8) -> u8 {
    (flags >> LEAP_SHIFT) & 0b11
}

/// The version number held in a first byte.
pub open spec fn version_of(flags: u8) -> u8 {
    (flags >> VERSION_SHIFT) & 0b111
}

/// The mode held in a first byte.
pub open spec fn mode_of(flags: u8) -> u8 {
    flags & 0b111
}

/// One NTP packet header.
#[derive(Debug, Clone, Copy, PartialEq, Eq)]
pub struct NTPHeader {
    /// Leap-second indicator, two bits.
    pub leap: u8,
    /// Protocol version, three bits.
    pub version: u8,
    /// Packet mode, three bits.
    pub mode: u8,
    /// Distance from a reference clock, in hops.
    pub stratum: u8,
    /// Polling interval, as the server reports it.
    pub poll: u8,
    /// Clock precision, as the server reports it.
    pub precision: u8,
    /// The server's estimate of the round trip to its reference clock.
    pub root_delay: u32,
    /// The server's estimate of its clock error.
    pub root_dispersion: u32,
    /// What the server is synchronized to.
    pub reference_id: u32,
    /// When the server's clock was last set.
    pub reference_timestamp: NTPTimestamp,
    /// When the request left the client, by the client's clock.
    pub origin_timestamp: NTPTimestamp,
    /// When the request reached the server.
    pub receive_timestamp: NTPTimestamp,
    /// When the reply left the server.
    pub transmit_timestamp: NTPTimestamp,
}

impl NTPHeader {
    /// The three packed fields fit their bit widths.
    pub open spec fn well_formed(&self) -> bool {
        &&& self.leap <= 0b11
        &&& self.version <= 0b111
        &&& self.mode <= 0b111
    }

    /// The request a client sends: version 3, client mode, all else zero.
    pub open spec fn client_request() -> NTPHeader {
        let zero = NTPTimestamp { seconds: 0, fraction: 0 };
        NTPHeader {
            leap: 0,
            version: NTP_VERSION,
            mode: NTP_CLIENT,
            stratum: 0,
            poll: 0,
            precision: 0,
            root_delay: 0,
            root_dispersion: 0,
            reference_id: 0,
            reference_timestamp: zero,
            origin_timestamp: zero,
            receive_timestamp: zero,
            transmit_timestamp: zero,
        }
    }

    /// The first four bytes on the wire: the packed flags, then stratum,
    /// poll and precision.
    pub open spec fn first_word(&self) -> Seq<u8> {
        seq![
            pack_flags(self.leap, self.version, self.mode),
            self.stratum,
            self.poll,
            self.precision,
        ]
    }

    /// The header on the wire: every field in declaration order, multi-byte
    /// fields in network order.
    pub open spec fn wire(&self) -> Seq<u8> {
        self.first_word()
            + be_bytes(self.root_delay)
            + be_bytes(self.root_dispersion)
            + be_bytes(self.reference_id)
            + be_bytes(self.reference_timestamp.seconds)
            + be_bytes(self.reference_timestamp.fraction)
            + be_bytes(self.origin_timestamp.seconds)
            + be_bytes(self.origin_timestamp.fraction)
            + be_bytes(self.receive_timestamp.seconds)
            + be_bytes(self.receive_timestamp.fraction)
            + be_bytes(self.transmit_timestamp.seconds)
            + be_bytes(self.transmit_timestamp.fraction)
    }

    /// The header spelled by the first 48 bytes of `bytes`.
    pub open spec fn from_wire(bytes: Seq<u8>) -> NTPHeader
        recommends
            bytes.len() >= NTP_HEADER_SIZE,
    {
        NTPHeader {
            leap: leap_of(bytes[0]),
            version: version_of(bytes[0]),
            mode: mode_of(bytes[0]),
            stratum: bytes[1],
            poll: bytes[2],
            precision: bytes[3],
            root_delay: be_word(bytes, 4),
            root_dispersion: be_word(bytes, 8),
            reference_id: be_word(bytes, 12),
            reference_timestamp: NTPTimestamp {
                seconds: be_word(bytes, 16),
                fraction: be_word(bytes, 20),
            },
            origin_timestamp: NTPTimestamp {
                seconds: be_word(bytes, 24),
                fraction: be_word(bytes, 28),
            },
            receive_timestamp: NTPTimestamp {
                seconds: be_word(bytes, 32),
                fraction: be_word(bytes, 36),
            },
            transmit_timestamp: NTPTimestamp {
                seconds: be_word(bytes, 40),
                fraction: be_word(bytes, 44),
            },
        }
    }

    /// What decoding gives for a buffer holding `bytes` of which the
    /// transport reported `size`: a short datagram is refused, whether the
    /// report or the buffer itself falls short of a header; otherwise the
    /// first 48 bytes are taken apart and the rest is ignored.
    pub open spec fn decoded(size: usize, bytes: Seq<u8>) -> Result<NTPHeader, Error> {
        if size < NTP_HEADER_SIZE {
            Err(Error::UnexpectedSize(NTP_HEADER_SIZE, size))
        } else if bytes.len() < NTP_HEADER_SIZE {
            Err(Error::UnexpectedSize(NTP_HEADER_SIZE, bytes.len() as usize))
        } else {
            Ok(NTPHeader::from_wire(bytes))
        }
    }

    /// A fresh client request.
    pub fn new() -> (header: NTPHeader)
        ensures
            header == NTPHeader::client_request(),
            header.well_formed(),
    {
        NTPHeader {
            leap: 0,
            version: NTP_VERSION,
            mode: NTP_CLIENT,
            stratum: 0,
            poll: 0,
            precision: 0,
            root_delay: 0,
            root_dispersion: 0,
            reference_id: 0,
            reference_timestamp: NTPTimestamp { seconds: 0, fraction: 0 },
            origin_timestamp: NTPTimestamp { seconds: 0, fraction: 0 },
            receive_timestamp: NTPTimestamp { seconds: 0, fraction: 0 },
            transmit_timestamp: NTPTimestamp { seconds: 0, fraction: 0 },
        }
    }

    /// Whether the packed fields fit their bit widths, as `encode` demands.
    pub fn is_well_formed(&self) -> (ok: bool)
        ensures
            ok == self.well_formed(),
    {
        self.leap <= 0b11 && self.version <= 0b111 && self.mode <= 0b111
    }

    /// Appends the first word of the header to `w`.
    pub fn encode_first_word(&self, w: &mut Vec<u8>)
        requires
            self.well_formed(),
        ensures
            final(w)@ == old(w)@ + self.first_word(),
    {
        w.push(self.leap << LEAP_SHIFT | self.version << VERSION_SHIFT | self.mode);
        w.push(self.stratum);
        w.push(self.poll);
        w.push(self.precision);
    }

    /// Serializes the header to its 48 bytes.
    ///
    /// The packed fields are not masked: a caller must keep them within
    /// their widths.
    pub fn encode(&self) -> (bytes: Vec<u8>)
        requires
            self.well_formed(),
        ensures
            bytes@ == self.wire(),
            bytes@.len() == NTP_HEADER_SIZE,
            bytes@[0] == pack_flags(self.leap, self.version, self.mode),
    {
        let mut vec = Vec::<u8>::new();
        self.encode_first_word(&mut vec);
        write_u32(&mut vec, self.root_delay);
        write_u32(&mut vec, self.root_dispersion);
        write_u32(&mut vec, self.reference_id);
        write_u32(&mut vec, self.reference_timestamp.seconds);
        write_u32(&mut vec, self.reference_timestamp.fraction);
        write_u32(&mut vec, self.origin_timestamp.seconds);
        write_u32(&mut vec, self.origin_timestamp.fraction);
        write_u32(&mut vec, self.receive_timestamp.seconds);
        write_u32(&mut vec, self.receive_timestamp.fraction);
        write_u32(&mut vec, self.transmit_timestamp.seconds);
        write_u32(&mut vec, self.transmit_timestamp.fraction);
        vec
    }

    /// Parses the header of a received datagram: `buf` is the receive buffer
    /// and `size` the number of bytes the transport reported.
    ///
    /// Only the first 48 bytes are read. The packed fields are masked to
    /// their widths; nothing else is validated.
    pub fn decode(size: usize, buf: &[u8]) -> (result: Result<NTPHeader, Error>)
        ensures
            result == NTPHeader::decoded(size, buf@),
            size < NTP_HEADER_SIZE ==> result == Err::<NTPHeader, Error>(
                Error::UnexpectedSize(NTP_HEADER_SIZE, size),
            ),
            size >= NTP_HEADER_SIZE && buf@.len() >= size ==> result is Ok,
            result matches Ok(header) ==> header.well_formed(),
    {
        if size < NTP_HEADER_SIZE {
            return Err(Error::UnexpectedSize(NTP_HEADER_SIZE, size));
        }
        if buf.len() < NTP_HEADER_SIZE {
            return Err(Error::UnexpectedSize(NTP_HEADER_SIZE, buf.len()));
        }
        let leap_version_mode = buf[0];
        let header = NTPHeader {
            leap: (leap_version_mode >> LEAP_SHIFT) & 0b11,
            version: (leap_version_mode >> VERSION_SHIFT) & 0b111,
            mode: leap_version_mode & 0b111,
            stratum: buf[1],
            poll: buf[2],
            precision: buf[3],
            root_delay: read_u32(buf, 4),
            root_dispersion: read_u32(buf, 8),
            reference_id: read_u32(buf, 12),
            reference_timestamp: NTPTimestamp {
                seconds: read_u32(buf, 16),
                fraction: read_u32(buf, 20),
            },
            origin_timestamp: NTPTimestamp {
                seconds: read_u32(buf, 24),
                fraction: read_u32(buf, 28),
            },
            receive_timestamp: NTPTimestamp {
                seconds: read_u32(buf, 32),
                fraction: read_u32(buf, 36),
            },
            transmit_timestamp: NTPTimestamp {
                seconds: read_u32(buf, 40),
                fraction: read_u32(buf, 44),
            },
        };
        proof {
            lemma_flags_are_masked(leap_version_mode);
        }
        Ok(header)
    }
}

/// Whatever the first byte, the fields taken from it fit their widths.
pub proof fn lemma_flags_are_masked(flags: u8)
    ensures
        leap_of(flags) <= 0b11,
        version_of(flags) <= 0b111,
        mode_of(flags) <= 0b111,
{
    assert((flags >> 6u8) & 0b11 <= 0b11) by (bit_vector);
    assert((flags >> 3u8) & 0b111 <= 0b111) by (bit_vector);
    assert(flags & 0b111 <= 0b111) by (bit_vector);
}

/// Packing three fields that fit their widths and taking the byte apart
/// again gives the same three fields.
pub proof fn lemma_flags_round_trip(leap: u8, version: u8, mode: u8)
    requires
        leap <= 0b11,
        version <= 0b111,
        mode <= 0b111,
    ensures
        leap_of(pack_flags(leap, version, mode)) == leap,
        version_of(pack_flags(leap, version, mode)) == version,
        mode_of(pack_flags(leap, version, mode)) == mode,
{
    let flags = leap << 6u8 | version << 3u8 | mode;
    assert((flags >> 6u8) & 0b11 == leap && (flags >> 3u8) & 0b111 == version && flags & 0b111
        == mode) by (bit_vector)
        requires
            flags == leap << 6u8 | version << 3u8 | mode,
            leap <= 0b11,
            version <= 0b111,
            mode <= 0b111,
    ;
}

/// Every byte is the packing of the three fields it holds.
pub proof fn lemma_flags_cover_byte(flags: u8)
    ensures
        pack_flags(leap_of(flags), version_of(flags), mode_of(flags)) == flags,
{
    assert((((flags >> 6u8) & 0b11) << 6u8 | ((flags >> 3u8) & 0b111) << 3u8 | (flags & 0b111))
        == flags) by (bit_vector);
}

/// Where each field lies in the encoding: the first word in bytes 0..4,
/// then one network-order word per 32-bit field, in declaration order.
pub proof fn lemma_wire_layout(header: NTPHeader)
    ensures
        header.wire().len() == NTP_HEADER_SIZE,
        header.wire().subrange(0, 4) == header.first_word(),
        header.wire().subrange(4, 8) == be_bytes(header.root_delay),
        header.wire().subrange(8, 12) == be_bytes(header.root_dispersion),
        header.wire().subrange(12, 16) == be_bytes(header.reference_id),
        header.wire().subrange(16, 20) == be_bytes(header.reference_timestamp.seconds),
        header.wire().subrange(20, 24) == be_bytes(header.reference_timestamp.fraction),
        header.wire().subrange(24, 28) == be_bytes(header.origin_timestamp.seconds),
        header.wire().subrange(28, 32) == be_bytes(header.origin_timestamp.fraction),
        header.wire().subrange(32, 36) == be_bytes(header.receive_timestamp.seconds),
        header.wire().subrange(36, 40) == be_bytes(header.receive_timestamp.fraction),
        header.wire().subrange(40, 44) == be_bytes(header.transmit_timestamp.seconds),
        header.wire().subrange(44, 48) == be_bytes(header.transmit_timestamp.fraction),
{
    let w0 = header.first_word();
    let w1 = w0 + be_bytes(header.root_delay);
    let w2 = w1 + be_bytes(header.root_dispersion);
    let w3 = w2 + be_bytes(header.reference_id);
    let w4 = w3 + be_bytes(header.reference_timestamp.seconds);
    let w5 = w4 + be_bytes(header.reference_timestamp.fraction);
    let w6 = w5 + be_bytes(header.origin_timestamp.seconds);
    let w7 = w6 + be_bytes(header.origin_timestamp.fraction);
    let w8 = w7 + be_bytes(header.receive_timestamp.seconds);
    let w9 = w8 + be_bytes(header.receive_timestamp.fraction);
    let w10 = w9 + be_bytes(header.transmit_timestamp.seconds);
    let w11 = w10 + be_bytes(header.transmit_timestamp.fraction);
    assert(w0.subrange(0, 4) =~= w0);
    lemma_be_bytes_len(header.root_delay);
    lemma_be_bytes_len(header.root_dispersion);
    lemma_be_bytes_len(header.reference_id);
    lemma_be_bytes_len(header.reference_timestamp.seconds);
    lemma_be_bytes_len(header.reference_timestamp.fraction);
    lemma_be_bytes_len(header.origin_timestamp.seconds);
    lemma_be_bytes_len(header.origin_timestamp.fraction);
    lemma_be_bytes_len(header.receive_timestamp.seconds);
    lemma_be_bytes_len(header.receive_timestamp.fraction);
    lemma_be_bytes_len(header.transmit_timestamp.seconds);
    lemma_be_bytes_len(header.transmit_timestamp.fraction);
    lemma_append_word(w0, be_bytes(header.root_delay));
    lemma_append_word(w1, be_bytes(header.root_dispersion));
    lemma_append_word(w2, be_bytes(header.reference_id));
    lemma_append_word(w3, be_bytes(header.reference_timestamp.seconds));
    lemma_append_word(w4, be_bytes(header.reference_timestamp.fraction));
    lemma_append_word(w5, be_bytes(header.origin_timestamp.seconds));
    lemma_append_word(w6, be_bytes(header.origin_timestamp.fraction));
    lemma_append_word(w7, be_bytes(header.receive_timestamp.seconds));
    lemma_append_word(w8, be_bytes(header.receive_timestamp.fraction));
    lemma_append_word(w9, be_bytes(header.transmit_timestamp.seconds));
    lemma_append_word(w10, be_bytes(header.transmit_timestamp.fraction));
    assert(header.wire() == w11);
}

/// The first byte of an encoding is the packing of leap, version and mode,
/// and taking that byte apart gives the three fields back, whenever they fit
/// their widths.
pub proof fn lemma_first_byte(header: NTPHeader)
    requires
        header.well_formed(),
    ensures
        header.wire()[0] == pack_flags(header.leap, header.version, header.mode),
        leap_of(header.wire()[0]) == header.leap,
        version_of(header.wire()[0]) == header.version,
        mode_of(header.wire()[0]) == header.mode,
{
    lemma_wire_layout(header);
    assert(header.wire()[0] == header.wire().subrange(0, 4)[0]);
    lemma_flags_round_trip(header.leap, header.version, header.mode);
}

/// Decoding an encoded header gives the header back: for every header whose
/// packed fields fit their widths, the 48 bytes of its encoding spell it.
pub proof fn lemma_decode_encode(header: NTPHeader)
    requires
        header.well_formed(),
    ensures
        header.wire().len() == NTP_HEADER_SIZE,
        NTPHeader::from_wire(header.wire()) == header,
        NTPHeader::decoded(NTP_HEADER_SIZE, header.wire()) == Ok::<NTPHeader, Error>(header),
{
    let wire = header.wire();
    lemma_wire_layout(header);
    lemma_flags_round_trip(header.leap, header.version, header.mode);
    let first = wire.subrange(0, 4);
    assert(wire[0] == first[0] && wire[1] == first[1] && wire[2] == first[2] && wire[3]
        == first[3]);
    lemma_be_word_of_bytes(wire, 4, header.root_delay);
    lemma_be_word_of_bytes(wire, 8, header.root_dispersion);
    lemma_be_word_of_bytes(wire, 12, header.reference_id);
    lemma_be_word_of_bytes(wire, 16, header.reference_timestamp.seconds);
    lemma_be_word_of_bytes(wire, 20, header.reference_timestamp.fraction);
    lemma_be_word_of_bytes(wire, 24, header.origin_timestamp.seconds);
    lemma_be_word_of_bytes(wire, 28, header.origin_timestamp.fraction);
    lemma_be_word_of_bytes(wire, 32, header.receive_timestamp.seconds);
    lemma_be_word_of_bytes(wire, 36, header.receive_timestamp.fraction);
    lemma_be_word_of_bytes(wire, 40, header.transmit_timestamp.seconds);
    lemma_be_word_of_bytes(wire, 44, header.transmit_timestamp.fraction);
}

/// Encoding a decoded header gives the first 48 bytes back, so no two
/// distinct 48-byte datagrams decode to the same header.
pub proof fn lemma_encode_decode(bytes: Seq<u8>)
    requires
        bytes.len() >= NTP_HEADER_SIZE,
    ensures
        NTPHeader::from_wire(bytes).well_formed(),
        NTPHeader::from_wire(bytes).wire() == bytes.subrange(0, NTP_HEADER_SIZE as int),
{
    let header = NTPHeader::from_wire(bytes);
    let wire = header.wire();
    lemma_flags_are_masked(bytes[0]);
    lemma_wire_layout(header);
    assert(wire.subrange(0, 4) == bytes.subrange(0, 4)) by {
        lemma_flags_cover_byte(bytes[0]);
        assert(header.first_word() =~= bytes.subrange(0, 4));
    }
    lemma_be_bytes_of_word(bytes, 4);
    lemma_be_bytes_of_word(bytes, 8);
    lemma_be_bytes_of_word(bytes, 12);
    lemma_be_bytes_of_word(bytes, 16);
    lemma_be_bytes_of_word(bytes, 20);
    lemma_be_bytes_of_word(bytes, 24);
    lemma_be_bytes_of_word(bytes, 28);
    lemma_be_bytes_of_word(bytes, 32);
    lemma_be_bytes_of_word(bytes, 36);
    lemma_be_bytes_of_word(bytes, 40);
    lemma_be_bytes_of_word(bytes, 44);
    assert(wire.subrange(0, 0) =~= bytes.subrange(0, 0));
    lemma_agree_one_more_word(wire, bytes, 0);
    lemma_agree_one_more_word(wire, bytes, 4);
    lemma_agree_one_more_word(wire, bytes, 8);
    lemma_agree_one_more_word(wire, bytes, 12);
    lemma_agree_one_more_word(wire, bytes, 16);
    lemma_agree_one_more_word(wire, bytes, 20);
    lemma_agree_one_more_word(wire, bytes, 24);
    lemma_agree_one_more_word(wire, bytes, 28);
    lemma_agree_one_more_word(wire, bytes, 32);
    lemma_agree_one_more_word(wire, bytes, 36);
    lemma_agree_one_more_word(wire, bytes, 40);
    lemma_agree_one_more_word(wire, bytes, 44);
    assert(wire =~= wire.subrange(0, 48));
}

/// Decoding looks at the first 48 bytes only: datagrams that agree there
/// decode alike, whatever follows.
pub proof fn lemma_decode_ignores_trailing(a: Seq<u8>, b: Seq<u8>)
    requires
        a.len() >= NTP_HEADER_SIZE,
        b.len() >= NTP_HEADER_SIZE,
        a.subrange(0, NTP_HEADER_SIZE as int) == b.subrange(0, NTP_HEADER_SIZE as int),
    ensures
        NTPHeader::from_wire(a) == NTPHeader::from_wire(b),
{
    assert forall|i: int| 0 <= i < NTP_HEADER_SIZE implies a[i] == b[i] by {
        assert(a[i] == a.subrange(0, NTP_HEADER_SIZE as int)[i]);
        assert(b[i] == b.subrange(0, NTP_HEADER_SIZE as int)[i]);
    }
}

} // verus!
