//! Packets: header, payload, payload length and checksum.
//!
//! ```text
//! header (24) | payload | payload_len (2, BE) | crc16 (2, BE)
//! ```
//!
//! The checksum covers everything before it.
use vstd::prelude::*;

use crate::checksum::{crc16, crc16_ccitt_false};
use crate::constants::{CHECKSUM_TAIL_OFFSET, HEADER_SIZE, PAYLOAD_LEN_TAIL_OFFSET, PROTOCOL_VERSION};
use crate::error::Error;
use crate::header::{header_bytes, header_of, header_round_trip, PacketHeader};
use crate::wire::{be16, be16_at, be16_round_trip, overwrite, read_u16, write_bytes, write_u16};

verus! {

/// Everything of a packet before its checksum.
pub open spec fn packet_prefix(h: PacketHeader, payload: Seq<u8>) -> Seq<u8> {
    header_bytes(h) + payload + be16(payload.len() as u16)
}

/// The bytes of a packet.
pub open spec fn packet_bytes(h: PacketHeader, payload: Seq<u8>) -> Seq<u8> {
    packet_prefix(h, payload) + be16(crc16(packet_prefix(h, payload)))
}

/// What a datagram decodes to. The checks come in this order: length, header,
/// payload length, checksum.
pub open spec fn packet_of(s: Seq<u8>) -> Result<(PacketHeader, Seq<u8>), Error> {
    if s.len() < HEADER_SIZE + PAYLOAD_LEN_TAIL_OFFSET {
        Err(Error::TooShort)
    } else {
        match header_of(s) {
            Err(e) => Err(e),
            Ok(h) => if be16_at(s, s.len() - 4) != s.len() - HEADER_SIZE - PAYLOAD_LEN_TAIL_OFFSET {
                Err(Error::LengthMismatch)
            } else if be16_at(s, s.len() - 2) != crc16(s.subrange(0, s.len() - 2)) {
                Err(Error::BadChecksum)
            } else {
                Ok((h, s.subrange(24, s.len() - 4)))
            },
        }
    }
}

/// Decoding the bytes of a packet gives its header and payload back.
pub proof fn packet_round_trip(h: PacketHeader, payload: Seq<u8>)
    requires
        h.version == PROTOCOL_VERSION,
        payload.len() <= 0xFFFF,
    ensures
        packet_bytes(h, payload).len() == HEADER_SIZE + payload.len() + PAYLOAD_LEN_TAIL_OFFSET,
        packet_bytes(h, payload).subrange(0, 24) == header_bytes(h),
        packet_of(packet_bytes(h, payload)) == Ok::<(PacketHeader, Seq<u8>), Error>((h, payload)),
{
    let s = packet_bytes(h, payload);
    let crc = crc16(packet_prefix(h, payload));
    let rest = payload + be16(payload.len() as u16) + be16(crc);
    header_round_trip(h, rest);
    assert(s =~= header_bytes(h) + rest);
    assert(s.subrange(0, 24) =~= header_bytes(h));
    assert(s.subrange(s.len() - 4, s.len() - 4 + 2) =~= be16(payload.len() as u16));
    assert(s.subrange(s.len() - 2, s.len() - 2 + 2) =~= be16(crc));
    be16_round_trip(s, s.len() - 4, payload.len() as u16);
    be16_round_trip(s, s.len() - 2, crc);
    assert(s.subrange(0, s.len() - 2) =~= packet_prefix(h, payload));
    assert(s.subrange(24, s.len() - 4) =~= payload);
}

/// A valid packet whose checksum bytes are changed is refused.
pub proof fn checksum_corruption_detected(s: Seq<u8>, t: Seq<u8>)
    requires
        packet_of(s) is Ok,
        t.len() == s.len(),
        t.subrange(0, t.len() - 2) == s.subrange(0, s.len() - 2),
        t != s,
    ensures
        packet_of(t) == Err::<(PacketHeader, Seq<u8>), Error>(Error::BadChecksum),
{
    let n = s.len();
    assert forall|i: int| 0 <= i < n - 2 implies t[i] == s[i] by {
        assert(t.subrange(0, n - 2)[i] == s.subrange(0, n - 2)[i]);
    }
    assert(header_of(t) == header_of(s));
    if t[n - 2] == s[n - 2] && t[n - 1] == s[n - 1] {
        assert(t =~= s);
    }
}

/// A decoded packet that borrows its payload from the datagram.
pub struct PacketView<'a> {
    header: PacketHeader,
    payload: &'a [u8],
}

impl<'a> PacketView<'a> {
    /// The header as a mathematical value.
    pub closed spec fn spec_header(self) -> PacketHeader {
        self.header
    }

    /// The payload as a mathematical value.
    pub closed spec fn spec_payload(self) -> Seq<u8> {
        self.payload@
    }

    /// Decodes a whole datagram.
    pub fn decode(buf: &'a [u8]) -> (r: Result<PacketView<'a>, Error>)
        ensures
            match r {
                Ok(v) => packet_of(buf@) == Ok::<(PacketHeader, Seq<u8>), Error>(
                    (v.spec_header(), v.spec_payload()),
                ),
                Err(e) => packet_of(buf@) == Err::<(PacketHeader, Seq<u8>), Error>(e),
            },
    {
        let n: usize = buf.len();
        if n < HEADER_SIZE + PAYLOAD_LEN_TAIL_OFFSET {
            return Err(Error::TooShort);
        }
        let header: PacketHeader = match PacketHeader::decode(buf) {
            Ok(h) => h,
            Err(e) => return Err(e),
        };
        let declared: u16 = read_u16(buf, n - PAYLOAD_LEN_TAIL_OFFSET);
        if declared as usize != n - HEADER_SIZE - PAYLOAD_LEN_TAIL_OFFSET {
            return Err(Error::LengthMismatch);
        }
        let checksum: u16 = read_u16(buf, n - CHECKSUM_TAIL_OFFSET);
        if checksum != crc16_ccitt_false(buf, n - CHECKSUM_TAIL_OFFSET) {
            return Err(Error::BadChecksum);
        }
        let payload: &'a [u8] = vstd::slice::slice_subrange(
            buf,
            HEADER_SIZE,
            n - PAYLOAD_LEN_TAIL_OFFSET,
        );
        Ok(PacketView { header, payload })
    }

    /// The header.
    pub fn header(&self) -> (r: &PacketHeader)
        ensures
            *r == self.spec_header(),
    {
        &self.header
    }

    /// The payload.
    pub fn payload(&self) -> (r: &'a [u8])
        ensures
            r@ == self.spec_payload(),
    {
        self.payload
    }
}

/// A packet about to be encoded.
pub struct PacketBuilder<'a> {
    header: PacketHeader,
    payload: &'a [u8],
}

impl<'a> PacketBuilder<'a> {
    /// The header as a mathematical value.
    pub closed spec fn spec_header(self) -> PacketHeader {
        self.header
    }

    /// The payload as a mathematical value.
    pub closed spec fn spec_payload(self) -> Seq<u8> {
        self.payload@
    }

    /// Takes the two parts of a packet.
    pub fn new(header: PacketHeader, payload: &'a [u8]) -> (r: PacketBuilder<'a>)
        ensures
            r.spec_header() == header,
            r.spec_payload() == payload@,
    {
        PacketBuilder { header, payload }
    }

    /// Writes the packet to the front of `buf` and returns its length.
    pub fn encode(&self, buf: &mut [u8]) -> (r: Result<usize, Error>)
        ensures
            r is Err ==> final(buf)@ == old(buf)@,
            self.spec_payload().len() > 0xFFFF ==> r == Err::<usize, Error>(Error::PayloadTooLarge),
            self.spec_payload().len() <= 0xFFFF && old(buf)@.len() < self.spec_payload().len() + 28
                ==> r == Err::<usize, Error>(Error::BufferTooSmall),
            self.spec_payload().len() <= 0xFFFF && old(buf)@.len() >= self.spec_payload().len() + 28
                ==> {
                &&& r == Ok::<usize, Error>((self.spec_payload().len() + 28) as usize)
                &&& final(buf)@ == overwrite(
                    old(buf)@,
                    0,
                    packet_bytes(self.spec_header(), self.spec_payload()),
                )
            },
    {
        let len: usize = self.payload.len();
        if len > 0xFFFF {
            return Err(Error::PayloadTooLarge);
        }
        let total: usize = HEADER_SIZE + len + PAYLOAD_LEN_TAIL_OFFSET;
        if buf.len() < total {
            return Err(Error::BufferTooSmall);
        }
        let ghost before = buf@;
        let _ = self.header.encode(buf);
        write_bytes(buf, HEADER_SIZE, self.payload);
        write_u16(buf, total - PAYLOAD_LEN_TAIL_OFFSET, len as u16);
        let ghost prefix = packet_prefix(self.header, self.payload@);
        proof {
            header_round_trip(self.header, Seq::empty());
            assert(buf@.subrange(0, total - CHECKSUM_TAIL_OFFSET) =~= prefix);
        }
        let checksum: u16 = crc16_ccitt_false(buf, total - CHECKSUM_TAIL_OFFSET);
        write_u16(buf, total - CHECKSUM_TAIL_OFFSET, checksum);
        assert(buf@ =~= overwrite(before, 0, packet_bytes(self.header, self.payload@)));
        Ok(total)
    }
}

/// Where the parts of a packet stand: header, payload, its length and the checksum of
/// all that, the numbers most significant byte first.
pub proof fn packet_layout(h: PacketHeader, payload: Seq<u8>)
    requires
        payload.len() <= 0xFFFF,
    ensures
        ({
            let s = packet_bytes(h, payload);
            let n = payload.len();
            &&& s.len() == n + 28
            &&& s.subrange(0, 24) == header_bytes(h)
            &&& s.subrange(24, 24 + n as int) == payload
            &&& n == s[24 + n as int] * 256 + s[25 + n as int]
            &&& crc16(s.subrange(0, 26 + n as int)) == s[26 + n as int] * 256 + s[27 + n as int]
        }),
{
    let s = packet_bytes(h, payload);
    let n = payload.len() as int;
    header_round_trip(h, Seq::empty());
    assert(s.subrange(0, 24) =~= header_bytes(h));
    assert(s.subrange(24, 24 + n) =~= payload);
    assert(s.subrange(0, 26 + n) =~= packet_prefix(h, payload));
}

/// What is read as a packet: a header, as many bytes as the length behind them says, and
/// the right checksum at the end. The first thing that is wrong decides the error.
pub proof fn packet_is_read(s: Seq<u8>)
    ensures
        s.len() < 28 ==> packet_of(s) == Err::<(PacketHeader, Seq<u8>), Error>(Error::TooShort),
        s.len() >= 28 ==> {
            let n = s.len();
            let len = s[n - 4] * 256 + s[n - 3];
            let sum = s[n - 2] * 256 + s[n - 1];
            &&& packet_of(s) is Ok <==> header_of(s) is Ok && len + 28 == n && sum == crc16(
                s.subrange(0, n - 2),
            )
            &&& packet_of(s) matches Ok((h, payload)) ==> header_of(s) == Ok::<PacketHeader, Error>(h)
                && payload == s.subrange(24, n - 4)
            &&& header_of(s) matches Err(e) ==> packet_of(s) == Err::<
                (PacketHeader, Seq<u8>),
                Error,
            >(e)
            &&& header_of(s) is Ok && len + 28 != n ==> packet_of(s) == Err::<
                (PacketHeader, Seq<u8>),
                Error,
            >(Error::LengthMismatch)
            &&& header_of(s) is Ok && len + 28 == n && sum != crc16(s.subrange(0, n - 2))
                ==> packet_of(s) == Err::<(PacketHeader, Seq<u8>), Error>(Error::BadChecksum)
        },
{
}

} // verus!
