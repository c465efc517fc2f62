//! The 24-byte packet header.
//!
//! Layout (big-endian):
//!
//! ```text
//! 0  magic (2)         0x4753 ("GS")
//! 2  version (1)
//! 3  flags (1)
//! 4  msg_type (1)
//! 5  reserved (3)      zero
//! 8  session_id (4)
//! 12 sequence (4)
//! 16 timestamp (8)
//! ```
//!
//! The payload length and the checksum stand at the end of the packet.
use vstd::prelude::*;

use crate::constants::{HEADER_SIZE, MAGIC_BYTES, PROTOCOL_VERSION};
use crate::error::Error;
use crate::offsets;
use crate::wire::{
    be32, be32_at, be32_round_trip, be32_spells, be64, be64_at, be64_round_trip, be64_spells,
    overwrite, read_u32, read_u64, write_u32, write_u64,
};

verus! {

/// Flags of the header, one bit each.
#[derive(Debug, Clone, Copy, PartialEq, Eq, Structural)]
pub struct Flags(pub u8);

impl Flags {
    /// The payload is one fragment of a larger frame.
    pub fn fragmented() -> (r: Flags)
        ensures
            r == Flags(0b1000_0000),
    {
        Flags(0b1000_0000)
    }

    /// The payload is the last fragment of its frame.
    pub fn last_fragment() -> (r: Flags)
        ensures
            r == Flags(0b0100_0000),
    {
        Flags(0b0100_0000)
    }

    /// The payload is sealed with the session key.
    pub fn encrypted() -> (r: Flags)
        ensures
            r == Flags(0b0010_0000),
    {
        Flags(0b0010_0000)
    }

    /// The packet is sent again.
    pub fn retransmit() -> (r: Flags)
        ensures
            r == Flags(0b0001_0000),
    {
        Flags(0b0001_0000)
    }

    /// No flag set.
    pub fn empty() -> (r: Flags)
        ensures
            r == Flags(0),
    {
        Flags(0)
    }

    /// Every flag of `other` is set in `self`.
    pub open spec fn has(self, other: Flags) -> bool {
        (self.0 & other.0) == other.0
    }

    /// Whether every flag of `other` is set.
    pub fn contains(self, other: Flags) -> (r: bool)
        ensures
            r == self.has(other),
    {
        (self.0 & other.0) == other.0
    }

    /// Sets the flags of `other`.
    pub fn set(&mut self, other: Flags)
        ensures
            final(self).0 == old(self).0 | other.0,
            final(self).has(other),
    {
        let ghost a: u8 = self.0;
        let ghost b: u8 = other.0;
        self.0 = self.0 | other.0;
        assert((a | b) & b == b) by (bit_vector);
    }

    /// Clears the flags of `other`.
    pub fn unset(&mut self, other: Flags)
        ensures
            final(self).0 == old(self).0 & !other.0,
            final(self).0 & other.0 == 0,
    {
        let ghost a: u8 = self.0;
        let ghost b: u8 = other.0;
        self.0 = self.0 & !other.0;
        assert((a & !b) & b == 0) by (bit_vector);
    }

    /// The flags as a byte.
    pub fn bits(self) -> (r: u8)
        ensures
            r == self.0,
    {
        self.0
    }
}

impl std::ops::BitOr<Flags> for Flags {
    type Output = Flags;

    fn bitor(self, rhs: Flags) -> (r: Flags) {
        Flags(self.0 | rhs.0)
    }
}

impl vstd::std_specs::ops::BitOrSpecImpl<Flags> for Flags {
    open spec fn obeys_bitor_spec() -> bool {
        true
    }

    open spec fn bitor_req(self, rhs: Flags) -> bool {
        true
    }

    open spec fn bitor_spec(self, rhs: Flags) -> Flags {
        Flags(self.0 | rhs.0)
    }
}

impl Default for Flags {
    /// No flag set.
    fn default() -> (r: Flags)
        ensures
            r == Flags(0),
    {
        Flags(0)
    }
}

/// A packet header, decoded.
#[derive(Debug, Clone, Copy, PartialEq, Eq, Structural)]
pub struct PacketHeader {
    pub version: u8,
    pub flags: Flags,
    pub msg_type: u8,
    pub session_id: u32,
    pub sequence: u32,
    pub timestamp: u64,
}

/// The 24 bytes that stand for `h` on the wire.
pub open spec fn header_bytes(h: PacketHeader) -> Seq<u8> {
    seq![
        MAGIC_BYTES[0],
        MAGIC_BYTES[1],
        h.version,
        h.flags.0,
        h.msg_type,
        0,
        0,
        0,
    ] + be32(h.session_id) + be32(h.sequence) + be64(h.timestamp)
}

/// What the first 24 bytes of `s` decode to. The checks come in this order:
/// length, magic, version, reserved bytes.
pub open spec fn header_of(s: Seq<u8>) -> Result<PacketHeader, Error> {
    if s.len() < HEADER_SIZE {
        Err(Error::TooShort)
    } else if s[0] != MAGIC_BYTES[0] || s[1] != MAGIC_BYTES[1] {
        Err(Error::BadMagic)
    } else if s[2] != PROTOCOL_VERSION {
        Err(Error::ProtocolMismatch)
    } else if s[5] != 0 || s[6] != 0 || s[7] != 0 {
        Err(Error::ReservedFieldNonZero)
    } else {
        Ok(
            PacketHeader {
                version: s[2],
                flags: Flags(s[3]),
                msg_type: s[4],
                session_id: be32_at(s, 8),
                sequence: be32_at(s, 12),
                timestamp: be64_at(s, 16),
            },
        )
    }
}

/// Decoding what `encode` wrote gives the header back, for every header of the
/// version implemented here; a header of another version is refused.
pub proof fn header_round_trip(h: PacketHeader, rest: Seq<u8>)
    ensures
        header_bytes(h).len() == HEADER_SIZE,
        h.version == PROTOCOL_VERSION ==> header_of(header_bytes(h) + rest) == Ok::<
            PacketHeader,
            Error,
        >(h),
        h.version != PROTOCOL_VERSION ==> header_of(header_bytes(h) + rest) == Err::<
            PacketHeader,
            Error,
        >(Error::ProtocolMismatch),
{
    let s = header_bytes(h) + rest;
    assert(s.subrange(8, 12) =~= be32(h.session_id));
    assert(s.subrange(12, 16) =~= be32(h.sequence));
    assert(s.subrange(16, 24) =~= be64(h.timestamp));
    be32_round_trip(s, 8, h.session_id);
    be32_round_trip(s, 12, h.sequence);
    be64_round_trip(s, 16, h.timestamp);
}

impl PacketHeader {
    /// Decodes the first 24 bytes of `buf`.
    pub fn decode(buf: &[u8]) -> (r: Result<PacketHeader, Error>)
        ensures
            r == header_of(buf@),
    {
        if buf.len() < HEADER_SIZE {
            return Err(Error::TooShort);
        }
        if buf[offsets::MAGIC] != MAGIC_BYTES[0] || buf[offsets::MAGIC + 1] != MAGIC_BYTES[1] {
            return Err(Error::BadMagic);
        }
        let version: u8 = buf[offsets::VERSION];
        if version != PROTOCOL_VERSION {
            return Err(Error::ProtocolMismatch);
        }
        // A reserved byte that is not zero means a parser out of step or a
        // packet from elsewhere.
        if buf[offsets::RESERVED] != 0 || buf[offsets::RESERVED + 1] != 0 || buf[offsets::RESERVED
            + 2] != 0 {
            return Err(Error::ReservedFieldNonZero);
        }
        Ok(
            PacketHeader {
                version,
                flags: Flags(buf[offsets::FLAGS]),
                msg_type: buf[offsets::MSG_TYPE],
                session_id: read_u32(buf, offsets::SESSION_ID),
                sequence: read_u32(buf, offsets::SEQUENCE),
                timestamp: read_u64(buf, offsets::TIMESTAMP),
            },
        )
    }

    /// Encodes this header into the first 24 bytes of `buf`.
    pub fn encode(&self, buf: &mut [u8]) -> (r: Result<(), Error>)
        ensures
            r == if old(buf)@.len() < HEADER_SIZE {
                Err::<(), Error>(Error::BufferTooSmall)
            } else {
                Ok::<(), Error>(())
            },
            r is Err ==> final(buf)@ == old(buf)@,
            r is Ok ==> final(buf)@ == overwrite(old(buf)@, 0, header_bytes(*self)),
    {
        if buf.len() < HEADER_SIZE {
            return Err(Error::BufferTooSmall);
        }
        let ghost before = buf@;
        buf[offsets::MAGIC] = MAGIC_BYTES[0];
        buf[offsets::MAGIC + 1] = MAGIC_BYTES[1];
        buf[offsets::VERSION] = self.version;
        buf[offsets::FLAGS] = self.flags.0;
        buf[offsets::MSG_TYPE] = self.msg_type;
        buf[offsets::RESERVED] = 0;
        buf[offsets::RESERVED + 1] = 0;
        buf[offsets::RESERVED + 2] = 0;
        write_u32(buf, offsets::SESSION_ID, self.session_id);
        write_u32(buf, offsets::SEQUENCE, self.sequence);
        write_u64(buf, offsets::TIMESTAMP, self.timestamp);
        assert(buf@ =~= overwrite(before, 0, header_bytes(*self)));
        Ok(())
    }

    /// A header of the version implemented here, with no flag set.
    pub fn new(msg_type: u8, session_id: u32, sequence: u32, timestamp: u64) -> (r: PacketHeader)
        ensures
            r == plain_header(msg_type, session_id, sequence, timestamp),
    {
        PacketHeader {
            version: PROTOCOL_VERSION,
            flags: Flags::empty(),
            msg_type,
            session_id,
            sequence,
            timestamp,
        }
    }
}

/// A header of the version implemented here, with no flag set.
pub open spec fn plain_header(
    msg_type: u8,
    session_id: u32,
    sequence: u32,
    timestamp: u64,
) -> PacketHeader {
    PacketHeader {
        version: PROTOCOL_VERSION,
        flags: Flags(0),
        msg_type,
        session_id,
        sequence,
        timestamp,
    }
}

impl Default for PacketHeader {
    /// All fields zero.
    fn default() -> (r: PacketHeader)
        ensures
            r == (PacketHeader {
                version: 0,
                flags: Flags(0),
                msg_type: 0,
                session_id: 0,
                sequence: 0,
                timestamp: 0,
            }),
    {
        PacketHeader {
            version: 0,
            flags: Flags(0),
            msg_type: 0,
            session_id: 0,
            sequence: 0,
            timestamp: 0,
        }
    }
}

/// Where the fields of a header stand: after the letters GS come version, flags and
/// type, three zeros, and session, sequence and time, most significant byte first.
pub proof fn header_layout(h: PacketHeader)
    ensures
        ({
            let b = header_bytes(h);
            &&& b.len() == 24
            &&& b[0] == 0x47 && b[1] == 0x53
            &&& b[2] == h.version && b[3] == h.flags.0 && b[4] == h.msg_type
            &&& b[5] == 0 && b[6] == 0 && b[7] == 0
            &&& h.session_id == b[8] * 0x100_0000 + b[9] * 0x1_0000 + b[10] * 0x100 + b[11]
            &&& h.sequence == b[12] * 0x100_0000 + b[13] * 0x1_0000 + b[14] * 0x100 + b[15]
            &&& h.timestamp / 0x1_0000_0000 == b[16] * 0x100_0000 + b[17] * 0x1_0000 + b[18] * 0x100
                + b[19]
            &&& h.timestamp % 0x1_0000_0000 == b[20] * 0x100_0000 + b[21] * 0x1_0000 + b[22] * 0x100
                + b[23]
        }),
{
    let b = header_bytes(h);
    be32_spells(h.session_id);
    be32_spells(h.sequence);
    be64_spells(h.timestamp);
    assert forall|i: int| 0 <= i < 4 implies b[8 + i] == be32(h.session_id)[i] && b[12 + i]
        == be32(h.sequence)[i] by {}
    assert forall|i: int| 0 <= i < 8 implies b[16 + i] == be64(h.timestamp)[i] by {}
    assert(b[8] == be32(h.session_id)[0] && b[9] == be32(h.session_id)[1]);
    assert(b[10] == be32(h.session_id)[2] && b[11] == be32(h.session_id)[3]);
    assert(b[12] == be32(h.sequence)[0] && b[13] == be32(h.sequence)[1]);
    assert(b[14] == be32(h.sequence)[2] && b[15] == be32(h.sequence)[3]);
    assert(b[16] == be64(h.timestamp)[0] && b[17] == be64(h.timestamp)[1]);
    assert(b[18] == be64(h.timestamp)[2] && b[19] == be64(h.timestamp)[3]);
    assert(b[20] == be64(h.timestamp)[4] && b[21] == be64(h.timestamp)[5]);
    assert(b[22] == be64(h.timestamp)[6] && b[23] == be64(h.timestamp)[7]);
}

/// What is read as a header: 24 bytes that begin with GS and version 1 and have zeros
/// where they are reserved. The first thing that is wrong decides the error.
pub proof fn header_is_read(s: Seq<u8>)
    ensures
        header_of(s) is Ok <==> s.len() >= 24 && s[0] == 0x47 && s[1] == 0x53 && s[2] == 1 && s[5]
            == 0 && s[6] == 0 && s[7] == 0,
        header_of(s) matches Ok(h) ==> {
            &&& h.version == 1 && h.flags.0 == s[3] && h.msg_type == s[4]
            &&& h.session_id == s[8] * 0x100_0000 + s[9] * 0x1_0000 + s[10] * 0x100 + s[11]
            &&& h.sequence == s[12] * 0x100_0000 + s[13] * 0x1_0000 + s[14] * 0x100 + s[15]
            &&& h.timestamp / 0x1_0000_0000 == s[16] * 0x100_0000 + s[17] * 0x1_0000 + s[18] * 0x100
                + s[19]
            &&& h.timestamp % 0x1_0000_0000 == s[20] * 0x100_0000 + s[21] * 0x1_0000 + s[22] * 0x100
                + s[23]
        },
        s.len() < 24 ==> header_of(s) == Err::<PacketHeader, Error>(Error::TooShort),
        s.len() >= 24 && (s[0] != 0x47 || s[1] != 0x53) ==> header_of(s) == Err::<
            PacketHeader,
            Error,
        >(Error::BadMagic),
        s.len() >= 24 && s[0] == 0x47 && s[1] == 0x53 && s[2] != 1 ==> header_of(s) == Err::<
            PacketHeader,
            Error,
        >(Error::ProtocolMismatch),
        s.len() >= 24 && s[0] == 0x47 && s[1] == 0x53 && s[2] == 1 && (s[5] != 0 || s[6] != 0
            || s[7] != 0) ==> header_of(s) == Err::<PacketHeader, Error>(
            Error::ReservedFieldNonZero,
        ),
{
}

/// A flag counts as set where its bit is, and several where all their bits are.
pub proof fn flags_are_bits(f: Flags, g: Flags)
    ensures
        f.has(g) <==> f.0 | g.0 == f.0,
        f.has(Flags(0)),
        f.has(f),
{
    let a: u8 = f.0;
    let b: u8 = g.0;
    assert((a & b == b) <==> (a | b == a)) by (bit_vector);
    assert(a & 0 == 0) by (bit_vector);
    assert(a & a == a) by (bit_vector);
}

/// A plain header has version 1, no flag, and what it was made from.
pub proof fn plain_header_fields(msg_type: u8, session_id: u32, sequence: u32, timestamp: u64)
    ensures
        ({
            let h = plain_header(msg_type, session_id, sequence, timestamp);
            &&& h.version == 1 && h.flags.0 == 0 && h.msg_type == msg_type
            &&& h.session_id == session_id && h.sequence == sequence && h.timestamp == timestamp
        }),
{
}

} // verus!
