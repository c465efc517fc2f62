//! Errors of the wire format and of the cryptographic primitives.
use vstd::prelude::*;

verus! {

/// What can be wrong with a packet, a payload or a buffer.
#[derive(Debug, Clone, Copy, PartialEq, Eq, Structural)]
pub enum Error {
    /// The buffer is too short to hold a packet.
    TooShort,
    /// The magic bytes are not `"GS"`.
    BadMagic,
    /// The version is not the one implemented here.
    ProtocolMismatch,
    /// The declared payload length does not fit the buffer.
    LengthMismatch,
    /// The CRC-16 does not match.
    BadChecksum,
    /// The message type is not known.
    UnknownMessageType(u8),
    /// The output buffer is too small to encode into.
    BufferTooSmall,
    /// The payload is longer than its length field can say.
    PayloadTooLarge,
    /// Too many fragments.
    TooManyFragments,
    /// The index of a fragment is out of range.
    FragmentOutOfRange,
    /// A fragment came twice.
    DuplicateFragment,
    /// A frame was taken before all its fragments had come.
    IncompleteReassembly,
    /// The session state does not admit the event.
    InvalidStateTransition,
    /// The inner structure of a payload is malformed.
    MalformedPayload,
    /// The AEAD tag does not match: corrupt payload or wrong key.
    DecryptionFailed,
    /// The reserved bytes of the header are not zero.
    ReservedFieldNonZero,
    /// No protocol version suits both ends.
    VersionNegotiationFailed,
}

/// The stable number of each error.
pub open spec fn error_code(e: Error) -> u16 {
    match e {
        Error::TooShort => 1,
        Error::BadMagic => 2,
        Error::ProtocolMismatch => 3,
        Error::LengthMismatch => 4,
        Error::BadChecksum => 5,
        Error::UnknownMessageType(_) => 6,
        Error::BufferTooSmall => 7,
        Error::PayloadTooLarge => 8,
        Error::TooManyFragments => 9,
        Error::FragmentOutOfRange => 10,
        Error::DuplicateFragment => 11,
        Error::IncompleteReassembly => 12,
        Error::InvalidStateTransition => 13,
        Error::MalformedPayload => 14,
        Error::DecryptionFailed => 15,
        Error::ReservedFieldNonZero => 16,
        Error::VersionNegotiationFailed => 17,
    }
}

/// The upper-case hexadecimal digit of a number below 16.
pub open spec fn hex_digit(d: int) -> char {
    if d < 10 {
        (48 + d) as char
    } else {
        (55 + d) as char
    }
}

/// What each error says.
pub open spec fn error_message(e: Error) -> Seq<char> {
    match e {
        Error::TooShort => "buffer shorter than header size"@,
        Error::BadMagic => "magic bytes mismatch"@,
        Error::ProtocolMismatch => "unsupported protocol version"@,
        Error::LengthMismatch => "payload length does not match buffer"@,
        Error::BadChecksum => "CRC-16 checksum mismatch"@,
        Error::UnknownMessageType(t) => "unknown message type: 0x"@.push(
            hex_digit((t / 16) as int),
        ).push(hex_digit((t % 16) as int)),
        Error::BufferTooSmall => "output buffer too small"@,
        Error::PayloadTooLarge => "payload exceeds maximum size"@,
        Error::TooManyFragments => "fragment count exceeds maximum"@,
        Error::FragmentOutOfRange => "fragment index out of range"@,
        Error::DuplicateFragment => "duplicate fragment received"@,
        Error::IncompleteReassembly => "cannot pop incomplete reassembly"@,
        Error::InvalidStateTransition => "invalid session state transition"@,
        Error::MalformedPayload => "malformed payload structure"@,
        Error::DecryptionFailed => "AEAD decryption/authentication failed"@,
        Error::ReservedFieldNonZero => "reserved header bytes must be zero"@,
        Error::VersionNegotiationFailed => "protocol version negotiation failed"@,
    }
}

/// The upper-case hexadecimal digit of a number below 16.
fn hex_char(d: u8) -> (r: char)
    requires
        d < 16,
    ensures
        r == hex_digit(d as int),
{
    if d < 10 {
        (48 + d) as char
    } else {
        (55 + d) as char
    }
}

impl Error {
    /// The stable number of this error.
    pub fn code(&self) -> (r: u16)
        ensures
            r == error_code(*self),
    {
        match self {
            Error::TooShort => 1,
            Error::BadMagic => 2,
            Error::ProtocolMismatch => 3,
            Error::LengthMismatch => 4,
            Error::BadChecksum => 5,
            Error::UnknownMessageType(_) => 6,
            Error::BufferTooSmall => 7,
            Error::PayloadTooLarge => 8,
            Error::TooManyFragments => 9,
            Error::FragmentOutOfRange => 10,
            Error::DuplicateFragment => 11,
            Error::IncompleteReassembly => 12,
            Error::InvalidStateTransition => 13,
            Error::MalformedPayload => 14,
            Error::DecryptionFailed => 15,
            Error::ReservedFieldNonZero => 16,
            Error::VersionNegotiationFailed => 17,
        }
    }

    /// What this error says.
    pub fn message(&self) -> (r: String)
        ensures
            r@ == error_message(*self),
    {
        match self {
            Error::TooShort => "buffer shorter than header size".to_owned(),
            Error::BadMagic => "magic bytes mismatch".to_owned(),
            Error::ProtocolMismatch => "unsupported protocol version".to_owned(),
            Error::LengthMismatch => "payload length does not match buffer".to_owned(),
            Error::BadChecksum => "CRC-16 checksum mismatch".to_owned(),
            Error::UnknownMessageType(t) => {
                let mut s: String = "unknown message type: 0x".to_owned();
                s.push(hex_char(*t / 16));
                s.push(hex_char(*t % 16));
                s
            },
            Error::BufferTooSmall => "output buffer too small".to_owned(),
            Error::PayloadTooLarge => "payload exceeds maximum size".to_owned(),
            Error::TooManyFragments => "fragment count exceeds maximum".to_owned(),
            Error::FragmentOutOfRange => "fragment index out of range".to_owned(),
            Error::DuplicateFragment => "duplicate fragment received".to_owned(),
            Error::IncompleteReassembly => "cannot pop incomplete reassembly".to_owned(),
            Error::InvalidStateTransition => "invalid session state transition".to_owned(),
            Error::MalformedPayload => "malformed payload structure".to_owned(),
            Error::DecryptionFailed => "AEAD decryption/authentication failed".to_owned(),
            Error::ReservedFieldNonZero => "reserved header bytes must be zero".to_owned(),
            Error::VersionNegotiationFailed => "protocol version negotiation failed".to_owned(),
        }
    }
}

/// The numbers of the errors run from 1 to 17, and no two share one.
pub proof fn errors_are_numbered(a: Error, b: Error, t: u8)
    ensures
        1 <= error_code(a) <= 17,
        error_code(a) == error_code(b) ==> a == b || (a is UnknownMessageType
            && b is UnknownMessageType),
        error_code(Error::TooShort) == 1,
        error_code(Error::BadMagic) == 2,
        error_code(Error::ProtocolMismatch) == 3,
        error_code(Error::LengthMismatch) == 4,
        error_code(Error::BadChecksum) == 5,
        error_code(Error::UnknownMessageType(t)) == 6,
        error_code(Error::BufferTooSmall) == 7,
        error_code(Error::PayloadTooLarge) == 8,
        error_code(Error::TooManyFragments) == 9,
        error_code(Error::FragmentOutOfRange) == 10,
        error_code(Error::DuplicateFragment) == 11,
        error_code(Error::IncompleteReassembly) == 12,
        error_code(Error::InvalidStateTransition) == 13,
        error_code(Error::MalformedPayload) == 14,
        error_code(Error::DecryptionFailed) == 15,
        error_code(Error::ReservedFieldNonZero) == 16,
        error_code(Error::VersionNegotiationFailed) == 17,
{
}

/// An unknown message type is told by its two hexadecimal digits, the higher first.
pub proof fn unknown_type_is_told(t: u8)
    ensures
        ({
            let digits = seq![
                '0', '1', '2', '3', '4', '5', '6', '7', '8', '9', 'A', 'B', 'C', 'D', 'E', 'F',
            ];
            error_message(Error::UnknownMessageType(t)) == "unknown message type: 0x"@ + seq![
                digits[t as int / 16],
                digits[t as int % 16],
            ]
        }),
{
    let digits = seq!['0', '1', '2', '3', '4', '5', '6', '7', '8', '9', 'A', 'B', 'C', 'D', 'E', 'F'];
    assert forall|d: int| 0 <= d < 16 implies hex_digit(d) == #[trigger] digits[d] by {}
    let m = "unknown message type: 0x"@;
    assert(m.push(digits[t as int / 16]).push(digits[t as int % 16]) =~= m + seq![
        digits[t as int / 16],
        digits[t as int % 16],
    ]);
}

} // verus!
