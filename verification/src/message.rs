//! Message types and structured payloads.
//!
//! The handshake takes four steps:
//!
//! ```text
//! client                              server
//!   |-- ClientHello (0x01) ------------>|  X25519 public key + nonce
//!   |<-- ServerHello (0x02) ------------|  X25519 public key + nonce + session id
//!   |    both derive the session keys
//!   |-- KeyExchange (0x04) ------------>|  proof of the client's key
//!   |<-- SessionConfirm (0x03) ---------|  proof of the server's key
//! ```
use vstd::prelude::*;

use crate::error::Error;
use crate::wire::{
    be32, be32_at, be32_round_trip, overwrite, read_array, read_u32, write_bytes, write_u32,
};

verus! {

/// Meaning of the `msg_type` byte of the header.
#[derive(Debug, Clone, Copy, PartialEq, Eq, Structural)]
#[non_exhaustive]
pub enum MessageType {
    /// Client to server: ephemeral public key, nonce and parameters.
    HandshakeClientHello,
    /// Server to client: ephemeral public key, nonce, session id and codec.
    HandshakeServerHello,
    /// Server to client: proof that the server holds the keys.
    HandshakeSessionConfirm,
    /// Client to server: proof that the client holds the keys.
    HandshakeKeyExchange,
    AudioFrame,
    AudioFragment,
    Heartbeat,
    HeartbeatAck,
    ControlPause,
    ControlResume,
    ControlMetrics,
    /// The range `0x40..=0x7F` is left to applications.
    Extension(u8),
    Error,
    Close,
}

/// Byte of a parity packet, outside the table of [`MessageType`].
pub const AUDIO_FEC: u8 = 0x12;

/// Byte of a bitrate request, outside the table of [`MessageType`].
pub const CONTROL_BITRATE: u8 = 0x33;

/// The byte of each message type.
pub open spec fn message_code(m: MessageType) -> u8 {
    match m {
        MessageType::HandshakeClientHello => 0x01,
        MessageType::HandshakeServerHello => 0x02,
        MessageType::HandshakeSessionConfirm => 0x03,
        MessageType::HandshakeKeyExchange => 0x04,
        MessageType::AudioFrame => 0x10,
        MessageType::AudioFragment => 0x11,
        MessageType::Heartbeat => 0x20,
        MessageType::HeartbeatAck => 0x21,
        MessageType::ControlPause => 0x30,
        MessageType::ControlResume => 0x31,
        MessageType::ControlMetrics => 0x32,
        MessageType::Extension(b) => b,
        MessageType::Error => 0xFE,
        MessageType::Close => 0xFF,
    }
}

/// A message type that a byte can stand for: an extension keeps to its range.
pub open spec fn message_valid(m: MessageType) -> bool {
    m matches MessageType::Extension(b) ==> 0x40 <= b <= 0x7F
}

/// `code` is the byte of some message type.
pub open spec fn message_known(code: u8) -> bool {
    ||| 0x01 <= code <= 0x04
    ||| code == 0x10 || code == 0x11
    ||| code == 0x20 || code == 0x21
    ||| 0x30 <= code <= 0x32
    ||| 0x40 <= code <= 0x7F
    ||| code >= 0xFE
}

/// Two valid message types never share a byte.
pub proof fn message_code_injective(a: MessageType, b: MessageType)
    requires
        message_valid(a),
        message_valid(b),
        message_code(a) == message_code(b),
    ensures
        a == b,
{
}

impl MessageType {
    /// The byte of this message type.
    pub fn code(self) -> (r: u8)
        ensures
            r == message_code(self),
    {
        match self {
            MessageType::HandshakeClientHello => 0x01,
            MessageType::HandshakeServerHello => 0x02,
            MessageType::HandshakeSessionConfirm => 0x03,
            MessageType::HandshakeKeyExchange => 0x04,
            MessageType::AudioFrame => 0x10,
            MessageType::AudioFragment => 0x11,
            MessageType::Heartbeat => 0x20,
            MessageType::HeartbeatAck => 0x21,
            MessageType::ControlPause => 0x30,
            MessageType::ControlResume => 0x31,
            MessageType::ControlMetrics => 0x32,
            MessageType::Extension(b) => b,
            MessageType::Error => 0xFE,
            MessageType::Close => 0xFF,
        }
    }

    /// The message type of a byte: the valid one whose byte it is.
    pub fn from_code(code: u8) -> (r: Result<MessageType, Error>)
        ensures
            match r {
                Ok(m) => message_known(code) && message_valid(m) && message_code(m) == code,
                Err(e) => !message_known(code) && e == Error::UnknownMessageType(code),
            },
    {
        if code == 0x01 {
            Ok(MessageType::HandshakeClientHello)
        } else if code == 0x02 {
            Ok(MessageType::HandshakeServerHello)
        } else if code == 0x03 {
            Ok(MessageType::HandshakeSessionConfirm)
        } else if code == 0x04 {
            Ok(MessageType::HandshakeKeyExchange)
        } else if code == 0x10 {
            Ok(MessageType::AudioFrame)
        } else if code == 0x11 {
            Ok(MessageType::AudioFragment)
        } else if code == 0x20 {
            Ok(MessageType::Heartbeat)
        } else if code == 0x21 {
            Ok(MessageType::HeartbeatAck)
        } else if code == 0x30 {
            Ok(MessageType::ControlPause)
        } else if code == 0x31 {
            Ok(MessageType::ControlResume)
        } else if code == 0x32 {
            Ok(MessageType::ControlMetrics)
        } else if 0x40 <= code && code <= 0x7F {
            Ok(MessageType::Extension(code))
        } else if code == 0xFE {
            Ok(MessageType::Error)
        } else if code == 0xFF {
            Ok(MessageType::Close)
        } else {
            Err(Error::UnknownMessageType(code))
        }
    }

    /// Whether the message belongs to the handshake.
    pub fn is_handshake(self) -> (r: bool)
        ensures
            r == (0x01 <= message_code(self) <= 0x04 && !(self is Extension)),
    {
        match self {
            MessageType::HandshakeClientHello => true,
            MessageType::HandshakeServerHello => true,
            MessageType::HandshakeSessionConfirm => true,
            MessageType::HandshakeKeyExchange => true,
            _ => false,
        }
    }
}

/// First payload of the handshake, from the client.
#[derive(Debug, Clone, PartialEq, Eq)]
pub struct ClientHello {
    pub ephemeral_public_key: [u8; 32],
    pub client_nonce: [u8; 32],
    pub protocol_version: u8,
    pub codec_preferred: u8,
    pub sample_rate: u32,
    pub channels: u8,
    pub frame_duration_ms: u8,
    pub max_bitrate: u32,
    pub capability_flags: u32,
}

/// The fields of a [`ClientHello`] as mathematical values.
#[verifier::ext_equal]
pub struct ClientHelloView {
    pub ephemeral_public_key: Seq<u8>,
    pub client_nonce: Seq<u8>,
    pub protocol_version: u8,
    pub codec_preferred: u8,
    pub sample_rate: u32,
    pub channels: u8,
    pub frame_duration_ms: u8,
    pub max_bitrate: u32,
    pub capability_flags: u32,
}

impl View for ClientHello {
    type V = ClientHelloView;

    open spec fn view(&self) -> ClientHelloView {
        ClientHelloView {
            ephemeral_public_key: self.ephemeral_public_key@,
            client_nonce: self.client_nonce@,
            protocol_version: self.protocol_version,
            codec_preferred: self.codec_preferred,
            sample_rate: self.sample_rate,
            channels: self.channels,
            frame_duration_ms: self.frame_duration_ms,
            max_bitrate: self.max_bitrate,
            capability_flags: self.capability_flags,
        }
    }
}

impl ClientHelloView {
    /// The byte strings have the length of their arrays.
    pub open spec fn sized(self) -> bool {
        &&& self.ephemeral_public_key.len() == 32
        &&& self.client_nonce.len() == 32
    }
}

/// The 80 bytes that stand for `m` on the wire.
pub open spec fn client_hello_bytes(m: ClientHelloView) -> Seq<u8> {
    m.ephemeral_public_key + m.client_nonce + seq![m.protocol_version, m.codec_preferred] + be32(m.sample_rate) + seq![m.channels, m.frame_duration_ms] + be32(m.max_bitrate) + be32(m.capability_flags)
}

/// What the first 80 bytes of `s` decode to, where there are so many.
pub open spec fn client_hello_of(s: Seq<u8>) -> Option<ClientHelloView> {
    if s.len() < 80 {
        None
    } else {
        Some(
            ClientHelloView {
                ephemeral_public_key: s.subrange(0, 32),
                client_nonce: s.subrange(32, 64),
                protocol_version: s[64],
                codec_preferred: s[65],
                sample_rate: be32_at(s, 66),
                channels: s[70],
                frame_duration_ms: s[71],
                max_bitrate: be32_at(s, 72),
                capability_flags: be32_at(s, 76),
            },
        )
    }
}

/// Decoding the bytes of a [`ClientHello`] gives it back, whatever follows them.
pub proof fn client_hello_of_round_trip(m: ClientHelloView, rest: Seq<u8>)
    requires
        m.sized(),
    ensures
        client_hello_bytes(m).len() == 80,
        client_hello_of(client_hello_bytes(m) + rest) == Some(m),
{
    let s = client_hello_bytes(m) + rest;
    assert(s.subrange(0, 32) =~= m.ephemeral_public_key);
    assert(s.subrange(32, 64) =~= m.client_nonce);
    assert(s.subrange(66, 70) =~= be32(m.sample_rate));
    be32_round_trip(s, 66, m.sample_rate);
    assert(s.subrange(72, 76) =~= be32(m.max_bitrate));
    be32_round_trip(s, 72, m.max_bitrate);
    assert(s.subrange(76, 80) =~= be32(m.capability_flags));
    be32_round_trip(s, 76, m.capability_flags);
}

impl ClientHello {
    /// Size on the wire.
    pub const SIZE: usize = 80;

    /// Writes the payload into the first 80 bytes of `buf`.
    pub fn encode(&self, buf: &mut [u8]) -> (r: Result<(), Error>)
        ensures
            r == if old(buf)@.len() < 80 {
                Err::<(), Error>(Error::BufferTooSmall)
            } else {
                Ok::<(), Error>(())
            },
            r is Err ==> final(buf)@ == old(buf)@,
            r is Ok ==> final(buf)@ == overwrite(old(buf)@, 0, client_hello_bytes(self@)),
    {
        if buf.len() < 80 {
            return Err(Error::BufferTooSmall);
        }
        let ghost before = buf@;
        write_bytes(buf, 0, &self.ephemeral_public_key);
        write_bytes(buf, 32, &self.client_nonce);
        buf[64] = self.protocol_version;
        buf[65] = self.codec_preferred;
        write_u32(buf, 66, self.sample_rate);
        buf[70] = self.channels;
        buf[71] = self.frame_duration_ms;
        write_u32(buf, 72, self.max_bitrate);
        write_u32(buf, 76, self.capability_flags);
        assert(buf@ =~= overwrite(before, 0, client_hello_bytes(self@)));
        Ok(())
    }

    /// Reads the payload from the first 80 bytes of `buf`.
    pub fn decode(buf: &[u8]) -> (r: Result<ClientHello, Error>)
        ensures
            match r {
                Ok(m) => client_hello_of(buf@) == Some(m@),
                Err(e) => e == Error::MalformedPayload && client_hello_of(buf@) is None,
            },
    {
        if buf.len() < 80 {
            return Err(Error::MalformedPayload);
        }
        Ok(
            ClientHello {
                ephemeral_public_key: read_array::<32>(buf, 0),
                client_nonce: read_array::<32>(buf, 32),
                protocol_version: buf[64],
                codec_preferred: buf[65],
                sample_rate: read_u32(buf, 66),
                channels: buf[70],
                frame_duration_ms: buf[71],
                max_bitrate: read_u32(buf, 72),
                capability_flags: read_u32(buf, 76),
            },
        )
    }
}

/// Second payload of the handshake, from the server.
#[derive(Debug, Clone, PartialEq, Eq)]
pub struct ServerHello {
    pub ephemeral_public_key: [u8; 32],
    pub server_nonce: [u8; 32],
    pub session_id: u32,
    pub protocol_version: u8,
    pub codec_accepted: u8,
    pub sample_rate: u32,
    pub channels: u8,
    pub frame_duration_ms: u8,
    pub max_bitrate: u32,
    pub capability_flags: u32,
}

/// The fields of a [`ServerHello`] as mathematical values.
#[verifier::ext_equal]
pub struct ServerHelloView {
    pub ephemeral_public_key: Seq<u8>,
    pub server_nonce: Seq<u8>,
    pub session_id: u32,
    pub protocol_version: u8,
    pub codec_accepted: u8,
    pub sample_rate: u32,
    pub channels: u8,
    pub frame_duration_ms: u8,
    pub max_bitrate: u32,
    pub capability_flags: u32,
}

impl View for ServerHello {
    type V = ServerHelloView;

    open spec fn view(&self) -> ServerHelloView {
        ServerHelloView {
            ephemeral_public_key: self.ephemeral_public_key@,
            server_nonce: self.server_nonce@,
            session_id: self.session_id,
            protocol_version: self.protocol_version,
            codec_accepted: self.codec_accepted,
            sample_rate: self.sample_rate,
            channels: self.channels,
            frame_duration_ms: self.frame_duration_ms,
            max_bitrate: self.max_bitrate,
            capability_flags: self.capability_flags,
        }
    }
}

impl ServerHelloView {
    /// The byte strings have the length of their arrays.
    pub open spec fn sized(self) -> bool {
        &&& self.ephemeral_public_key.len() == 32
        &&& self.server_nonce.len() == 32
    }
}

/// The 84 bytes that stand for `m` on the wire.
pub open spec fn server_hello_bytes(m: ServerHelloView) -> Seq<u8> {
    m.ephemeral_public_key + m.server_nonce + be32(m.session_id) + seq![m.protocol_version, m.codec_accepted] + be32(m.sample_rate) + seq![m.channels, m.frame_duration_ms] + be32(m.max_bitrate) + be32(m.capability_flags)
}

/// What the first 84 bytes of `s` decode to, where there are so many.
pub open spec fn server_hello_of(s: Seq<u8>) -> Option<ServerHelloView> {
    if s.len() < 84 {
        None
    } else {
        Some(
            ServerHelloView {
                ephemeral_public_key: s.subrange(0, 32),
                server_nonce: s.subrange(32, 64),
                session_id: be32_at(s, 64),
                protocol_version: s[68],
                codec_accepted: s[69],
                sample_rate: be32_at(s, 70),
                channels: s[74],
                frame_duration_ms: s[75],
                max_bitrate: be32_at(s, 76),
                capability_flags: be32_at(s, 80),
            },
        )
    }
}

/// Decoding the bytes of a [`ServerHello`] gives it back, whatever follows them.
pub proof fn server_hello_of_round_trip(m: ServerHelloView, rest: Seq<u8>)
    requires
        m.sized(),
    ensures
        server_hello_bytes(m).len() == 84,
        server_hello_of(server_hello_bytes(m) + rest) == Some(m),
{
    let s = server_hello_bytes(m) + rest;
    assert(s.subrange(0, 32) =~= m.ephemeral_public_key);
    assert(s.subrange(32, 64) =~= m.server_nonce);
    assert(s.subrange(64, 68) =~= be32(m.session_id));
    be32_round_trip(s, 64, m.session_id);
    assert(s.subrange(70, 74) =~= be32(m.sample_rate));
    be32_round_trip(s, 70, m.sample_rate);
    assert(s.subrange(76, 80) =~= be32(m.max_bitrate));
    be32_round_trip(s, 76, m.max_bitrate);
    assert(s.subrange(80, 84) =~= be32(m.capability_flags));
    be32_round_trip(s, 80, m.capability_flags);
}

impl ServerHello {
    /// Size on the wire.
    pub const SIZE: usize = 84;

    /// Writes the payload into the first 84 bytes of `buf`.
    pub fn encode(&self, buf: &mut [u8]) -> (r: Result<(), Error>)
        ensures
            r == if old(buf)@.len() < 84 {
                Err::<(), Error>(Error::BufferTooSmall)
            } else {
                Ok::<(), Error>(())
            },
            r is Err ==> final(buf)@ == old(buf)@,
            r is Ok ==> final(buf)@ == overwrite(old(buf)@, 0, server_hello_bytes(self@)),
    {
        if buf.len() < 84 {
            return Err(Error::BufferTooSmall);
        }
        let ghost before = buf@;
        write_bytes(buf, 0, &self.ephemeral_public_key);
        write_bytes(buf, 32, &self.server_nonce);
        write_u32(buf, 64, self.session_id);
        buf[68] = self.protocol_version;
        buf[69] = self.codec_accepted;
        write_u32(buf, 70, self.sample_rate);
        buf[74] = self.channels;
        buf[75] = self.frame_duration_ms;
        write_u32(buf, 76, self.max_bitrate);
        write_u32(buf, 80, self.capability_flags);
        assert(buf@ =~= overwrite(before, 0, server_hello_bytes(self@)));
        Ok(())
    }

    /// Reads the payload from the first 84 bytes of `buf`.
    pub fn decode(buf: &[u8]) -> (r: Result<ServerHello, Error>)
        ensures
            match r {
                Ok(m) => server_hello_of(buf@) == Some(m@),
                Err(e) => e == Error::MalformedPayload && server_hello_of(buf@) is None,
            },
    {
        if buf.len() < 84 {
            return Err(Error::MalformedPayload);
        }
        Ok(
            ServerHello {
                ephemeral_public_key: read_array::<32>(buf, 0),
                server_nonce: read_array::<32>(buf, 32),
                session_id: read_u32(buf, 64),
                protocol_version: buf[68],
                codec_accepted: buf[69],
                sample_rate: read_u32(buf, 70),
                channels: buf[74],
                frame_duration_ms: buf[75],
                max_bitrate: read_u32(buf, 76),
                capability_flags: read_u32(buf, 80),
            },
        )
    }
}

/// Third payload of the handshake: the client proves that it derived the keys.
#[derive(Debug, Clone, Copy, PartialEq, Eq)]
pub struct KeyExchangeMsg {
    pub session_id: u32,
    pub auth_tag: [u8; 16],
}

/// The fields of a [`KeyExchangeMsg`] as mathematical values.
#[verifier::ext_equal]
pub struct KeyExchangeMsgView {
    pub session_id: u32,
    pub auth_tag: Seq<u8>,
}

impl View for KeyExchangeMsg {
    type V = KeyExchangeMsgView;

    open spec fn view(&self) -> KeyExchangeMsgView {
        KeyExchangeMsgView {
            session_id: self.session_id,
            auth_tag: self.auth_tag@,
        }
    }
}

impl KeyExchangeMsgView {
    /// The byte strings have the length of their arrays.
    pub open spec fn sized(self) -> bool {
        &&& self.auth_tag.len() == 16
    }
}

/// The 20 bytes that stand for `m` on the wire.
pub open spec fn key_exchange_bytes(m: KeyExchangeMsgView) -> Seq<u8> {
    be32(m.session_id) + m.auth_tag
}

/// What the first 20 bytes of `s` decode to, where there are so many.
pub open spec fn key_exchange_of(s: Seq<u8>) -> Option<KeyExchangeMsgView> {
    if s.len() < 20 {
        None
    } else {
        Some(
            KeyExchangeMsgView {
                session_id: be32_at(s, 0),
                auth_tag: s.subrange(4, 20),
            },
        )
    }
}

/// Decoding the bytes of a [`KeyExchangeMsg`] gives it back, whatever follows them.
pub proof fn key_exchange_of_round_trip(m: KeyExchangeMsgView, rest: Seq<u8>)
    requires
        m.sized(),
    ensures
        key_exchange_bytes(m).len() == 20,
        key_exchange_of(key_exchange_bytes(m) + rest) == Some(m),
{
    let s = key_exchange_bytes(m) + rest;
    assert(s.subrange(0, 4) =~= be32(m.session_id));
    be32_round_trip(s, 0, m.session_id);
    assert(s.subrange(4, 20) =~= m.auth_tag);
}

impl KeyExchangeMsg {
    /// Size on the wire.
    pub const SIZE: usize = 20;

    /// Writes the payload into the first 20 bytes of `buf`.
    pub fn encode(&self, buf: &mut [u8]) -> (r: Result<(), Error>)
        ensures
            r == if old(buf)@.len() < 20 {
                Err::<(), Error>(Error::BufferTooSmall)
            } else {
                Ok::<(), Error>(())
            },
            r is Err ==> final(buf)@ == old(buf)@,
            r is Ok ==> final(buf)@ == overwrite(old(buf)@, 0, key_exchange_bytes(self@)),
    {
        if buf.len() < 20 {
            return Err(Error::BufferTooSmall);
        }
        let ghost before = buf@;
        write_u32(buf, 0, self.session_id);
        write_bytes(buf, 4, &self.auth_tag);
        assert(buf@ =~= overwrite(before, 0, key_exchange_bytes(self@)));
        Ok(())
    }

    /// Reads the payload from the first 20 bytes of `buf`.
    pub fn decode(buf: &[u8]) -> (r: Result<KeyExchangeMsg, Error>)
        ensures
            match r {
                Ok(m) => key_exchange_of(buf@) == Some(m@),
                Err(e) => e == Error::MalformedPayload && key_exchange_of(buf@) is None,
            },
    {
        if buf.len() < 20 {
            return Err(Error::MalformedPayload);
        }
        Ok(
            KeyExchangeMsg {
                session_id: read_u32(buf, 0),
                auth_tag: read_array::<16>(buf, 4),
            },
        )
    }
}

/// Fourth payload of the handshake: the server proves that it derived the keys.
#[derive(Debug, Clone, Copy, PartialEq, Eq)]
pub struct SessionConfirm {
    pub session_id: u32,
    pub server_auth_tag: [u8; 16],
}

/// The fields of a [`SessionConfirm`] as mathematical values.
#[verifier::ext_equal]
pub struct SessionConfirmView {
    pub session_id: u32,
    pub server_auth_tag: Seq<u8>,
}

impl View for SessionConfirm {
    type V = SessionConfirmView;

    open spec fn view(&self) -> SessionConfirmView {
        SessionConfirmView {
            session_id: self.session_id,
            server_auth_tag: self.server_auth_tag@,
        }
    }
}

impl SessionConfirmView {
    /// The byte strings have the length of their arrays.
    pub open spec fn sized(self) -> bool {
        &&& self.server_auth_tag.len() == 16
    }
}

/// The 20 bytes that stand for `m` on the wire.
pub open spec fn session_confirm_bytes(m: SessionConfirmView) -> Seq<u8> {
    be32(m.session_id) + m.server_auth_tag
}

/// What the first 20 bytes of `s` decode to, where there are so many.
pub open spec fn session_confirm_of(s: Seq<u8>) -> Option<SessionConfirmView> {
    if s.len() < 20 {
        None
    } else {
        Some(
            SessionConfirmView {
                session_id: be32_at(s, 0),
                server_auth_tag: s.subrange(4, 20),
            },
        )
    }
}

/// Decoding the bytes of a [`SessionConfirm`] gives it back, whatever follows them.
pub proof fn session_confirm_of_round_trip(m: SessionConfirmView, rest: Seq<u8>)
    requires
        m.sized(),
    ensures
        session_confirm_bytes(m).len() == 20,
        session_confirm_of(session_confirm_bytes(m) + rest) == Some(m),
{
    let s = session_confirm_bytes(m) + rest;
    assert(s.subrange(0, 4) =~= be32(m.session_id));
    be32_round_trip(s, 0, m.session_id);
    assert(s.subrange(4, 20) =~= m.server_auth_tag);
}

impl SessionConfirm {
    /// Size on the wire.
    pub const SIZE: usize = 20;

    /// Writes the payload into the first 20 bytes of `buf`.
    pub fn encode(&self, buf: &mut [u8]) -> (r: Result<(), Error>)
        ensures
            r == if old(buf)@.len() < 20 {
                Err::<(), Error>(Error::BufferTooSmall)
            } else {
                Ok::<(), Error>(())
            },
            r is Err ==> final(buf)@ == old(buf)@,
            r is Ok ==> final(buf)@ == overwrite(old(buf)@, 0, session_confirm_bytes(self@)),
    {
        if buf.len() < 20 {
            return Err(Error::BufferTooSmall);
        }
        let ghost before = buf@;
        write_u32(buf, 0, self.session_id);
        write_bytes(buf, 4, &self.server_auth_tag);
        assert(buf@ =~= overwrite(before, 0, session_confirm_bytes(self@)));
        Ok(())
    }

    /// Reads the payload from the first 20 bytes of `buf`.
    pub fn decode(buf: &[u8]) -> (r: Result<SessionConfirm, Error>)
        ensures
            match r {
                Ok(m) => session_confirm_of(buf@) == Some(m@),
                Err(e) => e == Error::MalformedPayload && session_confirm_of(buf@) is None,
            },
    {
        if buf.len() < 20 {
            return Err(Error::MalformedPayload);
        }
        Ok(
            SessionConfirm {
                session_id: read_u32(buf, 0),
                server_auth_tag: read_array::<16>(buf, 4),
            },
        )
    }
}

/// Payload by which a peer asks for another bitrate.
#[derive(Debug, Clone, PartialEq, Eq)]
pub struct ControlBitrateMsg {
    pub requested_bitrate: u32,
}

/// The fields of a [`ControlBitrateMsg`] as mathematical values.
#[verifier::ext_equal]
pub struct ControlBitrateMsgView {
    pub requested_bitrate: u32,
}

impl View for ControlBitrateMsg {
    type V = ControlBitrateMsgView;

    open spec fn view(&self) -> ControlBitrateMsgView {
        ControlBitrateMsgView {
            requested_bitrate: self.requested_bitrate,
        }
    }
}


/// The 4 bytes that stand for `m` on the wire.
pub open spec fn control_bitrate_bytes(m: ControlBitrateMsgView) -> Seq<u8> {
    be32(m.requested_bitrate)
}

/// What the first 4 bytes of `s` decode to, where there are so many.
pub open spec fn control_bitrate_of(s: Seq<u8>) -> Option<ControlBitrateMsgView> {
    if s.len() < 4 {
        None
    } else {
        Some(
            ControlBitrateMsgView {
                requested_bitrate: be32_at(s, 0),
            },
        )
    }
}

/// Decoding the bytes of a [`ControlBitrateMsg`] gives it back, whatever follows them.
pub proof fn control_bitrate_of_round_trip(m: ControlBitrateMsgView, rest: Seq<u8>)
    ensures
        control_bitrate_bytes(m).len() == 4,
        control_bitrate_of(control_bitrate_bytes(m) + rest) == Some(m),
{
    let s = control_bitrate_bytes(m) + rest;
    assert(s.subrange(0, 4) =~= be32(m.requested_bitrate));
    be32_round_trip(s, 0, m.requested_bitrate);
}

impl ControlBitrateMsg {
    /// Size on the wire.
    pub const SIZE: usize = 4;

    /// Writes the payload into the first 4 bytes of `buf`.
    pub fn encode(&self, buf: &mut [u8]) -> (r: Result<(), Error>)
        ensures
            r == if old(buf)@.len() < 4 {
                Err::<(), Error>(Error::BufferTooSmall)
            } else {
                Ok::<(), Error>(())
            },
            r is Err ==> final(buf)@ == old(buf)@,
            r is Ok ==> final(buf)@ == overwrite(old(buf)@, 0, control_bitrate_bytes(self@)),
    {
        if buf.len() < 4 {
            return Err(Error::BufferTooSmall);
        }
        let ghost before = buf@;
        write_u32(buf, 0, self.requested_bitrate);
        assert(buf@ =~= overwrite(before, 0, control_bitrate_bytes(self@)));
        Ok(())
    }

    /// Reads the payload from the first 4 bytes of `buf`.
    pub fn decode(buf: &[u8]) -> (r: Result<ControlBitrateMsg, Error>)
        ensures
            match r {
                Ok(m) => control_bitrate_of(buf@) == Some(m@),
                Err(e) => e == Error::MalformedPayload && control_bitrate_of(buf@) is None,
            },
    {
        if buf.len() < 4 {
            return Err(Error::MalformedPayload);
        }
        Ok(
            ControlBitrateMsg {
                requested_bitrate: read_u32(buf, 0),
            },
        )
    }
}

/// Another name of [`ClientHello`].
pub type HandshakeInit = ClientHello;

/// Another name of [`ServerHello`].
pub type HandshakeAccept = ServerHello;

/// Another name of [`SessionConfirm`].
pub type HandshakeConfirm = SessionConfirm;

/// Codes sent in the payload of an error message.
#[derive(Debug, Clone, Copy, PartialEq, Eq, Structural)]
#[non_exhaustive]
pub enum ErrorCode {
    UnknownMessageType,
    InvalidChecksum,
    InvalidState,
    UnsupportedCodec,
    ProtocolMismatch,
    PeerTimeout,
    ResourceExhausted,
    AuthenticationFailed,
    Internal,
}

/// The byte of each error code.
pub open spec fn error_code_byte(e: ErrorCode) -> u8 {
    match e {
        ErrorCode::UnknownMessageType => 0x01,
        ErrorCode::InvalidChecksum => 0x02,
        ErrorCode::InvalidState => 0x03,
        ErrorCode::UnsupportedCodec => 0x04,
        ErrorCode::ProtocolMismatch => 0x05,
        ErrorCode::PeerTimeout => 0x06,
        ErrorCode::ResourceExhausted => 0x07,
        ErrorCode::AuthenticationFailed => 0x08,
        ErrorCode::Internal => 0xFF,
    }
}

/// Two error codes never share a byte.
pub proof fn error_code_injective(a: ErrorCode, b: ErrorCode)
    requires
        error_code_byte(a) == error_code_byte(b),
    ensures
        a == b,
{
}

impl ErrorCode {
    /// The byte of this code.
    pub fn code(self) -> (r: u8)
        ensures
            r == error_code_byte(self),
    {
        match self {
            ErrorCode::UnknownMessageType => 0x01,
            ErrorCode::InvalidChecksum => 0x02,
            ErrorCode::InvalidState => 0x03,
            ErrorCode::UnsupportedCodec => 0x04,
            ErrorCode::ProtocolMismatch => 0x05,
            ErrorCode::PeerTimeout => 0x06,
            ErrorCode::ResourceExhausted => 0x07,
            ErrorCode::AuthenticationFailed => 0x08,
            ErrorCode::Internal => 0xFF,
        }
    }

    /// The code of a byte.
    pub fn from_code(code: u8) -> (r: Result<ErrorCode, Error>)
        ensures
            match r {
                Ok(e) => error_code_byte(e) == code,
                Err(e) => e == Error::MalformedPayload && !(1 <= code <= 8 || code == 0xFF),
            },
    {
        match code {
            0x01 => Ok(ErrorCode::UnknownMessageType),
            0x02 => Ok(ErrorCode::InvalidChecksum),
            0x03 => Ok(ErrorCode::InvalidState),
            0x04 => Ok(ErrorCode::UnsupportedCodec),
            0x05 => Ok(ErrorCode::ProtocolMismatch),
            0x06 => Ok(ErrorCode::PeerTimeout),
            0x07 => Ok(ErrorCode::ResourceExhausted),
            0x08 => Ok(ErrorCode::AuthenticationFailed),
            0xFF => Ok(ErrorCode::Internal),
            _ => Err(Error::MalformedPayload),
        }
    }
}

/// The bytes of the message types: one block of sixteen for each part of the protocol.
pub proof fn message_bytes(m: MessageType, b: u8)
    ensures
        message_code(MessageType::HandshakeClientHello) == 1,
        message_code(MessageType::HandshakeServerHello) == 2,
        message_code(MessageType::HandshakeSessionConfirm) == 3,
        message_code(MessageType::HandshakeKeyExchange) == 4,
        message_code(MessageType::AudioFrame) == 16,
        message_code(MessageType::AudioFragment) == 17,
        message_code(MessageType::Heartbeat) == 32,
        message_code(MessageType::HeartbeatAck) == 33,
        message_code(MessageType::ControlPause) == 48,
        message_code(MessageType::ControlResume) == 49,
        message_code(MessageType::ControlMetrics) == 50,
        message_code(MessageType::Extension(b)) == b,
        message_code(MessageType::Error) == 254,
        message_code(MessageType::Close) == 255,
        message_valid(MessageType::Extension(b)) <==> 64 <= b < 128,
        !(m is Extension) ==> message_valid(m),
{
}

/// A byte is known exactly when some valid message type has it.
pub proof fn known_bytes_have_messages(code: u8)
    ensures
        message_known(code) <==> exists|m: MessageType|
            message_valid(m) && #[trigger] message_code(m) == code,
{
    if message_known(code) {
        let m = if code == 1 {
            MessageType::HandshakeClientHello
        } else if code == 2 {
            MessageType::HandshakeServerHello
        } else if code == 3 {
            MessageType::HandshakeSessionConfirm
        } else if code == 4 {
            MessageType::HandshakeKeyExchange
        } else if code == 16 {
            MessageType::AudioFrame
        } else if code == 17 {
            MessageType::AudioFragment
        } else if code == 32 {
            MessageType::Heartbeat
        } else if code == 33 {
            MessageType::HeartbeatAck
        } else if code == 48 {
            MessageType::ControlPause
        } else if code == 49 {
            MessageType::ControlResume
        } else if code == 50 {
            MessageType::ControlMetrics
        } else if code == 254 {
            MessageType::Error
        } else if code == 255 {
            MessageType::Close
        } else {
            MessageType::Extension(code)
        };
        assert(message_valid(m) && message_code(m) == code);
    }
}

/// Where the fields of a client's hello stand, numbers most significant byte first.
pub proof fn client_hello_layout(s: Seq<u8>)
    ensures
        client_hello_of(s) is Some <==> s.len() >= 80,
        client_hello_of(s) matches Some(m) ==> {
            &&& m.ephemeral_public_key == s.subrange(0, 32)
            &&& m.client_nonce == s.subrange(32, 64)
            &&& m.protocol_version == s[64] && m.codec_preferred == s[65]
            &&& m.sample_rate == s[66] * 0x100_0000 + s[67] * 0x1_0000 + s[68] * 0x100 + s[69]
            &&& m.channels == s[70] && m.frame_duration_ms == s[71]
            &&& m.max_bitrate == s[72] * 0x100_0000 + s[73] * 0x1_0000 + s[74] * 0x100 + s[75]
            &&& m.capability_flags == s[76] * 0x100_0000 + s[77] * 0x1_0000 + s[78] * 0x100 + s[79]
        },
{
}

/// Where the fields of a server's hello stand, numbers most significant byte first.
pub proof fn server_hello_layout(s: Seq<u8>)
    ensures
        server_hello_of(s) is Some <==> s.len() >= 84,
        server_hello_of(s) matches Some(m) ==> {
            &&& m.ephemeral_public_key == s.subrange(0, 32)
            &&& m.server_nonce == s.subrange(32, 64)
            &&& m.session_id == s[64] * 0x100_0000 + s[65] * 0x1_0000 + s[66] * 0x100 + s[67]
            &&& m.protocol_version == s[68] && m.codec_accepted == s[69]
            &&& m.sample_rate == s[70] * 0x100_0000 + s[71] * 0x1_0000 + s[72] * 0x100 + s[73]
            &&& m.channels == s[74] && m.frame_duration_ms == s[75]
            &&& m.max_bitrate == s[76] * 0x100_0000 + s[77] * 0x1_0000 + s[78] * 0x100 + s[79]
            &&& m.capability_flags == s[80] * 0x100_0000 + s[81] * 0x1_0000 + s[82] * 0x100 + s[83]
        },
{
}

/// Where the fields of the two proofs and of a bitrate request stand: the number first,
/// most significant byte first, and then the 16 bytes of the tag.
pub proof fn proof_layout(s: Seq<u8>)
    ensures
        key_exchange_of(s) is Some <==> s.len() >= 20,
        session_confirm_of(s) is Some <==> s.len() >= 20,
        control_bitrate_of(s) is Some <==> s.len() >= 4,
        key_exchange_of(s) matches Some(m) ==> m.session_id == s[0] * 0x100_0000 + s[1] * 0x1_0000 + s[2] * 0x100 + s[3]
            && m.auth_tag == s.subrange(4, 20),
        session_confirm_of(s) matches Some(m) ==> m.session_id == s[0] * 0x100_0000 + s[1] * 0x1_0000 + s[2] * 0x100 + s[3]
            && m.server_auth_tag == s.subrange(4, 20),
        control_bitrate_of(s) matches Some(m) ==> m.requested_bitrate == s[0] * 0x100_0000 + s[1] * 0x1_0000 + s[2] * 0x100 + s[3],
{
}

/// The bytes of the error codes run from 1 to 8; an internal error has the last.
pub proof fn error_bytes()
    ensures
        error_code_byte(ErrorCode::UnknownMessageType) == 1,
        error_code_byte(ErrorCode::InvalidChecksum) == 2,
        error_code_byte(ErrorCode::InvalidState) == 3,
        error_code_byte(ErrorCode::UnsupportedCodec) == 4,
        error_code_byte(ErrorCode::ProtocolMismatch) == 5,
        error_code_byte(ErrorCode::PeerTimeout) == 6,
        error_code_byte(ErrorCode::ResourceExhausted) == 7,
        error_code_byte(ErrorCode::AuthenticationFailed) == 8,
        error_code_byte(ErrorCode::Internal) == 255,
{
}

} // verus!
