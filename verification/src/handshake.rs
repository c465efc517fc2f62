//! The four-step handshake, from both sides.
//!
//! ```text
//! client                              server
//!   |-- ClientHello ----------------->|  server_on_hello
//!   |<-- ServerHello -----------------|  client_on_hello
//!   |-- KeyExchange ----------------->|  server_on_key_exchange
//!   |<-- SessionConfirm --------------|  client_on_confirm
//! ```
//!
//! Each function takes a datagram and says what to send, what to wait for, or
//! why the handshake failed. Random values come in as arguments; the functions
//! that draw them stand beside.
use vstd::prelude::*;

use crate::addr::SocketAddress;
use crate::config::{Config, SessionRole};
use crate::constants::{HANDSHAKE_RETRY_BASE_MS, PROTOCOL_VERSION_MAX, PROTOCOL_VERSION_MIN};
use crate::crypto::SessionKey;
use crate::error::Error;
use crate::header::{plain_header, PacketHeader};
use crate::keys::{
    auth_tag, build_transcript, constant_time_eq, derive_auth_tag, derive_session_keys, hkdf_output,
    keys_by_direction, public_key, rand_u32_secure, random_nonce_32, session_keys, shared_secret, transcript_bytes, x25519_product,
    x25519_public, LABEL_CLIENT_FIN, LABEL_SERVER_FIN,
};
use crate::message::{
    client_hello_bytes, client_hello_of, client_hello_of_round_trip, key_exchange_bytes,
    key_exchange_of, key_exchange_of_round_trip, message_code, server_hello_bytes, server_hello_of,
    server_hello_of_round_trip, session_confirm_bytes, session_confirm_of,
    session_confirm_of_round_trip, ClientHello, ClientHelloView, KeyExchangeMsg, KeyExchangeMsgView,
    MessageType, ServerHello, ServerHelloView, SessionConfirm, SessionConfirmView,
};
use crate::packet::{packet_of, packet_round_trip, PacketView};
use crate::session::{encoded, Session, SessionView};
use crate::session_state::{next_state, state_after, SessionEvent, SessionState};
use crate::transport_error::TransportError;

verus! {

/// The client's side of a handshake under way.
pub struct ClientHandshake {
    peer: SocketAddress,
    secret: [u8; 32],
    nonce: [u8; 32],
    attempt: u32,
}

impl ClientHandshake {
    /// The server that the client talks to.
    pub closed spec fn server(self) -> SocketAddress {
        self.peer
    }

    /// The client's ephemeral secret.
    pub closed spec fn spec_secret(self) -> Seq<u8> {
        self.secret@
    }

    /// The client's nonce.
    pub closed spec fn spec_nonce(self) -> Seq<u8> {
        self.nonce@
    }

    /// How often the client has waited in vain.
    pub closed spec fn attempts(self) -> u32 {
        self.attempt
    }

    /// A handshake with the secret and the nonce given.
    pub fn with_secrets(peer: SocketAddress, secret: [u8; 32], nonce: [u8; 32]) -> (r:
        ClientHandshake)
        ensures
            r.server() == peer,
            r.spec_secret() == secret@,
            r.spec_nonce() == nonce@,
            r.attempts() == 0,
    {
        ClientHandshake { peer, secret, nonce, attempt: 0 }
    }

    /// A handshake with a fresh secret and a fresh nonce.
    pub fn new(peer: SocketAddress) -> (r: ClientHandshake)
        ensures
            r.server() == peer,
            r.attempts() == 0,
    {
        let secret: [u8; 32] = random_nonce_32();
        let nonce: [u8; 32] = random_nonce_32();
        ClientHandshake::with_secrets(peer, secret, nonce)
    }

    /// How long to wait for the answer to the next hello: the wait doubles with
    /// each of the first four attempts.
    pub fn backoff_ms(&self) -> (r: u64)
        ensures
            r == backoff(self.attempts()),
    {
        if self.attempt == 0 {
            HANDSHAKE_RETRY_BASE_MS
        } else if self.attempt == 1 {
            HANDSHAKE_RETRY_BASE_MS * 2
        } else if self.attempt == 2 {
            HANDSHAKE_RETRY_BASE_MS * 4
        } else if self.attempt == 3 {
            HANDSHAKE_RETRY_BASE_MS * 8
        } else {
            HANDSHAKE_RETRY_BASE_MS * 16
        }
    }

    /// Counts an attempt.
    fn again(&mut self)
        ensures
            *final(self) == old(self).retried(),
    {
        self.attempt = self.attempt.saturating_add(1);
    }

    /// The handshake with one more attempt counted.
    pub closed spec fn retried(self) -> ClientHandshake {
        ClientHandshake {
            attempt: if self.attempt == u32::MAX {
                u32::MAX
            } else {
                (self.attempt + 1) as u32
            },
            ..self
        }
    }

    /// Counting an attempt changes nothing else.
    pub proof fn retried_counts(self)
        ensures
            self.retried().server() == self.server(),
            self.retried().spec_secret() == self.spec_secret(),
            self.retried().spec_nonce() == self.spec_nonce(),
            self.retried().attempts() == if self.attempts() == u32::MAX {
                u32::MAX as int
            } else {
                self.attempts() + 1
            },
    {
    }

    /// Reports that no answer came in time. After the seventh wait in vain the
    /// handshake fails.
    pub fn client_on_silence(&mut self) -> (r: Result<(), TransportError>)
        ensures
            *final(self) == old(self).retried(),
            r == if old(self).retried().attempts() > 6 {
                Err::<(), TransportError>(TransportError::Handshake("client retries exhausted"))
            } else {
                Ok::<(), TransportError>(())
            },
    {
        self.again();
        if self.attempt > 6 {
            Err(TransportError::Handshake("client retries exhausted"))
        } else {
            Ok(())
        }
    }
}

/// The wait before attempt `attempt` is given up, in ms.
pub open spec fn backoff(attempt: u32) -> int {
    if attempt == 0 {
        200
    } else if attempt == 1 {
        400
    } else if attempt == 2 {
        800
    } else if attempt == 3 {
        1600
    } else {
        3200
    }
}

/// The hello of a client.
pub open spec fn hello_of(config: Config, secret: Seq<u8>, nonce: Seq<u8>) -> ClientHelloView {
    ClientHelloView {
        ephemeral_public_key: x25519_public(secret),
        client_nonce: nonce,
        protocol_version: PROTOCOL_VERSION_MAX,
        codec_preferred: config.codec_preferred,
        sample_rate: config.sample_rate,
        channels: config.channels,
        frame_duration_ms: config.frame_duration_ms,
        max_bitrate: config.max_bitrate,
        capability_flags: config.capability_flags,
    }
}

/// The payload of a valid packet of type `msg` from `peer`.
pub open spec fn payload_from(
    peer: SocketAddress,
    from: SocketAddress,
    datagram: Seq<u8>,
    msg: MessageType,
) -> Option<Seq<u8>> {
    if from != peer {
        None
    } else {
        match packet_of(datagram) {
            Ok((h, payload)) => if h.msg_type == message_code(msg) {
                Some(payload)
            } else {
                None
            },
            Err(_) => None,
        }
    }
}

/// Finds the payload of a packet of type `msg` from `peer`.
fn expect<'a>(
    peer: SocketAddress,
    from: SocketAddress,
    datagram: &'a [u8],
    msg: MessageType,
) -> (r: Option<&'a [u8]>)
    ensures
        match payload_from(peer, from, datagram@, msg) {
            Some(p) => r matches Some(v) && v@ == p,
            None => r is None,
        },
{
    if from != peer {
        return None;
    }
    match PacketView::decode(datagram) {
        Ok(view) => {
            if view.header().msg_type != msg.code() {
                return None;
            }
            Some(view.payload())
        },
        Err(_) => None,
    }
}

/// The event with which a handshake in this role begins.
pub open spec fn start_of(role: SessionRole) -> SessionEvent {
    match role {
        SessionRole::Client => SessionEvent::StartConnect,
        SessionRole::Server => SessionEvent::StartAccept,
    }
}

/// A handshake begins: from `before` to `after`, with result `r`.
pub open spec fn begins(
    before: SessionView,
    after: SessionView,
    r: Result<(), TransportError>,
    role: SessionRole,
    peer: SocketAddress,
) -> bool {
    &&& after == (SessionView {
        peer: Some(peer),
        state: state_after(before.state, start_of(role)),
        ..before
    })
    &&& r == if next_state(before.state, start_of(role)) is Some {
        Ok::<(), TransportError>(())
    } else {
        Err::<(), TransportError>(TransportError::InvalidState("cannot start handshake"))
    }
}

/// A handshake ends with `outcome`: from `before` to `after`, with result `r`.
pub open spec fn ends(
    before: SessionView,
    after: SessionView,
    r: Result<(), TransportError>,
    outcome: Result<(), TransportError>,
) -> bool {
    match outcome {
        Ok(_) => {
            &&& after == (SessionView {
                state: state_after(before.state, SessionEvent::HandshakeOk),
                ..before
            })
            &&& r == if next_state(before.state, SessionEvent::HandshakeOk) is Some {
                Ok::<(), TransportError>(())
            } else {
                Err::<(), TransportError>(TransportError::InvalidState("handshake_ok"))
            }
        },
        Err(e) => {
            &&& after == (SessionView {
                state: state_after(before.state, SessionEvent::HandshakeTimeout),
                ..before
            })
            &&& r == Err::<(), TransportError>(e)
        },
    }
}

/// A client says hello: from `before` to `after`, with result `r`.
pub open spec fn says_hello(
    before: SessionView,
    after: SessionView,
    r: Result<Vec<u8>, TransportError>,
    secret: Seq<u8>,
    nonce: Seq<u8>,
    now_us: u64,
) -> bool {
    let hello = hello_of(before.config, secret, nonce);
    &&& hello.sized()
    &&& after == before.sequence_used()
    &&& match encoded(
        before.config.mtu,
        plain_header(
            message_code(MessageType::HandshakeClientHello),
            0,
            before.tx_sequence,
            now_us,
        ),
        client_hello_bytes(hello),
    ) {
        Ok(b) => r matches Ok(v) && v@ == b,
        Err(e) => r == Err::<Vec<u8>, TransportError>(TransportError::Protocol(e)),
    }
}

impl Session {
    /// Begins a handshake: the peer is set, and the state has to admit it.
    pub fn handshake(&mut self, role: SessionRole, peer: SocketAddress) -> (r: Result<
        (),
        TransportError,
    >)
        requires
            old(self).wf(),
        ensures
            final(self).wf(),
            begins(old(self)@, final(self)@, r, role, peer),
    {
        self.set_peer(peer);
        let event: SessionEvent = match role {
            SessionRole::Client => SessionEvent::StartConnect,
            SessionRole::Server => SessionEvent::StartAccept,
        };
        if self.apply(event) {
            Ok(())
        } else {
            Err(TransportError::InvalidState("cannot start handshake"))
        }
    }

    /// Ends a handshake with its outcome; running out of time is an outcome too.
    pub fn finish_handshake(&mut self, outcome: Result<(), TransportError>) -> (r: Result<
        (),
        TransportError,
    >)
        requires
            old(self).wf(),
        ensures
            final(self).wf(),
            ends(old(self)@, final(self)@, r, outcome),
    {
        match outcome {
            Ok(_) => {
                if self.apply(SessionEvent::HandshakeOk) {
                    Ok(())
                } else {
                    Err(TransportError::InvalidState("handshake_ok"))
                }
            },
            Err(e) => {
                let _ = self.apply(SessionEvent::HandshakeTimeout);
                Err(e)
            },
        }
    }

    /// Builds the hello of a client. Each call uses up a sequence number.
    pub fn client_hello(&mut self, hs: &ClientHandshake, now_us: u64) -> (r: Result<
        Vec<u8>,
        TransportError,
    >)
        requires
            old(self).wf(),
        ensures
            final(self).wf(),
            says_hello(
                old(self)@,
                final(self)@,
                r,
                hs.spec_secret(),
                hs.spec_nonce(),
                now_us,
            ),
    {
        let hello = ClientHello {
            ephemeral_public_key: public_key(&hs.secret),
            client_nonce: hs.nonce,
            protocol_version: PROTOCOL_VERSION_MAX,
            codec_preferred: self.config().codec_preferred,
            sample_rate: self.config().sample_rate,
            channels: self.config().channels,
            frame_duration_ms: self.config().frame_duration_ms,
            max_bitrate: self.config().max_bitrate,
            capability_flags: self.config().capability_flags,
        };
        let mut payload: [u8; 80] = [0u8; 80];
        let _ = hello.encode(&mut payload);
        proof {
            assert(hello@ == hello_of(self@.config, hs.spec_secret(), hs.spec_nonce()));
            client_hello_of_round_trip(hello@, Seq::empty());
            assert(payload@ =~= client_hello_bytes(hello@));
        }
        self.send_control(MessageType::HandshakeClientHello, 0, &payload, now_us)
    }
}

/// What a client keeps between its proof and the server's.
pub struct ClientPending {
    peer: SocketAddress,
    session_id: u32,
    codec: u8,
    encrypt_key: SessionKey,
    decrypt_key: SessionKey,
    transcript: [u8; 68],
}

/// A [`ClientPending`] as a mathematical value.
#[verifier::ext_equal]
pub struct ClientPendingView {
    pub peer: SocketAddress,
    pub session_id: u32,
    pub codec: u8,
    pub encrypt_key: Seq<u8>,
    pub decrypt_key: Seq<u8>,
    pub transcript: Seq<u8>,
}

impl View for ClientPending {
    type V = ClientPendingView;

    closed spec fn view(&self) -> ClientPendingView {
        ClientPendingView {
            peer: self.peer,
            session_id: self.session_id,
            codec: self.codec,
            encrypt_key: self.encrypt_key@,
            decrypt_key: self.decrypt_key@,
            transcript: self.transcript@,
        }
    }
}

/// What a client derives from a server's hello.
pub open spec fn client_derives(
    peer: SocketAddress,
    secret: Seq<u8>,
    nonce: Seq<u8>,
    hello: ServerHelloView,
) -> ClientPendingView {
    let transcript = transcript_bytes(nonce, hello.server_nonce, hello.session_id);
    let keys = session_keys(x25519_product(secret, hello.ephemeral_public_key), transcript);
    ClientPendingView {
        peer,
        session_id: hello.session_id,
        codec: hello.codec_accepted,
        encrypt_key: keys.0,
        decrypt_key: keys.1,
        transcript,
    }
}

/// The client's proof.
pub open spec fn client_proof(p: ClientPendingView) -> KeyExchangeMsgView {
    KeyExchangeMsgView {
        session_id: p.session_id,
        auth_tag: auth_tag(p.encrypt_key, LABEL_CLIENT_FIN@, p.transcript),
    }
}

/// The version lies in the range that this end speaks.
pub open spec fn version_in_range(version: u8) -> bool {
    PROTOCOL_VERSION_MIN <= version <= PROTOCOL_VERSION_MAX
}

/// What a server keeps between its hello and its proof.
pub struct ServerPending {
    peer: SocketAddress,
    session_id: u32,
    codec: u8,
    encrypt_key: SessionKey,
    decrypt_key: SessionKey,
    transcript: [u8; 68],
}

/// A [`ServerPending`] as a mathematical value.
#[verifier::ext_equal]
pub struct ServerPendingView {
    pub peer: SocketAddress,
    pub session_id: u32,
    pub codec: u8,
    pub encrypt_key: Seq<u8>,
    pub decrypt_key: Seq<u8>,
    pub transcript: Seq<u8>,
}

impl View for ServerPending {
    type V = ServerPendingView;

    closed spec fn view(&self) -> ServerPendingView {
        ServerPendingView {
            peer: self.peer,
            session_id: self.session_id,
            codec: self.codec,
            encrypt_key: self.encrypt_key@,
            decrypt_key: self.decrypt_key@,
            transcript: self.transcript@,
        }
    }
}

/// What a server derives from a client's hello. Its keys are the client's the
/// other way round.
pub open spec fn server_derives(
    peer: SocketAddress,
    secret: Seq<u8>,
    nonce: Seq<u8>,
    session_id: u32,
    codec: u8,
    hello: ClientHelloView,
) -> ServerPendingView {
    let transcript = transcript_bytes(hello.client_nonce, nonce, session_id);
    let keys = session_keys(x25519_product(secret, hello.ephemeral_public_key), transcript);
    ServerPendingView {
        peer,
        session_id,
        codec,
        encrypt_key: keys.1,
        decrypt_key: keys.0,
        transcript,
    }
}

/// The server's proof.
pub open spec fn server_proof(p: ServerPendingView) -> SessionConfirmView {
    SessionConfirmView {
        session_id: p.session_id,
        server_auth_tag: auth_tag(p.encrypt_key, LABEL_SERVER_FIN@, p.transcript),
    }
}

/// What the two ends derived belongs together: each decrypts with the key that
/// the other encrypts with, they hold the same session id, codec and transcript,
/// and each accepts the other's proof.
pub open spec fn agreed(c: ClientPendingView, s: ServerPendingView) -> bool {
    &&& c.encrypt_key == s.decrypt_key
    &&& c.decrypt_key == s.encrypt_key
    &&& c.session_id == s.session_id
    &&& c.codec == s.codec
    &&& c.transcript == s.transcript
    &&& client_proof(c).session_id == s.session_id
    &&& client_proof(c).auth_tag == auth_tag(s.decrypt_key, LABEL_CLIENT_FIN@, s.transcript)
    &&& server_proof(s).session_id == c.session_id
    &&& server_proof(s).server_auth_tag == auth_tag(
        c.decrypt_key,
        LABEL_SERVER_FIN@,
        c.transcript,
    )
}

/// The codec that a server chooses: the client's favourite if it can, else its
/// own, if it has one.
pub open spec fn chosen_codec(config: Config, preferred: u8) -> Option<u8> {
    if config.supported_codecs@.contains(preferred) {
        Some(preferred)
    } else if config.supported_codecs@.len() > 0 {
        Some(config.supported_codecs@[0])
    } else {
        None
    }
}

/// The server's answer to a client's hello.
pub open spec fn answer_to(
    hello: ClientHelloView,
    config: Config,
    secret: Seq<u8>,
    nonce: Seq<u8>,
    session_id: u32,
    codec: u8,
) -> ServerHelloView {
    ServerHelloView {
        ephemeral_public_key: x25519_public(secret),
        server_nonce: nonce,
        session_id,
        protocol_version: if hello.protocol_version < PROTOCOL_VERSION_MAX {
            hello.protocol_version
        } else {
            PROTOCOL_VERSION_MAX
        },
        codec_accepted: codec,
        sample_rate: hello.sample_rate,
        channels: hello.channels,
        frame_duration_ms: hello.frame_duration_ms,
        max_bitrate: if hello.max_bitrate < config.max_bitrate {
            hello.max_bitrate
        } else {
            config.max_bitrate
        },
        capability_flags: hello.capability_flags & config.capability_flags,
    }
}

/// The server's step on a datagram while it waits for a hello: from `before` to
/// `after`, with result `r`, for given random values.
pub open spec fn server_answers(
    before: SessionView,
    after: SessionView,
    r: Result<Option<(Vec<u8>, ServerPending)>, TransportError>,
    peer: SocketAddress,
    from: SocketAddress,
    datagram: Seq<u8>,
    secret: Seq<u8>,
    nonce: Seq<u8>,
    session_id: u32,
    now_us: u64,
) -> bool {
    match payload_from(peer, from, datagram, MessageType::HandshakeClientHello) {
        None => after == before && (r matches Ok(none) && none is None),
        Some(payload) => match client_hello_of(payload) {
            None => after == before && (r matches Err(e) && e == TransportError::Protocol(
                Error::MalformedPayload,
            )),
            Some(hello) => if hello.protocol_version < PROTOCOL_VERSION_MIN {
                after == before && (r matches Err(e) && e == TransportError::Handshake(
                    "version negotiation failed: client version too old",
                ))
            } else {
                match chosen_codec(before.config, hello.codec_preferred) {
                    None => after == before && (r matches Err(e) && e
                        == TransportError::Handshake("no supported codecs configured")),
                    Some(codec) => {
                        &&& after == before.sequence_used()
                        &&& answer_to(
                            hello,
                            before.config,
                            secret,
                            nonce,
                            session_id,
                            codec,
                        ).sized()
                        &&& match encoded(
                            before.config.mtu,
                            plain_header(
                                message_code(MessageType::HandshakeServerHello),
                                session_id,
                                before.tx_sequence,
                                now_us,
                            ),
                            server_hello_bytes(
                                answer_to(hello, before.config, secret, nonce, session_id, codec),
                            ),
                        ) {
                            Ok(b) => {
                                &&& r matches Ok(some)
                                &&& some matches Some((packet, pending))
                                &&& packet@ == b
                                &&& pending@ == server_derives(
                                    peer,
                                    secret,
                                    nonce,
                                    session_id,
                                    codec,
                                    hello,
                                )
                            },
                            Err(e) => r matches Err(f) && f == TransportError::Protocol(e),
                        }
                    },
                }
            },
        },
    }
}

/// A client handles a datagram while it waits for the server's hello: from `before`
/// to `after` and `hs` to `hs_after`, with result `r`.
pub open spec fn client_takes_hello(
    before: SessionView,
    after: SessionView,
    hs: ClientHandshake,
    hs_after: ClientHandshake,
    r: Result<Option<(Vec<u8>, ClientPending)>, TransportError>,
    from: SocketAddress,
    datagram: Seq<u8>,
    now_us: u64,
) -> bool {
    match payload_from(
        hs.server(),
        from,
        datagram,
        MessageType::HandshakeServerHello,
    ) {
        None => {
            &&& after == before
            &&& hs_after == hs.retried()
            &&& r matches Ok(none)
            &&& none is None
        },
        Some(payload) => {
            &&& hs_after == hs
            &&& match server_hello_of(payload) {
                None => after == before && (r matches Err(e) && e
                    == TransportError::Protocol(Error::MalformedPayload)),
                Some(hello) => if !version_in_range(hello.protocol_version) {
                    after == before && (r matches Err(e) && e
                        == TransportError::Handshake(
                        "version negotiation failed: out of range",
                    ))
                } else if !before.config.supported_codecs@.contains(
                    hello.codec_accepted,
                ) {
                    after == before && (r matches Err(e) && e
                        == TransportError::Handshake("server selected unsupported codec"))
                } else {
                    let derived = client_derives(
                        hs.server(),
                        hs.spec_secret(),
                        hs.spec_nonce(),
                        hello,
                    );
                    &&& after == before.sequence_used()
                    &&& client_proof(derived).sized()
                    &&& match encoded(
                        before.config.mtu,
                        plain_header(
                            message_code(MessageType::HandshakeKeyExchange),
                            hello.session_id,
                            before.tx_sequence,
                            now_us,
                        ),
                        key_exchange_bytes(client_proof(derived)),
                    ) {
                        Ok(b) => {
                            &&& r matches Ok(some)
                            &&& some matches Some((packet, pending))
                            &&& packet@ == b
                            &&& pending@ == derived
                            &&& forall|secret: Seq<u8>, client: SocketAddress|
                                secret.len() == 32 && hello.ephemeral_public_key
                                    == x25519_public(secret) ==> agreed(
                                    pending@,
                                    #[trigger] server_derives(
                                        client,
                                        secret,
                                        hello.server_nonce,
                                        hello.session_id,
                                        hello.codec_accepted,
                                        hello_of(
                                            before.config,
                                            hs.spec_secret(),
                                            hs.spec_nonce(),
                                        ),
                                    ),
                                )
                        },
                        Err(e) => r matches Err(f) && f == TransportError::Protocol(e),
                    }
                },
            }
        },
    }
}

/// A server handles a datagram while it waits for the client's proof: from `before`
/// to `after`, with result `r`.
pub open spec fn server_takes_proof(
    before: SessionView,
    after: SessionView,
    r: Result<Option<Vec<u8>>, TransportError>,
    pending: ServerPendingView,
    from: SocketAddress,
    datagram: Seq<u8>,
    now_us: u64,
) -> bool {
    match payload_from(
        pending.peer,
        from,
        datagram,
        MessageType::HandshakeKeyExchange,
    ) {
        None => after == before && (r matches Ok(none) && none is None),
        Some(payload) => match key_exchange_of(payload) {
            None => after == before && (r matches Err(e) && e
                == TransportError::Protocol(Error::MalformedPayload)),
            Some(msg) => if msg.session_id != pending.session_id {
                after == before && (r matches Err(e) && e
                    == TransportError::Handshake("session_id mismatch in KeyExchange"))
            } else if msg.auth_tag != auth_tag(
                pending.decrypt_key,
                LABEL_CLIENT_FIN@,
                pending.transcript,
            ) {
                after == before && (r matches Err(e) && e
                    == TransportError::AuthenticationFailed("client auth tag mismatch"))
            } else {
                &&& after == before.sequence_used()
                &&& server_proof(pending).sized()
                &&& match encoded(
                    before.config.mtu,
                    plain_header(
                        message_code(MessageType::HandshakeSessionConfirm),
                        pending.session_id,
                        before.tx_sequence,
                        now_us,
                    ),
                    session_confirm_bytes(server_proof(pending)),
                ) {
                    Ok(b) => {
                        &&& r matches Ok(some)
                        &&& some matches Some(packet)
                        &&& packet@ == b
                    },
                    Err(e) => r matches Err(f) && f == TransportError::Protocol(e),
                }
            },
        },
    }
}

/// A client handles a datagram while it waits for the server's proof: from `before`
/// to `after`, with result `r`.
pub open spec fn client_takes_proof(
    before: SessionView,
    after: SessionView,
    r: Result<bool, TransportError>,
    pending: ClientPendingView,
    from: SocketAddress,
    datagram: Seq<u8>,
) -> bool {
    match payload_from(
        pending.peer,
        from,
        datagram,
        MessageType::HandshakeSessionConfirm,
    ) {
        None => after == before && r == Ok::<bool, TransportError>(false),
        Some(payload) => match session_confirm_of(payload) {
            None => after == before && r == Err::<bool, TransportError>(
                TransportError::Protocol(Error::MalformedPayload),
            ),
            Some(confirm) => if confirm.session_id != pending.session_id {
                after == before && r == Err::<bool, TransportError>(
                    TransportError::Handshake("session_id mismatch in confirm"),
                )
            } else if confirm.server_auth_tag != auth_tag(
                pending.decrypt_key,
                LABEL_SERVER_FIN@,
                pending.transcript,
            ) {
                after == before && r == Err::<bool, TransportError>(
                    TransportError::AuthenticationFailed("server auth tag mismatch"),
                )
            } else {
                &&& after == (SessionView {
                    session_id: pending.session_id,
                    negotiated_codec: pending.codec,
                    encrypt_key: Some(pending.encrypt_key),
                    decrypt_key: Some(pending.decrypt_key),
                    ..before
                })
                &&& r == Ok::<bool, TransportError>(true)
            },
        },
    }
}

/// The server's session once it has taken over what the handshake brought.
pub open spec fn taken_over(before: SessionView, pending: ServerPendingView) -> SessionView {
    SessionView {
        session_id: pending.session_id,
        negotiated_codec: pending.codec,
        encrypt_key: Some(pending.encrypt_key),
        decrypt_key: Some(pending.decrypt_key),
        ..before
    }
}

impl Session {
    /// Handles a datagram while the client waits for the server's hello.
    ///
    /// What is no hello of the server counts as an attempt, and the client says
    /// hello again. A hello that does not suit ends the handshake. Otherwise the
    /// client derives the keys and proves it.
    ///
    /// Whatever server holds the secret of the public key in the hello: what it
    /// derives from this client's hello agrees with what the client derives.
    pub fn client_on_hello(
        &mut self,
        hs: &mut ClientHandshake,
        from: SocketAddress,
        datagram: &[u8],
        now_us: u64,
    ) -> (r: Result<Option<(Vec<u8>, ClientPending)>, TransportError>)
        requires
            old(self).wf(),
        ensures
            final(self).wf(),
            client_takes_hello(
                old(self)@,
                final(self)@,
                *old(hs),
                *final(hs),
                r,
                from,
                datagram@,
                now_us,
            ),
    {
        let payload: &[u8] = match expect(
            hs.peer,
            from,
            datagram,
            MessageType::HandshakeServerHello,
        ) {
            Some(p) => p,
            None => {
                hs.again();
                return Ok(None);
            },
        };
        let hello: ServerHello = match ServerHello::decode(payload) {
            Ok(h) => h,
            Err(e) => return Err(TransportError::Protocol(e)),
        };
        // The server may only go down from the version proposed, and not below
        // the lowest.
        if hello.protocol_version < PROTOCOL_VERSION_MIN || hello.protocol_version
            > PROTOCOL_VERSION_MAX {
            return Err(TransportError::Handshake("version negotiation failed: out of range"));
        }
        if !self.config().supports(hello.codec_accepted) {
            return Err(TransportError::Handshake("server selected unsupported codec"));
        }
        let shared: [u8; 32] = shared_secret(&hs.secret, &hello.ephemeral_public_key);
        let session_id: u32 = hello.session_id;
        let transcript: [u8; 68] = build_transcript(&hs.nonce, &hello.server_nonce, session_id);
        let (encrypt_key, decrypt_key) = derive_session_keys(&shared, &transcript);
        let label: [u8; 16] = LABEL_CLIENT_FIN;
        let proof_msg = KeyExchangeMsg {
            session_id,
            auth_tag: derive_auth_tag(&encrypt_key, &label, &transcript),
        };
        let mut body: [u8; 20] = [0u8; 20];
        let _ = proof_msg.encode(&mut body);
        proof {
            key_exchange_of_round_trip(proof_msg@, Seq::empty());
            assert(body@ =~= key_exchange_bytes(proof_msg@));
        }
        let pending = ClientPending {
            peer: hs.peer,
            session_id,
            codec: hello.codec_accepted,
            encrypt_key,
            decrypt_key,
            transcript,
        };
        proof {
            let derived = client_derives(hs.peer, hs.secret@, hs.nonce@, hello@);
            assert(pending@ =~= derived);
            assert(proof_msg@ =~= client_proof(derived));
        }
        match self.send_control(MessageType::HandshakeKeyExchange, session_id, &body, now_us) {
            Ok(packet) => Ok(Some((packet, pending))),
            Err(e) => Err(e),
        }
    }

    /// Handles a datagram while the client waits for the server's proof.
    ///
    /// Returns whether the handshake is done; only then the session takes over
    /// id, codec and keys.
    pub fn client_on_confirm(
        &mut self,
        pending: &ClientPending,
        from: SocketAddress,
        datagram: &[u8],
    ) -> (r: Result<bool, TransportError>)
        requires
            old(self).wf(),
        ensures
            final(self).wf(),
            client_takes_proof(old(self)@, final(self)@, r, pending@, from, datagram@),
    {
        let payload: &[u8] = match expect(
            pending.peer,
            from,
            datagram,
            MessageType::HandshakeSessionConfirm,
        ) {
            Some(p) => p,
            None => return Ok(false),
        };
        let confirm: SessionConfirm = match SessionConfirm::decode(payload) {
            Ok(c) => c,
            Err(e) => return Err(TransportError::Protocol(e)),
        };
        if confirm.session_id != pending.session_id {
            return Err(TransportError::Handshake("session_id mismatch in confirm"));
        }
        let label: [u8; 16] = LABEL_SERVER_FIN;
        let expected: [u8; 16] = derive_auth_tag(&pending.decrypt_key, &label, &pending.transcript);
        if !constant_time_eq(&confirm.server_auth_tag, &expected) {
            return Err(TransportError::AuthenticationFailed("server auth tag mismatch"));
        }
        self.set_session_id(pending.session_id);
        self.set_codec(pending.codec);
        self.set_keys(pending.encrypt_key, pending.decrypt_key);
        Ok(true)
    }

    /// Handles a datagram while the server waits for a client's hello, with the
    /// random values given. Session id and codec are proposed to the client; the
    /// session takes them over only when the handshake is done.
    pub fn server_answer(
        &mut self,
        peer: SocketAddress,
        from: SocketAddress,
        datagram: &[u8],
        secret: [u8; 32],
        nonce: [u8; 32],
        session_id: u32,
        now_us: u64,
    ) -> (r: Result<Option<(Vec<u8>, ServerPending)>, TransportError>)
        requires
            old(self).wf(),
        ensures
            final(self).wf(),
            server_answers(
                old(self)@,
                final(self)@,
                r,
                peer,
                from,
                datagram@,
                secret@,
                nonce@,
                session_id,
                now_us,
            ),
    {
        let payload: &[u8] = match expect(peer, from, datagram, MessageType::HandshakeClientHello) {
            Some(p) => p,
            None => return Ok(None),
        };
        let hello: ClientHello = match ClientHello::decode(payload) {
            Ok(h) => h,
            Err(e) => return Err(TransportError::Protocol(e)),
        };
        if hello.protocol_version < PROTOCOL_VERSION_MIN {
            return Err(
                TransportError::Handshake("version negotiation failed: client version too old"),
            );
        }
        let protocol_version: u8 = if hello.protocol_version < PROTOCOL_VERSION_MAX {
            hello.protocol_version
        } else {
            PROTOCOL_VERSION_MAX
        };
        let codec: u8 = if self.config().supports(hello.codec_preferred) {
            hello.codec_preferred
        } else if self.config().supported_codecs.len() > 0 {
            self.config().supported_codecs[0]
        } else {
            return Err(TransportError::Handshake("no supported codecs configured"));
        };
        let answer = ServerHello {
            ephemeral_public_key: public_key(&secret),
            server_nonce: nonce,
            session_id,
            protocol_version,
            codec_accepted: codec,
            sample_rate: hello.sample_rate,
            channels: hello.channels,
            frame_duration_ms: hello.frame_duration_ms,
            max_bitrate: if hello.max_bitrate < self.config().max_bitrate {
                hello.max_bitrate
            } else {
                self.config().max_bitrate
            },
            capability_flags: hello.capability_flags & self.config().capability_flags,
        };
        let mut body: [u8; 84] = [0u8; 84];
        let _ = answer.encode(&mut body);
        proof {
            server_hello_of_round_trip(answer@, Seq::empty());
            assert(body@ =~= server_hello_bytes(answer@));
            assert(answer@ =~= answer_to(
                hello@,
                self@.config,
                secret@,
                nonce@,
                session_id,
                codec,
            ));
        }
        let packet: Vec<u8> = match self.send_control(
            MessageType::HandshakeServerHello,
            session_id,
            &body,
            now_us,
        ) {
            Ok(p) => p,
            Err(e) => return Err(e),
        };
        let shared: [u8; 32] = shared_secret(&secret, &hello.ephemeral_public_key);
        let transcript: [u8; 68] = build_transcript(&hello.client_nonce, &nonce, session_id);
        let (client_encrypt, client_decrypt) = derive_session_keys(&shared, &transcript);
        let pending = ServerPending {
            peer,
            session_id,
            codec,
            encrypt_key: client_decrypt,
            decrypt_key: client_encrypt,
            transcript,
        };
        assert(pending@ =~= server_derives(
            peer,
            secret@,
            nonce@,
            session_id,
            codec,
            hello@,
        ));
        Ok(Some((packet, pending)))
    }

    /// Handles a datagram while the server waits for a client's hello. Secret,
    /// nonce and session id are drawn at random, the id anything but zero; whatever
    /// they are, the answer is the one that belongs to them.
    pub fn server_on_hello(
        &mut self,
        peer: SocketAddress,
        from: SocketAddress,
        datagram: &[u8],
        now_us: u64,
    ) -> (r: Result<Option<(Vec<u8>, ServerPending)>, TransportError>)
        requires
            old(self).wf(),
        ensures
            final(self).wf(),
            exists|secret: Seq<u8>, nonce: Seq<u8>, session_id: u32|
                secret.len() == 32 && nonce.len() == 32 && session_id != 0
                    && #[trigger] server_answers(
                    old(self)@,
                    final(self)@,
                    r,
                    peer,
                    from,
                    datagram@,
                    secret,
                    nonce,
                    session_id,
                    now_us,
                ),
    {
        let secret: [u8; 32] = random_nonce_32();
        let nonce: [u8; 32] = random_nonce_32();
        let drawn: u32 = rand_u32_secure();
        // No session has the number zero.
        let session_id: u32 = if drawn == 0 {
            1
        } else {
            drawn
        };
        self.server_answer(peer, from, datagram, secret, nonce, session_id, now_us)
    }

    /// Handles a datagram while the server waits for the client's proof. Once
    /// that is right, the server's own proof comes back.
    pub fn server_on_key_exchange(
        &mut self,
        pending: &ServerPending,
        from: SocketAddress,
        datagram: &[u8],
        now_us: u64,
    ) -> (r: Result<Option<Vec<u8>>, TransportError>)
        requires
            old(self).wf(),
        ensures
            final(self).wf(),
            server_takes_proof(
                old(self)@,
                final(self)@,
                r,
                pending@,
                from,
                datagram@,
                now_us,
            ),
    {
        let payload: &[u8] = match expect(
            pending.peer,
            from,
            datagram,
            MessageType::HandshakeKeyExchange,
        ) {
            Some(p) => p,
            None => return Ok(None),
        };
        let msg: KeyExchangeMsg = match KeyExchangeMsg::decode(payload) {
            Ok(m) => m,
            Err(e) => return Err(TransportError::Protocol(e)),
        };
        if msg.session_id != pending.session_id {
            return Err(TransportError::Handshake("session_id mismatch in KeyExchange"));
        }
        let client_label: [u8; 16] = LABEL_CLIENT_FIN;
        let expected: [u8; 16] = derive_auth_tag(
            &pending.decrypt_key,
            &client_label,
            &pending.transcript,
        );
        if !constant_time_eq(&msg.auth_tag, &expected) {
            return Err(TransportError::AuthenticationFailed("client auth tag mismatch"));
        }
        let server_label: [u8; 16] = LABEL_SERVER_FIN;
        let confirm = SessionConfirm {
            session_id: pending.session_id,
            server_auth_tag: derive_auth_tag(
                &pending.encrypt_key,
                &server_label,
                &pending.transcript,
            ),
        };
        let mut body: [u8; 20] = [0u8; 20];
        let _ = confirm.encode(&mut body);
        proof {
            session_confirm_of_round_trip(confirm@, Seq::empty());
            assert(body@ =~= session_confirm_bytes(confirm@));
            assert(confirm@ =~= server_proof(pending@));
        }
        match self.send_control(
            MessageType::HandshakeSessionConfirm,
            pending.session_id,
            &body,
            now_us,
        ) {
            Ok(packet) => Ok(Some(packet)),
            Err(e) => Err(e),
        }
    }

    /// Reports that the server's proof went out: the session takes over id, codec
    /// and keys.
    pub fn server_confirmed(&mut self, pending: &ServerPending)
        requires
            old(self).wf(),
        ensures
            final(self).wf(),
            final(self)@ == taken_over(old(self)@, pending@),
    {
        self.set_session_id(pending.session_id);
        self.set_codec(pending.codec);
        self.set_keys(pending.encrypt_key, pending.decrypt_key);
    }
}

/// A packet of the handshake that one end built reaches the other end whole, if
/// it comes from the peer that the other end expects.
pub proof fn handshake_packet_arrives(
    peer: SocketAddress,
    mtu: usize,
    msg: MessageType,
    session_id: u32,
    sequence: u32,
    now_us: u64,
    payload: Seq<u8>,
    datagram: Seq<u8>,
)
    requires
        encoded(mtu, plain_header(message_code(msg), session_id, sequence, now_us), payload) == Ok::<
            Seq<u8>,
            Error,
        >(datagram),
    ensures
        payload_from(peer, peer, datagram, msg) == Some(payload),
{
    packet_round_trip(
        plain_header(message_code(msg), session_id, sequence, now_us),
        payload,
    );
}

/// All steps of a handshake between two sessions: their states in turn, the
/// results, and what was drawn at random.
pub struct Exchange {
    pub client: Seq<SessionView>,
    pub server: Seq<SessionView>,
    pub client_addr: SocketAddress,
    pub server_addr: SocketAddress,
    pub hs: ClientHandshake,
    pub hs_after: ClientHandshake,
    pub secret: Seq<u8>,
    pub nonce: Seq<u8>,
    pub session_id: u32,
    pub client_begin: Result<(), TransportError>,
    pub server_begin: Result<(), TransportError>,
    pub hello: Result<Vec<u8>, TransportError>,
    pub answer: Result<Option<(Vec<u8>, ServerPending)>, TransportError>,
    pub proof_sent: Result<Option<(Vec<u8>, ClientPending)>, TransportError>,
    pub confirm: Result<Option<Vec<u8>>, TransportError>,
    pub confirmed: Result<bool, TransportError>,
    pub client_end: Result<(), TransportError>,
    pub server_end: Result<(), TransportError>,
    pub hello_us: u64,
    pub answer_us: u64,
    pub proof_us: u64,
    pub confirm_us: u64,
}

impl Exchange {
    /// The steps follow each other, and every datagram passes unchanged.
    #[verifier::opaque]
    pub open spec fn took_place(self) -> bool {
        let c = self.client;
        let s = self.server;
        &&& c.len() == 6
        &&& s.len() == 6
        &&& begins(c[0], c[1], self.client_begin, SessionRole::Client, self.server_addr)
        &&& begins(s[0], s[1], self.server_begin, SessionRole::Server, self.client_addr)
        &&& says_hello(
            c[1],
            c[2],
            self.hello,
            self.hs.spec_secret(),
            self.hs.spec_nonce(),
            self.hello_us,
        )
        &&& server_answers(
            s[1],
            s[2],
            self.answer,
            self.client_addr,
            self.client_addr,
            self.hello->Ok_0@,
            self.secret,
            self.nonce,
            self.session_id,
            self.answer_us,
        )
        &&& client_takes_hello(
            c[2],
            c[3],
            self.hs,
            self.hs_after,
            self.proof_sent,
            self.server_addr,
            (self.answer->Ok_0->0).0@,
            self.proof_us,
        )
        &&& server_takes_proof(
            s[2],
            s[3],
            self.confirm,
            (self.answer->Ok_0->0).1@,
            self.client_addr,
            (self.proof_sent->Ok_0->0).0@,
            self.confirm_us,
        )
        &&& s[4] == taken_over(s[3], (self.answer->Ok_0->0).1@)
        &&& ends(s[4], s[5], self.server_end, Ok(()))
        &&& client_takes_proof(
            c[3],
            c[4],
            self.confirmed,
            (self.proof_sent->Ok_0->0).1@,
            self.server_addr,
            (self.confirm->Ok_0->0)@,
        )
        &&& ends(c[4], c[5], self.client_end, Ok(()))
    }
}

/// A packet that was built holds its payload, and whoever expects it finds that.
proof fn built_packet_arrives(
    peer: SocketAddress,
    mtu: usize,
    msg: MessageType,
    session_id: u32,
    sequence: u32,
    now_us: u64,
    payload: Seq<u8>,
)
    requires
        payload.len() <= 84,
        mtu >= 112,
    ensures
        ({
            let header = plain_header(message_code(msg), session_id, sequence, now_us);
            &&& encoded(mtu, header, payload) is Ok
            &&& payload_from(peer, peer, encoded(mtu, header, payload)->Ok_0, msg) == Some(payload)
        }),
{
    let header = plain_header(message_code(msg), session_id, sequence, now_us);
    handshake_packet_arrives(
        peer,
        mtu,
        msg,
        session_id,
        sequence,
        now_us,
        payload,
        encoded(mtu, header, payload)->Ok_0,
    );
}

/// The server's answer in a handshake that takes place.
proof fn server_has_answered(x: Exchange, codec: u8)
    requires
        x.took_place(),
        x.client[0].config.mtu >= 112,
        x.server[0].config.mtu >= 112,
        chosen_codec(x.server[0].config, x.client[0].config.codec_preferred) == Some(codec),
    ensures
        ({
            let c = x.client;
            let s = x.server;
            let hello = hello_of(c[0].config, x.hs.spec_secret(), x.hs.spec_nonce());
            let answer = answer_to(hello, s[0].config, x.secret, x.nonce, x.session_id, codec);
            &&& x.hello is Ok
            &&& s[2] == s[1].sequence_used()
            &&& x.answer matches Ok(some)
            &&& some matches Some((packet, pending))
            &&& payload_from(
                x.server_addr,
                x.server_addr,
                packet@,
                MessageType::HandshakeServerHello,
            ) == Some(server_hello_bytes(answer))
            &&& server_hello_of(server_hello_bytes(answer)) == Some(answer)
            &&& pending@ == server_derives(
                x.client_addr,
                x.secret,
                x.nonce,
                x.session_id,
                codec,
                hello,
            )
        }),
{
    reveal(Exchange::took_place);
    let c = x.client;
    let s = x.server;
    let hello = hello_of(c[0].config, x.hs.spec_secret(), x.hs.spec_nonce());
    client_hello_of_round_trip(hello, Seq::empty());
    assert(client_hello_bytes(hello) + Seq::<u8>::empty() =~= client_hello_bytes(hello));
    built_packet_arrives(
        x.client_addr,
        c[1].config.mtu,
        MessageType::HandshakeClientHello,
        0,
        c[1].tx_sequence,
        x.hello_us,
        client_hello_bytes(hello),
    );
    let answer = answer_to(hello, s[0].config, x.secret, x.nonce, x.session_id, codec);
    assert(answer.sized());
    server_hello_of_round_trip(answer, Seq::empty());
    assert(server_hello_bytes(answer) + Seq::<u8>::empty() =~= server_hello_bytes(answer));
    built_packet_arrives(
        x.server_addr,
        s[1].config.mtu,
        MessageType::HandshakeServerHello,
        x.session_id,
        s[1].tx_sequence,
        x.answer_us,
        server_hello_bytes(answer),
    );
}

/// The client's proof in a handshake that takes place.
proof fn client_has_proved(x: Exchange, codec: u8)
    requires
        x.took_place(),
        x.hs.server() == x.server_addr,
        x.secret.len() == 32,
        x.client[0].config.mtu >= 112,
        x.server[0].config.mtu >= 112,
        chosen_codec(x.server[0].config, x.client[0].config.codec_preferred) == Some(codec),
        x.client[0].config.supported_codecs@.contains(codec),
    ensures
        ({
            let c = x.client;
            let s = x.server;
            let hello = hello_of(c[0].config, x.hs.spec_secret(), x.hs.spec_nonce());
            let sp = server_derives(
                x.client_addr,
                x.secret,
                x.nonce,
                x.session_id,
                codec,
                hello,
            );
            &&& s[2] == s[1].sequence_used()
            &&& c[3] == c[2].sequence_used()
            &&& c[2] == c[1].sequence_used()
            &&& (x.answer->Ok_0->0).1@ == sp
            &&& x.proof_sent matches Ok(some)
            &&& some matches Some((packet, pending))
            &&& pending@.peer == x.server_addr
            &&& pending@.session_id == x.session_id
            &&& agreed(pending@, sp)
            &&& payload_from(
                x.client_addr,
                x.client_addr,
                packet@,
                MessageType::HandshakeKeyExchange,
            ) == Some(key_exchange_bytes(client_proof(pending@)))
            &&& key_exchange_of(key_exchange_bytes(client_proof(pending@))) == Some(
                client_proof(pending@),
            )
        }),
{
    let c = x.client;
    let s = x.server;
    server_has_answered(x, codec);
    reveal(Exchange::took_place);
    let hello = hello_of(c[0].config, x.hs.spec_secret(), x.hs.spec_nonce());
    let answer = answer_to(hello, s[0].config, x.secret, x.nonce, x.session_id, codec);
    let cp = client_derives(x.server_addr, x.hs.spec_secret(), x.hs.spec_nonce(), answer);
    let sp = server_derives(x.client_addr, x.secret, x.nonce, x.session_id, codec, hello);
    let ke = client_proof(cp);
    assert(ke.sized());
    key_exchange_of_round_trip(ke, Seq::empty());
    assert(key_exchange_bytes(ke) + Seq::<u8>::empty() =~= key_exchange_bytes(ke));
    built_packet_arrives(
        x.client_addr,
        c[2].config.mtu,
        MessageType::HandshakeKeyExchange,
        x.session_id,
        c[2].tx_sequence,
        x.proof_us,
        key_exchange_bytes(ke),
    );
    assert((x.proof_sent->Ok_0->0).1@ == cp);
    assert(agreed(cp, sp));
}

/// The server's proof in a handshake that takes place.
proof fn server_has_confirmed(x: Exchange, codec: u8)
    requires
        x.took_place(),
        x.hs.server() == x.server_addr,
        x.secret.len() == 32,
        x.client[0].config.mtu >= 112,
        x.server[0].config.mtu >= 112,
        chosen_codec(x.server[0].config, x.client[0].config.codec_preferred) == Some(codec),
        x.client[0].config.supported_codecs@.contains(codec),
    ensures
        ({
            let c = x.client;
            let s = x.server;
            let sp = (x.answer->Ok_0->0).1@;
            let cp = (x.proof_sent->Ok_0->0).1@;
            &&& s[2] == s[1].sequence_used()
            &&& s[3] == s[2].sequence_used()
            &&& c[2] == c[1].sequence_used()
            &&& c[3] == c[2].sequence_used()
            &&& sp.session_id == x.session_id
            &&& sp.codec == codec
            &&& cp.peer == x.server_addr
            &&& agreed(cp, sp)
            &&& x.confirm matches Ok(some)
            &&& some matches Some(packet)
            &&& payload_from(
                x.server_addr,
                x.server_addr,
                packet@,
                MessageType::HandshakeSessionConfirm,
            ) == Some(session_confirm_bytes(server_proof(sp)))
            &&& session_confirm_of(session_confirm_bytes(server_proof(sp))) == Some(
                server_proof(sp),
            )
        }),
{
    let s = x.server;
    client_has_proved(x, codec);
    reveal(Exchange::took_place);
    let sp = (x.answer->Ok_0->0).1@;
    let confirm = server_proof(sp);
    assert(confirm.sized());
    session_confirm_of_round_trip(confirm, Seq::empty());
    assert(session_confirm_bytes(confirm) + Seq::<u8>::empty() =~= session_confirm_bytes(confirm));
    built_packet_arrives(
        x.server_addr,
        s[2].config.mtu,
        MessageType::HandshakeSessionConfirm,
        x.session_id,
        s[2].tx_sequence,
        x.confirm_us,
        session_confirm_bytes(confirm),
    );
}

/// The client accepts the server's proof in a handshake that takes place.
proof fn client_has_accepted(x: Exchange, codec: u8)
    requires
        x.took_place(),
        x.hs.server() == x.server_addr,
        x.secret.len() == 32,
        x.client[0].config.mtu >= 112,
        x.server[0].config.mtu >= 112,
        chosen_codec(x.server[0].config, x.client[0].config.codec_preferred) == Some(codec),
        x.client[0].config.supported_codecs@.contains(codec),
    ensures
        ({
            let c = x.client;
            let s = x.server;
            let sp = (x.answer->Ok_0->0).1@;
            let cp = (x.proof_sent->Ok_0->0).1@;
            &&& s[3] == s[1].sequence_used().sequence_used()
            &&& c[3] == c[1].sequence_used().sequence_used()
            &&& sp.session_id == x.session_id
            &&& sp.codec == codec
            &&& agreed(cp, sp)
            &&& c[4] == (SessionView {
                session_id: cp.session_id,
                negotiated_codec: cp.codec,
                encrypt_key: Some(cp.encrypt_key),
                decrypt_key: Some(cp.decrypt_key),
                ..c[3]
            })
        }),
{
    server_has_confirmed(x, codec);
    reveal(Exchange::took_place);
}

/// How the two ends of a handshake begin and end.
proof fn handshake_begins_and_ends(x: Exchange)
    requires
        x.took_place(),
    ensures
        begins(
            x.client[0],
            x.client[1],
            x.client_begin,
            SessionRole::Client,
            x.server_addr,
        ),
        begins(
            x.server[0],
            x.server[1],
            x.server_begin,
            SessionRole::Server,
            x.client_addr,
        ),
        x.server[4] == taken_over(x.server[3], (x.answer->Ok_0->0).1@),
        ends(x.server[4], x.server[5], x.server_end, Ok(())),
        ends(x.client[4], x.client[5], x.client_end, Ok(())),
{
    reveal(Exchange::took_place);
}

/// A whole handshake succeeds. If both ends can begin, the client can use the codec
/// that the server chooses, both MTUs hold the largest packet of the handshake and
/// every datagram passes unchanged, then every step succeeds: both sessions are
/// active, with one session id, one codec, and each with the key to decrypt what
/// the other encrypts. Each has used up two numbers; all else is as it was.
pub proof fn whole_handshake(x: Exchange, codec: u8)
    requires
        x.took_place(),
        x.hs.server() == x.server_addr,
        x.secret.len() == 32,
        next_state(x.client[0].state, SessionEvent::StartConnect) is Some,
        next_state(x.server[0].state, SessionEvent::StartAccept) is Some,
        x.client[0].config.mtu >= 112,
        x.server[0].config.mtu >= 112,
        chosen_codec(x.server[0].config, x.client[0].config.codec_preferred) == Some(codec),
        x.client[0].config.supported_codecs@.contains(codec),
    ensures
        ({
            let c = x.client[5];
            let s = x.server[5];
            &&& x.client_end is Ok
            &&& x.server_end is Ok
            &&& c.state is Active
            &&& s.state is Active
            &&& c.session_id == x.session_id
            &&& s.session_id == x.session_id
            &&& c.negotiated_codec == codec
            &&& s.negotiated_codec == codec
            &&& c.encrypt_key is Some
            &&& c.encrypt_key == s.decrypt_key
            &&& s.encrypt_key is Some
            &&& s.encrypt_key == c.decrypt_key
            &&& c == (SessionView {
                state: SessionState::Active,
                peer: Some(x.server_addr),
                session_id: c.session_id,
                negotiated_codec: c.negotiated_codec,
                encrypt_key: c.encrypt_key,
                decrypt_key: c.decrypt_key,
                tx_sequence: x.client[0].tx_sequence.wrapping_add(1).wrapping_add(1),
                ..x.client[0]
            })
            &&& s == (SessionView {
                state: SessionState::Active,
                peer: Some(x.client_addr),
                session_id: s.session_id,
                negotiated_codec: s.negotiated_codec,
                encrypt_key: s.encrypt_key,
                decrypt_key: s.decrypt_key,
                tx_sequence: x.server[0].tx_sequence.wrapping_add(1).wrapping_add(1),
                ..x.server[0]
            })
        }),
{
    client_has_accepted(x, codec);
    handshake_begins_and_ends(x);
}

/// What comes from anyone but the expected peer never counts.
pub proof fn strangers_are_ignored(
    peer: SocketAddress,
    from: SocketAddress,
    datagram: Seq<u8>,
    msg: MessageType,
)
    requires
        from != peer,
    ensures
        payload_from(peer, from, datagram, msg) is None,
{
}

/// The codec that a server chooses: the one that the client prefers, wherever the server
/// supports it; else the first that the server supports; none only where it supports
/// none.
pub proof fn codec_is_the_preferred(config: Config, preferred: u8)
    ensures
        config.supported_codecs@.contains(preferred) ==> chosen_codec(config, preferred) == Some(
            preferred,
        ),
        !config.supported_codecs@.contains(preferred) && config.supported_codecs@.len() > 0
            ==> chosen_codec(config, preferred) == Some(config.supported_codecs@[0]),
        config.supported_codecs@.len() == 0 ==> chosen_codec(config, preferred) is None,
{
}

/// The favourite of the client is what both ends speak after a handshake, if both
/// support it; where the server does not, it is the server's own first codec.
pub proof fn preferred_codec_is_negotiated(x: Exchange)
    requires
        x.took_place(),
        x.hs.server() == x.server_addr,
        x.secret.len() == 32,
        x.client[0].state == SessionState::Idle || x.client[0].state == SessionState::Reconnecting,
        x.server[0].state == SessionState::Idle || x.server[0].state == SessionState::Reconnecting,
        x.client[0].config.mtu >= 112,
        x.server[0].config.mtu >= 112,
        ({
            let preferred = x.client[0].config.codec_preferred;
            let offered = x.server[0].config.supported_codecs@;
            let mine = x.client[0].config.supported_codecs@;
            ||| offered.contains(preferred) && mine.contains(preferred)
            ||| !offered.contains(preferred) && offered.len() > 0 && mine.contains(offered[0])
        }),
    ensures
        ({
            let preferred = x.client[0].config.codec_preferred;
            let offered = x.server[0].config.supported_codecs@;
            let codec = if offered.contains(preferred) {
                preferred
            } else {
                offered[0]
            };
            &&& x.client_end is Ok && x.server_end is Ok
            &&& x.client[5].negotiated_codec == codec
            &&& x.server[5].negotiated_codec == codec
            &&& x.client[5].state == SessionState::Active
            &&& x.server[5].state == SessionState::Active
        }),
{
    let preferred = x.client[0].config.codec_preferred;
    let offered = x.server[0].config.supported_codecs@;
    let codec = if offered.contains(preferred) {
        preferred
    } else {
        offered[0]
    };
    whole_handshake(x, codec);
}

/// The wait for an answer begins at 200 ms and doubles four times, to 3200 ms.
pub proof fn wait_doubles(n: u32)
    ensures
        backoff(0) == 200,
        n < 4 ==> backoff((n + 1) as u32) == 2 * backoff(n),
        n >= 4 ==> backoff(n) == 3200,
{
}

/// The one version that is spoken is 1.
pub proof fn one_version_is_spoken(version: u8)
    ensures
        version_in_range(version) <==> version == 1,
{
}

/// Who is listened to: only the peer, and only a valid packet of the type that is
/// waited for, of which the payload is taken.
pub proof fn only_the_awaited_packet_counts(
    peer: SocketAddress,
    from: SocketAddress,
    datagram: Seq<u8>,
    msg: MessageType,
)
    ensures
        payload_from(peer, from, datagram, msg) is Some <==> from == peer && (packet_of(
            datagram,
        ) matches Ok((h, _)) && h.msg_type == message_code(msg)),
        payload_from(peer, from, datagram, msg) matches Some(p) ==> (packet_of(datagram) matches Ok(
            (_, payload),
        ) && p == payload),
{
}

/// What a client says in its hello: its public key and nonce, version 1, and its
/// parameters.
pub proof fn hello_says_the_parameters(config: Config, secret: Seq<u8>, nonce: Seq<u8>)
    ensures
        ({
            let h = hello_of(config, secret, nonce);
            &&& h.ephemeral_public_key == x25519_public(secret)
            &&& h.client_nonce == nonce
            &&& h.protocol_version == 1
            &&& h.codec_preferred == config.codec_preferred
            &&& h.sample_rate == config.sample_rate
            &&& h.channels == config.channels
            &&& h.frame_duration_ms == config.frame_duration_ms
            &&& h.max_bitrate == config.max_bitrate
            &&& h.capability_flags == config.capability_flags
        }),
{
}

/// What a server answers: the audio format as the client asked for it, the lower of the
/// two bitrate ceilings, and the capabilities that both have.
pub proof fn answer_is_what_both_can(
    hello: ClientHelloView,
    config: Config,
    secret: Seq<u8>,
    nonce: Seq<u8>,
    session_id: u32,
    codec: u8,
)
    ensures
        ({
            let a = answer_to(hello, config, secret, nonce, session_id, codec);
            &&& a.ephemeral_public_key == x25519_public(secret)
            &&& a.server_nonce == nonce
            &&& a.session_id == session_id
            &&& a.codec_accepted == codec
            &&& a.protocol_version <= 1 && a.protocol_version <= hello.protocol_version
            &&& hello.protocol_version >= 1 ==> a.protocol_version == 1
            &&& a.sample_rate == hello.sample_rate
            &&& a.channels == hello.channels
            &&& a.frame_duration_ms == hello.frame_duration_ms
            &&& a.max_bitrate <= hello.max_bitrate && a.max_bitrate <= config.max_bitrate
            &&& a.max_bitrate == hello.max_bitrate || a.max_bitrate == config.max_bitrate
            &&& a.capability_flags == hello.capability_flags & config.capability_flags
        }),
{
}

/// A server answers a hello from its peer. It refuses one that is too short or of a
/// version before 1, and any where it supports no codec; otherwise the answer bears the
/// session id and the codec that the client prefers, if the server supports it.
pub proof fn hello_is_answered(
    before: SessionView,
    after: SessionView,
    r: Result<Option<(Vec<u8>, ServerPending)>, TransportError>,
    peer: SocketAddress,
    datagram: Seq<u8>,
    secret: Seq<u8>,
    nonce: Seq<u8>,
    session_id: u32,
    now_us: u64,
    h: PacketHeader,
    payload: Seq<u8>,
)
    requires
        server_answers(
            before,
            after,
            r,
            peer,
            peer,
            datagram,
            secret,
            nonce,
            session_id,
            now_us,
        ),
        packet_of(datagram) == Ok::<(PacketHeader, Seq<u8>), Error>((h, payload)),
        h.msg_type == 1,
        before.config.mtu >= 112,
    ensures
        payload.len() < 80 || payload[64] == 0 || before.config.supported_codecs@.len() == 0
            ==> r is Err && after == before,
        payload.len() >= 80 && payload[64] >= 1 && before.config.supported_codecs@.len() > 0 ==> {
            let offered = before.config.supported_codecs@;
            let codec = if offered.contains(payload[65]) {
                payload[65]
            } else {
                offered[0]
            };
            &&& r matches Ok(some)
            &&& some matches Some((packet, pending))
            &&& packet_of(packet@) matches Ok((k, answer))
            &&& k.msg_type == 2 && k.session_id == session_id && k.sequence == before.tx_sequence
            &&& answer.len() == 84
            &&& answer.subrange(32, 64) == nonce
            &&& session_id == answer[64] * 0x100_0000 + answer[65] * 0x1_0000 + answer[66] * 0x100 + answer[67]
            &&& answer[69] == codec
            &&& server_hello_of(answer) == Some(
                answer_to(
                    client_hello_of(payload)->0,
                    before.config,
                    secret,
                    nonce,
                    session_id,
                    codec,
                ),
            )
            &&& pending@ == server_derives(
                peer,
                secret,
                nonce,
                session_id,
                codec,
                client_hello_of(payload)->0,
            )
            &&& pending@.codec == codec
            &&& pending@.session_id == session_id
            &&& pending@.peer == peer
            &&& after == before.sequence_used()
        },
{
    if payload.len() >= 80 && payload[64] >= 1 && before.config.supported_codecs@.len() > 0 {
        let hello = client_hello_of(payload)->0;
        let codec = chosen_codec(before.config, hello.codec_preferred)->0;
        let a = answer_to(hello, before.config, secret, nonce, session_id, codec);
        server_hello_of_round_trip(a, Seq::empty());
        let bytes = server_hello_bytes(a);
        assert(bytes + Seq::<u8>::empty() =~= bytes);
        packet_round_trip(
            plain_header(
                message_code(MessageType::HandshakeServerHello),
                session_id,
                before.tx_sequence,
                now_us,
            ),
            bytes,
        );
    }
}

/// The transcript of a client is its nonce, and the server's nonce and the id as they
/// stand in the server's hello.
proof fn client_transcript(
    peer: SocketAddress,
    secret: Seq<u8>,
    nonce: Seq<u8>,
    payload: Seq<u8>,
)
    requires
        payload.len() >= 84,
    ensures
        server_hello_of(payload) is Some,
        client_derives(peer, secret, nonce, server_hello_of(payload)->0).transcript == nonce
            + payload.subrange(32, 68),
{
    crate::wire::be32_rewrites(payload, 64);
    assert(payload.subrange(32, 64) + payload.subrange(64, 68) =~= payload.subrange(32, 68));
    assert(nonce + payload.subrange(32, 64) + payload.subrange(64, 68) =~= nonce
        + payload.subrange(32, 68));
}

/// A client takes a server's hello only where it is whole, of version 1, and of a codec
/// that the client supports. Both ends' nonces and the id then make the transcript, and
/// what the client encrypts with is the key for that direction.
#[verifier::rlimit(40)]
pub proof fn server_hello_is_taken(
    before: SessionView,
    after: SessionView,
    hs: ClientHandshake,
    hs_after: ClientHandshake,
    r: Result<Option<(Vec<u8>, ClientPending)>, TransportError>,
    datagram: Seq<u8>,
    now_us: u64,
    h: PacketHeader,
    payload: Seq<u8>,
)
    requires
        client_takes_hello(before, after, hs, hs_after, r, hs.server(), datagram, now_us),
        packet_of(datagram) == Ok::<(PacketHeader, Seq<u8>), Error>((h, payload)),
        h.msg_type == 2,
        before.config.mtu >= 48,
    ensures
        payload.len() < 84 || payload[68] != 1 || !before.config.supported_codecs@.contains(
            payload[69],
        ) ==> r is Err && after == before,
        payload.len() >= 84 && payload[68] == 1 && before.config.supported_codecs@.contains(
            payload[69],
        ) ==> {
            let shared = x25519_product(hs.spec_secret(), payload.subrange(0, 32));
            let transcript = hs.spec_nonce() + payload.subrange(32, 68);
            &&& r matches Ok(some)
            &&& some matches Some((packet, pending))
            &&& pending@.session_id == payload[64] * 0x100_0000 + payload[65] * 0x1_0000 + payload[66] * 0x100 + payload[67]
            &&& pending@.codec == payload[69]
            &&& pending@.peer == hs.server()
            &&& pending@.transcript == transcript
            &&& pending@.encrypt_key == hkdf_output(Some(transcript), shared, seq![71u8, 83, 45, 101, 110, 99, 114, 121, 112, 116, 45, 118, 49], 32)
            &&& pending@.decrypt_key == hkdf_output(Some(transcript), shared, seq![71u8, 83, 45, 100, 101, 99, 114, 121, 112, 116, 45, 118, 49], 32)
            &&& packet_of(packet@) matches Ok((k, proof_sent))
            &&& k.msg_type == 4 && k.session_id == pending@.session_id
            &&& proof_sent.subrange(4, 20) == hkdf_output(
                None,
                pending@.encrypt_key,
                seq![71u8, 83, 45, 99, 108, 105, 101, 110, 116, 45, 102, 105, 110, 45, 118, 49] + transcript,
                16,
            )
            &&& after == before.sequence_used()
        },
{
    if payload.len() >= 84 && payload[68] == 1 && before.config.supported_codecs@.contains(
        payload[69],
    ) {
        let hello = server_hello_of(payload)->0;
        let derived = client_derives(hs.server(), hs.spec_secret(), hs.spec_nonce(), hello);
        let m = client_proof(derived);
        let bytes = key_exchange_bytes(m);
        key_exchange_of_round_trip(m, Seq::empty());
        assert(bytes.subrange(4, 20) =~= m.auth_tag);
        client_transcript(hs.server(), hs.spec_secret(), hs.spec_nonce(), payload);
        keys_by_direction(
            x25519_product(hs.spec_secret(), payload.subrange(0, 32)),
            derived.transcript,
            derived.encrypt_key,
            LABEL_CLIENT_FIN@,
        );
        assert(LABEL_CLIENT_FIN@ =~= seq![71u8, 83, 45, 99, 108, 105, 101, 110, 116, 45, 102, 105, 110, 45, 118, 49]);
        packet_round_trip(
            plain_header(
                message_code(MessageType::HandshakeKeyExchange),
                hello.session_id,
                before.tx_sequence,
                now_us,
            ),
            bytes,
        );
    }
}

/// A server lets a client in only on the right proof: the id that it gave, and the tag
/// that the holder of the key makes of the transcript. It then gives its own.
pub proof fn client_has_to_prove_itself(
    before: SessionView,
    after: SessionView,
    r: Result<Option<Vec<u8>>, TransportError>,
    pending: ServerPendingView,
    datagram: Seq<u8>,
    now_us: u64,
    h: PacketHeader,
    payload: Seq<u8>,
)
    requires
        server_takes_proof(before, after, r, pending, pending.peer, datagram, now_us),
        packet_of(datagram) == Ok::<(PacketHeader, Seq<u8>), Error>((h, payload)),
        h.msg_type == 4,
        before.config.mtu >= 48,
    ensures
        ({
            let right = hkdf_output(None, pending.decrypt_key, seq![71u8, 83, 45, 99, 108, 105, 101, 110, 116, 45, 102, 105, 110, 45, 118, 49] + pending.transcript, 16);
            let accepted = payload.len() >= 20 && pending.session_id == payload[0] * 0x100_0000 + payload[1] * 0x1_0000 + payload[2] * 0x100 + payload[3]
                && payload.subrange(4, 20) == right;
            &&& !accepted ==> r is Err && after == before
            &&& payload.len() >= 20 && pending.session_id == payload[0] * 0x100_0000 + payload[1] * 0x1_0000 + payload[2] * 0x100 + payload[3]
                && payload.subrange(4, 20) != right ==> (r matches Err(e)
                && e is AuthenticationFailed)
            &&& accepted ==> {
                &&& r matches Ok(some)
                &&& some matches Some(packet)
                &&& packet_of(packet@) matches Ok((k, confirm))
                &&& k.msg_type == 3 && k.session_id == pending.session_id
                &&& confirm.len() == 20
                &&& pending.session_id == confirm[0] * 0x100_0000 + confirm[1] * 0x1_0000 + confirm[2] * 0x100 + confirm[3]
                &&& confirm.subrange(4, 20) == hkdf_output(
                    None,
                    pending.encrypt_key,
                    seq![71u8, 83, 45, 115, 101, 114, 118, 101, 114, 45, 102, 105, 110, 45, 118, 49] + pending.transcript,
                    16,
                )
                &&& after == before.sequence_used()
            }
        }),
{
    assert(LABEL_CLIENT_FIN@ =~= seq![71u8, 83, 45, 99, 108, 105, 101, 110, 116, 45, 102, 105, 110, 45, 118, 49]);
    assert(LABEL_SERVER_FIN@ =~= seq![71u8, 83, 45, 115, 101, 114, 118, 101, 114, 45, 102, 105, 110, 45, 118, 49]);
    if payload.len() >= 20 && pending.session_id == payload[0] * 0x100_0000 + payload[1] * 0x1_0000 + payload[2] * 0x100 + payload[3] && payload.subrange(4, 20)
        == auth_tag(pending.decrypt_key, LABEL_CLIENT_FIN@, pending.transcript) {
        let m = server_proof(pending);
        let bytes = session_confirm_bytes(m);
        session_confirm_of_round_trip(m, Seq::empty());
        crate::wire::be32_spells(pending.session_id);
        assert(bytes.subrange(4, 20) =~= m.server_auth_tag);
        packet_round_trip(
            plain_header(
                message_code(MessageType::HandshakeSessionConfirm),
                pending.session_id,
                before.tx_sequence,
                now_us,
            ),
            bytes,
        );
    }
}

/// A client trusts a server only on the right proof, and only then takes over the
/// session: its id, its codec and the keys.
pub proof fn server_has_to_prove_itself(
    before: SessionView,
    after: SessionView,
    r: Result<bool, TransportError>,
    pending: ClientPendingView,
    datagram: Seq<u8>,
    h: PacketHeader,
    payload: Seq<u8>,
)
    requires
        client_takes_proof(before, after, r, pending, pending.peer, datagram),
        packet_of(datagram) == Ok::<(PacketHeader, Seq<u8>), Error>((h, payload)),
        h.msg_type == 3,
    ensures
        ({
            let right = hkdf_output(None, pending.decrypt_key, seq![71u8, 83, 45, 115, 101, 114, 118, 101, 114, 45, 102, 105, 110, 45, 118, 49] + pending.transcript, 16);
            let accepted = payload.len() >= 20 && pending.session_id == payload[0] * 0x100_0000 + payload[1] * 0x1_0000 + payload[2] * 0x100 + payload[3]
                && payload.subrange(4, 20) == right;
            &&& !accepted ==> r is Err && after == before
            &&& payload.len() >= 20 && pending.session_id == payload[0] * 0x100_0000 + payload[1] * 0x1_0000 + payload[2] * 0x100 + payload[3]
                && payload.subrange(4, 20) != right ==> (r matches Err(e)
                && e is AuthenticationFailed)
            &&& accepted ==> {
                &&& r == Ok::<bool, TransportError>(true)
                &&& after.session_id == pending.session_id
                &&& after.negotiated_codec == pending.codec
                &&& after.encrypt_key == Some(pending.encrypt_key)
                &&& after.decrypt_key == Some(pending.decrypt_key)
                &&& after.state == before.state
                &&& after.peer == before.peer
                &&& after.tx_sequence == before.tx_sequence
                &&& after.jitter == before.jitter
            }
        }),
{
    assert(LABEL_SERVER_FIN@ =~= seq![71u8, 83, 45, 115, 101, 114, 118, 101, 114, 45, 102, 105, 110, 45, 118, 49]);
}

/// The server's keys are the client's the other way round, made of the same secret and
/// transcript, and it takes them over together with id and codec.
pub proof fn server_takes_the_other_keys(
    before: SessionView,
    peer: SocketAddress,
    secret: Seq<u8>,
    nonce: Seq<u8>,
    session_id: u32,
    codec: u8,
    hello: ClientHelloView,
)
    ensures
        ({
            let p = server_derives(peer, secret, nonce, session_id, codec, hello);
            let shared = x25519_product(secret, hello.ephemeral_public_key);
            let after = taken_over(before, p);
            &&& p.decrypt_key == hkdf_output(Some(p.transcript), shared, seq![71u8, 83, 45, 101, 110, 99, 114, 121, 112, 116, 45, 118, 49], 32)
            &&& p.encrypt_key == hkdf_output(Some(p.transcript), shared, seq![71u8, 83, 45, 100, 101, 99, 114, 121, 112, 116, 45, 118, 49], 32)
            &&& p.transcript == transcript_bytes(hello.client_nonce, nonce, session_id)
            &&& p.peer == peer && p.session_id == session_id && p.codec == codec
            &&& after.session_id == session_id
            &&& after.negotiated_codec == codec
            &&& after.encrypt_key == Some(p.encrypt_key)
            &&& after.decrypt_key == Some(p.decrypt_key)
            &&& after.state == before.state && after.peer == before.peer
            &&& after.tx_sequence == before.tx_sequence && after.jitter == before.jitter
        }),
{
    let shared = x25519_product(secret, hello.ephemeral_public_key);
    let t = transcript_bytes(hello.client_nonce, nonce, session_id);
    keys_by_direction(shared, t, Seq::empty(), Seq::empty());
}

/// A handshake begins only with a session that is new or reconnects, and its peer is set
/// then; it ends in traffic where it succeeds, and closes the session where it fails,
/// with the error that it failed with.
pub proof fn handshake_begins_and_closes(
    a: SessionView,
    b: SessionView,
    r: Result<(), TransportError>,
    role: SessionRole,
    peer: SocketAddress,
    outcome: Result<(), TransportError>,
)
    ensures
        begins(a, b, r, role, peer) ==> {
            &&& b.peer == Some(peer)
            &&& r is Ok <==> a.state is Idle || a.state is Reconnecting
            &&& r is Ok ==> b.state is Handshaking
            &&& r is Err ==> b.state == a.state
        },
        ends(a, b, r, outcome) && a.state is Handshaking ==> {
            &&& outcome is Ok ==> r is Ok && b.state is Active
            &&& outcome matches Err(e) ==> r == Err::<(), TransportError>(e) && b.state is Closed
            &&& b.peer == a.peer && b.encrypt_key == a.encrypt_key && b.session_id == a.session_id
        },
{
}

/// A client's hello goes out as a packet of its type, without a session yet, that says
/// the client's parameters.
pub proof fn hello_goes_out(
    before: SessionView,
    after: SessionView,
    r: Result<Vec<u8>, TransportError>,
    secret: Seq<u8>,
    nonce: Seq<u8>,
    now_us: u64,
)
    requires
        says_hello(before, after, r, secret, nonce, now_us),
    ensures
        r is Ok <==> before.config.mtu >= 108,
        after == before.sequence_used(),
        r matches Ok(packet) ==> {
            &&& packet_of(packet@) matches Ok((h, payload))
            &&& h.msg_type == 1 && h.session_id == 0 && h.sequence == before.tx_sequence
            &&& payload.len() == 80
            &&& payload[64] == 1
            &&& payload[65] == before.config.codec_preferred
            &&& payload.subrange(0, 32) == x25519_public(secret)
            &&& payload.subrange(32, 64) == nonce
            &&& client_hello_of(payload) == Some(hello_of(before.config, secret, nonce))
        },
{
    let m = hello_of(before.config, secret, nonce);
    let bytes = client_hello_bytes(m);
    client_hello_of_round_trip(m, Seq::empty());
    assert(bytes + Seq::<u8>::empty() =~= bytes);
    packet_round_trip(
        plain_header(
            message_code(MessageType::HandshakeClientHello),
            0,
            before.tx_sequence,
            now_us,
        ),
        bytes,
    );
}

/// What is not awaited changes nothing: a server, or a client that waits for the proof,
/// goes on waiting, and a client that waits for the hello counts an attempt.
pub proof fn waiting_goes_on(
    before: SessionView,
    after: SessionView,
    hs: ClientHandshake,
    hs_after: ClientHandshake,
    to_client: Result<Option<(Vec<u8>, ClientPending)>, TransportError>,
    confirmed: Result<bool, TransportError>,
    to_server: Result<Option<(Vec<u8>, ServerPending)>, TransportError>,
    proved: Result<Option<Vec<u8>>, TransportError>,
    client: ClientPendingView,
    server: ServerPendingView,
    peer: SocketAddress,
    from: SocketAddress,
    datagram: Seq<u8>,
    secret: Seq<u8>,
    nonce: Seq<u8>,
    session_id: u32,
    now_us: u64,
)
    ensures
        client_takes_hello(before, after, hs, hs_after, to_client, from, datagram, now_us) && (from
            != hs.server() || packet_of(datagram) is Err || datagram[4] != 2) ==> after == before
            && hs_after.attempts() >= hs.attempts() && (hs.attempts() < u32::MAX
            ==> hs_after.attempts() == hs.attempts() + 1) && hs_after.spec_secret()
            == hs.spec_secret() && hs_after.spec_nonce() == hs.spec_nonce() && (
        to_client matches Ok(none) && none is None),
        client_takes_proof(before, after, confirmed, client, from, datagram) && (from != client.peer
            || packet_of(datagram) is Err || datagram[4] != 3) ==> after == before && confirmed
            == Ok::<bool, TransportError>(false),
        server_answers(
            before,
            after,
            to_server,
            peer,
            from,
            datagram,
            secret,
            nonce,
            session_id,
            now_us,
        ) && (from != peer || packet_of(datagram) is Err || datagram[4] != 1) ==> after == before
            && (to_server matches Ok(none) && none is None),
        server_takes_proof(before, after, proved, server, from, datagram, now_us) && (from
            != server.peer || packet_of(datagram) is Err || datagram[4] != 4) ==> after == before
            && (proved matches Ok(none) && none is None),
{
    hs.retried_counts();
}

/// A client waits for an answer seven times, ever longer, and then gives up.
pub proof fn client_gives_up_after_seven_waits(
    hs: &mut ClientHandshake,
    r: Result<(), TransportError>,
    c: &ClientHandshake,
    wait_ms: u64,
)
    requires
        call_ensures(ClientHandshake::client_on_silence, (hs,), r),
        call_ensures(ClientHandshake::backoff_ms, (c,), wait_ms),
    ensures
        r is Ok <==> old(hs).attempts() < 6,
        old(hs).attempts() < u32::MAX ==> final(hs).attempts() == old(hs).attempts() + 1,
        final(hs).spec_secret() == old(hs).spec_secret(),
        final(hs).spec_nonce() == old(hs).spec_nonce(),
        final(hs).server() == old(hs).server(),
        r matches Err(e) ==> e is Handshake,
        c.attempts() == 0 ==> wait_ms == 200,
        c.attempts() == 1 ==> wait_ms == 400,
        c.attempts() == 2 ==> wait_ms == 800,
        c.attempts() == 3 ==> wait_ms == 1600,
        c.attempts() >= 4 ==> wait_ms == 3200,
{
    old(hs).retried_counts();
}

/// The codec of an answer: `server_answer` accepts the codec that the hello prefers
/// wherever the server supports it, and its own first otherwise.
pub proof fn answer_accepts_the_preferred_codec(
    s: &mut Session,
    peer: SocketAddress,
    datagram: &[u8],
    secret: [u8; 32],
    nonce: [u8; 32],
    session_id: u32,
    now_us: u64,
    r: Result<Option<(Vec<u8>, ServerPending)>, TransportError>,
    h: PacketHeader,
    payload: Seq<u8>,
)
    requires
        call_ensures(
            Session::server_answer,
            (s, peer, peer, datagram, secret, nonce, session_id, now_us),
            r,
        ),
        packet_of(datagram@) == Ok::<(PacketHeader, Seq<u8>), Error>((h, payload)),
        h.msg_type == 1,
        payload.len() >= 80,
        payload[64] >= 1,
        old(s)@.config.mtu >= 112,
        old(s)@.config.supported_codecs@.len() > 0,
    ensures
        r matches Ok(some) && some matches Some((packet, pending)) && (packet_of(
            packet@,
        ) matches Ok((k, answer)) && {
            let offered = old(s)@.config.supported_codecs@;
            &&& k.msg_type == 2
            &&& offered.contains(payload[65]) ==> answer[69] == payload[65] && pending@.codec
                == payload[65]
            &&& !offered.contains(payload[65]) ==> answer[69] == offered[0] && pending@.codec
                == offered[0]
        }),
{
    hello_is_answered(
        old(s)@,
        final(s)@,
        r,
        peer,
        datagram@,
        secret@,
        nonce@,
        session_id,
        now_us,
        h,
        payload,
    );
}

/// A handshake begins from idle or from a reconnection and sets the peer; it ends in
/// traffic or closes the session.
pub proof fn handshake_runs(
    s: &mut Session,
    role: SessionRole,
    peer: SocketAddress,
    r: Result<(), TransportError>,
    t: &mut Session,
    outcome: Result<(), TransportError>,
    q: Result<(), TransportError>,
)
    requires
        call_ensures(Session::handshake, (s, role, peer), r),
        call_ensures(Session::finish_handshake, (t, outcome), q),
        old(t)@.state is Handshaking,
    ensures
        r is Ok <==> old(s)@.state is Idle || old(s)@.state is Reconnecting,
        r is Ok ==> final(s)@.state is Handshaking,
        final(s)@.peer == Some(peer),
        outcome is Ok ==> q is Ok && final(t)@.state is Active,
        outcome matches Err(e) ==> q == Err::<(), TransportError>(e) && final(t)@.state is Closed,
{
}

} // verus!
