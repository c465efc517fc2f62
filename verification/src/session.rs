//! A session: what it sends, and what it does with what comes in.
//!
//! The functions here decide; they do no input or output. The caller moves the
//! datagrams, reads the clock and reports back what was sent. After the
//! handshake all audio is sealed with ChaCha20-Poly1305.
use bytes::Bytes;
use vstd::prelude::*;

use crate::addr::SocketAddress;
use crate::config::{frames_in, jitter_slots, slots_for, Config};
use crate::congestion::{aimd, clamped, CongestionController};
use crate::constants::{
    CONGESTION_MIN_BITRATE, FEC_WINDOW, HEADER_SIZE, HEARTBEAT_INTERVAL_MS, HEARTBEAT_TIMEOUT_MS,
    PROTOCOL_VERSION,
};
use crate::counters::Counters;
use crate::crypto::{
    aead_len_accepted, aead_len_ok, decrypt_in_place, encrypt_in_place, make_nonce, nonce_bytes,
    opened_payload, sealed_payload, SessionKey, TAG_SIZE,
};
use crate::error::Error;
use crate::fec::{
    longest, longest_attained, longest_bounds, parity_of, FecDecoder, FecDecoderView, FecEncoder, FecEncoderView, FecParity,
};
use crate::header::{header_bytes, header_round_trip, plain_header, Flags, PacketHeader};
use crate::jitter_buffer::{
    ahead, gap_leads_to_next_frame, no_gap_when_ready, Frame, FrameView, JitterBuffer, JitterView,
};
use crate::message::{
    control_bitrate_of, message_code, message_known, ControlBitrateMsg, MessageType, AUDIO_FEC,
    CONTROL_BITRATE,
};
use crate::packet::{packet_bytes, packet_of, packet_round_trip, PacketBuilder, PacketView};
use crate::payload_bytes::{bytes_as_slice, bytes_of};
use crate::session_state::{state_after, SessionEvent, SessionState, SessionStateMachine};
use crate::transport_error::TransportError;
use crate::wire::{be32, be32_at, read_u32, u32_bytes, write_bytes};

verus! {

/// A datagram that the session wants sent.
#[derive(Debug)]
pub struct Outgoing {
    pub to: SocketAddress,
    pub bytes: Vec<u8>,
    /// Sequence number of the packet.
    pub sequence: u32,
}

/// Sequence number and sender's time stamp of an audio frame that came in.
#[derive(Debug, Clone, Copy, PartialEq, Eq, Structural)]
pub struct Arrival {
    pub sequence: u32,
    pub timestamp: u64,
}

/// What a datagram brought about, apart from the change of the session.
#[derive(Debug)]
pub struct PollOutcome {
    /// A datagram to send in reply.
    pub reply: Option<Outgoing>,
    /// The audio frame that came in, for the estimators of loss and jitter.
    pub arrival: Option<Arrival>,
}

/// What a session does when nothing came in for a heartbeat interval.
#[derive(Debug)]
pub struct IdleStep {
    /// Whether the session carries traffic, so that its peer has to be checked.
    pub operational: bool,
    /// A heartbeat to send.
    pub heartbeat: Option<Outgoing>,
}

/// A session as a mathematical value.
#[verifier::ext_equal]
pub struct SessionView {
    pub state: SessionState,
    pub counters: Counters,
    pub jitter: JitterView,
    pub config: Config,
    pub peer: Option<SocketAddress>,
    pub session_id: u32,
    pub tx_sequence: u32,
    pub last_rx: u64,
    pub negotiated_codec: u8,
    pub encrypt_key: Option<Seq<u8>>,
    pub decrypt_key: Option<Seq<u8>>,
    pub bitrate: u32,
    pub fec_enc: FecEncoderView,
    pub fec_dec: FecDecoderView,
    /// Sequence numbers under which no audio comes.
    pub passed: Seq<u32>,
    /// When the last audio frame was taken out.
    pub last_out: u64,
}

/// A session with one peer.
pub struct Session {
    state: SessionStateMachine,
    counters: Counters,
    jitter: JitterBuffer,
    config: Config,
    peer: Option<SocketAddress>,
    session_id: u32,
    tx_sequence: u32,
    last_rx: u64,
    negotiated_codec: u8,
    encrypt_key: Option<SessionKey>,
    decrypt_key: Option<SessionKey>,
    congestion: CongestionController,
    fec_enc: FecEncoder,
    fec_dec: FecDecoder,
    passed: Vec<u32>,
    last_out: u64,
}

/// A key as a mathematical value.
pub open spec fn key_view(key: Option<SessionKey>) -> Option<Seq<u8>> {
    match key {
        Some(k) => Some(k@),
        None => None,
    }
}

impl View for Session {
    type V = SessionView;

    closed spec fn view(&self) -> SessionView {
        SessionView {
            state: self.state@,
            counters: self.counters,
            jitter: self.jitter@,
            config: self.config,
            peer: self.peer,
            session_id: self.session_id,
            tx_sequence: self.tx_sequence,
            last_rx: self.last_rx,
            negotiated_codec: self.negotiated_codec,
            encrypt_key: key_view(self.encrypt_key),
            decrypt_key: key_view(self.decrypt_key),
            bitrate: self.congestion.bitrate(),
            fec_enc: self.fec_enc@,
            fec_dec: self.fec_dec@,
            passed: self.passed@,
            last_out: self.last_out,
        }
    }
}

impl SessionView {
    /// A session that has not done anything yet.
    pub open spec fn fresh(config: Config) -> SessionView {
        SessionView {
            state: SessionState::Idle,
            counters: Counters::zero(),
            jitter: JitterView::fresh(
                slots_for(frames_in(config.jitter_buffer_ms, config.frame_duration_ms)) as u32,
            ),
            config,
            peer: None,
            session_id: 0,
            tx_sequence: 0,
            last_rx: 0,
            negotiated_codec: 0,
            encrypt_key: None,
            decrypt_key: None,
            bitrate: config.max_bitrate,
            fec_enc: FecEncoderView::fresh(FEC_WINDOW),
            fec_dec: FecDecoderView::fresh(FEC_WINDOW),
            passed: Seq::empty(),
            last_out: 0,
        }
    }

    /// The session after it used up a sequence number.
    pub open spec fn sequence_used(self) -> SessionView {
        SessionView { tx_sequence: self.tx_sequence.wrapping_add(1), ..self }
    }

    /// The session after it refused a packet.
    pub open spec fn refused(self) -> SessionView {
        SessionView { counters: self.counters.refused(), ..self }
    }
}

/// The bytes of a packet, where it fits the MTU and its length field.
pub open spec fn encoded(mtu: usize, header: PacketHeader, payload: Seq<u8>) -> Result<
    Seq<u8>,
    Error,
> {
    if payload.len() > 0xFFFF {
        Err(Error::PayloadTooLarge)
    } else if mtu < payload.len() + 28 {
        Err(Error::BufferTooSmall)
    } else {
        Ok(packet_bytes(header, payload))
    }
}

/// Encodes a packet for the MTU.
fn encode_packet(mtu: usize, header: PacketHeader, payload: &[u8]) -> (r: Result<Vec<u8>, Error>)
    ensures
        match encoded(mtu, header, payload@) {
            Ok(b) => r matches Ok(v) && v@ == b,
            Err(e) => r == Err::<Vec<u8>, Error>(e),
        },
{
    let mut buf: Vec<u8> = vec![0u8; mtu];
    let builder = PacketBuilder::new(header, payload);
    match builder.encode(&mut buf) {
        Ok(n) => {
            proof {
                header_round_trip(header, Seq::empty());
            }
            buf.truncate(n);
            assert(buf@ =~= packet_bytes(header, payload@));
            Ok(buf)
        },
        Err(e) => Err(e),
    }
}

/// Whether a list holds a number.
fn contains_number(list: &Vec<u32>, n: u32) -> (r: bool)
    ensures
        r == list@.contains(n),
{
    let mut i: usize = 0;
    while i < list.len()
        invariant
            i <= list@.len(),
            forall|j: int| 0 <= j < i ==> list@[j] != n,
        decreases list@.len() - i,
    {
        if list[i] == n {
            return true;
        }
        i = i + 1;
    }
    false
}

/// Seals a payload under the header that it will travel with.
fn seal(key: &SessionKey, header: &PacketHeader, plain: &[u8]) -> (r: Result<Vec<u8>, Error>)
    requires
        plain@.len() + TAG_SIZE <= usize::MAX,
        aead_len_ok(plain@.len() as int),
    ensures
        ({
            let nonce = nonce_bytes(header.sequence, header.session_id);
            let sealed = sealed_payload(key@, nonce, header_bytes(*header), plain@);
            if aead_len_accepted(plain@.len() as int) {
                &&& r matches Ok(v)
                &&& v@ == sealed
                &&& sealed.len() == plain@.len() + TAG_SIZE
                &&& opened_payload(key@, nonce, header_bytes(*header), sealed) == Some(plain@)
            } else {
                r == Err::<Vec<u8>, Error>(Error::DecryptionFailed)
            }
        }),
{
    let nonce: [u8; 12] = make_nonce(header.sequence, header.session_id);
    let mut aad: [u8; 24] = [0u8; 24];
    let _ = header.encode(&mut aad);
    proof {
        header_round_trip(*header, Seq::empty());
        assert(aad@ =~= header_bytes(*header));
    }
    let mut buf: Vec<u8> = vec![0u8; plain.len() + TAG_SIZE];
    write_bytes(&mut buf, 0, plain);
    assert(buf@.subrange(0, plain@.len() as int) =~= plain@);
    match encrypt_in_place(key, &nonce, &aad, &mut buf, plain.len()) {
        Ok(_) => {
            assert(buf@ =~= sealed_payload(key@, nonce@, aad@, plain@));
            Ok(buf)
        },
        Err(e) => Err(e),
    }
}

/// Opens the payload of a packet that came as `datagram`.
fn open(
    key: &SessionKey,
    sequence: u32,
    session_id: u32,
    datagram: &[u8],
    payload: &[u8],
) -> (r: Option<Vec<u8>>)
    requires
        datagram@.len() >= HEADER_SIZE,
        payload@.len() <= 0xFFFF,
    ensures
        match opened_payload(
            key@,
            nonce_bytes(sequence, session_id),
            datagram@.subrange(0, 24),
            payload@,
        ) {
            Some(plain) => r matches Some(v) && v@ == plain,
            None => r is None,
        },
{
    let nonce: [u8; 12] = make_nonce(sequence, session_id);
    let aad: &[u8] = vstd::slice::slice_subrange(datagram, 0, HEADER_SIZE);
    let mut tmp: Vec<u8> = vstd::slice::slice_to_vec(payload);
    assert(tmp@.subrange(0, payload@.len() as int) =~= payload@);
    match decrypt_in_place(key, &nonce, aad, &mut tmp, payload.len()) {
        Ok(n) => {
            let ghost plain = opened_payload(key@, nonce@, aad@, payload@)->0;
            tmp.truncate(n);
            assert(tmp@ =~= plain);
            Some(tmp)
        },
        Err(_) => None,
    }
}

/// The header of an audio packet or a parity packet.
pub open spec fn sealed_header(
    encrypted: bool,
    msg_type: u8,
    session_id: u32,
    sequence: u32,
    timestamp: u64,
) -> PacketHeader {
    PacketHeader {
        version: PROTOCOL_VERSION,
        flags: if encrypted {
            Flags(0b0010_0000)
        } else {
            Flags(0)
        },
        msg_type,
        session_id,
        sequence,
        timestamp,
    }
}

/// The datagram that carries an audio payload: sealed if there is a key.
pub open spec fn audio_wire(v: SessionView, payload: Seq<u8>, now_us: u64) -> Result<Seq<u8>, Error> {
    let header = sealed_header(
        v.encrypt_key is Some,
        message_code(MessageType::AudioFrame),
        v.session_id,
        v.tx_sequence,
        now_us,
    );
    match v.encrypt_key {
        Some(key) => if aead_len_accepted(payload.len() as int) {
            encoded(
                v.config.mtu,
                header,
                sealed_payload(
                    key,
                    nonce_bytes(v.tx_sequence, v.session_id),
                    header_bytes(header),
                    payload,
                ),
            )
        } else {
            Err(Error::DecryptionFailed)
        },
        None => encoded(v.config.mtu, header, payload),
    }
}

/// The audio frame that a datagram brings to the holder of `key` in session
/// `session_id`, if it brings one.
pub open spec fn frame_in(key: Option<Seq<u8>>, session_id: u32, datagram: Seq<u8>) -> Option<
    FrameView,
> {
    match packet_of(datagram) {
        Ok((h, payload)) => if h.msg_type != message_code(MessageType::AudioFrame) {
            None
        } else if !h.flags.has(Flags(0b0010_0000)) {
            Some(FrameView { sequence: h.sequence, timestamp: h.timestamp, payload })
        } else {
            match key {
                Some(k) => match opened_payload(
                    k,
                    nonce_bytes(h.sequence, session_id),
                    datagram.subrange(0, 24),
                    payload,
                ) {
                    Some(plain) => Some(
                        FrameView { sequence: h.sequence, timestamp: h.timestamp, payload: plain },
                    ),
                    None => None,
                },
                None => None,
            }
        },
        Err(_) => None,
    }
}

/// The payload of a parity packet before it is sealed.
pub open spec fn parity_payload(base: u32, window: u8, parity: Seq<u8>) -> Seq<u8> {
    be32(base) + seq![window] + parity
}

/// The datagram that carries a parity packet, where there is a key and the
/// packet fits.
pub open spec fn parity_wire(
    v: SessionView,
    base: u32,
    window: u8,
    parity: Seq<u8>,
    now_us: u64,
) -> Option<Seq<u8>> {
    let header = sealed_header(true, AUDIO_FEC, v.session_id, v.tx_sequence, now_us);
    match v.encrypt_key {
        Some(key) => match encoded(
            v.config.mtu,
            header,
            sealed_payload(
                key,
                nonce_bytes(v.tx_sequence, v.session_id),
                header_bytes(header),
                parity_payload(base, window, parity),
            ),
        ) {
            Ok(b) => Some(b),
            Err(_) => None,
        },
        None => None,
    }
}

/// What a parity packet brings to the holder of `key`: the first sequence of its
/// group and the parity, where it opens and is long enough.
pub open spec fn parity_in(plain: Seq<u8>) -> Option<(u32, Seq<u8>)> {
    if plain.len() >= 5 {
        Some((be32_at(plain, 0), plain.subrange(5, plain.len() as int)))
    } else {
        None
    }
}

/// The session after a valid packet of any kind: it remembers the time.
pub open spec fn heard(v: SessionView, n: nat, now_us: u64) -> SessionView {
    SessionView { counters: v.counters.received(n as u64), last_rx: now_us, ..v }
}

/// Whether the stream has waited for the depth of the jitter buffer.
pub open spec fn overdue(v: SessionView, now_us: u64) -> bool {
    now_us - v.last_out >= v.config.jitter_buffer_ms * 1_000 || v.config.jitter_buffer_ms == 0
}

/// The buffer once the stream may go on: at the next frame that waits, if that is
/// under the cursor or overdue.
pub open spec fn caught_up(v: SessionView, now_us: u64) -> Option<JitterView> {
    let gap = v.jitter.gap(0);
    if gap >= v.jitter.capacity || (gap > 0 && !overdue(v, now_us)) {
        None
    } else if gap > 0 {
        Some(v.jitter.skipped(gap))
    } else {
        Some(v.jitter)
    }
}

/// The audio frame that comes out next, if one may.
pub open spec fn delivery(v: SessionView, now_us: u64) -> Option<FrameView> {
    match caught_up(v, now_us) {
        Some(j) => Some(j.frames[j.next]),
        None => None,
    }
}

/// The session after that.
pub open spec fn after_delivery(v: SessionView, now_us: u64) -> SessionView {
    match caught_up(v, now_us) {
        Some(j) => SessionView {
            jitter: settled(j.popped(), v.passed, v.jitter.capacity as nat),
            last_out: now_us,
            ..v
        },
        None => v,
    }
}

/// The session after an audio frame came.
pub open spec fn with_frame(v: SessionView, frame: FrameView) -> SessionView {
    SessionView {
        fec_dec: v.fec_dec.with_data(frame.sequence, frame.payload),
        jitter: v.jitter.pushed(frame),
        ..v
    }
}

/// The numbers of a list that lie ahead of the cursor, within the buffer.
pub open spec fn still_ahead(j: JitterView, passed: Seq<u32>) -> Seq<u32>
    decreases passed.len(),
{
    if passed.len() == 0 {
        passed
    } else if ahead(passed.last(), j.next) < j.capacity {
        still_ahead(j, passed.drop_last()).push(passed.last())
    } else {
        still_ahead(j, passed.drop_last())
    }
}

/// The buffer with its cursor moved on over up to `n` numbers under which no
/// audio comes.
pub open spec fn settled(j: JitterView, passed: Seq<u32>, n: nat) -> JitterView
    decreases n,
{
    if n > 0 && !j.ready() && passed.contains(j.next) {
        settled(j.skipped(1), passed, (n - 1) as nat)
    } else {
        j
    }
}

/// The list with a number in it; numbers that are behind the cursor, or too far
/// ahead, leave it.
pub open spec fn noted(j: JitterView, passed: Seq<u32>, sequence: u32) -> Seq<u32> {
    let kept = still_ahead(j, passed);
    if kept.contains(sequence) {
        kept
    } else {
        kept.push(sequence)
    }
}

/// The session after it learned that no audio comes under `sequence`.
pub open spec fn with_passed(v: SessionView, sequence: u32) -> SessionView {
    let passed = noted(v.jitter, v.passed, sequence);
    SessionView { passed, jitter: settled(v.jitter, passed, v.jitter.capacity as nat), ..v }
}

/// The session after a parity came: a frame that it restores joins the jitter
/// buffer, with time stamp zero.
pub open spec fn with_parity(v: SessionView, base: u32, parity: Seq<u8>) -> SessionView {
    SessionView {
        jitter: match v.fec_dec.recovered(base, parity) {
            Some((sequence, payload)) => v.jitter.pushed(
                FrameView { sequence, timestamp: 0, payload },
            ),
            None => v.jitter,
        },
        ..v
    }
}

/// The session after a parity packet came as `datagram`. One that is not sealed,
/// or that comes before there is a key, is passed over. One that opens takes its
/// number out of the audio stream.
pub open spec fn with_parity_packet(
    v: SessionView,
    h: PacketHeader,
    payload: Seq<u8>,
    datagram: Seq<u8>,
) -> SessionView {
    if !h.flags.has(Flags(0b0010_0000)) {
        v
    } else {
        match v.decrypt_key {
            None => v,
            Some(key) => match opened_payload(
                key,
                nonce_bytes(h.sequence, v.session_id),
                datagram.subrange(0, 24),
                payload,
            ) {
                None => v.refused(),
                Some(plain) => match parity_in(plain) {
                    Some((base, parity)) => with_passed(with_parity(v, base, parity), h.sequence),
                    None => with_passed(v, h.sequence),
                },
            },
        }
    }
}

/// The session after `datagram` came at `now_us`.
pub open spec fn after_datagram(v: SessionView, datagram: Seq<u8>, now_us: u64) -> SessionView {
    match packet_of(datagram) {
        Err(_) => SessionView {
            counters: v.counters.received(datagram.len() as u64),
            ..v
        }.refused(),
        Ok((h, payload)) => {
            let w = heard(v, datagram.len(), now_us);
            if h.msg_type == message_code(MessageType::AudioFrame) {
                match frame_in(v.decrypt_key, v.session_id, datagram) {
                    Some(frame) => with_frame(w, frame),
                    None => w.refused(),
                }
            } else if h.msg_type == message_code(MessageType::Heartbeat) {
                if v.peer is Some {
                    w.sequence_used()
                } else {
                    w
                }
            } else if h.msg_type == AUDIO_FEC {
                with_parity_packet(w, h, payload, datagram)
            } else if h.msg_type == CONTROL_BITRATE {
                match control_bitrate_of(payload) {
                    Some(m) => SessionView {
                        bitrate: clamped(
                            m.requested_bitrate as int,
                            CONGESTION_MIN_BITRATE as int,
                            v.config.max_bitrate as int,
                        ) as u32,
                        ..w
                    },
                    None => w,
                }
            } else if h.msg_type == message_code(MessageType::Close) {
                SessionView { state: state_after(v.state, SessionEvent::PeerClosed), ..w }
            } else if message_known(h.msg_type) {
                w
            } else {
                w.refused()
            }
        },
    }
}

/// Whoever decrypts with `key` in session `session_id` gets from `datagram`, which
/// has this number, the parity of the group at `base`.
#[verifier::opaque]
pub open spec fn parity_reaches(
    datagram: Seq<u8>,
    key: Option<Seq<u8>>,
    session_id: u32,
    number: u32,
    base: u32,
    parity: Seq<u8>,
) -> bool {
    forall|receiver: SessionView, received_us: u64|
        receiver.decrypt_key == key && receiver.session_id == session_id
            ==> #[trigger] after_datagram(receiver, datagram, received_us) == with_passed(
            with_parity(heard(receiver, datagram.len(), received_us), base, parity),
            number,
        )
}

/// Whoever decrypts with `key` in session `session_id` gets from `datagram` exactly
/// this frame.
#[verifier::opaque]
pub open spec fn audio_reaches(
    datagram: Seq<u8>,
    key: Option<Seq<u8>>,
    session_id: u32,
    frame: FrameView,
) -> bool {
    forall|receiver: SessionView, received_us: u64|
        receiver.decrypt_key == key && receiver.session_id == session_id
            ==> #[trigger] after_datagram(receiver, datagram, received_us) == with_frame(
            heard(receiver, datagram.len(), received_us),
            frame,
        )
}

/// Whether an audio payload fits a sealed packet: with its tag it does not exceed
/// the length field, and with header and checksum not the MTU.
pub open spec fn audio_fits(v: SessionView, payload: Seq<u8>) -> bool {
    &&& payload.len() + 16 <= 0xFFFF
    &&& payload.len() + 44 <= v.config.mtu
}

/// Why an audio payload that does not fit a sealed packet is refused.
pub open spec fn audio_refusal(payload: Seq<u8>) -> Error {
    if !aead_len_accepted(payload.len() as int) {
        Error::DecryptionFailed
    } else if payload.len() + 16 > 0xFFFF {
        Error::PayloadTooLarge
    } else {
        Error::BufferTooSmall
    }
}

/// Whether the parity packet goes out of the group that `payload` closes: there is
/// a key, and the packet, which is as long as the longest payload of the group and
/// five bytes, fits.
pub open spec fn parity_fits(v: SessionView, payload: Seq<u8>) -> bool {
    let group = v.fec_enc.frames.push(payload);
    &&& v.encrypt_key is Some
    &&& longest(group) + 21 <= 0xFFFF
    &&& longest(group) + 49 <= v.config.mtu
}

/// What the report of an audio frame that went out does: from `before` to `after`,
/// with the parity packet that comes back.
pub open spec fn frame_joins(
    before: SessionView,
    after: SessionView,
    sent: usize,
    sequence: u32,
    payload: Seq<u8>,
    now_us: u64,
    packet: Option<Seq<u8>>,
) -> bool {
    let enc = before.fec_enc;
    let joined = SessionView {
        counters: before.counters.sent(sent as u64),
        fec_enc: enc.pushed(sequence, payload),
        ..before
    };
    if enc.fills() {
        let base = enc.base_on(sequence);
        let parity = parity_of(enc.frames.push(payload));
        &&& after == joined.sequence_used()
        &&& packet == parity_wire(before, base, enc.window, parity, now_us)
        &&& packet is Some <==> parity_fits(before, payload)
        &&& packet matches Some(b) ==> parity_reaches(
            b,
            before.encrypt_key,
            before.session_id,
            before.tx_sequence,
            base,
            parity,
        )
    } else {
        after == joined && packet is None
    }
}

/// Whether `datagram` is a valid packet of this type.
pub open spec fn is_packet(datagram: Seq<u8>, msg_type: u8) -> bool {
    packet_of(datagram) matches Ok((h, _)) && h.msg_type == msg_type
}

/// The answer to a heartbeat.
pub open spec fn heartbeat_ack(v: SessionView, now_us: u64) -> Result<Seq<u8>, Error> {
    encoded(
        v.config.mtu,
        plain_header(
            message_code(MessageType::HeartbeatAck),
            v.session_id,
            v.tx_sequence,
            now_us,
        ),
        Seq::empty(),
    )
}

/// Whether the peer has been silent for too long. Before anything came in there
/// is nothing to measure from.
pub open spec fn peer_silent(v: SessionView, now_us: u64) -> bool {
    v.last_rx != 0 && now_us - v.last_rx > HEARTBEAT_TIMEOUT_MS * 1_000
}

/// The heartbeat of a session.
pub open spec fn heartbeat(v: SessionView, now_us: u64) -> Result<Seq<u8>, Error> {
    encoded(
        v.config.mtu,
        plain_header(message_code(MessageType::Heartbeat), v.session_id, v.tx_sequence, now_us),
        Seq::empty(),
    )
}

/// The farewell of a session.
pub open spec fn farewell(v: SessionView, now_us: u64) -> Result<Seq<u8>, Error> {
    encoded(
        v.config.mtu,
        plain_header(message_code(MessageType::Close), v.session_id, v.tx_sequence, now_us),
        Seq::empty(),
    )
}

/// A datagram that is no valid packet changes nothing but the counters.
pub proof fn malformed_packet_only_counted(v: SessionView, datagram: Seq<u8>, now_us: u64)
    requires
        packet_of(datagram) is Err,
    ensures
        after_datagram(v, datagram, now_us) == (SessionView {
            counters: v.counters.received(datagram.len() as u64).refused(),
            ..v
        }),
{
}

/// An audio packet that does not open under the session's key is counted, and
/// brings nothing to the jitter buffer.
pub proof fn unopened_audio_only_counted(
    v: SessionView,
    h: PacketHeader,
    payload: Seq<u8>,
    datagram: Seq<u8>,
    now_us: u64,
)
    requires
        packet_of(datagram) == Ok::<(PacketHeader, Seq<u8>), Error>((h, payload)),
        h.msg_type == message_code(MessageType::AudioFrame),
        h.flags.has(Flags(0b0010_0000)),
        v.decrypt_key matches Some(key) ==> opened_payload(
            key,
            nonce_bytes(h.sequence, v.session_id),
            datagram.subrange(0, 24),
            payload,
        ) is None,
    ensures
        after_datagram(v, datagram, now_us) == heard(v, datagram.len(), now_us).refused(),
{
}

impl Session {
    /// The parts of the session keep their invariants.
    pub closed spec fn wf(self) -> bool {
        &&& self.jitter.wf()
        &&& self.congestion.wf()
        &&& self.congestion.low() == CONGESTION_MIN_BITRATE
        &&& self.congestion.high() == self.config.max_bitrate
        &&& self.fec_enc.wf()
        &&& longest(self.fec_enc@.frames) <= 0xFFFF
        &&& self.fec_dec.wf()
    }

    /// A session with no peer yet.
    pub fn new(config: Config) -> (r: Session)
        requires
            config.usable(),
        ensures
            r.wf(),
            r@ == SessionView::fresh(config),
    {
        let depth: u32 = jitter_slots(config.jitter_buffer_ms, config.frame_duration_ms);
        let max_bitrate: u32 = config.max_bitrate;
        Session {
            state: SessionStateMachine::new(),
            counters: Counters::new(),
            jitter: JitterBuffer::new(depth),
            config,
            peer: None,
            session_id: 0,
            tx_sequence: 0,
            last_rx: 0,
            negotiated_codec: 0,
            encrypt_key: None,
            decrypt_key: None,
            congestion: CongestionController::new(max_bitrate, CONGESTION_MIN_BITRATE, max_bitrate),
            fec_enc: FecEncoder::with_default_window(),
            fec_dec: FecDecoder::with_default_window(),
            passed: Vec::new(),
            last_out: 0,
        }
    }

    /// The bitrate keeps between the protocol's floor and the ceiling that the
    /// session was made with.
    pub proof fn bitrate_in_bounds(self)
        requires
            self.wf(),
        ensures
            CONGESTION_MIN_BITRATE <= self@.bitrate <= self@.config.max_bitrate,
    {
    }

    /// Codec agreed on in the handshake; zero before.
    pub fn negotiated_codec(&self) -> (r: u8)
        ensures
            r == self@.negotiated_codec,
    {
        self.negotiated_codec
    }

    /// Bitrate that congestion control has settled on.
    pub fn current_bitrate(&self) -> (r: u32)
        ensures
            r == self@.bitrate,
    {
        self.congestion.current_bitrate()
    }

    /// The parameters of the session.
    pub fn config(&self) -> (r: &Config)
        ensures
            *r == self@.config,
    {
        &self.config
    }

    /// The traffic counters.
    pub fn metrics(&self) -> (r: Counters)
        ensures
            r == self@.counters,
    {
        self.counters
    }

    /// The jitter buffer.
    pub fn jitter_buffer(&self) -> (r: &JitterBuffer)
        requires
            self.wf(),
        ensures
            r.wf(),
            r@ == self@.jitter,
    {
        &self.jitter
    }

    /// The current state.
    pub fn state(&self) -> (r: SessionState)
        ensures
            r == self@.state,
    {
        self.state.state()
    }

    /// Session id agreed on in the handshake; zero before.
    pub fn session_id(&self) -> (r: u32)
        ensures
            r == self@.session_id,
    {
        self.session_id
    }

    /// The peer, once a handshake has begun.
    pub fn peer(&self) -> (r: Option<SocketAddress>)
        ensures
            r == self@.peer,
    {
        self.peer
    }

    /// Counts a datagram of `n` bytes that went out.
    pub fn record_sent(&mut self, n: usize)
        requires
            old(self).wf(),
        ensures
            final(self).wf(),
            final(self)@ == (SessionView {
                counters: old(self)@.counters.sent(n as u64),
                ..old(self)@
            }),
    {
        self.counters.record_sent(n as u64);
    }

    /// Sets the peer.
    pub(crate) fn set_peer(&mut self, peer: SocketAddress)
        requires
            old(self).wf(),
        ensures
            final(self).wf(),
            final(self)@ == (SessionView { peer: Some(peer), ..old(self)@ }),
    {
        self.peer = Some(peer);
    }

    /// Sets the session id.
    pub(crate) fn set_session_id(&mut self, session_id: u32)
        requires
            old(self).wf(),
        ensures
            final(self).wf(),
            final(self)@ == (SessionView { session_id, ..old(self)@ }),
    {
        self.session_id = session_id;
    }

    /// Sets the codec.
    pub(crate) fn set_codec(&mut self, codec: u8)
        requires
            old(self).wf(),
        ensures
            final(self).wf(),
            final(self)@ == (SessionView { negotiated_codec: codec, ..old(self)@ }),
    {
        self.negotiated_codec = codec;
    }

    /// Sets the keys of both directions.
    pub(crate) fn set_keys(&mut self, encrypt: SessionKey, decrypt: SessionKey)
        requires
            old(self).wf(),
        ensures
            final(self).wf(),
            final(self)@ == (SessionView {
                encrypt_key: Some(encrypt@),
                decrypt_key: Some(decrypt@),
                ..old(self)@
            }),
    {
        self.encrypt_key = Some(encrypt);
        self.decrypt_key = Some(decrypt);
    }

    /// Applies an event to the state; returns whether the state admitted it.
    pub(crate) fn apply(&mut self, event: SessionEvent) -> (r: bool)
        requires
            old(self).wf(),
        ensures
            final(self).wf(),
            final(self)@ == (SessionView {
                state: state_after(old(self)@.state, event),
                ..old(self)@
            }),
            r == (crate::session_state::next_state(old(self)@.state, event) is Some),
    {
        match self.state.transition(event) {
            Ok(_) => true,
            Err(_) => false,
        }
    }

    /// Builds a packet that is not sealed. It uses up a sequence number even
    /// where it does not fit the MTU.
    pub(crate) fn send_control(
        &mut self,
        msg: MessageType,
        session_id: u32,
        payload: &[u8],
        now_us: u64,
    ) -> (r: Result<Vec<u8>, TransportError>)
        requires
            old(self).wf(),
        ensures
            final(self).wf(),
            final(self)@ == old(self)@.sequence_used(),
            match encoded(
                old(self)@.config.mtu,
                plain_header(message_code(msg), session_id, old(self)@.tx_sequence, now_us),
                payload@,
            ) {
                Ok(b) => r matches Ok(v) && v@ == b,
                Err(e) => r == Err::<Vec<u8>, TransportError>(TransportError::Protocol(e)),
            },
    {
        let seq: u32 = self.tx_sequence;
        self.tx_sequence = seq.wrapping_add(1);
        let header = PacketHeader::new(msg.code(), session_id, seq, now_us);
        match encode_packet(self.config.mtu, header, payload) {
            Ok(b) => Ok(b),
            Err(e) => Err(TransportError::Protocol(e)),
        }
    }

    /// Builds the packet of an audio frame. The session has to be active.
    ///
    /// Whoever holds the key that this session encrypts with finds in the packet
    /// the payload, the sequence number and the time it was given, and puts that
    /// frame into its jitter buffer.
    pub fn send_audio(&mut self, payload: &[u8], now_us: u64) -> (r: Result<
        Outgoing,
        TransportError,
    >)
        requires
            old(self).wf(),
            payload@.len() + TAG_SIZE <= usize::MAX,
            aead_len_ok(payload@.len() as int),
        ensures
            final(self).wf(),
            !(old(self)@.state is Active) ==> final(self)@ == old(self)@ && r == Err::<
                Outgoing,
                TransportError,
            >(TransportError::InvalidState("not active")),
            old(self)@.state is Active && old(self)@.peer is None ==> final(self)@ == old(self)@
                && r == Err::<Outgoing, TransportError>(TransportError::InvalidState("no peer")),
            old(self)@.state is Active && old(self)@.peer is Some ==> {
                &&& final(self)@ == old(self)@.sequence_used()
                &&& old(self)@.encrypt_key is Some ==> if audio_fits(old(self)@, payload@) {
                    r is Ok
                } else {
                    r == Err::<Outgoing, TransportError>(
                        TransportError::Protocol(audio_refusal(payload@)),
                    )
                }
                &&& match audio_wire(old(self)@, payload@, now_us) {
                    Ok(b) => {
                        &&& r matches Ok(out)
                        &&& out.bytes@ == b
                        &&& Some(out.to) == old(self)@.peer
                        &&& out.sequence == old(self)@.tx_sequence
                        &&& payload@.len() <= 0xFFFF
                        &&& frame_in(old(self)@.encrypt_key, old(self)@.session_id, b) == Some(
                            FrameView {
                                sequence: out.sequence,
                                timestamp: now_us,
                                payload: payload@,
                            },
                        )
                        &&& audio_reaches(
                            b,
                            old(self)@.encrypt_key,
                            old(self)@.session_id,
                            FrameView {
                                sequence: out.sequence,
                                timestamp: now_us,
                                payload: payload@,
                            },
                        )
                    },
                    Err(e) => r == Err::<Outgoing, TransportError>(TransportError::Protocol(e)),
                }
            },
    {
        if self.state.state() != SessionState::Active {
            return Err(TransportError::InvalidState("not active"));
        }
        let to: SocketAddress = match self.peer {
            Some(p) => p,
            None => return Err(TransportError::InvalidState("no peer")),
        };
        let seq: u32 = self.tx_sequence;
        self.tx_sequence = seq.wrapping_add(1);
        let mut header = PacketHeader::new(MessageType::AudioFrame.code(), self.session_id, seq, now_us);
        assert(0x20u8 & 0x20 == 0x20 && 0u8 & 0x20 != 0x20) by (bit_vector);
        match &self.encrypt_key {
            Some(key) => {
                header.flags = Flags::encrypted();
                let sealed: Vec<u8> = match seal(key, &header, payload) {
                    Ok(v) => v,
                    Err(e) => return Err(TransportError::Protocol(e)),
                };
                match encode_packet(self.config.mtu, header, &sealed) {
                    Ok(bytes) => {
                        proof {
                            reveal(audio_reaches);
                            packet_round_trip(header, sealed@);
                        }
                        Ok(Outgoing { to, bytes, sequence: seq })
                    },
                    Err(e) => Err(TransportError::Protocol(e)),
                }
            },
            None => {
                match encode_packet(self.config.mtu, header, payload) {
                    Ok(bytes) => {
                        proof {
                            reveal(audio_reaches);
                            packet_round_trip(header, payload@);
                        }
                        Ok(Outgoing { to, bytes, sequence: seq })
                    },
                    Err(e) => Err(TransportError::Protocol(e)),
                }
            },
        }
    }

    /// Reports that the datagram of an audio frame went out with `sent` bytes.
    ///
    /// The frame joins the parity group. Where it fills the group, the parity packet
    /// comes back, if there is a key and the packet fits. It brings the parity to
    /// whoever decrypts with the key that this session encrypts with.
    pub fn audio_sent(&mut self, sent: usize, sequence: u32, payload: &[u8], now_us: u64) -> (r:
        Option<Vec<u8>>)
        requires
            old(self).wf(),
            payload@.len() <= 0xFFFF,
        ensures
            final(self).wf(),
            r is Some <==> old(self)@.fec_enc.fills() && parity_fits(old(self)@, payload@),
            match r {
                Some(v) => frame_joins(
                    old(self)@,
                    final(self)@,
                    sent,
                    sequence,
                    payload@,
                    now_us,
                    Some(v@),
                ),
                None => frame_joins(
                    old(self)@,
                    final(self)@,
                    sent,
                    sequence,
                    payload@,
                    now_us,
                    None,
                ),
            },
    {
        let ghost enc = self.fec_enc@;
        proof {
            assert(enc.frames.push(payload@).drop_last() =~= enc.frames);
            assert(longest(Seq::<Seq<u8>>::empty()) == 0);
            assert(longest(enc.frames.push(payload@)) <= 0xFFFF);
        }
        self.counters.record_sent(sent as u64);
        match self.fec_enc.push(sequence, payload) {
            Some(parity) => {
                let ghost joined = self@;
                assert(joined == (SessionView {
                    counters: old(self)@.counters.sent(sent as u64),
                    fec_enc: enc.pushed(sequence, payload@),
                    ..old(self)@
                }));
                self.send_fec_parity(parity, now_us)
            },
            None => None,
        }
    }

    /// Builds a parity packet. It uses up a sequence number even where there is
    /// no key.
    fn send_fec_parity(&mut self, parity: FecParity, now_us: u64) -> (r: Option<Vec<u8>>)
        requires
            old(self).wf(),
            bytes_of(parity.payload).len() <= 0xFFFF,
        ensures
            final(self).wf(),
            final(self)@ == old(self)@.sequence_used(),
            r is Some <==> {
                &&& old(self)@.encrypt_key is Some
                &&& bytes_of(parity.payload).len() + 21 <= 0xFFFF
                &&& bytes_of(parity.payload).len() + 49 <= old(self)@.config.mtu
            },
            match parity_wire(
                old(self)@,
                parity.seq_base,
                parity.window,
                bytes_of(parity.payload),
                now_us,
            ) {
                Some(b) => {
                    &&& r matches Some(v)
                    &&& v@ == b
                    &&& parity_reaches(
                        b,
                        old(self)@.encrypt_key,
                        old(self)@.session_id,
                        old(self)@.tx_sequence,
                        parity.seq_base,
                        bytes_of(parity.payload),
                    )
                },
                None => r is None,
            },
    {
        let base: [u8; 4] = u32_bytes(parity.seq_base);
        let mut plain: Vec<u8> = vstd::slice::slice_to_vec(&base);
        plain.push(parity.window);
        plain.extend_from_slice(bytes_as_slice(&parity.payload));
        assert(plain@ =~= parity_payload(parity.seq_base, parity.window, bytes_of(parity.payload)));
        let seq: u32 = self.tx_sequence;
        self.tx_sequence = seq.wrapping_add(1);
        let mut header = PacketHeader::new(AUDIO_FEC, self.session_id, seq, now_us);
        header.flags = Flags::encrypted();
        match &self.encrypt_key {
            Some(key) => {
                let sealed: Vec<u8> = match seal(key, &header, &plain) {
                    Ok(v) => v,
                    Err(_) => return None,
                };
                match encode_packet(self.config.mtu, header, &sealed) {
                    Ok(bytes) => {
                        proof {
                            reveal(parity_reaches);
                            packet_round_trip(header, sealed@);
                            assert(0x20u8 & 0x20 == 0x20) by (bit_vector);
                            let parity_bytes = bytes_of(parity.payload);
                            let sent = parity_payload(parity.seq_base, parity.window, parity_bytes);
                            assert(sent.subrange(0, 4) =~= be32(parity.seq_base));
                            crate::wire::be32_round_trip(sent, 0, parity.seq_base);
                            assert(sent.subrange(5, sent.len() as int) =~= parity_bytes);
                        }
                        Some(bytes)
                    },
                    Err(_) => None,
                }
            },
            None => None,
        }
    }

    /// Takes out the next audio frame in order. Where it is missing and none was
    /// taken for the depth of the jitter buffer, the stream goes on with the next
    /// frame that waits.
    pub fn recv_audio(&mut self, now_us: u64) -> (r: Option<Frame>)
        requires
            old(self).wf(),
        ensures
            final(self).wf(),
            match r {
                Some(f) => delivery(old(self)@, now_us) == Some(f@),
                None => delivery(old(self)@, now_us) is None,
            },
            final(self)@ == after_delivery(old(self)@, now_us),
    {
        let ghost before = self@;
        let gap: u32 = self.jitter.gap();
        proof {
            self.jitter.capacity_positive();
            no_gap_when_ready(self.jitter@);
            gap_leads_to_next_frame(self.jitter@, 0);
        }
        if gap >= self.jitter.capacity() {
            return None;
        }
        if gap > 0 {
            let depth_us: u64 = self.config.jitter_buffer_ms as u64 * 1_000;
            if now_us.saturating_sub(self.last_out) < depth_us {
                return None;
            }
            proof {
                self.jitter.waiting_frames_in_window(before.jitter.next.wrapping_add(gap));
            }
            self.jitter.skip(gap);
        }
        let frame: Option<Frame> = self.jitter.pop();
        self.last_out = now_us;
        self.settle();
        frame
    }

    /// Takes an audio packet: opens it if it is sealed, and hands the frame to
    /// the decoder of parity and to the jitter buffer.
    fn take_audio(&mut self, datagram: &[u8], view: &PacketView) -> (r: Option<Arrival>)
        requires
            old(self).wf(),
            packet_of(datagram@) == Ok::<(PacketHeader, Seq<u8>), Error>(
                (view.spec_header(), view.spec_payload()),
            ),
            view.spec_header().msg_type == message_code(MessageType::AudioFrame),
        ensures
            final(self).wf(),
            match frame_in(old(self)@.decrypt_key, old(self)@.session_id, datagram@) {
                Some(frame) => {
                    &&& final(self)@ == with_frame(old(self)@, frame)
                    &&& r == Some(
                        Arrival { sequence: frame.sequence, timestamp: frame.timestamp },
                    )
                },
                None => final(self)@ == old(self)@.refused() && r is None,
            },
    {
        let header: PacketHeader = *view.header();
        let payload: &[u8] = view.payload();
        let plain: Bytes = if header.flags.contains(Flags::encrypted()) {
            match &self.decrypt_key {
                Some(key) => match open(key, header.sequence, self.session_id, datagram, payload) {
                    Some(v) => Bytes::copy_from_slice(&v),
                    None => {
                        self.counters.record_integrity_error();
                        return None;
                    },
                },
                None => {
                    self.counters.record_integrity_error();
                    return None;
                },
            }
        } else {
            Bytes::copy_from_slice(payload)
        };
        let frame = Frame {
            sequence: header.sequence,
            timestamp: header.timestamp,
            payload: plain.clone(),
        };
        let _ = self.fec_dec.push_data(header.sequence, plain);
        let _ = self.jitter.push(frame);
        Some(Arrival { sequence: header.sequence, timestamp: header.timestamp })
    }

    /// Takes a parity packet: opens it and hands a frame that it restores to the
    /// jitter buffer.
    fn take_parity(&mut self, datagram: &[u8], view: &PacketView)
        requires
            old(self).wf(),
            packet_of(datagram@) == Ok::<(PacketHeader, Seq<u8>), Error>(
                (view.spec_header(), view.spec_payload()),
            ),
        ensures
            final(self).wf(),
            final(self)@ == with_parity_packet(
                old(self)@,
                view.spec_header(),
                view.spec_payload(),
                datagram@,
            ),
    {
        let header: PacketHeader = *view.header();
        if !header.flags.contains(Flags::encrypted()) {
            return;
        }
        let opened: Option<Vec<u8>> = match &self.decrypt_key {
            Some(key) => open(key, header.sequence, self.session_id, datagram, view.payload()),
            None => return,
        };
        match opened {
            Some(plain) => {
                if plain.len() >= 5 {
                    let parity = FecParity {
                        seq_base: read_u32(&plain, 0),
                        window: plain[4],
                        payload: Bytes::copy_from_slice(
                            vstd::slice::slice_subrange(&plain, 5, plain.len()),
                        ),
                    };
                    if let Some((sequence, payload)) = self.fec_dec.push_parity(parity) {
                        let _ = self.jitter.push(Frame { sequence, timestamp: 0, payload });
                    }
                }
                self.pass(header.sequence);
            },
            None => {
                self.counters.record_integrity_error();
            },
        }
    }

    /// Takes note that no audio comes under `sequence`.
    fn pass(&mut self, sequence: u32)
        requires
            old(self).wf(),
        ensures
            final(self).wf(),
            final(self)@ == with_passed(old(self)@, sequence),
    {
        let next: u32 = self.jitter.next_sequence();
        let capacity: u32 = self.jitter.capacity();
        let mut kept: Vec<u32> = Vec::new();
        let mut i: usize = 0;
        let ghost all = self.passed@;
        while i < self.passed.len()
            invariant
                i <= self.passed@.len(),
                all == self.passed@,
                next == self.jitter@.next,
                capacity == self.jitter@.capacity,
                kept@ == still_ahead(self.jitter@, all.take(i as int)),
            decreases all.len() - i,
        {
            assert(all.take(i + 1).drop_last() =~= all.take(i as int));
            if self.passed[i].wrapping_sub(next) < capacity {
                kept.push(self.passed[i]);
            }
            i = i + 1;
        }
        assert(all.take(i as int) =~= all);
        if !contains_number(&kept, sequence) {
            kept.push(sequence);
        }
        self.passed = kept;
        self.settle();
    }

    /// Moves the cursor on over numbers under which no audio comes.
    fn settle(&mut self)
        requires
            old(self).wf(),
        ensures
            final(self).wf(),
            final(self)@ == (SessionView {
                jitter: settled(
                    old(self)@.jitter,
                    old(self)@.passed,
                    old(self)@.jitter.capacity as nat,
                ),
                ..old(self)@
            }),
    {
        let ghost before = self@;
        let capacity: u32 = self.jitter.capacity();
        let mut k: u32 = 0;
        proof {
            self.jitter.capacity_positive();
            no_gap_when_ready(self.jitter@);
        }
        while k < capacity && self.jitter.gap() != 0 && contains_number(
            &self.passed,
            self.jitter.next_sequence(),
        )
            invariant
                k <= capacity,
                capacity == before.jitter.capacity,
                capacity == self.jitter@.capacity,
                self.wf(),
                settled(before.jitter, before.passed, capacity as nat) == settled(
                    self.jitter@,
                    before.passed,
                    (capacity - k) as nat,
                ),
                self@ == (SessionView { jitter: self.jitter@, ..before }),
                self.jitter@.gap(0) == 0 <==> self.jitter@.ready(),
            decreases capacity - k,
        {
            self.jitter.skip(1);
            k = k + 1;
            proof {
                self.jitter.capacity_positive();
                no_gap_when_ready(self.jitter@);
            }
        }
    }

    /// Handles one datagram.
    ///
    /// A malformed packet, an unknown type or an audio packet that does not open
    /// is counted and dropped. A heartbeat is answered, and a close ends the
    /// session.
    pub fn poll_once(&mut self, datagram: &[u8], now_us: u64) -> (r: Result<
        PollOutcome,
        TransportError,
    >)
        requires
            old(self).wf(),
        ensures
            final(self).wf(),
            final(self)@ == after_datagram(old(self)@, datagram@, now_us),
            is_packet(datagram@, message_code(MessageType::Close)) ==> r == Err::<
                PollOutcome,
                TransportError,
            >(TransportError::PeerClosed("remote close")),
            is_packet(datagram@, message_code(MessageType::Heartbeat)) ==> match old(self)@.peer {
                Some(peer) => match heartbeat_ack(old(self)@, now_us) {
                    Ok(b) => {
                        &&& r matches Ok(out)
                        &&& out.arrival is None
                        &&& out.reply matches Some(reply)
                        &&& reply.bytes@ == b
                        &&& reply.to == peer
                        &&& reply.sequence == old(self)@.tx_sequence
                    },
                    Err(e) => r == Err::<PollOutcome, TransportError>(TransportError::Protocol(e)),
                },
                None => r matches Ok(out) && out.reply is None && out.arrival is None,
            },
            !is_packet(datagram@, message_code(MessageType::Close)) && !is_packet(
                datagram@,
                message_code(MessageType::Heartbeat),
            ) ==> {
                &&& r matches Ok(out)
                &&& out.reply is None
                &&& out.arrival == match frame_in(
                    old(self)@.decrypt_key,
                    old(self)@.session_id,
                    datagram@,
                ) {
                    Some(f) => Some(Arrival { sequence: f.sequence, timestamp: f.timestamp }),
                    None => None::<Arrival>,
                }
            },
    {
        self.counters.record_received(datagram.len() as u64);
        let view: PacketView = match PacketView::decode(datagram) {
            Ok(v) => v,
            Err(_) => {
                self.counters.record_integrity_error();
                return Ok(PollOutcome { reply: None, arrival: None });
            },
        };
        self.last_rx = now_us;
        let mt: u8 = view.header().msg_type;
        if mt == AUDIO_FEC {
            self.take_parity(datagram, &view);
            return Ok(PollOutcome { reply: None, arrival: None });
        }
        if mt == CONTROL_BITRATE {
            if let Ok(msg) = ControlBitrateMsg::decode(view.payload()) {
                self.congestion.set_bitrate(msg.requested_bitrate);
            }
            return Ok(PollOutcome { reply: None, arrival: None });
        }
        match MessageType::from_code(mt) {
            Ok(MessageType::AudioFrame) => {
                let arrival: Option<Arrival> = self.take_audio(datagram, &view);
                Ok(PollOutcome { reply: None, arrival })
            },
            Ok(MessageType::Heartbeat) => {
                match self.peer {
                    Some(to) => {
                        let sequence: u32 = self.tx_sequence;
                        let sid: u32 = self.session_id;
                        let empty: [u8; 0] = [];
                        assert(empty@ =~= Seq::empty());
                        match self.send_control(MessageType::HeartbeatAck, sid, &empty, now_us) {
                            Ok(bytes) => Ok(
                                PollOutcome {
                                    reply: Some(Outgoing { to, bytes, sequence }),
                                    arrival: None,
                                },
                            ),
                            Err(e) => Err(e),
                        }
                    },
                    None => Ok(PollOutcome { reply: None, arrival: None }),
                }
            },
            Ok(MessageType::Close) => {
                let _ = self.state.transition(SessionEvent::PeerClosed);
                Err(TransportError::PeerClosed("remote close"))
            },
            Ok(_) => Ok(PollOutcome { reply: None, arrival: None }),
            Err(_) => {
                self.counters.record_integrity_error();
                Ok(PollOutcome { reply: None, arrival: None })
            },
        }
    }

    /// Handles a heartbeat interval without traffic: a session that carries
    /// traffic sends a heartbeat to its peer.
    pub fn poll_idle(&mut self, now_us: u64) -> (r: Result<IdleStep, TransportError>)
        requires
            old(self).wf(),
        ensures
            final(self).wf(),
            ({
                let operational = old(self)@.state is Active || old(self)@.state is Paused;
                if operational && old(self)@.peer is Some {
                    &&& final(self)@ == old(self)@.sequence_used()
                    &&& match heartbeat(old(self)@, now_us) {
                        Ok(b) => {
                            &&& r matches Ok(step)
                            &&& step.operational
                            &&& step.heartbeat matches Some(out)
                            &&& out.bytes@ == b
                            &&& Some(out.to) == old(self)@.peer
                            &&& out.sequence == old(self)@.tx_sequence
                        },
                        Err(e) => r == Err::<IdleStep, TransportError>(TransportError::Protocol(e)),
                    }
                } else {
                    &&& final(self)@ == old(self)@
                    &&& r matches Ok(step)
                    &&& step.operational == operational
                    &&& step.heartbeat is None
                }
            }),
    {
        if !self.state.state().is_operational() {
            return Ok(IdleStep { operational: false, heartbeat: None });
        }
        let to: SocketAddress = match self.peer {
            Some(p) => p,
            None => return Ok(IdleStep { operational: true, heartbeat: None }),
        };
        let sequence: u32 = self.tx_sequence;
        let sid: u32 = self.session_id;
        let empty: [u8; 0] = [];
        assert(empty@ =~= Seq::empty());
        match self.send_control(MessageType::Heartbeat, sid, &empty, now_us) {
            Ok(bytes) => Ok(
                IdleStep { operational: true, heartbeat: Some(Outgoing { to, bytes, sequence }) },
            ),
            Err(e) => Err(e),
        }
    }

    /// How long to wait for a datagram, in ms, and whether the peer is due a
    /// heartbeat when none comes: the depth of the jitter buffer while frames wait
    /// behind a gap, and a heartbeat interval otherwise.
    pub fn next_wait(&self) -> (r: (u64, bool))
        requires
            self.wf(),
        ensures
            r == if self@.jitter.gap(0) < self@.jitter.capacity {
                (
                    if self@.config.jitter_buffer_ms == 0 {
                        1u64
                    } else {
                        self@.config.jitter_buffer_ms as u64
                    },
                    false,
                )
            } else {
                (HEARTBEAT_INTERVAL_MS, true)
            },
    {
        if self.jitter.gap() < self.jitter.capacity() {
            if self.config.jitter_buffer_ms == 0 {
                (1, false)
            } else {
                (self.config.jitter_buffer_ms as u64, false)
            }
        } else {
            (HEARTBEAT_INTERVAL_MS, true)
        }
    }

    /// Ends the session if the peer has been silent for too long; otherwise runs
    /// a cycle of congestion control on the estimates given.
    pub fn check_liveness(
        &mut self,
        now_us: u64,
        loss_rate_bits: u32,
        rtt_us: u64,
        jitter_us: u64,
    ) -> (r: Result<(), TransportError>)
        requires
            old(self).wf(),
        ensures
            final(self).wf(),
            if peer_silent(old(self)@, now_us) {
                &&& final(self)@ == (SessionView {
                    state: state_after(old(self)@.state, SessionEvent::PeerTimeout),
                    ..old(self)@
                })
                &&& r == Err::<(), TransportError>(TransportError::PeerClosed("heartbeat timeout"))
            } else {
                &&& final(self)@ == (SessionView {
                    bitrate: clamped(
                        aimd(old(self)@.bitrate, loss_rate_bits, rtt_us),
                        CONGESTION_MIN_BITRATE as int,
                        old(self)@.config.max_bitrate as int,
                    ) as u32,
                    ..old(self)@
                })
                &&& r is Ok
            },
    {
        if self.last_rx != 0 && now_us.saturating_sub(self.last_rx) > HEARTBEAT_TIMEOUT_MS * 1_000 {
            let _ = self.state.transition(SessionEvent::PeerTimeout);
            return Err(TransportError::PeerClosed("heartbeat timeout"));
        }
        self.congestion.update(loss_rate_bits, rtt_us, jitter_us);
        Ok(())
    }

    /// Closes the session, whatever its state: forgets the keys and builds a
    /// farewell for the peer if there is one. The session is closed then.
    pub fn close(&mut self, now_us: u64) -> (r: Option<Outgoing>)
        requires
            old(self).wf(),
        ensures
            final(self).wf(),
            final(self)@ == (SessionView {
                encrypt_key: None,
                decrypt_key: None,
                tx_sequence: if old(self)@.peer is Some {
                    old(self)@.tx_sequence.wrapping_add(1)
                } else {
                    old(self)@.tx_sequence
                },
                state: SessionState::Closed,
                ..old(self)@
            }),
            match old(self)@.peer {
                Some(peer) => match farewell(old(self)@, now_us) {
                    Ok(b) => {
                        &&& r matches Some(out)
                        &&& out.bytes@ == b
                        &&& out.to == peer
                        &&& out.sequence == old(self)@.tx_sequence
                    },
                    Err(_) => r is None,
                },
                None => r is None,
            },
    {
        self.encrypt_key = None;
        self.decrypt_key = None;
        let mut out: Option<Outgoing> = None;
        if let Some(to) = self.peer {
            let sequence: u32 = self.tx_sequence;
            let sid: u32 = self.session_id;
            let empty: [u8; 0] = [];
            assert(empty@ =~= Seq::empty());
            out = match self.send_control(MessageType::Close, sid, &empty, now_us) {
                Ok(bytes) => Some(Outgoing { to, bytes, sequence }),
                Err(_) => None,
            };
        }
        self.state.end();
        out
    }
}

/// What fits a packet: a payload whose length two bytes can say and that leaves 28 bytes
/// of the MTU to header, length and checksum. What is built then reads back.
pub proof fn packet_has_to_fit(mtu: usize, header: PacketHeader, payload: Seq<u8>)
    ensures
        encoded(mtu, header, payload) is Ok <==> payload.len() <= 65535 && payload.len() + 28 <= mtu,
        payload.len() > 65535 ==> encoded(mtu, header, payload) == Err::<Seq<u8>, Error>(
            Error::PayloadTooLarge,
        ),
        payload.len() <= 65535 && payload.len() + 28 > mtu ==> encoded(mtu, header, payload) == Err::<
            Seq<u8>,
            Error,
        >(Error::BufferTooSmall),
        encoded(mtu, header, payload) matches Ok(b) ==> {
            &&& b.len() == payload.len() + 28
            &&& header.version == 1 ==> packet_of(b) == Ok::<(PacketHeader, Seq<u8>), Error>(
                (header, payload),
            )
            &&& b.subrange(0, 24) == header_bytes(header)
        },
{
    if payload.len() <= 65535 {
        crate::packet::packet_layout(header, payload);
        if header.version == 1 {
            packet_round_trip(header, payload);
        }
    }
}

/// With a key, audio goes out sealed and never in the clear: the packet bears the flag of
/// encryption and the session's next number, and its payload is what the cipher makes of
/// the audio under the key, the number and the session, bound to the header. Without one
/// it goes out as it is, without the flag.
pub proof fn audio_goes_out_sealed(v: SessionView, payload: Seq<u8>, now_us: u64, b: Seq<u8>)
    requires
        audio_wire(v, payload, now_us) == Ok::<Seq<u8>, Error>(b),
    ensures
        packet_of(b) matches Ok((h, sent)) && {
            let nonce = nonce_bytes(v.tx_sequence, v.session_id);
            &&& h.msg_type == 16
            &&& h.session_id == v.session_id
            &&& h.sequence == v.tx_sequence
            &&& h.timestamp == now_us
            &&& h.flags.0 == if v.encrypt_key is Some {
                32u8
            } else {
                0
            }
            &&& match v.encrypt_key {
                Some(key) => {
                    let sealed = crate::crypto::aead_sealed(key, nonce, b.subrange(0, 24), payload);
                    sent == sealed.0 + sealed.1
                },
                None => sent == payload,
            }
        },
{
    let header = sealed_header(
        v.encrypt_key is Some,
        message_code(MessageType::AudioFrame),
        v.session_id,
        v.tx_sequence,
        now_us,
    );
    match v.encrypt_key {
        Some(key) => {
            let nonce = nonce_bytes(v.tx_sequence, v.session_id);
            packet_has_to_fit(
                v.config.mtu,
                header,
                sealed_payload(key, nonce, header_bytes(header), payload),
            );
        },
        None => {
            packet_has_to_fit(v.config.mtu, header, payload);
        },
    }
}

/// A parity packet goes out sealed: its plaintext is the number of the first frame, most
/// significant byte first, the number of frames, and the parity. Without a key none goes
/// out.
pub proof fn parity_goes_out_sealed(
    v: SessionView,
    base: u32,
    window: u8,
    parity: Seq<u8>,
    now_us: u64,
)
    ensures
        v.encrypt_key is None ==> parity_wire(v, base, window, parity, now_us) is None,
        ({
            let plain = parity_payload(base, window, parity);
            &&& plain.len() == parity.len() + 5
            &&& base == plain[0] * 0x100_0000 + plain[1] * 0x1_0000 + plain[2] * 0x100 + plain[3]
            &&& plain[4] == window
            &&& plain.skip(5) == parity
            &&& parity_in(plain) == Some((base, parity))
        }),
        parity_wire(v, base, window, parity, now_us) matches Some(b) ==> (packet_of(b) matches Ok(
            (h, sent),
        ) && {
            let sealed = crate::crypto::aead_sealed(
                v.encrypt_key->0,
                nonce_bytes(v.tx_sequence, v.session_id),
                b.subrange(0, 24),
                parity_payload(base, window, parity),
            );
            &&& h.msg_type == 18
            &&& h.flags.0 == 32
            &&& h.session_id == v.session_id
            &&& h.sequence == v.tx_sequence
            &&& h.timestamp == now_us
            &&& sent == sealed.0 + sealed.1
        }),
{
    let plain = parity_payload(base, window, parity);
    crate::wire::be32_spells(base);
    assert(plain.skip(5) =~= parity);
    assert(plain.subrange(0, 4) =~= be32(base));
    crate::wire::be32_round_trip(plain, 0, base);
    assert(plain.subrange(5, plain.len() as int) =~= parity);
    if let Some(key) = v.encrypt_key {
        let header = sealed_header(true, AUDIO_FEC, v.session_id, v.tx_sequence, now_us);
        packet_has_to_fit(
            v.config.mtu,
            header,
            sealed_payload(
                key,
                nonce_bytes(v.tx_sequence, v.session_id),
                header_bytes(header),
                plain,
            ),
        );
    }
}

/// What counts as an audio frame: a packet of type 16 whose payload either stands in the
/// clear or, with the flag of encryption, opens under the key, its number and the
/// session, bound to its header. Number and time are those of the packet.
pub proof fn audio_has_to_open(
    key: Option<Seq<u8>>,
    session_id: u32,
    datagram: Seq<u8>,
    h: PacketHeader,
    payload: Seq<u8>,
)
    requires
        packet_of(datagram) == Ok::<(PacketHeader, Seq<u8>), Error>((h, payload)),
    ensures
        h.msg_type != 16 ==> frame_in(key, session_id, datagram) is None,
        h.msg_type == 16 && h.flags.0 & 32 == 0 ==> frame_in(key, session_id, datagram) == Some(
            FrameView { sequence: h.sequence, timestamp: h.timestamp, payload },
        ),
        h.msg_type == 16 && h.flags.0 & 32 == 32 && key is None ==> frame_in(
            key,
            session_id,
            datagram,
        ) is None,
        h.msg_type == 16 && h.flags.0 & 32 == 32 && key is Some ==> match opened_payload(
            key->0,
            nonce_bytes(h.sequence, session_id),
            datagram.subrange(0, 24),
            payload,
        ) {
            Some(plain) => frame_in(key, session_id, datagram) == Some(
                FrameView { sequence: h.sequence, timestamp: h.timestamp, payload: plain },
            ),
            None => frame_in(key, session_id, datagram) is None,
        },
{
    let f: u8 = h.flags.0;
    assert(0b0010_0000u8 == 32);
}

/// Every valid packet is heard: it and its bytes are counted, and the silence of the
/// peer ends. Whatever it is, the peer, the session, the keys, the codec and the
/// parameters stay, and nothing is put into a parity group.
pub proof fn every_packet_is_heard(
    v: SessionView,
    datagram: Seq<u8>,
    now_us: u64,
    h: PacketHeader,
    payload: Seq<u8>,
)
    requires
        packet_of(datagram) == Ok::<(PacketHeader, Seq<u8>), Error>((h, payload)),
    ensures
        ({
            let w = after_datagram(v, datagram, now_us);
            &&& w.last_rx == now_us
            &&& w.counters.packets_received == v.counters.packets_received.wrapping_add(1)
            &&& w.counters.bytes_received == v.counters.bytes_received.wrapping_add(
                datagram.len() as u64,
            )
            &&& w.counters.packets_sent == v.counters.packets_sent
            &&& w.counters.bytes_sent == v.counters.bytes_sent
            &&& w.peer == v.peer && w.session_id == v.session_id && w.config == v.config
            &&& w.encrypt_key == v.encrypt_key && w.decrypt_key == v.decrypt_key
            &&& w.negotiated_codec == v.negotiated_codec
            &&& w.fec_enc == v.fec_enc
            &&& w.last_out == v.last_out
            &&& h.msg_type != 255 ==> w.state == v.state
            &&& h.msg_type != 51 ==> w.bitrate == v.bitrate
            &&& !(h.msg_type == 32 && v.peer is Some) ==> w.tx_sequence == v.tx_sequence
            &&& h.msg_type != 16 ==> w.fec_dec == v.fec_dec
            &&& h.msg_type != 16 && h.msg_type != 18 ==> w.jitter == v.jitter && w.passed == v.passed
        }),
{
}

/// A close of the peer ends a session that carries traffic: it is closing then, and a
/// session that was closing is closed.
pub proof fn close_packet_ends_the_session(
    v: SessionView,
    datagram: Seq<u8>,
    now_us: u64,
    h: PacketHeader,
    payload: Seq<u8>,
)
    requires
        packet_of(datagram) == Ok::<(PacketHeader, Seq<u8>), Error>((h, payload)),
        h.msg_type == 255,
    ensures
        ({
            let w = after_datagram(v, datagram, now_us);
            &&& v.state == SessionState::Active || v.state == SessionState::Paused ==> w.state
                == SessionState::Closing
            &&& v.state == SessionState::Closing ==> w.state == SessionState::Closed
            &&& w.state != SessionState::Active
            &&& is_packet(datagram, message_code(MessageType::Close))
            &&& !is_packet(datagram, message_code(MessageType::Heartbeat))
        }),
{
}

/// A heartbeat of a session with a peer uses up one number for its answer, which is a
/// packet of type 33 of this session, empty. It and the answer to one change nothing else.
pub proof fn heartbeat_is_answered(
    v: SessionView,
    datagram: Seq<u8>,
    now_us: u64,
    h: PacketHeader,
    payload: Seq<u8>,
)
    requires
        packet_of(datagram) == Ok::<(PacketHeader, Seq<u8>), Error>((h, payload)),
        h.msg_type == 32 || h.msg_type == 33,
    ensures
        is_packet(datagram, message_code(MessageType::Heartbeat)) <==> h.msg_type == 32,
        !is_packet(datagram, message_code(MessageType::Close)),
        h.msg_type == 32 && v.peer is Some ==> after_datagram(v, datagram, now_us).tx_sequence
            == v.tx_sequence.wrapping_add(1),
        after_datagram(v, datagram, now_us) == (SessionView {
            tx_sequence: after_datagram(v, datagram, now_us).tx_sequence,
            counters: v.counters.received(datagram.len() as u64),
            last_rx: now_us,
            ..v
        }),
        heartbeat_ack(v, now_us) is Ok <==> v.config.mtu >= 28,
        heartbeat_ack(v, now_us) matches Ok(b) ==> (packet_of(b) matches Ok((k, empty))
            && k.msg_type == 33 && k.session_id == v.session_id && k.sequence == v.tx_sequence
            && k.timestamp == now_us && k.flags.0 == 0 && empty.len() == 0),
{
    packet_has_to_fit(
        v.config.mtu,
        plain_header(
            message_code(MessageType::HeartbeatAck),
            v.session_id,
            v.tx_sequence,
            now_us,
        ),
        Seq::empty(),
    );
}

/// What a session says of itself: its heartbeat is a packet of type 32 and its farewell
/// one of type 255, both empty, with its id and its next number.
pub proof fn heartbeat_and_farewell(v: SessionView, now_us: u64)
    ensures
        heartbeat(v, now_us) is Ok <==> v.config.mtu >= 28,
        farewell(v, now_us) is Ok <==> v.config.mtu >= 28,
        heartbeat(v, now_us) matches Ok(b) ==> (packet_of(b) matches Ok((k, empty)) && k.msg_type
            == 32 && k.session_id == v.session_id && k.sequence == v.tx_sequence && k.timestamp
            == now_us && empty.len() == 0),
        farewell(v, now_us) matches Ok(b) ==> (packet_of(b) matches Ok((k, empty)) && k.msg_type
            == 255 && k.session_id == v.session_id && k.sequence == v.tx_sequence && k.timestamp
            == now_us && empty.len() == 0),
        v.sequence_used().tx_sequence == v.tx_sequence.wrapping_add(1),
        v.sequence_used() == (SessionView {
            tx_sequence: v.sequence_used().tx_sequence,
            ..v
        }),
{
    packet_has_to_fit(
        v.config.mtu,
        plain_header(message_code(MessageType::Heartbeat), v.session_id, v.tx_sequence, now_us),
        Seq::empty(),
    );
    packet_has_to_fit(
        v.config.mtu,
        plain_header(message_code(MessageType::Close), v.session_id, v.tx_sequence, now_us),
        Seq::empty(),
    );
}

/// A bitrate that the peer asks for is taken between 8000 bits per second and the ceiling
/// of the session.
pub proof fn peer_asks_for_a_bitrate(
    v: SessionView,
    datagram: Seq<u8>,
    now_us: u64,
    h: PacketHeader,
    payload: Seq<u8>,
)
    requires
        packet_of(datagram) == Ok::<(PacketHeader, Seq<u8>), Error>((h, payload)),
        h.msg_type == 51,
        v.config.max_bitrate >= 8_000,
    ensures
        ({
            let w = after_datagram(v, datagram, now_us);
            let asked = payload[0] * 0x100_0000 + payload[1] * 0x1_0000 + payload[2] * 0x100
                + payload[3];
            &&& payload.len() < 4 ==> w.bitrate == v.bitrate
            &&& payload.len() >= 4 && 8_000 <= asked <= v.config.max_bitrate ==> w.bitrate == asked
            &&& payload.len() >= 4 && asked < 8_000 ==> w.bitrate == 8_000
            &&& payload.len() >= 4 && asked > v.config.max_bitrate ==> w.bitrate
                == v.config.max_bitrate
            &&& w.counters.integrity_errors == v.counters.integrity_errors
        }),
{
}

/// A packet of an unknown type is counted as refused, and one of a known type that a
/// session has no use for is not; neither does anything else.
pub proof fn other_types_do_nothing(
    v: SessionView,
    datagram: Seq<u8>,
    now_us: u64,
    h: PacketHeader,
    payload: Seq<u8>,
)
    requires
        packet_of(datagram) == Ok::<(PacketHeader, Seq<u8>), Error>((h, payload)),
        h.msg_type != 16,
        h.msg_type != 18,
        h.msg_type != 32,
        h.msg_type != 51,
        h.msg_type != 255,
    ensures
        ({
            let w = after_datagram(v, datagram, now_us);
            let known = 1 <= h.msg_type <= 4 || h.msg_type == 17 || h.msg_type == 33 || (48
                <= h.msg_type <= 50) || (64 <= h.msg_type <= 127) || h.msg_type == 254;
            &&& w.counters.integrity_errors == if known {
                v.counters.integrity_errors
            } else {
                v.counters.integrity_errors.wrapping_add(1)
            }
            &&& w == (SessionView { counters: w.counters, last_rx: now_us, ..v })
        }),
{
}

/// An audio frame that comes goes to the decoder of parity and to the jitter buffer, and
/// is not counted as refused.
pub proof fn audio_frame_is_taken_in(
    v: SessionView,
    datagram: Seq<u8>,
    now_us: u64,
    frame: FrameView,
)
    requires
        frame_in(v.decrypt_key, v.session_id, datagram) == Some(frame),
    ensures
        ({
            let w = after_datagram(v, datagram, now_us);
            &&& w.fec_dec.last == Some(frame.sequence)
            &&& w.fec_dec.frames.dom().contains(frame.sequence)
            &&& w.fec_dec.frames[frame.sequence] == frame.payload
            &&& w.jitter == v.jitter.pushed(frame)
            &&& w.passed == v.passed
            &&& w.counters.integrity_errors == v.counters.integrity_errors
        }),
{
}

/// A parity packet that is not sealed does nothing, nor does one before there is a key;
/// one that does not open is counted as refused, and does nothing else.
pub proof fn parity_has_to_open(
    v: SessionView,
    datagram: Seq<u8>,
    now_us: u64,
    h: PacketHeader,
    payload: Seq<u8>,
)
    requires
        packet_of(datagram) == Ok::<(PacketHeader, Seq<u8>), Error>((h, payload)),
        h.msg_type == 18,
        h.flags.0 & 32 == 0 || (v.decrypt_key matches Some(key) ==> opened_payload(
            key,
            nonce_bytes(h.sequence, v.session_id),
            datagram.subrange(0, 24),
            payload,
        ) is None),
    ensures
        ({
            let w = after_datagram(v, datagram, now_us);
            &&& w == (SessionView { counters: w.counters, last_rx: now_us, ..v })
            &&& w.counters.integrity_errors == if h.flags.0 & 32 == 32 && v.decrypt_key is Some {
                v.counters.integrity_errors.wrapping_add(1)
            } else {
                v.counters.integrity_errors
            }
        }),
{
}

/// A parity that opens restores what the decoder makes of it, with the time stamp zero,
/// and where that is nothing it brings no frame. The number of the packet is noted.
pub proof fn parity_restores(
    v: SessionView,
    datagram: Seq<u8>,
    now_us: u64,
    h: PacketHeader,
    payload: Seq<u8>,
    plain: Seq<u8>,
)
    requires
        packet_of(datagram) == Ok::<(PacketHeader, Seq<u8>), Error>((h, payload)),
        h.msg_type == 18,
        h.flags.0 & 32 == 32,
        v.decrypt_key is Some,
        opened_payload(
            v.decrypt_key->0,
            nonce_bytes(h.sequence, v.session_id),
            datagram.subrange(0, 24),
            payload,
        ) == Some(plain),
    ensures
        ({
            let base = (plain[0] * 0x100_0000 + plain[1] * 0x1_0000 + plain[2] * 0x100
                + plain[3]) as u32;
            let jitter = if plain.len() >= 5 {
                match v.fec_dec.recovered(base, plain.subrange(5, plain.len() as int)) {
                    Some((sequence, bytes)) => v.jitter.pushed(
                        FrameView { sequence, timestamp: 0, payload: bytes },
                    ),
                    None => v.jitter,
                }
            } else {
                v.jitter
            };
            after_datagram(v, datagram, now_us) == with_passed(
                SessionView {
                    counters: v.counters.received(datagram.len() as u64),
                    last_rx: now_us,
                    jitter,
                    ..v
                },
                h.sequence,
            )
        }),
{
}

/// The peer counts as gone after more than ten seconds of silence, counted from the last
/// packet; before the first there is nothing to count from.
pub proof fn silence_in_numbers(v: SessionView, now_us: u64)
    ensures
        peer_silent(v, now_us) <==> v.last_rx > 0 && now_us > v.last_rx + 10_000_000,
{
}

/// A stream is overdue once the depth of the jitter buffer has passed since the last
/// frame came out.
pub proof fn overdue_in_numbers(v: SessionView, now_us: u64)
    ensures
        overdue(v, now_us) <==> v.config.jitter_buffer_ms == 0 || now_us >= v.last_out
            + v.config.jitter_buffer_ms * 1000,
{
}

/// What fits: with a key an audio payload costs 44 bytes of the MTU, and a parity packet
/// 49 beyond the longest payload of its group.
pub proof fn fitting_in_numbers(v: SessionView, payload: Seq<u8>)
    ensures
        audio_fits(v, payload) <==> payload.len() <= 65519 && payload.len() + 44 <= v.config.mtu,
        payload.len() > 65519 && payload.len() < 0x10_0000_0000 ==> audio_refusal(payload)
            == Error::PayloadTooLarge,
        payload.len() <= 65519 ==> audio_refusal(payload) == Error::BufferTooSmall,
        parity_fits(v, payload) ==> v.encrypt_key is Some && payload.len() + 49 <= v.config.mtu,
        parity_fits(v, payload) ==> forall|k: int|
            0 <= k < v.fec_enc.frames.len() ==> (#[trigger] v.fec_enc.frames[k]).len() + 49
                <= v.config.mtu,
        v.encrypt_key is Some && payload.len() <= 65514 && payload.len() + 49 <= v.config.mtu && (
        forall|k: int|
            0 <= k < v.fec_enc.frames.len() ==> (#[trigger] v.fec_enc.frames[k]).len() <= 65514
                && v.fec_enc.frames[k].len() + 49 <= v.config.mtu) ==> parity_fits(v, payload),
{
    let group = v.fec_enc.frames.push(payload);
    assert forall|k: int| 0 <= k < group.len() implies (#[trigger] group[k]).len() <= longest(
        group,
    ) by {
        longest_bounds(group, k);
    }
    assert(group[group.len() - 1] == payload);
    assert forall|k: int| 0 <= k < v.fec_enc.frames.len() implies (
    #[trigger] v.fec_enc.frames[k]) == group[k] by {}
    if v.encrypt_key is Some && payload.len() <= 65514 && payload.len() + 49 <= v.config.mtu && (
    forall|k: int|
        0 <= k < v.fec_enc.frames.len() ==> (#[trigger] v.fec_enc.frames[k]).len() <= 65514
            && v.fec_enc.frames[k].len() + 49 <= v.config.mtu) {
        let room: nat = if v.config.mtu - 49 < 65514 {
            (v.config.mtu - 49) as nat
        } else {
            65514
        };
        assert forall|k: int| 0 <= k < group.len() implies (#[trigger] group[k]).len() <= room by {
            if k < v.fec_enc.frames.len() {
                assert(group[k] == v.fec_enc.frames[k]);
            }
        }
        longest_attained(group, room);
    }
}

/// A report of a frame that went out counts it and its bytes, and puts its payload into
/// the parity group; the frame that fills the group uses up one more number for the
/// parity packet, whether or not that packet exists.
pub proof fn sent_frame_joins(
    before: SessionView,
    after: SessionView,
    sent: usize,
    sequence: u32,
    payload: Seq<u8>,
    now_us: u64,
    packet: Option<Seq<u8>>,
)
    requires
        frame_joins(before, after, sent, sequence, payload, now_us, packet),
    ensures
        after.counters.packets_sent == before.counters.packets_sent.wrapping_add(1),
        after.counters.bytes_sent == before.counters.bytes_sent.wrapping_add(sent as u64),
        after.counters.packets_received == before.counters.packets_received,
        ({
            let full = before.fec_enc.frames.len() + 1 >= before.fec_enc.window;
            &&& full ==> after.tx_sequence == before.tx_sequence.wrapping_add(1)
                && after.fec_enc.frames.len() == 0
            &&& !full ==> after.tx_sequence == before.tx_sequence && after.fec_enc.frames
                == before.fec_enc.frames.push(payload) && packet is None
            &&& packet matches Some(b) ==> (packet_of(b) matches Ok((h, _)) && h.msg_type == 18
                && h.sequence == before.tx_sequence && h.session_id == before.session_id)
        }),
        after == (SessionView {
            counters: after.counters,
            tx_sequence: after.tx_sequence,
            fec_enc: after.fec_enc,
            ..before
        }),
{
    parity_goes_out_sealed(
        before,
        before.fec_enc.base_on(sequence),
        before.fec_enc.window,
        parity_of(before.fec_enc.frames.push(payload)),
        now_us,
    );
}

/// A new session is idle, has no peer, no keys and nothing counted, starts at its bitrate
/// ceiling, and its parity groups have four frames.
pub proof fn new_session_is_idle(config: Config)
    ensures
        ({
            let v = SessionView::fresh(config);
            &&& v.state == SessionState::Idle
            &&& v.peer is None && v.encrypt_key is None && v.decrypt_key is None
            &&& v.session_id == 0 && v.tx_sequence == 0 && v.last_rx == 0 && v.last_out == 0
            &&& v.negotiated_codec == 0
            &&& v.counters.packets_sent == 0 && v.counters.packets_received == 0
            &&& v.counters.bytes_sent == 0 && v.counters.bytes_received == 0
            &&& v.counters.integrity_errors == 0
            &&& v.bitrate == config.max_bitrate
            &&& v.config == config
            &&& v.fec_enc.window == 4 && v.fec_enc.frames.len() == 0
            &&& v.fec_dec.window == 4 && v.fec_dec.last is None
            &&& v.jitter == JitterView::fresh(
                slots_for(frames_in(config.jitter_buffer_ms, config.frame_duration_ms)) as u32,
            )
            &&& v.passed.len() == 0
        }),
{
}

/// A packet is of a type where it is valid and bears its byte.
pub proof fn packet_is_of_its_type(datagram: Seq<u8>, msg_type: u8)
    ensures
        is_packet(datagram, msg_type) <==> packet_of(datagram) is Ok && datagram[4] == msg_type,
{
}

/// Sending in numbers: only an active session with a peer sends, and with a key it sends
/// exactly what fits, sealed, to that peer, under its next number.
pub proof fn sending_in_numbers(
    s: &mut Session,
    payload: &[u8],
    now_us: u64,
    r: Result<Outgoing, TransportError>,
)
    requires
        call_ensures(Session::send_audio, (s, payload, now_us), r),
    ensures
        old(s)@.state != SessionState::Active ==> r is Err && final(s)@ == old(s)@,
        old(s)@.peer is None ==> r is Err && final(s)@ == old(s)@,
        old(s)@.state == SessionState::Active && old(s)@.peer is Some ==> {
            &&& final(s)@.tx_sequence == old(s)@.tx_sequence.wrapping_add(1)
            &&& old(s)@.encrypt_key is Some ==> (r is Ok <==> payload@.len() <= 65519
                && payload@.len() + 44 <= old(s)@.config.mtu)
            &&& r matches Ok(out) ==> {
                &&& Some(out.to) == old(s)@.peer
                &&& out.sequence == old(s)@.tx_sequence
                &&& packet_of(out.bytes@) matches Ok((h, sent))
                &&& h.msg_type == 16 && h.session_id == old(s)@.session_id
                &&& h.sequence == old(s)@.tx_sequence && h.timestamp == now_us
                &&& old(s)@.encrypt_key matches Some(key) ==> {
                    let sealed = crate::crypto::aead_sealed(
                        key,
                        nonce_bytes(h.sequence, h.session_id),
                        out.bytes@.subrange(0, 24),
                        payload@,
                    );
                    h.flags.0 == 32 && sent == sealed.0 + sealed.1
                }
            }
        },
{
    if old(s)@.state is Active && old(s)@.peer is Some {
        if let Ok(out) = r {
            audio_goes_out_sealed(old(s)@, payload@, now_us, out.bytes@);
        }
    }
}

/// A valid close of the peer: `poll_once` says so, and an active session is not active
/// after it, so that it sends no more audio.
pub proof fn polling_a_close(
    s: &mut Session,
    datagram: &[u8],
    now_us: u64,
    r: Result<PollOutcome, TransportError>,
    payload: &[u8],
    sent: Result<Outgoing, TransportError>,
    t: &mut Session,
)
    requires
        call_ensures(Session::poll_once, (s, datagram, now_us), r),
        packet_of(datagram@) is Ok,
        datagram@[4] == 255,
        old(t)@ == final(s)@,
        call_ensures(Session::send_audio, (t, payload, now_us), sent),
    ensures
        r matches Err(e) && e is PeerClosed,
        old(s)@.state == SessionState::Active || old(s)@.state == SessionState::Paused
            ==> final(s)@.state == SessionState::Closing,
        old(s)@.state == SessionState::Closing ==> final(s)@.state == SessionState::Closed,
        final(s)@.state != SessionState::Active,
        sent is Err,
{
}

/// A heartbeat of the peer is answered to the peer; other packets are not answered, and
/// audio is reported with its number and time.
pub proof fn polling_in_numbers(
    s: &mut Session,
    datagram: &[u8],
    now_us: u64,
    r: Result<PollOutcome, TransportError>,
)
    requires
        call_ensures(Session::poll_once, (s, datagram, now_us), r),
        old(s)@.config.mtu >= 28,
    ensures
        packet_of(datagram@) is Err ==> {
            &&& r matches Ok(out)
            &&& out.reply is None && out.arrival is None
            &&& final(s)@.counters.integrity_errors
                == old(s)@.counters.integrity_errors.wrapping_add(1)
            &&& final(s)@.last_rx == old(s)@.last_rx
        },
        packet_of(datagram@) is Ok ==> final(s)@.last_rx == now_us,
        packet_of(datagram@) is Ok && datagram@[4] == 32 && old(s)@.peer is Some ==> {
            &&& r matches Ok(out)
            &&& out.reply matches Some(reply)
            &&& Some(reply.to) == old(s)@.peer
            &&& packet_of(reply.bytes@) matches Ok((k, _))
            &&& k.msg_type == 33 && k.session_id == old(s)@.session_id
            &&& final(s)@.tx_sequence == old(s)@.tx_sequence.wrapping_add(1)
        },
        packet_of(datagram@) is Ok && datagram@[4] != 32 && datagram@[4] != 255 ==> {
            &&& r matches Ok(out)
            &&& out.reply is None
            &&& frame_in(old(s)@.decrypt_key, old(s)@.session_id, datagram@) matches Some(f) ==> (
            out.arrival matches Some(a) && a.sequence == f.sequence && a.timestamp == f.timestamp)
            &&& frame_in(old(s)@.decrypt_key, old(s)@.session_id, datagram@) is None
                ==> out.arrival is None
        },
{
    if let Ok((h, payload)) = packet_of(datagram@) {
        if h.msg_type == 32 {
            heartbeat_is_answered(old(s)@, datagram@, now_us, h, payload);
        }
    }
}

/// Silence in numbers: after more than ten seconds without a packet an active session is
/// closing; before, one cycle of congestion control runs. A session that carries traffic
/// sends a heartbeat when nothing comes.
pub proof fn silence_ends_the_session(
    s: &mut Session,
    now_us: u64,
    bits: u32,
    rtt_us: u64,
    jitter_us: u64,
    r: Result<(), TransportError>,
    t: &mut Session,
    step: Result<IdleStep, TransportError>,
)
    requires
        call_ensures(Session::check_liveness, (s, now_us, bits, rtt_us, jitter_us), r),
        call_ensures(Session::poll_idle, (t, now_us), step),
        old(t)@.config.mtu >= 28,
    ensures
        r is Err <==> old(s)@.last_rx > 0 && now_us > old(s)@.last_rx + 10_000_000,
        r is Err && old(s)@.state is Active ==> final(s)@.state is Closing,
        r is Err ==> final(s)@.bitrate == old(s)@.bitrate,
        r is Ok ==> final(s)@.state == old(s)@.state,
        r is Ok && 0x3D4C_CCCD < bits <= 0x7F80_0000 && 8_000 <= old(s)@.bitrate * 85 / 100
            && old(s)@.bitrate <= old(s)@.config.max_bitrate ==> final(s)@.bitrate
            == old(s)@.bitrate * 85 / 100,
        step matches Ok(i) && i.operational == (old(t)@.state is Active || old(t)@.state is Paused),
        (old(t)@.state is Active || old(t)@.state is Paused) && old(t)@.peer is Some ==> (
        step matches Ok(i) && i.heartbeat matches Some(out) && Some(out.to) == old(t)@.peer && (
        packet_of(out.bytes@) matches Ok((k, _)) && k.msg_type == 32 && k.session_id
            == old(t)@.session_id)),
        !(old(t)@.state is Active || old(t)@.state is Paused) ==> (step matches Ok(i)
            && i.heartbeat is None),
{
    heartbeat_and_farewell(old(t)@, now_us);
}

/// Closing forgets the keys, says farewell to the peer and leaves the session closed.
pub proof fn closing_in_numbers(s: &mut Session, now_us: u64, r: Option<Outgoing>)
    requires
        call_ensures(Session::close, (s, now_us), r),
        old(s)@.config.mtu >= 28,
    ensures
        final(s)@.state == SessionState::Closed,
        final(s)@.encrypt_key is None && final(s)@.decrypt_key is None,
        r is Some <==> old(s)@.peer is Some,
        r matches Some(out) ==> Some(out.to) == old(s)@.peer && (packet_of(out.bytes@) matches Ok(
            (k, _),
        ) && k.msg_type == 255 && k.session_id == old(s)@.session_id),
{
    heartbeat_and_farewell(old(s)@, now_us);
}

/// Waiting in numbers: a second, or the depth of the jitter buffer while a frame waits
/// behind a gap; only the former ends in a heartbeat.
pub proof fn waiting_in_numbers(s: &Session, r: (u64, bool), d: u32)
    requires
        call_ensures(Session::next_wait, (s,), r),
    ensures
        d < s@.jitter.capacity && s@.jitter.frames.dom().contains(s@.jitter.next.wrapping_add(d))
            ==> !r.1 && (s@.config.jitter_buffer_ms > 0 ==> r.0 == s@.config.jitter_buffer_ms),
        s@.jitter.frames == Map::<u32, FrameView>::empty() ==> r == (1000u64, true),
{
    gap_leads_to_next_frame(s@.jitter, 0);
    if d < s@.jitter.capacity && s@.jitter.frames.dom().contains(s@.jitter.next.wrapping_add(d)) {
        if s@.jitter.gap(0) >= s@.jitter.capacity {
            assert(!s@.jitter.frames.dom().contains(s@.jitter.next.wrapping_add(d)));
        }
    }
}

/// Receiving in numbers: the frame under the cursor comes out, and a missing one is
/// waited for.
pub proof fn receiving_in_numbers(s: &mut Session, now_us: u64, r: Option<Frame>)
    requires
        call_ensures(Session::recv_audio, (s, now_us), r),
        old(s)@.jitter.capacity > 0,
    ensures
        old(s)@.jitter.frames.dom().contains(old(s)@.jitter.next) ==> (r matches Some(f) && f@
            == old(s)@.jitter.frames[old(s)@.jitter.next] && final(s)@.last_out == now_us),
        !old(s)@.jitter.frames.dom().contains(old(s)@.jitter.next)
            && old(s)@.config.jitter_buffer_ms > 0 && now_us < old(s)@.last_out
            + old(s)@.config.jitter_buffer_ms * 1000 ==> r is None && final(s)@ == old(s)@,
        old(s)@.jitter.frames == Map::<u32, FrameView>::empty() ==> r is None && final(s)@
            == old(s)@,
{
    no_gap_when_ready(old(s)@.jitter);
    gap_leads_to_next_frame(old(s)@.jitter, 0);
}

/// A report of a sent frame in numbers: it is counted, and the parity packet comes with
/// the frame that completes a group, if there is a key and it fits.
pub proof fn reporting_in_numbers(
    s: &mut Session,
    sent: usize,
    sequence: u32,
    payload: &[u8],
    now_us: u64,
    r: Option<Vec<u8>>,
)
    requires
        call_ensures(Session::audio_sent, (s, sent, sequence, payload, now_us), r),
    ensures
        final(s)@.counters.packets_sent == old(s)@.counters.packets_sent.wrapping_add(1),
        final(s)@.counters.bytes_sent == old(s)@.counters.bytes_sent.wrapping_add(sent as u64),
        r is Some ==> old(s)@.encrypt_key is Some && old(s)@.fec_enc.frames.len() + 1
            >= old(s)@.fec_enc.window,
        old(s)@.fec_enc.frames.len() + 1 < old(s)@.fec_enc.window ==> final(s)@.fec_enc.frames
            == old(s)@.fec_enc.frames.push(payload@) && final(s)@.tx_sequence
            == old(s)@.tx_sequence,
        old(s)@.fec_enc.frames.len() + 1 >= old(s)@.fec_enc.window ==> final(s)@.fec_enc.frames.len()
            == 0 && final(s)@.tx_sequence == old(s)@.tx_sequence.wrapping_add(1),
        old(s)@.encrypt_key is Some && old(s)@.fec_enc.frames.len() + 1 >= old(s)@.fec_enc.window
            && payload@.len() <= 65514 && payload@.len() + 49 <= old(s)@.config.mtu && (forall|k: int|
            0 <= k < old(s)@.fec_enc.frames.len() ==> (#[trigger] old(s)@.fec_enc.frames[k]).len()
                <= 65514 && old(s)@.fec_enc.frames[k].len() + 49 <= old(s)@.config.mtu) ==> r is Some,
{
    fitting_in_numbers(old(s)@, payload@);
    match r {
        Some(v) => {
            sent_frame_joins(old(s)@, final(s)@, sent, sequence, payload@, now_us, Some(v@));
        },
        None => {
            sent_frame_joins(old(s)@, final(s)@, sent, sequence, payload@, now_us, None);
        },
    }
}

} // verus!
