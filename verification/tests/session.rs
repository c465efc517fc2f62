use std::collections::VecDeque;

use gravital_talk::addr::SocketAddress;
use gravital_talk::config::{Config, SessionRole};
use gravital_talk::error::Error;
use gravital_talk::handshake::{ClientHandshake, ClientPending, ServerPending};
use gravital_talk::header::{Flags, PacketHeader};
use gravital_talk::jitter_buffer::Frame;
use gravital_talk::message::{
    ControlBitrateMsg, MessageType, ServerHello, SessionConfirm, AUDIO_FEC, CONTROL_BITRATE,
};
use gravital_talk::packet::{PacketBuilder, PacketView};
use gravital_talk::session::Session;
use gravital_talk::session_state::SessionState;
use gravital_talk::transport_error::TransportError;

const CLIENT: SocketAddress = SocketAddress::V4 { ip: 0x7F00_0001, port: 20001 };
const SERVER: SocketAddress = SocketAddress::V4 { ip: 0x7F00_0001, port: 20002 };
const STRANGER: SocketAddress = SocketAddress::V4 { ip: 0x7F00_0001, port: 6666 };

const MILLI: u64 = 1_000;

/// One end of a pair of queues that drop a share of what is sent.
struct End {
    addr: SocketAddress,
    inbox: VecDeque<(Vec<u8>, SocketAddress)>,
    loss_percent: u32,
    rng_state: u32,
}

impl End {
    fn should_drop(&mut self) -> bool {
        if self.loss_percent == 0 {
            return false;
        }
        let v = self.rng_state;
        self.rng_state = v.wrapping_mul(1_664_525).wrapping_add(1_013_904_223);
        v % 100 < self.loss_percent
    }
}

/// Two sessions over a simulated network with a clock of its own.
struct Net {
    client: Session,
    server: Session,
    a: End,
    b: End,
    now_us: u64,
}

#[derive(Clone, Copy, PartialEq)]
enum Side {
    Client,
    Server,
}

impl Net {
    fn new(loss_percent: u32) -> Net {
        Net {
            client: Session::new(Config::default()),
            server: Session::new(Config::default()),
            a: End {
                addr: CLIENT,
                inbox: VecDeque::new(),
                loss_percent,
                rng_state: 0xABCD_1234,
            },
            b: End {
                addr: SERVER,
                inbox: VecDeque::new(),
                loss_percent,
                rng_state: 0x1234_ABCD,
            },
            now_us: 1,
        }
    }

    fn carry(&mut self, from: Side, bytes: Vec<u8>) {
        let (tx, rx) = match from {
            Side::Client => (&mut self.a, &mut self.b),
            Side::Server => (&mut self.b, &mut self.a),
        };
        if !tx.should_drop() {
            rx.inbox.push_back((bytes, tx.addr));
        }
    }

    fn session(&mut self, side: Side) -> &mut Session {
        match side {
            Side::Client => &mut self.client,
            Side::Server => &mut self.server,
        }
    }

    fn next_datagram(&mut self, side: Side) -> Option<(Vec<u8>, SocketAddress)> {
        match side {
            Side::Client => self.a.inbox.pop_front(),
            Side::Server => self.b.inbox.pop_front(),
        }
    }

    fn handshake(&mut self) -> Result<(), TransportError> {
        self.server.handshake(SessionRole::Server, CLIENT)?;
        self.client.handshake(SessionRole::Client, SERVER)?;
        let mut hs = ClientHandshake::new(SERVER);
        let mut client_pending: Option<ClientPending> = None;
        let mut server_pending: Option<ServerPending> = None;
        let mut server_done = false;
        let hello = self.client.client_hello(&hs, self.now_us)?;
        self.client.record_sent(hello.len());
        self.carry(Side::Client, hello);
        let mut wait_until = self.now_us + hs.backoff_ms() * MILLI;
        let deadline = self.now_us + 5_000 * MILLI;
        while self.now_us < deadline {
            if !server_done {
                if let Some((dg, from)) = self.next_datagram(Side::Server) {
                    match &server_pending {
                        None => {
                            let answer = self.server.server_on_hello(CLIENT, from, &dg, self.now_us)?;
                            if let Some((bytes, p)) = answer {
                                server_pending = Some(p);
                                self.carry(Side::Server, bytes);
                            }
                        }
                        Some(p) => {
                            let answer =
                                self.server.server_on_key_exchange(p, from, &dg, self.now_us)?;
                            if let Some(bytes) = answer {
                                self.server.server_confirmed(p);
                                self.server.finish_handshake(Ok(()))?;
                                server_done = true;
                                self.carry(Side::Server, bytes);
                            }
                        }
                    }
                    continue;
                }
            }
            if let Some((dg, from)) = self.next_datagram(Side::Client) {
                match &client_pending {
                    None => {
                        let step = self.client.client_on_hello(&mut hs, from, &dg, self.now_us)?;
                        if let Some((bytes, p)) = step {
                            client_pending = Some(p);
                            self.carry(Side::Client, bytes);
                        }
                    }
                    Some(p) => {
                        if self.client.client_on_confirm(p, from, &dg)? {
                            self.client.finish_handshake(Ok(()))?;
                            return Ok(());
                        }
                    }
                }
                continue;
            }
            self.now_us += MILLI;
            if client_pending.is_none() && self.now_us >= wait_until {
                hs.client_on_silence()?;
                let hello = self.client.client_hello(&hs, self.now_us)?;
                self.carry(Side::Client, hello);
                wait_until = self.now_us + hs.backoff_ms() * MILLI;
            }
        }
        Err(TransportError::Timeout)
    }

    fn send_audio(&mut self, side: Side, payload: &[u8]) -> Result<(), TransportError> {
        let now = self.now_us;
        let session = self.session(side);
        let out = session.send_audio(payload, now)?;
        let parity = session.audio_sent(out.bytes.len(), out.sequence, payload, now);
        if let Some(bytes) = &parity {
            session.record_sent(bytes.len());
        }
        self.carry(side, out.bytes);
        if let Some(bytes) = parity {
            self.carry(side, bytes);
        }
        Ok(())
    }

    /// Waits for the next frame for at most `patience_ms`.
    fn recv_audio(&mut self, side: Side, patience_ms: u64) -> Option<Frame> {
        let deadline = self.now_us + patience_ms * MILLI;
        loop {
            let now = self.now_us;
            if let Some(frame) = self.session(side).recv_audio(now) {
                return Some(frame);
            }
            match self.next_datagram(side) {
                Some((dg, _)) => {
                    let outcome = self.session(side).poll_once(&dg, now).unwrap();
                    if let Some(reply) = outcome.reply {
                        self.carry(side, reply.bytes);
                    }
                }
                None => {
                    if self.now_us >= deadline {
                        return None;
                    }
                    self.now_us += MILLI;
                }
            }
        }
    }
}

#[test]
fn sim_handshake_perfect_channel() {
    let mut net = Net::new(0);
    net.handshake().unwrap();
    assert_eq!(net.client.state(), SessionState::Active);
    assert_eq!(net.server.state(), SessionState::Active);
    assert_ne!(net.client.session_id(), 0);
    assert_eq!(net.client.session_id(), net.server.session_id());
    assert_eq!(net.client.negotiated_codec(), 1);
    assert_eq!(net.server.negotiated_codec(), 1);
    assert_eq!(net.client.peer(), Some(SERVER));
}

#[test]
fn sim_handshake_survives_20pct_loss() {
    let mut net = Net::new(20);
    net.handshake().unwrap();
    assert_eq!(net.client.state(), SessionState::Active);
}

#[test]
fn sim_audio_roundtrip_no_loss() {
    const FRAMES: u32 = 20;
    let mut net = Net::new(0);
    net.handshake().unwrap();
    for i in 0..FRAMES {
        net.send_audio(Side::Client, &vec![i as u8; 160]).unwrap();
    }
    for i in 0..FRAMES {
        let frame = net.recv_audio(Side::Server, 0).expect("a frame");
        assert_eq!(frame.payload.len(), 160);
        assert_eq!(frame.payload.as_ref(), vec![i as u8; 160].as_slice());
    }
}

#[test]
fn sim_audio_survives_10pct_loss() {
    const FRAMES: u32 = 40;
    let mut net = Net::new(10);
    net.handshake().unwrap();
    for i in 0..FRAMES {
        net.send_audio(Side::Client, &vec![i as u8; 160]).unwrap();
        net.now_us += MILLI;
    }
    let mut received = 0u32;
    for _ in 0..FRAMES {
        if net.recv_audio(Side::Server, 300).is_some() {
            received += 1;
        }
    }
    let min_expected = (FRAMES * 70) / 100;
    assert!(received >= min_expected, "got {received} of {min_expected}");
}

#[test]
fn congestion_controller_active_after_handshake() {
    let mut net = Net::new(0);
    net.handshake().unwrap();
    let bitrate = net.client.current_bitrate();
    assert!(bitrate >= 8_000 && bitrate <= 64_000, "bitrate out of range: {bitrate}");
    for _ in 0..8 {
        net.send_audio(Side::Client, &vec![0x42u8; 160]).unwrap();
    }
    let _ = net.server.current_bitrate();
}

#[test]
fn stress_500_frames_roundtrip() {
    const FRAMES: u32 = 500;
    let mut net = Net::new(0);
    net.handshake().unwrap();
    for i in 0..FRAMES {
        net.send_audio(Side::Client, &vec![(i & 0xFF) as u8; 160]).unwrap();
    }
    let mut received = 0u32;
    while let Some(frame) = net.recv_audio(Side::Server, 0) {
        assert_eq!(frame.payload.as_ref(), vec![(received & 0xFF) as u8; 160].as_slice());
        received += 1;
    }
    assert_eq!(received, FRAMES);
}

#[test]
fn stress_burst_large_frames() {
    const FRAMES: u32 = 200;
    const PAYLOAD_SIZE: usize = 900;
    let mut net = Net::new(0);
    net.handshake().unwrap();
    let payload = vec![0xABu8; PAYLOAD_SIZE];
    for _ in 0..FRAMES {
        net.send_audio(Side::Client, &payload).unwrap();
    }
    let mut received = 0u32;
    while let Some(frame) = net.recv_audio(Side::Server, 0) {
        assert_eq!(frame.payload.len(), PAYLOAD_SIZE, "frame {received} has wrong size");
        received += 1;
    }
    assert_eq!(received, FRAMES);
}

#[test]
fn stress_concurrent_senders() {
    const FRAMES_PER_SENDER: u32 = 100;
    const SENDERS: u32 = 4;
    const TOTAL: u32 = FRAMES_PER_SENDER * SENDERS;
    let mut net = Net::new(0);
    net.handshake().unwrap();
    for i in 0..FRAMES_PER_SENDER {
        for sender_id in 0..SENDERS {
            net.send_audio(Side::Client, &vec![(sender_id * 100 + i) as u8; 160]).unwrap();
        }
    }
    let mut received = 0u32;
    while net.recv_audio(Side::Server, 0).is_some() {
        received += 1;
    }
    assert_eq!(received, TOTAL);
}

#[test]
fn stress_metrics_consistent_after_traffic() {
    const FRAMES: u32 = 100;
    let mut net = Net::new(0);
    net.handshake().unwrap();
    for _ in 0..FRAMES {
        net.send_audio(Side::Client, &vec![0u8; 160]).unwrap();
    }
    while net.recv_audio(Side::Server, 0).is_some() {}
    let cli_bitrate = net.client.current_bitrate();
    let srv_bitrate = net.server.current_bitrate();
    assert!(cli_bitrate >= 8_000 && cli_bitrate <= 64_000);
    assert!(srv_bitrate >= 8_000 && srv_bitrate <= 64_000);
    let snap = net.client.metrics();
    assert!(snap.packets_sent >= FRAMES as u64);
    let seen = net.server.metrics();
    assert_eq!(seen.packets_received, 125);
    assert_eq!(seen.integrity_errors, 0);
}

#[test]
fn stress_bidirectional_audio() {
    const FRAMES: u32 = 100;
    let mut net = Net::new(0);
    net.handshake().unwrap();
    let mut received_by_server = 0u32;
    let mut received_by_client = 0u32;
    for _ in 0..FRAMES {
        net.send_audio(Side::Client, &vec![0x11u8; 160]).unwrap();
        net.send_audio(Side::Server, &vec![0x22u8; 160]).unwrap();
        while let Some(f) = net.recv_audio(Side::Server, 0) {
            assert_eq!(f.payload[0], 0x11);
            received_by_server += 1;
        }
        while let Some(f) = net.recv_audio(Side::Client, 0) {
            assert_eq!(f.payload[0], 0x22);
            received_by_client += 1;
        }
    }
    assert_eq!(received_by_server, FRAMES);
    assert_eq!(received_by_client, FRAMES);
}

#[test]
fn audio_on_the_wire_is_encrypted() {
    let mut net = Net::new(0);
    net.handshake().unwrap();
    let out = net.client.send_audio(&[0x55u8; 64], 77).unwrap();
    assert_eq!(out.to, SERVER);
    let view = PacketView::decode(&out.bytes).unwrap_or_else(|e| panic!("{e:?}"));
    assert_eq!(view.header().msg_type, MessageType::AudioFrame.code());
    assert_eq!(view.header().timestamp, 77);
    assert_eq!(view.header().sequence, out.sequence);
    assert_eq!(view.header().session_id, net.client.session_id());
    assert!(view.header().flags.contains(Flags::encrypted()));
    assert_eq!(view.payload().len(), 64 + 16);
    assert_ne!(&view.payload()[..64], &[0x55u8; 64]);
}

#[test]
fn tampered_audio_is_counted_and_dropped() {
    let mut net = Net::new(0);
    net.handshake().unwrap();
    let out = net.client.send_audio(&[0x55u8; 64], 5).unwrap();
    let view = PacketView::decode(&out.bytes).unwrap_or_else(|e| panic!("{e:?}"));
    let header = *view.header();
    let mut payload = view.payload().to_vec();
    payload[3] ^= 1;
    let mut forged = vec![0u8; out.bytes.len()];
    let n = PacketBuilder::new(header, &payload).encode(&mut forged).unwrap();
    let outcome = net.server.poll_once(&forged[..n], 6).unwrap();
    assert!(outcome.arrival.is_none() && outcome.reply.is_none());
    assert_eq!(net.server.metrics().integrity_errors, 1);
    assert!(net.server.recv_audio(7).is_none());
}

#[test]
fn malformed_datagram_is_counted_and_dropped() {
    let mut net = Net::new(0);
    net.handshake().unwrap();
    assert!(net.server.poll_once(&[1, 2, 3], 6).is_ok());
    let m = net.server.metrics();
    assert_eq!((m.packets_received, m.bytes_received, m.integrity_errors), (1, 3, 1));
}

/// The packets of audio frames, parity packets among them.
fn packets_of(net: &mut Net, frames: &[Vec<u8>]) -> Vec<Vec<u8>> {
    let mut packets: Vec<Vec<u8>> = Vec::new();
    for f in frames {
        let out = net.client.send_audio(f, 9).unwrap();
        let parity = net.client.audio_sent(out.bytes.len(), out.sequence, f, 9);
        packets.push(out.bytes);
        if let Some(p) = parity {
            let view = PacketView::decode(&p).unwrap_or_else(|e| panic!("{e:?}"));
            assert_eq!(view.header().msg_type, AUDIO_FEC);
            packets.push(p);
        }
    }
    packets
}

#[test]
fn lost_frame_of_any_group_is_recovered() {
    for lost in [1usize, 2, 3, 5, 6, 7, 8, 12] {
        let mut net = Net::new(0);
        net.handshake().unwrap();
        let frames: Vec<Vec<u8>> = (0..12u8).map(|i| vec![i * 3 + 1; 50]).collect();
        let packets = packets_of(&mut net, &frames);
        assert_eq!(packets.len(), 15);
        let first = PacketView::decode(&packets[0]).unwrap_or_else(|e| panic!("{e:?}"));
        assert_eq!(first.header().sequence, 2);
        for (i, p) in packets.iter().enumerate() {
            if i != lost {
                net.server.poll_once(p, 10).unwrap();
            }
        }
        for f in &frames {
            let got = net.server.recv_audio(10).expect("a frame");
            assert_eq!(got.payload.as_ref(), f.as_slice());
        }
    }
}

#[test]
fn short_lost_frame_of_a_session_comes_back_padded() {
    let mut net = Net::new(0);
    net.handshake().unwrap();
    let frames = vec![vec![1u8; 4], vec![2u8; 2], vec![3u8; 4], vec![4u8; 4]];
    let packets = packets_of(&mut net, &frames);
    for i in [0usize, 2, 3, 4] {
        net.server.poll_once(&packets[i], 10).unwrap();
    }
    net.server.recv_audio(10).unwrap();
    let got = net.server.recv_audio(10).unwrap();
    assert_eq!(got.payload.as_ref(), &[2, 2, 0, 0]);
    assert_eq!(got.timestamp, 0);
}

#[test]
fn heartbeats_leave_the_stream_alone() {
    let mut net = Net::new(0);
    net.handshake().unwrap();
    let audio = packets_of(&mut net, &[vec![1; 5], vec![2; 5]]);
    let beat = net.client.poll_idle(9).unwrap().heartbeat.unwrap().bytes;
    let late = packets_of(&mut net, &[vec![3; 5]]);
    for p in [&audio[0], &audio[1], &beat, &late[0]] {
        net.server.poll_once(p, 100_000).unwrap();
    }
    assert_eq!(net.server.recv_audio(100_000).unwrap().payload.as_ref(), &[1; 5]);
    assert_eq!(net.server.recv_audio(100_000).unwrap().payload.as_ref(), &[2; 5]);
    // The number of the heartbeat is waited for like that of a lost frame.
    assert!(net.server.recv_audio(100_000).is_none());
    assert_eq!(net.server.recv_audio(140_000).unwrap().payload.as_ref(), &[3; 5]);
}

#[test]
fn group_closes_across_a_heartbeat() {
    let mut net = Net::new(0);
    net.handshake().unwrap();
    let mut packets = Vec::new();
    for i in 0..4u8 {
        let out = net.client.send_audio(&[i; 20], 9).unwrap();
        let parity = net.client.audio_sent(out.bytes.len(), out.sequence, &[i; 20], 9);
        assert_eq!(parity.is_some(), i == 3);
        packets.push(out.bytes);
        packets.extend(parity);
        if i == 1 {
            packets.push(net.client.poll_idle(9).unwrap().heartbeat.unwrap().bytes);
        }
    }
    let last = PacketView::decode(&packets[5]).unwrap_or_else(|e| panic!("{e:?}"));
    assert_eq!(last.header().sequence, 7);
    for p in &packets {
        net.server.poll_once(p, 100_000).unwrap();
    }
    // No frame is made up for the number of the heartbeat.
    for (i, at) in [(0u8, 100_000), (1, 100_000), (2, 140_000), (3, 140_000)] {
        assert_eq!(net.server.recv_audio(at).unwrap().payload.as_ref(), &[i; 20]);
    }
    assert!(net.server.recv_audio(200_000).is_none());
}

#[test]
fn frames_and_parities_fit_up_to_the_mtu() {
    let mut net = Net::new(0);
    net.handshake().unwrap();
    let mtu = Config::default().mtu;
    let refused = net.client.send_audio(&vec![1; mtu - 43], 9).unwrap_err();
    assert!(matches!(refused, TransportError::Protocol(Error::BufferTooSmall)));
    let refused = net.client.send_audio(&vec![1; 0xFFF0], 9).unwrap_err();
    assert!(matches!(refused, TransportError::Protocol(Error::PayloadTooLarge)));
    for (len, whole) in [(mtu - 44, false), (mtu - 48, false), (mtu - 49, true)] {
        for i in 0..4 {
            let payload = vec![7u8; len];
            let out = net.client.send_audio(&payload, 9).unwrap();
            assert_eq!(out.bytes.len(), len + 44);
            let parity = net.client.audio_sent(out.bytes.len(), out.sequence, &payload, 9);
            assert_eq!(parity.map(|p| p.len()), (whole && i == 3).then_some(mtu));
        }
    }
}

#[test]
fn wait_depends_on_what_waits() {
    let mut net = Net::new(0);
    net.handshake().unwrap();
    assert_eq!(net.server.next_wait(), (1_000, true));
    let packets = packets_of(&mut net, &[vec![1; 5], vec![2; 5], vec![3; 5]]);
    net.server.poll_once(&packets[0], 10).unwrap();
    net.server.poll_once(&packets[2], 10).unwrap();
    net.server.recv_audio(10).unwrap();
    assert_eq!(net.server.next_wait(), (40, false));
}

#[test]
fn closing_ends_every_session() {
    let mut s = Session::new(Config::default());
    assert!(s.close(1).is_none());
    assert_eq!(s.state(), SessionState::Closed);
    let mut s = Session::new(Config::default());
    s.handshake(SessionRole::Client, SERVER).unwrap();
    assert!(s.close(1).is_some());
    assert_eq!(s.state(), SessionState::Closed);
}

#[test]
fn failed_server_handshake_leaves_id_and_codec_at_zero() {
    let (mut net, mut hs, answer, server_pending) = answered();
    let (ke, _) = net.client.client_on_hello(&mut hs, SERVER, &answer, 0).unwrap().unwrap();
    let forged = rebuilt(&ke, |p| p[10] ^= 1);
    let refused = net.server.server_on_key_exchange(&server_pending, CLIENT, &forged, 0);
    let outcome = refused.map(|_| ());
    assert!(net.server.finish_handshake(outcome).is_err());
    assert_eq!(net.server.negotiated_codec(), 0);
    assert_eq!(net.server.session_id(), 0);
}

#[test]
fn stream_goes_on_after_a_lost_frame() {
    let mut net = Net::new(0);
    net.handshake().unwrap();
    let mut packets: Vec<Vec<u8>> = Vec::new();
    for i in 0..3u8 {
        let out = net.client.send_audio(&[i; 20], 9).unwrap();
        net.client.audio_sent(out.bytes.len(), out.sequence, &[i; 20], 9);
        packets.push(out.bytes);
    }
    net.server.poll_once(&packets[0], 1_000_000).unwrap();
    net.server.poll_once(&packets[2], 1_000_000).unwrap();
    let wait = net.server.config().jitter_buffer_ms as u64 * MILLI;
    assert_eq!(net.server.recv_audio(1_000_000).unwrap().payload[0], 0);
    assert!(net.server.recv_audio(1_000_000 + wait - 1).is_none());
    assert_eq!(net.server.recv_audio(1_000_000 + wait).unwrap().payload[0], 2);
}

#[test]
fn heartbeat_is_sent_and_answered() {
    let mut net = Net::new(0);
    net.handshake().unwrap();
    let step = net.client.poll_idle(50).unwrap();
    assert!(step.operational);
    let beat = step.heartbeat.expect("a heartbeat");
    assert_eq!(beat.to, SERVER);
    let outcome = net.server.poll_once(&beat.bytes, 60).unwrap();
    let reply = outcome.reply.expect("an answer");
    assert_eq!(reply.to, CLIENT);
    let view = PacketView::decode(&reply.bytes).unwrap_or_else(|e| panic!("{e:?}"));
    assert_eq!(view.header().msg_type, MessageType::HeartbeatAck.code());
}

#[test]
fn idle_session_sends_no_heartbeat() {
    let mut s = Session::new(Config::default());
    let step = s.poll_idle(50).unwrap();
    assert!(!step.operational);
    assert!(step.heartbeat.is_none());
}

#[test]
fn silence_ends_the_session() {
    let mut net = Net::new(0);
    net.handshake().unwrap();
    let beat = net.client.poll_idle(50).unwrap().heartbeat.unwrap();
    net.server.poll_once(&beat.bytes, 1_000).unwrap();
    assert!(net.server.check_liveness(10_001_000, 0, 0, 0).is_ok());
    assert_eq!(net.server.state(), SessionState::Active);
    assert!(matches!(
        net.server.check_liveness(10_001_001, 0, 0, 0),
        Err(TransportError::PeerClosed("heartbeat timeout"))
    ));
    assert_eq!(net.server.state(), SessionState::Closing);
}

#[test]
fn liveness_runs_congestion_control() {
    let mut net = Net::new(0);
    net.handshake().unwrap();
    net.client.check_liveness(1, 0.5f32.to_bits(), 0, 0).unwrap();
    assert_eq!(net.client.current_bitrate(), 54_400);
    net.client.check_liveness(1, 0, 0, 0).unwrap();
    assert_eq!(net.client.current_bitrate(), 56_400);
}

#[test]
fn control_message_sets_the_bitrate() {
    let mut net = Net::new(0);
    net.handshake().unwrap();
    let mut body = [0u8; 4];
    ControlBitrateMsg { requested_bitrate: 20_000 }.encode(&mut body).unwrap();
    let header = PacketHeader::new(CONTROL_BITRATE, net.server.session_id(), 0, 0);
    let mut buf = [0u8; 64];
    let n = PacketBuilder::new(header, &body).encode(&mut buf).unwrap();
    net.server.poll_once(&buf[..n], 3).unwrap();
    assert_eq!(net.server.current_bitrate(), 20_000);
}

#[test]
fn close_tells_the_peer() {
    let mut net = Net::new(0);
    net.handshake().unwrap();
    let bye = net.client.close(90).expect("a farewell");
    assert_eq!(net.client.state(), SessionState::Closed);
    assert_eq!(bye.to, SERVER);
    assert!(matches!(
        net.server.poll_once(&bye.bytes, 91),
        Err(TransportError::PeerClosed("remote close"))
    ));
    assert!(matches!(
        net.client.send_audio(&[1, 2, 3], 92),
        Err(TransportError::InvalidState("not active"))
    ));
}

#[test]
fn audio_needs_an_active_session() {
    let mut s = Session::new(Config::default());
    assert!(matches!(
        s.send_audio(&[1], 0),
        Err(TransportError::InvalidState("not active"))
    ));
}

#[test]
fn audio_has_to_fit_the_packet() {
    let mut net = Net::new(0);
    net.handshake().unwrap();
    let room = 1200 - 28 - 16;
    assert!(net.client.send_audio(&vec![0u8; room], 0).is_ok());
    assert!(matches!(
        net.client.send_audio(&vec![0u8; room + 1], 0),
        Err(TransportError::Protocol(Error::BufferTooSmall))
    ));
}

#[test]
fn handshake_starts_only_once() {
    let mut s = Session::new(Config::default());
    s.handshake(SessionRole::Client, SERVER).unwrap();
    assert_eq!(s.state(), SessionState::Handshaking);
    assert!(matches!(
        s.handshake(SessionRole::Client, SERVER),
        Err(TransportError::InvalidState("cannot start handshake"))
    ));
}

#[test]
fn failed_handshake_closes() {
    let mut s = Session::new(Config::default());
    s.handshake(SessionRole::Client, SERVER).unwrap();
    assert!(matches!(
        s.finish_handshake(Err(TransportError::Timeout)),
        Err(TransportError::Timeout)
    ));
    assert_eq!(s.state(), SessionState::Closed);
}

#[test]
fn strangers_are_ignored_in_the_handshake() {
    let mut net = Net::new(0);
    net.server.handshake(SessionRole::Server, CLIENT).unwrap();
    net.client.handshake(SessionRole::Client, SERVER).unwrap();
    let hs = ClientHandshake::new(SERVER);
    let hello = net.client.client_hello(&hs, 0).unwrap();
    assert!(net.server.server_on_hello(CLIENT, STRANGER, &hello, 0).unwrap().is_none());
    assert!(net.server.server_on_hello(CLIENT, CLIENT, &hello, 0).unwrap().is_some());
}

#[test]
fn retries_double_the_wait_and_run_out() {
    let mut hs = ClientHandshake::with_secrets(SERVER, [1; 32], [2; 32]);
    let mut waits = Vec::new();
    for _ in 0..6 {
        waits.push(hs.backoff_ms());
        assert!(hs.client_on_silence().is_ok());
    }
    assert_eq!(waits, vec![200, 400, 800, 1600, 3200, 3200]);
    assert!(matches!(
        hs.client_on_silence(),
        Err(TransportError::Handshake("client retries exhausted"))
    ));
}

/// A client that has sent its hello, and the server's answer to it.
fn answered() -> (Net, ClientHandshake, Vec<u8>, ServerPending) {
    let mut net = Net::new(0);
    net.server.handshake(SessionRole::Server, CLIENT).unwrap();
    net.client.handshake(SessionRole::Client, SERVER).unwrap();
    let hs = ClientHandshake::with_secrets(SERVER, [0x31; 32], [0x32; 32]);
    let hello = net.client.client_hello(&hs, 0).unwrap();
    let (answer, pending) = net
        .server
        .server_answer(CLIENT, CLIENT, &hello, [0x41; 32], [0x42; 32], 4242, 0)
        .unwrap()
        .expect("an answer");
    (net, hs, answer, pending)
}

fn rebuilt(packet: &[u8], change: impl Fn(&mut Vec<u8>)) -> Vec<u8> {
    let view = PacketView::decode(packet).unwrap_or_else(|e| panic!("{e:?}"));
    let header = *view.header();
    let mut payload = view.payload().to_vec();
    change(&mut payload);
    let mut buf = vec![0u8; packet.len()];
    let n = PacketBuilder::new(header, &payload).encode(&mut buf).unwrap();
    buf.truncate(n);
    buf
}

#[test]
fn server_answer_is_fixed_by_its_inputs() {
    let (mut net, _, answer, pending) = answered();
    assert_eq!(net.server.session_id(), 0);
    assert_eq!(net.server.negotiated_codec(), 0);
    let view = PacketView::decode(&answer).unwrap_or_else(|e| panic!("{e:?}"));
    let hello = ServerHello::decode(view.payload()).unwrap();
    assert_eq!(hello.session_id, 4242);
    assert_eq!(hello.server_nonce, [0x42; 32]);
    assert_eq!(hello.ephemeral_public_key, gravital_talk::keys::public_key(&[0x41; 32]));
    assert_eq!(hello.codec_accepted, 1);
    net.server.server_confirmed(&pending);
    assert_eq!(net.server.session_id(), 4242);
    assert_eq!(net.server.negotiated_codec(), 1);
}

#[test]
fn wrong_client_tag_is_refused() {
    let (mut net, mut hs, answer, server_pending) = answered();
    let (ke, _) = net.client.client_on_hello(&mut hs, SERVER, &answer, 0).unwrap().unwrap();
    let forged = rebuilt(&ke, |p| p[10] ^= 1);
    assert!(matches!(
        net.server.server_on_key_exchange(&server_pending, CLIENT, &forged, 0),
        Err(TransportError::AuthenticationFailed("client auth tag mismatch"))
    ));
    let foreign = rebuilt(&ke, |p| p[0] ^= 1);
    assert!(matches!(
        net.server.server_on_key_exchange(&server_pending, CLIENT, &foreign, 0),
        Err(TransportError::Handshake("session_id mismatch in KeyExchange"))
    ));
}

#[test]
fn wrong_server_tag_is_refused() {
    let (mut net, mut hs, answer, server_pending) = answered();
    let (ke, client_pending) =
        net.client.client_on_hello(&mut hs, SERVER, &answer, 0).unwrap().unwrap();
    let confirm = net
        .server
        .server_on_key_exchange(&server_pending, CLIENT, &ke, 0)
        .unwrap()
        .expect("a confirmation");
    let view = PacketView::decode(&confirm).unwrap_or_else(|e| panic!("{e:?}"));
    assert_eq!(SessionConfirm::decode(view.payload()).unwrap().session_id, 4242);
    let forged = rebuilt(&confirm, |p| p[19] ^= 1);
    assert!(matches!(
        net.client.client_on_confirm(&client_pending, SERVER, &forged),
        Err(TransportError::AuthenticationFailed("server auth tag mismatch"))
    ));
    let foreign = rebuilt(&confirm, |p| p[0] ^= 1);
    assert!(matches!(
        net.client.client_on_confirm(&client_pending, SERVER, &foreign),
        Err(TransportError::Handshake("session_id mismatch in confirm"))
    ));
    assert!(net.client.client_on_confirm(&client_pending, SERVER, &confirm).unwrap());
}

#[test]
fn unsupported_codec_is_refused() {
    let (mut net, mut hs, answer, _) = answered();
    let odd = rebuilt(&answer, |p| {
        let mut hello = ServerHello::decode(p).unwrap();
        hello.codec_accepted = 77;
        hello.encode(p).unwrap();
    });
    assert!(matches!(
        net.client.client_on_hello(&mut hs, SERVER, &odd, 0),
        Err(TransportError::Handshake("server selected unsupported codec"))
    ));
}

#[test]
fn version_outside_the_range_is_refused() {
    let (mut net, mut hs, answer, _) = answered();
    let odd = rebuilt(&answer, |p| {
        let mut hello = ServerHello::decode(p).unwrap();
        hello.protocol_version = 200;
        hello.encode(p).unwrap();
    });
    assert!(matches!(
        net.client.client_on_hello(&mut hs, SERVER, &odd, 0),
        Err(TransportError::Handshake("version negotiation failed: out of range"))
    ));
    let mut net = Net::new(0);
    net.server.handshake(SessionRole::Server, CLIENT).unwrap();
    let hs = ClientHandshake::new(SERVER);
    let hello = net.client.client_hello(&hs, 0).unwrap();
    let old = rebuilt(&hello, |p| p[64] = 0);
    assert!(matches!(
        net.server.server_on_hello(CLIENT, CLIENT, &old, 0),
        Err(TransportError::Handshake("version negotiation failed: client version too old"))
    ));
}
