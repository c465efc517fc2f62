use gravital_talk::addr::SocketAddress;
use gravital_talk::cli::{
    create_room_body, extract_http_body, http_get_request, http_post_request, next_frame,
    pace, room_path, samples_per_frame, total_frames, trimmed_text, BenchStats, CodecArg, CodecId,
    EchoRelay,
};
use gravital_talk::config::Config;
use gravital_talk::discovery::{add_peer, announcement_text, parse_announcement, PeerInfo};
use gravital_talk::ffi::{
    accept_any_status, gs_abi_version, gs_config_default, gs_protocol_version, jni_config,
    recv_status, text_status, GsConfig, GsSessionState, GsStatus,
};
use gravital_talk::header::PacketHeader;
use gravital_talk::packet::PacketBuilder;
use gravital_talk::session_state::SessionState;
use gravital_talk::stun::{
    build_binding_request, parse_binding_response, StunError, ATTR_MAPPED_ADDRESS,
    ATTR_XOR_MAPPED_ADDRESS, BINDING_RESPONSE, FAMILY_IPV4, MAGIC_COOKIE,
};
use gravital_talk::tone::{pcm_from_bytes, pcm_to_bytes, tone_samples, PTT_PRESS_DURATION_MS, PTT_RELEASE_DURATION_MS};
use gravital_talk::transport_error::TransportError;

fn from(ip: [u8; 4], port: u16) -> SocketAddress {
    SocketAddress::V4 { ip: u32::from_be_bytes(ip), port }
}

#[test]
fn parse_valid_announcement() {
    let info = parse_announcement(b"GT1 9000 42 alice", from([192, 168, 1, 10], 1234)).unwrap();
    assert_eq!(info.addr, from([192, 168, 1, 10], 9000));
    assert_eq!(info.session_id, 42);
    assert_eq!(info.name, "alice");
}

#[test]
fn parse_announcement_with_spaces_in_name() {
    let info = parse_announcement(b"GT1 9000 99 Bob Room A", from([10, 0, 0, 1], 1234)).unwrap();
    assert_eq!(info.name, "Bob Room A");
    assert_eq!(info.session_id, 99);
}

#[test]
fn parse_missing_protocol_tag() {
    assert!(parse_announcement(b"INVALID 9000 1 bob", from([127, 0, 0, 1], 1)).is_none());
}

#[test]
fn parse_bad_port() {
    assert!(parse_announcement(b"GT1 notaport 1 bob", from([127, 0, 0, 1], 1)).is_none());
    assert!(parse_announcement(b"GT1 65536 1 bob", from([127, 0, 0, 1], 1)).is_none());
}

#[test]
fn parse_bad_session_id() {
    assert!(parse_announcement(b"GT1 9000 notanumber bob", from([127, 0, 0, 1], 1)).is_none());
}

#[test]
fn parse_name_optional() {
    let info = parse_announcement(b"GT1 9000 77", from([127, 0, 0, 1], 1)).unwrap();
    assert_eq!(info.name, "unknown");
    assert_eq!(info.session_id, 77);
}

#[test]
fn announcement_that_is_not_text_is_refused() {
    assert!(parse_announcement(b"GT1 9000 7 \xFF", from([127, 0, 0, 1], 1)).is_none());
}

#[test]
fn announcement_comes_back() {
    let text = announcement_text(9001, 4_000_000_000, "sala d'estar ñ");
    assert_eq!(text, "GT1 9001 4000000000 sala d'estar ñ");
    let v6 = SocketAddress::V6 { ip: 1, port: 5, flowinfo: 2, scope_id: 3 };
    let info = parse_announcement(text.as_bytes(), v6).unwrap();
    assert_eq!(info.addr, SocketAddress::V6 { ip: 1, port: 9001, flowinfo: 0, scope_id: 0 });
    assert_eq!(info.session_id, 4_000_000_000);
    assert_eq!(info.name, "sala d'estar ñ");
}

#[test]
fn peers_are_listed_once() {
    let peer = |port: u16, name: &str| PeerInfo {
        addr: from([10, 0, 0, 1], port),
        session_id: 1,
        name: name.to_string(),
    };
    let mut peers = Vec::new();
    assert!(add_peer(&mut peers, peer(1, "a")));
    assert!(!add_peer(&mut peers, peer(1, "b")));
    assert!(add_peer(&mut peers, peer(2, "c")));
    assert_eq!(peers.len(), 2);
    assert_eq!(peers[0].name, "a");
}

fn make_response(attr_type: u16, family: u8, tx_id: &[u8; 12], ip: u32, port: u16) -> Vec<u8> {
    let mut attr = Vec::new();
    attr.extend_from_slice(&attr_type.to_be_bytes());
    attr.extend_from_slice(&8u16.to_be_bytes());
    attr.push(0x00);
    attr.push(family);
    attr.extend_from_slice(&port.to_be_bytes());
    attr.extend_from_slice(&ip.to_be_bytes());

    let mut pkt = Vec::new();
    pkt.extend_from_slice(&BINDING_RESPONSE.to_be_bytes());
    pkt.extend_from_slice(&(attr.len() as u16).to_be_bytes());
    pkt.extend_from_slice(&MAGIC_COOKIE.to_be_bytes());
    pkt.extend_from_slice(tx_id);
    pkt.extend_from_slice(&attr);
    pkt
}

fn make_xor_response(tx_id: &[u8; 12], ip: u32, port: u16) -> Vec<u8> {
    let x_port = port ^ (MAGIC_COOKIE >> 16) as u16;
    let x_ip = ip ^ MAGIC_COOKIE;
    make_response(ATTR_XOR_MAPPED_ADDRESS, FAMILY_IPV4, tx_id, x_ip, x_port)
}

#[test]
fn parse_xor_response_roundtrip() {
    let tx_id = [1u8, 2, 3, 4, 5, 6, 7, 8, 9, 10, 11, 12];
    let expected_ip = u32::from_be_bytes([203, 0, 113, 45]);
    let expected_port = 54321u16;

    let pkt = make_xor_response(&tx_id, expected_ip, expected_port);
    let addr = parse_binding_response(&pkt, &tx_id).expect("should parse");

    assert_eq!(addr.port(), expected_port);
    assert_eq!(addr, SocketAddress::V4 { ip: expected_ip, port: expected_port });
}

#[test]
fn wrong_tx_id_rejected() {
    let tx_id = [0u8; 12];
    let wrong_id = [1u8; 12];
    let pkt = make_xor_response(&tx_id, u32::from_be_bytes([1, 2, 3, 4]), 1234);
    assert!(parse_binding_response(&pkt, &wrong_id).is_none());
}

#[test]
fn short_packet_rejected() {
    let tx_id = [0u8; 12];
    assert!(parse_binding_response(&[0u8; 5], &tx_id).is_none());
}

#[test]
fn plain_mapped_address_is_read() {
    let tx_id = [9u8; 12];
    let pkt = make_response(ATTR_MAPPED_ADDRESS, FAMILY_IPV4, &tx_id, 0x0A00_0001, 4000);
    assert_eq!(
        parse_binding_response(&pkt, &tx_id),
        Some(SocketAddress::V4 { ip: 0x0A00_0001, port: 4000 })
    );
}

#[test]
fn other_address_family_is_skipped() {
    let tx_id = [9u8; 12];
    let pkt = make_response(ATTR_XOR_MAPPED_ADDRESS, 0x02, &tx_id, 1, 2);
    assert!(parse_binding_response(&pkt, &tx_id).is_none());
}

#[test]
fn unknown_attribute_is_stepped_over() {
    let tx_id = [7u8; 12];
    let known = make_response(ATTR_MAPPED_ADDRESS, FAMILY_IPV4, &tx_id, 0x0102_0304, 5);
    let mut pkt = known[..20].to_vec();
    pkt.extend_from_slice(&[0x80, 0x22, 0, 3, 1, 2, 3, 0]);
    pkt.extend_from_slice(&known[20..]);
    pkt[3] = (pkt.len() - 20) as u8;
    assert_eq!(
        parse_binding_response(&pkt, &tx_id),
        Some(SocketAddress::V4 { ip: 0x0102_0304, port: 5 })
    );
}

#[test]
fn request_layout() {
    let req = build_binding_request(&[5u8; 12]);
    assert_eq!(&req[..8], &[0, 1, 0, 0, 0x21, 0x12, 0xA4, 0x42]);
    assert_eq!(&req[8..], &[5u8; 12]);
}

#[test]
fn stun_errors_say_what_happened() {
    assert_eq!(StunError::Io("x".to_string()).message(), "I/O error: x");
    assert_eq!(StunError::Timeout.message(), "all STUN servers timed out or failed");
    assert_eq!(StunError::Malformed.message(), "malformed STUN response");
    assert_eq!(StunError::Resolve("h".to_string()).message(), "STUN resolve error: h");
}

#[test]
fn samples_are_read_back() {
    let samples = vec![0i16, 1, -1, 256, i16::MIN, i16::MAX];
    assert_eq!(pcm_from_bytes(&pcm_to_bytes(&samples)), samples);
    assert_eq!(pcm_from_bytes(&[0x00, 0x80, 0x7F]), vec![i16::MIN]);
}

#[test]
fn pcm_to_bytes_roundtrip() {
    let samples = vec![0i16, i16::MAX, i16::MIN, 1234, -1234];
    let bytes = pcm_to_bytes(&samples);
    assert_eq!(bytes.len(), samples.len() * 2);
    let decoded: Vec<i16> =
        bytes.chunks_exact(2).map(|c| i16::from_le_bytes([c[0], c[1]])).collect();
    assert_eq!(decoded, samples);
}

#[test]
fn tone_length_correct() {
    let sr = 48_000u32;
    assert_eq!(tone_samples(100, sr), 4_800);
    assert_eq!(tone_samples(80, sr), 3_840);
}

#[test]
fn press_and_release_tones_have_different_lengths() {
    let tone = |ms: u32| pcm_to_bytes(&vec![1i16; tone_samples(ms, 48_000) as usize]);
    let press = tone(PTT_PRESS_DURATION_MS);
    let release = tone(PTT_RELEASE_DURATION_MS);
    assert_ne!(press.len(), release.len());
    assert_eq!(press.len(), 9_600);
    assert_eq!(release.len(), 7_680);
}

#[test]
fn protocol_version_nonzero() {
    assert_eq!(gs_protocol_version(), 1);
    assert_eq!(gs_abi_version(), 1);
}

#[test]
fn default_config_is_sane() {
    let mut cfg = GsConfig {
        sample_rate: 0,
        channels: 0,
        frame_duration_ms: 0,
        max_bitrate: 0,
        codec_preferred: 0,
        capability_flags: 0,
        jitter_buffer_ms: 0,
        mtu: 0,
    };
    let st = gs_config_default(&mut cfg);
    assert_eq!(st, GsStatus::GS_OK);
    assert!(cfg.sample_rate >= 8000);
    assert!(cfg.mtu >= 576);
    let own = cfg.to_config();
    let default = Config::default();
    assert_eq!(own.sample_rate, default.sample_rate);
    assert_eq!(own.mtu, default.mtu);
}

#[test]
fn java_numbers_are_taken_modulo_the_width() {
    let cfg = jni_config(48_000, 2);
    assert_eq!((cfg.sample_rate, cfg.channels), (48_000, 2));
    let odd = jni_config(-1, 257);
    assert_eq!((odd.sample_rate, odd.channels), (u32::MAX, 1));
    assert_eq!(jni_config(0, -1).channels, 255);
}

#[test]
fn statuses_of_buffers_and_handshakes() {
    assert_eq!(recv_status(10, 10), GsStatus::GS_OK);
    assert_eq!(recv_status(11, 10), GsStatus::GS_ERR_BUFFER_TOO_SMALL);
    assert_eq!(text_status(9, 10), GsStatus::GS_OK);
    assert_eq!(text_status(10, 10), GsStatus::GS_ERR_BUFFER_TOO_SMALL);
    assert_eq!(accept_any_status(&Ok(())), GsStatus::GS_OK);
    assert_eq!(accept_any_status(&Err(TransportError::Closed)), GsStatus::GS_ERR_CLOSED);
    assert_eq!(accept_any_status(&Err(TransportError::Timeout)), GsStatus::GS_ERR_HANDSHAKE);
    assert_eq!(GsStatus::GS_ERR_INTERNAL.code(), -99);
}

#[test]
fn state_numbers_are_kept() {
    for s in [SessionState::Idle, SessionState::Active, SessionState::Error] {
        assert_eq!(GsSessionState::from(s).code(), s.code());
    }
}

#[test]
fn codec_names() {
    assert_eq!(CodecArg::parse("pcm"), Ok(CodecArg::Pcm));
    assert_eq!(CodecArg::parse("opus"), Ok(CodecArg::Opus));
    assert_eq!(CodecArg::parse("mp3"), Err("unknown codec 'mp3'".to_string()));
    assert_eq!(CodecArg::Opus.to_codec_id(), CodecId::Opus);
}

#[test]
fn frames_of_a_recording() {
    assert_eq!(samples_per_frame(48_000, 20, 2), 1_920);
    assert_eq!(samples_per_frame(44_100, 10, 1), 441);
    assert_eq!(total_frames(3, 20), 150);
    assert_eq!(total_frames(1, 0), 1_000);
    let mut samples: Vec<i16> = vec![1, 2, 3, 4, 5];
    assert_eq!(next_frame(&mut samples, 2), Some(vec![1, 2]));
    assert_eq!(next_frame(&mut samples, 2), Some(vec![3, 4]));
    assert_eq!(next_frame(&mut samples, 2), Some(vec![5]));
    assert_eq!(next_frame(&mut samples, 2), None);
}

#[test]
fn http_requests() {
    assert_eq!(
        http_get_request("relay", 9100, "/healthz"),
        "GET /healthz HTTP/1.1\r\nHost: relay:9100\r\nConnection: close\r\n\r\n"
    );
    assert_eq!(
        http_post_request("h", 80, "/api/rooms", "{}"),
        "POST /api/rooms HTTP/1.1\r\nHost: h:80\r\nContent-Type: application/json\r\nContent-Length: 2\r\nConnection: close\r\n\r\n{}"
    );
    assert_eq!(create_room_body(42), "{\"session_id\":42}");
    assert_eq!(room_path("ABCD-2345"), "/api/rooms/ABCD-2345");
}

#[test]
fn http_body_is_cut_out() {
    let raw = b"HTTP/1.1 200 OK\r\nA: b\r\n\r\n  {\"x\":1}\n";
    assert_eq!(extract_http_body(raw), Ok("{\"x\":1}".to_string()));
    assert_eq!(
        extract_http_body(b"HTTP/1.1 200 OK\r\n"),
        Err("malformed HTTP response (no header separator)")
    );
    assert_eq!(extract_http_body(b"\r\n\r\na\xFFb"), Ok("a\u{FFFD}b".to_string()));
    assert_eq!(trimmed_text(" \t x y \u{2003}"), "x y");
}

#[test]
fn echo_relay_pairs_two_peers() {
    let mut buf = [0u8; 64];
    let n = PacketBuilder::new(PacketHeader::new(0x10, 3, 0, 0), &[]).encode(&mut buf).unwrap();
    let a = from([127, 0, 0, 1], 1);
    let b = from([127, 0, 0, 1], 2);
    let mut relay = EchoRelay::new();
    assert_eq!(relay.route(&buf[..n], a), None);
    assert_eq!(relay.route(&buf[..n], a), None);
    assert_eq!(relay.route(&buf[..n], b), Some(a));
    assert_eq!(relay.route(&[0, 1], b), None);
    assert_eq!(relay.route(&buf[..n], a), Some(b));
    assert_eq!(relay.route(&buf[..n], b), Some(a));
    let c = from([127, 0, 0, 1], 3);
    assert_eq!(relay.route(&buf[..n], c), Some(a));
    assert_eq!(relay.route(&buf[..n], a), Some(b));
}

#[test]
fn stream_keeps_its_pace() {
    assert_eq!(pace(1_000, 10_000, 4_000), (11_000, 7_000));
    assert_eq!(pace(1_000, 10_000, 11_000), (11_000, 0));
    assert_eq!(pace(1_000, 10_000, 50_000), (11_000, 0));
    assert_eq!(pace(u64::MAX, 5, 0), (u64::MAX, u64::MAX));
}

#[test]
fn bench_statistics() {
    let mut s = BenchStats::new();
    assert_eq!(s.average_ns(), 0);
    for t in [10u128, 21, 5] {
        s.record(t);
    }
    assert_eq!((s.iters, s.sum_ns, s.max_ns), (3, 36, 21));
    assert_eq!(s.average_ns(), 12);
}
