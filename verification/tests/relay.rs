use std::collections::HashSet;

use gravital_talk::addr::SocketAddress;
use gravital_talk::header::PacketHeader;
use gravital_talk::observability::{
    create_room, extract_session_id, handle, handle_get_room, HttpAnswer, HttpMethod, JsonReply,
};
use gravital_talk::packet::PacketBuilder;
use gravital_talk::relay::{record_forward, relay_datagram, ForwardOutcome};
use gravital_talk::relay_config::RelayConfig;
use gravital_talk::relay_metrics::{DropReason, RelayMetrics};
use gravital_talk::rooms::{generate_code, generate_session_id, is_valid_code};
use gravital_talk::router::{RouteDecision, Router, SessionEndpoint};

fn ep(port: u16) -> SessionEndpoint {
    SessionEndpoint::Udp(SocketAddress::V4 { ip: 0x7F00_0001, port })
}

fn router() -> Router {
    Router::new(100, 50, RelayMetrics::new())
}

#[test]
fn first_packet_registers() {
    let mut r = router();
    assert!(matches!(r.route(1, ep(1000), 0), RouteDecision::Registered));
    assert_eq!(r.active_sessions(), 1);
    assert_eq!(r.peer_count(1), 1);
}

#[test]
fn second_peer_gets_broadcast_to_first() {
    let mut r = router();
    r.route(1, ep(1000), 0);
    let d = r.route(1, ep(2000), 0);
    match d {
        RouteDecision::Broadcast(targets) => {
            assert_eq!(targets.len(), 1);
            match &targets[0] {
                SessionEndpoint::Udp(a) => assert_eq!(a.port(), 1000),
                _ => panic!("expected UDP endpoint"),
            }
        }
        _ => panic!("expected Broadcast"),
    }
    assert_eq!(r.peer_count(1), 2);
}

#[test]
fn existing_peer_broadcasts_to_all_others() {
    let mut r = router();
    r.route(1, ep(1000), 0);
    r.route(1, ep(2000), 0);
    r.route(1, ep(3000), 0);
    assert_eq!(r.peer_count(1), 3);

    let d = r.route(1, ep(1000), 0);
    match d {
        RouteDecision::Broadcast(targets) => {
            assert_eq!(targets.len(), 2);
            let ports: Vec<u16> = targets
                .iter()
                .map(|t| match t {
                    SessionEndpoint::Udp(a) => a.port(),
                    _ => 0,
                })
                .collect();
            assert!(ports.contains(&2000));
            assert!(ports.contains(&3000));
        }
        _ => panic!("expected Broadcast"),
    }
}

#[test]
fn session_full_drops_extra_peer() {
    let mut r = Router::new(100, 2, RelayMetrics::new());
    r.route(1, ep(1000), 0);
    r.route(1, ep(2000), 0);
    let d = r.route(1, ep(3000), 0);
    assert!(matches!(d, RouteDecision::Dropped));
    assert_eq!(r.peer_count(1), 2);
    assert_eq!(r.metrics().dropped_session_full, 1);
}

#[test]
fn zero_session_id_dropped() {
    let mut r = router();
    assert!(matches!(r.route(0, ep(1000), 0), RouteDecision::Dropped));
    assert_eq!(r.metrics().dropped_zero_session, 1);
}

#[test]
fn max_sessions_enforced() {
    let mut r = Router::new(2, 50, RelayMetrics::new());
    r.route(1, ep(1000), 0);
    r.route(2, ep(2000), 0);
    assert!(matches!(r.route(3, ep(3000), 0), RouteDecision::Dropped));
    assert_eq!(r.metrics().dropped_max_sessions, 1);
    assert!(matches!(r.route(1, ep(3000), 0), RouteDecision::Broadcast(_)));
}

#[test]
fn room_registry_roundtrip() {
    let mut r = router();
    assert!(r.register_room("ABCD-1234".to_string(), 42));
    assert_eq!(r.resolve_room("ABCD-1234"), Some(42));
    assert!(!r.register_room("ABCD-1234".to_string(), 99));
    assert!(r.remove_room("ABCD-1234"));
    assert_eq!(r.resolve_room("ABCD-1234"), None);
    assert!(!r.remove_room("ABCD-1234"));
}

#[test]
fn rooms_are_listed_with_their_peers() {
    let mut r = router();
    r.register_room("ABCD-2345".to_string(), 7);
    r.register_room("WXYZ-6789".to_string(), 8);
    r.route(7, ep(1000), 0);
    r.route(7, ep(2000), 0);
    let mut list = r.list_rooms();
    list.sort();
    assert_eq!(
        list,
        vec![("ABCD-2345".to_string(), 7, 2), ("WXYZ-6789".to_string(), 8, 0)]
    );
}

#[test]
fn idle_sessions_are_evicted() {
    let second = 1_000_000_000u64;
    let mut r = router();
    r.route(1, ep(1000), 0);
    r.route(2, ep(2000), 5 * second);
    assert_eq!(r.evict_idle(10, 11 * second, &Vec::new()), 1);
    assert_eq!(r.peer_count(1), 0);
    assert_eq!(r.peer_count(2), 1);
    assert_eq!(r.active_sessions(), 1);
}

#[test]
fn traffic_keeps_a_session() {
    let second = 1_000_000_000u64;
    let mut r = router();
    r.route(1, ep(1000), 0);
    r.route(1, ep(1000), 9 * second);
    assert_eq!(r.evict_idle(10, 11 * second, &Vec::new()), 0);
    assert_eq!(r.active_sessions(), 1);
}

#[test]
fn closed_connections_leave_their_sessions() {
    let mut r = router();
    r.route(1, SessionEndpoint::WebSocket(5), 0);
    r.route(1, ep(1000), 0);
    r.route(2, SessionEndpoint::WebSocket(6), 0);
    r.evict_idle(10, 0, &vec![5, 6]);
    assert_eq!(r.peer_count(1), 1);
    assert_eq!(r.peer_count(2), 0);
}

#[test]
fn endpoints_compare_by_kind() {
    assert!(ep(1).matches(&ep(1)));
    assert!(!ep(1).matches(&ep(2)));
    assert!(!ep(1).matches(&SessionEndpoint::WebSocket(1)));
    assert!(SessionEndpoint::WebSocket(3).matches(&SessionEndpoint::WebSocket(3)));
    assert!(ep(1).is_udp() && !ep(1).is_ws());
    assert!(SessionEndpoint::WebSocket(3).is_ws());
}

fn packet(session_id: u32) -> Vec<u8> {
    let mut buf = vec![0u8; 64];
    let n = PacketBuilder::new(PacketHeader::new(0x10, session_id, 0, 0), &[1, 2, 3])
        .encode(&mut buf)
        .unwrap();
    buf.truncate(n);
    buf
}

#[test]
fn datagrams_are_relayed_by_session() {
    let mut r = router();
    assert!(matches!(
        relay_datagram(&mut r, &packet(9), ep(1000), 0),
        RouteDecision::Registered
    ));
    match relay_datagram(&mut r, &packet(9), ep(2000), 0) {
        RouteDecision::Broadcast(t) => assert!(t.len() == 1 && t[0].matches(&ep(1000))),
        _ => panic!("expected Broadcast"),
    }
    assert!(matches!(
        relay_datagram(&mut r, &[0, 1, 2], ep(1000), 0),
        RouteDecision::Dropped
    ));
    assert_eq!(r.metrics().dropped_malformed, 1);
    assert_eq!(r.metrics().packets_in, 3);
    assert_eq!(r.metrics().bytes_in, 31 + 31 + 3);
}

#[test]
fn forwarding_is_counted() {
    let mut r = router();
    record_forward(&mut r, &ep(1), ForwardOutcome::Sent(31));
    record_forward(&mut r, &ep(1), ForwardOutcome::Failed);
    record_forward(&mut r, &SessionEndpoint::WebSocket(1), ForwardOutcome::Failed);
    let m = r.metrics();
    assert_eq!((m.packets_out, m.bytes_out), (1, 31));
    assert_eq!((m.dropped_send_error, m.dropped_ws_disconnected), (1, 1));
}

#[test]
fn drops_are_counted_by_reason() {
    let mut m = RelayMetrics::new();
    m.record_dropped(DropReason::Malformed);
    m.record_dropped(DropReason::Malformed);
    m.record_dropped(DropReason::MaxSessions);
    assert_eq!((m.dropped_malformed, m.dropped_max_sessions, m.dropped_send_error), (2, 1, 0));
}

#[test]
fn metrics_are_listed() {
    let mut m = RelayMetrics::new();
    m.record_in(30);
    m.record_dropped(DropReason::SessionFull);
    m.active_sessions = 4;
    let list = m.samples();
    assert_eq!(list.len(), 11);
    assert_eq!((list[1].name, list[1].value), ("gs_relay_bytes_in_total", 30));
    let full = list.iter().find(|s| s.reason == Some("session_full")).unwrap();
    assert_eq!((full.name, full.value), ("gs_relay_dropped_total", 1));
    assert_eq!((list[10].name, list[10].value, list[10].gauge), ("gs_relay_active_sessions", 4, true));
}

#[test]
fn defaults_are_sensible() {
    let cfg = RelayConfig::default();
    assert_eq!(cfg.udp_bind.port(), 9000);
    assert_eq!(cfg.ws_bind.port(), 9090);
    assert_eq!(cfg.observability_bind.port(), 9100);
    assert_eq!(cfg.session_ttl_secs, 300);
    assert_eq!(cfg.max_sessions, 10_000);
    assert_eq!(cfg.max_peers_per_session, 50);
}

#[test]
fn code_format_valid() {
    let mut counter = 0u64;
    for i in 0..50 {
        let code = generate_code(Some(1_700_000_000_000_000_000 + i), &mut counter);
        assert!(is_valid_code(&code), "invalid code: {code}");
        assert_eq!(code.len(), 9);
        assert_eq!(code.chars().nth(4), Some('-'));
    }
    assert_eq!(counter, 50);
}

#[test]
fn codes_are_unique() {
    let mut counter = 0u64;
    let codes: Vec<String> =
        (0..20).map(|_| generate_code(Some(1_700_000_000_123_456_789), &mut counter)).collect();
    let unique: HashSet<&String> = codes.iter().collect();
    assert_eq!(codes.len(), unique.len());
}

#[test]
fn code_is_fixed_by_clock_and_counter() {
    // The same arithmetic, step by step, on wrapping integers.
    let now = 1_234_567_890_123_456_789u64;
    let mut state = now.wrapping_add(3u64.wrapping_mul(6364136223846793005));
    let letters: Vec<char> = "ABCDEFGHJKLMNPRSTUVWXYZ".chars().collect();
    let digits: Vec<char> = "23456789".chars().collect();
    let mut expected = String::new();
    for i in 0..8 {
        state = state.wrapping_mul(6364136223846793005).wrapping_add(1442695040888963407);
        let b = (state >> 33) as u8;
        if i == 4 {
            expected.push('-');
        }
        if i < 4 {
            expected.push(letters[b as usize % letters.len()]);
        } else {
            expected.push(digits[b as usize % digits.len()]);
        }
    }
    let mut counter = 3u64;
    assert_eq!(generate_code(Some(now), &mut counter), expected);
}

#[test]
fn invalid_codes_are_refused() {
    for bad in ["", "ABCD-234", "ABCD-23456", "ABCD_2345", "ABC1-2345", "ABCD-234A", "abcd-2345"] {
        assert!(!is_valid_code(bad), "{bad}");
    }
    assert!(is_valid_code("ABCD-2345"));
}

#[test]
fn session_id_nonzero() {
    let mut counter = 0u64;
    for _ in 0..10 {
        assert_ne!(generate_session_id(Some(1_700_000_000_000_000_000), &mut counter), 0);
    }
    let mut counter = 0u64;
    assert_eq!(generate_session_id(Some(0x1234_5678_1234_5678), &mut counter), 0xDEAD_BEEF);
    assert_eq!(generate_session_id(None, &mut counter), 2_654_435_762);
}

#[test]
fn extract_session_id_basic() {
    assert_eq!(extract_session_id(b"{\"session_id\":42}"), Some(42));
    assert_eq!(extract_session_id(b"{ \"session_id\" : 999 }"), Some(999));
    assert_eq!(extract_session_id(b"{\"session_id\":0}"), Some(0));
}

#[test]
fn extract_session_id_missing() {
    assert!(extract_session_id(b"{}").is_none());
    assert!(extract_session_id(b"invalid").is_none());
    assert!(extract_session_id(b"{\"session_id\":\"abc\"}").is_none());
}

#[test]
fn extract_session_id_bounds() {
    assert_eq!(extract_session_id(b"{\"session_id\":4294967295}"), Some(u32::MAX));
    assert!(extract_session_id(b"{\"session_id\":4294967296}").is_none());
    assert!(extract_session_id(b"\xFF{\"session_id\":1}").is_none());
}

fn json(answer: HttpAnswer) -> JsonReply {
    match answer {
        HttpAnswer::Json(reply) => reply,
        HttpAnswer::Metrics => panic!("expected JSON"),
    }
}

#[test]
fn rooms_are_made_found_and_removed_over_http() {
    let mut r = router();
    let mut counter = 0u64;
    let now = Some(99u64);
    let made = json(handle(
        &mut r,
        HttpMethod::Post,
        "/api/rooms",
        b"{\"session_id\":42}",
        now,
        &mut counter,
    ));
    assert_eq!(made.status, 201);
    let mut fresh = 0u64;
    let code = generate_code(now, &mut fresh);
    assert_eq!(counter, 1);
    let path = format!("/api/rooms/{code}");
    let found = json(handle(&mut r, HttpMethod::Get, &path, b"", now, &mut counter));
    assert_eq!(found.status, 200);
    assert_eq!(
        found.body,
        format!("{{\"code\":\"{code}\",\"session_id\":42,\"peer_count\":0}}\n")
    );
    let list = json(handle(&mut r, HttpMethod::Get, "/api/rooms", b"", now, &mut counter));
    assert_eq!(
        list.body,
        format!("[{{\"code\":\"{code}\",\"session_id\":42,\"peer_count\":0}}]\n")
    );
    let gone = json(handle(&mut r, HttpMethod::Delete, &path, b"", now, &mut counter));
    assert_eq!(gone.status, 200);
    assert_eq!(handle_get_room(&r, &code).status, 404);
    let again = json(handle(&mut r, HttpMethod::Delete, &path, b"", now, &mut counter));
    assert_eq!(again.status, 404);
}

#[test]
fn requests_are_answered_by_path_and_method() {
    let mut r = router();
    let mut counter = 0u64;
    let health = json(handle(&mut r, HttpMethod::Get, "/healthz", b"", None, &mut counter));
    assert_eq!(health.status, 200);
    assert!(matches!(
        handle(&mut r, HttpMethod::Get, "/metrics", b"", None, &mut counter),
        HttpAnswer::Metrics
    ));
    let lost = json(handle(&mut r, HttpMethod::Get, "/nothing", b"", None, &mut counter));
    assert_eq!(lost.status, 404);
    let not_allowed = json(handle(&mut r, HttpMethod::Delete, "/api/rooms", b"", None, &mut counter));
    assert_eq!(not_allowed.status, 405);
    let bad = json(handle(&mut r, HttpMethod::Post, "/api/rooms", b"{}", None, &mut counter));
    assert_eq!(bad.status, 400);
    let zero = b"{\"session_id\":0}";
    let bad = json(handle(&mut r, HttpMethod::Post, "/api/rooms", zero, None, &mut counter));
    assert_eq!(bad.status, 400);
    assert_eq!(counter, 0);
    let form = json(handle(&mut r, HttpMethod::Get, "/api/rooms/xx", b"", None, &mut counter));
    assert_eq!(form.status, 400);
}

#[test]
fn taken_code_is_a_conflict() {
    let mut r = router();
    let body = b"{\"session_id\":5}";
    assert_eq!(create_room(&mut r, body, "ABCD-2345".to_string()).status, 201);
    assert_eq!(create_room(&mut r, body, "ABCD-2345".to_string()).status, 409);
}
