use bytes::Bytes;
use gravital_talk::config::{jitter_slots, Config};
use gravital_talk::congestion::CongestionController;
use gravital_talk::error::Error;
use gravital_talk::fec::{xor_into, FecDecoder, FecEncoder};
use gravital_talk::jitter_buffer::{Frame, JitterBuffer};
use gravital_talk::keys::{
    build_transcript, constant_time_eq, derive_auth_tag, derive_session_keys, public_key,
    rand_u32_secure, random_nonce_32, random_tx_id, shared_secret,
};
use gravital_talk::transport_error::TransportError;

fn bits(x: f32) -> u32 {
    x.to_bits()
}

#[test]
fn high_loss_decreases_bitrate() {
    let mut cc = CongestionController::new(64_000, 8_000, 128_000);
    cc.update(bits(0.10), 50_000, 0);
    assert!(cc.current_bitrate() < 64_000);
    assert_eq!(cc.current_bitrate(), 54_400);
}

#[test]
fn high_rtt_decreases_bitrate() {
    let mut cc = CongestionController::new(64_000, 8_000, 128_000);
    cc.update(bits(0.0), 200_000, 0);
    assert!(cc.current_bitrate() < 64_000);
    assert_eq!(cc.current_bitrate(), 60_800);
}

#[test]
fn no_congestion_increases_bitrate() {
    let mut cc = CongestionController::new(32_000, 8_000, 128_000);
    cc.update(bits(0.0), 50_000, 0);
    assert!(cc.current_bitrate() > 32_000);
    assert_eq!(cc.current_bitrate(), 34_000);
}

#[test]
fn clamps_to_min() {
    let mut cc = CongestionController::new(8_000, 8_000, 128_000);
    for _ in 0..100 {
        cc.update(bits(0.99), 999_999, 0);
    }
    assert_eq!(cc.current_bitrate(), 8_000);
}

#[test]
fn clamps_to_max() {
    let mut cc = CongestionController::new(127_000, 8_000, 128_000);
    for _ in 0..100 {
        cc.update(bits(0.0), 0, 0);
    }
    assert_eq!(cc.current_bitrate(), 128_000);
}

#[test]
fn set_bitrate_respects_bounds() {
    let mut cc = CongestionController::new(64_000, 8_000, 128_000);
    cc.set_bitrate(200_000);
    assert_eq!(cc.current_bitrate(), 128_000);
    cc.set_bitrate(1_000);
    assert_eq!(cc.current_bitrate(), 8_000);
}

#[test]
fn loss_threshold_is_exclusive() {
    for (rate, expected) in [
        (0.05f32, 34_000u32),
        (0.050001, 27_200),
        (-0.5, 34_000),
        (f32::NAN, 34_000),
        (f32::INFINITY, 27_200),
    ] {
        let mut cc = CongestionController::new(32_000, 8_000, 128_000);
        cc.update(bits(rate), 150_000, 0);
        assert_eq!(cc.current_bitrate(), expected, "rate {rate}");
    }
}

#[test]
fn decrease_agrees_with_floating_point() {
    let mut x: u32 = 1;
    while x < 0xF000_0000 {
        for current in [x, x.wrapping_mul(7), x.wrapping_add(19)] {
            let current = current.max(8_000);
            let mut a = CongestionController::new(current, 8_000, u32::MAX);
            a.update(bits(1.0), 0, 0);
            assert_eq!(a.current_bitrate(), ((current as f64 * 0.85) as u32).max(8_000));
            let mut b = CongestionController::new(current, 8_000, u32::MAX);
            b.update(bits(0.0), 150_001, 0);
            assert_eq!(b.current_bitrate(), ((current as f64 * 0.95) as u32).max(8_000));
        }
        x = x.wrapping_mul(3).wrapping_add(5);
        if x < 10 {
            break;
        }
    }
}

#[test]
fn initial_bitrate_is_clamped() {
    assert_eq!(CongestionController::new(1, 0, 10_000).current_bitrate(), 8_000);
    assert_eq!(CongestionController::new(99_000, 9_000, 10_000).current_bitrate(), 10_000);
}

fn make_payload(seq: u32, size: usize) -> Vec<u8> {
    (0..size).map(|i| (seq as u8).wrapping_add(i as u8)).collect()
}

#[test]
fn encoder_emits_parity_after_window() {
    let mut enc = FecEncoder::new(4);
    for i in 0..3 {
        assert!(enc.push(i, &make_payload(i, 16)).is_none());
    }
    let parity = enc.push(3, &make_payload(3, 16));
    assert!(parity.is_some());
    let p = parity.unwrap();
    assert_eq!(p.seq_base, 0);
    assert_eq!(p.window, 4);
    assert_eq!(p.payload.len(), 16);
}

#[test]
fn encoder_second_window_resets() {
    let mut enc = FecEncoder::new(2);
    let p1 = enc.push(0, &[0x01, 0x02]);
    assert!(p1.is_none());
    let p2 = enc.push(1, &[0x03, 0x04]);
    assert!(p2.is_some());
    assert_eq!(p2.unwrap().payload.as_ref(), &[0x02, 0x06]);
    let p3 = enc.push(2, &[0xAA]);
    assert!(p3.is_none());
    let p4 = enc.push(3, &[0xBB]);
    assert!(p4.is_some());
    let p = p4.unwrap();
    assert_eq!(p.seq_base, 2);
    assert_eq!(p.payload.as_ref(), &[0x11]);
}

#[test]
fn decoder_recovers_lost_frame() {
    let window = 4u8;
    let payloads: Vec<Vec<u8>> = (0..4).map(|i| make_payload(i, 16)).collect();

    let mut enc = FecEncoder::new(window);
    let mut parity = None;
    for i in 0..4u32 {
        parity = enc.push(i, &payloads[i as usize]);
    }
    let parity = parity.unwrap();

    let mut dec = FecDecoder::new(window);
    dec.push_data(0, Bytes::from(payloads[0].clone()));
    dec.push_data(1, Bytes::from(payloads[1].clone()));
    dec.push_data(3, Bytes::from(payloads[3].clone()));

    let result = dec.push_parity(parity);
    assert!(result.is_some(), "debe recuperar el frame perdido");
    let (seq, recovered) = result.unwrap();
    assert_eq!(seq, 2);
    assert_eq!(recovered.as_ref(), payloads[2].as_slice());
}

#[test]
fn decoder_no_recovery_with_two_losses() {
    let window = 4u8;
    let payloads: Vec<Vec<u8>> = (0..4).map(|i| make_payload(i, 8)).collect();

    let mut enc = FecEncoder::new(window);
    let mut parity = None;
    for i in 0..4u32 {
        parity = enc.push(i, &payloads[i as usize]);
    }
    let parity = parity.unwrap();

    let mut dec = FecDecoder::new(window);
    dec.push_data(0, Bytes::from(payloads[0].clone()));
    dec.push_data(1, Bytes::from(payloads[1].clone()));

    let result = dec.push_parity(parity);
    assert!(result.is_none(), "no puede recuperar con dos pérdidas");
}

#[test]
fn decoder_no_recovery_without_loss() {
    let window = 2u8;
    let payloads: Vec<Vec<u8>> = (0..2).map(|i| make_payload(i, 8)).collect();

    let mut enc = FecEncoder::new(window);
    let mut parity = None;
    for i in 0..2u32 {
        parity = enc.push(i, &payloads[i as usize]);
    }
    let parity = parity.unwrap();

    let mut dec = FecDecoder::new(window);
    dec.push_data(0, Bytes::from(payloads[0].clone()));
    dec.push_data(1, Bytes::from(payloads[1].clone()));

    let result = dec.push_parity(parity);
    assert!(result.is_none(), "sin pérdidas no devuelve frame recuperado");
}

#[test]
fn any_single_lost_frame_is_recovered() {
    for window in 2u8..=8 {
        for lost in 0..window as usize {
            let frames: Vec<Vec<u8>> = (0..window as u32).map(|i| make_payload(i * 31, 40)).collect();
            let mut enc = FecEncoder::new(window);
            let mut parity = None;
            for (i, f) in frames.iter().enumerate() {
                parity = enc.push(i as u32, f);
            }
            let mut dec = FecDecoder::new(window);
            for (i, f) in frames.iter().enumerate() {
                if i != lost {
                    assert!(dec.push_data(i as u32, Bytes::from(f.clone())));
                }
            }
            let (seq, payload) = dec.push_parity(parity.unwrap()).unwrap();
            assert_eq!(seq, lost as u32);
            assert_eq!(payload.as_ref(), frames[lost].as_slice());
        }
    }
}

#[test]
fn group_may_start_at_any_number() {
    let mut enc = FecEncoder::new(2);
    assert!(enc.push(1, &[0xAA]).is_none());
    let parity = enc.push(2, &[0xBB]).unwrap();
    assert_eq!((parity.seq_base, parity.payload.as_ref()), (1, &[0x11u8][..]));
    let mut dec = FecDecoder::new(2);
    dec.push_data(1, Bytes::from(vec![0xAA]));
    assert_eq!(dec.push_parity(parity), Some((2, Bytes::from(vec![0xBB]))));

    for base in [2u32, 7, u32::MAX - 1] {
        for lost in 0..4u32 {
            let mut enc = FecEncoder::with_default_window();
            let mut dec = FecDecoder::with_default_window();
            let mut parity = None;
            for i in 0..4u32 {
                let payload = make_payload(i * 9 + 5, 12);
                parity = enc.push(base.wrapping_add(i), &payload);
                if i != lost {
                    dec.push_data(base.wrapping_add(i), Bytes::from(payload));
                }
            }
            let (seq, payload) = dec.push_parity(parity.unwrap()).unwrap();
            assert_eq!(seq, base.wrapping_add(lost));
            assert_eq!(payload.as_ref(), make_payload(lost * 9 + 5, 12).as_slice());
        }
    }
}

#[test]
fn frame_far_away_takes_the_place() {
    let mut enc = FecEncoder::new(2);
    enc.push(0, &[5]);
    let parity = enc.push(1, &[6]).unwrap();
    let mut dec = FecDecoder::new(2);
    dec.push_data(0, Bytes::from(vec![5]));
    dec.push_data(256, Bytes::from(vec![7]));
    assert!(dec.push_parity(parity).is_none());
}

#[test]
fn group_closes_whatever_its_numbers() {
    let mut enc = FecEncoder::with_default_window();
    let mut dec = FecDecoder::with_default_window();
    let mut parity = None;
    for n in [0u32, 1, 3, 4] {
        assert!(parity.is_none());
        parity = enc.push(n, &[1 << n]);
        dec.push_data(n, Bytes::from(vec![1 << n]));
    }
    let parity = parity.unwrap();
    assert_eq!((parity.seq_base, parity.window), (0, 4));
    assert_eq!(parity.payload.as_ref(), &[0b1_1011]);
    // Nothing was lost, and nothing is made up for the number that is left out.
    assert!(dec.push_parity(parity).is_none());
}

#[test]
fn frame_of_another_group_ends_a_group() {
    let mut enc = FecEncoder::new(2);
    enc.push(0, &[5]);
    let parity = enc.push(1, &[6]).unwrap();
    let mut dec = FecDecoder::new(2);
    dec.push_data(0, Bytes::from(vec![5]));
    dec.push_data(2, Bytes::from(vec![7]));
    assert!(dec.push_parity(parity).is_none());
}

#[test]
fn short_lost_frame_comes_back_padded() {
    let mut enc = FecEncoder::new(2);
    enc.push(0, &[1, 2, 3]);
    let parity = enc.push(1, &[9]).unwrap();
    assert_eq!(parity.payload.as_ref(), &[8, 2, 3]);
    let mut dec = FecDecoder::new(2);
    dec.push_data(0, Bytes::from(vec![1, 2, 3]));
    let (seq, payload) = dec.push_parity(parity).unwrap();
    assert_eq!(seq, 1);
    assert_eq!(payload.as_ref(), &[9, 0, 0]);
}

#[test]
fn decoder_reset_forgets_the_group() {
    let mut enc = FecEncoder::new(2);
    enc.push(0, &[5]);
    let parity = enc.push(1, &[6]).unwrap();
    let mut dec = FecDecoder::new(2);
    dec.push_data(0, Bytes::from(vec![5]));
    dec.reset();
    assert!(dec.push_parity(parity).is_none());
}

#[test]
fn window_is_at_least_two() {
    let mut enc = FecEncoder::new(0);
    assert!(enc.push(0, &[1]).is_none());
    assert!(enc.push(1, &[2]).is_some());
    let mut enc = FecEncoder::with_default_window();
    for i in 0..3 {
        assert!(enc.push(i, &[1]).is_none());
    }
    assert!(enc.push(3, &[1]).is_some());
}

#[test]
fn xor_roundtrip() {
    let a = [0xDE, 0xAD, 0xBE, 0xEF];
    let b = [0xCA, 0xFE, 0xBA, 0xBE];
    let mut parity = [0u8; 4];
    xor_into(&mut parity, &a);
    xor_into(&mut parity, &b);
    let mut recovered_a = parity;
    xor_into(&mut recovered_a, &b);
    assert_eq!(recovered_a, a);
}

fn frame(seq: u32) -> Frame {
    Frame {
        sequence: seq,
        timestamp: u64::from(seq) * 20_000,
        payload: Bytes::from(vec![seq as u8; 16]),
    }
}

fn fill_percent(jb: &JitterBuffer) -> f32 {
    jb.occupied() as f32 / jb.capacity() as f32 * 100.0
}

#[test]
fn in_order_stream() {
    let mut jb = JitterBuffer::new(64);
    for i in 0..32 {
        assert!(jb.push(frame(i)));
    }
    for i in 0..32 {
        let f = jb.pop().unwrap();
        assert_eq!(f.sequence, i);
    }
}

#[test]
fn out_of_order_reassembled() {
    let mut jb = JitterBuffer::new(64);
    jb.push(frame(0));
    jb.push(frame(2));
    assert!(jb.pop().is_some());
    assert!(jb.pop().is_none());
    jb.push(frame(1));
    assert_eq!(jb.pop().unwrap().sequence, 1);
    assert_eq!(jb.pop().unwrap().sequence, 2);
}

#[test]
fn rejects_too_far_future() {
    let mut jb = JitterBuffer::new(16);
    jb.push(frame(100));
    assert!(!jb.push(frame(200)));
    assert!(jb.push(frame(115)));
    assert!(!jb.push(frame(116)));
}

#[test]
fn rejects_what_was_consumed() {
    let mut jb = JitterBuffer::new(16);
    jb.push(frame(100));
    jb.pop().unwrap();
    assert_eq!(jb.next_sequence(), 101);
    assert!(!jb.push(frame(100)));
}

#[test]
fn skip_forces_advance() {
    let mut jb = JitterBuffer::new(16);
    jb.push(frame(0));
    jb.push(frame(2));
    jb.skip(2);
    assert_eq!(jb.pop().unwrap().sequence, 2);
}

#[test]
fn fill_percent_updates() {
    let mut jb = JitterBuffer::new(8);
    assert_eq!(fill_percent(&jb), 0.0);
    jb.push(frame(0));
    jb.push(frame(1));
    assert!(fill_percent(&jb) > 0.0);
    assert_eq!(fill_percent(&jb), 25.0);
}

#[test]
fn deadline_gives_a_gap_up() {
    let mut jb = JitterBuffer::new(16);
    jb.push(frame(0));
    jb.pop().unwrap();
    jb.push(frame(2));
    assert!(jb.pop_with_deadline(99, 100).is_none());
    assert_eq!(jb.next_sequence(), 1);
    assert!(jb.pop_with_deadline(100, 100).is_none());
    assert_eq!(jb.next_sequence(), 2);
    assert_eq!(jb.pop_with_deadline(100, 100).unwrap().sequence, 2);
}

#[test]
fn sequence_numbers_wrap() {
    let mut jb = JitterBuffer::new(16);
    for s in [u32::MAX - 1, u32::MAX, 0, 1] {
        assert!(jb.push(frame(s)));
    }
    assert_eq!(jb.gap(), 0);
    for s in [u32::MAX - 1, u32::MAX, 0, 1] {
        assert_eq!(jb.pop().unwrap().sequence, s);
    }
    assert_eq!(jb.gap(), 16);
}

#[test]
fn duplicate_frame_replaces() {
    let mut jb = JitterBuffer::new(16);
    jb.push(frame(5));
    let mut again = frame(5);
    again.payload = Bytes::from(vec![1, 2, 3]);
    assert!(jb.push(again));
    assert_eq!(jb.pop().unwrap().payload.as_ref(), &[1, 2, 3]);
    assert!(jb.pop().is_none());
}

#[test]
fn large_ring_spills_and_keeps_order() {
    let mut jb = JitterBuffer::new(2048);
    for s in (0..2000).rev() {
        if s == 1999 {
            assert!(jb.push(frame(0)));
        }
        assert!(jb.push(frame(s)));
    }
    for s in 0..2000 {
        assert_eq!(jb.pop().unwrap().sequence, s);
    }
}

#[test]
fn jitter_slots_power_of_two() {
    assert_eq!(jitter_slots(40, 20), 16);
    assert_eq!(jitter_slots(100, 20), 16);
    assert_eq!(jitter_slots(1000, 20), 64);
}

#[test]
fn jitter_slots_extremes() {
    assert_eq!(jitter_slots(0, 0), 16);
    assert_eq!(jitter_slots(65535, 0), 65536);
    assert_eq!(jitter_slots(17, 1), 32);
    assert_eq!(jitter_slots(32, 1), 32);
}

#[test]
fn default_config_values() {
    let c = Config::default();
    assert_eq!(c.sample_rate, 48_000);
    assert_eq!(c.supported_codecs, vec![1, 2]);
    assert_eq!(c.mtu, 1200);
    assert!(c.is_usable());
    assert!(c.supports(2));
    assert!(!c.supports(3));
    let low = Config { max_bitrate: 7_999, ..Config::default() };
    assert!(!low.is_usable());
    let deep = Config { jitter_buffer_ms: 3_000, frame_duration_ms: 1, ..Config::default() };
    assert!(!deep.is_usable());
}

#[test]
fn constant_time_eq_works() {
    assert!(constant_time_eq(&[0u8; 16], &[0u8; 16]));
    let mut a = [0u8; 16];
    a[0] = 1;
    assert!(!constant_time_eq(&a, &[0u8; 16]));
}

#[test]
fn key_derivation_deterministic() {
    let secret = [0x42u8; 32];
    let transcript = build_transcript(&[0xAA; 32], &[0xBB; 32], 0x1234_5678);
    let (enc1, dec1) = derive_session_keys(&secret, &transcript);
    let (enc2, dec2) = derive_session_keys(&secret, &transcript);
    assert_eq!(enc1, enc2);
    assert_eq!(dec1, dec2);
    assert_ne!(enc1, dec1, "encrypt and decrypt keys must differ");
}

#[test]
fn auth_tag_deterministic() {
    let key = [0x11u8; 32];
    let transcript = build_transcript(&[1u8; 32], &[2u8; 32], 42);
    let tag1 = derive_auth_tag(&key, b"GS-client-fin-v1", &transcript);
    let tag2 = derive_auth_tag(&key, b"GS-client-fin-v1", &transcript);
    assert_eq!(tag1, tag2);
    let tag3 = derive_auth_tag(&key, b"GS-server-fin-v1", &transcript);
    assert_ne!(tag1, tag3, "client and server tags must differ");
}

#[test]
fn labels_spell_their_text() {
    assert_eq!(&gravital_talk::keys::LABEL_ENCRYPT, b"GS-encrypt-v1");
    assert_eq!(&gravital_talk::keys::LABEL_DECRYPT, b"GS-decrypt-v1");
    assert_eq!(&gravital_talk::keys::LABEL_CLIENT_FIN, b"GS-client-fin-v1");
    assert_eq!(&gravital_talk::keys::LABEL_SERVER_FIN, b"GS-server-fin-v1");
}

#[test]
fn transcript_layout() {
    let t = build_transcript(&[0xAA; 32], &[0xBB; 32], 0x0102_0304);
    assert_eq!(&t[..32], &[0xAA; 32]);
    assert_eq!(&t[32..64], &[0xBB; 32]);
    assert_eq!(&t[64..], &[1, 2, 3, 4]);
}

#[test]
fn key_exchange_agrees() {
    let a = [0x11u8; 32];
    let b = [0x22u8; 32];
    let pa = public_key(&a);
    let pb = public_key(&b);
    assert_ne!(pa, a);
    assert_ne!(pa, pb);
    assert_eq!(shared_secret(&a, &pb), shared_secret(&b, &pa));
    assert_ne!(shared_secret(&a, &pb), pb);
}

#[test]
fn key_exchange_matches_the_published_vector() {
    // RFC 7748, section 6.1.
    let alice: [u8; 32] = [
        0x77, 0x07, 0x6d, 0x0a, 0x73, 0x18, 0xa5, 0x7d, 0x3c, 0x16, 0xc1, 0x72, 0x51, 0xb2, 0x66,
        0x45, 0xdf, 0x4c, 0x2f, 0x87, 0xeb, 0xc0, 0x99, 0x2a, 0xb1, 0x77, 0xfb, 0xa5, 0x1d, 0xb9,
        0x2c, 0x2a,
    ];
    let public: [u8; 32] = [
        0x85, 0x20, 0xf0, 0x09, 0x89, 0x30, 0xa7, 0x54, 0x74, 0x8b, 0x7d, 0xdc, 0xb4, 0x3e, 0xf7,
        0x5a, 0x0d, 0xbf, 0x3a, 0x0d, 0x26, 0x38, 0x1a, 0xf4, 0xeb, 0xa4, 0xa9, 0x8e, 0xaa, 0x9b,
        0x4e, 0x6a,
    ];
    assert_eq!(public_key(&alice), public);
}

#[test]
fn rand_u32_secure_varies() {
    let a = rand_u32_secure();
    let b = rand_u32_secure();
    assert_ne!(a, b);
}

#[test]
fn random_bytes_vary() {
    assert_ne!(random_nonce_32(), random_nonce_32());
    assert_ne!(random_nonce_32(), [0u8; 32]);
    assert_ne!(random_tx_id(), random_tx_id());
}

#[test]
fn transport_error_numbers_and_messages() {
    assert_eq!(TransportError::Io("x".to_string()).code(), -1);
    assert_eq!(TransportError::Timeout.code(), -2);
    assert_eq!(TransportError::Closed.code(), -3);
    let small = TransportError::BufferTooSmall { needed: 1204, have: 1200 };
    assert_eq!(small.code(), -4);
    assert_eq!(small.message(), "buffer too small: need 1204, have 1200");
    assert_eq!(TransportError::Protocol(Error::BadMagic).code(), -5);
    assert_eq!(
        TransportError::Protocol(Error::BadMagic).message(),
        "protocol error: magic bytes mismatch"
    );
    assert_eq!(TransportError::Handshake("h").code(), -6);
    assert_eq!(TransportError::InvalidState("not active").message(), "invalid state: not active");
    assert_eq!(TransportError::PeerClosed("p").code(), -8);
    assert_eq!(TransportError::AuthenticationFailed("a").code(), -9);
}
