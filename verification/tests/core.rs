use gravital_talk::checksum::crc16_ccitt_false;
use gravital_talk::constants::{HEADER_SIZE, MAGIC_BYTES, PROTOCOL_VERSION};
use gravital_talk::crypto::{
    decrypt_in_place, encrypt_in_place, make_nonce, SessionKey, KEY_SIZE, TAG_SIZE,
};
use gravital_talk::error::Error;
use gravital_talk::header::{Flags, PacketHeader};
use gravital_talk::message::{
    ClientHello, ControlBitrateMsg, ErrorCode, KeyExchangeMsg, MessageType, ServerHello,
    SessionConfirm,
};
use gravital_talk::offsets;
use gravital_talk::packet::{PacketBuilder, PacketView};
use gravital_talk::session_state::{SessionEvent, SessionState, SessionStateMachine};

fn test_key() -> SessionKey {
    [0x42u8; KEY_SIZE]
}

#[test]
fn encrypt_decrypt_roundtrip() {
    let key = test_key();
    let nonce = make_nonce(42, 0xDEAD_BEEF);
    let aad = [0u8; 24];
    let plaintext = b"hello gravital sound!";

    let mut buf = [0u8; 64];
    buf[..plaintext.len()].copy_from_slice(plaintext);

    let enc_len = encrypt_in_place(&key, &nonce, &aad, &mut buf, plaintext.len()).unwrap();
    assert_eq!(enc_len, plaintext.len() + TAG_SIZE);

    let dec_len = decrypt_in_place(&key, &nonce, &aad, &mut buf, enc_len).unwrap();
    assert_eq!(dec_len, plaintext.len());
    assert_eq!(&buf[..dec_len], plaintext);
}

#[test]
fn wrong_key_fails() {
    let key = test_key();
    let nonce = make_nonce(1, 1);
    let aad = [0u8; 24];
    let plaintext = b"secret";

    let mut buf = [0u8; 32];
    buf[..plaintext.len()].copy_from_slice(plaintext);
    let enc_len = encrypt_in_place(&key, &nonce, &aad, &mut buf, plaintext.len()).unwrap();

    let bad_key = [0x00u8; KEY_SIZE];
    assert_eq!(
        decrypt_in_place(&bad_key, &nonce, &aad, &mut buf, enc_len),
        Err(Error::DecryptionFailed)
    );
}

#[test]
fn tampered_ciphertext_fails() {
    let key = test_key();
    let nonce = make_nonce(0, 0);
    let aad = [0u8; 24];
    let plaintext = b"tamper test";

    let mut buf = [0u8; 32];
    buf[..plaintext.len()].copy_from_slice(plaintext);
    let enc_len = encrypt_in_place(&key, &nonce, &aad, &mut buf, plaintext.len()).unwrap();

    buf[2] ^= 0xFF;
    assert_eq!(
        decrypt_in_place(&key, &nonce, &aad, &mut buf, enc_len),
        Err(Error::DecryptionFailed)
    );
}

#[test]
fn tampered_aad_fails() {
    let key = test_key();
    let nonce = make_nonce(0, 0);
    let aad = [0u8; 24];
    let plaintext = b"aad test";

    let mut buf = [0u8; 32];
    buf[..plaintext.len()].copy_from_slice(plaintext);
    let enc_len = encrypt_in_place(&key, &nonce, &aad, &mut buf, plaintext.len()).unwrap();

    let bad_aad = [0xFFu8; 24];
    assert_eq!(
        decrypt_in_place(&key, &nonce, &bad_aad, &mut buf, enc_len),
        Err(Error::DecryptionFailed)
    );
}

#[test]
fn nonce_deterministic() {
    assert_eq!(make_nonce(1, 2), make_nonce(1, 2));
    assert_ne!(make_nonce(1, 2), make_nonce(2, 1));
}

#[test]
fn nonce_layout() {
    assert_eq!(
        make_nonce(0x0102_0304, 0xA0B0_C0D0),
        [1, 2, 3, 4, 0xA0, 0xB0, 0xC0, 0xD0, 0, 0, 0, 0]
    );
}

#[test]
fn encryption_changes_the_plaintext() {
    let mut buf = [7u8; 48];
    let n = encrypt_in_place(&test_key(), &make_nonce(3, 4), &[], &mut buf, 32).unwrap();
    assert_eq!(n, 48);
    assert_ne!(&buf[..32], &[7u8; 32]);
    assert_ne!(&buf[32..48], &[7u8; 16]);
}

#[test]
fn aead_matches_the_published_vector() {
    // RFC 8439, section 2.8.2.
    let mut key = [0u8; 32];
    for i in 0..32 {
        key[i] = 0x80 + i as u8;
    }
    let nonce = [0x07, 0, 0, 0, 0x40, 0x41, 0x42, 0x43, 0x44, 0x45, 0x46, 0x47];
    let aad = [0x50, 0x51, 0x52, 0x53, 0xc0, 0xc1, 0xc2, 0xc3, 0xc4, 0xc5, 0xc6, 0xc7];
    let text: &[u8] = b"Ladies and Gentlemen of the class of '99: If I could offer you only one tip for the future, sunscreen would be it.";
    let mut buf = vec![0u8; text.len() + 16];
    buf[..text.len()].copy_from_slice(text);
    let n = encrypt_in_place(&key, &nonce, &aad, &mut buf, text.len()).unwrap();
    assert_eq!(n, text.len() + 16);
    assert_eq!(&buf[..4], &[0xd3, 0x1a, 0x8d, 0x34]);
    assert_eq!(
        &buf[text.len()..],
        &[
            0x1a, 0xe1, 0x0b, 0x59, 0x4f, 0x09, 0xe2, 0x6a, 0x7e, 0x90, 0x2e, 0xcb, 0xd0, 0x60,
            0x06, 0x91
        ]
    );
}

#[test]
fn encryption_needs_room_for_the_tag() {
    let mut buf = [1u8; 20];
    assert_eq!(
        encrypt_in_place(&test_key(), &make_nonce(0, 0), &[], &mut buf, 5),
        Err(Error::BufferTooSmall)
    );
    assert_eq!(buf, [1u8; 20]);
}

#[test]
fn decryption_checks_lengths() {
    let mut buf = [1u8; 20];
    assert_eq!(
        decrypt_in_place(&test_key(), &make_nonce(0, 0), &[], &mut buf, 15),
        Err(Error::TooShort)
    );
    assert_eq!(
        decrypt_in_place(&test_key(), &make_nonce(0, 0), &[], &mut buf, 21),
        Err(Error::BufferTooSmall)
    );
}

#[test]
fn header_roundtrip() {
    let h = PacketHeader {
        version: PROTOCOL_VERSION,
        flags: Flags::fragmented() | Flags::last_fragment(),
        msg_type: 0x10,
        session_id: 0x1234_5678,
        sequence: 0xDEAD_BEEF,
        timestamp: 0x0123_4567_89AB_CDEF,
    };
    let mut buf = [0u8; HEADER_SIZE];
    h.encode(&mut buf).unwrap();
    let decoded = PacketHeader::decode(&buf).unwrap();
    assert_eq!(h, decoded);
}

#[test]
fn header_layout() {
    let h = PacketHeader::new(0x20, 0x0102_0304, 0x0506_0708, 0x090A_0B0C_0D0E_0F10);
    let mut buf = [0xEEu8; 26];
    h.encode(&mut buf).unwrap();
    assert_eq!(
        buf,
        [
            b'G', b'S', 1, 0, 0x20, 0, 0, 0, 1, 2, 3, 4, 5, 6, 7, 8, 9, 10, 11, 12, 13, 14, 15, 16,
            0xEE, 0xEE
        ]
    );
}

#[test]
fn bad_magic_rejected() {
    let mut buf = [0u8; HEADER_SIZE];
    buf[0] = b'X';
    buf[1] = b'Y';
    buf[2] = PROTOCOL_VERSION;
    assert_eq!(PacketHeader::decode(&buf), Err(Error::BadMagic));
}

#[test]
fn bad_version_rejected() {
    let mut buf = [0u8; HEADER_SIZE];
    buf[0] = MAGIC_BYTES[0];
    buf[1] = MAGIC_BYTES[1];
    buf[2] = 0xFF;
    assert_eq!(PacketHeader::decode(&buf), Err(Error::ProtocolMismatch));
}

#[test]
fn short_buffer_rejected() {
    let buf = [0u8; 5];
    assert_eq!(PacketHeader::decode(&buf), Err(Error::TooShort));
}

#[test]
fn flags_bitops() {
    let f = Flags::fragmented() | Flags::last_fragment();
    assert!(f.contains(Flags::fragmented()));
    assert!(f.contains(Flags::last_fragment()));
    assert!(!f.contains(Flags::encrypted()));
}

#[test]
fn flags_set_and_unset() {
    let mut f = Flags::empty();
    f.set(Flags::retransmit());
    f.set(Flags::encrypted());
    assert_eq!(f.bits(), 0b0011_0000);
    f.unset(Flags::retransmit());
    assert_eq!(f.bits(), 0b0010_0000);
    assert_eq!(Flags::default().bits(), 0);
}

#[test]
fn reserved_nonzero_rejected() {
    let h = PacketHeader {
        version: PROTOCOL_VERSION,
        flags: Flags::empty(),
        msg_type: 0x10,
        session_id: 1,
        sequence: 0,
        timestamp: 0,
    };
    let mut buf = [0u8; HEADER_SIZE];
    h.encode(&mut buf).unwrap();
    buf[offsets::RESERVED] = 0xFF;
    assert_eq!(PacketHeader::decode(&buf), Err(Error::ReservedFieldNonZero));
}

#[test]
fn header_encode_needs_room() {
    let mut buf = [9u8; 23];
    assert_eq!(PacketHeader::default().encode(&mut buf), Err(Error::BufferTooSmall));
    assert_eq!(buf, [9u8; 23]);
}

#[test]
fn crc_check_value() {
    assert_eq!(crc16_ccitt_false(b"123456789", 9), 0x29B1);
    assert_eq!(crc16_ccitt_false(b"123456789", 0), 0xFFFF);
}

#[test]
fn packet_decode_boundary_sizes() {
    for n in 0..(HEADER_SIZE + 4) {
        let buf = vec![0u8; n];
        assert!(matches!(PacketView::decode(&buf), Err(Error::TooShort)));
    }
    assert!(matches!(PacketView::decode(&[0u8; 28]), Err(Error::BadMagic)));
}

#[test]
fn reserved_byte_nonzero_rejected() {
    for pos in 0..3 {
        for val in [1u8, 0x80, 255] {
            let mut buf = vec![0u8; HEADER_SIZE + 4];
            buf[0] = b'G';
            buf[1] = b'S';
            buf[2] = 0x01;
            buf[5 + pos] = val;
            assert!(matches!(PacketView::decode(&buf), Err(Error::ReservedFieldNonZero)));
        }
    }
}

#[test]
fn valid_packet_encode_decode_roundtrip() {
    for len in [0usize, 1, 160, 511] {
        let payload: Vec<u8> = (0..len).map(|i| (i * 7) as u8).collect();
        let header = PacketHeader {
            version: 1,
            flags: Flags::empty(),
            msg_type: 0x40,
            session_id: 0xCAFE_F00D,
            sequence: 77,
            timestamp: 123_456_789,
        };
        let mut buf = vec![0u8; HEADER_SIZE + len + 4 + 16];
        let n = PacketBuilder::new(header, &payload).encode(&mut buf).unwrap();
        assert_eq!(n, HEADER_SIZE + len + 4);
        let view = PacketView::decode(&buf[..n]).unwrap_or_else(|e| panic!("{e:?}"));
        assert_eq!(*view.header(), header);
        assert_eq!(view.payload(), payload.as_slice());
    }
}

#[test]
fn checksum_corruption_detected() {
    let header = PacketHeader::new(0x10, 5, 6, 0);
    let payload = [1u8, 2, 3, 4, 5];
    let mut buf = vec![0u8; 64];
    let n = PacketBuilder::new(header, &payload).encode(&mut buf).unwrap();
    for flip in [1u8, 0x10, 0xFF] {
        let mut bad = buf[..n].to_vec();
        bad[n - 1] ^= flip;
        assert!(matches!(PacketView::decode(&bad), Err(Error::BadChecksum)));
    }
    let mut bad = buf[..n].to_vec();
    bad[HEADER_SIZE] ^= 1;
    assert!(matches!(PacketView::decode(&bad), Err(Error::BadChecksum)));
}

#[test]
fn packet_length_mismatch_detected() {
    let header = PacketHeader::new(0x10, 5, 6, 0);
    let mut buf = vec![0u8; 64];
    let n = PacketBuilder::new(header, &[1, 2, 3]).encode(&mut buf).unwrap();
    assert!(matches!(PacketView::decode(&buf[..n + 1]), Err(Error::LengthMismatch)));
}

#[test]
fn packet_encode_limits() {
    let header = PacketHeader::new(0x10, 5, 6, 0);
    let big = vec![0u8; 0x1_0000];
    let mut buf = vec![0u8; 0x1_0100];
    assert_eq!(
        PacketBuilder::new(header, &big).encode(&mut buf),
        Err(Error::PayloadTooLarge)
    );
    assert_eq!(
        PacketBuilder::new(header, &[0u8; 10]).encode(&mut buf[..37]),
        Err(Error::BufferTooSmall)
    );
    assert_eq!(PacketBuilder::new(header, &[0u8; 10]).encode(&mut buf[..38]), Ok(38));
}

#[test]
fn message_type_roundtrip_canonical() {
    for code in [
        0x01u8, 0x02, 0x03, 0x04, 0x10, 0x11, 0x20, 0x21, 0x30, 0x31, 0x32, 0xFE, 0xFF,
    ] {
        let m = MessageType::from_code(code).unwrap();
        assert_eq!(m.code(), code);
    }
}

#[test]
fn message_type_extension_range() {
    for code in 0x40u8..=0x7F {
        assert_eq!(
            MessageType::from_code(code).unwrap(),
            MessageType::Extension(code)
        );
    }
}

#[test]
fn message_type_unknown_rejected() {
    assert!(MessageType::from_code(0x05).is_err());
    assert!(MessageType::from_code(0x80).is_err());
    assert!(MessageType::from_code(0xAA).is_err());
    assert_eq!(MessageType::from_code(0xAA), Err(Error::UnknownMessageType(0xAA)));
}

#[test]
fn client_hello_roundtrip() {
    let hello = ClientHello {
        ephemeral_public_key: [0xABu8; 32],
        client_nonce: [0xCDu8; 32],
        protocol_version: 1,
        codec_preferred: 2,
        sample_rate: 48000,
        channels: 2,
        frame_duration_ms: 20,
        max_bitrate: 64000,
        capability_flags: 0xDEAD_BEEF,
    };
    let mut buf = [0u8; ClientHello::SIZE];
    hello.encode(&mut buf).unwrap();
    assert_eq!(ClientHello::decode(&buf).unwrap(), hello);
}

#[test]
fn server_hello_roundtrip() {
    let hello = ServerHello {
        ephemeral_public_key: [0x11u8; 32],
        server_nonce: [0x22u8; 32],
        session_id: 0x4242_4242,
        protocol_version: 1,
        codec_accepted: 2,
        sample_rate: 48000,
        channels: 1,
        frame_duration_ms: 10,
        max_bitrate: 128000,
        capability_flags: 0,
    };
    let mut buf = [0u8; ServerHello::SIZE];
    hello.encode(&mut buf).unwrap();
    assert_eq!(ServerHello::decode(&buf).unwrap(), hello);
}

#[test]
fn key_exchange_roundtrip() {
    let msg = KeyExchangeMsg {
        session_id: 0x1234_5678,
        auth_tag: [0xFEu8; 16],
    };
    let mut buf = [0u8; KeyExchangeMsg::SIZE];
    msg.encode(&mut buf).unwrap();
    assert_eq!(KeyExchangeMsg::decode(&buf).unwrap(), msg);
}

#[test]
fn session_confirm_roundtrip() {
    let confirm = SessionConfirm {
        session_id: 0x7777_1111,
        server_auth_tag: [0x99u8; 16],
    };
    let mut buf = [0u8; SessionConfirm::SIZE];
    confirm.encode(&mut buf).unwrap();
    assert_eq!(SessionConfirm::decode(&buf).unwrap(), confirm);
}

#[test]
fn control_bitrate_roundtrip() {
    let msg = ControlBitrateMsg { requested_bitrate: 0x0102_0304 };
    let mut buf = [0u8; ControlBitrateMsg::SIZE];
    msg.encode(&mut buf).unwrap();
    assert_eq!(buf, [1, 2, 3, 4]);
    assert_eq!(ControlBitrateMsg::decode(&buf).unwrap(), msg);
}

#[test]
fn short_payloads_are_malformed() {
    let buf = [0u8; 84];
    assert_eq!(ClientHello::decode(&buf[..79]), Err(Error::MalformedPayload));
    assert_eq!(ServerHello::decode(&buf[..83]), Err(Error::MalformedPayload));
    assert_eq!(KeyExchangeMsg::decode(&buf[..19]), Err(Error::MalformedPayload));
    assert_eq!(SessionConfirm::decode(&buf[..19]), Err(Error::MalformedPayload));
    assert_eq!(ControlBitrateMsg::decode(&buf[..3]), Err(Error::MalformedPayload));
}

#[test]
fn payload_encode_needs_room() {
    let msg = KeyExchangeMsg { session_id: 1, auth_tag: [2u8; 16] };
    let mut buf = [5u8; 19];
    assert_eq!(msg.encode(&mut buf), Err(Error::BufferTooSmall));
    assert_eq!(buf, [5u8; 19]);
}

#[test]
fn error_code_roundtrip() {
    for code in [0x01u8, 0x02, 0x03, 0x04, 0x05, 0x06, 0x07, 0x08, 0xFF] {
        let e = ErrorCode::from_code(code).unwrap();
        assert_eq!(e.code(), code);
    }
}

#[test]
fn error_code_unknown_rejected() {
    assert_eq!(ErrorCode::from_code(0), Err(Error::MalformedPayload));
    assert_eq!(ErrorCode::from_code(9), Err(Error::MalformedPayload));
}

#[test]
fn is_handshake_covers_all_four() {
    assert!(MessageType::HandshakeClientHello.is_handshake());
    assert!(MessageType::HandshakeServerHello.is_handshake());
    assert!(MessageType::HandshakeSessionConfirm.is_handshake());
    assert!(MessageType::HandshakeKeyExchange.is_handshake());
    assert!(!MessageType::AudioFrame.is_handshake());
}

#[test]
fn error_numbers_and_messages() {
    assert_eq!(Error::TooShort.code(), 1);
    assert_eq!(Error::UnknownMessageType(0x05).code(), 6);
    assert_eq!(Error::VersionNegotiationFailed.code(), 17);
    assert_eq!(Error::TooShort.message(), "buffer shorter than header size");
    assert_eq!(
        Error::UnknownMessageType(0xAF).message(),
        "unknown message type: 0xAF"
    );
    assert_eq!(
        Error::DecryptionFailed.message(),
        "AEAD decryption/authentication failed"
    );
}

#[test]
fn happy_path_client() {
    let mut sm = SessionStateMachine::new();
    assert_eq!(sm.state(), SessionState::Idle);
    sm.transition(SessionEvent::StartConnect).unwrap();
    assert_eq!(sm.state(), SessionState::Handshaking);
    sm.transition(SessionEvent::HandshakeOk).unwrap();
    assert_eq!(sm.state(), SessionState::Active);
    sm.transition(SessionEvent::Close).unwrap();
    assert_eq!(sm.state(), SessionState::Closing);
    sm.transition(SessionEvent::PeerClosed).unwrap();
    assert_eq!(sm.state(), SessionState::Closed);
}

#[test]
fn pause_resume_cycle() {
    let mut sm = SessionStateMachine::new();
    sm.transition(SessionEvent::StartAccept).unwrap();
    sm.transition(SessionEvent::HandshakeOk).unwrap();
    sm.transition(SessionEvent::Pause).unwrap();
    assert_eq!(sm.state(), SessionState::Paused);
    sm.transition(SessionEvent::Resume).unwrap();
    assert_eq!(sm.state(), SessionState::Active);
}

#[test]
fn invalid_transition_preserves_state() {
    let mut sm = SessionStateMachine::new();
    let err = sm.transition(SessionEvent::Resume).unwrap_err();
    assert_eq!(err.from, SessionState::Idle);
    assert_eq!(err.event, SessionEvent::Resume);
    assert_eq!(sm.state(), SessionState::Idle);
}

#[test]
fn handshake_timeout_to_closed() {
    let mut sm = SessionStateMachine::new();
    sm.transition(SessionEvent::StartConnect).unwrap();
    sm.transition(SessionEvent::HandshakeTimeout).unwrap();
    assert_eq!(sm.state(), SessionState::Closed);
}

#[test]
fn peer_timeout_from_active() {
    let mut sm = SessionStateMachine::new();
    sm.transition(SessionEvent::StartAccept).unwrap();
    sm.transition(SessionEvent::HandshakeOk).unwrap();
    sm.transition(SessionEvent::PeerTimeout).unwrap();
    assert_eq!(sm.state(), SessionState::Closing);
}

#[test]
fn fatal_error_to_error_state() {
    let mut sm = SessionStateMachine::new();
    sm.transition(SessionEvent::StartConnect).unwrap();
    sm.transition(SessionEvent::HandshakeOk).unwrap();
    sm.transition(SessionEvent::FatalError).unwrap();
    assert_eq!(sm.state(), SessionState::Error);
}

#[test]
fn reconnect_flow() {
    let mut sm = SessionStateMachine::new();
    sm.transition(SessionEvent::StartConnect).unwrap();
    sm.transition(SessionEvent::HandshakeOk).unwrap();
    sm.transition(SessionEvent::FatalError).unwrap();
    assert_eq!(sm.state(), SessionState::Error);
    sm.transition(SessionEvent::Reconnect).unwrap();
    assert_eq!(sm.state(), SessionState::Reconnecting);
    sm.transition(SessionEvent::StartConnect).unwrap();
    assert_eq!(sm.state(), SessionState::Handshaking);
    sm.transition(SessionEvent::HandshakeOk).unwrap();
    assert_eq!(sm.state(), SessionState::Active);
}

#[test]
fn reconnect_from_closed() {
    let mut sm = SessionStateMachine::new();
    sm.transition(SessionEvent::StartConnect).unwrap();
    sm.transition(SessionEvent::HandshakeTimeout).unwrap();
    assert_eq!(sm.state(), SessionState::Closed);
    sm.transition(SessionEvent::Reconnect).unwrap();
    assert_eq!(sm.state(), SessionState::Reconnecting);
}

#[test]
fn reconnect_failure_goes_to_error() {
    let mut sm = SessionStateMachine::new();
    sm.transition(SessionEvent::StartConnect).unwrap();
    sm.transition(SessionEvent::HandshakeOk).unwrap();
    sm.transition(SessionEvent::FatalError).unwrap();
    sm.transition(SessionEvent::Reconnect).unwrap();
    sm.transition(SessionEvent::HandshakeTimeout).unwrap();
    assert_eq!(sm.state(), SessionState::Error);
}

#[test]
fn state_code_roundtrip() {
    for s in [
        SessionState::Idle,
        SessionState::Handshaking,
        SessionState::Active,
        SessionState::Paused,
        SessionState::Closing,
        SessionState::Closed,
        SessionState::Error,
        SessionState::Reconnecting,
    ] {
        assert_eq!(SessionState::from_code(s.code()).unwrap(), s);
    }
    assert_eq!(SessionState::from_code(8), Err(Error::MalformedPayload));
}

#[test]
fn is_operational() {
    assert!(SessionState::Active.is_operational());
    assert!(SessionState::Paused.is_operational());
    assert!(!SessionState::Idle.is_operational());
    assert!(!SessionState::Error.is_operational());
}

#[test]
fn is_terminal() {
    assert!(SessionState::Closed.is_terminal());
    assert!(SessionState::Error.is_terminal());
    assert!(!SessionState::Active.is_terminal());
    assert!(!SessionState::Reconnecting.is_terminal());
}
