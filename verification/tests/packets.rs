use tt_server::failure::{Failure, FailureKind, QuicError};
use tt_server::quic_multiplexer::events::MultiplexerMessage;
use tt_server::quic_multiplexer::packets::{
    conn_id_seed, generate_conn_id_seed, proceed_established_connection, proceed_handshake, quic_recv,
    ConnectionState, HandshakeStatus, PacketGate, PacketHeader, PacketType, UnknownPacketStatus,
};
use tt_server::quic_multiplexer::tls::{certificate_plan, idle_timeout_millis, CertificatePlan};
use tt_server::quic_multiplexer::udp::{flush_pending_data, udp_socket_send_to, FlushStep};
use tt_server::quic_token::{mint_token, socket_addr_to_vec, validate_token, PeerAddr};

const PEER: PeerAddr = PeerAddr::V4 {
    ip: [192, 0, 2, 1],
    port: 0x1234,
};
const PEER_V6: PeerAddr = PeerAddr::V6 {
    ip: [0x20, 1, 0xd, 0xb8, 0, 0, 0, 0, 0, 0, 0, 0, 0, 0, 0, 1],
    port: 443,
    flowinfo: 5,
    scope_id: 7,
};

fn gate() -> PacketGate {
    PacketGate::new(*b"0123456789abcdef", [0x0b; 32])
}

fn initial(dcid: &[u8], token: Option<&[u8]>) -> PacketHeader {
    PacketHeader {
        ty: PacketType::Initial,
        version: 1,
        dcid: dcid.to_vec(),
        scid: vec![1, 2, 3],
        token: token.map(|t| t.to_vec()),
        text: "header".to_string(),
    }
}

fn dropped(result: Result<UnknownPacketStatus, Failure>, message: &str) {
    match result {
        Ok(_) => panic!("not expected"),
        Err(failure) => {
            assert_eq!(failure.kind, FailureKind::Other);
            assert_eq!(failure.message.as_deref(), Some(message));
        }
    }
}

#[test]
fn addresses_are_written_in_network_order() {
    assert_eq!(socket_addr_to_vec(&PEER), vec![192, 0, 2, 1, 0x12, 0x34]);
    assert_eq!(socket_addr_to_vec(&PEER_V6).len(), 18);
    assert_eq!(socket_addr_to_vec(&PEER_V6)[15..], [1, 1, 0xbb]);
    let elsewhere = PeerAddr::V6 {
        ip: [0x20, 1, 0xd, 0xb8, 0, 0, 0, 0, 0, 0, 0, 0, 0, 0, 0, 1],
        port: 443,
        flowinfo: 0,
        scope_id: 0,
    };
    assert_ne!(elsewhere, PEER_V6);
    assert_eq!(socket_addr_to_vec(&elsewhere), socket_addr_to_vec(&PEER_V6));
}

#[test]
fn tokens_are_bound_to_prefix_and_peer() {
    let prefix = *b"0123456789abcdef";
    let token = mint_token(b"conn", &prefix, &PEER);
    assert_eq!(token, b"0123456789abcdef\xc0\x00\x02\x01\x12\x34conn");
    assert_eq!(validate_token(&prefix, &PEER, &token), Some(&b"conn"[..]));
    assert_eq!(validate_token(&[0; 16], &PEER, &token), None);
    assert_eq!(validate_token(&prefix, &PEER_V6, &token), None);
    let moved = PeerAddr::V4 {
        ip: [192, 0, 2, 1],
        port: 0x1235,
    };
    assert_eq!(validate_token(&prefix, &moved, &token), None);
    assert_eq!(validate_token(&prefix, &PEER, &token[..20]), None);
    assert_eq!(validate_token(&prefix, &PEER, b""), None);
}

#[test]
fn only_initial_packets_open_connections() {
    for ty in [
        PacketType::Retry,
        PacketType::Handshake,
        PacketType::ZeroRTT,
        PacketType::VersionNegotiation,
        PacketType::Short,
    ] {
        let header = PacketHeader {
            ty,
            ..initial(&[0; 20], Some(b""))
        };
        dropped(
            gate().on_unknown_quic_packet(&PEER, &header),
            "Unexpected packet type: header",
        );
    }
}

#[test]
fn unknown_versions_are_negotiated() {
    for version in [0, 2, 0xff00_001d, 0x1a2a_3a4a] {
        let header = PacketHeader {
            version,
            ..initial(&[0; 20], None)
        };
        assert!(matches!(
            gate().on_unknown_quic_packet(&PEER, &header),
            Ok(UnknownPacketStatus::Negotiate)
        ));
    }
}

#[test]
fn peers_are_told_to_try_again() {
    // The first test case of RFC 4231. Zeros at the end of a key do not change it.
    let mut seed = [0u8; 32];
    seed[..20].copy_from_slice(&[0x0b; 20]);
    let gate = PacketGate::new(*b"0123456789abcdef", seed);
    match gate.on_unknown_quic_packet(&PEER, &initial(b"Hi There", Some(b""))) {
        Ok(UnknownPacketStatus::Retry { scid, token }) => {
            assert_eq!(
                scid,
                [
                    0xb0, 0x34, 0x4c, 0x61, 0xd8, 0xdb, 0x38, 0x53, 0x5c, 0xa8, 0xaf, 0xce, 0xaf,
                    0x0b, 0xf1, 0x2b, 0x88, 0x1d, 0xc2, 0x00
                ]
            );
            assert_eq!(token, b"0123456789abcdef\xc0\x00\x02\x01\x12\x34Hi There");
        }
        _ => panic!("not expected"),
    }
}

#[test]
fn retried_packet_is_accepted() {
    let gate = gate();
    let (scid, token) =
        match gate.on_unknown_quic_packet(&PEER_V6, &initial(b"first", Some(b""))) {
            Ok(UnknownPacketStatus::Retry { scid, token }) => (scid, token),
            _ => panic!("not expected"),
        };
    match gate.on_unknown_quic_packet(&PEER_V6, &initial(&scid, Some(&token))) {
        Ok(UnknownPacketStatus::Accept { odcid }) => assert_eq!(odcid, b"first"),
        _ => panic!("not expected"),
    }
    dropped(
        gate.on_unknown_quic_packet(&PEER, &initial(&scid, Some(&token))),
        "Invalid packet: unexpected token",
    );
}

#[test]
fn invalid_initial_packets_are_dropped() {
    dropped(
        gate().on_unknown_quic_packet(&PEER, &initial(&[0; 20], None)),
        "Invalid packet: initial packet must contain token",
    );
    dropped(
        gate().on_unknown_quic_packet(&PEER, &initial(&[0; 19], Some(b"x"))),
        "Invalid packet: unexpected destination connection ID",
    );
    dropped(
        gate().on_unknown_quic_packet(&PEER, &initial(&[0; 20], Some(b"x"))),
        "Invalid packet: unexpected token",
    );
}

#[test]
fn secrets_differ() {
    assert_ne!(
        generate_conn_id_seed().unwrap(),
        generate_conn_id_seed().unwrap()
    );
    let first = PacketGate::generate([1; 32]).unwrap();
    let second = PacketGate::generate([1; 32]).unwrap();
    let header = initial(b"first", Some(b""));
    match (
        first.on_unknown_quic_packet(&PEER, &header),
        second.on_unknown_quic_packet(&PEER, &header),
    ) {
        (
            Ok(UnknownPacketStatus::Retry { scid: id, token }),
            Ok(UnknownPacketStatus::Retry {
                scid: other_id,
                token: other_token,
            }),
        ) => {
            assert_eq!(id, other_id);
            assert_ne!(token, other_token);
        }
        _ => panic!("not expected"),
    }
}

#[test]
fn receive_failures_are_worded() {
    assert!(quic_recv(Ok(3)).is_ok());
    let failure = quic_recv(Err(QuicError::Other("CryptoFail".into()))).unwrap_err();
    assert_eq!(
        failure.message.as_deref(),
        Some("QUIC receive failure: CryptoFail")
    );
    assert!(matches!(
        proceed_established_connection(Ok(3)),
        Ok(MultiplexerMessage::PollH3)
    ));
    let failure = proceed_established_connection(Err(QuicError::StreamStopped(5))).unwrap_err();
    assert_eq!(
        failure.message.as_deref(),
        Some("QUIC receive failure: StreamStopped(5)")
    );
}

fn state(closed: bool, draining: bool, established: bool, in_early_data: bool) -> ConnectionState {
    ConnectionState {
        closed,
        draining,
        established,
        in_early_data,
    }
}

#[test]
fn handshakes_proceed() {
    let status = |state| proceed_handshake(Ok(()), state, "id");
    assert_eq!(
        status(state(false, false, false, false)).unwrap(),
        HandshakeStatus::InProgress
    );
    assert_eq!(
        status(state(false, false, true, false)).unwrap(),
        HandshakeStatus::Complete
    );
    assert_eq!(
        status(state(false, false, false, true)).unwrap(),
        HandshakeStatus::Complete
    );
    assert_eq!(
        status(state(false, true, true, true)).unwrap(),
        HandshakeStatus::InProgress
    );
    assert_eq!(
        status(state(true, true, true, true)).unwrap_err().message.as_deref(),
        Some("[id] Connection closed")
    );
    assert_eq!(
        proceed_handshake(Err(Failure::other("x")), state(true, true, true, true), "id")
            .unwrap_err()
            .message
            .as_deref(),
        Some("x")
    );
    assert!(state(false, false, false, true).is_usable());
    assert!(!state(false, true, false, false).is_usable());
}

#[test]
fn packets_are_flushed_one_by_one() {
    assert!(matches!(flush_pending_data(Ok(1200)), FlushStep::Transmit(1200)));
    assert!(matches!(flush_pending_data(Err(QuicError::Done)), FlushStep::Done));
    match flush_pending_data(Err(QuicError::InvalidStreamState(3))) {
        FlushStep::Fail(failure) => {
            assert_eq!(failure.message.as_deref(), Some("InvalidStreamState(3)"))
        }
        _ => panic!("not expected"),
    }
}

#[test]
fn packets_without_room_are_dropped() {
    assert!(udp_socket_send_to(None, 105));
    assert!(udp_socket_send_to(Some((FailureKind::WouldBlock, Some(11))), 105));
    assert!(udp_socket_send_to(Some((FailureKind::Other, Some(105))), 105));
    assert!(!udp_socket_send_to(Some((FailureKind::Other, Some(111))), 105));
    assert!(!udp_socket_send_to(Some((FailureKind::Other, None)), 105));
}

#[test]
fn certificates_follow_the_host() {
    assert!(matches!(certificate_plan::<u8>(None), CertificatePlan::Bootstrap));
    assert!(matches!(
        certificate_plan::<u8>(Some(&vec![])),
        CertificatePlan::Refuse
    ));
    match certificate_plan(Some(&vec![1, 2, 3])) {
        CertificatePlan::Install { leaf, intermediates } => {
            assert_eq!(*leaf, 1);
            assert_eq!(intermediates, [2, 3]);
        }
        _ => panic!("not expected"),
    }
}

#[test]
fn idle_timeout_is_counted_in_milliseconds() {
    assert_eq!(idle_timeout_millis(0, 999_999), 0);
    assert_eq!(idle_timeout_millis(600, 1_500_000), 600_001);
    assert_eq!(
        idle_timeout_millis(u64::MAX, 0),
        std::time::Duration::from_secs(u64::MAX).as_millis() as u64
    );
}

#[test]
fn seed_is_what_the_generator_came_up_with() {
    assert_eq!(conn_id_seed(Ok([7; 32])).unwrap(), [7; 32]);
    let failure = conn_id_seed(Err(ring::error::Unspecified)).unwrap_err();
    assert_eq!(failure.kind, FailureKind::Other);
    assert_eq!(failure.message.as_deref(), Some("No random numbers"));
}

#[test]
fn tokens_begin_with_what_the_generator_came_up_with() {
    let gate = PacketGate::with_random_prefix(Ok([9; 16]), [1; 32]).unwrap();
    match gate.on_unknown_quic_packet(&PEER, &initial(b"first", Some(b""))) {
        Ok(UnknownPacketStatus::Retry { token, .. }) => assert_eq!(token[..16], [9; 16]),
        _ => panic!("not expected"),
    }
    match PacketGate::with_random_prefix(Err(ring::error::Unspecified), [1; 32]) {
        Ok(_) => panic!("not expected"),
        Err(failure) => assert_eq!(failure.message.as_deref(), Some("No random numbers")),
    }
}
