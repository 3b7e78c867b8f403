use tt_server::failure::{Failure, FailureKind};
use tt_server::quic_multiplexer::batch::{
    on_message_sent, on_packet_failed, BackgroundConnection, ReadBatch, SendOutcome, READ_BUDGET,
};
use tt_server::quic_multiplexer::events::{MultiplexerMessage, SocketMessage};
use tt_server::quic_multiplexer::multiplexer::{
    connection_meta, Connection, HandshakeStep, ListenRound, PacketStep, PendingMessage,
    QuicMultiplexer, SocketMessageStep, WaitEvent,
};
use tt_server::quic_multiplexer::packets::{
    HandshakeStatus, PacketGate, PacketHeader, PacketType, UnknownPacketStatus,
};
use tt_server::quic_token::PeerAddr;

type Multiplexer = QuicMultiplexer<u32, &'static str, char>;

const PEER: PeerAddr = PeerAddr::V4 {
    ip: [192, 0, 2, 1],
    port: 4433,
};

fn multiplexer() -> Multiplexer {
    QuicMultiplexer::with_gate(PacketGate::new([1; 16], [2; 32]))
}

fn id(byte: u8) -> Vec<u8> {
    vec![byte; 20]
}

fn header(dcid: Vec<u8>) -> PacketHeader {
    PacketHeader {
        ty: PacketType::Initial,
        version: 1,
        dcid,
        scid: vec![],
        token: Some(vec![]),
        text: String::new(),
    }
}

fn establish(multiplexer: &mut Multiplexer, byte: u8, quic: u32, tx: char) {
    let socket = multiplexer.finalize_established_connection(
        id(byte),
        quic,
        tx,
        quic as u64,
        PEER,
        "meta",
        vec![byte],
    );
    assert_eq!(socket.id(), quic as u64);
    assert_eq!(socket.peer_addr(), PEER);
    assert_eq!(*socket.tls_connection_meta(), "meta");
    assert_eq!(socket.client_random(), vec![byte]);
}

#[test]
fn new_multiplexer_has_no_connections() {
    let multiplexer: Multiplexer = QuicMultiplexer::new([3; 32]).unwrap();
    assert!(multiplexer.connections().is_empty());
    assert_eq!(multiplexer.wait_until(0), None);
    assert!(matches!(
        multiplexer.on_quic_packet(&PEER, &header(id(1))),
        PacketStep::Unknown(UnknownPacketStatus::Retry { .. })
    ));
}

#[test]
fn packets_go_to_their_connections() {
    let mut multiplexer = multiplexer();
    assert_eq!(multiplexer.on_new_connection(id(1), 10, "boot", false), None);
    establish(&mut multiplexer, 2, 20, 'b');
    assert!(matches!(
        multiplexer.on_quic_packet(&PEER, &header(id(1))),
        PacketStep::Handshake
    ));
    assert!(matches!(
        multiplexer.on_quic_packet(&PEER, &header(id(2))),
        PacketStep::Established
    ));
    assert!(matches!(
        multiplexer.on_quic_packet(&PEER, &header(id(3))),
        PacketStep::Unknown(UnknownPacketStatus::Retry { .. })
    ));
    let short = PacketHeader {
        ty: PacketType::Short,
        ..header(id(3))
    };
    assert!(matches!(
        multiplexer.on_quic_packet(&PEER, &short),
        PacketStep::Drop(_)
    ));
    assert_eq!(*multiplexer.connection(&id(1)).unwrap().quic_conn(), 10);
    assert_eq!(*multiplexer.connection(&id(2)).unwrap().quic_conn(), 20);
    assert!(multiplexer.connection(&id(3)).is_none());
}

#[test]
fn usable_connection_skips_the_handshake() {
    let mut multiplexer = multiplexer();
    assert_eq!(
        multiplexer.on_new_connection(id(1), 10, "boot", true),
        Some((10, "boot"))
    );
    assert!(multiplexer.connection(&id(1)).is_none());
}

#[test]
fn complete_handshake_takes_the_connection_out() {
    let mut multiplexer = multiplexer();
    multiplexer.on_new_connection(id(1), 10, "boot", false);
    multiplexer.update_connection_deadline(id(1), 100, 50);
    assert!(matches!(
        multiplexer.on_handshake_packet(&id(1), Ok(HandshakeStatus::InProgress)),
        HandshakeStep::InProgress
    ));
    match multiplexer.on_handshake_packet(&id(1), Err(Failure::other("x"))) {
        HandshakeStep::Failed(failure) => assert_eq!(failure.message.as_deref(), Some("x")),
        _ => panic!("not expected"),
    }
    assert!(multiplexer.connection(&id(1)).is_some());
    assert!(matches!(
        multiplexer.on_handshake_packet(&id(1), Ok(HandshakeStatus::Complete)),
        HandshakeStep::Complete {
            quic_conn: 10,
            tls_connection_meta: "boot"
        }
    ));
    assert!(multiplexer.connection(&id(1)).is_none());
    // The closest deadline is computed anew only when deadlines are set or time out.
    assert_eq!(multiplexer.wait_until(100), Some(150));
    assert!(multiplexer.process_timeouts(150).is_empty());
    assert_eq!(multiplexer.wait_until(100), None);
}

#[test]
fn closest_deadline_is_waited_for() {
    let mut multiplexer = multiplexer();
    multiplexer.update_connection_deadline(id(1), 100, 50);
    multiplexer.update_connection_deadline(id(2), 100, 20);
    multiplexer.update_connection_deadline(id(3), 100, 70);
    assert_eq!(multiplexer.wait_until(100), Some(120));
    assert_eq!(multiplexer.wait_until(119), Some(120));
    assert_eq!(multiplexer.wait_until(120), None);
    multiplexer.update_connection_deadline(id(2), 100, 80);
    assert_eq!(multiplexer.wait_until(100), Some(150));
}

#[test]
fn timed_out_connections_are_told_once() {
    let mut multiplexer = multiplexer();
    establish(&mut multiplexer, 1, 10, 'a');
    establish(&mut multiplexer, 2, 20, 'b');
    for byte in [1, 2, 3] {
        multiplexer.update_connection_deadline(id(byte), 100, byte as u128 * 10);
    }
    assert!(multiplexer.process_timeouts(109).is_empty());
    assert_eq!(multiplexer.process_timeouts(110), vec![id(1)]);
    assert_eq!(multiplexer.wait_until(110), Some(120));
    let timed_out = multiplexer.process_timeouts(200);
    assert_eq!(timed_out, vec![id(2)]);
    assert!(multiplexer.process_timeouts(200).is_empty());
    assert_eq!(multiplexer.wait_until(0), None);
}

#[test]
fn sockets_close_and_refresh() {
    let mut multiplexer = multiplexer();
    establish(&mut multiplexer, 1, 10, 'a');
    match multiplexer.on_socket_message(SocketMessage::RefreshDeadline(id(1))) {
        SocketMessageStep::ReadTimeout(conn_id) => {
            multiplexer.refresh_deadline(conn_id, 100, Some(30))
        }
        _ => panic!("not expected"),
    }
    assert_eq!(multiplexer.wait_until(0), Some(130));
    multiplexer.refresh_deadline(id(1), 110, None);
    assert_eq!(multiplexer.wait_until(0), None);
    assert!(matches!(
        multiplexer.on_socket_message(SocketMessage::Close(id(1))),
        SocketMessageStep::Nothing
    ));
    assert!(multiplexer.connection(&id(1)).is_none());
    assert!(matches!(
        multiplexer.on_socket_message(SocketMessage::RefreshDeadline(id(1))),
        SocketMessageStep::Nothing
    ));
}

#[test]
fn closed_connections_are_forgotten() {
    let mut multiplexer = multiplexer();
    multiplexer.on_new_connection(id(1), 10, "boot", false);
    establish(&mut multiplexer, 2, 20, 'b');
    establish(&mut multiplexer, 3, 30, 'c');
    establish(&mut multiplexer, 4, 40, 'd');
    multiplexer.update_connection_deadline(id(3), 0, 5);
    let sockets =
        multiplexer.remove_closed_connections(&vec![id(4), id(1), id(3), id(9), id(4)]);
    assert_eq!(sockets, vec!['d', 'c']);
    assert_eq!(multiplexer.connections().len(), 1);
    assert!(matches!(
        multiplexer.connection(&id(2)),
        Some(Connection::Established {
            quic_conn: 20,
            socket_tx: 'b'
        })
    ));
    assert!(multiplexer.process_timeouts(1000).is_empty());
}

#[test]
fn rounds_begin_with_what_was_waited_for() {
    let multiplexer = multiplexer();
    assert!(matches!(multiplexer.listen(WaitEvent::Readable), Ok(ListenRound::ReadUdp)));
    assert!(matches!(multiplexer.listen(WaitEvent::Timeout), Ok(ListenRound::Nothing)));
    assert!(matches!(
        multiplexer.listen(WaitEvent::Message(SocketMessage::Close(id(1)))),
        Ok(ListenRound::HandleMessage(SocketMessage::Close(_)))
    ));
    match multiplexer.listen(WaitEvent::Disconnected) {
        Err(failure) => assert_eq!(
            failure.message.as_deref(),
            Some("Message receiving channel closed unexpectedly")
        ),
        _ => panic!("not expected"),
    }
}

#[test]
fn rounds_end_with_the_messages_that_are_left() {
    let multiplexer = multiplexer();
    assert!(matches!(
        multiplexer.process_pending_socket_messages(PendingMessage::Message(
            SocketMessage::Close(id(1))
        )),
        Ok(Some(SocketMessage::Close(_)))
    ));
    assert!(matches!(
        multiplexer.process_pending_socket_messages(PendingMessage::Empty),
        Ok(None)
    ));
    match multiplexer.process_pending_socket_messages(PendingMessage::Disconnected) {
        Err(failure) => assert_eq!(
            failure.message.as_deref(),
            Some("Message receive channel closed unexpectedly")
        ),
        _ => panic!("not expected"),
    }
}

#[test]
fn batch_collects_what_connections_are_owed() {
    let mut batch: ReadBatch<u32, char> = ReadBatch::new();
    batch.on_background(id(1), BackgroundConnection::with_conn(10));
    batch.on_background(
        id(1),
        BackgroundConnection {
            quic: 11,
            message: Some(('a', MultiplexerMessage::PollH3)),
        },
    );
    batch.on_background(
        id(1),
        BackgroundConnection {
            quic: 12,
            message: Some(('b', MultiplexerMessage::PollH3)),
        },
    );
    assert!(batch.next_read());
    batch.on_new_socket(id(2), 20);
    assert!(!batch.next_read());
    let mut entries = batch.into_entries();
    entries.sort_by_key(|(conn_id, _)| conn_id.clone());
    assert_eq!(entries.len(), 2);
    assert_eq!(entries[0].0, id(1));
    assert_eq!(entries[0].1.conn, 10);
    assert_eq!(entries[0].1.socket_tx, Some('b'));
    assert_eq!(entries[0].1.messages(), vec![MultiplexerMessage::PollH3]);
    assert_eq!(entries[1].0, id(2));
    assert_eq!(entries[1].1.conn, 20);
    assert!(entries[1].1.messages().is_empty());
}

#[test]
fn polls_come_before_closes() {
    let mut batch: ReadBatch<u32, char> = ReadBatch::new();
    for message in [MultiplexerMessage::Close, MultiplexerMessage::PollH3] {
        batch.on_background(
            id(1),
            BackgroundConnection {
                quic: 10,
                message: Some(('a', message)),
            },
        );
    }
    assert_eq!(
        batch.into_entries()[0].1.messages(),
        vec![MultiplexerMessage::PollH3, MultiplexerMessage::Close]
    );
}

#[test]
fn batch_ends_with_its_budget() {
    let mut batch: ReadBatch<u32, char> = ReadBatch::new();
    let mut reads = 0;
    while batch.next_read() {
        reads += 1;
    }
    assert_eq!(reads, READ_BUDGET);
    assert_eq!(reads, 1024);
}

#[test]
fn batch_ends_when_there_is_nothing_to_read() {
    let mut batch: ReadBatch<u32, char> = ReadBatch::new();
    assert!(!batch.on_read_failed(FailureKind::Other));
    assert!(batch.next_read());
    assert!(batch.on_read_failed(FailureKind::WouldBlock));
    assert!(!batch.next_read());
}

#[test]
fn full_queues_are_no_failure() {
    assert!(on_message_sent(SendOutcome::Sent).is_ok());
    assert!(on_message_sent(SendOutcome::Full).is_ok());
    let failure = on_message_sent(SendOutcome::Closed).unwrap_err();
    assert_eq!(failure.message.as_deref(), Some("Channel closed"));
}

#[test]
fn selected_meta_replaces_the_bootstrap_one() {
    assert_eq!(connection_meta("host", 1, Some(2)), 2);
    assert_eq!(connection_meta("host", 1, None), 1);
    assert_eq!(connection_meta("", 1, Some(2)), 1);
}

#[test]
fn failed_packets_close_their_connections() {
    assert!(on_packet_failed::<u32, char>(None).is_none());
    let (code, background) = on_packet_failed::<u32, char>(Some(7)).unwrap();
    assert_eq!(code, 0x42);
    assert_eq!(background.quic, 7);
    assert!(background.message.is_none());
}

#[test]
fn deadlines_can_lie_far_ahead() {
    let mut multiplexer = multiplexer();
    let century: u128 = 100 * 365 * 86_400 * 1_000_000_000;
    multiplexer.update_connection_deadline(id(1), 5, 100 * century);
    assert_eq!(multiplexer.wait_until(0), Some(5 + 100 * century));
    multiplexer.refresh_deadline(id(1), 5, Some(u128::MAX));
    assert_eq!(multiplexer.wait_until(0), Some(u128::MAX));
}
