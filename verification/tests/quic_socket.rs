use bytes::Bytes;
use tt_server::failure::{Failure, FailureKind, H3Error, QuicError};
use tt_server::h3_stream_write_policy::WriteFinGate;
use tt_server::http_message::{HeaderField, ResponseHead};
use tt_server::quic_multiplexer::body_read::{BodyRead, BodyReadStep, READ_CHUNK_SIZE};
use tt_server::quic_multiplexer::events::{
    close_reason_name, process_pending_h3_events, transport_name, H3Event, H3Progress,
    MultiplexerMessage, QuicSocketEvent,
};
use tt_server::quic_multiplexer::socket::{
    empty_fin_sent, h3_data_for_capacity, h3_data_sent, stream_send_h3_data, H3DataFrame,
    H3SendPlan, H3SendStart, ListenReply, ListenStep, QuicSocket, ResponseStart, Shutdown,
    ShutdownAction, WriteStep,
};
use tt_server::quic_token::PeerAddr;

const PEER: PeerAddr = PeerAddr::V4 {
    ip: [192, 0, 2, 1],
    port: 4433,
};

fn socket() -> QuicSocket<&'static str> {
    QuicSocket::new(7, PEER, "meta", vec![1, 2, 3])
}

fn says(failure: &Failure, kind: FailureKind, message: &str) {
    assert_eq!(failure.kind, kind);
    assert_eq!(failure.message.as_deref(), Some(message));
}

/// Writes into a stream of the given capacity, which takes all it is given.
fn write(
    socket: &mut QuicSocket<&'static str>,
    stream_id: u64,
    data: Bytes,
    capacity: usize,
    wire: &mut Vec<u8>,
) -> Result<Bytes, Failure> {
    match socket.write(stream_id, data) {
        WriteStep::QueryCapacity(body) => {
            assert_eq!(body.stream_id(), stream_id);
            match socket.on_write_capacity(body, Ok(capacity)) {
                WriteStep::SendFrame(frame) => {
                    let sent = frame.frame().bytes.len();
                    assert!(sent <= capacity);
                    assert!(!frame.frame().fin);
                    wire.extend_from_slice(&frame.frame().bytes);
                    socket.on_frame_sent(frame, Ok(sent))
                }
                WriteStep::AwaitCapacity { wanted, rest } => {
                    assert_eq!(wanted, 3);
                    Ok(rest)
                }
                _ => panic!("not expected"),
            }
        }
        WriteStep::Finished(result) => result,
        _ => panic!("not expected"),
    }
}

fn write_reply(
    socket: &mut QuicSocket<&'static str>,
    stream_id: u64,
    sent: Result<usize, QuicError>,
) -> Result<Bytes, Failure> {
    match socket.write(stream_id, Bytes::from_static(b"hello")) {
        WriteStep::QueryCapacity(body) => match socket.on_write_capacity(body, Ok(100)) {
            WriteStep::SendFrame(frame) => socket.on_frame_sent(frame, sent),
            _ => panic!("not expected"),
        },
        _ => panic!("not expected"),
    }
}

fn write_is_refused(socket: &QuicSocket<&'static str>, stream_id: u64) {
    match socket.write(stream_id, Bytes::from_static(b"hello")) {
        WriteStep::Finished(Err(failure)) => says(
            &failure,
            FailureKind::BrokenPipe,
            &format!("H3 stream {} write side closed", stream_id),
        ),
        _ => panic!("not expected"),
    }
}

#[test]
fn socket_keeps_what_it_was_made_of() {
    let socket = socket();
    assert_eq!(socket.id(), 7);
    assert_eq!(socket.peer_addr(), PEER);
    assert_eq!(*socket.tls_connection_meta(), "meta");
    assert_eq!(socket.client_random(), vec![1, 2, 3]);
    assert!(!socket.is_local_write_closed(0));
}

#[test]
fn peer_address_keeps_its_scope() {
    let peer = PeerAddr::V6 {
        ip: [0xfe, 0x80, 0, 0, 0, 0, 0, 0, 0, 0, 0, 0, 0, 0, 0, 1],
        port: 443,
        flowinfo: 5,
        scope_id: 7,
    };
    assert_eq!(QuicSocket::new(1, peer, "meta", vec![]).peer_addr(), peer);
}

#[test]
fn body_goes_out_in_complete_frames() {
    let mut socket = socket();
    let mut wire = vec![];
    let rest = write(&mut socket, 4, Bytes::from_static(b"hello world"), 7, &mut wire).unwrap();
    assert_eq!(wire, b"\x00\x05hello");
    assert_eq!(&rest[..], b" world");
    let rest = write(&mut socket, 4, rest, 2, &mut wire).unwrap();
    assert_eq!(&rest[..], b" world");
    let rest = write(&mut socket, 4, rest, 1000, &mut wire).unwrap();
    assert_eq!(wire, b"\x00\x05hello\x00\x06 world");
    assert!(rest.is_empty());
    let rest = write(&mut socket, 4, rest, 1000, &mut wire).unwrap();
    assert!(rest.is_empty());
    assert!(!socket.is_local_write_closed(4));
}

#[test]
fn failed_body_write_retires_the_stream() {
    for error in [
        QuicError::StreamStopped(9),
        QuicError::FinalSize,
        QuicError::InvalidStreamState(8),
    ] {
        let mut socket = socket();
        let failure = write_reply(&mut socket, 8, Err(error)).unwrap_err();
        says(&failure, FailureKind::BrokenPipe, "H3 stream 8 write retired");
        assert!(socket.is_local_write_closed(8));
        write_is_refused(&socket, 8);
        assert_eq!(socket.try_h3_write_fin(8), WriteFinGate::Skip);
    }
}

#[test]
fn incomplete_frame_retires_the_stream() {
    let mut socket = socket();
    let failure = write_reply(&mut socket, 8, Ok(3)).unwrap_err();
    says(&failure, FailureKind::BrokenPipe, "H3 stream 8 write retired");
    assert!(socket.is_local_write_closed(8));
}

#[test]
fn blocked_body_write_changes_nothing() {
    let mut socket = socket();
    let rest = write_reply(&mut socket, 8, Err(QuicError::Done)).unwrap();
    assert_eq!(&rest[..], b"hello");
    assert!(!socket.is_local_write_closed(8));
}

#[test]
fn other_errors_are_handed_on() {
    let mut socket = socket();
    let failure =
        write_reply(&mut socket, 8, Err(QuicError::Other("FlowControl".into()))).unwrap_err();
    says(&failure, FailureKind::Other, "FlowControl");
    assert!(!socket.is_local_write_closed(8));

    match socket.write(8, Bytes::from_static(b"hello")) {
        WriteStep::QueryCapacity(body) => {
            match socket.on_write_capacity(body, Err(QuicError::StreamStopped(1))) {
                WriteStep::Finished(Err(failure)) => {
                    says(&failure, FailureKind::BrokenPipe, "H3 stream 8 write retired")
                }
                _ => panic!("not expected"),
            }
        }
        _ => panic!("not expected"),
    }
    assert!(socket.is_local_write_closed(8));
}

#[test]
fn sending_starts_with_what_there_is() {
    assert_eq!(stream_send_h3_data(b"", false), H3SendStart::Done);
    assert_eq!(stream_send_h3_data(b"", true), H3SendStart::SendFin);
    assert_eq!(stream_send_h3_data(b"x", false), H3SendStart::QueryCapacity);
    assert_eq!(stream_send_h3_data(b"x", true), H3SendStart::QueryCapacity);
    assert!(matches!(empty_fin_sent(Ok(0)), Ok(0)));
    assert!(matches!(empty_fin_sent(Err(QuicError::Done)), Err(QuicError::Done)));
}

fn frame(plan: H3SendPlan) -> H3DataFrame {
    match plan {
        H3SendPlan::Send(frame) => frame,
        _ => panic!("not expected"),
    }
}

#[test]
fn stream_ends_with_the_last_frame_only() {
    let whole = frame(h3_data_for_capacity(b"abcd", true, Ok(6)));
    assert!(whole.fin);
    assert_eq!(whole.payload_len, 4);
    assert_eq!(whole.bytes, b"\x00\x04abcd");
    let part = frame(h3_data_for_capacity(b"abcd", true, Ok(5)));
    assert!(!part.fin);
    assert_eq!(part.payload_len, 3);
    assert_eq!(part.bytes, b"\x00\x03abc");
    assert!(matches!(h3_data_for_capacity(b"abcd", true, Ok(2)), H3SendPlan::AwaitCapacity(3)));
    assert!(matches!(
        h3_data_for_capacity(b"abcd", true, Err(QuicError::FinalSize)),
        H3SendPlan::Fail(QuicError::FinalSize)
    ));
    assert!(matches!(h3_data_sent(&part, Ok(5)), Ok(3)));
    assert!(matches!(h3_data_sent(&part, Ok(4)), Err(QuicError::FinalSize)));
    assert!(matches!(h3_data_sent(&part, Err(QuicError::Done)), Err(QuicError::Done)));
}

#[test]
fn nothing_follows_a_write_fin() {
    let mut socket = socket();
    assert_eq!(socket.try_h3_write_fin(4), WriteFinGate::Attempt);
    assert_eq!(socket.write_fin_sent(4, Ok(0)), None);
    write_is_refused(&socket, 4);
    assert_eq!(socket.try_h3_write_fin(4), WriteFinGate::Skip);
    socket.forget_stream(4);
    write_is_refused(&socket, 4);
}

#[test]
fn write_fin_is_tried_again_for_want_of_capacity() {
    let mut socket = socket();
    assert_eq!(socket.write_fin_sent(4, Err(QuicError::Done)), Some(1));
    assert_eq!(socket.flush_pending_write_fins(), vec![4]);
    write_is_refused(&socket, 4);
    assert_eq!(socket.try_h3_write_fin(4), WriteFinGate::Attempt);
    assert_eq!(socket.write_fin_sent(4, Ok(0)), None);
    assert!(socket.flush_pending_write_fins().is_empty());
    assert!(socket.is_local_write_closed(4));
}

#[test]
fn failed_write_fin_is_given_up() {
    for error in [
        QuicError::StreamStopped(9),
        QuicError::FinalSize,
        QuicError::InvalidStreamState(8),
        QuicError::Other("x".into()),
    ] {
        let mut socket = socket();
        socket.write_fin_sent(4, Err(QuicError::Done));
        assert_eq!(socket.write_fin_sent(4, Err(error)), None);
        assert!(socket.flush_pending_write_fins().is_empty());
        assert_eq!(socket.try_h3_write_fin(4), WriteFinGate::Skip);
    }
}

#[test]
fn shutdown_finishes_or_stops() {
    let mut socket = socket();
    assert_eq!(socket.shutdown_stream(4, Shutdown::Read), ShutdownAction::StopReading);
    assert_eq!(socket.shutdown_stream(4, Shutdown::Write), ShutdownAction::SendFin);
    socket.mark_peer_stopped_locked(4);
    assert_eq!(socket.shutdown_stream(4, Shutdown::Write), ShutdownAction::Nothing);
    assert_eq!(socket.shutdown_stream(4, Shutdown::Read), ShutdownAction::StopReading);
}

#[test]
fn graceful_shutdown_forgets_the_streams() {
    let mut socket = socket();
    socket.mark_write_fin_done(4);
    let failure = socket
        .graceful_shutdown(Err(QuicError::Other("InvalidState".into())))
        .unwrap_err();
    says(&failure, FailureKind::Other, "InvalidState");
    assert!(socket.is_local_write_closed(4));
    assert!(socket.graceful_shutdown(Ok(())).is_ok());
    assert!(!socket.is_local_write_closed(4));
}

#[test]
fn capacity_of_a_closed_stream_is_no_concern() {
    let mut socket = socket();
    assert_eq!(socket.stream_capacity(4, Ok(10)).unwrap(), 10);
    says(
        &socket.stream_capacity(4, Err(QuicError::InvalidStreamState(4))).unwrap_err(),
        FailureKind::Other,
        "InvalidStreamState(4)",
    );
    socket.mark_write_fin_done(4);
    says(
        &socket.stream_capacity(4, Ok(10)).unwrap_err(),
        FailureKind::BrokenPipe,
        "H3 stream 4 write side closed",
    );
}

fn response(status: u16) -> ResponseHead {
    ResponseHead {
        status,
        headers: http::HeaderMap::new(),
    }
}

fn field(name: &str, value: &str) -> HeaderField {
    HeaderField {
        name: name.into(),
        value: value.into(),
    }
}

#[test]
fn response_starts_with_its_status() {
    let socket = socket();
    let mut head = response(200);
    head.headers.insert("server", http::HeaderValue::from_static("x"));
    match socket.send_response(4, &head, false) {
        Ok(ResponseStart::Send(fields)) => {
            assert_eq!(fields.len(), 2);
            assert_eq!(fields[0].name, b":status");
            assert_eq!(fields[0].value, b"200");
            assert_eq!(fields[1].name, b"server");
            assert_eq!(fields[1].value, b"x");
        }
        _ => panic!("not expected"),
    }
}

#[test]
fn response_can_end_the_stream() {
    let mut socket = socket();
    assert!(socket.response_sent(4, false, Ok(())).is_ok());
    assert!(!socket.is_local_write_closed(4));
    assert!(socket.response_sent(4, true, Ok(())).is_ok());
    assert!(socket.is_local_write_closed(4));
    assert!(matches!(
        socket.send_response(4, &response(200), true),
        Ok(ResponseStart::AlreadyClosed)
    ));
    match socket.send_response(4, &response(200), false) {
        Err(failure) => says(
            &failure,
            FailureKind::BrokenPipe,
            "H3 stream 4 write side already closed",
        ),
        _ => panic!("not expected"),
    }
}

#[test]
fn failed_response_leaves_the_stream_open() {
    let mut socket = socket();
    let failure = socket.response_sent(4, true, Err(H3Error::StreamBlocked)).unwrap_err();
    says(&failure, FailureKind::WouldBlock, "StreamBlocked");
    let failure = socket.response_sent(4, true, Err(H3Error::Other("FrameUnexpected".into())));
    says(&failure.unwrap_err(), FailureKind::Other, "FrameUnexpected");
    let failure = socket.response_sent(4, true, Err(H3Error::Done)).unwrap_err();
    says(&failure, FailureKind::Other, "Done");
    assert!(!socket.is_local_write_closed(4));
}

fn fill(read: &mut BodyRead, bytes: &[u8]) {
    read.unfilled()[..bytes.len()].copy_from_slice(bytes);
}

#[test]
fn read_hands_out_what_has_come() {
    let mut read = socket().read();
    assert_eq!(read.unfilled().len(), READ_CHUNK_SIZE);
    fill(&mut read, b"abc");
    let mut read = match read.on_body(Ok(3)) {
        BodyReadStep::Continue(read) => read,
        _ => panic!("not expected"),
    };
    assert_eq!(read.unfilled().len(), READ_CHUNK_SIZE - 3);
    fill(&mut read, b"de");
    let read = match read.on_body(Ok(2)) {
        BodyReadStep::Continue(read) => read,
        _ => panic!("not expected"),
    };
    match read.on_body(Err(H3Error::Done)) {
        BodyReadStep::Deliver(chunk) => assert_eq!(&chunk[..], b"abcde"),
        _ => panic!("not expected"),
    }
}

#[test]
fn read_hands_out_full_chunks() {
    let mut read = BodyRead::new();
    fill(&mut read, &vec![5; READ_CHUNK_SIZE]);
    match read.on_body(Ok(READ_CHUNK_SIZE)) {
        BodyReadStep::Deliver(chunk) => assert_eq!(chunk, vec![5; READ_CHUNK_SIZE]),
        _ => panic!("not expected"),
    }
}

#[test]
fn read_of_nothing() {
    assert!(matches!(BodyRead::new().on_body(Err(H3Error::Done)), BodyReadStep::Nothing));
    match BodyRead::new().on_body(Err(H3Error::Other("IdError".into()))) {
        BodyReadStep::Fail(failure) => says(&failure, FailureKind::Other, "IdError"),
        _ => panic!("not expected"),
    }
}

#[test]
fn listening_begins_with_polling() {
    let mut socket = socket();
    assert!(matches!(socket.listen(ListenReply::Start), ListenStep::RetryFinsAndPoll));
    assert!(matches!(
        socket.listen(ListenReply::Polled(H3Progress::Nothing)),
        ListenStep::RetryFinsAndMeasure
    ));
    assert!(matches!(
        socket.listen(ListenReply::Capacities(vec![])),
        ListenStep::Receive
    ));
    assert!(matches!(
        socket.listen(ListenReply::Received(Some(MultiplexerMessage::PollH3))),
        ListenStep::Poll
    ));
    assert!(matches!(
        socket.listen(ListenReply::Received(Some(MultiplexerMessage::Close))),
        ListenStep::CheckClosed(None)
    ));
    assert!(matches!(
        socket.listen(ListenReply::Checked { closed: false, event: None }),
        ListenStep::RetryFinsAndPoll
    ));
    match socket.listen(ListenReply::Received(None)) {
        ListenStep::Fail(failure) => {
            assert_eq!(failure.kind, FailureKind::UnexpectedEof);
            assert!(failure.message.is_none());
        }
        _ => panic!("not expected"),
    }
}

#[test]
fn events_are_told_unless_the_connection_is_closed() {
    let mut socket = socket();
    let event = match socket.listen(ListenReply::Polled(H3Progress::Event(
        QuicSocketEvent::Readable(4),
    ))) {
        ListenStep::CheckClosed(event) => event,
        _ => panic!("not expected"),
    };
    assert!(matches!(
        socket.listen(ListenReply::Checked { closed: false, event }),
        ListenStep::Return(QuicSocketEvent::Readable(4))
    ));
    match socket.listen(ListenReply::Checked {
        closed: true,
        event: Some(QuicSocketEvent::Readable(4)),
    }) {
        ListenStep::FailClosed(failure) => assert_eq!(failure.kind, FailureKind::UnexpectedEof),
        _ => panic!("not expected"),
    }
}

#[test]
fn writable_streams_are_told_once() {
    let mut socket = socket();
    for id in [0, 4, 8, 12] {
        socket.notify_stream_waiting_writable(id);
    }
    socket.write_fin_sent(12, Err(QuicError::Done));
    let mut waiting = socket.waiting_streams();
    waiting.sort();
    assert_eq!(waiting, vec![0, 4, 8]);
    let capacities = vec![
        (0, Some(2)),
        (4, Some(3)),
        (8, None),
        (12, Some(100)),
        (16, Some(100)),
    ];
    match socket.listen(ListenReply::Capacities(capacities.clone())) {
        ListenStep::CheckClosed(Some(QuicSocketEvent::Writable(mut ids))) => {
            ids.sort();
            assert_eq!(ids, vec![4, 8]);
        }
        _ => panic!("not expected"),
    }
    assert!(matches!(
        socket.listen(ListenReply::Capacities(capacities)),
        ListenStep::Receive
    ));
    assert_eq!(socket.waiting_streams(), vec![0]);
    assert_eq!(socket.take_writable_streams(&vec![(0, Some(3)), (0, Some(9))]), vec![0]);
    assert!(socket.waiting_streams().is_empty());
}

#[test]
fn failures_while_polling_end_listening() {
    let mut socket = socket();
    match socket.listen(ListenReply::Polled(process_pending_h3_events(Ok((
        0,
        H3Event::GoAway,
    ))))) {
        ListenStep::Fail(failure) => {
            says(&failure, FailureKind::UnexpectedEof, "Received GOAWAY")
        }
        _ => panic!("not expected"),
    }
    match socket.listen(ListenReply::Polled(process_pending_h3_events(Ok((
        4,
        H3Event::Headers(vec![field("Bad", "x")]),
    ))))) {
        ListenStep::Refuse {
            stream_id,
            response,
            failure,
        } => {
            assert_eq!(stream_id, 4);
            assert_eq!(response.status, 400);
            assert!(response.headers.is_empty());
            says(
                &failure,
                FailureKind::InvalidData,
                "Unexpected header name: 0x426164",
            );
        }
        _ => panic!("not expected"),
    }
}

#[test]
fn h3_events_become_socket_events() {
    assert!(matches!(
        process_pending_h3_events(Ok((4, H3Event::Data))),
        H3Progress::Event(QuicSocketEvent::Readable(4))
    ));
    assert!(matches!(
        process_pending_h3_events(Ok((4, H3Event::Finished))),
        H3Progress::Event(QuicSocketEvent::Close(4))
    ));
    assert!(matches!(
        process_pending_h3_events(Ok((4, H3Event::Reset(1)))),
        H3Progress::Event(QuicSocketEvent::Close(4))
    ));
    assert!(matches!(
        process_pending_h3_events(Ok((4, H3Event::PriorityUpdate))),
        H3Progress::Nothing
    ));
    assert!(matches!(
        process_pending_h3_events(Err(H3Error::Done)),
        H3Progress::Nothing
    ));
    match process_pending_h3_events(Err(H3Error::Other("ClosedCriticalStream".into()))) {
        H3Progress::Fail(failure) => says(&failure, FailureKind::Other, "ClosedCriticalStream"),
        _ => panic!("not expected"),
    }
    match process_pending_h3_events(Ok((4, H3Event::Headers(vec![field(":method", "PUT")])))) {
        H3Progress::Event(QuicSocketEvent::Request(id, head)) => {
            assert_eq!(id, 4);
            assert_eq!(head.method, http::Method::PUT);
        }
        _ => panic!("not expected"),
    }
}

#[test]
fn close_codes_have_names() {
    let names = [
        "NO_ERROR",
        "INTERNAL_ERROR",
        "CONNECTION_REFUSED",
        "FLOW_CONTROL_ERROR",
        "STREAM_LIMIT_ERROR",
        "STREAM_STATE_ERROR",
        "FINAL_SIZE_ERROR",
        "FRAME_ENCODING_ERROR",
        "TRANSPORT_PARAMETER_ERROR",
        "CONNECTION_ID_LIMIT_ERROR",
        "PROTOCOL_VIOLATION",
        "INVALID_TOKEN",
        "APPLICATION_ERROR",
        "other",
    ];
    for (code, name) in names.iter().enumerate() {
        assert_eq!(transport_name(code as u64), *name);
    }
    assert_eq!(close_reason_name(true, 6), "application");
    assert_eq!(close_reason_name(false, 6), "FINAL_SIZE_ERROR");
}
