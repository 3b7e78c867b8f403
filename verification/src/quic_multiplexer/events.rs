//! What happens on an established connection, and who is told.

use crate::failure::{Failure, FailureKind, H3Error};
use crate::http_message::{header_map_new, HeaderField, ResponseHead};
use crate::quic_multiplexer::request::on_request;
use vstd::prelude::*;

verus! {

/// What a socket tells its user.
pub enum QuicSocketEvent {
    Request(  /* stream id */ u64, Box<http::request::Parts>),
    Readable(  /* stream id */ u64),
    Writable(Vec<  /* stream id */ u64>),
    Close(  /* stream id */ u64),
}

/// Messages sent by the multiplexer to sockets
#[derive(Debug, Clone, Copy, PartialEq, Eq, Structural)]
pub enum MultiplexerMessage {
    PollH3,
    Close,
}

/// Messages sent by sockets to the multiplexer
#[derive(Debug)]
pub enum SocketMessage {
    Close(Vec<u8>),
    /// Tell the multiplexer to re-read the timeout of this connection.
    RefreshDeadline(Vec<u8>),
}

/// What the HTTP/3 connection reports of a stream.
#[derive(Debug)]
pub enum H3Event {
    Headers(Vec<HeaderField>),
    Data,
    Finished,
    Reset(u64),
    PriorityUpdate,
    GoAway,
}

/// What follows from what the HTTP/3 connection reported.
pub enum H3Progress {
    /// There is nothing to tell.
    Nothing,
    Event(QuicSocketEvent),
    Fail(Failure),
    /// The request is refused: answer it on this stream, whatever comes of that, and fail.
    Refuse { stream_id: u64, response: ResponseHead, failure: Failure },
}

/// The status of the answer to a request that is none.
pub const BAD_REQUEST: u16 = 400;

/// What follows from what was read of a request on stream `stream_id`.
pub fn request_progress(stream_id: u64, request: Result<http::request::Parts, Failure>) -> (progress:
    H3Progress)
    ensures
        match request {
            Ok(parts) => progress matches H3Progress::Event(QuicSocketEvent::Request(id, head)) && id
                == stream_id && *head == parts,
            Err(e) => progress matches H3Progress::Refuse { stream_id: id, response, failure } && id
                == stream_id && response.status == BAD_REQUEST
                && crate::http_message::header_fields(response.headers).len() == 0 && failure == e,
        },
        progress matches H3Progress::Refuse { response, .. } ==> response.status == 400,
{
    match request {
        Ok(parts) => H3Progress::Event(QuicSocketEvent::Request(stream_id, Box::new(parts))),
        Err(failure) => H3Progress::Refuse {
            stream_id,
            response: ResponseHead { status: BAD_REQUEST, headers: header_map_new() },
            failure,
        },
    }
}

/// What follows from what the HTTP/3 connection reported.
pub fn process_pending_h3_events(polled: Result<(u64, H3Event), H3Error>) -> (progress: H3Progress)
    ensures
        match polled {
            Ok((stream_id, H3Event::Headers(list))) => {
                let fields = crate::http_message::field_list(list@);
                let outcome = crate::quic_multiplexer::request::request_outcome(fields);
                match progress {
                    H3Progress::Event(QuicSocketEvent::Request(id, head)) => id == stream_id && (
                    outcome matches Ok(content) && crate::http_message::request_content(*head)
                        == content),
                    H3Progress::Refuse { stream_id: id, response, failure } => id == stream_id
                        && response.status == BAD_REQUEST
                        && crate::http_message::header_fields(response.headers).len() == 0 && ((
                    outcome matches Err(expected) && failure@ == expected)
                        || crate::quic_multiplexer::request::exceeds_room(fields, failure@)),
                    _ => false,
                }
            },
            Ok((stream_id, H3Event::Data)) => progress matches H3Progress::Event(
                QuicSocketEvent::Readable(id),
            ) && id == stream_id,
            Ok((stream_id, H3Event::Finished)) | Ok((stream_id, H3Event::Reset(_))) =>
            progress matches H3Progress::Event(QuicSocketEvent::Close(id)) && id == stream_id,
            Ok((_, H3Event::PriorityUpdate)) | Err(H3Error::Done) => progress is Nothing,
            Ok((_, H3Event::GoAway)) => progress matches H3Progress::Fail(failure) && failure@
                == crate::failure::failure_text(FailureKind::UnexpectedEof, "Received GOAWAY"@),
            Err(e) => progress matches H3Progress::Fail(failure) && failure@
                == crate::failure::failure_text(
                FailureKind::Other,
                crate::failure::h3_error_text(e),
            ),
        },
        progress matches H3Progress::Refuse { response, .. } ==> response.status == 400,
{
    match polled {
        Ok((stream_id, event)) => match event {
            H3Event::Headers(list) => request_progress(stream_id, on_request(&list)),
            H3Event::Data => H3Progress::Event(QuicSocketEvent::Readable(stream_id)),
            H3Event::Finished => H3Progress::Event(QuicSocketEvent::Close(stream_id)),
            H3Event::Reset(_) => H3Progress::Event(QuicSocketEvent::Close(stream_id)),
            H3Event::PriorityUpdate => H3Progress::Nothing,
            H3Event::GoAway => H3Progress::Fail(
                Failure::new(FailureKind::UnexpectedEof, "Received GOAWAY".to_owned()),
            ),
        },
        Err(H3Error::Done) => H3Progress::Nothing,
        Err(e) => H3Progress::Fail(Failure::new(FailureKind::Other, e.to_text())),
    }
}

/// The name of a QUIC transport error code.
pub open spec fn transport_error(code: u64) -> Seq<char> {
    match code {
        0x0 => "NO_ERROR"@,
        0x1 => "INTERNAL_ERROR"@,
        0x2 => "CONNECTION_REFUSED"@,
        0x3 => "FLOW_CONTROL_ERROR"@,
        0x4 => "STREAM_LIMIT_ERROR"@,
        0x5 => "STREAM_STATE_ERROR"@,
        0x6 => "FINAL_SIZE_ERROR"@,
        0x7 => "FRAME_ENCODING_ERROR"@,
        0x8 => "TRANSPORT_PARAMETER_ERROR"@,
        0x9 => "CONNECTION_ID_LIMIT_ERROR"@,
        0xa => "PROTOCOL_VIOLATION"@,
        0xb => "INVALID_TOKEN"@,
        0xc => "APPLICATION_ERROR"@,
        _ => "other"@,
    }
}

/// The name of a QUIC transport error code.
pub fn transport_name(code: u64) -> (name: &'static str)
    ensures
        name@ == transport_error(code),
{
    match code {
        0x0 => "NO_ERROR",
        0x1 => "INTERNAL_ERROR",
        0x2 => "CONNECTION_REFUSED",
        0x3 => "FLOW_CONTROL_ERROR",
        0x4 => "STREAM_LIMIT_ERROR",
        0x5 => "STREAM_STATE_ERROR",
        0x6 => "FINAL_SIZE_ERROR",
        0x7 => "FRAME_ENCODING_ERROR",
        0x8 => "TRANSPORT_PARAMETER_ERROR",
        0x9 => "CONNECTION_ID_LIMIT_ERROR",
        0xa => "PROTOCOL_VIOLATION",
        0xb => "INVALID_TOKEN",
        0xc => "APPLICATION_ERROR",
        _ => "other",
    }
}

/// What the code of a closed connection stands for.
pub fn close_reason_name(is_app: bool, code: u64) -> (name: &'static str)
    ensures
        name@ == if is_app {
            "application"@
        } else {
            transport_error(code)
        },
{
    if is_app {
        "application"
    } else {
        transport_name(code)
    }
}

} // verus!
