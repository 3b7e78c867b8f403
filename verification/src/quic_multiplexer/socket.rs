//! The server's side of one established QUIC connection.
//!
//! A socket decides; the connection itself is driven by its owner, who performs what the socket
//! asks for and tells it what came of it. While it does so for one operation, the owner keeps
//! the connection locked, so that no other operation comes in between.

use crate::ascii::ascii_bytes;
use crate::buffers::{bytes_advance, bytes_as_slice};
use crate::failure::{decimal_text, stream_message, Failure, FailureKind, H3Error, QuicError};
use crate::h3_frame::{
    encode_h3_data_frame, max_h3_data_payload_for_capacity, MIN_USABLE_QUIC_STREAM_CAPACITY,
};
use crate::h3_stream_write_policy::{
    classify_body_write_error, gate_write_fin, refuse_closed_is_hard_error, BodyWriteErrorAction,
    WriteFinGate,
};
use crate::http_message::{header_map_iter, HeaderField, ResponseHead};
use crate::quic_multiplexer::body_read::BodyRead;
use crate::quic_multiplexer::events::{H3Progress, MultiplexerMessage, QuicSocketEvent};
use crate::quic_multiplexer::streams::StreamSets;
use crate::quic_token::PeerAddr;
use bytes::Bytes;
use std::collections::HashSet;
use vstd::prelude::*;

verus! {

broadcast use vstd::std_specs::hash::group_hash_axioms;

/// An established connection. `M` is what the TLS layer decided for it.
pub struct QuicSocket<M> {
    id: u64,
    peer: PeerAddr,
    tls_connection_meta: M,
    /// TLS client_random extracted from QUIC handshake
    client_random: Vec<u8>,
    waiting_writable_streams: HashSet<u64>,
    /// Streams that need a write-FIN once capacity allows.
    pending_write_fin: HashSet<u64>,
    /// Local write-FIN already accepted by QUIC for this stream (idempotent close).
    write_fin_done: HashSet<u64>,
    /// Peer STOP_SENDING / cancel: never emit write-FIN on this stream.
    peer_stopped: HashSet<u64>,
}

impl<M> View for QuicSocket<M> {
    type V = StreamSets;

    closed spec fn view(&self) -> StreamSets {
        StreamSets {
            waiting: self.waiting_writable_streams@,
            fin_pending: self.pending_write_fin@,
            fin_done: self.write_fin_done@,
            stopped: self.peer_stopped@,
        }
    }
}

/// How the sending of a DATA frame begins.
#[derive(Debug, Clone, Copy, PartialEq, Eq, Structural)]
pub enum H3SendStart {
    /// There is nothing to send.
    Done,
    /// Send an empty STREAM frame with FIN.
    SendFin,
    /// Ask for the capacity of the stream.
    QueryCapacity,
}

/// A DATA frame, to be handed to the connection in one piece.
pub struct H3DataFrame {
    pub bytes: Vec<u8>,
    /// The stream ends with this frame.
    pub fin: bool,
    /// How many bytes of the body the frame carries.
    pub payload_len: usize,
}

/// What to do once the capacity of the stream is known.
pub enum H3SendPlan {
    /// There is no room: ask to be told when there is as much as this.
    AwaitCapacity(usize),
    Send(H3DataFrame),
    Fail(QuicError),
}

/// How the sending of a response begins.
pub enum ResponseStart {
    /// Send these header fields.
    Send(Vec<HeaderField>),
    /// The stream is closed already, as the response would have left it.
    AlreadyClosed,
}

/// Which side of a stream is shut down.
#[derive(Debug, Clone, Copy, PartialEq, Eq, Structural)]
pub enum Shutdown {
    Read,
    Write,
}

/// What shutting down one side of a stream asks for.
#[derive(Debug, Clone, Copy, PartialEq, Eq, Structural)]
pub enum ShutdownAction {
    Nothing,
    /// Send an empty STREAM frame with FIN.
    SendFin,
    /// Stop reading from the stream, with error code 0.
    StopReading,
}

/// A part of a body on its way to a stream.
pub struct BodyWrite {
    stream_id: u64,
    data: Bytes,
}

impl BodyWrite {
    pub closed spec fn spec_stream_id(&self) -> u64 {
        self.stream_id
    }

    /// The bytes to write.
    pub closed spec fn content(&self) -> Seq<u8> {
        crate::buffers::bytes_content(self.data)
    }

    pub fn stream_id(&self) -> (id: u64)
        ensures
            id == self.spec_stream_id(),
    {
        self.stream_id
    }
}

/// A part of a body of which a frame was made.
pub struct FrameWrite {
    write: BodyWrite,
    frame: H3DataFrame,
}

impl FrameWrite {
    pub closed spec fn spec_write(&self) -> BodyWrite {
        self.write
    }

    pub closed spec fn spec_frame(&self) -> H3DataFrame {
        self.frame
    }

    /// The frame carries a part of what is to be written.
    pub open spec fn wf(&self) -> bool {
        self.spec_frame().payload_len <= self.spec_write().content().len()
    }

    pub fn stream_id(&self) -> (id: u64)
        ensures
            id == self.spec_write().spec_stream_id(),
    {
        self.write.stream_id
    }

    /// The frame to send.
    pub fn frame(&self) -> (frame: &H3DataFrame)
        ensures
            *frame == self.spec_frame(),
    {
        &self.frame
    }
}

/// How a write goes on.
pub enum WriteStep {
    /// Ask for the capacity of the stream.
    QueryCapacity(BodyWrite),
    /// Send the frame, in one piece.
    SendFrame(FrameWrite),
    /// There is no room: ask to be told when there is as much as this. Then the write is over, as
    /// one that wrote nothing.
    AwaitCapacity { wanted: usize, rest: Bytes },
    /// The write is over. Unless it failed, pending packets are to be flushed, and what is left of
    /// the body goes back to its owner.
    Finished(Result<Bytes, Failure>),
}

/// What a write hands back that came to `sent`, the number of bytes of the body that were
/// accepted.
pub open spec fn is_written(
    result: Result<Bytes, Failure>,
    stream_id: u64,
    data: Seq<u8>,
    sent: Result<usize, QuicError>,
) -> bool {
    match sent {
        Ok(n) => result matches Ok(rest) && crate::buffers::bytes_content(rest) == data.skip(
            n as int,
        ),
        Err(QuicError::Done) => result matches Ok(rest) && crate::buffers::bytes_content(rest)
            == data,
        Err(QuicError::Other(text)) => result matches Err(failure) && failure@
            == crate::failure::failure_text(FailureKind::Other, text@),
        Err(_) => result matches Err(failure) && failure@ == crate::failure::failure_text(
            FailureKind::BrokenPipe,
            crate::failure::stream_text(stream_id, " write retired"@),
        ),
    }
}

/// What came of the last step of listening.
pub enum ListenReply {
    /// Listening begins.
    Start,
    /// The HTTP/3 connection was polled.
    Polled(H3Progress),
    /// The capacity of each stream whose owner waits; none where asking for it failed.
    Capacities(Vec<(u64, Option<usize>)>),
    /// A message from the multiplexer, unless there can be no more.
    Received(Option<MultiplexerMessage>),
    /// Whether the connection is closed, and what was to be told if it is not.
    Checked { closed: bool, event: Option<QuicSocketEvent> },
}

/// What to do next while listening.
pub enum ListenStep {
    /// Retry the pending write-FINs, then poll the HTTP/3 connection.
    RetryFinsAndPoll,
    /// Poll the HTTP/3 connection.
    Poll,
    /// Retry the pending write-FINs, then ask for the capacities of the waiting streams.
    RetryFinsAndMeasure,
    /// Wait for a message from the multiplexer.
    Receive,
    /// See whether the connection is closed.
    CheckClosed(Option<QuicSocketEvent>),
    /// Listening is over.
    Return(QuicSocketEvent),
    /// Listening is over.
    Fail(Failure),
    /// Answer a request that is none, whatever comes of that; then listening is over.
    Refuse { stream_id: u64, response: ResponseHead, failure: Failure },
    /// Tell the multiplexer that the connection is closed; then listening is over.
    FailClosed(Failure),
}

/// The streams of which `step` is about to tell that they can be written to.
pub open spec fn told_writable(step: ListenStep) -> Seq<u64> {
    match step {
        ListenStep::CheckClosed(Some(QuicSocketEvent::Writable(ids))) => ids@,
        _ => Seq::empty(),
    }
}

/// The header fields of a response: its status, and then the others.
pub open spec fn response_fields(response: ResponseHead) -> Seq<(Seq<u8>, Seq<u8>)> {
    seq![
        (
            crate::ascii::ascii(":status"@),
            crate::ascii::ascii(crate::failure::decimal(response.status as nat)),
        ),
    ] + crate::http_message::header_fields(response.headers)
}

/// The header fields of a response: its status, and then the others.
fn response_header_list(response: &ResponseHead) -> (fields: Vec<HeaderField>)
    ensures
        crate::http_message::field_list(fields@) == response_fields(*response),
        fields@.len() == 1 + crate::http_message::header_fields(response.headers).len(),
        fields@[0].name@ == crate::ascii::ascii(":status"@),
        fields@[0].value@ == crate::ascii::ascii(crate::failure::decimal(response.status as nat)),
        forall|i: int|
            #![trigger crate::http_message::header_fields(response.headers)[i]]
            0 <= i < crate::http_message::header_fields(response.headers).len() ==> {
                &&& fields@[i + 1].name@ == crate::http_message::header_fields(response.headers)[i].0
                &&& fields@[i + 1].value@ == crate::http_message::header_fields(
                    response.headers,
                )[i].1
            },
{
    proof {
        reveal_strlit(":status");
        crate::failure::lemma_decimal_is_ascii(response.status as nat);
    }
    let status = decimal_text(response.status as u64);
    let first = HeaderField {
        name: ascii_bytes(":status"),
        value: ascii_bytes(status.as_str()),
    };
    let mut fields: Vec<HeaderField> = Vec::new();
    fields.push(first);
    let mut others = header_map_iter(&response.headers);
    let ghost rest = others@;
    fields.append(&mut others);
    proof {
        assert(fields@ =~= seq![first] + rest);
        assert(crate::http_message::field_list(fields@) =~= seq![first@]
            + crate::http_message::field_list(rest));
        assert forall|i: int|
            #![trigger crate::http_message::header_fields(response.headers)[i]]
            0 <= i < crate::http_message::header_fields(response.headers).len() implies {
            &&& fields@[i + 1].name@ == crate::http_message::header_fields(response.headers)[i].0
            &&& fields@[i + 1].value@ == crate::http_message::header_fields(response.headers)[i].1
        } by {
            assert(fields@[i + 1] == rest[i]);
            assert(crate::http_message::field_list(rest)[i] == rest[i]@);
        }
    }
    fields
}

impl<M> QuicSocket<M> {
    pub closed spec fn spec_id(&self) -> u64 {
        self.id
    }

    pub closed spec fn spec_peer(&self) -> PeerAddr {
        self.peer
    }

    pub closed spec fn spec_meta(&self) -> M {
        self.tls_connection_meta
    }

    pub closed spec fn spec_client_random(&self) -> Seq<u8> {
        self.client_random@
    }

    /// What does not change as long as the connection lives.
    pub open spec fn same_connection(&self, other: &Self) -> bool {
        &&& self.spec_id() == other.spec_id()
        &&& self.spec_peer() == other.spec_peer()
        &&& self.spec_meta() == other.spec_meta()
        &&& self.spec_client_random() == other.spec_client_random()
    }

    pub fn new(id: u64, peer: PeerAddr, tls_connection_meta: M, client_random: Vec<u8>) -> (socket:
        Self)
        ensures
            socket@ == StreamSets::empty(),
            socket.spec_id() == id,
            socket.spec_peer() == peer,
            socket.spec_meta() == tls_connection_meta,
            socket.spec_client_random() == client_random@,
    {
        QuicSocket {
            id,
            peer,
            tls_connection_meta,
            client_random,
            waiting_writable_streams: HashSet::new(),
            pending_write_fin: HashSet::new(),
            write_fin_done: HashSet::new(),
            peer_stopped: HashSet::new(),
        }
    }

    pub fn id(&self) -> (id: u64)
        ensures
            id == self.spec_id(),
    {
        self.id
    }

    pub fn peer_addr(&self) -> (peer: PeerAddr)
        ensures
            peer == self.spec_peer(),
    {
        self.peer
    }

    pub fn tls_connection_meta(&self) -> (meta: &M)
        ensures
            *meta == self.spec_meta(),
    {
        &self.tls_connection_meta
    }

    pub fn client_random(&self) -> (random: Vec<u8>)
        ensures
            random@ == self.spec_client_random(),
    {
        vstd::slice::slice_to_vec(self.client_random.as_slice())
    }

    /// True when local send is finished or due to finish, or peer STOP_SENDING retired the write
    /// side.
    pub fn is_local_write_closed(&self, stream_id: u64) -> (closed: bool)
        ensures
            closed == self@.write_closed(stream_id),
    {
        self.write_fin_done.contains(&stream_id) || self.peer_stopped.contains(&stream_id)
            || self.pending_write_fin.contains(&stream_id)
    }

    pub fn notify_stream_waiting_writable(&mut self, stream_id: u64)
        ensures
            final(self)@ == old(self)@.with_waiting(stream_id),
            final(self).same_connection(old(self)),
    {
        self.waiting_writable_streams.insert(stream_id);
    }

    /// Drop transient per-stream bookkeeping when the codec retires a stream.
    ///
    /// **Keep** `write_fin_done` / `peer_stopped`: QUIC stream IDs are never reused on a
    /// connection. Clearing those at end-of-download (mass close) raced residual body/FIN
    /// paths and produced peer `FINAL_SIZE_ERROR`. Cleared only on connection teardown.
    pub fn forget_stream(&mut self, stream_id: u64)
        ensures
            final(self)@ == old(self)@.forgotten(stream_id),
            final(self).same_connection(old(self)),
    {
        self.pending_write_fin.remove(&stream_id);
        self.waiting_writable_streams.remove(&stream_id);
    }

    /// The write side is finished.
    pub fn mark_write_fin_done(&mut self, stream_id: u64)
        ensures
            final(self)@ == old(self)@.with_fin_done(stream_id),
            final(self).same_connection(old(self)),
    {
        self.pending_write_fin.remove(&stream_id);
        self.write_fin_done.insert(stream_id);
    }

    /// Retire write side after peer STOP_SENDING. Call while holding QUIC lock (or with
    /// no concurrent writers). **Never** RESET_STREAM: RESET after bulk DATA races
    /// produced peer FINAL_SIZE_ERROR (0x6) at multi download end.
    pub fn mark_peer_stopped_locked(&mut self, stream_id: u64)
        ensures
            final(self)@ == old(self)@.with_peer_stopped(stream_id),
            final(self).same_connection(old(self)),
    {
        self.peer_stopped.insert(stream_id);
        self.mark_write_fin_done(stream_id);
    }

    /// Begins to send response headers, with the end of the stream where `fin`. On a stream that
    /// is closed for writing, closing it again is no failure.
    pub fn send_response(&self, stream_id: u64, response: &ResponseHead, fin: bool) -> (start: Result<
        ResponseStart,
        Failure,
    >)
        ensures
            match start {
                Ok(ResponseStart::Send(fields)) => !self@.retired(stream_id)
                    && crate::http_message::field_list(fields@) == response_fields(*response),
                Ok(ResponseStart::AlreadyClosed) => self@.retired(stream_id) && fin,
                Err(failure) => self@.retired(stream_id) && !fin && failure@
                    == crate::failure::failure_text(
                    FailureKind::BrokenPipe,
                    crate::failure::stream_text(stream_id, " write side already closed"@),
                ),
            },
            start matches Ok(ResponseStart::Send(fields)) ==> {
                let others = crate::http_message::header_fields(response.headers);
                &&& fields@.len() == 1 + others.len()
                &&& fields@[0].name@ == crate::ascii::ascii(":status"@)
                &&& fields@[0].value@ == crate::ascii::ascii(
                    crate::failure::decimal(response.status as nat),
                )
                &&& forall|i: int|
                    #![trigger others[i]]
                    0 <= i < others.len() ==> fields@[i + 1].name@ == others[i].0 && fields@[i
                        + 1].value@ == others[i].1
            },
            start is Err || (start matches Ok(ResponseStart::AlreadyClosed))
                <==> self@.fin_done.contains(stream_id) || self@.stopped.contains(stream_id),
    {
        let fin_done = self.write_fin_done.contains(&stream_id);
        let peer_stopped = self.peer_stopped.contains(&stream_id);
        if fin_done || peer_stopped {
            if fin {
                // Idempotent headers-only close.
                return Ok(ResponseStart::AlreadyClosed);
            }
            return Err(
                Failure::new(
                    FailureKind::BrokenPipe,
                    stream_message(stream_id, " write side already closed"),
                ),
            );
        }
        Ok(ResponseStart::Send(response_header_list(response)))
    }

    /// Goes on after the response headers were handed to the HTTP/3 connection. Where this
    /// succeeds, pending packets are to be flushed.
    pub fn response_sent(&mut self, stream_id: u64, fin: bool, sent: Result<(), H3Error>) -> (result:
        Result<(), Failure>)
        ensures
            final(self)@ == old(self)@.after_response(stream_id, fin, sent),
            final(self).same_connection(old(self)),
            match sent {
                Ok(_) => result is Ok,
                Err(e) => result matches Err(failure) && failure@ == crate::failure::failure_text(
                    if e is StreamBlocked {
                        FailureKind::WouldBlock
                    } else {
                        FailureKind::Other
                    },
                    crate::failure::h3_error_text(e),
                ),
            },
    {
        match sent {
            Err(e) => {
                let kind = match e {
                    H3Error::StreamBlocked => FailureKind::WouldBlock,
                    _ => FailureKind::Other,
                };
                Err(Failure::new(kind, e.to_text()))
            },
            Ok(_) => {
                // Mark under H3+QUIC locks so body cannot race past headers+FIN.
                if fin {
                    self.mark_write_fin_done(stream_id);
                }
                Ok(())
            },
        }
    }

    /// Begins to read from a stream.
    pub fn read(&self) -> (read: BodyRead)
        ensures
            read.wf(),
            read.offset() == 0,
    {
        BodyRead::new()
    }

    /// Begins to write a part of the body. Refused where the stream takes no more.
    ///
    /// The body is written as complete DATA frames, each handed to the connection in one piece: an
    /// incomplete frame on the wire would break the framing of the stream.
    pub fn write(&self, stream_id: u64, data: Bytes) -> (step: WriteStep)
        ensures
            if self@.write_closed(stream_id) {
                step matches WriteStep::Finished(Err(failure)) && failure@
                    == crate::failure::failure_text(
                    FailureKind::BrokenPipe,
                    crate::failure::stream_text(stream_id, " write side closed"@),
                )
            } else if crate::buffers::bytes_content(data).len() == 0 {
                step == WriteStep::Finished(Ok(data))
            } else {
                step matches WriteStep::QueryCapacity(write) && write.spec_stream_id() == stream_id
                    && write.content() == crate::buffers::bytes_content(data)
            },
    {
        let fin_pending = self.pending_write_fin.contains(&stream_id);
        let fin_done = self.write_fin_done.contains(&stream_id);
        let peer_stopped = self.peer_stopped.contains(&stream_id);
        if refuse_closed_is_hard_error(fin_pending, fin_done, peer_stopped) {
            return WriteStep::Finished(
                Err(
                    Failure::new(
                        FailureKind::BrokenPipe,
                        stream_message(stream_id, " write side closed"),
                    ),
                ),
            );
        }
        match stream_send_h3_data(bytes_as_slice(&data), false) {
            H3SendStart::QueryCapacity => WriteStep::QueryCapacity(BodyWrite { stream_id, data }),
            _ => WriteStep::Finished(Ok(data)),
        }
    }

    /// Goes on writing once the capacity of the stream is known.
    pub fn on_write_capacity(&mut self, write: BodyWrite, capacity: Result<usize, QuicError>) -> (step:
        WriteStep)
        requires
            write.content().len() > 0,
        ensures
            final(self).same_connection(old(self)),
            match capacity {
                Ok(capacity) => {
                    &&& final(self)@ == old(self)@
                    &&& if capacity < MIN_USABLE_QUIC_STREAM_CAPACITY {
                        step matches WriteStep::AwaitCapacity { wanted, rest } && wanted
                            == MIN_USABLE_QUIC_STREAM_CAPACITY && crate::buffers::bytes_content(
                            rest,
                        ) == write.content()
                    } else {
                        step matches WriteStep::SendFrame(frame) && frame.wf()
                            && frame.spec_write() == write && is_frame_for(
                            frame.spec_frame(),
                            write.content(),
                            false,
                            capacity,
                        )
                    }
                },
                Err(e) => {
                    &&& final(self)@ == old(self)@.after_body(write.spec_stream_id(), Err(e))
                    &&& step matches WriteStep::Finished(result)
                    &&& is_written(result, write.spec_stream_id(), write.content(), Err(e))
                },
            },
            step is AwaitCapacity <==> (capacity matches Ok(c) && c < 3),
            step matches WriteStep::AwaitCapacity { wanted, .. } ==> wanted == 3,
            step is Finished <==> capacity is Err,
    {
        match h3_data_for_capacity(bytes_as_slice(&write.data), false, capacity) {
            H3SendPlan::AwaitCapacity(wanted) => WriteStep::AwaitCapacity {
                wanted,
                rest: write.data,
            },
            H3SendPlan::Send(frame) => WriteStep::SendFrame(FrameWrite { write, frame }),
            H3SendPlan::Fail(e) => WriteStep::Finished(
                self.body_sent(write.stream_id, write.data, Err(e)),
            ),
        }
    }

    /// Goes on writing after the frame was handed to the connection, which took `sent` of its
    /// bytes.
    pub fn on_frame_sent(&mut self, frame: FrameWrite, sent: Result<usize, QuicError>) -> (result:
        Result<Bytes, Failure>)
        requires
            frame.wf(),
        ensures
            final(self).same_connection(old(self)),
            final(self)@ == old(self)@.after_body(
                frame.spec_write().spec_stream_id(),
                accepted_payload(frame.spec_frame(), sent),
            ),
            is_written(
                result,
                frame.spec_write().spec_stream_id(),
                frame.spec_write().content(),
                accepted_payload(frame.spec_frame(), sent),
            ),
            match sent {
                Ok(n) => if n == frame.spec_frame().bytes@.len() {
                    &&& final(self)@ == old(self)@
                    &&& result matches Ok(rest)
                    &&& frame.spec_write().content().take(frame.spec_frame().payload_len as int)
                        + crate::buffers::bytes_content(rest) == frame.spec_write().content()
                } else {
                    &&& final(self)@.fin_done.contains(frame.spec_write().spec_stream_id())
                    &&& !final(self)@.fin_pending.contains(frame.spec_write().spec_stream_id())
                    &&& result matches Err(failure)
                    &&& failure.kind == FailureKind::BrokenPipe
                },
                Err(QuicError::Done) => {
                    &&& final(self)@ == old(self)@
                    &&& result matches Ok(rest)
                    &&& crate::buffers::bytes_content(rest) == frame.spec_write().content()
                },
                Err(_) => result is Err,
            },
    {
        let accepted = h3_data_sent(&frame.frame, sent);
        proof {
            let data = frame.write.content();
            let n = frame.frame.payload_len as int;
            assert(data.take(n) + data.skip(n) =~= data);
        }
        self.body_sent(frame.write.stream_id, frame.write.data, accepted)
    }

    /// Goes on after an attempt to send the body came to `sent`, the number of bytes of the body
    /// that were accepted.
    fn body_sent(&mut self, stream_id: u64, data: Bytes, sent: Result<usize, QuicError>) -> (rest:
        Result<Bytes, Failure>)
        requires
            sent matches Ok(n) ==> n <= crate::buffers::bytes_content(data).len(),
        ensures
            final(self)@ == old(self)@.after_body(stream_id, sent),
            final(self).same_connection(old(self)),
            is_written(rest, stream_id, crate::buffers::bytes_content(data), sent),
    {
        let mut data = data;
        let action = match sent {
            Ok(n) => {
                bytes_advance(&mut data, n);
                None
            },
            Err(QuicError::Done) => Some(
                classify_body_write_error(true, false, false, false, false),
            ),
            Err(QuicError::StreamStopped(_)) => {
                self.mark_peer_stopped_locked(stream_id);
                Some(classify_body_write_error(false, true, false, false, false))
            },
            Err(QuicError::FinalSize) => {
                self.mark_write_fin_done(stream_id);
                Some(classify_body_write_error(false, false, true, false, false))
            },
            Err(QuicError::InvalidStreamState(_)) => {
                self.mark_write_fin_done(stream_id);
                Some(classify_body_write_error(false, false, false, true, false))
            },
            Err(QuicError::Other(text)) => {
                return Err(Failure::new(FailureKind::Other, text));
            },
        };
        match action {
            None | Some(BodyWriteErrorAction::RetryLater) => Ok(data),
            Some(BodyWriteErrorAction::RetireNoFurtherFin) => Err(
                Failure::new(FailureKind::BrokenPipe, stream_message(stream_id, " write retired")),
            ),
            Some(BodyWriteErrorAction::Fatal) => Err(
                Failure::new(FailureKind::Other, stream_message(stream_id, " write fatal error")),
            ),
        }
    }

    /// The capacity of a stream, as the connection reports it; a stream that takes no body has
    /// none.
    pub fn stream_capacity(&self, stream_id: u64, reported: Result<usize, QuicError>) -> (capacity:
        Result<usize, Failure>)
        ensures
            if self@.write_closed(stream_id) {
                capacity matches Err(failure) && failure@ == crate::failure::failure_text(
                    FailureKind::BrokenPipe,
                    crate::failure::stream_text(stream_id, " write side closed"@),
                )
            } else {
                match reported {
                    Ok(n) => capacity matches Ok(c) && c == n,
                    Err(e) => capacity matches Err(failure) && failure@
                        == crate::failure::failure_text(
                        FailureKind::Other,
                        crate::failure::quic_error_text(e),
                    ),
                }
            },
    {
        if self.is_local_write_closed(stream_id) {
            return Err(
                Failure::new(
                    FailureKind::BrokenPipe,
                    stream_message(stream_id, " write side closed"),
                ),
            );
        }
        match reported {
            Ok(n) => Ok(n),
            Err(e) => Err(e.to_failure()),
        }
    }

    /// Begins to finish the write side of a stream: an empty STREAM frame with FIN is to be sent,
    /// unless nothing may be sent on the stream any more.
    ///
    /// Safe only because the body is written as **complete** DATA frames (see
    /// [`h3_data_for_capacity`]).
    pub fn try_h3_write_fin(&mut self, stream_id: u64) -> (gate: WriteFinGate)
        ensures
            final(self).same_connection(old(self)),
            gate == WriteFinGate::Skip <==> old(self)@.retired(stream_id),
            gate == WriteFinGate::Skip ==> final(self)@ == old(self)@.fin_skipped(stream_id),
            gate == WriteFinGate::Attempt ==> final(self)@ == old(self)@,
    {
        let fin_done = self.write_fin_done.contains(&stream_id);
        let peer_stopped = self.peer_stopped.contains(&stream_id);
        let gate = gate_write_fin(fin_done, peer_stopped);
        if let WriteFinGate::Skip = gate {
            self.pending_write_fin.remove(&stream_id);
        }
        gate
    }

    /// Goes on after the write-FIN was handed to the connection. If capacity is insufficient, the
    /// stream is queued for another attempt, and the result is the capacity to wait for.
    pub fn write_fin_sent(&mut self, stream_id: u64, sent: Result<usize, QuicError>) -> (await_capacity:
        Option<usize>)
        ensures
            final(self)@ == old(self)@.after_fin(stream_id, sent),
            final(self).same_connection(old(self)),
            match sent {
                Err(QuicError::Done) => await_capacity == Some(1usize),
                _ => await_capacity is None,
            },
    {
        match sent {
            Ok(_) => {
                // Mark under QUIC lock so concurrent body cannot append after FIN.
                self.mark_write_fin_done(stream_id);
                None
            },
            Err(QuicError::Done) => {
                self.pending_write_fin.insert(stream_id);
                Some(1)
            },
            Err(QuicError::StreamStopped(_)) => {
                self.mark_peer_stopped_locked(stream_id);
                None
            },
            Err(_) => {
                self.mark_write_fin_done(stream_id);
                None
            },
        }
    }

    /// The streams whose write-FIN is to be tried again. Call whenever the connection may have
    /// gained capacity.
    pub fn flush_pending_write_fins(&self) -> (pending: Vec<u64>)
        ensures
            pending@.to_set() == self@.fin_pending,
            pending@.no_duplicates(),
    {
        set_to_vec(&self.pending_write_fin)
    }

    /// Begins to shut down one side of a request/response stream (H3 only).
    pub fn shutdown_stream(&mut self, stream_id: u64, direction: Shutdown) -> (action: ShutdownAction)
        ensures
            final(self).same_connection(old(self)),
            action == ShutdownAction::StopReading <==> direction == Shutdown::Read,
            action == ShutdownAction::SendFin <==> direction == Shutdown::Write
                && !old(self)@.retired(stream_id),
            final(self)@ == if action == ShutdownAction::Nothing {
                old(self)@.fin_skipped(stream_id)
            } else {
                old(self)@
            },
    {
        match direction {
            Shutdown::Write => match self.try_h3_write_fin(stream_id) {
                WriteFinGate::Skip => ShutdownAction::Nothing,
                WriteFinGate::Attempt => ShutdownAction::SendFin,
            },
            Shutdown::Read => ShutdownAction::StopReading,
        }
    }

    /// Goes on after the connection was asked to close: everything known of its streams is
    /// dropped, unless it refused.
    pub fn graceful_shutdown(&mut self, closed: Result<(), QuicError>) -> (result: Result<
        (),
        Failure,
    >)
        ensures
            final(self).same_connection(old(self)),
            match closed {
                Ok(_) => result is Ok && final(self)@ == StreamSets::empty(),
                Err(e) => final(self)@ == old(self)@ && (result matches Err(failure) && failure@
                    == crate::failure::failure_text(
                    FailureKind::Other,
                    crate::failure::quic_error_text(e),
                )),
            },
    {
        if let Err(e) = closed {
            return Err(e.to_failure());
        }
        self.pending_write_fin.clear();
        self.write_fin_done.clear();
        self.peer_stopped.clear();
        self.waiting_writable_streams.clear();
        Ok(())
    }

    /// The streams whose owners wait for a Writable event. Streams only waiting on deferred FIN
    /// are not among them.
    pub fn waiting_streams(&self) -> (waiting: Vec<u64>)
        ensures
            forall|id: u64|
                waiting@.contains(id) <==> #[trigger] self@.waiting.contains(id)
                    && !self@.fin_pending.contains(id),
            waiting@.no_duplicates(),
    {
        let all = set_to_vec(&self.waiting_writable_streams);
        let mut waiting: Vec<u64> = Vec::new();
        let mut i: usize = 0;
        while i < all.len()
            invariant
                i <= all@.len(),
                all@.no_duplicates(),
                forall|id: u64|
                    #![trigger waiting@.contains(id)]
                    waiting@.contains(id) <==> all@.take(i as int).contains(id)
                        && !self@.fin_pending.contains(id),
                waiting@.no_duplicates(),
            decreases all.len() - i,
        {
            let id: u64 = all[i];
            let ghost before = waiting@;
            let ghost seen = all@.take(i as int);
            proof {
                assert(all@.take(i + 1) =~= seen.push(id));
                assert(!seen.contains(id));
                lemma_push_contains(seen, id);
                lemma_push_contains(before, id);
            }
            if !self.pending_write_fin.contains(&id) {
                assert(!before.contains(id));
                waiting.push(id);
            }
            i = i + 1;
        }
        proof {
            assert(all@.take(i as int) =~= all@);
            assert forall|id: u64|
                waiting@.contains(id) <==> #[trigger] self@.waiting.contains(id)
                    && !self@.fin_pending.contains(id) by {
                assert(all@.contains(id) <==> all@.to_set().contains(id));
            }
        }
        waiting
    }

    /// Of the streams in `capacities`, picks those whose owners wait and can write now, and stops
    /// to wait for them. A stream can be written to when its capacity is not negligible or, so
    /// that its owner finds out, when asking for its capacity failed.
    pub fn take_writable_streams(&mut self, capacities: &Vec<(u64, Option<usize>)>) -> (writable: Vec<
        u64,
    >)
        ensures
            forall|id: u64| #[trigger]
                writable@.contains(id) <==> is_writable(old(self)@, capacities@, id),
            writable@.no_duplicates(),
            final(self)@ == old(self)@.without_waiting(writable@.to_set()),
            final(self).same_connection(old(self)),
    {
        let mut writable: Vec<u64> = Vec::new();
        let mut i: usize = 0;
        assert(self@.waiting =~= old(self)@.waiting.difference(writable@.to_set()));
        while i < capacities.len()
            invariant
                i <= capacities@.len(),
                forall|id: u64| #[trigger]
                    writable@.contains(id) <==> is_writable(
                        old(self)@,
                        capacities@.take(i as int),
                        id,
                    ),
                writable@.no_duplicates(),
                self@ == old(self)@.without_waiting(writable@.to_set()),
                self.same_connection(old(self)),
            decreases capacities.len() - i,
        {
            let (id, capacity): (u64, Option<usize>) = capacities[i];
            let usable = match capacity {
                Some(c) => c >= MIN_USABLE_QUIC_STREAM_CAPACITY,
                None => true,
            };
            let ghost before = writable@;
            let ghost seen = capacities@.take(i as int);
            let ghost longer = capacities@.take(i + 1);
            let waits = self.waiting_writable_streams.contains(&id);
            let fin_due = self.pending_write_fin.contains(&id);
            if waits && !fin_due && usable {
                self.waiting_writable_streams.remove(&id);
                writable.push(id);
                assert(before.contains(id) <==> before.to_set().contains(id));
            }
            proof {
                lemma_push_contains(before, id);
                assert(longer =~= seen.push((id, capacity)));
                assert(before.contains(id) <==> before.to_set().contains(id));
                assert forall|other: u64| #[trigger] writable@.contains(other) <==> is_writable(
                    old(self)@,
                    longer,
                    other,
                ) by {
                    lemma_is_writable_longer(old(self)@, seen, (id, capacity), other);
                }
                assert(self@.waiting =~= old(self)@.waiting.difference(writable@.to_set()));
            }
            i = i + 1;
        }
        proof {
            assert(capacities@.take(i as int) =~= capacities@);
        }
        writable
    }
}

impl<M> QuicSocket<M> {
    /// Goes on listening: what to do next, given what came of the last step. A connection that
    /// is closed tells no event any more.
    pub fn listen(&mut self, reply: ListenReply) -> (step: ListenStep)
        ensures
            final(self).same_connection(old(self)),
            !(reply is Capacities) ==> final(self)@ == old(self)@,
            match reply {
                ListenReply::Start => step is RetryFinsAndPoll,
                ListenReply::Polled(H3Progress::Nothing) => step is RetryFinsAndMeasure,
                ListenReply::Polled(H3Progress::Event(event)) => step == ListenStep::CheckClosed(
                    Some(event),
                ),
                ListenReply::Polled(H3Progress::Fail(failure)) => step == ListenStep::Fail(failure),
                ListenReply::Polled(H3Progress::Refuse { stream_id, response, failure }) => step == (
                ListenStep::Refuse { stream_id, response, failure }),
                ListenReply::Capacities(capacities) => {
                    &&& forall|id: u64| #[trigger]
                        told_writable(step).contains(id) <==> is_writable(
                            old(self)@,
                            capacities@,
                            id,
                        )
                    &&& told_writable(step).no_duplicates()
                    &&& final(self)@ == old(self)@.without_waiting(told_writable(step).to_set())
                    &&& told_writable(step).len() == 0 <==> step is Receive
                    &&& told_writable(step).len() > 0 <==> step is CheckClosed
                },
                ListenReply::Received(None) => step matches ListenStep::Fail(failure) && failure@ == (
                crate::failure::FailureText { kind: FailureKind::UnexpectedEof, message: None }),
                ListenReply::Received(Some(MultiplexerMessage::PollH3)) => step is Poll,
                ListenReply::Received(Some(MultiplexerMessage::Close)) => step
                    == ListenStep::CheckClosed(None),
                ListenReply::Checked { closed, event } => if closed {
                    step matches ListenStep::FailClosed(failure) && failure@ == (
                    crate::failure::FailureText { kind: FailureKind::UnexpectedEof, message: None })
                } else {
                    match event {
                        Some(event) => step == ListenStep::Return(event),
                        None => step is RetryFinsAndPoll,
                    }
                },
            },
    {
        match reply {
            // Drain deferred write-FINs before waiting (capacity may have opened).
            ListenReply::Start => ListenStep::RetryFinsAndPoll,
            ListenReply::Polled(progress) => match progress {
                // Retry FINs after H3 poll (ACKs may free stream capacity).
                H3Progress::Nothing => ListenStep::RetryFinsAndMeasure,
                H3Progress::Event(event) => ListenStep::CheckClosed(Some(event)),
                H3Progress::Fail(failure) => ListenStep::Fail(failure),
                H3Progress::Refuse { stream_id, response, failure } => ListenStep::Refuse {
                    stream_id,
                    response,
                    failure,
                },
            },
            ListenReply::Capacities(capacities) => {
                // Avoid emitting Writable events for streams with negligible capacity.
                let writable = self.take_writable_streams(&capacities);
                if writable.len() == 0 {
                    assert(writable@ =~= Seq::empty());
                    ListenStep::Receive
                } else {
                    ListenStep::CheckClosed(Some(QuicSocketEvent::Writable(writable)))
                }
            },
            ListenReply::Received(message) => match message {
                None => ListenStep::Fail(Failure::of_kind(FailureKind::UnexpectedEof)),
                Some(MultiplexerMessage::PollH3) => ListenStep::Poll,
                Some(MultiplexerMessage::Close) => ListenStep::CheckClosed(None),
            },
            ListenReply::Checked { closed, event } => {
                if closed {
                    return ListenStep::FailClosed(Failure::of_kind(FailureKind::UnexpectedEof));
                }
                match event {
                    None => ListenStep::RetryFinsAndPoll,
                    Some(event) => ListenStep::Return(event),
                }
            },
        }
    }
}

/// The owner of stream `id` waits, and `capacities` says that it can write.
pub open spec fn is_writable(sets: StreamSets, capacities: Seq<(u64, Option<usize>)>, id: u64) -> bool {
    &&& sets.waiting.contains(id)
    &&& !sets.fin_pending.contains(id)
    &&& exists|i: int|
        0 <= i < capacities.len() && #[trigger] capacities[i].0 == id && match capacities[i].1 {
            Some(capacity) => capacity >= MIN_USABLE_QUIC_STREAM_CAPACITY,
            None => true,
        }
}

proof fn lemma_is_writable_longer(
    sets: StreamSets,
    capacities: Seq<(u64, Option<usize>)>,
    last: (u64, Option<usize>),
    id: u64,
)
    ensures
        is_writable(sets, capacities.push(last), id) <==> is_writable(sets, capacities, id) || (
        sets.waiting.contains(id) && !sets.fin_pending.contains(id) && last.0 == id && match last.1 {
            Some(capacity) => capacity >= MIN_USABLE_QUIC_STREAM_CAPACITY,
            None => true,
        }),
{
    let longer = capacities.push(last);
    if is_writable(sets, capacities, id) {
        let i = choose|i: int|
            0 <= i < capacities.len() && #[trigger] capacities[i].0 == id && match capacities[i].1 {
                Some(capacity) => capacity >= MIN_USABLE_QUIC_STREAM_CAPACITY,
                None => true,
            };
        assert(longer[i] == capacities[i]);
    }
    assert(longer[capacities.len() as int] == last);
    if is_writable(sets, longer, id) {
        let i = choose|i: int|
            0 <= i < longer.len() && #[trigger] longer[i].0 == id && match longer[i].1 {
                Some(capacity) => capacity >= MIN_USABLE_QUIC_STREAM_CAPACITY,
                None => true,
            };
        if i < capacities.len() {
            assert(longer[i] == capacities[i]);
        }
    }
}

proof fn lemma_push_contains(s: Seq<u64>, x: u64)
    ensures
        forall|y: u64| #[trigger] s.push(x).contains(y) <==> s.contains(y) || x == y,
{
    assert(s.push(x)[s.len() as int] == x);
    assert forall|y: u64| s.contains(y) implies #[trigger] s.push(x).contains(y) by {
        let i = choose|i: int| 0 <= i < s.len() && s[i] == y;
        assert(s.push(x)[i] == y);
    }
}

/// The members of a set, in no particular order.
fn set_to_vec(set: &HashSet<u64>) -> (members: Vec<u64>)
    ensures
        members@.to_set() == set@,
        members@.no_duplicates(),
{
    let mut members: Vec<u64> = Vec::new();
    let ghost keys = vstd::std_specs::iter::IteratorSpec::remaining(
        &vstd::std_specs::hash::spec_hash_keys_iter(set),
    );
    for x in iter: set.iter()
        invariant
            iter.seq() == keys,
            members@ =~= keys.take(iter.index()).unref(),
    {
        members.push(*x);
    }
    proof {
        assert(keys.take(keys.len() as int) =~= keys);
        assert(members@ =~= keys.unref());
    }
    members
}

/// How sending `len` bytes of body, and the end of the stream where `fin`, begins.
pub open spec fn send_start(len: int, fin: bool) -> H3SendStart {
    if len > 0 {
        H3SendStart::QueryCapacity
    } else if fin {
        H3SendStart::SendFin
    } else {
        H3SendStart::Done
    }
}

/// Begins to send one complete H3 DATA frame in a single piece (atomic framing).
pub fn stream_send_h3_data(data: &[u8], fin: bool) -> (start: H3SendStart)
    ensures
        start == send_start(data@.len() as int, fin),
{
    if data.len() == 0 {
        if !fin {
            return H3SendStart::Done;
        }
        return H3SendStart::SendFin;
    }
    H3SendStart::QueryCapacity
}

/// How many bytes of the body were accepted, given what came of sending an empty STREAM frame with
/// FIN: there were none.
pub fn empty_fin_sent(sent: Result<usize, QuicError>) -> (accepted: Result<usize, QuicError>)
    ensures
        match sent {
            Ok(_) => accepted matches Ok(payload) && payload == 0,
            Err(e) => accepted matches Err(f) && f == e,
        },
{
    match sent {
        Ok(_) => Ok(0),
        Err(e) => Err(e),
    }
}

/// The DATA frame to send into a stream of the given capacity: as much of `data` as one complete
/// frame can carry.
pub fn h3_data_for_capacity(data: &[u8], fin: bool, capacity: Result<usize, QuicError>) -> (plan:
    H3SendPlan)
    requires
        data@.len() > 0,
    ensures
        match capacity {
            Err(e) => plan matches H3SendPlan::Fail(f) && f == e,
            Ok(capacity) => if capacity < MIN_USABLE_QUIC_STREAM_CAPACITY {
                plan matches H3SendPlan::AwaitCapacity(wanted) && wanted
                    == MIN_USABLE_QUIC_STREAM_CAPACITY
            } else {
                plan matches H3SendPlan::Send(frame) && is_frame_for(frame, data@, fin, capacity)
            },
        },
        plan is AwaitCapacity <==> (capacity matches Ok(c) && c < 3),
        plan matches H3SendPlan::AwaitCapacity(wanted) ==> wanted == 3,
        plan is Fail <==> capacity is Err,
{
    let cap: usize = match capacity {
        Ok(c) => c,
        Err(e) => return H3SendPlan::Fail(e),
    };
    let max_payload: usize = max_h3_data_payload_for_capacity(cap);
    if max_payload == 0 {
        return H3SendPlan::AwaitCapacity(MIN_USABLE_QUIC_STREAM_CAPACITY);
    }
    let chunk_len: usize = if data.len() < max_payload { data.len() } else { max_payload };
    let send_fin = fin && chunk_len == data.len();
    let chunk = vstd::slice::slice_subrange(data, 0, chunk_len);
    let bytes = encode_h3_data_frame(chunk);
    proof {
        assert(chunk@ =~= data@.take(chunk_len as int));
        crate::h3_frame::lemma_data_frame_len_monotonic(chunk_len as int, max_payload as int);
    }
    H3SendPlan::Send(H3DataFrame { bytes, fin: send_fin, payload_len: chunk_len })
}

/// `frame` is the complete DATA frame that carries as much of `data` as fits into `capacity`; the
/// stream ends with it where that was asked for and nothing is left.
pub open spec fn is_frame_for(frame: H3DataFrame, data: Seq<u8>, fin: bool, capacity: usize) -> bool {
    &&& 0 < frame.payload_len <= data.len()
    &&& frame.bytes@ == crate::h3_frame::data_frame(data.take(frame.payload_len as int))
    &&& frame.bytes@.len() <= capacity
    &&& frame.payload_len < data.len() ==> crate::h3_frame::is_max_payload(
        frame.payload_len as int,
        capacity as int,
    )
    &&& frame.fin == (fin && frame.payload_len == data.len())
}

/// How many bytes of the body were accepted, given that the connection took `sent` of the bytes of
/// the frame. An incomplete frame poisons the framing of the stream: nothing may follow it.
pub open spec fn accepted_payload(frame: H3DataFrame, sent: Result<usize, QuicError>) -> Result<
    usize,
    QuicError,
> {
    match sent {
        Ok(n) => if n == frame.bytes@.len() {
            Ok(frame.payload_len)
        } else {
            Err(QuicError::FinalSize)
        },
        Err(e) => Err(e),
    }
}

/// How many bytes of the body were accepted, given that the connection took `sent` of the bytes of
/// the frame.
pub fn h3_data_sent(frame: &H3DataFrame, sent: Result<usize, QuicError>) -> (accepted: Result<
    usize,
    QuicError,
>)
    ensures
        accepted == accepted_payload(*frame, sent),
        match sent {
            Ok(n) => if n == frame.bytes@.len() {
                accepted == Ok::<usize, QuicError>(frame.payload_len)
            } else {
                accepted matches Err(QuicError::FinalSize)
            },
            Err(e) => accepted == Err::<usize, QuicError>(e),
        },
{
    match sent {
        Ok(n) => if n == frame.bytes.len() {
            Ok(frame.payload_len)
        } else {
            Err(QuicError::FinalSize)
        },
        Err(e) => Err(e),
    }
}

/// However often a body is written, each time with what the last write handed back and into
/// whatever capacity, the stream holds complete DATA frames. Their payloads and what is left make
/// up the body, and less is left each time. What is left is what the write hands back once the
/// connection took the frame whole.
pub proof fn law_body_is_split_without_loss(
    body: Seq<u8>,
    payloads: Seq<Seq<u8>>,
    left: Seq<u8>,
    capacity: usize,
    frame: H3DataFrame,
    stream_id: u64,
    sent: Result<usize, QuicError>,
    written: Result<Bytes, Failure>,
)
    requires
        body == crate::h3_frame::joined(payloads) + left,
        is_frame_for(frame, left, false, capacity),
    ensures
        ({
            let more = payloads.push(left.take(frame.payload_len as int));
            let still_left = left.skip(frame.payload_len as int);
            &&& crate::h3_frame::framed(more) == crate::h3_frame::framed(payloads) + frame.bytes@
            &&& body == crate::h3_frame::joined(more) + still_left
            &&& still_left.len() < left.len()
            &&& !frame.fin
        }),
        is_written(written, stream_id, left, accepted_payload(frame, sent)) && (sent matches Ok(n)
            && n == frame.bytes@.len()) ==> {
            let more = payloads.push(left.take(frame.payload_len as int));
            &&& written matches Ok(rest)
            &&& body == crate::h3_frame::joined(more) + crate::buffers::bytes_content(rest)
            &&& left == left.take(frame.payload_len as int) + crate::buffers::bytes_content(rest)
            &&& crate::buffers::bytes_content(rest).len() == left.len() - frame.payload_len
        },
{
    let more = payloads.push(left.take(frame.payload_len as int));
    let still_left = left.skip(frame.payload_len as int);
    assert(more.drop_last() =~= payloads);
    assert(left =~= left.take(frame.payload_len as int) + still_left);
    assert(body =~= crate::h3_frame::joined(more) + still_left);
}

} // verus!
