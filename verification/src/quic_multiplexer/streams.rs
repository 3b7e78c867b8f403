//! What is known of the write sides of the streams of a connection, and how it changes.

use crate::failure::{H3Error, QuicError};
use vstd::prelude::*;

verus! {

/// The write sides of the streams of one connection.
#[verifier::ext_equal]
pub ghost struct StreamSets {
    /// Streams whose owner waits until it can write.
    pub waiting: Set<u64>,
    /// Streams that need a write-FIN once capacity allows.
    pub fin_pending: Set<u64>,
    /// Local write-FIN already accepted by QUIC for this stream, or given up.
    pub fin_done: Set<u64>,
    /// Peer STOP_SENDING / cancel: never emit write-FIN on this stream.
    pub stopped: Set<u64>,
}

impl StreamSets {
    pub open spec fn empty() -> StreamSets {
        StreamSets {
            waiting: Set::empty(),
            fin_pending: Set::empty(),
            fin_done: Set::empty(),
            stopped: Set::empty(),
        }
    }

    /// A stream that the peer stopped counts as finished, and no finished stream still needs a
    /// write-FIN.
    pub open spec fn wf(self) -> bool {
        &&& forall|id: u64| #[trigger] self.stopped.contains(id) ==> self.fin_done.contains(id)
        &&& forall|id: u64| #[trigger] self.fin_pending.contains(id) ==> !self.fin_done.contains(id)
    }

    /// Nothing is ever written to the stream again.
    pub open spec fn retired(self, id: u64) -> bool {
        self.fin_done.contains(id) || self.stopped.contains(id)
    }

    /// The stream takes no body: it is retired, or its write-FIN is due.
    pub open spec fn write_closed(self, id: u64) -> bool {
        self.retired(id) || self.fin_pending.contains(id)
    }

    /// The write side of the stream is finished.
    pub open spec fn with_fin_done(self, id: u64) -> StreamSets {
        StreamSets {
            fin_pending: self.fin_pending.remove(id),
            fin_done: self.fin_done.insert(id),
            ..self
        }
    }

    /// The peer does not want more of the stream.
    pub open spec fn with_peer_stopped(self, id: u64) -> StreamSets {
        StreamSets { stopped: self.stopped.insert(id), ..self.with_fin_done(id) }
    }

    /// The stream needs a write-FIN once capacity allows.
    pub open spec fn with_fin_pending(self, id: u64) -> StreamSets {
        StreamSets { fin_pending: self.fin_pending.insert(id), ..self }
    }

    /// The owner of the stream waits until it can write.
    pub open spec fn with_waiting(self, id: u64) -> StreamSets {
        StreamSets { waiting: self.waiting.insert(id), ..self }
    }

    /// These owners were told that they can write.
    pub open spec fn without_waiting(self, ids: Set<u64>) -> StreamSets {
        StreamSets { waiting: self.waiting.difference(ids), ..self }
    }

    /// The stream has no owner any more. That it is retired is remembered: stream IDs are never
    /// used again on a connection.
    pub open spec fn forgotten(self, id: u64) -> StreamSets {
        StreamSets {
            waiting: self.waiting.remove(id),
            fin_pending: self.fin_pending.remove(id),
            ..self
        }
    }

    /// After an attempt to send a DATA frame came to `sent`.
    pub open spec fn after_body(self, id: u64, sent: Result<usize, QuicError>) -> StreamSets {
        match sent {
            Err(QuicError::StreamStopped(_)) => self.with_peer_stopped(id),
            Err(QuicError::FinalSize) => self.with_fin_done(id),
            Err(QuicError::InvalidStreamState(_)) => self.with_fin_done(id),
            _ => self,
        }
    }

    /// After an attempt to send a write-FIN came to `sent`: only for want of capacity is it
    /// tried again.
    pub open spec fn after_fin(self, id: u64, sent: Result<usize, QuicError>) -> StreamSets {
        match sent {
            Err(QuicError::Done) => self.with_fin_pending(id),
            Err(QuicError::StreamStopped(_)) => self.with_peer_stopped(id),
            _ => self.with_fin_done(id),
        }
    }

    /// A write-FIN on a retired stream is not sent; it is just no longer due.
    pub open spec fn fin_skipped(self, id: u64) -> StreamSets {
        StreamSets { fin_pending: self.fin_pending.remove(id), ..self }
    }

    /// After an attempt to send response headers, with the end of the stream where `fin`, came
    /// to `sent`.
    pub open spec fn after_response(self, id: u64, fin: bool, sent: Result<(), H3Error>) -> StreamSets {
        if fin && sent is Ok {
            self.with_fin_done(id)
        } else {
            self
        }
    }
}

/// What can happen to the streams of a connection until it is torn down, together with what the
/// connection replied.
#[allow(inconsistent_fields)]
pub ghost enum StreamOp {
    WaitWritable(u64),
    TellWritable(Set<u64>),
    Forget(u64),
    Response { id: u64, fin: bool, sent: Result<(), H3Error> },
    Body { id: u64, sent: Result<usize, QuicError> },
    Fin { id: u64, sent: Result<usize, QuicError> },
}

/// What `op` makes of `sets`.
pub open spec fn step(sets: StreamSets, op: StreamOp) -> StreamSets {
    match op {
        StreamOp::WaitWritable(id) => sets.with_waiting(id),
        StreamOp::TellWritable(ids) => sets.without_waiting(ids),
        StreamOp::Forget(id) => sets.forgotten(id),
        StreamOp::Response { id, fin, sent } => if sets.retired(id) {
            sets
        } else {
            sets.after_response(id, fin, sent)
        },
        StreamOp::Body { id, sent } => if sets.write_closed(id) {
            sets
        } else {
            sets.after_body(id, sent)
        },
        StreamOp::Fin { id, sent } => if sets.retired(id) {
            sets.fin_skipped(id)
        } else {
            sets.after_fin(id, sent)
        },
    }
}

/// `op` hands something to the connection to be sent on stream `id`.
pub open spec fn sends_on(sets: StreamSets, op: StreamOp, id: u64) -> bool {
    match op {
        StreamOp::Response { id: on, .. } => on == id && !sets.retired(id),
        StreamOp::Body { id: on, .. } => on == id && !sets.write_closed(id),
        StreamOp::Fin { id: on, .. } => on == id && !sets.retired(id),
        _ => false,
    }
}

/// `op` hands a DATA frame to the connection to be sent on stream `id`.
pub open spec fn sends_body_on(sets: StreamSets, op: StreamOp, id: u64) -> bool {
    op is Body && sends_on(sets, op, id)
}

/// `op` ends stream `id`, and the connection accepted that.
pub open spec fn finishes(sets: StreamSets, op: StreamOp, id: u64) -> bool {
    &&& sends_on(sets, op, id)
    &&& match op {
        StreamOp::Response { fin, sent, .. } => fin && sent is Ok,
        StreamOp::Fin { sent, .. } => sent is Ok,
        _ => false,
    }
}

/// `op` met a peer that had sent STOP_SENDING for stream `id`.
pub open spec fn meets_stop(sets: StreamSets, op: StreamOp, id: u64) -> bool {
    &&& sends_on(sets, op, id)
    &&& match op {
        StreamOp::Body { sent, .. } => sent matches Err(QuicError::StreamStopped(_)),
        StreamOp::Fin { sent, .. } => sent matches Err(QuicError::StreamStopped(_)),
        _ => false,
    }
}

/// What `ops`, one after the other, make of `sets`.
pub open spec fn run(sets: StreamSets, ops: Seq<StreamOp>) -> StreamSets
    decreases ops.len(),
{
    if ops.len() == 0 {
        sets
    } else {
        step(run(sets, ops.drop_last()), ops.last())
    }
}

/// Whatever happens, a stream that the peer stopped counts as finished, and no finished stream
/// still needs a write-FIN.
pub proof fn law_every_step_keeps_the_sets_consistent(sets: StreamSets, op: StreamOp)
    requires
        sets.wf(),
    ensures
        step(sets, op).wf(),
{
}

/// A retired stream stays retired and silent, whatever happens on the connection: no body after
/// the FIN, no second FIN, no FIN after the peer sent STOP_SENDING.
pub proof fn law_retired_stream_stays_silent(sets: StreamSets, ops: Seq<StreamOp>, id: u64)
    requires
        sets.retired(id),
    ensures
        run(sets, ops).retired(id),
        forall|i: int|
            0 <= i < ops.len() ==> !sends_on(run(sets, #[trigger] ops.take(i)), ops[i], id),
    decreases ops.len(),
{
    if ops.len() > 0 {
        let n = ops.len() - 1;
        law_retired_stream_stays_silent(sets, ops.drop_last(), id);
        assert forall|i: int| 0 <= i < ops.len() implies !sends_on(
            run(sets, #[trigger] ops.take(i)),
            ops[i],
            id,
        ) by {
            if i < n {
                assert(ops.drop_last().take(i) =~= ops.take(i));
            } else {
                assert(ops.take(n) =~= ops.drop_last());
            }
        }
    }
}

/// Nothing follows the end of a stream: after an operation that ended it, or that met the peer's
/// STOP_SENDING, no later one sends anything on it.
pub proof fn law_nothing_follows_the_end_of_a_stream(
    sets: StreamSets,
    ops: Seq<StreamOp>,
    id: u64,
    end: int,
    later: int,
)
    requires
        0 <= end < later < ops.len(),
        finishes(run(sets, ops.take(end)), ops[end], id) || meets_stop(
            run(sets, ops.take(end)),
            ops[end],
            id,
        ),
    ensures
        !sends_on(run(sets, ops.take(later)), ops[later], id),
{
    let prefix = ops.take(end + 1);
    assert(prefix.drop_last() =~= ops.take(end));
    assert(run(sets, prefix).retired(id));
    let rest = ops.skip(end + 1);
    let i = later - end - 1;
    law_retired_stream_stays_silent(run(sets, prefix), rest, id);
    lemma_run_concat(sets, prefix, rest.take(i));
    assert(prefix + rest.take(i) =~= ops.take(later));
    assert(rest[i] == ops[later]);
    assert(!sends_on(run(run(sets, prefix), rest.take(i)), rest[i], id));
}

proof fn lemma_run_concat(sets: StreamSets, first: Seq<StreamOp>, second: Seq<StreamOp>)
    ensures
        run(sets, first + second) == run(run(sets, first), second),
    decreases second.len(),
{
    if second.len() == 0 {
        assert(first + second =~= first);
    } else {
        lemma_run_concat(sets, first, second.drop_last());
        assert((first + second).drop_last() =~= first + second.drop_last());
    }
}

/// While a write-FIN is due, no body is sent on the stream; only its owner's leaving lifts that.
pub proof fn law_no_body_while_fin_is_pending(sets: StreamSets, ops: Seq<StreamOp>, id: u64)
    requires
        sets.write_closed(id),
        forall|i: int| 0 <= i < ops.len() ==> #[trigger] ops[i] != StreamOp::Forget(id),
    ensures
        run(sets, ops).write_closed(id),
        forall|i: int|
            0 <= i < ops.len() ==> !sends_body_on(run(sets, #[trigger] ops.take(i)), ops[i], id),
    decreases ops.len(),
{
    if ops.len() > 0 {
        let n = ops.len() - 1;
        assert forall|i: int| 0 <= i < n implies #[trigger] ops.drop_last()[i] != StreamOp::Forget(
            id,
        ) by {
            assert(ops.drop_last()[i] == ops[i]);
        }
        law_no_body_while_fin_is_pending(sets, ops.drop_last(), id);
        assert(ops[n] != StreamOp::Forget(id));
        assert forall|i: int| 0 <= i < ops.len() implies !sends_body_on(
            run(sets, #[trigger] ops.take(i)),
            ops[i],
            id,
        ) by {
            if i < n {
                assert(ops.drop_last().take(i) =~= ops.take(i));
            } else {
                assert(ops.take(n) =~= ops.drop_last());
            }
        }
    }
}

/// A second request to finish a stream changes nothing.
pub proof fn law_closing_is_idempotent(sets: StreamSets, id: u64, sent: Result<usize, QuicError>)
    requires
        sets.wf(),
        sets.retired(id),
    ensures
        step(sets, StreamOp::Fin { id, sent }) == sets,
        !sends_on(sets, StreamOp::Fin { id, sent }, id),
{
    assert(sets.fin_pending.remove(id) =~= sets.fin_pending);
}

} // verus!
