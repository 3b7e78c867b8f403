//! What becomes of a stream, and of the others, with every operation on its write side.

use crate::failure::{H3Error, QuicError};
use crate::h3_stream_write_policy::BodyWriteErrorAction;
use crate::quic_multiplexer::body_read::BodyRead;
use crate::quic_multiplexer::events::QuicSocketEvent;
use crate::quic_multiplexer::socket::{H3SendStart, ListenStep, QuicSocket};
use crate::quic_multiplexer::streams::StreamSets;
use vstd::prelude::*;

verus! {

/// What is known of a stream: whether its owner waits, whether its write-FIN is due, whether it is
/// finished, and whether the peer stopped it.
pub open spec fn known_of(sets: StreamSets, id: u64) -> (bool, bool, bool, bool) {
    (
        sets.waiting.contains(id),
        sets.fin_pending.contains(id),
        sets.fin_done.contains(id),
        sets.stopped.contains(id),
    )
}

/// What is known of a stream is what became of it: of a new connection nothing is known, and an
/// operation on a stream changes just what it is about.
pub proof fn law_what_becomes_of_a_stream(sets: StreamSets, id: u64, ids: Set<u64>)
    ensures
        known_of(StreamSets::empty(), id) == (false, false, false, false),
        ({
            let (waits, due, done, stopped) = known_of(sets, id);
            &&& known_of(sets.with_waiting(id), id) == (true, due, done, stopped)
            &&& known_of(sets.without_waiting(ids), id) == (
                waits && !ids.contains(id),
                due,
                done,
                stopped,
            )
            &&& known_of(sets.forgotten(id), id) == (false, false, done, stopped)
            &&& known_of(sets.with_fin_done(id), id) == (waits, false, true, stopped)
            &&& known_of(sets.with_peer_stopped(id), id) == (waits, false, true, true)
            &&& known_of(sets.with_fin_pending(id), id) == (waits, true, done, stopped)
            &&& known_of(sets.fin_skipped(id), id) == (waits, false, done, stopped)
            &&& sets.retired(id) == (done || stopped)
            &&& sets.write_closed(id) == (due || done || stopped)
        }),
{
}

/// What the reply of the connection does to a stream.
pub proof fn law_what_a_reply_does_to_a_stream(
    sets: StreamSets,
    id: u64,
    fin: bool,
    sent: Result<usize, QuicError>,
    answered: Result<(), H3Error>,
)
    ensures
        ({
            let (waits, due, done, stopped) = known_of(sets, id);
            let body = known_of(sets.after_body(id, sent), id);
            let end = known_of(sets.after_fin(id, sent), id);
            &&& match sent {
                Ok(_) => body == (waits, due, done, stopped) && end == (waits, false, true, stopped),
                Err(QuicError::Done) => body == (waits, due, done, stopped) && end == (
                    waits,
                    true,
                    done,
                    stopped,
                ),
                Err(QuicError::StreamStopped(_)) => body == (waits, false, true, true) && end == (
                    waits,
                    false,
                    true,
                    true,
                ),
                Err(QuicError::FinalSize) => body == (waits, false, true, stopped) && end == (
                    waits,
                    false,
                    true,
                    stopped,
                ),
                Err(QuicError::InvalidStreamState(_)) => body == (waits, false, true, stopped)
                    && end == (waits, false, true, stopped),
                Err(QuicError::Other(_)) => body == (waits, due, done, stopped) && end == (
                    waits,
                    false,
                    true,
                    stopped,
                ),
            }
            &&& known_of(sets.after_response(id, fin, answered), id) == if fin && answered is Ok {
                (waits, false, true, stopped)
            } else {
                (waits, due, done, stopped)
            }
        }),
{
}

/// What happens on one stream leaves the others as they were.
pub proof fn law_other_streams_are_left_alone(
    sets: StreamSets,
    id: u64,
    other: u64,
    fin: bool,
    sent: Result<usize, QuicError>,
    answered: Result<(), H3Error>,
)
    requires
        other != id,
    ensures
        known_of(sets.with_waiting(id), other) == known_of(sets, other),
        known_of(sets.forgotten(id), other) == known_of(sets, other),
        known_of(sets.with_fin_done(id), other) == known_of(sets, other),
        known_of(sets.with_peer_stopped(id), other) == known_of(sets, other),
        known_of(sets.with_fin_pending(id), other) == known_of(sets, other),
        known_of(sets.fin_skipped(id), other) == known_of(sets, other),
        known_of(sets.after_body(id, sent), other) == known_of(sets, other),
        known_of(sets.after_fin(id, sent), other) == known_of(sets, other),
        known_of(sets.after_response(id, fin, answered), other) == known_of(sets, other),
{
}

/// The owner of a stream is told to write exactly where it waits, no write-FIN is due, and some
/// report on the stream tells of room for a frame of one byte, or that asking failed.
pub proof fn law_who_is_told_to_write(
    sets: StreamSets,
    capacities: Seq<(u64, Option<usize>)>,
    id: u64,
)
    ensures
        crate::quic_multiplexer::socket::is_writable(sets, capacities, id) <==> sets.waiting.contains(
            id,
        ) && !sets.fin_pending.contains(id) && exists|i: int|
            0 <= i < capacities.len() && #[trigger] capacities[i].0 == id && !(
            capacities[i].1 matches Some(capacity) && capacity < 3),
{
    if crate::quic_multiplexer::socket::is_writable(sets, capacities, id) {
        let i = choose|i: int|
            0 <= i < capacities.len() && #[trigger] capacities[i].0 == id && match capacities[i].1 {
                Some(capacity) => capacity
                    >= crate::h3_frame::MIN_USABLE_QUIC_STREAM_CAPACITY,
                None => true,
            };
        assert(capacities[i].0 == id);
    }
    if exists|i: int|
        0 <= i < capacities.len() && #[trigger] capacities[i].0 == id && !(
        capacities[i].1 matches Some(capacity) && capacity < 3) {
        let i = choose|i: int|
            0 <= i < capacities.len() && #[trigger] capacities[i].0 == id && !(
            capacities[i].1 matches Some(capacity) && capacity < 3);
        assert(capacities[i].0 == id);
    }
}

/// A step that is about to tell of streams that can be written to tells of these, and no other
/// step tells of any.
pub proof fn law_steps_tell_of_the_streams_they_name(step: ListenStep)
    ensures
        match step {
            ListenStep::CheckClosed(Some(QuicSocketEvent::Writable(ids))) =>
            crate::quic_multiplexer::socket::told_writable(step) == ids@,
            _ => crate::quic_multiplexer::socket::told_writable(step).len() == 0,
        },
{
}

/// Whatever is to be sent, sending begins with a question for room where there is body, with the
/// end of the stream where there is only that, and not at all where there is nothing.
pub proof fn law_how_sending_begins(len: int, fin: bool)
    requires
        len >= 0,
    ensures
        crate::quic_multiplexer::socket::send_start(len, fin) == H3SendStart::QueryCapacity <==> len
            != 0,
        crate::quic_multiplexer::socket::send_start(len, fin) == H3SendStart::SendFin <==> len == 0
            && fin,
        crate::quic_multiplexer::socket::send_start(len, fin) == H3SendStart::Done <==> len == 0
            && !fin,
{
}

/// A stream that had no room stays open, whatever else is reported; any of the four reasons that
/// the peer or the stream gives retires it; and only what has none of these is fatal.
pub proof fn law_what_a_failed_write_means(
    blocked: bool,
    stopped: bool,
    final_size: bool,
    bad_state: bool,
    unexpected: bool,
)
    ensures
        ({
            let action = crate::h3_stream_write_policy::body_write_error_action(
                blocked,
                stopped,
                final_size,
                bad_state,
                unexpected,
            );
            &&& action == BodyWriteErrorAction::RetryLater <==> blocked
            &&& action == BodyWriteErrorAction::RetireNoFurtherFin <==> !blocked && (stopped
                || final_size || bad_state || unexpected)
            &&& action == BodyWriteErrorAction::Fatal <==> !blocked && !stopped && !final_size
                && !bad_state && !unexpected
        }),
{
}

/// What a read received is what stands in front in its buffer, as far as it came; and while it
/// goes on, there is room left in a buffer of 65536 bytes.
pub proof fn law_what_a_read_received(read: BodyRead)
    requires
        read.wf(),
    ensures
        read.content().len() == 65536,
        0 <= read.offset() < 65536,
        read.received().len() == read.offset(),
        forall|i: int|
            0 <= i < read.offset() ==> #[trigger] read.received()[i] == read.content()[i],
{
}

/// As long as a connection is the same, so are its ID, its peer, what the TLS layer decided and the
/// random bytes of the client.
pub proof fn law_what_stays_of_a_connection<M>(before: QuicSocket<M>, after: QuicSocket<M>)
    requires
        after.same_connection(&before),
    ensures
        after.spec_id() == before.spec_id(),
        after.spec_peer() == before.spec_peer(),
        after.spec_meta() == before.spec_meta(),
        after.spec_client_random() == before.spec_client_random(),
{
}

} // verus!
