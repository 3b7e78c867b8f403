//! Pure policy for H3 stream body/write-FIN lifecycle.
//!
//! Goal: never produce connection-wide FINAL_SIZE_ERROR by racing body after FIN,
//! double-FIN, or write-FIN after peer STOP_SENDING.

use vstd::prelude::*;

verus! {

/// Whether a body write may put a DATA frame on the stream.
#[derive(Debug, Clone, Copy, PartialEq, Eq, Structural)]
pub enum BodyWriteGate {
    /// Proceed with H3 body write under H3+QUIC locks.
    Allow,
    /// Local write side is finished or FIN is in flight: do not append body
    /// (would risk peer FINAL_SIZE_ERROR).
    RefuseClosed,
}

/// Whether a write-FIN may be put on the stream.
#[derive(Debug, Clone, Copy, PartialEq, Eq, Structural)]
pub enum WriteFinGate {
    /// Already finished (including after peer STOP_SENDING): no-op.
    Skip,
    /// Attempt H3 write-FIN (or defer on flow control).
    Attempt,
}

/// How to treat an H3 body-write error for stream lifecycle.
#[derive(Debug, Clone, Copy, PartialEq, Eq, Structural)]
pub enum BodyWriteErrorAction {
    /// Capacity: retry later; stream still open.
    RetryLater,
    /// Peer stop / local already finished / transport final-size: retire write side;
    /// **do not** issue empty write-FIN afterward.
    RetireNoFurtherFin,
    /// Unexpected: surface to caller.
    Fatal,
}

/// Gate body write given local FIN state.
///
/// `fin_pending` / `fin_done` must be re-checked under the same H3+QUIC locks
/// that protect the write.
pub fn gate_body_write(fin_pending: bool, fin_done: bool, peer_stopped: bool) -> (gate:
    BodyWriteGate)
    ensures
        gate == BodyWriteGate::Allow <==> !fin_pending && !fin_done && !peer_stopped,
        gate == BodyWriteGate::RefuseClosed <==> fin_pending || fin_done || peer_stopped,
{
    if fin_pending || fin_done || peer_stopped {
        BodyWriteGate::RefuseClosed
    } else {
        BodyWriteGate::Allow
    }
}

/// Whether a body write fails at once, instead of waiting for capacity.
pub fn refuse_closed_is_hard_error(fin_pending: bool, fin_done: bool, peer_stopped: bool) -> (hard:
    bool)
    ensures
        hard <==> fin_pending || fin_done || peer_stopped,
{
    match gate_body_write(fin_pending, fin_done, peer_stopped) {
        BodyWriteGate::Allow => false,
        BodyWriteGate::RefuseClosed => true,
    }
}

/// Gate write-FIN. After peer STOP_SENDING we never emit empty DATA+FIN.
pub fn gate_write_fin(fin_done: bool, peer_stopped: bool) -> (gate: WriteFinGate)
    ensures
        gate == WriteFinGate::Skip <==> fin_done || peer_stopped,
        gate == WriteFinGate::Attempt <==> !fin_done && !peer_stopped,
{
    if fin_done || peer_stopped {
        WriteFinGate::Skip
    } else {
        WriteFinGate::Attempt
    }
}

/// What becomes of a stream after a body write failed in one of these ways.
pub open spec fn body_write_error_action(
    stream_blocked_or_done: bool,
    peer_stop_sending: bool,
    final_size: bool,
    invalid_stream_state: bool,
    frame_unexpected: bool,
) -> BodyWriteErrorAction {
    if stream_blocked_or_done {
        BodyWriteErrorAction::RetryLater
    } else if peer_stop_sending || final_size || invalid_stream_state || frame_unexpected {
        BodyWriteErrorAction::RetireNoFurtherFin
    } else {
        BodyWriteErrorAction::Fatal
    }
}

/// Classify quiche/H3 body errors that the multiplexer maps into lifecycle actions.
///
/// Inputs are flags derived from the real error enum at the call site so this
/// stays free of quiche types and is easy to unit-test.
pub fn classify_body_write_error(
    stream_blocked_or_done: bool,
    peer_stop_sending: bool,
    final_size: bool,
    invalid_stream_state: bool,
    frame_unexpected: bool,
) -> (action: BodyWriteErrorAction)
    ensures
        action == body_write_error_action(
            stream_blocked_or_done,
            peer_stop_sending,
            final_size,
            invalid_stream_state,
            frame_unexpected,
        ),
{
    if stream_blocked_or_done {
        return BodyWriteErrorAction::RetryLater;
    }
    if peer_stop_sending || final_size || invalid_stream_state || frame_unexpected {
        return BodyWriteErrorAction::RetireNoFurtherFin;
    }
    BodyWriteErrorAction::Fatal
}

} // verus!
