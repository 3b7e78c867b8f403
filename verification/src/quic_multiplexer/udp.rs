//! Sending what QUIC connections have to send.

use crate::failure::{Failure, FailureKind, QuicError};
use vstd::prelude::*;

verus! {

/// What to do after the connection was asked for a packet.
pub enum FlushStep {
    /// Send the packet, which is so many bytes long, and ask again.
    Transmit(usize),
    /// There is nothing more to send.
    Done,
    Fail(Failure),
}

/// Goes on after the connection was asked for a packet.
pub fn flush_pending_data(packet: Result<usize, QuicError>) -> (step: FlushStep)
    ensures
        match packet {
            Ok(len) => step == FlushStep::Transmit(len),
            Err(QuicError::Done) => step is Done,
            Err(e) => step matches FlushStep::Fail(failure) && failure@
                == crate::failure::failure_text(
                FailureKind::Other,
                crate::failure::quic_error_text(e),
            ),
        },
{
    match packet {
        Ok(len) => FlushStep::Transmit(len),
        Err(QuicError::Done) => FlushStep::Done,
        Err(e) => FlushStep::Fail(e.to_failure()),
    }
}

/// Whether sending goes on after a packet was handed to the UDP socket. A packet for which there
/// is no room is dropped, as the network may drop it: that stops nothing. `failed` is the kind of
/// the failure, with the error code of the operating system, and `no_buffers` the code by which it
/// says that it has no room.
pub fn udp_socket_send_to(failed: Option<(FailureKind, Option<i32>)>, no_buffers: i32) -> (goes_on:
    bool)
    ensures
        goes_on == match failed {
            None => true,
            Some((kind, code)) => kind == FailureKind::WouldBlock || code == Some(no_buffers),
        },
{
    match failed {
        None => true,
        Some((FailureKind::WouldBlock, _)) => true,
        Some((_, Some(code))) => code == no_buffers,
        Some((_, None)) => false,
    }
}

} // verus!
