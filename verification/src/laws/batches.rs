//! What connections are owed after a batch of packets.

use crate::quic_multiplexer::batch::{Batch, BatchEntry};
use crate::quic_multiplexer::events::MultiplexerMessage;
use vstd::prelude::*;

verus! {

/// Messages add up: a socket is to be polled or closed where that was so before or is the message,
/// by the way that came last. Without a message everything stays, and the connection always does.
pub proof fn law_messages_add_up<Q, T>(
    entry: BatchEntry<Q, T>,
    message: Option<(T, MultiplexerMessage)>,
)
    ensures
        ({
            let next = entry.with_message(message);
            &&& next.conn == entry.conn
            &&& message is None ==> next == entry
            &&& message matches Some((tx, kind)) ==> {
                &&& next.socket_tx == Some(tx)
                &&& next.poll_h3 <==> entry.poll_h3 || kind is PollH3
                &&& next.close <==> entry.close || kind is Close
            }
        }),
{
}

/// A connection is served as it was first seen in the batch, with what it is owed already; one
/// that was not seen yet is owed nothing.
pub proof fn law_a_connection_is_served_as_first_seen<Q, T>(
    batch: Batch<Q, T>,
    id: Seq<u8>,
    conn: Q,
)
    ensures
        ({
            let entry = batch.serving(id, conn);
            &&& batch.pending.dom().contains(id) ==> entry == batch.pending[id]
            &&& !batch.pending.dom().contains(id) ==> {
                &&& entry.conn == conn
                &&& entry.socket_tx is None
                &&& !entry.poll_h3
                &&& !entry.close
            }
        }),
{
}

/// A socket is sent each kind of message that it is owed once, to poll before to close; where there
/// is no way to it, it is sent nothing.
pub proof fn law_what_a_socket_is_sent<Q, T>(entry: BatchEntry<Q, T>)
    ensures
        ({
            let owed = entry.owed();
            let polls = entry.socket_tx is Some && entry.poll_h3;
            let closes = entry.socket_tx is Some && entry.close;
            &&& polls && closes ==> owed.len() == 2 && owed[0] is PollH3 && owed[1] is Close
            &&& polls && !closes ==> owed.len() == 1 && owed[0] is PollH3
            &&& !polls && closes ==> owed.len() == 1 && owed[0] is Close
            &&& !polls && !closes ==> owed.len() == 0
        }),
{
}

} // verus!
