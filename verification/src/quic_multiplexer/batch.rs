//! Reading packets in batches: what each connection is owed afterwards.

use crate::failure::{Failure, FailureKind};
use crate::quic_multiplexer::events::MultiplexerMessage;
use crate::quic_multiplexer::packets::QUIC_CONNECTION_CLOSE_CODE;
use crate::table::Table;
use vstd::prelude::*;

verus! {

/// The most packets that are read before the connections are served.
pub const READ_BUDGET: usize = 1024;

/// Background means that a connection is not yet established or already being tunneled
pub struct BackgroundConnection<Q, T> {
    pub quic: Q,
    /// What its socket is to be told.
    pub message: Option<(T, MultiplexerMessage)>,
}

impl<Q, T> BackgroundConnection<Q, T> {
    /// A connection whose socket is not told anything.
    pub fn with_conn(quic: Q) -> (background: Self)
        ensures
            background.quic == quic,
            background.message is None,
    {
        BackgroundConnection { quic, message: None }
    }
}

/// A packet could not be processed. Where it has a connection, that is closed with the code in the
/// result, and then served like any other; else the packet is dropped.
pub fn on_packet_failed<Q, T>(quic_conn: Option<Q>) -> (closed: Option<
    (u64, BackgroundConnection<Q, T>),
>)
    ensures
        match quic_conn {
            None => closed is None,
            Some(quic) => closed matches Some((code, background)) && code
                == QUIC_CONNECTION_CLOSE_CODE && background.quic == quic
                && background.message is None,
        },
        closed matches Some((code, _)) ==> code == 0x42,
{
    match quic_conn {
        None => None,
        Some(quic) => Some(
            (QUIC_CONNECTION_CLOSE_CODE, BackgroundConnection::with_conn(quic)),
        ),
    }
}

/// What a connection is owed after a batch of packets.
pub struct BatchEntry<Q, T> {
    pub conn: Q,
    pub socket_tx: Option<T>,
    pub poll_h3: bool,
    pub close: bool,
}

impl<Q, T> BatchEntry<Q, T> {
    /// Nothing is owed to the connection but to be served.
    pub open spec fn of(conn: Q) -> BatchEntry<Q, T> {
        BatchEntry { conn, socket_tx: None, poll_h3: false, close: false }
    }

    /// The entry with one more message. Messages of the same kind are sent once, by the way that
    /// came last.
    pub open spec fn with_message(self, message: Option<(T, MultiplexerMessage)>) -> BatchEntry<
        Q,
        T,
    > {
        match message {
            None => self,
            Some((socket_tx, message)) => BatchEntry {
                conn: self.conn,
                socket_tx: Some(socket_tx),
                poll_h3: self.poll_h3 || message == MultiplexerMessage::PollH3,
                close: self.close || message == MultiplexerMessage::Close,
            },
        }
    }

    /// The messages that the socket of the connection is owed, in this order.
    pub open spec fn owed(self) -> Seq<MultiplexerMessage> {
        let polls = if self.poll_h3 {
            seq![MultiplexerMessage::PollH3]
        } else {
            Seq::empty()
        };
        if self.socket_tx is None {
            Seq::empty()
        } else if self.close {
            polls.push(MultiplexerMessage::Close)
        } else {
            polls
        }
    }

    /// The messages that the socket of the connection is owed, in this order.
    pub fn messages(&self) -> (messages: Vec<MultiplexerMessage>)
        ensures
            messages@ == self.owed(),
    {
        let mut messages: Vec<MultiplexerMessage> = Vec::new();
        if self.socket_tx.is_none() {
            return messages;
        }
        if self.poll_h3 {
            messages.push(MultiplexerMessage::PollH3);
        }
        if self.close {
            messages.push(MultiplexerMessage::Close);
        }
        assert(messages@ =~= self.owed());
        messages
    }
}

/// What came of sending a message to a socket.
#[derive(Debug, Clone, Copy, PartialEq, Eq, Structural)]
pub enum SendOutcome {
    Sent,
    /// There are enough messages in the queue.
    Full,
    /// There is no socket any more.
    Closed,
}

/// Whether the connection can go on, given what came of a message to its socket. `Full` is not
/// considered as an error in this case, as the connection does not need multiple `poll` messages
/// in the queue.
pub fn on_message_sent(outcome: SendOutcome) -> (result: Result<(), Failure>)
    ensures
        match result {
            Ok(_) => outcome != SendOutcome::Closed,
            Err(failure) => outcome == SendOutcome::Closed && failure@
                == crate::failure::failure_text(FailureKind::Other, "Channel closed"@),
        },
{
    match outcome {
        SendOutcome::Sent | SendOutcome::Full => Ok(()),
        SendOutcome::Closed => Err(Failure::other("Channel closed")),
    }
}

/// The content of a [`ReadBatch`]: what the connections are owed, by their IDs, how many more
/// packets may be read, and whether the batch is over before that.
#[verifier::ext_equal]
pub ghost struct Batch<Q, T> {
    pub pending: Map<Seq<u8>, BatchEntry<Q, T>>,
    pub budget: int,
    pub over: bool,
}

impl<Q, T> Batch<Q, T> {
    /// The connection is served, as it was first seen in the batch.
    pub open spec fn serving(self, id: Seq<u8>, conn: Q) -> BatchEntry<Q, T> {
        if self.pending.dom().contains(id) {
            self.pending[id]
        } else {
            BatchEntry::of(conn)
        }
    }
}

/// A batch of packets.
pub struct ReadBatch<Q, T> {
    pending: Table<Vec<u8>, BatchEntry<Q, T>>,
    budget: usize,
    over: bool,
}

impl<Q, T> View for ReadBatch<Q, T> {
    type V = Batch<Q, T>;

    closed spec fn view(&self) -> Batch<Q, T> {
        Batch { pending: self.pending@, budget: self.budget as int, over: self.over }
    }
}

impl<Q, T> ReadBatch<Q, T> {
    pub closed spec fn wf(&self) -> bool {
        self.pending.wf()
    }

    pub fn new() -> (batch: Self)
        ensures
            batch.wf(),
            batch@ == (Batch::<Q, T> {
                pending: Map::empty(),
                budget: READ_BUDGET as int,
                over: false,
            }),
            batch@.budget == 1024,
    {
        ReadBatch { pending: Table::new(), budget: READ_BUDGET, over: false }
    }

    /// Whether another packet is to be read.
    pub fn next_read(&mut self) -> (read: bool)
        requires
            old(self).wf(),
        ensures
            final(self).wf(),
            read == (!old(self)@.over && old(self)@.budget > 0),
            final(self)@ == (Batch {
                budget: old(self)@.budget - if read {
                    1int
                } else {
                    0
                },
                ..old(self)@
            }),
    {
        if self.over || self.budget == 0 {
            return false;
        }
        self.budget = self.budget - 1;
        true
    }

    /// No packet could be read. That there is none to read only ends the batch; any other kind of
    /// failure is one of the batch.
    pub fn on_read_failed(&mut self, kind: FailureKind) -> (only_ends: bool)
        requires
            old(self).wf(),
        ensures
            final(self).wf(),
            only_ends == (kind == FailureKind::WouldBlock),
            final(self)@ == if only_ends {
                Batch { over: true, ..old(self)@ }
            } else {
                old(self)@
            },
    {
        if kind != FailureKind::WouldBlock {
            return false;
        }
        self.over = true;
        true
    }

    /// A packet led to a new socket, which ends the batch.
    pub fn on_new_socket(&mut self, conn_id: Vec<u8>, conn: Q)
        requires
            old(self).wf(),
        ensures
            final(self).wf(),
            final(self)@ == (Batch {
                pending: old(self)@.pending.insert(conn_id@, old(self)@.serving(conn_id@, conn)),
                over: true,
                ..old(self)@
            }),
    {
        self.on_background(conn_id, BackgroundConnection::with_conn(conn));
        self.over = true;
    }

    /// A packet was handed to a connection.
    pub fn on_background(&mut self, conn_id: Vec<u8>, background: BackgroundConnection<Q, T>)
        requires
            old(self).wf(),
        ensures
            final(self).wf(),
            final(self)@ == (Batch {
                pending: old(self)@.pending.insert(
                    conn_id@,
                    old(self)@.serving(conn_id@, background.quic).with_message(background.message),
                ),
                ..old(self)@
            }),
    {
        let mut entry = match self.pending.remove(&conn_id) {
            Some(entry) => entry,
            None => BatchEntry {
                conn: background.quic,
                socket_tx: None,
                poll_h3: false,
                close: false,
            },
        };
        if let Some((socket_tx, message)) = background.message {
            entry.socket_tx = Some(socket_tx);
            match message {
                MultiplexerMessage::PollH3 => {
                    entry.poll_h3 = true;
                },
                MultiplexerMessage::Close => {
                    entry.close = true;
                },
            }
        }
        self.pending.insert(conn_id, entry);
        assert(self@.pending =~= old(self)@.pending.insert(
            conn_id@,
            old(self)@.serving(conn_id@, background.quic).with_message(background.message),
        ));
    }

    /// What the connections are owed, each of them once, in no particular order.
    pub fn into_entries(self) -> (entries: Vec<(Vec<u8>, BatchEntry<Q, T>)>)
        requires
            self.wf(),
        ensures
            forall|i: int|
                0 <= i < entries@.len() ==> self@.pending.dom().contains(
                    #[trigger] entries@[i].0@,
                ) && self@.pending[entries@[i].0@] == entries@[i].1,
            forall|id: Seq<u8>| #[trigger]
                self@.pending.dom().contains(id) ==> exists|i: int|
                    0 <= i < entries@.len() && #[trigger] entries@[i].0@ == id,
            forall|i: int, j: int|
                0 <= i < entries@.len() && 0 <= j < entries@.len() && i != j
                    ==> #[trigger] entries@[i].0@ != #[trigger] entries@[j].0@,
    {
        self.pending.into_entries()
    }
}

} // verus!
