//! The connections that share the server's UDP socket, and when each of them needs attention.
//!
//! Points in time are counted in nanoseconds since the multiplexer's owner chose to start
//! counting.

use crate::failure::{Failure, FailureKind};
use crate::quic_multiplexer::events::SocketMessage;
use crate::quic_multiplexer::packets::{
    HandshakeStatus, PacketGate, PacketHeader, Secrets, UnknownPacketStatus,
};
use crate::quic_multiplexer::socket::QuicSocket;
use crate::quic_token::PeerAddr;
use crate::table::Table;
use vstd::prelude::*;

verus! {

/// A connection: `Q` is the QUIC connection itself, `M` what the TLS layer decided for it, and `T`
/// the way to its socket.
pub enum Connection<Q, M, T> {
    Handshake { quic_conn: Q, tls_connection_meta: M },
    Established { quic_conn: Q, socket_tx: T },
}

impl<Q, M, T> Connection<Q, M, T> {
    pub open spec fn quic(self) -> Q {
        match self {
            Connection::Handshake { quic_conn, .. } => quic_conn,
            Connection::Established { quic_conn, .. } => quic_conn,
        }
    }

    /// The QUIC connection itself.
    pub fn quic_conn(&self) -> (quic: &Q)
        ensures
            *quic == self.quic(),
    {
        match self {
            Connection::Handshake { quic_conn, .. } => quic_conn,
            Connection::Established { quic_conn, .. } => quic_conn,
        }
    }
}

/// The connections by the IDs under which peers address them, the points in time at which they
/// time out, and the point in time up to which nothing does.
#[verifier::ext_equal]
pub ghost struct Multiplexed<Q, M, T> {
    pub connections: Map<Seq<u8>, Connection<Q, M, T>>,
    pub deadlines: Map<Seq<u8>, u128>,
    pub closest: Option<u128>,
}

/// The point in time that lies `duration` after `now`, or else the last one that can be counted.
pub open spec fn time_after(now: u128, duration: u128) -> u128 {
    if now + duration <= u128::MAX {
        (now + duration) as u128
    } else {
        u128::MAX
    }
}

/// `closest` is the earliest of the deadlines.
pub open spec fn is_earliest(deadlines: Map<Seq<u8>, u128>, closest: Option<u128>) -> bool {
    match closest {
        None => deadlines.dom() == Set::<Seq<u8>>::empty(),
        Some(at) => {
            &&& exists|id: Seq<u8>| #[trigger] deadlines.dom().contains(id) && deadlines[id] == at
            &&& forall|id: Seq<u8>| #[trigger]
                deadlines.dom().contains(id) ==> at <= deadlines[id]
        },
    }
}

/// No deadline lies before the closest one.
pub open spec fn none_before(deadlines: Map<Seq<u8>, u128>, closest: Option<u128>) -> bool {
    forall|id: Seq<u8>| #[trigger]
        deadlines.dom().contains(id) ==> closest is Some && closest->Some_0 <= deadlines[id]
}

/// The connections that time out up to `now`.
pub open spec fn expired(deadlines: Map<Seq<u8>, u128>, now: u128) -> Set<Seq<u8>> {
    Set::new(|id: Seq<u8>| deadlines.dom().contains(id) && deadlines[id] <= now)
}

impl<Q, M, T> Multiplexed<Q, M, T> {
    /// No deadline is missed.
    pub open spec fn wf(self) -> bool {
        none_before(self.deadlines, self.closest)
    }
}

/// What a message from a socket asks for.
pub enum SocketMessageStep {
    Nothing,
    /// Read the timeout of this connection, and set its deadline.
    ReadTimeout(Vec<u8>),
}

/// What to do with a packet.
pub enum PacketStep {
    /// Hand it to the connection, which is established.
    Established,
    /// Hand it to the connection, which is in its handshake.
    Handshake,
    /// The connection is not known.
    Unknown(UnknownPacketStatus),
    Drop(Failure),
}

/// How a handshake goes on.
pub enum HandshakeStep<Q, M> {
    InProgress,
    /// The connection is established.
    Complete { quic_conn: Q, tls_connection_meta: M },
    /// The connection is to be closed.
    Failed(Failure),
}

/// What the multiplexer waited for.
pub enum WaitEvent {
    /// There is something to read from the UDP socket.
    Readable,
    Message(SocketMessage),
    /// There can be no more messages.
    Disconnected,
    Timeout,
}

/// What to do once the connections that timed out are served.
pub enum ListenRound {
    Nothing,
    HandleMessage(SocketMessage),
    ReadUdp,
}

/// What is left in the message queue.
pub enum PendingMessage {
    Message(SocketMessage),
    Empty,
    /// There can be no more messages.
    Disconnected,
}

pub struct QuicMultiplexer<Q, M, T> {
    connections: Table<Vec<u8>, Connection<Q, M, T>>,
    deadlines: Table<Vec<u8>, u128>,
    closest_deadline: Option<u128>,
    gate: PacketGate,
}

impl<Q, M, T> View for QuicMultiplexer<Q, M, T> {
    type V = Multiplexed<Q, M, T>;

    closed spec fn view(&self) -> Multiplexed<Q, M, T> {
        Multiplexed {
            connections: self.connections@,
            deadlines: self.deadlines@,
            closest: self.closest_deadline,
        }
    }
}

/// The earliest of the deadlines.
fn earliest(deadlines: &Table<Vec<u8>, u128>) -> (closest: Option<u128>)
    requires
        deadlines.wf(),
    ensures
        is_earliest(deadlines@, closest),
{
    let entries = deadlines.entries();
    let mut closest: Option<u128> = None;
    let mut i: usize = 0;
    while i < entries.len()
        invariant
            i <= entries@.len(),
            match closest {
                None => i == 0,
                Some(at) => {
                    &&& exists|j: int| 0 <= j < i && (#[trigger] entries@[j]).1 == at
                    &&& forall|j: int| 0 <= j < i ==> at <= (#[trigger] entries@[j]).1
                },
            },
        decreases entries.len() - i,
    {
        let at: u128 = entries[i].1;
        closest = match closest {
            Some(so_far) => {
                if at < so_far {
                    Some(at)
                } else {
                    Some(so_far)
                }
            },
            None => Some(at),
        };
        assert(entries@[i as int].1 == at);
        i = i + 1;
    }
    proof {
        match closest {
            None => {
                assert(deadlines@.dom() =~= Set::empty());
            },
            Some(at) => {
                let j = choose|j: int| 0 <= j < entries@.len() && (#[trigger] entries@[j]).1 == at;
                assert(deadlines@.dom().contains(entries@[j].0@));
                assert forall|id: Seq<u8>| #[trigger] deadlines@.dom().contains(id) implies at
                    <= deadlines@[id] by {
                    let k = choose|k: int| 0 <= k < entries@.len() && #[trigger] entries@[k].0@ == id;
                    assert(at <= entries@[k].1);
                }
            },
        }
    }
    closest
}

impl<Q, M, T> QuicMultiplexer<Q, M, T> {
    /// No deadline is missed.
    pub closed spec fn wf(&self) -> bool {
        &&& self.connections.wf()
        &&& self.deadlines.wf()
        &&& self@.wf()
    }

    pub closed spec fn secrets(&self) -> Secrets {
        self.gate@
    }

    /// What is known of the deadlines of a multiplexer.
    pub proof fn lemma_wf(&self)
        requires
            self.wf(),
        ensures
            self@.wf(),
    {
    }

    /// A multiplexer without connections, with secrets of its own.
    pub fn new(conn_id_seed: [u8; 32]) -> (multiplexer: Result<Self, Failure>)
        ensures
            match multiplexer {
                Ok(multiplexer) => {
                    &&& multiplexer.wf()
                    &&& multiplexer.secrets().conn_id_seed == conn_id_seed@
                    &&& multiplexer.secrets().token_prefix.len()
                        == crate::quic_token::TOKEN_PREFIX_SIZE
                    &&& multiplexer.secrets().token_prefix.len() == 16
                    &&& multiplexer@.connections == Map::<Seq<u8>, Connection<Q, M, T>>::empty()
                    &&& multiplexer@.deadlines == Map::<Seq<u8>, u128>::empty()
                    &&& multiplexer@.closest is None
                },
                Err(failure) => failure@ == crate::failure::failure_text(
                    FailureKind::Other,
                    "No random numbers"@,
                ),
            },
    {
        match PacketGate::generate(conn_id_seed) {
            Ok(gate) => Ok(QuicMultiplexer::with_gate(gate)),
            Err(failure) => Err(failure),
        }
    }

    /// A multiplexer without connections.
    pub fn with_gate(gate: PacketGate) -> (multiplexer: Self)
        ensures
            multiplexer.wf(),
            multiplexer.secrets() == gate@,
            multiplexer@.connections == Map::<Seq<u8>, Connection<Q, M, T>>::empty(),
            multiplexer@.deadlines == Map::<Seq<u8>, u128>::empty(),
            multiplexer@.closest is None,
    {
        QuicMultiplexer {
            connections: Table::new(),
            deadlines: Table::new(),
            closest_deadline: None,
            gate,
        }
    }

    /// The point in time at which to stop waiting, unless it is there already.
    pub fn wait_until(&self, now: u128) -> (until: Option<u128>)
        ensures
            until == match self@.closest {
                Some(at) => if at > now {
                    Some(at)
                } else {
                    None
                },
                None => None,
            },
    {
        match self.closest_deadline {
            Some(at) => if at > now {
                Some(at)
            } else {
                None
            },
            None => None,
        }
    }

    /// Begins a round of listening with what was waited for. Whatever it is, the connections that
    /// timed out come first; they do not where this fails.
    pub fn listen(&self, event: WaitEvent) -> (round: Result<ListenRound, Failure>)
        ensures
            match event {
                WaitEvent::Readable => round == Ok::<ListenRound, Failure>(ListenRound::ReadUdp),
                WaitEvent::Message(message) => round == Ok::<ListenRound, Failure>(
                    ListenRound::HandleMessage(message),
                ),
                WaitEvent::Disconnected => round matches Err(failure) && failure@
                    == crate::failure::failure_text(
                    FailureKind::Other,
                    "Message receiving channel closed unexpectedly"@,
                ),
                WaitEvent::Timeout => round == Ok::<ListenRound, Failure>(ListenRound::Nothing),
            },
    {
        match event {
            WaitEvent::Readable => Ok(ListenRound::ReadUdp),
            WaitEvent::Message(message) => Ok(ListenRound::HandleMessage(message)),
            WaitEvent::Disconnected => Err(
                Failure::other("Message receiving channel closed unexpectedly"),
            ),
            WaitEvent::Timeout => Ok(ListenRound::Nothing),
        }
    }

    /// Goes on with the messages that are left at the end of a round: the next one to handle, none
    /// where the round is over.
    pub fn process_pending_socket_messages(&self, pending: PendingMessage) -> (next: Result<
        Option<SocketMessage>,
        Failure,
    >)
        ensures
            match pending {
                PendingMessage::Message(message) => next == Ok::<Option<SocketMessage>, Failure>(
                    Some(message),
                ),
                PendingMessage::Empty => next matches Ok(None),
                PendingMessage::Disconnected => next matches Err(failure) && failure@
                    == crate::failure::failure_text(
                    FailureKind::Other,
                    "Message receive channel closed unexpectedly"@,
                ),
            },
    {
        match pending {
            PendingMessage::Message(message) => Ok(Some(message)),
            PendingMessage::Empty => Ok(None),
            PendingMessage::Disconnected => Err(
                Failure::other("Message receive channel closed unexpectedly"),
            ),
        }
    }

    /// The connection with that ID.
    pub fn connection(&self, conn_id: &Vec<u8>) -> (connection: Option<&Connection<Q, M, T>>)
        requires
            self.wf(),
        ensures
            match connection {
                Some(connection) => self@.connections.dom().contains(conn_id@) && *connection
                    == self@.connections[conn_id@],
                None => !self@.connections.dom().contains(conn_id@),
            },
    {
        self.connections.get(conn_id)
    }

    /// The IDs of the connections with the connections, each once, in no particular order.
    pub fn connections(&self) -> (connections: &Vec<(Vec<u8>, Connection<Q, M, T>)>)
        requires
            self.wf(),
        ensures
            forall|i: int|
                0 <= i < connections@.len() ==> self@.connections.dom().contains(
                    #[trigger] connections@[i].0@,
                ) && self@.connections[connections@[i].0@] == connections@[i].1,
            forall|id: Seq<u8>| #[trigger]
                self@.connections.dom().contains(id) ==> exists|i: int|
                    0 <= i < connections@.len() && #[trigger] connections@[i].0@ == id,
            forall|i: int, j: int|
                0 <= i < connections@.len() && 0 <= j < connections@.len() && i != j
                    ==> #[trigger] connections@[i].0@ != #[trigger] connections@[j].0@,
    {
        self.connections.entries()
    }

    /// What to do with a packet that came from `peer`.
    pub fn on_quic_packet(&self, peer: &PeerAddr, header: &PacketHeader) -> (step: PacketStep)
        requires
            self.wf(),
            header.dcid@.len() < 0x1000_0000_0000_0000,
        ensures
            if self@.connections.dom().contains(header.dcid@) {
                match self@.connections[header.dcid@] {
                    Connection::Handshake { .. } => step is Handshake,
                    Connection::Established { .. } => step is Established,
                }
            } else {
                match step {
                    PacketStep::Unknown(status) => status.decision() == self.secrets().decide(
                        *peer,
                        header@,
                    ),
                    PacketStep::Drop(failure) => self.secrets().decide(*peer, header@)
                        == crate::quic_multiplexer::packets::UnknownPacketDecision::Drop(failure@),
                    _ => false,
                }
            },
    {
        match self.connections.get(&header.dcid) {
            Some(Connection::Handshake { .. }) => PacketStep::Handshake,
            Some(Connection::Established { .. }) => PacketStep::Established,
            None => match self.gate.on_unknown_quic_packet(peer, header) {
                Ok(status) => PacketStep::Unknown(status),
                Err(failure) => PacketStep::Drop(failure),
            },
        }
    }

    /// A connection was accepted. It is handed back where it can be used at once, else it is
    /// remembered as one in its handshake.
    pub fn on_new_connection(
        &mut self,
        conn_id: Vec<u8>,
        quic_conn: Q,
        tls_connection_meta: M,
        usable: bool,
    ) -> (established: Option<(Q, M)>)
        requires
            old(self).wf(),
        ensures
            final(self).wf(),
            final(self).secrets() == old(self).secrets(),
            final(self)@.deadlines == old(self)@.deadlines,
            final(self)@.closest == old(self)@.closest,
            usable ==> final(self)@.connections == old(self)@.connections && established == Some(
                (quic_conn, tls_connection_meta),
            ),
            !usable ==> established is None && final(self)@.connections
                == old(self)@.connections.insert(
                conn_id@,
                Connection::Handshake { quic_conn, tls_connection_meta },
            ),
    {
        if usable {
            return Some((quic_conn, tls_connection_meta));
        }
        self.connections.insert(conn_id, Connection::Handshake { quic_conn, tls_connection_meta });
        None
    }

    /// A packet was handed to a connection in its handshake. Once the handshake is complete, the
    /// connection is taken out, together with its deadline.
    pub fn on_handshake_packet(
        &mut self,
        conn_id: &Vec<u8>,
        status: Result<HandshakeStatus, Failure>,
    ) -> (step: HandshakeStep<Q, M>)
        requires
            old(self).wf(),
            old(self)@.connections.dom().contains(conn_id@),
            old(self)@.connections[conn_id@] is Handshake,
        ensures
            final(self).wf(),
            final(self).secrets() == old(self).secrets(),
            final(self)@.closest == old(self)@.closest,
            match status {
                Ok(HandshakeStatus::Complete) => {
                    &&& final(self)@.connections == old(self)@.connections.remove(conn_id@)
                    &&& final(self)@.deadlines == old(self)@.deadlines.remove(conn_id@)
                    &&& step matches HandshakeStep::Complete { quic_conn, tls_connection_meta }
                    &&& old(self)@.connections[conn_id@] == (Connection::<Q, M, T>::Handshake {
                        quic_conn,
                        tls_connection_meta,
                    })
                },
                Ok(HandshakeStatus::InProgress) => final(self)@ == old(self)@ && step is InProgress,
                Err(e) => final(self)@ == old(self)@ && step == HandshakeStep::<Q, M>::Failed(e),
            },
    {
        match status {
            Ok(HandshakeStatus::InProgress) => HandshakeStep::InProgress,
            Ok(HandshakeStatus::Complete) => {
                self.deadlines.remove(conn_id);
                match self.connections.remove(conn_id) {
                    Some(Connection::Handshake { quic_conn, tls_connection_meta }) => {
                        HandshakeStep::Complete { quic_conn, tls_connection_meta }
                    },
                    _ => HandshakeStep::InProgress,
                }
            },
            Err(e) => HandshakeStep::Failed(e),
        }
    }

    /// A connection can be used: it is remembered as established, and its socket is handed out.
    pub fn finalize_established_connection(
        &mut self,
        conn_id: Vec<u8>,
        quic_conn: Q,
        socket_tx: T,
        socket_id: u64,
        peer: PeerAddr,
        tls_connection_meta: M,
        client_random: Vec<u8>,
    ) -> (socket: QuicSocket<M>)
        requires
            old(self).wf(),
        ensures
            final(self).wf(),
            final(self).secrets() == old(self).secrets(),
            final(self)@.deadlines == old(self)@.deadlines,
            final(self)@.closest == old(self)@.closest,
            final(self)@.connections == old(self)@.connections.insert(
                conn_id@,
                Connection::Established { quic_conn, socket_tx },
            ),
            socket@ == crate::quic_multiplexer::streams::StreamSets::empty(),
            socket.spec_id() == socket_id,
            socket.spec_peer() == peer,
            socket.spec_meta() == tls_connection_meta,
            socket.spec_client_random() == client_random@,
    {
        self.connections.insert(conn_id, Connection::Established { quic_conn, socket_tx });
        QuicSocket::new(socket_id, peer, tls_connection_meta, client_random)
    }

    /// The connection times out `duration` from now.
    pub fn update_connection_deadline(&mut self, conn_id: Vec<u8>, now: u128, duration: u128)
        requires
            old(self).wf(),
        ensures
            final(self).wf(),
            final(self).secrets() == old(self).secrets(),
            final(self)@.connections == old(self)@.connections,
            final(self)@.deadlines == old(self)@.deadlines.insert(
                conn_id@,
                time_after(now, duration),
            ),
            final(self)@.deadlines[conn_id@] == if now + duration <= u128::MAX {
                now + duration
            } else {
                u128::MAX as int
            },
            forall|at: u128| #[trigger]
                expired(final(self)@.deadlines, at).contains(conn_id@) <==> at >= now + duration
                    || at == u128::MAX,
            is_earliest(final(self)@.deadlines, final(self)@.closest),
    {
        let deadline: u128 = if duration <= u128::MAX - now { now + duration } else { u128::MAX };
        self.deadlines.insert(conn_id, deadline);
        self.closest_deadline = earliest(&self.deadlines);
    }

    /// Takes out the deadlines up to `now`. The result is the IDs of the connections that timed
    /// out: each of them is to be told, and may get a new deadline.
    pub fn process_timeouts(&mut self, now: u128) -> (timed_out: Vec<Vec<u8>>)
        requires
            old(self).wf(),
        ensures
            final(self).wf(),
            final(self).secrets() == old(self).secrets(),
            final(self)@.connections == old(self)@.connections,
            final(self)@.deadlines == old(self)@.deadlines.remove_keys(
                expired(old(self)@.deadlines, now),
            ),
            is_earliest(final(self)@.deadlines, final(self)@.closest),
            forall|id: Seq<u8>| #[trigger]
                id_set(timed_out@).contains(id) <==> expired(old(self)@.deadlines, now).contains(id)
                    && old(self)@.connections.dom().contains(id),
            distinct_ids(timed_out@),
    {
        let expired_ids = expired_ids(&self.deadlines, now);
        let ghost all = expired_ids@;
        let mut timed_out: Vec<Vec<u8>> = Vec::new();
        let mut i: usize = 0;
        proof {
            assert(id_set(all.take(0)) =~= Set::empty());
            assert(id_set(timed_out@) =~= Set::empty());
            assert(self.deadlines@ =~= old(self)@.deadlines.remove_keys(id_set(all.take(0))));
        }
        while i < expired_ids.len()
            invariant
                i <= all.len(),
                all == expired_ids@,
                distinct_ids(all),
                self.connections.wf(),
                self.deadlines.wf(),
                self.gate@ == old(self).secrets(),
                self.connections@ == old(self)@.connections,
                self.deadlines@ == old(self)@.deadlines.remove_keys(id_set(all.take(i as int))),
                forall|id: Seq<u8>| #[trigger]
                    id_set(timed_out@).contains(id) <==> id_set(all.take(i as int)).contains(id)
                        && self.connections@.dom().contains(id),
                distinct_ids(timed_out@),
            decreases expired_ids.len() - i,
        {
            let conn_id = &expired_ids[i];
            let ghost shorter = all.take(i as int);
            let ghost told = timed_out@;
            proof {
                assert(all.take(i + 1) =~= shorter.push(*conn_id));
                lemma_id_set_longer(shorter, *conn_id);
                assert(self.deadlines@.remove(conn_id@) =~= old(self)@.deadlines.remove_keys(
                    id_set(all.take(i + 1)),
                ));
                assert(!id_set(shorter).contains(conn_id@));
            }
            self.deadlines.remove(conn_id);
            if self.connections.contains_key(conn_id) {
                let copy = copy_id(conn_id);
                proof {
                    lemma_id_set_longer(told, copy);
                    lemma_distinct_longer(told, copy);
                }
                timed_out.push(copy);
            }
            i = i + 1;
        }
        self.closest_deadline = earliest(&self.deadlines);
        assert(all.take(i as int) =~= all);
        timed_out
    }

    /// A message from a socket came in.
    pub fn on_socket_message(&mut self, message: SocketMessage) -> (step: SocketMessageStep)
        requires
            old(self).wf(),
        ensures
            final(self).wf(),
            final(self).secrets() == old(self).secrets(),
            final(self)@.deadlines == old(self)@.deadlines,
            final(self)@.closest == old(self)@.closest,
            match message {
                SocketMessage::Close(conn_id) => step is Nothing && final(self)@.connections
                    == old(self)@.connections.remove(conn_id@),
                SocketMessage::RefreshDeadline(conn_id) => {
                    &&& final(self)@.connections == old(self)@.connections
                    &&& if old(self)@.connections.dom().contains(conn_id@) {
                        step == SocketMessageStep::ReadTimeout(conn_id)
                    } else {
                        step is Nothing
                    }
                },
            },
    {
        match message {
            SocketMessage::Close(conn_id) => {
                self.connections.remove(&conn_id);
                SocketMessageStep::Nothing
            },
            SocketMessage::RefreshDeadline(conn_id) => {
                if self.connections.contains_key(&conn_id) {
                    SocketMessageStep::ReadTimeout(conn_id)
                } else {
                    SocketMessageStep::Nothing
                }
            },
        }
    }

    /// The timeout of a connection was read: it times out as long from now, or not at all.
    pub fn refresh_deadline(&mut self, conn_id: Vec<u8>, now: u128, timeout: Option<u128>)
        requires
            old(self).wf(),
        ensures
            final(self).wf(),
            final(self).secrets() == old(self).secrets(),
            final(self)@.connections == old(self)@.connections,
            match timeout {
                Some(duration) => {
                    &&& final(self)@.deadlines == old(self)@.deadlines.insert(
                        conn_id@,
                        time_after(now, duration),
                    )
                    &&& final(self)@.deadlines[conn_id@] == if now + duration <= u128::MAX {
                        now + duration
                    } else {
                        u128::MAX as int
                    }
                    &&& is_earliest(final(self)@.deadlines, final(self)@.closest)
                },
                None => {
                    &&& final(self)@.deadlines == old(self)@.deadlines.remove(conn_id@)
                    &&& if old(self)@.deadlines.dom().contains(conn_id@) {
                        is_earliest(final(self)@.deadlines, final(self)@.closest)
                    } else {
                        final(self)@.closest == old(self)@.closest
                    }
                },
            },
    {
        match timeout {
            Some(duration) => self.update_connection_deadline(conn_id, now, duration),
            None => {
                if self.deadlines.remove(&conn_id).is_some() {
                    self.closest_deadline = earliest(&self.deadlines);
                }
            },
        }
    }

    /// Forgets the connections in `closed`. The result is the ways to the sockets that are to be
    /// told that their connections are closed.
    pub fn remove_closed_connections(&mut self, closed: &Vec<Vec<u8>>) -> (sockets: Vec<T>)
        requires
            old(self).wf(),
        ensures
            final(self).wf(),
            final(self).secrets() == old(self).secrets(),
            final(self)@.closest == old(self)@.closest,
            final(self)@.connections == old(self)@.connections.remove_keys(id_set(closed@)),
            final(self)@.deadlines == old(self)@.deadlines.remove_keys(id_set(closed@)),
            sockets@ == sockets_of(old(self)@.connections, closed@),
    {
        let mut sockets: Vec<T> = Vec::new();
        let mut i: usize = 0;
        proof {
            assert(closed@.take(0) =~= Seq::empty());
            assert(self@.connections =~= old(self)@.connections.remove_keys(id_set(closed@.take(0))));
            assert(self@.deadlines =~= old(self)@.deadlines.remove_keys(id_set(closed@.take(0))));
        }
        while i < closed.len()
            invariant
                i <= closed@.len(),
                self.connections.wf(),
                self.deadlines.wf(),
                self.gate@ == old(self).secrets(),
                self.closest_deadline == old(self)@.closest,
                self.connections@ == old(self)@.connections.remove_keys(
                    id_set(closed@.take(i as int)),
                ),
                self.deadlines@ == old(self)@.deadlines.remove_keys(
                    id_set(closed@.take(i as int)),
                ),
                sockets@ == sockets_of(old(self)@.connections, closed@.take(i as int)),
            decreases closed.len() - i,
        {
            let ghost shorter = closed@.take(i as int);
            let ghost longer = closed@.take(i + 1);
            proof {
                assert(longer.drop_last() =~= shorter);
                assert(longer.last() == closed@[i as int]);
                lemma_id_set_longer(shorter, closed@[i as int]);
                assert(longer =~= shorter.push(closed@[i as int]));
                assert(self.connections@.remove(closed@[i as int]@)
                    =~= old(self)@.connections.remove_keys(id_set(longer)));
                assert(self.deadlines@.remove(closed@[i as int]@)
                    =~= old(self)@.deadlines.remove_keys(id_set(longer)));
            }
            self.deadlines.remove(&closed[i]);
            if let Some(Connection::Established { socket_tx, .. }) = self.connections.remove(
                &closed[i],
            ) {
                sockets.push(socket_tx);
            }
            i = i + 1;
        }
        assert(closed@.take(i as int) =~= closed@);
        sockets
    }
}

/// No ID is listed twice.
pub open spec fn distinct_ids(ids: Seq<Vec<u8>>) -> bool {
    forall|i: int, j: int|
        0 <= i < j < ids.len() ==> #[trigger] ids[i]@ != #[trigger] ids[j]@
}

proof fn lemma_distinct_longer(ids: Seq<Vec<u8>>, last: Vec<u8>)
    requires
        distinct_ids(ids),
        !id_set(ids).contains(last@),
    ensures
        distinct_ids(ids.push(last)),
{
    let longer = ids.push(last);
    assert forall|i: int, j: int| 0 <= i < j < longer.len() implies #[trigger] longer[i]@
        != #[trigger] longer[j]@ by {
        assert(longer[i] == ids[i]);
        if j < ids.len() {
            assert(longer[j] == ids[j]);
        } else {
            assert(ids[i]@ != last@);
        }
    }
}

fn copy_id(id: &Vec<u8>) -> (copy: Vec<u8>)
    ensures
        copy@ == id@,
{
    vstd::slice::slice_to_vec(id.as_slice())
}

/// The IDs of the connections that time out up to `now`.
fn expired_ids(deadlines: &Table<Vec<u8>, u128>, now: u128) -> (ids: Vec<Vec<u8>>)
    requires
        deadlines.wf(),
    ensures
        id_set(ids@) == expired(deadlines@, now),
        distinct_ids(ids@),
{
    let entries = deadlines.entries();
    let mut ids: Vec<Vec<u8>> = Vec::new();
    let mut i: usize = 0;
    while i < entries.len()
        invariant
            i <= entries@.len(),
            deadlines.lists(entries@),
            forall|id: Seq<u8>| #[trigger]
                id_set(ids@).contains(id) <==> exists|j: int|
                    0 <= j < i && #[trigger] entries@[j].0@ == id && entries@[j].1 <= now,
            distinct_ids(ids@),
        decreases entries.len() - i,
    {
        let ghost found = ids@;
        let ghost key = entries@[i as int].0@;
        assert(!id_set(found).contains(key));
        if entries[i].1 <= now {
            let copy = copy_id(&entries[i].0);
            proof {
                lemma_id_set_longer(found, copy);
                lemma_distinct_longer(found, copy);
            }
            ids.push(copy);
        }
        assert forall|id: Seq<u8>| #[trigger] id_set(ids@).contains(id) <==> exists|j: int|
            0 <= j < i + 1 && #[trigger] entries@[j].0@ == id && entries@[j].1 <= now by {
            if id_set(found).contains(id) {
                let j = choose|j: int|
                    0 <= j < i && #[trigger] entries@[j].0@ == id && entries@[j].1 <= now;
                assert(0 <= j < i + 1 && entries@[j].0@ == id);
            }
        }
        i = i + 1;
    }
    proof {
        assert forall|id: Seq<u8>| #[trigger] id_set(ids@).contains(id) <==> expired(
            deadlines@,
            now,
        ).contains(id) by {
            if expired(deadlines@, now).contains(id) {
                let j = choose|j: int| 0 <= j < entries@.len() && #[trigger] entries@[j].0@ == id;
                assert(entries@[j].1 <= now);
            }
        }
        assert(id_set(ids@) =~= expired(deadlines@, now));
    }
    ids
}

/// The IDs in a list.
pub open spec fn id_set(ids: Seq<Vec<u8>>) -> Set<Seq<u8>> {
    Set::new(|id: Seq<u8>| exists|i: int| 0 <= i < ids.len() && #[trigger] ids[i]@ == id)
}

proof fn lemma_id_set_longer(ids: Seq<Vec<u8>>, last: Vec<u8>)
    ensures
        id_set(ids.push(last)) == id_set(ids).insert(last@),
{
    let longer = ids.push(last);
    assert forall|id: Seq<u8>| #[trigger] id_set(longer).contains(id) <==> id_set(ids).insert(
        last@,
    ).contains(id) by {
        if id_set(ids).contains(id) {
            let i = choose|i: int| 0 <= i < ids.len() && #[trigger] ids[i]@ == id;
            assert(longer[i]@ == id);
        }
        if id == last@ {
            assert(longer[ids.len() as int]@ == id);
        }
        if id_set(longer).contains(id) {
            let i = choose|i: int| 0 <= i < longer.len() && #[trigger] longer[i]@ == id;
            if i < ids.len() {
                assert(ids[i]@ == id);
            }
        }
    }
    assert(id_set(longer) =~= id_set(ids).insert(last@));
}

/// The ways to the sockets of the connections in `closed` that are established, in that order and
/// each once.
pub open spec fn sockets_of<Q, M, T>(
    connections: Map<Seq<u8>, Connection<Q, M, T>>,
    closed: Seq<Vec<u8>>,
) -> Seq<T>
    decreases closed.len(),
{
    if closed.len() == 0 {
        Seq::empty()
    } else {
        let before = sockets_of(connections, closed.drop_last());
        let id = closed.last()@;
        if connections.dom().contains(id) && !id_set(closed.drop_last()).contains(id) {
            match connections[id] {
                Connection::Established { socket_tx, .. } => before.push(socket_tx),
                Connection::Handshake { .. } => before,
            }
        } else {
            before
        }
    }
}

/// Nothing times out before the point in time up to which the multiplexer waits.
pub proof fn law_nothing_times_out_before_the_closest_deadline<Q, M, T>(
    state: Multiplexed<Q, M, T>,
    now: u128,
)
    requires
        state.wf(),
        state.closest is None || now < state.closest->Some_0,
    ensures
        expired(state.deadlines, now) == Set::<Seq<u8>>::empty(),
{
    assert(expired(state.deadlines, now) =~= Set::empty());
}

/// Once the connections that timed out are taken out, no connection is left that timed out, and
/// the deadlines of the others are what they were.
pub proof fn law_timeouts_are_served_once(deadlines: Map<Seq<u8>, u128>, now: u128)
    ensures
        ({
            let left = deadlines.remove_keys(expired(deadlines, now));
            &&& expired(left, now) == Set::<Seq<u8>>::empty()
            &&& forall|id: Seq<u8>| #[trigger]
                deadlines.dom().contains(id) && deadlines[id] > now ==> left.dom().contains(id)
                    && left[id] == deadlines[id]
        }),
{
    let left = deadlines.remove_keys(expired(deadlines, now));
    assert(expired(left, now) =~= Set::empty());
}

/// The earliest deadline lies before no other, and there is only one such point in time.
pub proof fn law_earliest_deadline_is_unique(
    deadlines: Map<Seq<u8>, u128>,
    closest: Option<u128>,
    other: Option<u128>,
)
    requires
        is_earliest(deadlines, closest),
        is_earliest(deadlines, other),
    ensures
        closest == other,
        none_before(deadlines, closest),
{
}

/// What the TLS layer decided for a connection: what was selected for the name that the client
/// asked for, if it named one and there is something for it, else what the connection began with.
pub fn connection_meta<M>(sni: &str, bootstrap: M, selected: Option<M>) -> (meta: M)
    ensures
        meta == if sni@.len() > 0 && selected is Some {
            selected->Some_0
        } else {
            bootstrap
        },
{
    if sni.is_empty() {
        return bootstrap;
    }
    match selected {
        Some(meta) => meta,
        None => bootstrap,
    }
}

} // verus!
