//! What becomes of the packets of connections that are not established yet.

use crate::failure::{Failure, FailureKind, FailureText, QuicError};
use crate::quic_multiplexer::events::MultiplexerMessage;
use crate::quic_token::{mint_token, validate_token, PeerAddr, TOKEN_PREFIX_SIZE};
use crate::secrets::{hmac_sign, random_bytes};
use vstd::prelude::*;

verus! {

/// The length of the connection IDs that the server gives out.
pub const MAX_CONN_ID_LEN: usize = 20;

/// The QUIC version that is spoken.
pub const PROTOCOL_VERSION_V1: u32 = 1;

/// The error code with which a connection is closed that cannot go on.
pub const QUIC_CONNECTION_CLOSE_CODE: u64 = 0x42;

/// The types of QUIC packets.
#[derive(Debug, Clone, Copy, PartialEq, Eq, Structural)]
pub enum PacketType {
    Initial,
    Retry,
    Handshake,
    ZeroRTT,
    VersionNegotiation,
    Short,
}

/// The header of a QUIC packet.
#[derive(Debug)]
pub struct PacketHeader {
    pub ty: PacketType,
    pub version: u32,
    pub dcid: Vec<u8>,
    pub scid: Vec<u8>,
    pub token: Option<Vec<u8>>,
    /// How messages speak of the header.
    pub text: String,
}

/// The content of a [`PacketHeader`].
pub ghost struct HeaderContent {
    pub ty: PacketType,
    pub version: u32,
    pub dcid: Seq<u8>,
    pub scid: Seq<u8>,
    pub token: Option<Seq<u8>>,
    pub text: Seq<char>,
}

impl View for PacketHeader {
    type V = HeaderContent;

    open spec fn view(&self) -> HeaderContent {
        HeaderContent {
            ty: self.ty,
            version: self.version,
            dcid: self.dcid@,
            scid: self.scid@,
            token: match self.token {
                Some(token) => Some(token@),
                None => None,
            },
            text: self.text@,
        }
    }
}

/// What to do with a packet of a connection that is not known.
pub enum UnknownPacketStatus {
    /// Tell the peer which versions are spoken.
    Negotiate,
    /// Tell the peer to try again under this connection ID, with this token.
    Retry { scid: Vec<u8>, token: Vec<u8> },
    /// Accept a connection. The peer first addressed this connection ID.
    Accept { odcid: Vec<u8> },
}

/// What to do with a packet of a connection that is not known, or why it is dropped.
pub ghost enum UnknownPacketDecision {
    Negotiate,
    Retry { scid: Seq<u8>, token: Seq<u8> },
    Accept { odcid: Seq<u8> },
    Drop(FailureText),
}

impl UnknownPacketStatus {
    pub open spec fn decision(self) -> UnknownPacketDecision {
        match self {
            UnknownPacketStatus::Negotiate => UnknownPacketDecision::Negotiate,
            UnknownPacketStatus::Retry { scid, token } => UnknownPacketDecision::Retry {
                scid: scid@,
                token: token@,
            },
            UnknownPacketStatus::Accept { odcid } => UnknownPacketDecision::Accept {
                odcid: odcid@,
            },
        }
    }
}

/// What peers cannot know.
pub ghost struct Secrets {
    pub token_prefix: Seq<u8>,
    pub conn_id_seed: Seq<u8>,
}

impl Secrets {
    /// The connection ID under which a peer that addressed `dcid` is to try again: the first
    /// bytes of a digest that nobody else can tell.
    pub open spec fn retry_id(self, dcid: Seq<u8>) -> Seq<u8> {
        Seq::new(
            MAX_CONN_ID_LEN as nat,
            |i: int| crate::secrets::hmac_sha256(self.conn_id_seed, dcid)[i],
        )
    }

    /// What to do with a packet of a connection that is not known.
    pub open spec fn decide(self, peer: PeerAddr, header: HeaderContent) -> UnknownPacketDecision {
        if header.ty != PacketType::Initial {
            dropped("Unexpected packet type: "@ + header.text)
        } else if header.version != PROTOCOL_VERSION_V1 {
            UnknownPacketDecision::Negotiate
        } else {
            match header.token {
                None => dropped("Invalid packet: initial packet must contain token"@),
                Some(token) => if token.len() == 0 {
                    UnknownPacketDecision::Retry {
                        scid: self.retry_id(header.dcid),
                        token: crate::quic_token::token_for(self.token_prefix, peer, header.dcid),
                    }
                } else if header.dcid.len() != MAX_CONN_ID_LEN {
                    dropped("Invalid packet: unexpected destination connection ID"@)
                } else if crate::quic_token::begins_with(
                    token,
                    self.token_prefix + peer.octets(),
                ) {
                    UnknownPacketDecision::Accept {
                        odcid: token.skip((self.token_prefix + peer.octets()).len() as int),
                    }
                } else {
                    dropped("Invalid packet: unexpected token"@)
                },
            }
        }
    }
}

/// The packet is dropped with that message.
pub open spec fn dropped(message: Seq<char>) -> UnknownPacketDecision {
    UnknownPacketDecision::Drop(crate::failure::failure_text(FailureKind::Other, message))
}

/// What decides on packets of connections that are not known.
pub struct PacketGate {
    token_prefix: [u8; TOKEN_PREFIX_SIZE],
    conn_id_seed: [u8; 32],
}

/// The key under which connection IDs are derived, one for the whole process. It is made of random
/// bytes, of which nothing is known, nor whether there are any; see [`conn_id_seed`].
pub fn generate_conn_id_seed() -> (seed: Result<[u8; 32], Failure>)
    ensures
        seed matches Err(failure) ==> failure@ == crate::failure::failure_text(
            FailureKind::Other,
            "No random numbers"@,
        ),
{
    conn_id_seed(random_bytes::<32>())
}

/// The key under which connection IDs are derived, given what the random number generator came
/// up with: those bytes, unless it failed.
pub fn conn_id_seed(random: Result<[u8; 32], ring::error::Unspecified>) -> (seed: Result<
    [u8; 32],
    Failure,
>)
    ensures
        match random {
            Ok(bytes) => seed matches Ok(seed) && seed == bytes,
            Err(_) => seed matches Err(failure) && failure@ == crate::failure::failure_text(
                FailureKind::Other,
                "No random numbers"@,
            ),
        },
{
    match random {
        Ok(bytes) => Ok(bytes),
        Err(_) => Err(Failure::other("No random numbers")),
    }
}

impl View for PacketGate {
    type V = Secrets;

    closed spec fn view(&self) -> Secrets {
        Secrets { token_prefix: self.token_prefix@, conn_id_seed: self.conn_id_seed@ }
    }
}

impl PacketGate {
    pub fn new(token_prefix: [u8; TOKEN_PREFIX_SIZE], conn_id_seed: [u8; 32]) -> (gate: PacketGate)
        ensures
            gate@ == (Secrets { token_prefix: token_prefix@, conn_id_seed: conn_id_seed@ }),
    {
        PacketGate { token_prefix, conn_id_seed }
    }

    /// A gate whose tokens no other gate accepts, but by chance. Nothing is known of the random
    /// bytes that its tokens begin with; see [`PacketGate::with_random_prefix`].
    pub fn generate(conn_id_seed: [u8; 32]) -> (gate: Result<PacketGate, Failure>)
        ensures
            match gate {
                Ok(gate) => gate@.conn_id_seed == conn_id_seed@ && gate@.token_prefix.len()
                    == TOKEN_PREFIX_SIZE && gate@.token_prefix.len() == 16,
                Err(failure) => failure@ == crate::failure::failure_text(
                    FailureKind::Other,
                    "No random numbers"@,
                ),
            },
    {
        PacketGate::with_random_prefix(random_bytes::<TOKEN_PREFIX_SIZE>(), conn_id_seed)
    }

    /// A gate whose tokens begin with what the random number generator came up with, unless it
    /// failed.
    pub fn with_random_prefix(
        random: Result<[u8; TOKEN_PREFIX_SIZE], ring::error::Unspecified>,
        conn_id_seed: [u8; 32],
    ) -> (gate: Result<PacketGate, Failure>)
        ensures
            match random {
                Ok(token_prefix) => gate matches Ok(gate) && gate@ == (Secrets {
                    token_prefix: token_prefix@,
                    conn_id_seed: conn_id_seed@,
                }),
                Err(_) => gate matches Err(failure) && failure@ == crate::failure::failure_text(
                    FailureKind::Other,
                    "No random numbers"@,
                ),
            },
    {
        match random {
            Ok(token_prefix) => Ok(PacketGate::new(token_prefix, conn_id_seed)),
            Err(_) => Err(Failure::other("No random numbers")),
        }
    }

    /// What to do with a packet of a connection that is not known. A failure means that the
    /// packet is dropped.
    pub fn on_unknown_quic_packet(&self, peer: &PeerAddr, header: &PacketHeader) -> (status: Result<
        UnknownPacketStatus,
        Failure,
    >)
        requires
            header.dcid@.len() < 0x1000_0000_0000_0000,
        ensures
            match status {
                Ok(status) => status.decision() == self@.decide(*peer, header@),
                Err(failure) => self@.decide(*peer, header@) == UnknownPacketDecision::Drop(
                    failure@,
                ),
            },
    {
        if header.ty != PacketType::Initial {
            return Err(
                Failure::because(
                    FailureKind::Other,
                    "Unexpected packet type: ",
                    header.text.as_str(),
                ),
            );
        }
        if header.version != PROTOCOL_VERSION_V1 {
            return Ok(UnknownPacketStatus::Negotiate);
        }
        let quic_token = match &header.token {
            Some(token) => token,
            None => {
                return Err(
                    Failure::other("Invalid packet: initial packet must contain token"),
                );
            },
        };
        if quic_token.len() == 0 {
            let mut scid = hmac_sign(&self.conn_id_seed, header.dcid.as_slice());
            scid.truncate(MAX_CONN_ID_LEN);
            let token = mint_token(header.dcid.as_slice(), &self.token_prefix, peer);
            assert(scid@ =~= self@.retry_id(header.dcid@));
            return Ok(UnknownPacketStatus::Retry { scid, token });
        }
        if header.dcid.len() != MAX_CONN_ID_LEN {
            return Err(Failure::other("Invalid packet: unexpected destination connection ID"));
        }
        let ghost start = self.token_prefix@ + peer.octets();
        let ghost rest = quic_token@.skip(start.len() as int);
        match validate_token(&self.token_prefix, peer, quic_token.as_slice()) {
            Some(odcid) => {
                proof {
                    assert(quic_token@ =~= start + odcid@);
                    assert(quic_token@.take(start.len() as int) =~= start);
                    assert(rest =~= odcid@);
                }
                Ok(UnknownPacketStatus::Accept { odcid: vstd::slice::slice_to_vec(odcid) })
            },
            None => {
                proof {
                    if crate::quic_token::begins_with(quic_token@, start) {
                        assert(quic_token@ =~= start + rest);
                        assert(quic_token@ =~= crate::quic_token::token_for(
                            self.token_prefix@,
                            *peer,
                            rest,
                        ));
                    }
                }
                Err(Failure::other("Invalid packet: unexpected token"))
            },
        }
    }
}

/// What came of handing a packet to the QUIC connection.
pub fn quic_recv(received: Result<usize, QuicError>) -> (result: Result<(), Failure>)
    ensures
        match received {
            Ok(_) => result is Ok,
            Err(e) => result matches Err(failure) && failure@ == crate::failure::failure_text(
                FailureKind::Other,
                "QUIC receive failure: "@ + crate::failure::quic_error_text(e),
            ),
        },
{
    match received {
        Ok(_) => Ok(()),
        Err(e) => Err(
            Failure::because(FailureKind::Other, "QUIC receive failure: ", e.to_text().as_str()),
        ),
    }
}

/// What came of handing a packet to an established connection: what its socket is to be told, or
/// why the connection is to be closed.
pub fn proceed_established_connection(received: Result<usize, QuicError>) -> (message: Result<
    MultiplexerMessage,
    Failure,
>)
    ensures
        match received {
            Ok(_) => message matches Ok(message) && message == MultiplexerMessage::PollH3,
            Err(e) => message matches Err(failure) && failure@ == crate::failure::failure_text(
                FailureKind::Other,
                "QUIC receive failure: "@ + crate::failure::quic_error_text(e),
            ),
        },
{
    match quic_recv(received) {
        Ok(_) => Ok(MultiplexerMessage::PollH3),
        Err(failure) => Err(failure),
    }
}

/// What the QUIC connection says of itself.
#[derive(Debug, Clone, Copy)]
pub struct ConnectionState {
    pub closed: bool,
    pub draining: bool,
    pub established: bool,
    pub in_early_data: bool,
}

impl ConnectionState {
    /// Streams can be used.
    pub open spec fn usable(self) -> bool {
        self.established || self.in_early_data
    }

    /// Streams can be used.
    pub fn is_usable(&self) -> (usable: bool)
        ensures
            usable == self.usable(),
            usable <==> self.established || self.in_early_data,
    {
        self.established || self.in_early_data
    }
}

/// How far a handshake is.
#[derive(Debug, Clone, Copy, PartialEq, Eq, Structural)]
pub enum HandshakeStatus {
    InProgress,
    Complete,
}

/// How far the handshake is after a packet was handed to the connection: `received` says what came
/// of that, and `state` what the connection says of itself since.
pub fn proceed_handshake(
    received: Result<(), Failure>,
    state: ConnectionState,
    trace_id: &str,
) -> (status: Result<HandshakeStatus, Failure>)
    ensures
        match status {
            Ok(HandshakeStatus::Complete) => received is Ok && !state.closed && !state.draining
                && state.usable(),
            Ok(HandshakeStatus::InProgress) => received is Ok && !state.closed && (state.draining
                || !state.usable()),
            Err(failure) => match received {
                Err(e) => failure == e,
                Ok(_) => state.closed && failure@ == crate::failure::failure_text(
                    FailureKind::Other,
                    "["@ + trace_id@ + "] Connection closed"@,
                ),
            },
        },
        status matches Ok(HandshakeStatus::Complete) <==> received is Ok && !state.closed
            && !state.draining && (state.established || state.in_early_data),
        status is Err <==> received is Err || state.closed,
{
    if let Err(e) = received {
        return Err(e);
    }
    if state.closed {
        let mut message = "[".to_owned();
        message.append(trace_id);
        message.append("] Connection closed");
        return Err(Failure::new(FailureKind::Other, message));
    }
    if state.draining {
        return Ok(HandshakeStatus::InProgress);
    }
    if !state.is_usable() {
        return Ok(HandshakeStatus::InProgress);
    }
    Ok(HandshakeStatus::Complete)
}

/// A peer that does as it is told is let in: what it sends from the same address under the
/// connection ID and with the token that it got is accepted, and leads back to the connection ID
/// that it first addressed.
pub proof fn law_retried_packet_is_accepted(
    secrets: Secrets,
    peer: PeerAddr,
    first: HeaderContent,
    second: HeaderContent,
)
    requires
        secrets.decide(peer, first) matches UnknownPacketDecision::Retry { scid, token }
            && second.dcid == scid && second.token == Some(token),
        second.ty == PacketType::Initial,
        second.version == PROTOCOL_VERSION_V1,
    ensures
        secrets.decide(peer, second) == (UnknownPacketDecision::Accept { odcid: first.dcid }),
{
    let start = secrets.token_prefix + peer.octets();
    let token = start + first.dcid;
    assert(crate::quic_token::token_for(secrets.token_prefix, peer, first.dcid) =~= token);
    assert(token.take(start.len() as int) =~= start);
    assert(token.skip(start.len() as int) =~= first.dcid);
    assert(peer.octets().len() > 0);
}

/// Nobody is let in who has not shown to receive packets at the address that they claim: a
/// connection is accepted only with a token that was made for that address.
pub proof fn law_only_validated_peers_are_accepted(
    secrets: Secrets,
    peer: PeerAddr,
    header: HeaderContent,
    odcid: Seq<u8>,
)
    requires
        secrets.decide(peer, header) == (UnknownPacketDecision::Accept { odcid }),
    ensures
        header.token == Some(crate::quic_token::token_for(secrets.token_prefix, peer, odcid)),
        header.dcid.len() == MAX_CONN_ID_LEN,
{
    let token = header.token.unwrap();
    let start = secrets.token_prefix + peer.octets();
    assert(token =~= token.take(start.len() as int) + token.skip(start.len() as int));
    assert(token =~= crate::quic_token::token_for(secrets.token_prefix, peer, odcid));
}

} // verus!
