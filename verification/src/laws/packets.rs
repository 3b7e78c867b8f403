//! What becomes of a packet of a connection that is not known, and what its token holds.

use crate::failure::FailureKind;
use crate::quic_multiplexer::packets::{
    HeaderContent, PacketHeader, PacketType, Secrets, UnknownPacketDecision, UnknownPacketStatus,
};
use crate::quic_token::PeerAddr;
use vstd::prelude::*;

verus! {

/// What a token holds: the secret prefix, the octets of the address, the port in two bytes, and
/// the connection ID that the peer addressed.
pub proof fn law_layout_of_a_token(prefix: Seq<u8>, peer: PeerAddr, dcid: Seq<u8>)
    ensures
        ({
            let token = crate::quic_token::token_for(prefix, peer, dcid);
            let n = prefix.len() as int;
            &&& token.take(n) == prefix
            &&& match peer {
                PeerAddr::V4 { ip, port } => {
                    &&& token.len() == n + 6 + dcid.len()
                    &&& token.subrange(n, n + 4) == ip@
                    &&& 256 * token[n + 4] + token[n + 5] == port
                    &&& token.skip(n + 6) == dcid
                },
                PeerAddr::V6 { ip, port, .. } => {
                    &&& token.len() == n + 18 + dcid.len()
                    &&& token.subrange(n, n + 16) == ip@
                    &&& 256 * token[n + 16] + token[n + 17] == port
                    &&& token.skip(n + 18) == dcid
                },
            }
        }),
{
    let token = crate::quic_token::token_for(prefix, peer, dcid);
    let n = prefix.len() as int;
    assert(token.take(n) =~= prefix);
    match peer {
        PeerAddr::V4 { ip, port } => {
            assert(ip@.len() == 4);
            assert(token.subrange(n, n + 4) =~= ip@);
            assert(token[n + 4] == (port / 256) as u8);
            assert(token[n + 5] == (port % 256) as u8);
            assert(token.skip(n + 6) =~= dcid);
        },
        PeerAddr::V6 { ip, port, .. } => {
            assert(ip@.len() == 16);
            assert(token.subrange(n, n + 16) =~= ip@);
            assert(token[n + 16] == (port / 256) as u8);
            assert(token[n + 17] == (port % 256) as u8);
            assert(token.skip(n + 18) =~= dcid);
        },
    }
}

/// The octets of an address and port, as they stand in a token.
pub proof fn law_octets_of_an_address(peer: PeerAddr)
    ensures
        crate::quic_token::token_for(Seq::empty(), peer, Seq::empty()) == peer.octets(),
        match peer {
            PeerAddr::V4 { ip, port } => {
                &&& peer.octets().len() == 6
                &&& peer.octets().take(4) == ip@
                &&& 256 * peer.octets()[4] + peer.octets()[5] == port
            },
            PeerAddr::V6 { ip, port, .. } => {
                &&& peer.octets().len() == 18
                &&& peer.octets().take(16) == ip@
                &&& 256 * peer.octets()[16] + peer.octets()[17] == port
            },
        },
{
    law_layout_of_a_token(Seq::empty(), peer, Seq::empty());
    let token = crate::quic_token::token_for(Seq::empty(), peer, Seq::empty());
    assert(token =~= peer.octets());
    assert(token.take(4) =~= token.subrange(0, 4));
    if peer is V6 {
        assert(token.take(16) =~= token.subrange(0, 16));
    }
}

/// A packet leads to a connection exactly where it is an initial packet of version 1, addressed to
/// a connection ID of 20 bytes, whose token was made under the secrets for the peer: then the
/// connection ID in that token is the one that the peer first addressed.
pub proof fn law_when_a_connection_is_accepted(
    secrets: Secrets,
    peer: PeerAddr,
    header: HeaderContent,
    odcid: Seq<u8>,
)
    ensures
        secrets.decide(peer, header) == (UnknownPacketDecision::Accept { odcid }) <==> {
            &&& header.ty is Initial
            &&& header.version == 1
            &&& header.dcid.len() == 20
            &&& header.token matches Some(token)
            &&& token == crate::quic_token::token_for(secrets.token_prefix, peer, odcid)
        },
{
    let start = secrets.token_prefix + peer.octets();
    law_octets_of_an_address(peer);
    if let Some(token) = header.token {
        let made = crate::quic_token::token_for(secrets.token_prefix, peer, odcid);
        assert(made =~= start + odcid);
        assert(made.take(start.len() as int) =~= start);
        assert(made.skip(start.len() as int) =~= odcid);
        if crate::quic_token::begins_with(token, start) {
            assert(token =~= start + token.skip(start.len() as int));
        }
    }
}

/// A peer is told to try again exactly where its initial packet of version 1 has an empty token:
/// under 20 bytes of a digest of the connection ID that it addressed, and with a token made for it
/// and that connection ID. It is told of the versions exactly where its initial packet has another
/// one.
pub proof fn law_when_a_peer_is_answered(secrets: Secrets, peer: PeerAddr, header: HeaderContent)
    ensures
        secrets.decide(peer, header) is Negotiate <==> header.ty is Initial && header.version != 1,
        secrets.decide(peer, header) is Retry <==> {
            &&& header.ty is Initial
            &&& header.version == 1
            &&& header.token matches Some(token)
            &&& token.len() == 0
        },
        secrets.decide(peer, header) matches UnknownPacketDecision::Retry { scid, token } ==> {
            &&& scid.len() == 20
            &&& forall|i: int|
                0 <= i < 20 ==> #[trigger] scid[i] == crate::secrets::hmac_sha256(
                    secrets.conn_id_seed,
                    header.dcid,
                )[i]
            &&& token == crate::quic_token::token_for(secrets.token_prefix, peer, header.dcid)
        },
{
}

/// Every other packet is dropped, for the first of these reasons: it is no initial packet; it has
/// no token; its connection ID is not 20 bytes long; its token was not made for the peer.
pub proof fn law_when_a_packet_is_dropped(
    secrets: Secrets,
    peer: PeerAddr,
    header: HeaderContent,
    odcid: Seq<u8>,
)
    ensures
        match secrets.decide(peer, header) {
            UnknownPacketDecision::Drop(failure) => {
                &&& failure.kind == FailureKind::Other
                &&& failure.message is Some
                &&& if !(header.ty is Initial) {
                    failure.message == Some("Unexpected packet type: "@ + header.text)
                } else {
                    &&& header.version == 1
                    &&& match header.token {
                        None => failure.message == Some(
                            "Invalid packet: initial packet must contain token"@,
                        ),
                        Some(token) => {
                            &&& token.len() > 0
                            &&& if header.dcid.len() != 20 {
                                failure.message == Some(
                                    "Invalid packet: unexpected destination connection ID"@,
                                )
                            } else {
                                &&& token != crate::quic_token::token_for(
                                    secrets.token_prefix,
                                    peer,
                                    odcid,
                                )
                                &&& failure.message == Some("Invalid packet: unexpected token"@)
                            }
                        },
                    }
                }
            },
            _ => header.ty is Initial,
        },
{
    law_when_a_connection_is_accepted(secrets, peer, header, odcid);
}

/// `bytes` begins with `start` exactly where the two agree as far as `start` goes.
pub proof fn law_what_bytes_begin_with(bytes: Seq<u8>, start: Seq<u8>)
    ensures
        crate::quic_token::begins_with(bytes, start) <==> start.len() <= bytes.len() && forall|i: int|
            0 <= i < start.len() ==> #[trigger] start[i] == bytes[i],
{
    if crate::quic_token::begins_with(bytes, start) {
        assert forall|i: int| 0 <= i < start.len() implies #[trigger] start[i] == bytes[i] by {
            assert(bytes.take(start.len() as int)[i] == bytes[i]);
        }
    }
    if start.len() <= bytes.len() && forall|i: int|
        0 <= i < start.len() ==> #[trigger] start[i] == bytes[i] {
        assert(bytes.take(start.len() as int) =~= start);
    }
}

/// What is done with a packet is what was decided, with the same bytes.
pub proof fn law_decisions_are_carried_out(status: UnknownPacketStatus)
    ensures
        match status {
            UnknownPacketStatus::Negotiate => status.decision() is Negotiate,
            UnknownPacketStatus::Retry { scid, token } => status.decision() == (
            UnknownPacketDecision::Retry { scid: scid@, token: token@ }),
            UnknownPacketStatus::Accept { odcid } => status.decision() == (
            UnknownPacketDecision::Accept { odcid: odcid@ }),
        },
{
}

/// What is said of a header is said of its fields.
pub proof fn law_headers_are_known_by_their_fields(header: PacketHeader)
    ensures
        header@.ty == header.ty,
        header@.version == header.version,
        header@.dcid == header.dcid@,
        header@.scid == header.scid@,
        header@.text == header.text@,
        header.token matches Some(token) ==> header@.token == Some(token@),
        header.token is None ==> header@.token is None,
{
}

} // verus!
