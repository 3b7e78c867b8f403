//! Address validation tokens: what a client must echo to show that it receives packets at the
//! address it claims.

use vstd::prelude::*;

verus! {

/// How long the secret prefix of a token is.
pub const TOKEN_PREFIX_SIZE: usize = 16;

/// The address of a peer.
#[allow(inconsistent_fields)]
#[derive(Debug, Clone, Copy, PartialEq, Eq)]
pub enum PeerAddr {
    V4 { ip: [u8; 4], port: u16 },
    V6 { ip: [u8; 16], port: u16, flowinfo: u32, scope_id: u32 },
}

impl PeerAddr {
    /// The octets of the address, then the port, all most significant byte first. Flow and scope
    /// are not part of it.
    pub open spec fn octets(self) -> Seq<u8> {
        match self {
            PeerAddr::V4 { ip, port } => ip@ + port_octets(port),
            PeerAddr::V6 { ip, port, .. } => ip@ + port_octets(port),
        }
    }
}

/// The port, most significant byte first.
pub open spec fn port_octets(port: u16) -> Seq<u8> {
    seq![(port / 256) as u8, (port % 256) as u8]
}

/// The token that lets the peer at `peer` go on with the connection that it addressed to `dcid`.
pub open spec fn token_for(prefix: Seq<u8>, peer: PeerAddr, dcid: Seq<u8>) -> Seq<u8> {
    prefix + peer.octets() + dcid
}

/// `start` is what `bytes` begins with.
pub open spec fn begins_with(bytes: Seq<u8>, start: Seq<u8>) -> bool {
    bytes.len() >= start.len() && bytes.take(start.len() as int) == start
}

/// The address and port of a peer as bytes.
pub fn socket_addr_to_vec(addr: &PeerAddr) -> (bytes: Vec<u8>)
    ensures
        bytes@ == addr.octets(),
{
    let mut bytes: Vec<u8> = Vec::new();
    let port: u16 = match addr {
        PeerAddr::V4 { ip, port } => {
            push_all(&mut bytes, ip.as_slice());
            *port
        },
        PeerAddr::V6 { ip, port, .. } => {
            push_all(&mut bytes, ip.as_slice());
            *port
        },
    };
    bytes.push((port / 256) as u8);
    bytes.push((port % 256) as u8);
    assert(bytes@ =~= addr.octets());
    bytes
}

fn push_all(bytes: &mut Vec<u8>, more: &[u8])
    ensures
        final(bytes)@ == old(bytes)@ + more@,
{
    bytes.extend_from_slice(more);
    assert(bytes@ =~= old(bytes)@ + more@);
}

/// The token for the peer at `peer` that sent a packet to `dcid`.
pub fn mint_token(dcid: &[u8], prefix: &[u8; TOKEN_PREFIX_SIZE], peer: &PeerAddr) -> (token: Vec<u8>)
    ensures
        token@ == token_for(prefix@, *peer, dcid@),
{
    let mut token: Vec<u8> = Vec::new();
    push_all(&mut token, prefix.as_slice());
    let address = socket_addr_to_vec(peer);
    push_all(&mut token, address.as_slice());
    push_all(&mut token, dcid);
    assert(token@ =~= token_for(prefix@, *peer, dcid@));
    token
}

/// `bytes` without `start`, if that is what it begins with.
fn strip_prefix<'a>(bytes: &'a [u8], start: &[u8]) -> (rest: Option<&'a [u8]>)
    ensures
        match rest {
            Some(rest) => begins_with(bytes@, start@) && rest@ == bytes@.skip(start@.len() as int),
            None => !begins_with(bytes@, start@),
        },
{
    if bytes.len() < start.len() {
        return None;
    }
    let mut i: usize = 0;
    while i < start.len()
        invariant
            i <= start@.len() <= bytes@.len(),
            forall|j: int| 0 <= j < i ==> bytes@[j] == start@[j],
        decreases start.len() - i,
    {
        if bytes[i] != start[i] {
            assert(bytes@.take(start@.len() as int)[i as int] != start@[i as int]);
            return None;
        }
        i = i + 1;
    }
    assert(bytes@.take(start@.len() as int) =~= start@);
    Some(vstd::slice::slice_subrange(bytes, start.len(), bytes.len()))
}

/// The connection ID that the peer at `peer` first addressed, if `token` is one that was minted
/// for that peer under `prefix`.
pub fn validate_token<'a>(prefix: &[u8; TOKEN_PREFIX_SIZE], peer: &PeerAddr, token: &'a [u8]) -> (dcid:
    Option<&'a [u8]>)
    ensures
        match dcid {
            Some(dcid) => token@ == token_for(prefix@, *peer, dcid@),
            None => forall|dcid: Seq<u8>| token@ != #[trigger] token_for(prefix@, *peer, dcid),
        },
{
    let address = socket_addr_to_vec(peer);
    let result = match strip_prefix(token, prefix.as_slice()) {
        None => None,
        Some(rest) => strip_prefix(rest, address.as_slice()),
    };
    proof {
        let p = prefix@.len() as int;
        let a = p + address@.len();
        match result {
            Some(dcid) => {
                assert(token@ =~= token_for(prefix@, *peer, dcid@)) by {
                    assert(token@ =~= token@.take(p) + token@.skip(p));
                    assert(token@.skip(p) =~= token@.skip(p).take(a - p) + token@.skip(p).skip(a - p));
                }
            },
            None => {
                assert forall|dcid: Seq<u8>| token@ != #[trigger] token_for(prefix@, *peer, dcid) by {
                    if token@ == token_for(prefix@, *peer, dcid) {
                        assert(token@.take(p) =~= prefix@);
                        assert(token@.skip(p) =~= address@ + dcid);
                        assert(token@.skip(p).take(a - p) =~= address@);
                    }
                }
            },
        }
    }
    result
}

/// The addresses are of one family.
pub open spec fn same_family(left: PeerAddr, right: PeerAddr) -> bool {
    left is V4 <==> right is V4
}

/// The addresses and ports are the same.
pub open spec fn same_address_and_port(left: PeerAddr, right: PeerAddr) -> bool {
    match (left, right) {
        (PeerAddr::V4 { ip: a, port: p }, PeerAddr::V4 { ip: b, port: q }) => a@ == b@ && p == q,
        (PeerAddr::V6 { ip: a, port: p, .. }, PeerAddr::V6 { ip: b, port: q, .. }) => a@ == b@
            && p == q,
        _ => false,
    }
}

/// A token is accepted from the peer that it was minted for, and gives back the connection ID
/// that it was minted with and no other.
pub proof fn law_minted_token_gives_back_its_connection_id(
    prefix: Seq<u8>,
    peer: PeerAddr,
    dcid: Seq<u8>,
    other: Seq<u8>,
)
    ensures
        token_for(prefix, peer, dcid) == token_for(prefix, peer, other) ==> dcid == other,
{
    let n = (prefix + peer.octets()).len() as int;
    assert(token_for(prefix, peer, dcid).skip(n) =~= dcid);
    assert(token_for(prefix, peer, other).skip(n) =~= other);
}

/// A token that was minted under one prefix is not one under another.
pub proof fn law_token_is_bound_to_its_prefix(
    prefix: Seq<u8>,
    peer: PeerAddr,
    dcid: Seq<u8>,
    other_prefix: Seq<u8>,
    other_peer: PeerAddr,
    other_dcid: Seq<u8>,
)
    requires
        prefix.len() == TOKEN_PREFIX_SIZE,
        other_prefix.len() == TOKEN_PREFIX_SIZE,
        prefix != other_prefix,
    ensures
        token_for(prefix, peer, dcid) != token_for(other_prefix, other_peer, other_dcid),
{
    let n = TOKEN_PREFIX_SIZE as int;
    assert(token_for(prefix, peer, dcid).take(n) =~= prefix);
    assert(token_for(other_prefix, other_peer, other_dcid).take(n) =~= other_prefix);
}

/// A token that was minted for one address and port is not one for another of the same family.
pub proof fn law_token_is_bound_to_its_peer(
    prefix: Seq<u8>,
    peer: PeerAddr,
    dcid: Seq<u8>,
    other_peer: PeerAddr,
    other_dcid: Seq<u8>,
)
    requires
        same_family(peer, other_peer),
        !same_address_and_port(peer, other_peer),
    ensures
        token_for(prefix, peer, dcid) != token_for(prefix, other_peer, other_dcid),
{
    let p = prefix.len() as int;
    let n = peer.octets().len() as int;
    if token_for(prefix, peer, dcid) == token_for(prefix, other_peer, other_dcid) {
        assert(token_for(prefix, peer, dcid).subrange(p, p + n) =~= peer.octets());
        assert(token_for(prefix, other_peer, other_dcid).subrange(p, p + n) =~= other_peer.octets());
        lemma_octets_tell_peers_apart(peer, other_peer);
    }
}

proof fn lemma_octets_tell_peers_apart(left: PeerAddr, right: PeerAddr)
    requires
        same_family(left, right),
        left.octets() == right.octets(),
    ensures
        same_address_and_port(left, right),
{
    match (left, right) {
        (PeerAddr::V4 { ip: a, port: p }, PeerAddr::V4 { ip: b, port: q }) => {
            assert(left.octets().take(4) =~= a@);
            assert(right.octets().take(4) =~= b@);
            assert(left.octets()[4] == (p / 256) as u8);
            assert(left.octets()[5] == (p % 256) as u8);
            assert(right.octets()[4] == (q / 256) as u8);
            assert(right.octets()[5] == (q % 256) as u8);
        },
        (PeerAddr::V6 { ip: a, port: p, .. }, PeerAddr::V6 { ip: b, port: q, .. }) => {
            assert(left.octets().take(16) =~= a@);
            assert(right.octets().take(16) =~= b@);
            assert(left.octets()[16] == (p / 256) as u8);
            assert(left.octets()[17] == (p % 256) as u8);
            assert(right.octets()[16] == (q / 256) as u8);
            assert(right.octets()[17] == (q % 256) as u8);
        },
        _ => {},
    }
}

} // verus!
