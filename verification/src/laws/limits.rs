//! Who may start a session, and what starting, ending and reloading do to the counters.

use crate::authentication::registry_based::Client;
use crate::connection_limiter::{ClientState, LimiterState, Revocation, RevokedState};
use crate::protocol::Protocol;
use vstd::prelude::*;

verus! {

/// A listed client may start a session exactly where it has fewer running than its own limit
/// says, whatever the default; or, where it has no limit of its own, fewer than the default says;
/// or where there is neither. HTTP/3 has a limit and a counter of its own, HTTP/1 and HTTP/2 share
/// theirs. A client that is not listed may not start any.
pub proof fn law_who_may_start_a_session(
    state: LimiterState,
    credentials: Seq<char>,
    protocol: Protocol,
)
    ensures
        !state.clients.contains_key(credentials) ==> !state.admits(credentials, protocol),
        state.clients.contains_key(credentials) && protocol is Http3 ==> {
            let client = state.clients[credentials];
            &&& client.max_http3 matches Some(own) ==> (state.admits(credentials, protocol)
                <==> client.http3_count < own)
            &&& client.max_http3 is None ==> (state.admits(credentials, protocol)
                <==> state.default_max_http3 is None || client.http3_count
                < state.default_max_http3->Some_0)
        },
        state.clients.contains_key(credentials) && (protocol is Http1 || protocol is Http2) ==> {
            let client = state.clients[credentials];
            &&& client.max_http2 matches Some(own) ==> (state.admits(credentials, protocol)
                <==> client.http2_count < own)
            &&& client.max_http2 is None ==> (state.admits(credentials, protocol)
                <==> state.default_max_http2 is None || client.http2_count
                < state.default_max_http2->Some_0)
        },
{
}

/// Only the counter of a client without any limit can run out, and then it stands at the largest
/// number that it can hold.
pub proof fn law_when_a_counter_runs_out(
    state: LimiterState,
    credentials: Seq<char>,
    protocol: Protocol,
)
    ensures
        state.exhausted(credentials, protocol) <==> state.clients.contains_key(credentials) && ({
            let client = state.clients[credentials];
            if protocol is Http3 {
                client.max_http3 is None && state.default_max_http3 is None && client.http3_count
                    == 0xffff_ffff
            } else {
                client.max_http2 is None && state.default_max_http2 is None && client.http2_count
                    == 0xffff_ffff
            }
        }),
{
}

/// Starting a session counts it: one more of its kind for its client, and nothing else changes.
pub proof fn law_what_starting_a_session_changes(
    state: LimiterState,
    credentials: Seq<char>,
    protocol: Protocol,
    other: Seq<char>,
)
    requires
        state.admits(credentials, protocol),
        !state.exhausted(credentials, protocol),
    ensures
        ({
            let next = state.acquired(credentials, protocol);
            let (client, after) = (state.clients[credentials], next.clients[credentials]);
            &&& next.clients.dom() == state.clients.dom()
            &&& next.default_max_http2 == state.default_max_http2
            &&& next.default_max_http3 == state.default_max_http3
            &&& next.next_generation == state.next_generation
            &&& other != credentials ==> next.clients[other] == state.clients[other]
            &&& after.http3_count == client.http3_count + if protocol is Http3 {
                1int
            } else {
                0
            }
            &&& after.http2_count == client.http2_count + if protocol is Http3 {
                0int
            } else {
                1
            }
            &&& after.max_http2 == client.max_http2
            &&& after.max_http3 == client.max_http3
            &&& after.generation == client.generation
            &&& after.channel == client.channel
            &&& after.revoked == client.revoked
        }),
{
    assert(state.acquired(credentials, protocol).clients.dom() =~= state.clients.dom());
}

/// Ending a session takes it off: one fewer of its kind for its client, where there are any, and
/// nothing else changes. A session of another registration takes nothing off.
pub proof fn law_what_ending_a_session_changes(
    state: LimiterState,
    credentials: Seq<char>,
    protocol: Protocol,
    generation: u64,
    other: Seq<char>,
)
    ensures
        ({
            let next = state.released(credentials, protocol, generation);
            let (client, after) = (state.clients[credentials], next.clients[credentials]);
            &&& next.clients.dom() == state.clients.dom()
            &&& next.default_max_http2 == state.default_max_http2
            &&& next.default_max_http3 == state.default_max_http3
            &&& next.next_generation == state.next_generation
            &&& other != credentials ==> next.clients[other] == state.clients[other]
            &&& !state.clients.contains_key(credentials) || client.generation != generation
                ==> next == state
            &&& state.clients.contains_key(credentials) && client.generation == generation ==> {
                &&& after.http3_count == if protocol is Http3 && client.http3_count > 0 {
                    client.http3_count - 1
                } else {
                    client.http3_count as int
                }
                &&& after.http2_count == if !(protocol is Http3) && client.http2_count > 0 {
                    client.http2_count - 1
                } else {
                    client.http2_count as int
                }
                &&& after.max_http2 == client.max_http2
                &&& after.max_http3 == client.max_http3
                &&& after.generation == client.generation
                &&& after.channel == client.channel
                &&& after.revoked == client.revoked
            }
        }),
{
    assert(state.released(credentials, protocol, generation).clients.dom()
        =~= state.clients.dom());
}

/// The client at `i`, and no other, has these credentials.
pub open spec fn is_only_one(clients: Seq<Client>, credentials: Seq<char>, i: int) -> bool {
    &&& 0 <= i < clients.len()
    &&& clients[i].credentials() == credentials
    &&& forall|j: int|
        0 <= j < clients.len() && j != i ==> #[trigger] clients[j].credentials() != credentials
}

proof fn lemma_absent(clients: Seq<Client>, credentials: Seq<char>)
    requires
        forall|j: int|
            0 <= j < clients.len() ==> #[trigger] clients[j].credentials() != credentials,
    ensures
        crate::connection_limiter::occurrences(clients, credentials) == 0,
{
    crate::connection_limiter::lemma_unlisted_never_occurs(clients, credentials);
}

proof fn lemma_present(clients: Seq<Client>, credentials: Seq<char>, j: int)
    requires
        0 <= j < clients.len(),
        clients[j].credentials() == credentials,
    ensures
        crate::connection_limiter::occurrences(clients, credentials) > 0,
{
    crate::connection_limiter::lemma_unlisted_never_occurs(clients, credentials);
}

proof fn lemma_only_one_occurs_once(clients: Seq<Client>, credentials: Seq<char>, i: int)
    requires
        is_only_one(clients, credentials, i),
    ensures
        crate::connection_limiter::occurrences(clients, credentials) == 1,
    decreases clients.len(),
{
    let n = clients.len() - 1;
    let shorter = clients.drop_last();
    assert(clients.last() == clients[n]);
    assert forall|j: int| 0 <= j < n && j != i implies #[trigger] shorter[j].credentials()
        != credentials by {
        assert(clients[j].credentials() != credentials);
    }
    if i == n {
        lemma_absent(shorter, credentials);
    } else {
        assert(clients[n].credentials() != credentials);
        assert(shorter[i] == clients[i]);
        lemma_only_one_occurs_once(shorter, credentials, i);
    }
}

proof fn lemma_occurs_once_is_only_one(clients: Seq<Client>, credentials: Seq<char>) -> (i: int)
    requires
        crate::connection_limiter::occurrences(clients, credentials) == 1,
    ensures
        is_only_one(clients, credentials, i),
    decreases clients.len(),
{
    let n = clients.len() - 1;
    let shorter = clients.drop_last();
    assert(clients.last() == clients[n]);
    if clients[n].credentials() == credentials {
        assert forall|j: int| 0 <= j < clients.len() && j != n implies
            #[trigger] clients[j].credentials() != credentials by {
            if clients[j].credentials() == credentials {
                assert(shorter[j] == clients[j]);
                lemma_present(shorter, credentials, j);
            }
        }
        n
    } else {
        let i = lemma_occurs_once_is_only_one(shorter, credentials);
        assert(shorter[i] == clients[i]);
        assert forall|j: int| 0 <= j < clients.len() && j != i implies
            #[trigger] clients[j].credentials() != credentials by {
            if j < n {
                assert(shorter[j].credentials() != credentials);
            }
        }
        i
    }
}

/// A client lives through a reload exactly where it was there and the new list names it in one
/// place.
pub proof fn law_who_lives_through_a_reload(
    state: LimiterState,
    clients: Seq<Client>,
    credentials: Seq<char>,
)
    ensures
        state.retains(clients, credentials) <==> state.clients.contains_key(credentials) && exists|
            i: int,
        |
            #[trigger] is_only_one(clients, credentials, i),
{
    if state.retains(clients, credentials) {
        let i = lemma_occurs_once_is_only_one(clients, credentials);
        assert(is_only_one(clients, credentials, i));
    }
    if exists|i: int| #[trigger] is_only_one(clients, credentials, i) {
        let i = choose|i: int| #[trigger] is_only_one(clients, credentials, i);
        lemma_only_one_occurs_once(clients, credentials, i);
    }
}

/// Of several clients with the same credentials, the one that is listed last counts: no other
/// comes after it.
pub proof fn law_the_last_one_listed_counts(clients: Seq<Client>, i: int)
    requires
        0 <= i < clients.len(),
        forall|j: int|
            i < j < clients.len() ==> #[trigger] clients[j].credentials()
                != clients[i].credentials(),
    ensures
        crate::connection_limiter::last_listed(clients, clients[i].credentials()) == clients[i],
    decreases clients.len(),
{
    let n = clients.len() - 1;
    if i < n {
        let shorter = clients.drop_last();
        assert(clients[n].credentials() != clients[i].credentials());
        assert forall|j: int| i < j < shorter.len() implies #[trigger] shorter[j].credentials()
            != shorter[i].credentials() by {
            assert(clients[j].credentials() != clients[i].credentials());
        }
        law_the_last_one_listed_counts(shorter, i);
    }
}

/// What a reload makes of the client that is listed last under its credentials: it gets the
/// limits that it is listed with. If it was there and is listed once, its sessions, its generation
/// and its channel stay as they were; else it begins without sessions, under a generation that was
/// never there, and nobody is told that it is gone.
pub proof fn law_what_a_reload_makes_of_a_client(
    state: LimiterState,
    clients: Seq<Client>,
    i: int,
    next: ClientState,
)
    requires
        0 <= i < clients.len(),
        forall|j: int|
            i < j < clients.len() ==> #[trigger] clients[j].credentials()
                != clients[i].credentials(),
        state.reloads_client(clients, clients[i].credentials(), next),
    ensures
        ({
            let credentials = clients[i].credentials();
            let before = state.clients[credentials];
            &&& next.max_http2 == clients[i].max_http2_conns
            &&& next.max_http3 == clients[i].max_http3_conns
            &&& if state.clients.contains_key(credentials) && forall|j: int|
                0 <= j < i ==> #[trigger] clients[j].credentials() != credentials {
                &&& next.http2_count == before.http2_count
                &&& next.http3_count == before.http3_count
                &&& next.generation == before.generation
                &&& next.channel == before.channel
                &&& next.revoked == before.revoked
            } else {
                &&& next.http2_count == 0
                &&& next.http3_count == 0
                &&& next.generation >= state.next_generation
                &&& !next.revoked
            }
        }),
{
    let credentials = clients[i].credentials();
    law_the_last_one_listed_counts(clients, i);
    law_who_lives_through_a_reload(state, clients, credentials);
    if forall|j: int| 0 <= j < i ==> #[trigger] clients[j].credentials() != credentials {
        assert(is_only_one(clients, credentials, i));
    }
    if state.retains(clients, credentials) {
        let k = choose|k: int| #[trigger] is_only_one(clients, credentials, k);
        assert(clients[i].credentials() == credentials);
        assert(k == i);
    }
}

/// What a reload makes of the limiter: it has the clients of the list and no others, and the new
/// default limits. Exactly the clients that were there and are not listed are told, each once, on
/// its own channel.
pub proof fn law_what_a_reload_makes_of_the_limiter(
    state: LimiterState,
    clients: Seq<Client>,
    default_max_http2: Option<u32>,
    default_max_http3: Option<u32>,
    next: LimiterState,
    signals: Seq<RevokedState>,
    credentials: Seq<char>,
    i: int,
    j: int,
)
    requires
        state.reloads_to(clients, default_max_http2, default_max_http3, next, signals),
    ensures
        next.default_max_http2 == default_max_http2,
        next.default_max_http3 == default_max_http3,
        state.next_generation <= next.next_generation <= state.next_generation + clients.len(),
        next.clients.contains_key(credentials) <==> exists|k: int|
            0 <= k < clients.len() && #[trigger] clients[k].credentials() == credentials,
        next.clients.contains_key(credentials) ==> state.reloads_client(
            clients,
            credentials,
            next.clients[credentials],
        ),
        (exists|k: int| 0 <= k < signals.len() && #[trigger] signals[k].credentials == credentials)
            <==> state.clients.contains_key(credentials) && forall|k: int|
            0 <= k < clients.len() ==> #[trigger] clients[k].credentials() != credentials,
        0 <= i < signals.len() ==> {
            &&& signals[i].signalled
            &&& signals[i].channel == state.clients[signals[i].credentials].channel
            &&& signals[i].generation == state.clients[signals[i].credentials].generation
        },
        0 <= i < signals.len() && 0 <= j < signals.len() && signals[i].credentials
            == signals[j].credentials ==> i == j,
{
    let listed = crate::authentication::registry_based::registry_of(clients);
    assert(next.clients.contains_key(credentials) <==> listed.contains(credentials));
    if listed.contains(credentials) {
        let k = choose|k: int|
            0 <= k < clients.len() && credentials == #[trigger] clients[k].credentials();
        assert(clients[k].credentials() == credentials);
    }
    if exists|k: int| 0 <= k < signals.len() && #[trigger] signals[k].credentials == credentials {
        let k = choose|k: int|
            0 <= k < signals.len() && #[trigger] signals[k].credentials == credentials;
        assert(state.revokes(clients, signals[k]));
    }
    if 0 <= i < signals.len() {
        assert(state.revokes(clients, signals[i]));
    }
}

/// What is known of the clients of a limiter: none is told that it is gone, and their
/// generations are their own, and earlier than the next.
pub proof fn law_what_is_known_of_the_clients(
    state: LimiterState,
    credentials: Seq<char>,
    other: Seq<char>,
)
    requires
        state.wf(),
        state.clients.contains_key(credentials),
    ensures
        !state.clients[credentials].revoked,
        state.clients[credentials].generation < state.next_generation,
        state.clients.contains_key(other) && state.clients[other].generation
            == state.clients[credentials].generation ==> other == credentials,
{
}

/// The signals that were sent are those that are handed out, in the same order.
pub proof fn law_signals_in_their_order(revoked: Seq<Revocation>)
    ensures
        crate::connection_limiter::signals_of(revoked).len() == revoked.len(),
        forall|i: int|
            0 <= i < revoked.len() ==> #[trigger] crate::connection_limiter::signals_of(revoked)[i]
                == revoked[i]@,
{
}

} // verus!
