//! What holds of a connection limiter and its sessions over time.

use crate::authentication::registry_based::Client;
use crate::connection_limiter::{GuardState, LimiterState, RevokedState};
use crate::protocol::Protocol;
use vstd::prelude::*;

verus! {

/// A limiter, all the sessions that are running, and all the signals that were sent so far.
#[verifier::ext_equal]
pub ghost struct Running {
    pub state: LimiterState,
    pub sessions: Seq<GuardState>,
    pub signals: Seq<RevokedState>,
}

/// What can happen.
pub ghost enum SessionEvent {
    /// Somebody asks for a session.
    Start { credentials: Seq<char>, protocol: Protocol },
    /// A session ends: the one at this place among those that are running.
    End { session: int },
    Reload {
        clients: Seq<Client>,
        default_max_http2: Option<u32>,
        default_max_http3: Option<u32>,
    },
}

/// The session that starts for a client.
pub open spec fn session_for(
    state: LimiterState,
    credentials: Seq<char>,
    protocol: Protocol,
) -> GuardState {
    GuardState {
        credentials,
        protocol,
        generation: state.clients[credentials].generation,
        channel: state.clients[credentials].channel,
    }
}

impl Running {
    /// The session belongs to the present registration of its client.
    pub open spec fn is_current(self, session: GuardState) -> bool {
        &&& self.state.clients.contains_key(session.credentials)
        &&& self.state.clients[session.credentials].generation == session.generation
    }

    /// The session reads that its client was removed.
    pub open spec fn is_told(self, session: GuardState) -> bool {
        exists|i: int|
            0 <= i < self.signals.len() && #[trigger] self.signals[i].generation
                == session.generation && self.signals[i].channel == session.channel
                && self.signals[i].signalled
    }

    /// The counters are right, and sessions and signals belong to the registrations that they
    /// came from.
    pub open spec fn wf(self) -> bool {
        &&& crate::connection_limiter::counts_sessions(self.state, self.sessions)
        &&& forall|i: int, c: Seq<char>|
            #![trigger self.sessions[i], self.state.clients.contains_key(c)]
            0 <= i < self.sessions.len() && self.state.clients.contains_key(c)
                && self.state.clients[c].generation == self.sessions[i].generation
                ==> self.sessions[i].credentials == c && self.sessions[i].channel
                == self.state.clients[c].channel
        &&& forall|i: int|
            0 <= i < self.signals.len() ==> (#[trigger] self.signals[i]).generation
                < self.state.next_generation
        &&& forall|i: int, c: Seq<char>|
            #![trigger self.signals[i], self.state.clients.contains_key(c)]
            0 <= i < self.signals.len() && self.state.clients.contains_key(c)
                ==> self.state.clients[c].generation != self.signals[i].generation
    }

    /// Every session belongs to a client that is there, or was told that it is not.
    pub open spec fn accounted(self) -> bool {
        forall|i: int|
            0 <= i < self.sessions.len() ==> self.is_current(#[trigger] self.sessions[i])
                || self.is_told(self.sessions[i])
    }
}

/// `event` leads from `before` to `after`.
pub open spec fn happens(before: Running, event: SessionEvent, after: Running) -> bool {
    match event {
        SessionEvent::Start { credentials, protocol } => {
            &&& !before.state.exhausted(credentials, protocol)
            &&& if before.state.admits(credentials, protocol) {
                after == (Running {
                    state: before.state.acquired(credentials, protocol),
                    sessions: before.sessions.push(
                        session_for(before.state, credentials, protocol),
                    ),
                    ..before
                })
            } else {
                after == before
            }
        },
        SessionEvent::End { session } => {
            let ended = before.sessions[session];
            &&& 0 <= session < before.sessions.len()
            &&& after == (Running {
                state: before.state.released(ended.credentials, ended.protocol, ended.generation),
                sessions: before.sessions.remove(session),
                ..before
            })
        },
        SessionEvent::Reload { clients, default_max_http2, default_max_http3 } => {
            &&& after.sessions == before.sessions
            &&& after.state.wf()
            &&& exists|sent: Seq<RevokedState>| #[trigger]
                before.state.reloads_to(
                    clients,
                    default_max_http2,
                    default_max_http3,
                    after.state,
                    sent,
                ) && after.signals == before.signals + sent
        },
    }
}

/// `events` lead from the first of `moments` to the last, one after the other.
pub open spec fn history(moments: Seq<Running>, events: Seq<SessionEvent>) -> bool {
    &&& moments.len() == events.len() + 1
    &&& forall|i: int|
        #![trigger events[i]]
        0 <= i < events.len() ==> happens(moments[i], events[i], moments[i + 1])
}

/// No two of `clients` have the same credentials.
pub open spec fn distinct_clients(clients: Seq<Client>) -> bool {
    forall|i: int, j: int|
        0 <= i < j < clients.len() ==> #[trigger] clients[i].credentials()
            != #[trigger] clients[j].credentials()
}

/// `event` is no reload, or one with a list that names nobody twice.
pub open spec fn lists_nobody_twice(event: SessionEvent) -> bool {
    event matches SessionEvent::Reload { clients, .. } ==> distinct_clients(clients)
}

/// `event` is no reload, or one with a list that names the client with these credentials, once.
pub open spec fn lists_once(event: SessionEvent, credentials: Seq<char>) -> bool {
    event matches SessionEvent::Reload { clients, .. } ==> crate::connection_limiter::occurrences(
        clients,
        credentials,
    ) == 1
}

proof fn lemma_distinct_clients(clients: Seq<Client>, credentials: Seq<char>)
    requires
        distinct_clients(clients),
    ensures
        crate::connection_limiter::occurrences(clients, credentials) <= 1,
        crate::connection_limiter::occurrences(clients, credentials) == 1
            <==> crate::authentication::registry_based::registry_of(clients).contains(credentials),
        forall|i: int|
            0 <= i < clients.len() && #[trigger] clients[i].credentials() == credentials
                ==> crate::connection_limiter::last_listed(clients, credentials) == clients[i],
    decreases clients.len(),
{
    crate::connection_limiter::lemma_unlisted_never_occurs(clients, credentials);
    if clients.len() > 0 {
        let shorter = clients.drop_last();
        let n = clients.len() - 1;
        assert forall|i: int, j: int| 0 <= i < j < shorter.len() implies
            #[trigger] shorter[i].credentials() != #[trigger] shorter[j].credentials() by {
            assert(shorter[i] == clients[i] && shorter[j] == clients[j]);
            assert(clients[i].credentials() != clients[j].credentials());
        }
        lemma_distinct_clients(shorter, credentials);
        assert(clients.last() == clients[n]);
        if clients[n].credentials() == credentials {
            if crate::authentication::registry_based::registry_of(shorter).contains(credentials) {
                let j = choose|j: int|
                    0 <= j < shorter.len() && credentials == #[trigger] shorter[j].credentials();
                assert(shorter[j] == clients[j]);
                assert(clients[j].credentials() != clients[n].credentials());
            }
            assert forall|i: int|
                0 <= i < clients.len() && #[trigger] clients[i].credentials()
                    == credentials implies crate::connection_limiter::last_listed(
                clients,
                credentials,
            ) == clients[i] by {
                if i < n {
                    assert(clients[i].credentials() != clients[n].credentials());
                }
            }
        } else {
            assert forall|i: int|
                0 <= i < clients.len() && #[trigger] clients[i].credentials()
                    == credentials implies crate::connection_limiter::last_listed(
                clients,
                credentials,
            ) == clients[i] by {
                assert(shorter[i] == clients[i]);
                assert(shorter[i].credentials() == credentials);
            }
        }
    }
}

/// What a reload does to the client with these credentials, whoever they belong to, and to its
/// sessions, where the list names nobody twice. The client is there afterwards exactly when it is
/// listed, with the limits of the list. If it was there before, it keeps its counters, its
/// registration and its channel, which does not say that it was removed; else it starts without
/// sessions, under a new registration. If it is gone, its sessions read that it was removed.
pub proof fn law_reload(
    before: LimiterState,
    clients: Seq<Client>,
    default_max_http2: Option<u32>,
    default_max_http3: Option<u32>,
    after: LimiterState,
    signals: Seq<RevokedState>,
    credentials: Seq<char>,
    protocol: Protocol,
)
    requires
        before.wf(),
        distinct_clients(clients),
        before.reloads_to(clients, default_max_http2, default_max_http3, after, signals),
    ensures
        after.default_max_http2 == default_max_http2,
        after.default_max_http3 == default_max_http3,
        after.clients.contains_key(credentials) <==> exists|i: int|
            0 <= i < clients.len() && #[trigger] clients[i].credentials() == credentials,
        forall|i: int|
            0 <= i < clients.len() && #[trigger] clients[i].credentials() == credentials ==> {
                &&& after.clients[credentials].max_http2 == clients[i].max_http2_conns
                &&& after.clients[credentials].max_http3 == clients[i].max_http3_conns
            },
        after.clients.contains_key(credentials) ==> !after.clients[credentials].revoked,
        before.clients.contains_key(credentials) && after.clients.contains_key(credentials) ==> {
            &&& after.clients[credentials].count(protocol) == before.clients[credentials].count(
                protocol,
            )
            &&& after.clients[credentials].generation == before.clients[credentials].generation
            &&& after.clients[credentials].channel == before.clients[credentials].channel
            &&& forall|i: int|
                0 <= i < signals.len() ==> (#[trigger] signals[i]).generation
                    != before.clients[credentials].generation
        },
        !before.clients.contains_key(credentials) && after.clients.contains_key(credentials) ==> {
            &&& after.clients[credentials].count(protocol) == 0
            &&& after.clients[credentials].generation >= before.next_generation
        },
        before.clients.contains_key(credentials) && !after.clients.contains_key(credentials)
            ==> exists|i: int|
            0 <= i < signals.len() && #[trigger] signals[i].generation
                == before.clients[credentials].generation && signals[i].channel
                == before.clients[credentials].channel && signals[i].signalled,
{
    lemma_distinct_clients(clients, credentials);
    assert(after.clients.contains_key(credentials) <==> after.clients.dom().contains(credentials));
    if after.clients.contains_key(credentials) {
        assert(before.reloads_client(clients, credentials, after.clients[credentials]));
    }
    assert forall|i: int|
        before.clients.contains_key(credentials) && after.clients.contains_key(credentials) && 0
            <= i < signals.len() implies (#[trigger] signals[i]).generation
        != before.clients[credentials].generation by {
        assert(before.revokes(clients, signals[i]));
    }
    if before.clients.contains_key(credentials) && !after.clients.contains_key(credentials) {
        let i = choose|i: int|
            0 <= i < signals.len() && #[trigger] signals[i].credentials == credentials;
        assert(before.revokes(clients, signals[i]));
        assert(signals[i].generation == before.clients[credentials].generation);
    }
    if exists|i: int|
        0 <= i < clients.len() && #[trigger] clients[i].credentials() == credentials {
        let i = choose|i: int|
            0 <= i < clients.len() && #[trigger] clients[i].credentials() == credentials;
        assert(credentials == clients[i].credentials());
    }
}

/// A limiter of which no session has started is right about its sessions.
pub proof fn law_fresh_limiter_has_no_sessions(state: LimiterState)
    requires
        state.wf(),
        forall|c: Seq<char>| #[trigger]
            state.clients.contains_key(c) ==> state.clients[c].http2_count == 0
                && state.clients[c].http3_count == 0,
    ensures
        (Running { state, sessions: Seq::empty(), signals: Seq::empty() }).wf(),
{
}

/// Whatever happens, the counters stay right: the count of a client is the number of the sessions
/// that are running on its present registration.
pub proof fn law_events_keep_the_counters_right(
    before: Running,
    event: SessionEvent,
    after: Running,
)
    requires
        before.wf(),
        happens(before, event, after),
    ensures
        after.wf(),
{
    match event {
        SessionEvent::Start { credentials, protocol } => {
            if before.state.admits(credentials, protocol) {
                let session = session_for(before.state, credentials, protocol);
                crate::connection_limiter::law_started_session_is_counted(
                    before.state,
                    before.sessions,
                    session,
                );
                lemma_same_registrations(before, after);
                assert forall|i: int, c: Seq<char>|
                    #![trigger after.sessions[i], after.state.clients.contains_key(c)]
                    0 <= i < after.sessions.len() && after.state.clients.contains_key(c)
                        && after.state.clients[c].generation
                        == after.sessions[i].generation implies after.sessions[i].credentials == c
                    && after.sessions[i].channel == after.state.clients[c].channel by {
                    assert(before.state.clients.contains_key(c));
                    if i < before.sessions.len() {
                        assert(after.sessions[i] == before.sessions[i]);
                    } else {
                        assert(before.state.clients.contains_key(credentials));
                    }
                }
            }
        },
        SessionEvent::End { session } => {
            crate::connection_limiter::law_ended_session_is_no_longer_counted(
                before.state,
                before.sessions,
                session,
            );
            lemma_same_registrations(before, after);
            assert forall|i: int, c: Seq<char>|
                #![trigger after.sessions[i], after.state.clients.contains_key(c)]
                0 <= i < after.sessions.len() && after.state.clients.contains_key(c)
                    && after.state.clients[c].generation
                    == after.sessions[i].generation implies after.sessions[i].credentials == c
                && after.sessions[i].channel == after.state.clients[c].channel by {
                let k = if i < session {
                    i
                } else {
                    i + 1
                };
                assert(after.sessions[i] == before.sessions[k]);
                assert(before.state.clients.contains_key(c));
            }
        },
        SessionEvent::Reload { clients, default_max_http2, default_max_http3 } => {
            let sent = choose|sent: Seq<RevokedState>| #[trigger]
                before.state.reloads_to(
                    clients,
                    default_max_http2,
                    default_max_http3,
                    after.state,
                    sent,
                ) && after.signals == before.signals + sent;
            crate::connection_limiter::law_reload_keeps_the_counters_right(
                before.state,
                clients,
                after.state,
                before.sessions,
            );
            assert forall|i: int, c: Seq<char>|
                #![trigger after.sessions[i], after.state.clients.contains_key(c)]
                0 <= i < after.sessions.len() && after.state.clients.contains_key(c)
                    && after.state.clients[c].generation
                    == after.sessions[i].generation implies after.sessions[i].credentials == c
                && after.sessions[i].channel == after.state.clients[c].channel by {
                assert(before.state.reloads_client(clients, c, after.state.clients[c]));
                assert(before.sessions[i].generation < before.state.next_generation);
                assert(before.state.clients.contains_key(c));
            }
            assert forall|i: int| 0 <= i < after.signals.len() implies (
            #[trigger] after.signals[i]).generation < after.state.next_generation by {
                if i < before.signals.len() {
                    assert(after.signals[i] == before.signals[i]);
                } else {
                    assert(after.signals[i] == sent[i - before.signals.len()]);
                }
            }
            assert forall|i: int, c: Seq<char>|
                #![trigger after.signals[i], after.state.clients.contains_key(c)]
                0 <= i < after.signals.len() && after.state.clients.contains_key(c) implies
                after.state.clients[c].generation != after.signals[i].generation by {
                assert(before.state.reloads_client(clients, c, after.state.clients[c]));
                if i < before.signals.len() {
                    assert(after.signals[i] == before.signals[i]);
                    assert(before.state.retains(clients, c)
                        ==> before.state.clients.contains_key(c));
                } else {
                    let signal = sent[i - before.signals.len()];
                    assert(after.signals[i] == signal);
                    assert(before.state.revokes(clients, signal));
                    assert(after.state.clients.dom().contains(c));
                    assert(before.state.clients.contains_key(signal.credentials));
                }
            }
        },
    }
}

proof fn lemma_same_registrations(before: Running, after: Running)
    requires
        (exists|c: Seq<char>, p: Protocol|
            after.state == #[trigger] before.state.acquired(c, p)
                && before.state.clients.contains_key(c)) || (exists|
            c: Seq<char>,
            p: Protocol,
            g: u64,
        |
            after.state == #[trigger] before.state.released(c, p, g)),
    ensures
        forall|c: Seq<char>| #[trigger]
            after.state.clients.contains_key(c) <==> before.state.clients.contains_key(c),
        forall|c: Seq<char>| #[trigger]
            after.state.clients.contains_key(c) ==> after.state.clients[c].generation
                == before.state.clients[c].generation && after.state.clients[c].channel
                == before.state.clients[c].channel,
        after.state.next_generation == before.state.next_generation,
{
}

/// Where no list names anybody twice, every session either belongs to a client that is there, and
/// then it does not read otherwise, or it reads that its client was removed.
pub proof fn law_sessions_know_whether_their_client_is_there(
    before: Running,
    event: SessionEvent,
    after: Running,
)
    requires
        before.wf(),
        before.accounted(),
        happens(before, event, after),
        lists_nobody_twice(event),
    ensures
        after.accounted(),
        forall|i: int|
            0 <= i < after.sessions.len() ==> (after.is_current(#[trigger] after.sessions[i])
                <==> !after.is_told(after.sessions[i])),
{
    law_events_keep_the_counters_right(before, event, after);
    assert forall|i: int| 0 <= i < after.sessions.len() implies after.is_current(
        #[trigger] after.sessions[i],
    ) || after.is_told(after.sessions[i]) by {
        lemma_accounted(before, event, after, i);
    }
    assert forall|i: int| 0 <= i < after.sessions.len() implies (after.is_current(
        #[trigger] after.sessions[i],
    ) <==> !after.is_told(after.sessions[i])) by {
        if after.is_current(after.sessions[i]) {
            lemma_current_is_not_told(after, after.sessions[i]);
        }
    }
}

proof fn lemma_current_is_not_told(moment: Running, session: GuardState)
    requires
        moment.wf(),
        moment.is_current(session),
    ensures
        !moment.is_told(session),
{
    assert(moment.state.clients.contains_key(session.credentials));
    if moment.is_told(session) {
        let i = choose|i: int|
            0 <= i < moment.signals.len() && #[trigger] moment.signals[i].generation
                == session.generation && moment.signals[i].channel == session.channel
                && moment.signals[i].signalled;
        assert(moment.signals[i].generation
            != moment.state.clients[session.credentials].generation);
    }
}

proof fn lemma_accounted(before: Running, event: SessionEvent, after: Running, i: int)
    requires
        before.wf(),
        before.accounted(),
        happens(before, event, after),
        lists_nobody_twice(event),
        0 <= i < after.sessions.len(),
    ensures
        after.is_current(after.sessions[i]) || after.is_told(after.sessions[i]),
{
    let session = after.sessions[i];
    match event {
        SessionEvent::Start { credentials, protocol } => {
            if before.state.admits(credentials, protocol) {
                lemma_same_registrations(before, after);
                assert(after.state.clients.contains_key(session.credentials)
                    == before.state.clients.contains_key(session.credentials));
                if i < before.sessions.len() {
                    assert(session == before.sessions[i]);
                    lemma_still_told(before, after, session);
                } else {
                    assert(before.is_current(session));
                }
            } else {
                assert(session == before.sessions[i]);
            }
        },
        SessionEvent::End { session: ended } => {
            lemma_same_registrations(before, after);
            assert(after.state.clients.contains_key(session.credentials)
                == before.state.clients.contains_key(session.credentials));
            let k = if i < ended {
                i
            } else {
                i + 1
            };
            assert(session == before.sessions[k]);
            lemma_still_told(before, after, session);
        },
        SessionEvent::Reload { clients, default_max_http2, default_max_http3 } => {
            let sent = choose|sent: Seq<RevokedState>| #[trigger]
                before.state.reloads_to(
                    clients,
                    default_max_http2,
                    default_max_http3,
                    after.state,
                    sent,
                ) && after.signals == before.signals + sent;
            assert(session == before.sessions[i]);
            if before.is_told(session) {
                lemma_still_told(before, after, session);
            } else {
                assert(before.is_current(session));
                law_reload(
                    before.state,
                    clients,
                    default_max_http2,
                    default_max_http3,
                    after.state,
                    sent,
                    session.credentials,
                    session.protocol,
                );
                if !after.state.clients.contains_key(session.credentials) {
                    assert(before.state.clients.contains_key(session.credentials));
                    let k = choose|k: int|
                        0 <= k < sent.len() && #[trigger] sent[k].generation
                            == before.state.clients[session.credentials].generation
                            && sent[k].channel
                            == before.state.clients[session.credentials].channel
                            && sent[k].signalled;
                    assert(after.signals[before.signals.len() + k] == sent[k]);
                    assert(after.signals[before.signals.len() + k].generation
                        == session.generation);
                }
            }
        },
    }
}

proof fn lemma_still_told(before: Running, after: Running, session: GuardState)
    requires
        before.signals.len() <= after.signals.len(),
        after.signals.take(before.signals.len() as int) =~= before.signals,
    ensures
        before.is_told(session) ==> after.is_told(session),
{
    if before.is_told(session) {
        let i = choose|i: int|
            0 <= i < before.signals.len() && #[trigger] before.signals[i].generation
                == session.generation && before.signals[i].channel == session.channel
                && before.signals[i].signalled;
        assert(after.signals[i] == after.signals.take(before.signals.len() as int)[i]);
        assert(after.signals[i].generation == session.generation);
    }
}

/// A session whose client is named once by the list of every reload goes on: its client keeps the
/// registration, and the session does not read that its client was removed.
pub proof fn law_session_of_a_listed_client_goes_on(
    moments: Seq<Running>,
    events: Seq<SessionEvent>,
    session: GuardState,
)
    requires
        history(moments, events),
        moments[0].wf(),
        moments[0].is_current(session),
        forall|i: int|
            0 <= i < events.len() ==> lists_once(#[trigger] events[i], session.credentials),
    ensures
        moments.last().wf(),
        moments.last().is_current(session),
        !moments.last().is_told(session),
    decreases events.len(),
{
    let n = events.len() as int;
    if n > 0 {
        let earlier = moments.drop_last();
        let fewer = events.drop_last();
        assert forall|i: int|
            #![trigger fewer[i]]
            0 <= i < fewer.len() implies happens(earlier[i], fewer[i], earlier[i + 1]) by {
            assert(fewer[i] == events[i]);
        }
        assert forall|i: int| 0 <= i < fewer.len() implies lists_once(
            #[trigger] fewer[i],
            session.credentials,
        ) by {
            assert(fewer[i] == events[i]);
        }
        law_session_of_a_listed_client_goes_on(earlier, fewer, session);
        let (before, event, after) = (moments[n - 1], events[n - 1], moments[n]);
        assert(earlier.last() == before);
        assert(happens(before, event, after));
        assert(lists_once(event, session.credentials));
        law_events_keep_the_counters_right(before, event, after);
        lemma_stays_current(before, event, after, session);
    }
    lemma_current_is_not_told(moments.last(), session);
}

proof fn lemma_stays_current(
    before: Running,
    event: SessionEvent,
    after: Running,
    session: GuardState,
)
    requires
        happens(before, event, after),
        before.is_current(session),
        lists_once(event, session.credentials),
    ensures
        after.is_current(session),
{
    match event {
        SessionEvent::Start { credentials, protocol } => {
            if before.state.admits(credentials, protocol) {
                lemma_same_registrations(before, after);
                assert(after.state.clients.contains_key(session.credentials));
            }
        },
        SessionEvent::End { session: _ } => {
            lemma_same_registrations(before, after);
            assert(after.state.clients.contains_key(session.credentials));
        },
        SessionEvent::Reload { clients, default_max_http2, default_max_http3 } => {
            crate::connection_limiter::lemma_unlisted_never_occurs(clients, session.credentials);
            assert(after.state.clients.dom().contains(session.credentials));
            assert(after.state.clients.contains_key(session.credentials));
        },
    }
}

/// A session that ends frees one slot of its client and of its kind of protocol, and nothing else,
/// if it belongs to the present registration of the client; else it frees nothing.
pub proof fn law_ended_session_frees_its_slot(
    before: Running,
    session: int,
    after: Running,
    credentials: Seq<char>,
    protocol: Protocol,
)
    requires
        before.wf(),
        happens(before, SessionEvent::End { session }, after),
        before.state.clients.contains_key(credentials),
    ensures
        after.state.clients.contains_key(credentials),
        ({
            let ended = before.sessions[session];
            let freed = before.is_current(ended) && ended.credentials == credentials && (
            ended.protocol is Http3) == (protocol is Http3);
            &&& freed ==> before.state.clients[credentials].count(protocol) > 0
            &&& after.state.clients[credentials].count(protocol)
                == before.state.clients[credentials].count(protocol) - if freed {
                1int
            } else {
                0
            }
        }),
        !before.is_current(before.sessions[session]) ==> after.state == before.state,
{
    let ended = before.sessions[session];
    if before.is_current(ended) {
        crate::connection_limiter::lemma_running_session(before.sessions, session);
        assert(before.state.clients[ended.credentials].count(ended.protocol) > 0);
    }
}

/// What a session took it gives back: where its client was named once by the list of every reload
/// since the session started, its end frees one slot of that client and of that kind of protocol,
/// and changes no other count.
pub proof fn law_session_gives_back_what_it_took(
    start: Running,
    credentials: Seq<char>,
    protocol: Protocol,
    moments: Seq<Running>,
    events: Seq<SessionEvent>,
    session: int,
    end: Running,
    other: Seq<char>,
    kind: Protocol,
)
    requires
        start.wf(),
        start.state.admits(credentials, protocol),
        history(moments, events),
        happens(start, SessionEvent::Start { credentials, protocol }, moments[0]),
        forall|i: int| 0 <= i < events.len() ==> lists_once(#[trigger] events[i], credentials),
        happens(moments.last(), SessionEvent::End { session }, end),
        moments.last().sessions[session] == session_for(start.state, credentials, protocol),
        moments.last().state.clients.contains_key(other),
    ensures
        end.state.clients.contains_key(other),
        end.state.clients[other].count(kind) == moments.last().state.clients[other].count(kind)
            - if other == credentials && (kind is Http3) == (protocol is Http3) {
            1int
        } else {
            0
        },
{
    let taken = session_for(start.state, credentials, protocol);
    law_events_keep_the_counters_right(
        start,
        SessionEvent::Start { credentials, protocol },
        moments[0],
    );
    lemma_same_registrations(start, moments[0]);
    assert(moments[0].state.clients.contains_key(credentials));
    assert(moments[0].is_current(taken));
    law_session_of_a_listed_client_goes_on(moments, events, taken);
    law_ended_session_frees_its_slot(moments.last(), session, end, other, kind);
}

/// At every moment of a history that begins right, the counters are right; and where no list names
/// anybody twice, every session belongs to a client that is there, or reads that it is not.
pub proof fn law_counters_are_right_at_every_moment(
    moments: Seq<Running>,
    events: Seq<SessionEvent>,
    at: int,
)
    requires
        history(moments, events),
        moments[0].wf(),
        0 <= at < moments.len(),
    ensures
        moments[at].wf(),
        moments[0].accounted() && (forall|i: int|
            0 <= i < at ==> lists_nobody_twice(#[trigger] events[i])) ==> moments[at].accounted(),
    decreases at,
{
    if at > 0 {
        law_counters_are_right_at_every_moment(moments, events, at - 1);
        let (before, event, after) = (moments[at - 1], events[at - 1], moments[at]);
        assert(happens(before, event, after));
        law_events_keep_the_counters_right(before, event, after);
        if moments[0].accounted() && (forall|i: int|
            0 <= i < at ==> lists_nobody_twice(#[trigger] events[i])) {
            assert(lists_nobody_twice(event));
            law_sessions_know_whether_their_client_is_there(before, event, after);
        }
    }
}

} // verus!
