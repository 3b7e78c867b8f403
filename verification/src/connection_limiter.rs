//! Tracks authenticated client sessions, enforces limits, and signals revocation.

use crate::authentication::registry_based::Client;
use crate::authentication::Source;
use crate::protocol::Protocol;
use crate::revocation::{watch_channel, watch_receiver_clone, watch_send_replace, watch_subscribe};
use crate::table::Table;
use tokio::sync::watch;
use vstd::prelude::*;

verus! {

/// What the limiter knows of one client.
pub ghost struct ClientState {
    /// The client's own limit on HTTP/1 and HTTP/2 sessions, if it has one.
    pub max_http2: Option<u32>,
    /// The client's own limit on HTTP/3 sessions, if it has one.
    pub max_http3: Option<u32>,
    /// Running HTTP/1 and HTTP/2 sessions.
    pub http2_count: u32,
    /// Running HTTP/3 sessions.
    pub http3_count: u32,
    /// Which registration of the credentials this is.
    pub generation: u64,
    /// The channel on which its sessions learn that it was removed.
    pub channel: int,
    /// What that channel says: whether the client was removed.
    pub revoked: bool,
}

impl ClientState {
    pub open spec fn count(self, protocol: Protocol) -> u32 {
        if protocol is Http3 {
            self.http3_count
        } else {
            self.http2_count
        }
    }

    pub open spec fn own_limit(self, protocol: Protocol) -> Option<u32> {
        if protocol is Http3 {
            self.max_http3
        } else {
            self.max_http2
        }
    }

    pub open spec fn with_count(self, protocol: Protocol, count: u32) -> ClientState {
        if protocol is Http3 {
            ClientState { http3_count: count, ..self }
        } else {
            ClientState { http2_count: count, ..self }
        }
    }
}

/// What a limiter holds: its clients by credentials, and the limits of those without their own.
#[verifier::ext_equal]
pub ghost struct LimiterState {
    pub clients: Map<Seq<char>, ClientState>,
    pub default_max_http2: Option<u32>,
    pub default_max_http3: Option<u32>,
    /// No registration so far has this generation or a later one.
    pub next_generation: u64,
}

impl LimiterState {
    /// The limit for `credentials`: the client's own, or else the default.
    pub open spec fn limit(self, credentials: Seq<char>, protocol: Protocol) -> Option<u32> {
        match self.clients[credentials].own_limit(protocol) {
            Some(max) => Some(max),
            None => if protocol is Http3 {
                self.default_max_http3
            } else {
                self.default_max_http2
            },
        }
    }

    /// A session may start: the client is known and below its limit, if it has one.
    pub open spec fn admits(self, credentials: Seq<char>, protocol: Protocol) -> bool {
        &&& self.clients.contains_key(credentials)
        &&& match self.limit(credentials, protocol) {
            Some(max) => self.clients[credentials].count(protocol) < max,
            None => true,
        }
    }

    /// The counter of an unlimited client is at the end of its range.
    pub open spec fn exhausted(self, credentials: Seq<char>, protocol: Protocol) -> bool {
        &&& self.clients.contains_key(credentials)
        &&& self.limit(credentials, protocol) is None
        &&& self.clients[credentials].count(protocol) == u32::MAX
    }

    /// After a session has started.
    pub open spec fn acquired(self, credentials: Seq<char>, protocol: Protocol) -> LimiterState {
        let client = self.clients[credentials];
        LimiterState {
            clients: self.clients.insert(
                credentials,
                client.with_count(protocol, (client.count(protocol) + 1) as u32),
            ),
            ..self
        }
    }

    /// After a session of registration `generation` has ended.
    pub open spec fn released(
        self,
        credentials: Seq<char>,
        protocol: Protocol,
        generation: u64,
    ) -> LimiterState {
        let client = self.clients[credentials];
        if self.clients.contains_key(credentials) && client.generation == generation
            && client.count(protocol) > 0 {
            LimiterState {
                clients: self.clients.insert(
                    credentials,
                    client.with_count(protocol, (client.count(protocol) - 1) as u32),
                ),
                ..self
            }
        } else {
            self
        }
    }

    /// The client with these credentials lives through a reload with `clients`: it was there
    /// before, and the new list names it once.
    pub open spec fn retains(self, clients: Seq<Client>, credentials: Seq<char>) -> bool {
        self.clients.contains_key(credentials) && occurrences(clients, credentials) == 1
    }

    /// `next` is what a reload with `clients` makes of the client with these credentials.
    pub open spec fn reloads_client(
        self,
        clients: Seq<Client>,
        credentials: Seq<char>,
        next: ClientState,
    ) -> bool {
        let client = last_listed(clients, credentials);
        if self.retains(clients, credentials) {
            next == (ClientState {
                max_http2: client.max_http2_conns,
                max_http3: client.max_http3_conns,
                ..self.clients[credentials]
            })
        } else {
            &&& next.max_http2 == client.max_http2_conns
            &&& next.max_http3 == client.max_http3_conns
            &&& next.http2_count == 0
            &&& next.http3_count == 0
            &&& next.generation >= self.next_generation
            &&& !next.revoked
        }
    }

    /// `signal` was sent to the sessions of a client that a reload with `clients` removes.
    pub open spec fn revokes(self, clients: Seq<Client>, signal: RevokedState) -> bool {
        &&& self.clients.contains_key(signal.credentials)
        &&& !crate::authentication::registry_based::registry_of(clients).contains(
            signal.credentials,
        )
        &&& signal.generation == self.clients[signal.credentials].generation
        &&& signal.channel == self.clients[signal.credentials].channel
        &&& signal.signalled
    }

    /// What a reload with `clients` and these default limits makes of the state: `next`, and the
    /// signals that are sent.
    pub open spec fn reloads_to(
        self,
        clients: Seq<Client>,
        default_max_http2: Option<u32>,
        default_max_http3: Option<u32>,
        next: LimiterState,
        signals: Seq<RevokedState>,
    ) -> bool {
        &&& next.default_max_http2 == default_max_http2
        &&& next.default_max_http3 == default_max_http3
        &&& self.next_generation <= next.next_generation <= self.next_generation + clients.len()
        &&& next.clients.dom() == crate::authentication::registry_based::registry_of(clients)
        &&& forall|c: Seq<char>| #[trigger]
            next.clients.contains_key(c) ==> self.reloads_client(clients, c, next.clients[c])
        &&& forall|i: int| 0 <= i < signals.len() ==> self.revokes(clients, #[trigger] signals[i])
        &&& forall|c: Seq<char>| #[trigger]
            self.clients.contains_key(c)
                && !crate::authentication::registry_based::registry_of(clients).contains(c)
                ==> exists|i: int| 0 <= i < signals.len() && #[trigger] signals[i].credentials == c
        &&& forall|i: int, j: int|
            0 <= i < signals.len() && 0 <= j < signals.len() && i != j
                ==> #[trigger] signals[i].credentials != #[trigger] signals[j].credentials
    }

    /// Registrations are told apart by their generations, and nobody is told that a client was
    /// removed that is there.
    pub open spec fn wf(self) -> bool {
        &&& forall|c: Seq<char>| #[trigger]
            self.clients.contains_key(c) ==> !self.clients[c].revoked
        &&& forall|c: Seq<char>| #[trigger]
            self.clients.contains_key(c) ==> self.clients[c].generation < self.next_generation
        &&& forall|c: Seq<char>, d: Seq<char>| #[trigger]
            self.clients.contains_key(c) && #[trigger] self.clients.contains_key(d) && c != d
                ==> self.clients[c].generation != self.clients[d].generation
    }
}

struct ClientEntry {
    max_http2: Option<u32>,
    max_http3: Option<u32>,
    http2_count: u32,
    http3_count: u32,
    revoked: watch::Sender<bool>,
    generation: u64,
}

impl ClientEntry {
    spec fn state(&self) -> ClientState {
        ClientState {
            max_http2: self.max_http2,
            max_http3: self.max_http3,
            http2_count: self.http2_count,
            http3_count: self.http3_count,
            generation: self.generation,
            channel: crate::revocation::sender_channel(self.revoked),
            revoked: crate::revocation::sent_value(self.revoked),
        }
    }

    /// The entry of a client that has no session yet.
    fn new(client: &Client, generation: u64) -> (entry: ClientEntry)
        ensures
            entry.max_http2 == client.max_http2_conns,
            entry.max_http3 == client.max_http3_conns,
            entry.http2_count == 0,
            entry.http3_count == 0,
            entry.generation == generation,
            !crate::revocation::sent_value(entry.revoked),
    {
        let (revoked, _receiver) = watch_channel(false);
        ClientEntry {
            max_http2: client.max_http2_conns,
            max_http3: client.max_http3_conns,
            http2_count: 0,
            http3_count: 0,
            revoked,
            generation,
        }
    }
}

/// Tracks authenticated client sessions, enforces limits, and signals revocation.
pub struct ConnectionLimiter {
    clients: Table<String, ClientEntry>,
    default_max_http2: Option<u32>,
    default_max_http3: Option<u32>,
    next_generation: u64,
}

impl View for ConnectionLimiter {
    type V = LimiterState;

    closed spec fn view(&self) -> LimiterState {
        LimiterState {
            clients: self.clients@.map_values(|entry: ClientEntry| entry.state()),
            default_max_http2: self.default_max_http2,
            default_max_http3: self.default_max_http3,
            next_generation: self.next_generation,
        }
    }
}

/// The signal that was sent to the sessions of a client that is gone.
pub struct Revocation {
    creds: String,
    generation: u64,
    signal: watch::Sender<bool>,
}

/// What a sent signal stands for.
pub ghost struct RevokedState {
    pub credentials: Seq<char>,
    pub generation: u64,
    pub channel: int,
    /// Every session that listens on `channel` reads that it is revoked.
    pub signalled: bool,
}

impl View for Revocation {
    type V = RevokedState;

    closed spec fn view(&self) -> RevokedState {
        RevokedState {
            credentials: self.creds@,
            generation: self.generation,
            channel: crate::revocation::sender_channel(self.signal),
            signalled: crate::revocation::sent_value(self.signal),
        }
    }
}

/// A signal is sent exactly where its channel holds that it is, and it is known by the credentials
/// and the generation of the client that it is sent for.
proof fn law_signals_are_what_their_channels_hold(revocation: Revocation)
    ensures
        revocation@.signalled <==> crate::revocation::sent_value(revocation.signal),
        revocation@.channel == crate::revocation::sender_channel(revocation.signal),
        revocation@.generation == revocation.generation,
        revocation@.credentials == revocation.creds@,
{
}

/// A client is told that it was removed exactly where its channel holds that it was.
proof fn law_clients_are_told_by_their_channels(entry: ClientEntry)
    ensures
        entry.state().revoked <==> crate::revocation::sent_value(entry.revoked),
        entry.state().channel == crate::revocation::sender_channel(entry.revoked),
        entry.state().generation == entry.generation,
        entry.state().max_http2 == entry.max_http2,
        entry.state().max_http3 == entry.max_http3,
        entry.state().http2_count == entry.http2_count,
        entry.state().http3_count == entry.http3_count,
{
}

/// The signals that stand behind `revoked`.
pub open spec fn signals_of(revoked: Seq<Revocation>) -> Seq<RevokedState> {
    revoked.map_values(|signal: Revocation| signal@)
}

/// How many of `clients` have these credentials.
pub open spec fn occurrences(clients: Seq<Client>, credentials: Seq<char>) -> nat
    decreases clients.len(),
{
    if clients.len() == 0 {
        0
    } else {
        occurrences(clients.drop_last(), credentials) + if clients.last().credentials()
            == credentials {
            1nat
        } else {
            0nat
        }
    }
}

/// The last of `clients` with these credentials.
pub open spec fn last_listed(clients: Seq<Client>, credentials: Seq<char>) -> Client
    recommends
        occurrences(clients, credentials) > 0,
    decreases clients.len(),
{
    if clients.len() == 0 {
        arbitrary()
    } else if clients.last().credentials() == credentials {
        clients.last()
    } else {
        last_listed(clients.drop_last(), credentials)
    }
}

proof fn lemma_last_listed_of_longer_list(clients: Seq<Client>, i: int)
    requires
        0 <= i < clients.len(),
    ensures
        forall|c: Seq<char>| #[trigger]
            last_listed(clients.take(i + 1), c) == if clients[i].credentials() == c {
                clients[i]
            } else {
                last_listed(clients.take(i), c)
            },
{
    assert(clients.take(i + 1).drop_last() =~= clients.take(i));
}

proof fn lemma_occurrences_of_longer_list(clients: Seq<Client>, i: int)
    requires
        0 <= i < clients.len(),
    ensures
        forall|c: Seq<char>| #[trigger]
            occurrences(clients.take(i + 1), c) == occurrences(clients.take(i), c)
                + if clients[i].credentials() == c {
                1nat
            } else {
                0nat
            },
{
    assert(clients.take(i + 1).drop_last() =~= clients.take(i));
}

/// Credentials are in the registry exactly when some client has them.
pub proof fn lemma_unlisted_never_occurs(clients: Seq<Client>, credentials: Seq<char>)
    ensures
        crate::authentication::registry_based::registry_of(clients).contains(credentials)
            <==> occurrences(clients, credentials) > 0,
    decreases clients.len(),
{
    if clients.len() > 0 {
        let n = clients.len() - 1;
        lemma_unlisted_never_occurs(clients.drop_last(), credentials);
        crate::authentication::registry_based::lemma_registry_of_longer_list(clients, n);
        assert(clients.take(n) =~= clients.drop_last());
        assert(clients.take(n + 1) =~= clients);
    }
}

/// No two registrations share a generation.
spec fn distinct_generations(entries: Map<Seq<char>, ClientEntry>) -> bool {
    forall|c: Seq<char>, d: Seq<char>| #[trigger]
        entries.contains_key(c) && #[trigger] entries.contains_key(d) && c != d
            ==> entries[c].generation != entries[d].generation
}

/// `entry` has the limits of `client` and no session.
spec fn fresh_entry(entry: ClientEntry, client: Client) -> bool {
    &&& entry.max_http2 == client.max_http2_conns
    &&& entry.max_http3 == client.max_http3_conns
    &&& entry.http2_count == 0
    &&& entry.http3_count == 0
    &&& !crate::revocation::sent_value(entry.revoked)
}

/// `entry` is what becomes of `credentials` when `clients` replace those in `before`.
spec fn reloaded_entry(
    before: Map<Seq<char>, ClientEntry>,
    clients: Seq<Client>,
    credentials: Seq<char>,
    entry: ClientEntry,
    first: u64,
) -> bool {
    let client = last_listed(clients, credentials);
    if before.contains_key(credentials) && occurrences(clients, credentials) == 1 {
        entry == (ClientEntry {
            max_http2: client.max_http2_conns,
            max_http3: client.max_http3_conns,
            ..before[credentials]
        })
    } else {
        fresh_entry(entry, client) && entry.generation >= first
    }
}

/// A session that counts against the limit of its client.
pub struct ConnectionGuard {
    creds: String,
    protocol: Protocol,
    revoked: watch::Receiver<bool>,
    generation: u64,
}

/// Where a session stands that waits for its client to be removed.
#[derive(Debug, Clone, Copy, PartialEq, Eq, Structural)]
pub enum RevocationWait {
    /// Read what the channel holds.
    ReadValue,
    /// Wait until the channel changes or closes.
    AwaitChange,
    /// The client was removed.
    Revoked,
}

/// What a guard stands for.
pub ghost struct GuardState {
    pub credentials: Seq<char>,
    pub protocol: Protocol,
    pub generation: u64,
    /// The channel on which the session learns that its client was removed.
    pub channel: int,
}

impl View for ConnectionGuard {
    type V = GuardState;

    closed spec fn view(&self) -> GuardState {
        GuardState {
            credentials: self.creds@,
            protocol: self.protocol,
            generation: self.generation,
            channel: crate::revocation::receiver_channel(self.revoked),
        }
    }
}

impl ConnectionLimiter {
    pub closed spec fn wf(&self) -> bool {
        &&& self.clients.wf()
        &&& self@.wf()
        &&& forall|c: Seq<char>| #[trigger]
            self.clients@.contains_key(c) ==> !crate::revocation::sent_value(
                self.clients@[c].revoked,
            )
    }

    /// What is known of the state of a limiter.
    pub proof fn lemma_wf(&self)
        requires
            self.wf(),
        ensures
            self@.wf(),
    {
    }

    /// Creates a new ConnectionLimiter. Of clients with the same credentials the last one counts.
    pub fn new(
        clients: &[Client],
        default_max_http2: Option<u32>,
        default_max_http3: Option<u32>,
    ) -> (limiter: Self)
        ensures
            limiter.wf(),
            limiter@.default_max_http2 == default_max_http2,
            limiter@.default_max_http3 == default_max_http3,
            limiter@.clients.dom() == crate::authentication::registry_based::registry_of(clients@),
            forall|c: Seq<char>| #[trigger]
                limiter@.clients.contains_key(c) ==> {
                    &&& limiter@.clients[c].max_http2 == last_listed(clients@, c).max_http2_conns
                    &&& limiter@.clients[c].max_http3 == last_listed(clients@, c).max_http3_conns
                    &&& limiter@.clients[c].http2_count == 0
                    &&& limiter@.clients[c].http3_count == 0
                    &&& !limiter@.clients[c].revoked
                },
            limiter@.next_generation <= clients@.len(),
    {
        let mut table: Table<String, ClientEntry> = Table::new();
        let mut i: usize = 0;
        assert(table@.dom() =~= crate::authentication::registry_based::registry_of(clients@.take(0)));
        while i < clients.len()
            invariant
                i <= clients@.len(),
                table.wf(),
                table@.dom() == crate::authentication::registry_based::registry_of(
                    clients@.take(i as int),
                ),
                forall|c: Seq<char>| #[trigger]
                    table@.contains_key(c) ==> fresh_entry(
                        table@[c],
                        last_listed(clients@.take(i as int), c),
                    ) && table@[c].generation < i,
                distinct_generations(table@),
            decreases clients.len() - i,
        {
            let client = &clients[i];
            let credentials = client.encode_credentials();
            let entry = ClientEntry::new(client, i as u64);
            table.insert(credentials, entry);
            proof {
                crate::authentication::registry_based::lemma_registry_of_longer_list(
                    clients@,
                    i as int,
                );
                lemma_last_listed_of_longer_list(clients@, i as int);
            }
            i = i + 1;
        }
        proof {
            assert(clients@.take(i as int) =~= clients@);
        }
        let limiter = ConnectionLimiter {
            clients: table,
            default_max_http2,
            default_max_http3,
            next_generation: i as u64,
        };
        proof {
            assert(limiter@.clients.dom() =~= table@.dom());
        }
        limiter
    }

    /// Replaces the clients and the default limits.
    ///
    /// A client that stays keeps its sessions and its counters. The sessions of one that is
    /// gone are told so: the signals that were sent are handed back, one per such client.
    /// Credentials that are listed more than once start afresh.
    pub fn reload(
        &mut self,
        clients: &[Client],
        default_max_http2: Option<u32>,
        default_max_http3: Option<u32>,
    ) -> (revoked: Vec<Revocation>)
        requires
            old(self).wf(),
            old(self)@.next_generation + clients@.len() <= u64::MAX,
        ensures
            final(self).wf(),
            old(self)@.reloads_to(
                clients@,
                default_max_http2,
                default_max_http3,
                final(self)@,
                signals_of(revoked@),
            ),
    {
        let ghost before = self.clients@;
        let ghost first = self.next_generation;
        proof {
            assert forall|c: Seq<char>| #[trigger] before.contains_key(c) implies self@.clients.contains_key(c)
                && self@.clients[c] == before[c].state() by {
            }
        }
        let mut old_clients: Table<String, ClientEntry> = Table::new();
        std::mem::swap(&mut old_clients, &mut self.clients);
        let mut next: Table<String, ClientEntry> = Table::new();
        let mut next_generation: u64 = self.next_generation;
        let mut i: usize = 0;
        proof {
            let none = crate::authentication::registry_based::registry_of(clients@.take(0));
            assert(next@.dom() =~= none);
            assert(old_clients@ =~= before);
        }
        while i < clients.len()
            invariant
                i <= clients@.len(),
                next.wf(),
                old_clients.wf(),
                first <= next_generation <= first + i,
                first + clients@.len() <= u64::MAX,
                forall|c: Seq<char>| #[trigger]
                    before.contains_key(c) ==> before[c].generation < first
                        && !crate::revocation::sent_value(before[c].revoked),
                distinct_generations(before),
                next@.dom() == crate::authentication::registry_based::registry_of(
                    clients@.take(i as int),
                ),
                forall|c: Seq<char>| #[trigger]
                    old_clients@.contains_key(c) <==> before.contains_key(c) && !next@.contains_key(c),
                forall|c: Seq<char>| #[trigger]
                    old_clients@.contains_key(c) ==> old_clients@[c] == before[c],
                forall|c: Seq<char>| #[trigger]
                    next@.contains_key(c) ==> reloaded_entry(
                        before,
                        clients@.take(i as int),
                        c,
                        next@[c],
                        first,
                    ) && next@[c].generation < next_generation,
                distinct_generations(next@),
            decreases clients.len() - i,
        {
            let client = &clients[i];
            let credentials = client.encode_credentials();
            let ghost c0 = credentials@;
            proof {
                crate::authentication::registry_based::lemma_registry_of_longer_list(
                    clients@,
                    i as int,
                );
                lemma_last_listed_of_longer_list(clients@, i as int);
                lemma_occurrences_of_longer_list(clients@, i as int);
                lemma_unlisted_never_occurs(clients@.take(i as int), c0);
            }
            let ghost next_before = next@;
            let entry = match old_clients.remove(&credentials) {
                Some(entry) => {
                    let mut entry = entry;
                    entry.max_http2 = client.max_http2_conns;
                    entry.max_http3 = client.max_http3_conns;
                    entry
                },
                None => {
                    let entry = ClientEntry::new(client, next_generation);
                    next_generation = next_generation + 1;
                    entry
                },
            };
            next.insert(credentials, entry);
            i = i + 1;
        }
        proof {
            assert(clients@.take(i as int) =~= clients@);
        }
        let mut leftover = old_clients.into_entries();
        let ghost gone = leftover@;
        let mut revoked: Vec<Revocation> = Vec::new();
        while leftover.len() > 0
            invariant
                leftover@.len() + revoked@.len() == gone.len(),
                leftover@ == gone.take(leftover@.len() as int),
                forall|k: int|
                    0 <= k < revoked@.len() ==> {
                        let entry = gone[gone.len() - 1 - k];
                        #[trigger] revoked@[k]@ == (RevokedState {
                            credentials: entry.0@,
                            generation: entry.1.generation,
                            channel: crate::revocation::sender_channel(entry.1.revoked),
                            signalled: true,
                        })
                    },
            decreases leftover@.len(),
        {
            if let Some((creds, entry)) = leftover.pop() {
                let mut entry = entry;
                watch_send_replace(&mut entry.revoked, true);
                revoked.push(
                    Revocation { creds, generation: entry.generation, signal: entry.revoked },
                );
            }
        }
        self.clients = next;
        self.default_max_http2 = default_max_http2;
        self.default_max_http3 = default_max_http3;
        self.next_generation = next_generation;
        proof {
            assert(self@.clients.dom() =~= next@.dom());
            assert forall|c: Seq<char>| #[trigger] self@.clients.contains_key(c) implies next@.contains_key(c)
                && self@.clients[c] == next@[c].state() && old(self)@.reloads_client(
                clients@,
                c,
                self@.clients[c],
            ) by {
                assert(next@.contains_key(c));
            }
            let signals = signals_of(revoked@);
            assert forall|k: int| 0 <= k < signals.len() implies old(self)@.revokes(
                clients@,
                #[trigger] signals[k],
            ) by {
                let entry = gone[gone.len() - 1 - k];
                assert(signals[k] == revoked@[k]@);
                assert(before.contains_key(entry.0@));
            }
            assert forall|c: Seq<char>| #[trigger] old(self)@.clients.contains_key(c)
                && !next@.contains_key(c) implies exists|i: int|
                0 <= i < signals.len() && #[trigger] signals[i].credentials == c by {
                assert(before.contains_key(c));
                assert(old_clients@.contains_key(c));
                let j = choose|j: int| 0 <= j < gone.len() && #[trigger] gone[j].0@ == c;
                assert(revoked@[gone.len() - 1 - j]@.credentials == c);
                assert(signals[gone.len() - 1 - j].credentials == c);
            }
            assert forall|i: int, j: int|
                0 <= i < signals.len() && 0 <= j < signals.len() && i != j implies
                #[trigger] signals[i].credentials != #[trigger] signals[j].credentials by {
                assert(signals[i] == revoked@[i]@);
                assert(signals[j] == revoked@[j]@);
                assert(gone[gone.len() - 1 - i].0@ != gone[gone.len() - 1 - j].0@);
            }
        }
        revoked
    }

    /// Try to acquire a connection slot for the given credentials and protocol.
    ///
    /// Returns `Some(guard)` on success; the slot is released with the guard.
    /// Returns `None` if the per-client limit is exceeded.
    /// Returns `None` for unknown credentials (should not happen after authentication).
    pub fn try_acquire(&mut self, creds: &str, protocol: Protocol) -> (guard: Option<ConnectionGuard>)
        requires
            old(self).wf(),
            !old(self)@.exhausted(creds@, protocol),
        ensures
            final(self).wf(),
            guard is Some <==> old(self)@.admits(creds@, protocol),
            guard is Some <==> old(self)@.clients.contains_key(creds@) && ({
                let client = old(self)@.clients[creds@];
                match protocol {
                    Protocol::Http3 => match (client.max_http3, old(self)@.default_max_http3) {
                        (Some(own), _) => client.http3_count < own,
                        (None, Some(default)) => client.http3_count < default,
                        (None, None) => true,
                    },
                    Protocol::Http1 | Protocol::Http2 => match (
                        client.max_http2,
                        old(self)@.default_max_http2,
                    ) {
                        (Some(own), _) => client.http2_count < own,
                        (None, Some(default)) => client.http2_count < default,
                        (None, None) => true,
                    },
                }
            }),
            guard is None ==> final(self)@ == old(self)@,
            guard matches Some(g) ==> {
                &&& final(self)@ == old(self)@.acquired(creds@, protocol)
                &&& g@ == (GuardState {
                    credentials: creds@,
                    protocol,
                    generation: old(self)@.clients[creds@].generation,
                    channel: old(self)@.clients[creds@].channel,
                })
            },
    {
        let default_max_http2 = self.default_max_http2;
        let default_max_http3 = self.default_max_http3;
        let key = creds.to_owned();
        let ghost before = self.clients@;
        let guard = match self.clients.get_mut(&key) {
            None => None,
            Some(entry) => {
                let (current, limit): (u32, Option<u32>) = match protocol {
                    Protocol::Http1 | Protocol::Http2 => (
                        entry.http2_count,
                        if entry.max_http2.is_some() { entry.max_http2 } else { default_max_http2 },
                    ),
                    Protocol::Http3 => (
                        entry.http3_count,
                        if entry.max_http3.is_some() { entry.max_http3 } else { default_max_http3 },
                    ),
                };
                if let Some(max) = limit {
                    if current >= max {
                        proof {
                            assert(before.insert(key@, before[key@]) =~= before);
                        }
                        return None;
                    }
                }
                match protocol {
                    Protocol::Http1 | Protocol::Http2 => {
                        entry.http2_count = current + 1;
                    },
                    Protocol::Http3 => {
                        entry.http3_count = current + 1;
                    },
                }
                let revoked = watch_subscribe(&entry.revoked);
                let generation = entry.generation;
                Some(ConnectionGuard { creds: key, protocol, revoked, generation })
            },
        };
        proof {
            assert(self@.clients.dom() =~= old(self)@.clients.dom());
            if guard is Some {
                assert(self@.clients =~= old(self)@.acquired(creds@, protocol).clients);
            }
            assert forall|c: Seq<char>| #[trigger] self@.clients.contains_key(c) implies
                self@.clients[c].generation == old(self)@.clients[c].generation && self.clients@.contains_key(c)
                && self.clients@[c].revoked == before[c].revoked by {
            }
            assert forall|c: Seq<char>| #[trigger] self.clients@.contains_key(c) implies
                !crate::revocation::sent_value(self.clients@[c].revoked) by {
                assert(before.contains_key(c));
            }
            assert(self@.wf());
        }
        guard
    }

    /// Gives back the slot of a session of registration `generation`. A session of an earlier
    /// registration of the same credentials has no slot to give back.
    pub fn release(&mut self, creds: &str, protocol: Protocol, generation: u64)
        requires
            old(self).wf(),
        ensures
            final(self).wf(),
            final(self)@ == old(self)@.released(creds@, protocol, generation),
    {
        let key = creds.to_owned();
        let ghost before = self.clients@;
        if let Some(entry) = self.clients.get_mut(&key) {
            if entry.generation == generation {
                match protocol {
                    Protocol::Http1 | Protocol::Http2 => {
                        entry.http2_count = entry.http2_count.saturating_sub(1);
                    },
                    Protocol::Http3 => {
                        entry.http3_count = entry.http3_count.saturating_sub(1);
                    },
                }
            }
        }
        proof {
            assert(self@.clients.dom() =~= old(self)@.clients.dom());
            assert(self@.clients =~= old(self)@.released(creds@, protocol, generation).clients);
            assert forall|c: Seq<char>| #[trigger] self@.clients.contains_key(c) implies
                self@.clients[c].generation == old(self)@.clients[c].generation
                && self.clients@.contains_key(c) && self.clients@[c].revoked == before[c].revoked by {
            }
            assert forall|c: Seq<char>| #[trigger] self.clients@.contains_key(c) implies
                !crate::revocation::sent_value(self.clients@[c].revoked) by {
                assert(before.contains_key(c));
            }
            assert(self@.wf());
        }
    }

    /// Whether the counter of an unlimited client has no room for one more session.
    pub fn is_exhausted(&self, creds: &str, protocol: Protocol) -> (exhausted: bool)
        requires
            self.wf(),
        ensures
            exhausted == self@.exhausted(creds@, protocol),
            exhausted <==> self@.clients.contains_key(creds@) && ({
                let client = self@.clients[creds@];
                match protocol {
                    Protocol::Http3 => client.max_http3 is None && self@.default_max_http3 is None
                        && client.http3_count == u32::MAX,
                    Protocol::Http1 | Protocol::Http2 => client.max_http2 is None
                        && self@.default_max_http2 is None && client.http2_count == u32::MAX,
                }
            }),
    {
        match self.clients.get(&creds.to_owned()) {
            None => false,
            Some(entry) => match protocol {
                Protocol::Http1 | Protocol::Http2 => entry.max_http2.is_none()
                    && self.default_max_http2.is_none() && entry.http2_count == u32::MAX,
                Protocol::Http3 => entry.max_http3.is_none() && self.default_max_http3.is_none()
                    && entry.http3_count == u32::MAX,
            },
        }
    }

    /// Whether `clients` more registrations can be told apart from all earlier ones.
    pub fn can_register(&self, clients: usize) -> (can: bool)
        ensures
            can == (self@.next_generation + clients <= u64::MAX),
    {
        self.next_generation.checked_add(clients as u64).is_some()
    }
}

impl ConnectionGuard {
    /// Ends the session and gives its slot back.
    pub fn close(self, limiter: &mut ConnectionLimiter)
        requires
            old(limiter).wf(),
        ensures
            final(limiter).wf(),
            final(limiter)@ == old(limiter)@.released(
                self@.credentials,
                self@.protocol,
                self@.generation,
            ),
    {
        limiter.release(self.creds.as_str(), self.protocol, self.generation);
    }

    /// Whether the session belongs to the client that presents itself in `source`.
    pub fn matches_credentials(&self, source: &Source<'_>) -> (matches: bool)
        ensures
            matches == (self@.credentials == source.spec_credentials()),
    {
        self.creds == source.credentials().to_owned()
    }

    /// Where the session learns that its client was removed.
    pub fn revocation_receiver(&self) -> (receiver: watch::Receiver<bool>)
        ensures
            crate::revocation::receiver_channel(receiver) == self@.channel,
    {
        watch_receiver_clone(&self.revoked)
    }

    /// What to do while waiting for revocation, given what the channel holds: wait for a change
    /// as long as it does not say that the client was removed.
    pub fn wait_for_revocation(revoked: bool) -> (step: RevocationWait)
        ensures
            step == if revoked {
                RevocationWait::Revoked
            } else {
                RevocationWait::AwaitChange
            },
    {
        if revoked {
            RevocationWait::Revoked
        } else {
            RevocationWait::AwaitChange
        }
    }
}

impl RevocationWait {
    /// After waiting for a change: look at the value again, or, where the channel was closed,
    /// take the client for removed.
    pub fn on_change(changed: bool) -> (step: RevocationWait)
        ensures
            step == if changed {
                RevocationWait::ReadValue
            } else {
                RevocationWait::Revoked
            },
    {
        if changed {
            RevocationWait::ReadValue
        } else {
            RevocationWait::Revoked
        }
    }
}

/// Starting a session and ending it leaves no trace.
pub proof fn law_release_undoes_acquire(
    state: LimiterState,
    credentials: Seq<char>,
    protocol: Protocol,
)
    requires
        state.admits(credentials, protocol),
        !state.exhausted(credentials, protocol),
    ensures
        state.acquired(credentials, protocol).released(
            credentials,
            protocol,
            state.clients[credentials].generation,
        ) == state,
{
    let client = state.clients[credentials];
    let more = client.with_count(protocol, (client.count(protocol) + 1) as u32);
    assert(more.with_count(protocol, client.count(protocol)) == client);
    assert(state.clients.insert(credentials, more).insert(credentials, client) =~= state.clients);
}

/// HTTP/3 sessions do not count against the limit on HTTP/1 and HTTP/2 sessions, nor the other
/// way round.
pub proof fn law_counters_are_independent(
    state: LimiterState,
    credentials: Seq<char>,
    started: Protocol,
    asked: Protocol,
    asking: Seq<char>,
)
    requires
        state.clients.contains_key(credentials),
        (started is Http3) != (asked is Http3),
    ensures
        state.acquired(credentials, started).admits(asking, asked) == state.admits(asking, asked),
{
}

/// The sessions of one client do not count against the limit of another.
pub proof fn law_limits_are_per_client(
    state: LimiterState,
    credentials: Seq<char>,
    started: Protocol,
    asking: Seq<char>,
    asked: Protocol,
)
    requires
        state.clients.contains_key(credentials),
        asking != credentials,
    ensures
        state.acquired(credentials, started).admits(asking, asked) == state.admits(asking, asked),
        state.released(credentials, started, state.clients[credentials].generation).admits(
            asking,
            asked,
        ) == state.admits(asking, asked),
{
}

/// No client is above its limit.
pub open spec fn within_limits(state: LimiterState) -> bool {
    forall|c: Seq<char>, p: Protocol|
        #![trigger state.limit(c, p)]
        state.clients.contains_key(c) ==> match state.limit(c, p) {
            Some(max) => state.clients[c].count(p) <= max,
            None => true,
        }
}

/// Starting a session that may start, and ending one, never puts a client above its limit.
pub proof fn law_limits_are_kept(
    state: LimiterState,
    credentials: Seq<char>,
    protocol: Protocol,
    generation: u64,
)
    requires
        within_limits(state),
    ensures
        state.admits(credentials, protocol) && !state.exhausted(credentials, protocol)
            ==> within_limits(state.acquired(credentials, protocol)),
        within_limits(state.released(credentials, protocol, generation)),
{
    if state.admits(credentials, protocol) && !state.exhausted(credentials, protocol) {
        let after = state.acquired(credentials, protocol);
        assert forall|c: Seq<char>, p: Protocol|
            #![trigger after.limit(c, p)]
            after.clients.contains_key(c) implies match after.limit(c, p) {
            Some(max) => after.clients[c].count(p) <= max,
            None => true,
        } by {
            assert(state.limit(c, p) == after.limit(c, p));
        }
    }
    let after = state.released(credentials, protocol, generation);
    assert forall|c: Seq<char>, p: Protocol|
        #![trigger after.limit(c, p)]
        after.clients.contains_key(c) implies match after.limit(c, p) {
        Some(max) => after.clients[c].count(p) <= max,
        None => true,
    } by {
        assert(state.limit(c, p) == after.limit(c, p));
    }
}

/// A session is told that its client was removed exactly when the new list does not name the
/// client, and it is told once.
pub proof fn law_reload_revokes_the_removed(
    before: LimiterState,
    clients: Seq<Client>,
    revoked: Seq<RevokedState>,
    guard: GuardState,
)
    requires
        before.wf(),
        before.clients.contains_key(guard.credentials),
        before.clients[guard.credentials].generation == guard.generation,
        before.clients[guard.credentials].channel == guard.channel,
        forall|i: int| 0 <= i < revoked.len() ==> before.revokes(clients, #[trigger] revoked[i]),
        forall|c: Seq<char>| #[trigger]
            before.clients.contains_key(c)
                && !crate::authentication::registry_based::registry_of(clients).contains(c)
                ==> exists|i: int| 0 <= i < revoked.len() && #[trigger] revoked[i].credentials == c,
    ensures
        (exists|i: int|
            0 <= i < revoked.len() && #[trigger] revoked[i].generation == guard.generation
                && revoked[i].channel == guard.channel && revoked[i].signalled)
            <==> !crate::authentication::registry_based::registry_of(clients).contains(
            guard.credentials,
        ),
{
    if !crate::authentication::registry_based::registry_of(clients).contains(guard.credentials) {
        let i = choose|i: int|
            0 <= i < revoked.len() && #[trigger] revoked[i].credentials == guard.credentials;
        assert(before.revokes(clients, revoked[i]));
        assert(revoked[i].generation == guard.generation);
    }
    if exists|i: int|
        0 <= i < revoked.len() && #[trigger] revoked[i].generation == guard.generation
            && revoked[i].channel == guard.channel && revoked[i].signalled {
        let i = choose|i: int|
            0 <= i < revoked.len() && #[trigger] revoked[i].generation == guard.generation
                && revoked[i].channel == guard.channel && revoked[i].signalled;
        assert(before.revokes(clients, revoked[i]));
    }
}

/// A client that a reload keeps has the same sessions running as before.
pub proof fn law_reload_keeps_the_sessions_of_retained_clients(
    before: LimiterState,
    clients: Seq<Client>,
    credentials: Seq<char>,
    protocol: Protocol,
    next: ClientState,
)
    requires
        before.retains(clients, credentials),
        before.reloads_client(clients, credentials, next),
    ensures
        next.count(protocol) == before.clients[credentials].count(protocol),
        next.generation == before.clients[credentials].generation,
        next.channel == before.clients[credentials].channel,
{
}

/// A session that outlived the removal of its client takes no slot away from the client that
/// comes back under the same credentials.
pub proof fn law_stale_session_releases_nothing(
    before: LimiterState,
    clients: Seq<Client>,
    after: LimiterState,
    guard: GuardState,
)
    requires
        guard.generation < before.next_generation,
        !before.retains(clients, guard.credentials),
        after.clients.contains_key(guard.credentials) ==> before.reloads_client(
            clients,
            guard.credentials,
            after.clients[guard.credentials],
        ),
    ensures
        after.released(guard.credentials, guard.protocol, guard.generation) == after,
{
}

/// How many of `sessions` belong to that registration of a client and speak HTTP/3, or else do not.
pub open spec fn running(
    sessions: Seq<GuardState>,
    credentials: Seq<char>,
    generation: u64,
    http3: bool,
) -> nat
    decreases sessions.len(),
{
    if sessions.len() == 0 {
        0
    } else {
        let last = sessions.last();
        running(sessions.drop_last(), credentials, generation, http3) + if last.credentials
            == credentials && last.generation == generation && (last.protocol is Http3) == http3 {
            1nat
        } else {
            0nat
        }
    }
}

/// The counters say how many sessions are running, where `sessions` are all of them.
pub open spec fn counts_sessions(state: LimiterState, sessions: Seq<GuardState>) -> bool {
    &&& state.wf()
    &&& forall|i: int|
        0 <= i < sessions.len() ==> (#[trigger] sessions[i]).generation < state.next_generation
    &&& forall|c: Seq<char>, p: Protocol|
        #![trigger state.clients[c].count(p)]
        state.clients.contains_key(c) ==> state.clients[c].count(p) == running(
            sessions,
            c,
            state.clients[c].generation,
            p is Http3,
        )
}

proof fn lemma_running_without(
    sessions: Seq<GuardState>,
    i: int,
    credentials: Seq<char>,
    generation: u64,
    http3: bool,
)
    requires
        0 <= i < sessions.len(),
    ensures
        running(sessions, credentials, generation, http3) == running(
            sessions.remove(i),
            credentials,
            generation,
            http3,
        ) + running(seq![sessions[i]], credentials, generation, http3),
    decreases sessions.len(),
{
    reveal_with_fuel(running, 2);
    let n = sessions.len() - 1;
    if i == n {
        assert(sessions.remove(i) =~= sessions.drop_last());
    } else {
        lemma_running_without(sessions.drop_last(), i, credentials, generation, http3);
        assert(sessions.remove(i).drop_last() =~= sessions.drop_last().remove(i));
        assert(sessions.remove(i).last() == sessions.last());
    }
}

/// A session that is running is counted for its registration.
pub proof fn lemma_running_session(sessions: Seq<GuardState>, i: int)
    requires
        0 <= i < sessions.len(),
    ensures
        running(
            sessions,
            sessions[i].credentials,
            sessions[i].generation,
            sessions[i].protocol is Http3,
        ) > 0,
{
    let session = sessions[i];
    reveal_with_fuel(running, 2);
    lemma_running_without(
        sessions,
        i,
        session.credentials,
        session.generation,
        session.protocol is Http3,
    );
}

proof fn lemma_none_running(
    sessions: Seq<GuardState>,
    credentials: Seq<char>,
    generation: u64,
    http3: bool,
)
    requires
        forall|i: int|
            0 <= i < sessions.len() ==> (#[trigger] sessions[i]).generation != generation,
    ensures
        running(sessions, credentials, generation, http3) == 0,
    decreases sessions.len(),
{
    if sessions.len() > 0 {
        assert(sessions[sessions.len() - 1].generation != generation);
        assert forall|i: int| 0 <= i < sessions.len() - 1 implies (
        #[trigger] sessions.drop_last()[i]).generation != generation by {
            assert(sessions.drop_last()[i] == sessions[i]);
        }
        lemma_none_running(sessions.drop_last(), credentials, generation, http3);
    }
}

/// A session that starts is counted.
pub proof fn law_started_session_is_counted(
    state: LimiterState,
    sessions: Seq<GuardState>,
    guard: GuardState,
)
    requires
        counts_sessions(state, sessions),
        state.admits(guard.credentials, guard.protocol),
        !state.exhausted(guard.credentials, guard.protocol),
        guard.generation == state.clients[guard.credentials].generation,
    ensures
        counts_sessions(state.acquired(guard.credentials, guard.protocol), sessions.push(guard)),
{
    let after = state.acquired(guard.credentials, guard.protocol);
    let more = sessions.push(guard);
    assert(more.drop_last() =~= sessions);
    assert forall|c: Seq<char>| #[trigger] after.clients.contains_key(c) implies
        state.clients.contains_key(c) && after.clients[c].generation
        == state.clients[c].generation by {
    }
    assert forall|i: int| 0 <= i < more.len() implies (#[trigger] more[i]).generation
        < after.next_generation by {
        if i < sessions.len() {
            assert(more[i] == sessions[i]);
        }
    }
    assert forall|c: Seq<char>, p: Protocol|
        #![trigger after.clients[c].count(p)]
        after.clients.contains_key(c) implies after.clients[c].count(p) == running(
        more,
        c,
        after.clients[c].generation,
        p is Http3,
    ) by {
        assert(state.clients[c].count(p) == running(
            sessions,
            c,
            state.clients[c].generation,
            p is Http3,
        ));
    }
}

/// A session that ends is no longer counted, and no other is taken for it.
pub proof fn law_ended_session_is_no_longer_counted(
    state: LimiterState,
    sessions: Seq<GuardState>,
    i: int,
)
    requires
        counts_sessions(state, sessions),
        0 <= i < sessions.len(),
    ensures
        counts_sessions(
            state.released(
                sessions[i].credentials,
                sessions[i].protocol,
                sessions[i].generation,
            ),
            sessions.remove(i),
        ),
{
    let guard = sessions[i];
    let after = state.released(guard.credentials, guard.protocol, guard.generation);
    let fewer = sessions.remove(i);
    reveal_with_fuel(running, 2);
    assert forall|c: Seq<char>| #[trigger] after.clients.contains_key(c) implies
        state.clients.contains_key(c) && after.clients[c].generation
        == state.clients[c].generation by {
    }
    assert forall|k: int| 0 <= k < fewer.len() implies (#[trigger] fewer[k]).generation
        < after.next_generation by {
        assert(fewer[k] == sessions[if k < i { k } else { k + 1 }]);
    }
    assert(seq![guard].drop_last() =~= Seq::empty());
    if state.clients.contains_key(guard.credentials)
        && state.clients[guard.credentials].generation == guard.generation {
        lemma_running_without(
            sessions,
            i,
            guard.credentials,
            guard.generation,
            guard.protocol is Http3,
        );
        assert(state.clients[guard.credentials].count(guard.protocol) > 0);
    }
    assert forall|c: Seq<char>, p: Protocol|
        #![trigger after.clients[c].count(p)]
        after.clients.contains_key(c) implies after.clients[c].count(p) == running(
        fewer,
        c,
        after.clients[c].generation,
        p is Http3,
    ) by {
        let generation = state.clients[c].generation;
        assert(state.clients[c].count(p) == running(sessions, c, generation, p is Http3));
        lemma_running_without(sessions, i, c, generation, p is Http3);
    }
}

/// A reload leaves the counters right: those of the clients that stay count the sessions that go
/// on, and those of the others start without any.
pub proof fn law_reload_keeps_the_counters_right(
    before: LimiterState,
    clients: Seq<Client>,
    after: LimiterState,
    sessions: Seq<GuardState>,
)
    requires
        counts_sessions(before, sessions),
        after.wf(),
        after.next_generation >= before.next_generation,
        forall|c: Seq<char>| #[trigger]
            after.clients.contains_key(c) ==> before.reloads_client(clients, c, after.clients[c]),
    ensures
        counts_sessions(after, sessions),
{
    assert forall|c: Seq<char>, p: Protocol|
        #![trigger after.clients[c].count(p)]
        after.clients.contains_key(c) implies after.clients[c].count(p) == running(
        sessions,
        c,
        after.clients[c].generation,
        p is Http3,
    ) by {
        assert(before.reloads_client(clients, c, after.clients[c]));
        if before.retains(clients, c) {
            assert(before.clients[c].count(p) == running(
                sessions,
                c,
                before.clients[c].generation,
                p is Http3,
            ));
        } else {
            lemma_none_running(sessions, c, after.clients[c].generation, p is Http3);
        }
    }
}

/// What the limits mean: where the counters are right and within the limits, no client has more
/// sessions running than it may.
pub proof fn law_no_client_runs_more_sessions_than_it_may(
    state: LimiterState,
    sessions: Seq<GuardState>,
    credentials: Seq<char>,
    protocol: Protocol,
)
    requires
        counts_sessions(state, sessions),
        within_limits(state),
        state.clients.contains_key(credentials),
    ensures
        state.limit(credentials, protocol) matches Some(max) ==> running(
            sessions,
            credentials,
            state.clients[credentials].generation,
            protocol is Http3,
        ) <= max,
{
    assert(state.clients[credentials].count(protocol) == running(
        sessions,
        credentials,
        state.clients[credentials].generation,
        protocol is Http3,
    ));
}

} // verus!
