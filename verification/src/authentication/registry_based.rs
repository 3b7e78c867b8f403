//! Authentication against the list of configured clients.

use crate::authentication::{Authenticator, Source, Status};
use vstd::hash_set::StringHashSet;
use vstd::prelude::*;

verus! {

/// A client descriptor
pub struct Client {
    /// The client username
    pub username: String,
    /// The client password
    pub password: String,
    /// Maximum number of simultaneous HTTP/1 and HTTP/2 connections for this client.
    /// Overrides `default_max_http2_conns_per_client` from the main config.
    /// If absent, the global default applies (or unlimited if no default is set).
    pub max_http2_conns: Option<u32>,
    /// Maximum number of simultaneous HTTP/3 (QUIC) connections for this client.
    /// Overrides `default_max_http3_conns_per_client` from the main config.
    /// If absent, the global default applies (or unlimited if no default is set).
    pub max_http3_conns: Option<u32>,
}

/// The credentials of the clients in `clients`.
pub open spec fn registry_of(clients: Seq<Client>) -> Set<Seq<char>> {
    Set::new(
        |credentials: Seq<char>|
            exists|i: int|
                0 <= i < clients.len() && credentials == #[trigger] clients[i].credentials(),
    )
}

/// Listing one client more adds its credentials to the registry.
pub proof fn lemma_registry_of_longer_list(clients: Seq<Client>, i: int)
    requires
        0 <= i < clients.len(),
    ensures
        registry_of(clients.take(i + 1)) == registry_of(clients.take(i)).insert(
            clients[i].credentials(),
        ),
{
    let shorter = clients.take(i);
    let longer = clients.take(i + 1);
    assert forall|c: Seq<char>| registry_of(shorter).contains(c) implies registry_of(
        longer,
    ).contains(c) by {
        let j = choose|j: int| 0 <= j < shorter.len() && c == #[trigger] shorter[j].credentials();
        assert(longer[j] == shorter[j]);
    }
    assert(longer[i] == clients[i]);
    assert forall|c: Seq<char>| registry_of(longer).contains(c) implies registry_of(
        shorter,
    ).insert(clients[i].credentials()).contains(c) by {
        let j = choose|j: int| 0 <= j < longer.len() && c == #[trigger] longer[j].credentials();
        if j < i {
            assert(shorter[j] == longer[j]);
        }
    }
    assert(registry_of(longer) =~= registry_of(shorter).insert(clients[i].credentials()));
}

/// One of `clients` has `text` as its `username:password`.
pub open spec fn lists_text(clients: Seq<Client>, text: Seq<char>) -> bool {
    exists|i: int| 0 <= i < clients.len() && text == #[trigger] clients[i].basic_text()
}

/// The [`Authenticator`] implementation which checks presence of a client in the list.
/// Is only able to authenticate a client using the Proxy basic authorization.
pub struct RegistryBasedAuthenticator {
    clients: StringHashSet,
}

impl View for RegistryBasedAuthenticator {
    type V = Set<Seq<char>>;

    /// The credentials that pass.
    closed spec fn view(&self) -> Set<Seq<char>> {
        self.clients@
    }
}

impl RegistryBasedAuthenticator {
    /// Whether a client that presents `credentials` by Proxy basic authorization is let in.
    pub open spec fn accepts(&self, credentials: Seq<char>) -> bool {
        self@.contains(credentials)
    }

    /// An authenticator that lets in the clients of the list and nobody else: credentials
    /// pass exactly when they encode the `username:password` of a listed client.
    pub fn new(clients: &[Client]) -> (authenticator: Self)
        ensures
            authenticator@ == registry_of(clients@),
            forall|text: Seq<char>| #[trigger]
                authenticator@.contains(crate::credentials::base64_text(text)) <==> lists_text(
                    clients@,
                    text,
                ),
    {
        RegistryBasedAuthenticator { clients: Self::encode_clients(clients) }
    }

    fn encode_clients(clients: &[Client]) -> (registry: StringHashSet)
        ensures
            registry@ == registry_of(clients@),
            forall|text: Seq<char>| #[trigger]
                registry@.contains(crate::credentials::base64_text(text)) <==> lists_text(
                    clients@,
                    text,
                ),
    {
        let mut registry = StringHashSet::new();
        let mut i: usize = 0;
        assert(registry@ =~= registry_of(clients@.take(0)));
        while i < clients.len()
            invariant
                i <= clients@.len(),
                registry@ == registry_of(clients@.take(i as int)),
                forall|j: int|
                    0 <= j < i ==> crate::credentials::encodes_uniquely(
                        #[trigger] clients@[j].basic_text(),
                    ),
            decreases clients.len() - i,
        {
            let credentials = clients[i].encode_credentials();
            registry.insert(credentials);
            proof {
                lemma_registry_of_longer_list(clients@, i as int);
            }
            i = i + 1;
        }
        proof {
            assert(clients@.take(i as int) =~= clients@);
            assert forall|text: Seq<char>| #[trigger]
                registry@.contains(crate::credentials::base64_text(text)) implies lists_text(
                clients@,
                text,
            ) by {
                let j = choose|j: int|
                    0 <= j < clients@.len() && crate::credentials::base64_text(text)
                        == #[trigger] clients@[j].credentials();
                assert(clients@[j].basic_text() == text);
            }
            assert forall|text: Seq<char>| lists_text(clients@, text) implies #[trigger]
                registry@.contains(crate::credentials::base64_text(text)) by {
                let j = choose|j: int|
                    0 <= j < clients@.len() && text == #[trigger] clients@[j].basic_text();
                assert(clients@[j].credentials() == crate::credentials::base64_text(text));
            }
        }
        registry
    }
}

impl Authenticator for RegistryBasedAuthenticator {
    fn authenticate(&self, source: &Source<'_>) -> (status: Status)
        ensures
            status == Status::Pass <==> source is ProxyBasic && self.accepts(
                source.spec_credentials(),
            ),
            status == Status::Reject <==> source is Sni || !self.accepts(
                source.spec_credentials(),
            ),
    {
        match source {
            Source::Sni(_) => Status::Reject,
            Source::ProxyBasic(_) => {
                if self.clients.contains(source.credentials()) {
                    Status::Pass
                } else {
                    Status::Reject
                }
            },
        }
    }

    fn uses_client_registry(&self) -> (uses: bool)
        ensures
            uses,
    {
        true
    }

    fn reload_clients(&mut self, clients: &[Client])
        ensures
            final(self)@ == registry_of(clients@),
            forall|text: Seq<char>| #[trigger]
                final(self)@.contains(crate::credentials::base64_text(text)) <==> lists_text(
                    clients@,
                    text,
                ),
    {
        self.clients = Self::encode_clients(clients);
    }
}

/// An empty registry lets nobody in.
pub proof fn law_empty_registry_rejects_everyone(
    authenticator: RegistryBasedAuthenticator,
    credentials: Seq<char>,
)
    requires
        authenticator@ == registry_of(Seq::<Client>::empty()),
    ensures
        !authenticator.accepts(credentials),
{
}

/// Every client of the list is let in, wherever in the list it stands.
pub proof fn law_listed_clients_pass(
    authenticator: RegistryBasedAuthenticator,
    clients: Seq<Client>,
    i: int,
)
    requires
        authenticator@ == registry_of(clients),
        0 <= i < clients.len(),
    ensures
        authenticator.accepts(clients[i].credentials()),
{
    assert(clients[i].credentials() == clients[i].credentials());
}

/// Who is let in depends on the last list alone: what was listed before a reload does not matter.
pub proof fn law_reload_replaces_the_registry(
    reloaded: RegistryBasedAuthenticator,
    fresh: RegistryBasedAuthenticator,
    clients: Seq<Client>,
    credentials: Seq<char>,
)
    requires
        reloaded@ == registry_of(clients),
        fresh@ == registry_of(clients),
    ensures
        reloaded.accepts(credentials) == fresh.accepts(credentials),
        reloaded.accepts(credentials) <==> exists|i: int|
            0 <= i < clients.len() && credentials == #[trigger] clients[i].credentials(),
{
}

} // verus!
