//! What clients present, and whom that lets in.

use crate::authentication::registry_based::{Client, RegistryBasedAuthenticator};
use crate::authentication::Source;
use std::borrow::Cow;
use vstd::prelude::*;

verus! {

/// A client presents the base64 form of its name, a colon and its password.
pub proof fn law_what_a_client_presents(client: Client)
    ensures
        ({
            let (name, password) = (client.username@, client.password@);
            let text = client.basic_text();
            &&& text.len() == name.len() + 1 + password.len()
            &&& text.take(name.len() as int) == name
            &&& text[name.len() as int] == ':'
            &&& text.skip(name.len() as int + 1) == password
            &&& client.credentials() == crate::credentials::base64_text(
                name + seq![':'] + password,
            )
        }),
{
    let (name, password) = (client.username@, client.password@);
    let text = client.basic_text();
    assert(text.take(name.len() as int) =~= name);
    assert(text.skip(name.len() as int + 1) =~= password);
    assert(text =~= name + seq![':'] + password);
}

/// Credentials are in the registry exactly where they are the base64 form of the name, a colon and
/// the password of some client of the list.
pub proof fn law_what_the_registry_holds(clients: Seq<Client>, credentials: Seq<char>)
    ensures
        crate::authentication::registry_based::registry_of(clients).contains(credentials)
            <==> exists|i: int|
            #![trigger clients[i]]
            0 <= i < clients.len() && credentials == crate::credentials::base64_text(
                clients[i].username@ + seq![':'] + clients[i].password@,
            ),
{
    if crate::authentication::registry_based::registry_of(clients).contains(credentials) {
        let i = choose|i: int|
            0 <= i < clients.len() && credentials == #[trigger] clients[i].credentials();
        law_what_a_client_presents(clients[i]);
    }
    if exists|i: int|
        #![trigger clients[i]]
        0 <= i < clients.len() && credentials == crate::credentials::base64_text(
            clients[i].username@ + seq![':'] + clients[i].password@,
        ) {
        let i = choose|i: int|
            #![trigger clients[i]]
            0 <= i < clients.len() && credentials == crate::credentials::base64_text(
                clients[i].username@ + seq![':'] + clients[i].password@,
            );
        law_what_a_client_presents(clients[i]);
        assert(credentials == clients[i].credentials());
    }
}

/// A text is listed exactly where it is the name, a colon and the password of some client.
pub proof fn law_which_texts_are_listed(clients: Seq<Client>, text: Seq<char>)
    ensures
        crate::authentication::registry_based::lists_text(clients, text) <==> exists|i: int|
            #![trigger clients[i]]
            0 <= i < clients.len() && text == clients[i].username@ + seq![':']
                + clients[i].password@,
{
    if crate::authentication::registry_based::lists_text(clients, text) {
        let i = choose|i: int|
            0 <= i < clients.len() && text == #[trigger] clients[i].basic_text();
        assert(text =~= clients[i].username@ + seq![':'] + clients[i].password@);
    }
    if exists|i: int|
        #![trigger clients[i]]
        0 <= i < clients.len() && text == clients[i].username@ + seq![':'] + clients[i].password@ {
        let i = choose|i: int|
            #![trigger clients[i]]
            0 <= i < clients.len() && text == clients[i].username@ + seq![':']
                + clients[i].password@;
        assert(text =~= clients[i].basic_text());
    }
}

/// Whoever presents what stands in the registry is let in, and nobody else.
pub proof fn law_whom_an_authenticator_lets_in(
    authenticator: RegistryBasedAuthenticator,
    clients: Seq<Client>,
    credentials: Seq<char>,
)
    requires
        authenticator@ == crate::authentication::registry_based::registry_of(clients),
    ensures
        authenticator.accepts(credentials) <==> exists|i: int|
            #![trigger clients[i]]
            0 <= i < clients.len() && credentials == crate::credentials::base64_text(
                clients[i].username@ + seq![':'] + clients[i].password@,
            ),
{
    law_what_the_registry_holds(clients, credentials);
}

/// Whichever way a client comes, its credentials are the text that came with it.
pub proof fn law_credentials_are_what_came(source: Source<'_>, text: Cow<'_, str>)
    ensures
        source == Source::Sni(text) ==> source.spec_credentials() == text@,
        source == Source::ProxyBasic(text) ==> source.spec_credentials() == text@,
{
}

} // verus!
