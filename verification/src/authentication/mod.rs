//! Deciding whether a client may use the server.

pub mod registry_based;

use crate::authentication::registry_based::Client;
use std::borrow::Cow;
use vstd::prelude::*;

verus! {

/// Authentication request source
#[derive(PartialEq)]
pub enum Source<'this> {
    /// A client tries to authenticate using SNI
    Sni(Cow<'this, str>),
    /// A client tries to authenticate using
    /// [the basic authentication scheme](https://datatracker.ietf.org/doc/html/rfc7617)
    ProxyBasic(Cow<'this, str>),
}

impl<'this> Clone for Source<'this> {
    fn clone(&self) -> (copy: Self)
        ensures
            copy == *self,
    {
        match self {
            Source::Sni(x) => Source::Sni(copy_text(x)),
            Source::ProxyBasic(x) => Source::ProxyBasic(copy_text(x)),
        }
    }
}

fn copy_text<'a>(text: &Cow<'a, str>) -> (copy: Cow<'a, str>)
    ensures
        copy == *text,
{
    match text {
        Cow::Borrowed(x) => Cow::Borrowed(*x),
        Cow::Owned(x) => Cow::Owned(x.clone()),
    }
}

/// Authentication procedure status
#[derive(Clone, Copy, PartialEq, Eq, Structural)]
pub enum Status {
    /// Success
    Pass,
    /// Failure
    Reject,
}

/// The authenticator abstract interface
pub trait Authenticator: Send + Sync {
    /// Authenticate client
    fn authenticate(&self, source: &Source<'_>) -> Status;

    /// Whether this authenticator uses the clients from the endpoint settings.
    fn uses_client_registry(&self) -> (uses: bool)
        default_ensures
            !uses,
    {
        false
    }

    /// Replace the clients used by this authenticator.
    fn reload_clients(&mut self, _clients: &[Client])
        default_ensures
            &*final(self) == &*old(self),
    {
    }
}

impl Source<'_> {
    /// The credentials that the client presented.
    pub open spec fn spec_credentials(&self) -> Seq<char> {
        match self {
            Source::Sni(x) => x@,
            Source::ProxyBasic(x) => x@,
        }
    }

    /// The credentials that the client presented, whichever way it did.
    pub fn credentials(&self) -> (credentials: &str)
        ensures
            credentials@ == self.spec_credentials(),
    {
        let presented = match self {
            Source::Sni(x) => x,
            Source::ProxyBasic(x) => x,
        };
        match presented {
            Cow::Borrowed(x) => x,
            Cow::Owned(x) => x.as_str(),
        }
    }

    /// The same source, detached from what it was borrowed from.
    pub fn into_owned(self) -> (owned: Source<'static>)
        ensures
            owned.spec_credentials() == self.spec_credentials(),
            self is Sni <==> (owned matches Source::Sni(Cow::Owned(_))),
            self is ProxyBasic <==> (owned matches Source::ProxyBasic(Cow::Owned(_))),
    {
        match self {
            Source::Sni(x) => Source::Sni(Cow::Owned(owned_text(x))),
            Source::ProxyBasic(x) => Source::ProxyBasic(Cow::Owned(owned_text(x))),
        }
    }

    /// How the source is shown in diagnostics: which way the client came, without its
    /// credentials.
    pub fn debug_text(&self) -> (shown: String)
        ensures
            self is Sni ==> shown@ == "Sni(__stripped__)"@,
            self is ProxyBasic ==> shown@ == "ProxyBasic(__stripped__)"@,
    {
        match self {
            Source::Sni(_) => "Sni(__stripped__)".to_owned(),
            Source::ProxyBasic(_) => "ProxyBasic(__stripped__)".to_owned(),
        }
    }
}

fn owned_text(text: Cow<'_, str>) -> (owned: String)
    ensures
        owned@ == text@,
{
    match text {
        Cow::Borrowed(x) => x.to_owned(),
        Cow::Owned(x) => x,
    }
}

} // verus!
