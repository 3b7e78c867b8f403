//! How a client's name and password are presented on the wire.

use crate::authentication::registry_based::Client;
use base64::Engine;
use vstd::prelude::*;

verus! {

/// The text that `base64::engine::general_purpose::STANDARD` makes of the UTF-8 bytes of `text`.
pub uninterp spec fn base64_text(text: Seq<char>) -> Seq<char>;

/// No other text has the encoding of `text`.
pub open spec fn encodes_uniquely(text: Seq<char>) -> bool {
    forall|other: Seq<char>| #[trigger] base64_text(other) == base64_text(text) ==> other == text
}

/// Calls `Engine::encode` of the `STANDARD` engine of `base64` (the standard alphabet, with
/// padding). Claimed of it: the result is determined by the text, and it can be decoded
/// again, so that no other text gives the same result.
#[verifier::external_body]
fn base64_encode(text: &str) -> (encoded: String)
    ensures
        encoded@ == base64_text(text@),
        forall|other: Seq<char>| #[trigger] base64_text(other) == encoded@ ==> other == text@,
{
    base64::engine::general_purpose::STANDARD.encode(text)
}

impl Client {
    /// `username:password`, the text that the basic scheme encodes.
    pub open spec fn basic_text(&self) -> Seq<char> {
        self.username@.push(':') + self.password@
    }

    /// What this client sends to prove who it is.
    pub open spec fn credentials(&self) -> Seq<char> {
        base64_text(self.basic_text())
    }

    /// The credentials of this client: the base64 form of `username:password`.
    pub fn encode_credentials(&self) -> (credentials: String)
        ensures
            credentials@ == self.credentials(),
            encodes_uniquely(self.basic_text()),
    {
        let mut text = self.username.clone();
        proof {
            reveal_strlit(":");
        }
        text.append(":");
        text.append(self.password.as_str());
        assert(text@ =~= self.basic_text());
        base64_encode(text.as_str())
    }
}

} // verus!
