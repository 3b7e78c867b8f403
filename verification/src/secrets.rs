//! Secrets that the server makes up for itself.

use vstd::prelude::*;

verus! {

/// `ring::error::Unspecified`
#[verifier::external_type_specification]
#[verifier::external_body]
pub struct ExUnspecified(ring::error::Unspecified);

/// The HMAC-SHA256 of `data` under `key`.
pub uninterp spec fn hmac_sha256(key: Seq<u8>, data: Seq<u8>) -> Seq<u8>;

/// Calls `ring::rand::generate` with the random number generator of the operating system. Nothing
/// is claimed of what comes back.
#[verifier::external_body]
pub(crate) fn random_bytes<const N: usize>() -> (bytes: Result<[u8; N], ring::error::Unspecified>) {
    ring::rand::generate(&ring::rand::SystemRandom::new()).map(|random| random.expose())
}

/// Calls `ring::hmac::sign` under the key that `ring::hmac::Key::new` makes of `key`. Claimed of
/// it: the tag depends on the key and the data alone, and is as long as a SHA-256 digest. It
/// panics on data that is too long for SHA-256.
#[verifier::external_body]
pub(crate) fn hmac_sign(key: &[u8; 32], data: &[u8]) -> (tag: Vec<u8>)
    requires
        data@.len() < 0x1000_0000_0000_0000,
    ensures
        tag@ == hmac_sha256(key@, data@),
        tag@.len() == 32,
{
    ring::hmac::sign(&ring::hmac::Key::new(ring::hmac::HMAC_SHA256, key), data).as_ref().to_vec()
}

} // verus!
