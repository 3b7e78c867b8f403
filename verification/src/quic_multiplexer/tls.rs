//! Which certificate a client is shown, and how the idle timeout is counted.

use vstd::prelude::*;

verus! {

/// Which certificate a client is shown.
pub enum CertificatePlan<'a, C> {
    /// The one that every connection begins with.
    Bootstrap,
    /// None: the handshake fails.
    Refuse,
    /// That of a host, with the certificates that lead from it to a root.
    Install { leaf: &'a C, intermediates: &'a [C] },
}

/// Which certificate a client is shown that asks for a host with this certificate chain. There is
/// no chain where the client names no host or one that is not known.
pub fn certificate_plan<'a, C>(chain: Option<&'a Vec<C>>) -> (plan: CertificatePlan<'a, C>)
    ensures
        match chain {
            None => plan is Bootstrap,
            Some(chain) => if chain@.len() == 0 {
                plan is Refuse
            } else {
                plan matches CertificatePlan::Install { leaf, intermediates } && *leaf == chain@[0]
                    && intermediates@ == chain@.skip(1)
            },
        },
{
    match chain {
        None => CertificatePlan::Bootstrap,
        Some(chain) => {
            if chain.len() == 0 {
                return CertificatePlan::Refuse;
            }
            let intermediates = vstd::slice::slice_subrange(chain.as_slice(), 1, chain.len());
            assert(intermediates@ =~= chain@.skip(1));
            CertificatePlan::Install { leaf: &chain[0], intermediates }
        },
    }
}

/// The idle timeout in milliseconds, given in seconds and nanoseconds. Only the low bits are kept
/// of a number that does not fit.
pub fn idle_timeout_millis(secs: u64, nanos: u32) -> (millis: u64)
    ensures
        millis == (secs * 1000 + nanos as int / 1_000_000) % 0x1_0000_0000_0000_0000,
{
    let millis: u128 = (secs as u128) * 1000 + (nanos as u128) / 1_000_000;
    (millis % 0x1_0000_0000_0000_0000) as u64
}

} // verus!
