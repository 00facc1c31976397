//! The one source of randomness: fresh bytes from the system generator.

use vstd::prelude::*;

verus! {

/// Relies on `rand::thread_rng` and `rand::RngCore::fill_bytes` to fill a
/// buffer with fresh random bytes; nothing is assumed of their values.
#[verifier::external_body]
pub(crate) fn random_bytes(n: usize) -> (r: Vec<u8>)
    ensures
        r@.len() == n,
{
    let mut buf = vec![0u8; n];
    rand::RngCore::fill_bytes(&mut rand::thread_rng(), &mut buf);
    buf
}

} // verus!
