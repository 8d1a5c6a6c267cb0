//! Source of random bytes for transaction ids and nonces.

use vstd::prelude::*;

verus! {

/// Relies on rand::Rng::fill over rand::thread_rng: fills the buffer with
/// random bytes. Nothing is promised of the values, only the length.
#[verifier::external_body]
pub(crate) fn random_bytes(n: usize) -> (r: Vec<u8>)
    ensures
        r@.len() == n,
{
    let mut buf = vec![0u8; n];
    rand::Rng::fill(&mut rand::thread_rng(), buf.as_mut_slice());
    buf
}

} // verus!
