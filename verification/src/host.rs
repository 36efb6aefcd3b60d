//! The tracer's two sources of nondeterminism: random identities and the
//! wall clock. Both come from outside; the rest of the library is verified
//! for every value they may produce.

use vstd::prelude::*;

verus! {

/// Relies on rand::thread_rng and rand::RngCore::fill_bytes: fills a fresh
/// buffer of length `n` with bytes from the thread-local random generator.
/// Nothing is promised of the bytes themselves.
#[verifier::external_body]
pub(crate) fn random_bytes(n: usize) -> (r: Vec<u8>)
    ensures
        r@.len() == n,
{
    let mut buf = vec![0u8; n];
    rand::RngCore::fill_bytes(&mut rand::thread_rng(), &mut buf);
    buf
}

/// Relies on std::time::SystemTime::now: the wall clock as nanoseconds
/// since the Unix epoch, saturated into the u64 range, zero for a clock set
/// before the epoch. Nothing is promised of the value.
#[verifier::external_body]
pub(crate) fn current_time_unix_nano() -> u64 {
    match std::time::SystemTime::now().duration_since(std::time::UNIX_EPOCH) {
        Ok(d) => u64::try_from(d.as_nanos()).unwrap_or(u64::MAX),
        Err(_) => 0,
    }
}

} // verus!
