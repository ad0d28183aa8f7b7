//! Randomness and clocks from the operating system and outside crates.
//!
//! Nothing is claimed about the values these return beyond their shape: they
//! depend on the machine, the time and chance. Callers state what holds for
//! every outcome.

use vstd::prelude::*;

use std::time::Duration;
use std::time::Instant;

verus! {

/// The length in nanoseconds of a `Duration` (`Duration::as_nanos`).
pub uninterp spec fn duration_nanos(d: Duration) -> nat;

#[verifier::external_type_specification]
#[verifier::external_body]
pub struct ExInstant(Instant);

/// `getrandom::fill` on a 32-byte buffer: `None` when the operating system
/// cannot provide entropy. No claim is made about the bytes.
#[verifier::external_body]
pub(crate) fn os_random_32() -> (out: Option<[u8; 32]>)
{
    let mut buf = [0u8; 32];
    match getrandom::fill(&mut buf) {
        Ok(()) => Some(buf),
        Err(_) => None,
    }
}

/// `getrandom::fill` on a 64-byte buffer: `None` when the operating system
/// cannot provide entropy. No claim is made about the bytes.
#[verifier::external_body]
pub(crate) fn os_random_64() -> (out: Option<[u8; 64]>)
{
    let mut buf = [0u8; 64];
    match getrandom::fill(&mut buf) {
        Ok(()) => Some(buf),
        Err(_) => None,
    }
}

/// `SystemTime::now().duration_since(UNIX_EPOCH)` in whole seconds: `None`
/// when the clock is before the epoch. No claim is made about the value.
#[verifier::external_body]
pub(crate) fn unix_time_seconds() -> (out: Option<u64>)
{
    std::time::SystemTime::now().duration_since(std::time::UNIX_EPOCH).ok().map(|d| d.as_secs())
}

/// `Instant::now`. No claim is made about the instant.
#[verifier::external_body]
pub(crate) fn instant_now() -> (out: Instant)
{
    Instant::now()
}

/// `Instant::duration_since` in nanoseconds (zero when `earlier` is later).
/// No claim is made about the value.
#[verifier::external_body]
pub(crate) fn instant_elapsed_nanos(now: Instant, earlier: Instant) -> (out: u128)
{
    now.duration_since(earlier).as_nanos()
}

/// `Duration::as_nanos`: the contract claims the result is the named length.
#[verifier::external_body]
pub(crate) fn duration_as_nanos(d: Duration) -> (out: u128)
    ensures
        out == duration_nanos(d),
{
    d.as_nanos()
}

} // verus!
