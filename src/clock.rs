//! The system clock, read as nanoseconds since the Unix epoch.
use vstd::prelude::*;
use crate::item::instant_fits;

verus! {

/// Relies on `SystemTime::elapsed` applied to `UNIX_EPOCH`: the time from the
/// epoch to now, or an error where the system clock reads before the epoch.
/// A `Duration` holds at most `u64::MAX` whole seconds and fewer than 10^9
/// nanoseconds besides, which bounds what `as_nanos` returns.
#[verifier::external_body]
fn nanos_since_epoch() -> (r: Option<u128>)
    ensures
        r matches Some(n) ==> n < 18446744073709551616u128 * 1000000000u128,
{
    match std::time::UNIX_EPOCH.elapsed() {
        Ok(d) => Some(d.as_nanos()),
        Err(_) => None,
    }
}

/// The current instant in nanoseconds since the epoch; a clock that reads
/// before the epoch is taken to read the epoch itself.
pub fn current_instant() -> (r: u128)
    ensures
        instant_fits(r),
{
    match nanos_since_epoch() {
        Some(n) => n,
        None => 0,
    }
}

} // verus!
