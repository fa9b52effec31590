//! The wall clock.

use vstd::prelude::*;

verus! {

/// A reading of the system clock.
#[verifier::external_type_specification]
#[verifier::external_body]
pub struct ExSystemTime(std::time::SystemTime);

/// The error of a clock reading earlier than the reference point.
#[verifier::external_type_specification]
#[verifier::external_body]
pub struct ExSystemTimeError(std::time::SystemTimeError);

/// `SystemTime::now`: the current reading of the system clock. Nothing is claimed of it.
#[verifier::external_body]
fn system_now() -> std::time::SystemTime {
    std::time::SystemTime::now()
}

/// `SystemTime::duration_since` with the Unix epoch: the time elapsed since the epoch, or
/// an error when `t` is earlier. Nothing is claimed of the value, which depends on `t`.
#[verifier::external_body]
fn since_epoch(t: &std::time::SystemTime) -> Result<std::time::Duration, std::time::SystemTimeError> {
    t.duration_since(std::time::UNIX_EPOCH)
}

/// `Duration::as_secs`: the whole seconds of `d`. Nothing is claimed of the value.
#[verifier::external_body]
fn whole_secs(d: &std::time::Duration) -> u64 {
    d.as_secs()
}

/// Seconds since the Unix epoch (0 if the clock reads earlier than the epoch).
pub(crate) fn unix_time_secs() -> u64 {
    let now = system_now();
    match since_epoch(&now) {
        Ok(d) => whole_secs(&d),
        Err(_) => 0,
    }
}

} // verus!
