//! The clock, and the countdown to the next code.

use vstd::prelude::*;

verus! {

/// Seconds since the Unix epoch by `std::time::SystemTime::now`; nothing
/// when the clock reads a time before the epoch.
#[verifier::external_body]
pub(crate) fn unix_seconds() -> Option<u64> {
    match std::time::SystemTime::now().duration_since(std::time::UNIX_EPOCH) {
        Ok(elapsed) => Some(elapsed.as_secs()),
        Err(_) => None,
    }
}

/// Seconds from `seconds` to the start of the next window of
/// `refresh_rate` seconds; there is no window of zero seconds.
pub open spec fn until_refresh(refresh_rate: u64, seconds: u64) -> Option<u64> {
    if refresh_rate == 0 {
        None
    } else {
        Some((refresh_rate - seconds % refresh_rate) as u64)
    }
}

/// Seconds that remain at `seconds` until the codes change.
pub fn time_until_refresh_at(refresh_rate: u64, seconds: u64) -> (r: Option<u64>)
    ensures
        r == until_refresh(refresh_rate, seconds),
        r matches Some(t) ==> 0 < t <= refresh_rate,
{
    if refresh_rate == 0 {
        None
    } else {
        Some(refresh_rate - seconds % refresh_rate)
    }
}

/// Seconds that remain now until the codes change. Windows are counted from
/// the epoch, so every device agrees on them. Nothing is returned for a
/// window of zero seconds or when the clock cannot be read.
pub fn get_time_until_next_totp_refresh(refresh_rate: u64) -> (r: Option<u64>)
    ensures
        refresh_rate == 0 ==> r is None,
        r matches Some(t) ==> 0 < t <= refresh_rate,
        r is Some ==> exists|seconds: u64| r == #[trigger] until_refresh(refresh_rate, seconds),
{
    match unix_seconds() {
        Some(seconds) => time_until_refresh_at(refresh_rate, seconds),
        None => None,
    }
}

} // verus!
