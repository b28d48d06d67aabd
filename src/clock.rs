//! Readings of the system clock.

use vstd::prelude::*;
use std::time::{SystemTime, UNIX_EPOCH};

verus! {

/// Milliseconds since the Unix epoch, or zero when the clock reads earlier.
/// Relies on `SystemTime::duration_since` applied to `SystemTime::now()`;
/// nothing is promised of the value, which depends on the clock.
#[verifier::external_body]
pub fn unix_millis() -> (ms: u64) {
    SystemTime::now().duration_since(UNIX_EPOCH).map(|d| d.as_millis() as u64).unwrap_or(0)
}

/// Microseconds since the Unix epoch, or zero when the clock reads earlier.
/// Relies on `SystemTime::duration_since` applied to `SystemTime::now()`;
/// nothing is promised of the value, which depends on the clock.
#[verifier::external_body]
pub fn unix_micros() -> (us: u64) {
    SystemTime::now().duration_since(UNIX_EPOCH).map(|d| d.as_micros() as u64).unwrap_or(0)
}

} // verus!
