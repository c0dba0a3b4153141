//! What the machine supplies: the time and randomness.
use std::time::Instant;

use chrono::Utc;
use vstd::prelude::*;

verus! {

/// `chrono::Utc::now`, as whole seconds since the Unix epoch. Nothing is known of
/// the result: it is whatever the machine's clock reads. `chrono` panics where
/// that clock stands before the epoch.
#[verifier::external_body]
pub(crate) fn unix_time() -> (secs: u64) {
    Utc::now().timestamp() as u64
}

/// `rand::random`, sixteen bytes of it. Nothing is known of the result: any bytes
/// may come.
#[verifier::external_body]
pub(crate) fn random_bytes() -> (bytes: [u8; 16]) {
    rand::random()
}

/// `std::time::Instant::now`. Nothing is known of the result: it is whatever the
/// machine's clock reads.
#[verifier::external_body]
pub(crate) fn now() -> (t: Instant) {
    Instant::now()
}

} // verus!
