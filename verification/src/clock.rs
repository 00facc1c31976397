//! The wall clock. Every decision function takes the time as a plain value;
//! this is the one place the current time enters.

use vstd::prelude::*;

verus! {

/// Relies on `chrono::Utc::now` for the current unix timestamp in seconds;
/// nothing is assumed of its value.
#[verifier::external_body]
fn unix_timestamp() -> i64 {
    chrono::Utc::now().timestamp()
}

/// The current unix time in unsigned seconds; times before the epoch clamp
/// to zero.
pub fn now_unix_secs() -> u64 {
    let t = unix_timestamp();
    if t < 0 {
        0
    } else {
        t as u64
    }
}

} // verus!
