//! The one place the library reads the clock.

use vstd::prelude::*;

verus! {

/// Relies on chrono's `Utc::now` for the capture timestamp, as
/// microseconds since the Unix epoch.  Nothing is promised of the value:
/// every caller states what holds whatever time comes back.
#[verifier::external_body]
pub fn now_micros() -> (t: i64) {
    chrono::Utc::now().timestamp_micros()
}

} // verus!
