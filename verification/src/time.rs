//! Timestamps for flow expiry and grant creation times.
//!
//! The core operations take the current time as an explicit argument, so
//! every expiry decision is verified for every possible clock reading. The
//! convenience entry points read the clock once, here, and hand the reading
//! to those operations.

use vstd::prelude::*;

verus! {

/// Relies on `chrono::Utc::now` and `chrono::DateTime::timestamp_millis`:
/// the wall clock, read as whole milliseconds since the Unix epoch. `now`
/// only constructs timestamps at or after the epoch (it panics if the system
/// clock is set before 1970), so the reading is never negative; nothing else
/// can be promised of a clock.
#[verifier::external_body]
pub(crate) fn now_millis() -> (r: i64)
    ensures
        r >= 0,
{
    chrono::Utc::now().timestamp_millis()
}

/// Addition on timestamps that clamps at the far end of the scale instead
/// of overflowing.
pub open spec fn spec_saturating_add(a: i64, b: i64) -> i64 {
    if a + b > i64::MAX {
        i64::MAX
    } else if a + b < i64::MIN {
        i64::MIN
    } else {
        (a + b) as i64
    }
}

/// Addition on timestamps that clamps at the far end of the scale instead
/// of overflowing.
pub fn saturating_add_millis(a: i64, b: i64) -> (r: i64)
    ensures
        r == spec_saturating_add(a, b),
{
    if b >= 0 {
        if a <= i64::MAX - b {
            a + b
        } else {
            i64::MAX
        }
    } else {
        if a >= i64::MIN - b {
            a + b
        } else {
            i64::MIN
        }
    }
}

} // verus!
