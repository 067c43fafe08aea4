//! The wall clock, read through `chrono`.

use vstd::prelude::*;

verus! {

/// No reading of the clock lies further from the epoch than this many
/// seconds: 2^31 + 719,163 days of 86,400 seconds each.
pub const CLOCK_LIMIT: i64 = 185_604_722_870_400;

/// Whether `now` is a value the clock can hand out.
pub open spec fn clock_reading(now: i64) -> bool {
    -CLOCK_LIMIT <= now <= CLOCK_LIMIT
}

/// The current Unix time in seconds, as `chrono::Utc::now().timestamp()`
/// gives it.
///
/// Trusted: the body is not verified. The contract claims only the range
/// that `DateTime::timestamp` can produce. It takes a day count held in an
/// `i32`, subtracts the 719,163 days that lie before the epoch, multiplies
/// by 86,400 and adds the seconds past midnight, which stay below 86,400.
/// Nothing is claimed about which instant is returned, and two calls may
/// differ. `Utc::now` panics when the system clock is set before the epoch.
#[verifier::external_body]
pub(crate) fn current_timestamp() -> (now: i64)
    ensures
        clock_reading(now),
{
    chrono::Utc::now().timestamp()
}

} // verus!
