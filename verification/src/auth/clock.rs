use vstd::prelude::*;

verus! {

/// The first second that the clock cannot show: 2^31 days after the epoch.
pub const CLOCK_LIMIT: i64 = 185_542_587_187_200;

/// A second that the clock can show.
pub open spec fn in_clock_range(now: int) -> bool {
    0 <= now < CLOCK_LIMIT
}

/// The wall clock, read through `chrono::Utc::now` and `DateTime::timestamp`: whole seconds
/// since the Unix epoch. The value differs from call to call. `Utc::now` stops the program
/// where the system clock stands before the epoch, and where the day of the reading does
/// not fit in 32 bits; so a value that comes back is not negative and lies below 2^31
/// days.
#[verifier::external_body]
pub(crate) fn unix_now() -> (now: i64)
    ensures
        in_clock_range(now as int),
{
    chrono::Utc::now().timestamp()
}

} // verus!
