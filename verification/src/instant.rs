//! Points in time, as nanoseconds since 1970.

use vstd::prelude::*;

verus! {

/// The nanoseconds of a second.
pub const NANOS_PER_SEC: i128 = 1_000_000_000;

/// The first instant of the calendar, in the year -9999.
pub const FIRST_INSTANT: i128 = -377_705_116_800_000_000_000;

/// The last instant of the calendar, in the year 9999.
pub const LAST_INSTANT: i128 = 253_402_300_799_999_999_999;

/// Whether the calendar has the instant.
pub open spec fn is_instant(nanos: int) -> bool {
    FIRST_INSTANT <= nanos <= LAST_INSTANT
}

/// Whether the calendar has the instant.
pub fn in_calendar(nanos: i128) -> (r: bool)
    ensures
        r == is_instant(nanos as int),
{
    FIRST_INSTANT <= nanos && nanos <= LAST_INSTANT
}

/// The instant that many seconds later.
pub open spec fn later(nanos: int, secs: int) -> int {
    nanos + secs * NANOS_PER_SEC
}

/// The instant that many seconds later.
pub fn after_secs(nanos: i128, secs: i64) -> (r: i128)
    requires
        is_instant(nanos as int),
    ensures
        r == later(nanos as int, secs as int),
{
    nanos + secs as i128 * NANOS_PER_SEC
}

} // verus!
