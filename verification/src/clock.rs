//! The clock, as the `time` crate reads it.

use time::OffsetDateTime;
use vstd::prelude::*;

verus! {

/// Reads the clock with `time::OffsetDateTime::now_utc`: the seconds since 1970. Nothing is
/// claimed of what it shows.
#[verifier::external_body]
pub(crate) fn unix_now() -> (r: i64) {
    OffsetDateTime::now_utc().unix_timestamp()
}

} // verus!
