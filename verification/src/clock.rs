//! The time at which a measurement is recorded.

use vstd::prelude::*;

verus! {

/// A point in time: whole seconds since 1970-01-01 00:00:00 UTC.
pub type Stamp = i64;

/// The current time, truncated to whole seconds.
///
/// Reads the system clock with `std::time::SystemTime::now`, turns it into a
/// `chrono::DateTime<Utc>` with chrono's `From<SystemTime>` (which takes a
/// clock before 1970 as a negative offset), and reads its whole seconds
/// since the epoch with `DateTime::timestamp`, which drops the fraction of
/// the second. The conversion fails only for a clock more than about 262,000
/// years away from the present, outside the range that the system clock can
/// take. The result depends on the clock, so nothing is stated of it; the
/// functions that store a stamp take it as an argument (`Observation::stamped`,
/// `Garden::record_at`, `Store::put_water_at`).
#[verifier::external_body]
pub fn now_stamp() -> (stamp: Stamp) {
    chrono::DateTime::<chrono::Utc>::from(std::time::SystemTime::now()).timestamp()
}

} // verus!
