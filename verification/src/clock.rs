use vstd::prelude::*;

verus! {

/// A point in time in UTC: whole seconds since the Unix epoch and the
/// nanoseconds past that second.
#[derive(Clone, Copy, Debug, PartialEq, Eq, Structural, Hash)]
pub struct Timestamp {
    pub secs: i64,
    pub nanos: u32,
}

/// Reads the current time from `chrono::Utc::now` and keeps its Unix
/// timestamp (`DateTime::timestamp`, `DateTime::timestamp_subsec_nanos`).
///
/// Trusted: the value depends on the system clock, so nothing is claimed
/// about it. `Utc::now` itself panics when the system clock is set before
/// the Unix epoch.
#[verifier::external_body]
pub(crate) fn now() -> Timestamp {
    let current = chrono::Utc::now();
    Timestamp { secs: current.timestamp(), nanos: current.timestamp_subsec_nanos() }
}

} // verus!
