//! The wall clock that stamps the entries of the query log.

use vstd::prelude::*;

verus! {

/// An instant in UTC: whole seconds since the start of 1970, and the
/// nanoseconds into that second.
#[derive(Clone, Copy, Debug, PartialEq, Eq, Structural)]
pub struct Timestamp {
    pub secs: i64,
    pub nanos: u32,
}

impl Timestamp {
    /// The start of 1970.
    pub fn epoch() -> (start: Timestamp)
        ensures
            start == (Timestamp { secs: 0, nanos: 0 }),
    {
        Timestamp { secs: 0, nanos: 0 }
    }
}

/// Reads the clock with `SystemTime::now`, takes the time since the start
/// of 1970 with `duration_since`, and has `chrono::DateTime::from_timestamp`
/// make an instant in UTC of it, which `timestamp` and
/// `timestamp_subsec_nanos` take apart again. `None` where the clock stands
/// before 1970 or beyond the dates that `chrono` holds. None of the calls
/// panics. The contract claims nothing of the instant.
#[verifier::external_body]
pub(crate) fn read_clock() -> Option<Timestamp> {
    let since = std::time::SystemTime::now().duration_since(std::time::UNIX_EPOCH).ok()?;
    let secs = i64::try_from(since.as_secs()).ok()?;
    let instant = chrono::DateTime::from_timestamp(secs, since.subsec_nanos())?;
    Some(Timestamp { secs: instant.timestamp(), nanos: instant.timestamp_subsec_nanos() })
}

/// The time that a log entry is stamped with: the time of the clock, or the
/// start of 1970 where the clock gives none.
pub(crate) fn now() -> Timestamp {
    match read_clock() {
        Some(instant) => instant,
        None => Timestamp::epoch(),
    }
}

} // verus!
