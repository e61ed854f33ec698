//! Points in time as UNIX seconds and nanoseconds, and the whole-second
//! age of one point relative to another.

use vstd::prelude::*;

verus! {

/// A point in time: seconds since the UNIX epoch and the nanoseconds
/// within that second.
#[derive(Debug, Clone, Copy, PartialEq, Eq, Structural)]
pub struct Timestamp {
    pub secs: i64,
    pub nanos: u32,
}

/// The signed number of nanoseconds from `earlier` to `later`.
pub open spec fn nanos_between(later: Timestamp, earlier: Timestamp) -> int {
    (later.secs - earlier.secs) * 1_000_000_000 + later.nanos - earlier.nanos
}

/// A signed number of nanoseconds as whole seconds, truncated toward zero
/// (chrono's `TimeDelta::num_seconds`).
pub open spec fn whole_seconds(nanos: int) -> int {
    if nanos >= 0 {
        nanos / 1_000_000_000
    } else {
        -((-nanos) / 1_000_000_000)
    }
}

/// How many whole seconds `then` lies before `now` (negative when `then`
/// is later than `now`).
pub open spec fn age_seconds(now: Timestamp, then: Timestamp) -> int {
    whole_seconds(nanos_between(now, then))
}

/// The whole-second age of `then` at `now`.
pub fn seconds_between(now: Timestamp, then: Timestamp) -> (r: i128)
    ensures
        r == age_seconds(now, then),
{
    let d: i128 = (now.secs as i128 - then.secs as i128) * 1_000_000_000i128 + now.nanos as i128
        - then.nanos as i128;
    if d >= 0 {
        d / 1_000_000_000i128
    } else {
        -((-d) / 1_000_000_000i128)
    }
}

/// Reads the system clock through chrono's `Utc::now`, as UNIX seconds
/// (`timestamp`) and sub-second nanoseconds (`timestamp_subsec_nanos`).
/// Nothing is claimed of the value: it is the current time.
#[verifier::external_body]
pub(crate) fn utc_now() -> (t: Timestamp) {
    let now = chrono::Utc::now();
    Timestamp { secs: now.timestamp(), nanos: now.timestamp_subsec_nanos() }
}

/// chrono's `Utc::now().to_rfc3339()`: the current time as RFC 3339 text.
/// Nothing is claimed of the value: it is the current time.
#[verifier::external_body]
pub(crate) fn now_rfc3339() -> (r: String) {
    chrono::Utc::now().to_rfc3339()
}

} // verus!
