//! Points in time, and how they are written.
//!
//! A point in time is a number of nanoseconds since the Unix epoch, in UTC and without leap
//! seconds.
use crate::text::opt_view;
use vstd::prelude::*;

verus! {

pub const NANOS: i128 = 1_000_000_000;

/// The first and the last second that a date can have.
pub const FIRST_SECOND: i64 = -8_334_601_228_800;

pub const LAST_SECOND: i64 = 8_210_266_876_799;

/// The first and the last nanosecond that a date can have.
pub const FIRST_TIME: i128 = -8_334_601_228_800_000_000_000;

pub const LAST_TIME: i128 = 8_210_266_876_799_999_999_999;

/// The point in time is one that a date can have.
pub open spec fn is_time(t: int) -> bool {
    FIRST_TIME <= t <= LAST_TIME
}

/// Second and nanosecond of a point in time as it was written. The nanosecond exceeds a second
/// within a leap second.
#[derive(Debug, Clone, Copy, PartialEq, Eq, Structural)]
pub struct Timestamp {
    pub seconds: i64,
    pub nanos: u32,
}

/// Second and nanosecond that a text stands for in the form of RFC 3339, if it does.
pub uninterp spec fn rfc3339_time(s: Seq<char>) -> Option<(i64, u32)>;

/// The text of a point in time in the form of RFC 3339, in UTC, if it is one that a date can have.
pub uninterp spec fn rfc3339_text(seconds: i64, nanos: u32) -> Option<Seq<char>>;

/// Calls `chrono::DateTime::parse_from_rfc3339`, and on the date `timestamp` and
/// `timestamp_subsec_nanos`. The claim is that the outcome is a function of the text alone, here
/// named `rfc3339_time`.
#[verifier::external_body]
pub(crate) fn parse_rfc3339(s: &str) -> (r: Option<(i64, u32)>)
    ensures
        r == rfc3339_time(s@),
{
    match chrono::DateTime::parse_from_rfc3339(s) {
        Ok(t) => Some((t.timestamp(), t.timestamp_subsec_nanos())),
        Err(_) => None,
    }
}

/// Calls `chrono::DateTime::from_timestamp`, and on the date `to_rfc3339`. The claim is that the
/// outcome is a function of the arguments alone, here named `rfc3339_text`, and that there is a
/// text for each second within the range of dates.
#[verifier::external_body]
pub(crate) fn to_rfc3339(seconds: i64, nanos: u32) -> (r: Option<String>)
    ensures
        opt_view(r) == rfc3339_text(seconds, nanos),
        FIRST_SECOND <= seconds <= LAST_SECOND && nanos < NANOS ==> r is Some,
{
    chrono::DateTime::from_timestamp(seconds, nanos).map(|t| t.to_rfc3339())
}

} // verus!
