use vstd::prelude::*;

use crate::error::AppError;

verus! {

#[verifier::external_type_specification]
#[verifier::external_body]
pub struct ExParseError(chrono::ParseError);

/// An instant in UTC, counted in milliseconds since the Unix epoch.
#[derive(Clone, Copy, Debug, PartialEq, Eq, Structural)]
pub struct UtcTime {
    pub millis: i64,
}

/// Milliseconds in one minute.
pub const MINUTE_MS: i64 = 60000;

/// The UTC instant, in milliseconds, that chrono reads from a minute label
/// with the pattern `%Y-%m-%d %H:%M:00`, or `None` where chrono rejects it.
pub uninterp spec fn minute_label_millis(s: Seq<char>) -> Option<i64>;

/// Relies on chrono's `NaiveDateTime::parse_from_str` with the pattern
/// `%Y-%m-%d %H:%M:00`, read as UTC by `and_utc` and counted by
/// `timestamp_millis`: the outcome depends on the label alone.
#[verifier::external_body]
fn parse_minute_label(s: &str) -> (r: Result<i64, chrono::ParseError>)
    ensures
        match r {
            Ok(ms) => minute_label_millis(s@) == Some(ms),
            Err(_) => minute_label_millis(s@).is_none(),
        },
{
    chrono::NaiveDateTime::parse_from_str(s, "%Y-%m-%d %H:%M:00").map(|d| d.and_utc().timestamp_millis())
}

/// Reads a minute label such as `2021-06-06 15:31:00` as a UTC instant.
pub fn parse_minute_date(s: &str) -> (r: Result<UtcTime, AppError>)
    ensures
        match minute_label_millis(s@) {
            Some(ms) => r == Ok::<UtcTime, AppError>(UtcTime { millis: ms }),
            None => r matches Err(AppError::Chrono { .. }),
        },
{
    match parse_minute_label(s) {
        Ok(ms) => Ok(UtcTime { millis: ms }),
        Err(e) => Err(AppError::Chrono { source: e }),
    }
}

/// The instant `millis` milliseconds after the Unix epoch.
pub fn from_timestamp_millis(millis: i64) -> (r: UtcTime)
    ensures
        r.millis == millis,
{
    UtcTime { millis }
}

impl UtcTime {
    /// Milliseconds since the Unix epoch.
    pub fn timestamp_millis(&self) -> (r: i64)
        ensures
            r == self.millis,
    {
        self.millis
    }
}

} // verus!
