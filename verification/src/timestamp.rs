//! Points in time, in UTC.

use chrono::format::ParseErrorKind;
use chrono::{NaiveDateTime, Utc};
use vstd::prelude::*;

verus! {

/// The format of a timestamp, as `chrono` spells it.
pub const TIMESTAMP_FORMAT: &'static str = "%Y-%m-%d %H:%M:%S%.f";

/// A point in time, in UTC.
#[derive(Copy, Clone, Debug, PartialEq, Eq, Structural)]
pub struct Timestamp {
    /// Seconds since the start of 1970, leap seconds not counted.
    pub seconds: i64,
    /// Nanoseconds since the last whole second, which a leap second may hold twice.
    pub nanoseconds: u32,
}

/// Why a text is no timestamp.
#[derive(Copy, Clone, Debug, PartialEq, Eq, Structural)]
pub enum TimestampError {
    /// A field is out of range.
    OutOfRange,
    /// No date and time has these fields.
    Impossible,
    /// The fields do not make a date and time.
    NotEnough,
    /// The text holds an invalid character.
    Invalid,
    /// The text ends too early.
    TooShort,
    /// The text goes on behind the timestamp.
    TooLong,
    /// The format is not supported.
    BadFormat,
}

impl Timestamp {
    /// The nanoseconds make at most a leap second.
    pub open spec fn wf(self) -> bool {
        self.nanoseconds < 2_000_000_000
    }
}

/// What `NaiveDateTime::parse_from_str` reads out of a text in some format.
pub uninterp spec fn parsed_datetime(s: Seq<char>, format: Seq<char>) -> Result<
    Timestamp,
    TimestampError,
>;

/// The timestamp of a result, if there is one, is well formed.
pub open spec fn ok_wf(r: Result<Timestamp, TimestampError>) -> bool {
    r matches Ok(t) ==> t.wf()
}

/// Calls `NaiveDateTime::parse_from_str` of `chrono`, whose result is a function of the text and
/// the format. The nanoseconds of a date and time are below two seconds. The kind of error that
/// `chrono` keeps for itself and never makes counts as a bad format.
#[verifier::external_body]
fn parse_datetime(s: &str, format: &str) -> (r: Result<Timestamp, TimestampError>)
    ensures
        r == parsed_datetime(s@, format@),
        ok_wf(r),
{
    match NaiveDateTime::parse_from_str(s, format).map(|t| t.and_utc()) {
        Ok(t) => Ok(
            Timestamp { seconds: t.timestamp(), nanoseconds: t.timestamp_subsec_nanos() },
        ),
        Err(e) => Err(match e.kind() {
            ParseErrorKind::OutOfRange => TimestampError::OutOfRange,
            ParseErrorKind::Impossible => TimestampError::Impossible,
            ParseErrorKind::NotEnough => TimestampError::NotEnough,
            ParseErrorKind::Invalid => TimestampError::Invalid,
            ParseErrorKind::TooShort => TimestampError::TooShort,
            ParseErrorKind::TooLong => TimestampError::TooLong,
            _ => TimestampError::BadFormat,
        }),
    }
}

/// Calls `Utc::now` of `chrono`. Of the current time only the range of the nanoseconds is known. The
/// call panics on a machine whose clock is set before 1970.
#[verifier::external_body]
fn utc_now() -> (r: Timestamp)
    ensures
        r.wf(),
{
    let now = Utc::now();
    Timestamp { seconds: now.timestamp(), nanoseconds: now.timestamp_subsec_nanos() }
}

/// Parses a timestamp in the format "YYYY-mm-dd HH:MM:SS.fff".
pub fn now_from_str(s: &str) -> (r: Result<Timestamp, TimestampError>)
    ensures
        r == parsed_datetime(s@, TIMESTAMP_FORMAT@),
        r == parsed_datetime(s@, "%Y-%m-%d %H:%M:%S%.f"@),
        ok_wf(r),
{
    parse_datetime(s, TIMESTAMP_FORMAT)
}

/// The timestamp of a run: the one asked for, and the current time where none was.
pub fn current_timestamp(requested: Option<Timestamp>) -> (r: Timestamp)
    ensures
        requested matches Some(t) ==> r == t,
        requested is None ==> r.wf(),
{
    match requested {
        Some(t) => t,
        None => utc_now(),
    }
}

} // verus!
