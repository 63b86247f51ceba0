//! Points in time as plain numbers, and the three things that are taken from
//! `chrono`: the current time, reading an RFC 2822 date and writing a date.
//! The contracts of these three are believed, not proved.

use std::fmt::Write;
use vstd::prelude::*;
use vstd::string::*;

verus! {

/// A point in time: whole seconds since the start of 1970 in UTC, and the
/// nanoseconds since that second began. During a leap second the
/// nanoseconds go on counting past a thousand million.
#[derive(Clone, Copy, Debug, PartialEq, Eq, Structural)]
pub struct Timestamp {
    pub secs: i64,
    pub nanos: u32,
}

/// Whether `left` is earlier than `right`.
pub open spec fn earlier(left: Timestamp, right: Timestamp) -> bool {
    left.secs < right.secs || (left.secs == right.secs && left.nanos < right.nanos)
}

impl Timestamp {
    /// Whether this point in time is earlier than `other`.
    pub fn is_before(&self, other: &Timestamp) -> (before: bool)
        ensures
            before == earlier(*self, *other),
    {
        self.secs < other.secs || (self.secs == other.secs && self.nanos < other.nanos)
    }
}

/// The point in time that `chrono` reads out of `text` as an RFC 2822 date:
/// its seconds and nanoseconds; `None` where `chrono` rejects the text.
pub uninterp spec fn rfc2822_instant(text: Seq<char>) -> Option<(i64, u32)>;

/// What `chrono` writes for the point in time `secs` seconds after the start
/// of 1970 in UTC, under the format `format`; `None` where the seconds are
/// out of its range or it rejects the format.
pub uninterp spec fn formatted_instant(secs: i64, format: Seq<char>) -> Option<Seq<char>>;

/// The characters of a text that may be absent.
pub open spec fn text_of(text: Option<String>) -> Option<Seq<char>> {
    match text {
        Some(t) => Some(t@),
        None => None,
    }
}

/// `chrono::Utc::now`: the current time, as the seconds and nanoseconds
/// that `timestamp` and `timestamp_subsec_nanos` give. `chrono` counts it
/// as the time that has passed since the start of 1970 and gives up where
/// the system clock stands before that, so all that is claimed of the
/// result is that its seconds are not negative.
#[verifier::external_body]
pub(crate) fn utc_now() -> (now: Timestamp)
    ensures
        now.secs >= 0,
{
    let now = chrono::Utc::now();
    Timestamp { secs: now.timestamp(), nanos: now.timestamp_subsec_nanos() }
}

/// `chrono::DateTime::parse_from_rfc2822`: the point in time that the text
/// names, as the seconds and nanoseconds that `timestamp` and
/// `timestamp_subsec_nanos` give. The result is named by `rfc2822_instant`.
#[verifier::external_body]
pub(crate) fn parse_rfc2822(text: &str) -> (instant: Option<(i64, u32)>)
    ensures
        instant == rfc2822_instant(text@),
{
    match chrono::DateTime::parse_from_rfc2822(text) {
        Ok(date) => Some((date.timestamp(), date.timestamp_subsec_nanos())),
        Err(_) => None,
    }
}

/// `chrono::DateTime::from_timestamp`, then `format`: the date written
/// under `format`. The result is named by `formatted_instant`.
#[verifier::external_body]
pub(crate) fn format_instant(secs: i64, format: &str) -> (text: Option<String>)
    ensures
        text_of(text) == formatted_instant(secs, format@),
{
    let date = chrono::DateTime::from_timestamp(secs, 0)?;
    let mut text = String::new();
    match write!(text, "{}", date.format(format)) {
        Ok(()) => Some(text),
        Err(_) => None,
    }
}

} // verus!
