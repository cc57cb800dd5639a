//! Instants in UTC, and the `chrono` crate behind them.

use vstd::prelude::*;
use vstd::string::*;

verus! {

/// An instant: whole seconds since the start of 1970 in UTC, and nanoseconds.
#[derive(Clone, Copy, Debug, PartialEq, Eq, PartialOrd, Ord, Structural)]
pub struct Timestamp {
    pub secs: i64,
    pub nanos: u32,
}

/// The first second of the calendar: the start of the year -262143.
pub const FIRST_SECOND: i64 = -8_334_601_228_800;

/// The last second of the calendar: the end of the year 262142.
pub const LAST_SECOND: i64 = 8_210_266_876_799;

/// The longest span of time in whole seconds.
pub const LONGEST_SPAN: i64 = 9_223_372_036_854_775;

impl Timestamp {
    /// The instant lies within the calendar.
    pub open spec fn valid(self) -> bool {
        FIRST_SECOND <= self.secs <= LAST_SECOND && self.nanos < 1_000_000_000
    }

    /// This instant comes before the other one.
    pub open spec fn before(self, other: Timestamp) -> bool {
        self.secs < other.secs || (self.secs == other.secs && self.nanos < other.nanos)
    }

    /// Whether this instant comes before the other one.
    pub fn is_before(self, other: Timestamp) -> (r: bool)
        ensures
            r == self.before(other),
    {
        self.secs < other.secs || (self.secs == other.secs && self.nanos < other.nanos)
    }

    /// The current instant.
    pub fn now() -> (at: Timestamp)
        ensures
            at.valid(),
    {
        utc_now()
    }

    /// The instant a number of seconds earlier, if the calendar holds it.
    pub open spec fn earlier(self, seconds: int) -> Option<Timestamp> {
        if FIRST_SECOND <= self.secs - seconds <= LAST_SECOND {
            Some(Timestamp { secs: (self.secs - seconds) as i64, nanos: self.nanos })
        } else {
            None
        }
    }

    /// The instant `seconds` earlier, if the calendar holds it.
    pub fn earlier_by(self, seconds: i64) -> (at: Option<Timestamp>)
        requires
            self.valid(),
            -LONGEST_SPAN <= seconds <= LONGEST_SPAN,
        ensures
            at == self.earlier(seconds as int),
    {
        checked_sub(self, seconds)
    }
}

/// The text of an instant in the form of RFC 3339, in whole seconds and UTC.
pub uninterp spec fn rfc3339(secs: i64, nanos: u32) -> Seq<char>;

/// The text of an instant as it is shown to a person.
pub uninterp spec fn instant_text(secs: i64, nanos: u32) -> Seq<char>;

/// The number of seconds of a span of days, if the span is not too long.
pub open spec fn seconds_of_days(days: int) -> Option<int> {
    if -LONGEST_SPAN <= days * 86_400 <= LONGEST_SPAN {
        Some(days * 86_400)
    } else {
        None
    }
}

/// `Utc::now` reads the system clock. Only that the instant lies within the
/// calendar is claimed.
#[verifier::external_body]
pub(crate) fn utc_now() -> (at: Timestamp)
    ensures
        at.valid(),
{
    let now = chrono::Utc::now();
    Timestamp { secs: now.timestamp(), nanos: now.timestamp_subsec_nanos() }
}

/// `TimeDelta::try_days` makes a span of whole days, unless it is longer than
/// the longest span.
#[verifier::external_body]
pub(crate) fn try_days(days: i64) -> (seconds: Option<i64>)
    ensures
        match seconds {
            Some(seconds) => seconds_of_days(days as int) == Some(seconds as int),
            None => seconds_of_days(days as int) is None,
        },
{
    chrono::TimeDelta::try_days(days).map(|span| span.num_seconds())
}

/// `DateTime::checked_sub_signed` gives the instant that many seconds earlier,
/// unless it lies outside the calendar.
#[verifier::external_body]
pub(crate) fn checked_sub(at: Timestamp, seconds: i64) -> (earlier: Option<Timestamp>)
    requires
        at.valid(),
        -LONGEST_SPAN <= seconds <= LONGEST_SPAN,
    ensures
        earlier == at.earlier(seconds as int),
{
    chrono::DateTime::from_timestamp(at.secs, at.nanos)
        .and_then(|at| at.checked_sub_signed(chrono::TimeDelta::seconds(seconds)))
        .map(|at| Timestamp { secs: at.timestamp(), nanos: at.timestamp_subsec_nanos() })
}

/// `DateTime<Utc>` is displayed with its date, its time and its zone.
#[verifier::external_body]
pub(crate) fn display_text(at: Timestamp) -> (text: String)
    requires
        at.valid(),
    ensures
        text@ == instant_text(at.secs, at.nanos),
{
    chrono::DateTime::from_timestamp(at.secs, at.nanos).unwrap_or_default().to_string()
}

/// `DateTime::to_rfc3339_opts` writes an instant in whole seconds and UTC.
#[verifier::external_body]
pub(crate) fn rfc3339_text(at: Timestamp) -> (text: String)
    requires
        at.valid(),
    ensures
        text@ == rfc3339(at.secs, at.nanos),
{
    chrono::DateTime::from_timestamp(at.secs, at.nanos)
        .map(|at| at.to_rfc3339_opts(chrono::SecondsFormat::Secs, true))
        .unwrap_or_default()
}

} // verus!
