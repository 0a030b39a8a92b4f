//! Instants in UTC, as plain numbers, and the calls into chrono that
//! compute with them.

use vstd::prelude::*;

verus! {

/// Nanoseconds in one second.
pub const NANOS_PER_SECOND: u32 = 1_000_000_000;

/// Seconds in one day.
pub const SECONDS_PER_DAY: i64 = 86_400;

/// The first second that a `Timestamp` can hold: midnight, 92 000 000 days
/// before the Unix epoch.
pub const MIN_SECONDS: i64 = -7_948_800_000_000;

/// The last second that a `Timestamp` can hold: the end of the day that
/// starts 91 999 999 days after the Unix epoch.
pub const MAX_SECONDS: i64 = 7_948_799_999_999;

/// An instant in UTC: whole seconds since the Unix epoch, leap seconds not
/// counted, and the nanoseconds since that second began.
#[derive(Clone, Copy, Debug, PartialEq, Eq, Structural)]
pub struct Timestamp {
    pub secs: i64,
    pub nanos: u32,
}

/// The error that chrono gives for a text that is not a time of day.
#[verifier::external_type_specification]
#[verifier::external_body]
pub struct ExParseError(chrono::ParseError);

/// A number of nanoseconds as whole seconds, rounded towards zero.
pub open spec fn whole_seconds(nanos: int) -> int {
    if nanos >= 0 {
        nanos / 1_000_000_000
    } else {
        -((-nanos) / 1_000_000_000)
    }
}

/// The second of its day at which the second `secs` stands.
pub open spec fn second_of_day(secs: int) -> int {
    secs % 86_400
}

/// The number of the day in which the second `secs` lies, the Unix epoch
/// starting day 0.
pub open spec fn day_of(secs: int) -> int {
    secs / 86_400
}

/// The hour and the minute that chrono reads from a text of the form
/// `HH:MM` (seconds and a fraction may follow); `None` for a text that it
/// refuses.
pub uninterp spec fn clock_time_of(text: Seq<char>) -> Option<(u8, u8)>;

impl Timestamp {
    /// The seconds are within the range of the type, and the nanoseconds
    /// less than a second.
    pub open spec fn wf(&self) -> bool {
        &&& MIN_SECONDS <= self.secs <= MAX_SECONDS
        &&& self.nanos < NANOS_PER_SECOND
    }

    /// The instant in nanoseconds since the Unix epoch.
    pub open spec fn as_nanos(&self) -> int {
        self.secs * 1_000_000_000 + self.nanos
    }

    /// Whether `self` is earlier than `other`.
    pub open spec fn spec_lt(&self, other: &Timestamp) -> bool {
        self.secs < other.secs || (self.secs == other.secs && self.nanos < other.nanos)
    }

    /// The instant of the same day with the hour `hour`.
    pub open spec fn spec_with_hour(&self, hour: int) -> int {
        self.secs - second_of_day(self.secs as int) + hour * 3600 + second_of_day(self.secs as int)
            % 3600
    }

    /// The instant of the same day and hour with the minute `minute`.
    pub open spec fn spec_with_minute(&self, minute: int) -> int {
        self.secs - second_of_day(self.secs as int) % 3600 + minute * 60 + second_of_day(
            self.secs as int,
        ) % 60
    }

    /// An instant from its parts, where they are within the type's range.
    pub fn new(secs: i64, nanos: u32) -> (made: Option<Timestamp>)
        ensures
            match made {
                Some(t) => t.secs == secs && t.nanos == nanos && t.wf(),
                None => !(Timestamp { secs, nanos }).wf(),
            },
    {
        if MIN_SECONDS <= secs && secs <= MAX_SECONDS && nanos < NANOS_PER_SECOND {
            Some(Timestamp { secs, nanos })
        } else {
            None
        }
    }

    /// The current time, where the machine's clock is within the type's
    /// range.
    pub fn now() -> (made: Option<Timestamp>)
        ensures
            made matches Some(t) ==> t.wf(),
    {
        let (secs, nanos) = utc_now_parts();
        Timestamp::new(secs, nanos)
    }

    /// Whether `self` is earlier than `other`.
    pub fn lt(&self, other: &Timestamp) -> (earlier: bool)
        ensures
            earlier == self.spec_lt(other),
            self.wf() && other.wf() ==> earlier == (self.as_nanos() < other.as_nanos()),
    {
        self.secs < other.secs || (self.secs == other.secs && self.nanos < other.nanos)
    }
}

/// `Utc::now` of chrono, as the seconds and nanoseconds of its time stamp.
/// What the clock shows is not known; the nanoseconds are less than a
/// second, since the clock is read as a duration since the epoch. Where
/// the machine's clock stands before 1970, chrono stops the program.
#[verifier::external_body]
pub(crate) fn utc_now_parts() -> (parts: (i64, u32))
    ensures
        parts.1 < NANOS_PER_SECOND,
{
    let now = chrono::Utc::now();
    (now.timestamp(), now.timestamp_subsec_nanos())
}

/// `DateTime::signed_duration_since` of chrono, then `TimeDelta::num_seconds`:
/// the time from `from` to `to` in whole seconds, rounded towards zero.
#[verifier::external_body]
pub(crate) fn whole_seconds_between(from: Timestamp, to: Timestamp) -> (secs: i64)
    requires
        from.wf(),
        to.wf(),
    ensures
        secs == whole_seconds(to.as_nanos() - from.as_nanos()),
{
    let a = chrono::DateTime::from_timestamp(from.secs, from.nanos).unwrap();
    let b = chrono::DateTime::from_timestamp(to.secs, to.nanos).unwrap();
    b.signed_duration_since(a).num_seconds()
}

/// `DateTime::checked_add_signed` of chrono with a `TimeDelta` of whole
/// seconds: the instant `secs` seconds later (earlier for a negative
/// number), with the same nanoseconds. It is there whenever it lies within
/// the range of `Timestamp`, which chrono's own range contains.
#[verifier::external_body]
pub(crate) fn plus_seconds(t: Timestamp, secs: i64) -> (later: Option<Timestamp>)
    requires
        t.wf(),
    ensures
        later matches Some(x) ==> x.secs == t.secs + secs && x.nanos == t.nanos,
        MIN_SECONDS <= t.secs + secs <= MAX_SECONDS ==> later is Some,
{
    let at = chrono::DateTime::from_timestamp(t.secs, t.nanos)?;
    let delta = chrono::TimeDelta::try_seconds(secs)?;
    let moved = at.checked_add_signed(delta)?;
    Some(Timestamp { secs: moved.timestamp(), nanos: moved.timestamp_subsec_nanos() })
}

/// `Timelike::with_hour` of chrono on a `DateTime<Utc>`: the instant of the
/// same day with the hour replaced, minute, second and nanoseconds kept;
/// `None` for an hour above 23.
#[verifier::external_body]
pub(crate) fn with_hour(t: Timestamp, hour: u32) -> (changed: Option<Timestamp>)
    requires
        t.wf(),
    ensures
        changed is Some <==> hour < 24,
        changed matches Some(x) ==> x.secs == t.spec_with_hour(hour as int) && x.nanos == t.nanos,
{
    let at = chrono::DateTime::from_timestamp(t.secs, t.nanos)?;
    let moved = chrono::Timelike::with_hour(&at, hour)?;
    Some(Timestamp { secs: moved.timestamp(), nanos: moved.timestamp_subsec_nanos() })
}

/// `Timelike::with_minute` of chrono on a `DateTime<Utc>`: the instant of
/// the same day and hour with the minute replaced, second and nanoseconds
/// kept; `None` for a minute above 59.
#[verifier::external_body]
pub(crate) fn with_minute(t: Timestamp, minute: u32) -> (changed: Option<Timestamp>)
    requires
        t.wf(),
    ensures
        changed is Some <==> minute < 60,
        changed matches Some(x) ==> x.secs == t.spec_with_minute(minute as int) && x.nanos
            == t.nanos,
{
    let at = chrono::DateTime::from_timestamp(t.secs, t.nanos)?;
    let moved = chrono::Timelike::with_minute(&at, minute)?;
    Some(Timestamp { secs: moved.timestamp(), nanos: moved.timestamp_subsec_nanos() })
}

/// `DateTime::checked_add_days` of chrono: the same time of day `days` days
/// later. It is there whenever it lies within the range of `Timestamp`.
#[verifier::external_body]
pub(crate) fn plus_days(t: Timestamp, days: u64) -> (later: Option<Timestamp>)
    requires
        t.wf(),
    ensures
        later matches Some(x) ==> x.secs == t.secs + 86_400 * days && x.nanos == t.nanos,
        t.secs + 86_400 * days <= MAX_SECONDS ==> later is Some,
{
    let at = chrono::DateTime::from_timestamp(t.secs, t.nanos)?;
    let moved = at.checked_add_days(chrono::Days::new(days))?;
    Some(Timestamp { secs: moved.timestamp(), nanos: moved.timestamp_subsec_nanos() })
}

/// `NaiveTime::from_str` of chrono, then `Timelike::hour` and
/// `Timelike::minute`: the hour and the minute of a text such as `18:00`.
/// What chrono takes for a time of day is not restated here; the hour is
/// below 24 and the minute below 60.
#[verifier::external_body]
pub(crate) fn parse_clock_time(text: &str) -> (parsed: Result<(u8, u8), chrono::ParseError>)
    ensures
        match parsed {
            Ok(clock) => clock_time_of(text@) == Some(clock) && clock.0 < 24 && clock.1 < 60,
            Err(_) => clock_time_of(text@) is None,
        },
{
    let time: chrono::NaiveTime = text.parse()?;
    Ok((chrono::Timelike::hour(&time) as u8, chrono::Timelike::minute(&time) as u8))
}

} // verus!
