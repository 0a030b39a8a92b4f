//! When a notification fires: every so often, or every day at a fixed
//! time.

use vstd::arithmetic::div_mod::{
    lemma_div_denominator, lemma_div_is_ordered, lemma_div_pos_is_pos, lemma_fundamental_div_mod,
    lemma_fundamental_div_mod_converse, lemma_mod_bound, lemma_mod_multiples_basic,
};
use vstd::prelude::*;

use crate::clock::{
    clock_time_of, day_of, parse_clock_time, plus_days, plus_seconds, whole_seconds,
    second_of_day, whole_seconds_between, with_hour, with_minute, Timestamp, MAX_SECONDS,
    MIN_SECONDS,
};
use crate::config::value::{find_field, given_field, int_in, RawModel, RawValue};

verus! {

/// When a notification fires.
#[derive(Clone, Debug)]
pub enum NotificationTime {
    /// Again and again, every `delta_hours` hours and `delta_minutes`
    /// minutes, counted from the creation of the configuration.
    Delta { delta_hours: u32, delta_minutes: u32 },
    /// Every day at a fixed time of day.
    Specific(SpecificTime),
}

/// A time of day.
#[derive(Clone, Copy, Debug, PartialEq, Eq, Structural)]
pub struct SpecificTime {
    pub hour: u8,
    pub minutes: u8,
}

/// The two ways in which a script writes a time of day.
#[derive(Clone, Debug)]
pub enum SpecificTimeFormat {
    /// A text such as `18:00`.
    String(String),
    /// The hour and the minute as numbers.
    Verbose { hour: u8, minutes: u8 },
}

impl SpecificTime {
    pub fn new(hour: u8, minutes: u8) -> (time: Self)
        ensures
            time.hour == hour,
            time.minutes == minutes,
    {
        Self { hour, minutes }
    }

    /// The time of day that a script wrote: the numbers as they stand, a
    /// text as chrono reads it.
    pub fn try_from(stf: SpecificTimeFormat) -> (time: Result<Self, chrono::ParseError>)
        ensures
            match stf {
                SpecificTimeFormat::Verbose { hour, minutes } => time == Ok::<
                    SpecificTime,
                    chrono::ParseError,
                >(SpecificTime { hour, minutes }),
                SpecificTimeFormat::String(text) => match clock_time_of(text@) {
                    Some(clock) => time == Ok::<SpecificTime, chrono::ParseError>(
                        SpecificTime { hour: clock.0, minutes: clock.1 },
                    ) && clock.0 < 24 && clock.1 < 60,
                    None => time is Err,
                },
            },
    {
        match stf {
            SpecificTimeFormat::Verbose { hour, minutes } => Ok(Self::new(hour, minutes)),
            SpecificTimeFormat::String(timestring) => {
                match parse_clock_time(timestring.as_str()) {
                    Ok(clock) => Ok(Self::new(clock.0, clock.1)),
                    Err(e) => Err(e),
                }
            },
        }
    }

    /// The instant of the day of `now` at this time of day, the second and
    /// the nanoseconds of `now` kept. An hour above 23 leaves the hour of
    /// `now`, a minute above 59 its minute.
    pub open spec fn on_day_of(&self, now: Timestamp) -> Timestamp {
        let with_h = if self.hour < 24 {
            Timestamp { secs: now.spec_with_hour(self.hour as int) as i64, nanos: now.nanos }
        } else {
            now
        };
        if self.minutes < 60 {
            Timestamp { secs: with_h.spec_with_minute(self.minutes as int) as i64, nanos: now.nanos }
        } else {
            with_h
        }
    }
}

/// The firing time of a rule as a script writes it: a text such as
/// `18:00`, an object with `hour` and `minutes`, or an object with the
/// optional fields `delta_hours` and `delta_minutes`, each of which counts
/// as 0 where it is missing.
pub open spec fn time_of<F>(raw: RawModel<F>) -> Option<NotificationTime> {
    match raw {
        RawModel::Text(text) => match clock_time_of(text) {
            Some(clock) => Some(
                NotificationTime::Specific(SpecificTime { hour: clock.0, minutes: clock.1 }),
            ),
            None => None,
        },
        RawModel::Object(fields) => if given_field(fields, "hour"@) is Some || given_field(
            fields,
            "minutes"@,
        ) is Some {
            match (
                int_in(given_field(fields, "hour"@), 0, 255),
                int_in(given_field(fields, "minutes"@), 0, 255),
            ) {
                (Some(Some(hour)), Some(Some(minutes))) => Some(
                    NotificationTime::Specific(
                        SpecificTime { hour: hour as u8, minutes: minutes as u8 },
                    ),
                ),
                _ => None,
            }
        } else {
            match (
                int_in(given_field(fields, "delta_hours"@), 0, 0xffff_ffff),
                int_in(given_field(fields, "delta_minutes"@), 0, 0xffff_ffff),
            ) {
                (Some(hours), Some(minutes)) => Some(
                    NotificationTime::Delta {
                        delta_hours: match hours {
                            Some(h) => h as u32,
                            None => 0,
                        },
                        delta_minutes: match minutes {
                            Some(m) => m as u32,
                            None => 0,
                        },
                    },
                ),
                _ => None,
            }
        },
        _ => None,
    }
}

impl NotificationTime {
    /// Reads the firing time of a rule from a value of a script.
    pub fn from_raw<F>(raw: &RawValue<F>) -> (time: Option<Self>)
        ensures
            time == time_of(raw.model()),
    {
        match raw {
            RawValue::Text(text) => {
                match SpecificTime::try_from(SpecificTimeFormat::String(text.clone())) {
                    Ok(time) => Some(NotificationTime::Specific(time)),
                    Err(_) => None,
                }
            },
            RawValue::Object(_) => {
                let fields = match raw.as_object() {
                    Some(fields) => fields,
                    None => {
                        return None;
                    },
                };
                let hour = find_field(fields, "hour");
                let minutes = find_field(fields, "minutes");
                if hour.is_some() || minutes.is_some() {
                    match (
                        RawValue::optional_int(hour, 0, 255),
                        RawValue::optional_int(minutes, 0, 255),
                    ) {
                        (Some(Some(hour)), Some(Some(minutes))) => {
                            match SpecificTime::try_from(
                                SpecificTimeFormat::Verbose {
                                    hour: hour as u8,
                                    minutes: minutes as u8,
                                },
                            ) {
                                Ok(time) => Some(NotificationTime::Specific(time)),
                                Err(_) => None,
                            }
                        },
                        _ => None,
                    }
                } else {
                    match (
                        RawValue::optional_int(find_field(fields, "delta_hours"), 0, 0xffff_ffff),
                        RawValue::optional_int(find_field(fields, "delta_minutes"), 0, 0xffff_ffff),
                    ) {
                        (Some(hours), Some(minutes)) => Some(
                            NotificationTime::Delta {
                                delta_hours: match hours {
                                    Some(h) => h as u32,
                                    None => 0,
                                },
                                delta_minutes: match minutes {
                                    Some(m) => m as u32,
                                    None => 0,
                                },
                            },
                        ),
                        _ => None,
                    }
                }
            },
            _ => None,
        }
    }

    /// The period of a recurring rule in seconds; 0 for a rule of a fixed
    /// time of day.
    pub open spec fn period_seconds(&self) -> int {
        match self {
            NotificationTime::Delta { delta_hours, delta_minutes } => (*delta_minutes + *delta_hours
                * 60) * 60,
            NotificationTime::Specific(_) => 0,
        }
    }

    /// The whole periods from the creation at `start_time` to the firing
    /// time seen from `now`, for a rule with the period `period > 0`: one
    /// more than the whole periods that have passed at `now`, and none
    /// where `now` is before the creation.
    pub open spec fn periods_until(period: int, start_time: Timestamp, now: Timestamp) -> int {
        let whole = (now.as_nanos() - start_time.as_nanos()) / (period * 1_000_000_000) + 1;
        if whole < 0 {
            0
        } else {
            whole
        }
    }

    /// The next time at which the rule fires, seen from `now`, for a
    /// configuration created at `start_time`.
    ///
    /// A recurring rule with the period 0 is always due now. Otherwise it
    /// fires a whole number of periods after the creation: at the first
    /// such time after `now`, and at the creation itself where `now` is
    /// before it. A rule with a fixed time of day fires at that time on the
    /// day of `now`, or a day later where that is before `now`.
    pub open spec fn spec_when_next(&self, start_time: Timestamp, now: Timestamp) -> Timestamp {
        match self {
            NotificationTime::Delta { .. } => {
                let period = self.period_seconds();
                if period == 0 {
                    now
                } else {
                    Timestamp {
                        secs: (start_time.secs + Self::periods_until(period, start_time, now)
                            * period) as i64,
                        nanos: start_time.nanos,
                    }
                }
            },
            NotificationTime::Specific(time) => {
                let estimation = time.on_day_of(now);
                if estimation.spec_lt(&now) {
                    Timestamp { secs: (estimation.secs + 86_400) as i64, nanos: estimation.nanos }
                } else {
                    estimation
                }
            },
        }
    }

    /// Whether the next firing time, seen from `now`, is an instant that
    /// `Timestamp` can hold.
    pub open spec fn next_fits(&self, now: Timestamp) -> bool {
        match self {
            NotificationTime::Delta { .. } => now.secs + self.period_seconds() <= MAX_SECONDS,
            NotificationTime::Specific(_) => now.secs + 2 * 86_400 <= MAX_SECONDS,
        }
    }

    /// Tells whether the next firing time, seen from `now`, can be held.
    pub fn can_schedule(&self, now: Timestamp) -> (fits: bool)
        requires
            now.wf(),
        ensures
            fits == self.next_fits(now),
    {
        match self {
            NotificationTime::Delta { delta_hours, delta_minutes } => {
                let period: i64 = (*delta_minutes as i64 + *delta_hours as i64 * 60) * 60;
                now.secs <= MAX_SECONDS - period
            },
            NotificationTime::Specific(_) => now.secs <= MAX_SECONDS - 2 * 86_400,
        }
    }

    /// The next time at which the rule fires, seen from `now`, for a
    /// configuration created at `start_time`.
    pub fn when_next(&self, start_time: Timestamp, now: Timestamp) -> (next: Timestamp)
        requires
            start_time.wf(),
            now.wf(),
            self.next_fits(now),
        ensures
            next == self.spec_when_next(start_time, now),
            next.wf(),
    {
        match self {
            NotificationTime::Delta { delta_hours, delta_minutes } => {
                let secs_period: i64 = (*delta_minutes as i64 + *delta_hours as i64 * 60) * 60;
                if secs_period == 0 {
                    return now;
                }
                let ghost periods = Self::periods_until(secs_period as int, start_time, now);
                proof {
                    lemma_periods_until(secs_period as int, start_time, now);
                }
                if now.lt(&start_time) {
                    proof {
                        assert(periods * secs_period == 0) by (nonlinear_arith)
                            requires
                                periods == 0,
                        ;
                    }
                    return start_time;
                }
                let elapsed: i64 = whole_seconds_between(start_time, now);
                let passed: i64 = elapsed % secs_period;
                proof {
                    assert(0 <= passed < secs_period);
                    assert(periods * secs_period == elapsed - passed + secs_period);
                }
                match plus_seconds(start_time, elapsed - passed + secs_period) {
                    Some(next) => next,
                    None => now,
                }
            },
            NotificationTime::Specific(time) => {
                let estimation = now;
                let estimation = match with_hour(estimation, time.hour as u32) {
                    Some(t) => t,
                    None => estimation,
                };
                proof {
                    if time.hour < 24 {
                        lemma_with_hour(now, time.hour as int);
                    }
                }
                let with_h = estimation;
                let estimation = match with_minute(estimation, time.minutes as u32) {
                    Some(t) => t,
                    None => estimation,
                };
                proof {
                    if time.minutes < 60 {
                        lemma_with_minute(with_h, time.minutes as int);
                    }
                    lemma_on_day_of(*time, now);
                    assert(estimation == time.on_day_of(now));
                }
                if estimation.lt(&now) {
                    match plus_days(estimation, 1) {
                        Some(next) => next,
                        None => estimation,
                    }
                } else {
                    estimation
                }
            },
        }
    }
}

/// Replacing the hour leaves an instant in its day and within the range
/// of `Timestamp`.
pub proof fn lemma_with_hour(t: Timestamp, hour: int)
    requires
        t.wf(),
        0 <= hour < 24,
    ensures
        MIN_SECONDS <= t.spec_with_hour(hour) <= MAX_SECONDS,
        day_of(t.spec_with_hour(hour)) == day_of(t.secs as int),
        second_of_day(t.spec_with_hour(hour)) == hour * 3600 + second_of_day(t.secs as int) % 3600,
{
    let secs = t.secs as int;
    let sod = second_of_day(secs);
    assert(0 <= sod < 86_400);
    assert(0 <= sod % 3600 < 3600);
    let offset = hour * 3600 + sod % 3600;
    lemma_day_offset(secs, offset);
    lemma_day_bounds(secs, secs - sod + offset);
}

/// Replacing the minute leaves an instant in its day and within the range
/// of `Timestamp`.
pub proof fn lemma_with_minute(t: Timestamp, minute: int)
    requires
        t.wf(),
        0 <= minute < 60,
    ensures
        MIN_SECONDS <= t.spec_with_minute(minute) <= MAX_SECONDS,
        day_of(t.spec_with_minute(minute)) == day_of(t.secs as int),
{
    let secs = t.secs as int;
    let sod = second_of_day(secs);
    assert(0 <= sod < 86_400);
    assert(0 <= sod % 3600 < 3600);
    assert(0 <= sod % 60 < 60);
    assert(sod - sod % 3600 <= 82_800) by {
        lemma_fundamental_div_mod(sod, 3600);
        assert(sod / 3600 <= 23);
    }
    assert(sod - sod % 3600 >= 0);
    let offset = sod - sod % 3600 + minute * 60 + sod % 60;
    lemma_day_offset(secs, offset);
    lemma_day_bounds(secs, secs - sod + offset);
}

/// The whole periods until the firing time, counted from the whole seconds
/// that have passed since the creation.
pub proof fn lemma_periods_until(period: int, start_time: Timestamp, now: Timestamp)
    requires
        period > 0,
        start_time.wf(),
        now.wf(),
    ensures
        ({
            let periods = NotificationTime::periods_until(period, start_time, now);
            let distance = now.as_nanos() - start_time.as_nanos();
            let elapsed = whole_seconds(distance);
            &&& periods >= 0
            &&& now.spec_lt(&start_time) <==> distance < 0
            &&& distance < 0 ==> periods == 0
            &&& distance >= 0 ==> {
                &&& 0 <= elapsed <= now.secs - start_time.secs
                &&& periods * period == elapsed - elapsed % period + period
                &&& periods * period * 1_000_000_000 - period * 1_000_000_000 <= distance
                    < periods * period * 1_000_000_000
            }
        }),
{
    let distance = now.as_nanos() - start_time.as_nanos();
    let span = period * 1_000_000_000;
    assert(span > 0) by (nonlinear_arith)
        requires
            period > 0,
            span == period * 1_000_000_000,
    ;
    lemma_fundamental_div_mod(distance, span);
    let q = distance / span;
    assert(0 <= distance % span < span) by {
        lemma_mod_bound(distance, span);
    }
    if distance < 0 {
        assert(q < 0) by (nonlinear_arith)
            requires
                distance == span * q + distance % span,
                distance < 0,
                0 <= distance % span,
                span > 0,
        ;
    } else {
        let elapsed = distance / 1_000_000_000;
        assert(whole_seconds(distance) == elapsed);
        lemma_div_denominator(distance, 1_000_000_000, period);
        assert(1_000_000_000 * period == span) by (nonlinear_arith)
            requires
                span == period * 1_000_000_000,
        ;
        assert(elapsed / period == q);
        lemma_fundamental_div_mod(elapsed, period);
        assert(q >= 0) by {
            lemma_div_pos_is_pos(distance, span);
        }
        assert((q + 1) * period == elapsed - elapsed % period + period) by (nonlinear_arith)
            requires
                elapsed == period * q + elapsed % period,
        ;
        assert((q + 1) * period * 1_000_000_000 == span * q + span) by (nonlinear_arith)
            requires
                span == period * 1_000_000_000,
        ;
    }
}

/// A recurring rule with a period above zero, seen from any instant and
/// created at any instant, fires after the instant, not before the
/// creation, and an exact whole number of periods after the creation. From
/// the creation on it fires no later than one period after the instant, so
/// at the first such time; seen from before the creation it fires at the
/// creation.
pub proof fn law_delta_next(rule: NotificationTime, start_time: Timestamp, now: Timestamp)
    requires
        rule is Delta,
        rule.period_seconds() > 0,
        start_time.wf(),
        now.wf(),
    ensures
        ({
            let next = rule.spec_when_next(start_time, now);
            let period = rule.period_seconds();
            &&& now.spec_lt(&next)
            &&& !next.spec_lt(&start_time)
            &&& (next.as_nanos() - start_time.as_nanos()) % (period * 1_000_000_000) == 0
            &&& !now.spec_lt(&start_time) ==> next.as_nanos() - now.as_nanos() <= period
                * 1_000_000_000
            &&& now.spec_lt(&start_time) ==> next == start_time
        }),
{
    let period = rule.period_seconds();
    let next = rule.spec_when_next(start_time, now);
    let periods = NotificationTime::periods_until(period, start_time, now);
    lemma_periods_until(period, start_time, now);
    assert(period <= 61 * 60 * 0xffff_ffff);
    let distance = now.as_nanos() - start_time.as_nanos();
    if distance >= 0 {
        assert(periods * period <= now.secs - start_time.secs + period);
    } else {
        assert(periods * period == 0) by (nonlinear_arith)
            requires
                periods == 0,
        ;
    }
    assert(next.secs == start_time.secs + periods * period);
    assert(next.as_nanos() - start_time.as_nanos() == periods * (period * 1_000_000_000))
        by (nonlinear_arith)
        requires
            next.secs == start_time.secs + periods * period,
            next.nanos == start_time.nanos,
            next.as_nanos() == next.secs * 1_000_000_000 + next.nanos,
            start_time.as_nanos() == start_time.secs * 1_000_000_000 + start_time.nanos,
    ;
    lemma_mod_multiples_basic(periods, period * 1_000_000_000);
    assert(periods * period * 1_000_000_000 == periods * (period * 1_000_000_000))
        by (nonlinear_arith);
    assert(periods * (period * 1_000_000_000) >= 0) by (nonlinear_arith)
        requires
            periods >= 0,
            period > 0,
    ;
}

/// As the instant advances, the firing time of a recurring rule never goes
/// back: seen from the later of two instants the rule fires no earlier than
/// seen from the earlier one.
pub proof fn law_delta_monotonic(
    rule: NotificationTime,
    start_time: Timestamp,
    earlier: Timestamp,
    later: Timestamp,
)
    requires
        rule is Delta,
        start_time.wf(),
        earlier.wf(),
        later.wf(),
        !later.spec_lt(&earlier),
    ensures
        !rule.spec_when_next(start_time, later).spec_lt(&rule.spec_when_next(start_time, earlier)),
{
    let period = rule.period_seconds();
    if period > 0 {
        let span = period * 1_000_000_000;
        assert(span > 0) by (nonlinear_arith)
            requires
                period > 0,
                span == period * 1_000_000_000,
        ;
        let d1 = earlier.as_nanos() - start_time.as_nanos();
        let d2 = later.as_nanos() - start_time.as_nanos();
        assert(d1 <= d2);
        lemma_div_is_ordered(d1, d2, span);
        let p1 = NotificationTime::periods_until(period, start_time, earlier);
        let p2 = NotificationTime::periods_until(period, start_time, later);
        assert(p1 <= p2);
        assert(p1 * period <= p2 * period) by (nonlinear_arith)
            requires
                p1 <= p2,
                period > 0,
        ;
        lemma_periods_until(period, start_time, earlier);
        lemma_periods_until(period, start_time, later);
        assert(period <= 61 * 60 * 0xffff_ffff);
        assert(p1 * period <= MAX_SECONDS - MIN_SECONDS + period) by {
            if d1 < 0 {
                assert(p1 * period == 0) by (nonlinear_arith)
                    requires
                        p1 == 0,
                ;
            }
        }
        assert(p2 * period <= MAX_SECONDS - MIN_SECONDS + period) by {
            if d2 < 0 {
                assert(p2 * period == 0) by (nonlinear_arith)
                    requires
                        p2 == 0,
                ;
            }
        }
        assert(p1 * period >= 0) by (nonlinear_arith)
            requires
                p1 >= 0,
                period > 0,
        ;
    }
}

/// For two instants with the same second of the minute and the same
/// nanoseconds, a rule with a fixed time of day, its hour below 24 and its
/// minute below 60, never fires earlier seen from the later instant than
/// seen from the earlier one.
pub proof fn law_specific_monotonic(
    time: SpecificTime,
    start_time: Timestamp,
    earlier: Timestamp,
    later: Timestamp,
)
    requires
        time.hour < 24,
        time.minutes < 60,
        earlier.wf(),
        later.wf(),
        !later.spec_lt(&earlier),
        earlier.nanos == later.nanos,
        earlier.secs % 60 == later.secs % 60,
    ensures
        !NotificationTime::Specific(time).spec_when_next(start_time, later).spec_lt(
            &NotificationTime::Specific(time).spec_when_next(start_time, earlier),
        ),
{
    lemma_clock_second(time, earlier);
    lemma_clock_second(time, later);
    law_specific_next(time, start_time, earlier);
    law_specific_next(time, start_time, later);
    let e = earlier.secs as int;
    let l = later.secs as int;
    lemma_fundamental_div_mod(e, 86_400);
    lemma_fundamental_div_mod(l, 86_400);
    assert(e / 86_400 <= l / 86_400) by {
        lemma_div_is_ordered(e, l, 86_400);
    }
}

/// As the instant advances, the minute in which a rule with a fixed time
/// of day fires never goes back. Within that minute the rule keeps the
/// second and the nanoseconds of the instant, so the firing time itself can
/// go back, by less than a minute.
pub proof fn law_specific_minute_monotonic(
    time: SpecificTime,
    start_time: Timestamp,
    earlier: Timestamp,
    later: Timestamp,
)
    requires
        time.hour < 24,
        time.minutes < 60,
        earlier.wf(),
        later.wf(),
        !later.spec_lt(&earlier),
    ensures
        ({
            let first = NotificationTime::Specific(time).spec_when_next(start_time, earlier);
            let second = NotificationTime::Specific(time).spec_when_next(start_time, later);
            &&& first.secs / 60 <= second.secs / 60
            &&& first.secs - second.secs < 60
        }),
{
    lemma_clock_second(time, earlier);
    lemma_clock_second(time, later);
    law_specific_next(time, start_time, earlier);
    law_specific_next(time, start_time, later);
    let e = earlier.secs as int;
    let l = later.secs as int;
    let clock = time.hour * 60 + time.minutes;
    lemma_fundamental_div_mod(e, 86_400);
    lemma_fundamental_div_mod(l, 86_400);
    assert(e / 86_400 <= l / 86_400) by {
        lemma_div_is_ordered(e, l, 86_400);
    }
    lemma_minute_of(e);
    lemma_minute_of(l);
    let today_e = time.on_day_of(earlier).secs as int;
    let today_l = time.on_day_of(later).secs as int;
    assert(today_e == (e / 86_400 * 1440 + clock) * 60 + e % 60);
    assert(today_l == (l / 86_400 * 1440 + clock) * 60 + l % 60);
    lemma_fundamental_div_mod_converse(today_e, 60, e / 86_400 * 1440 + clock, e % 60);
    lemma_fundamental_div_mod_converse(today_l, 60, l / 86_400 * 1440 + clock, l % 60);
    lemma_fundamental_div_mod_converse(
        today_e + 86_400,
        60,
        e / 86_400 * 1440 + clock + 1440,
        e % 60,
    );
    lemma_fundamental_div_mod_converse(
        today_l + 86_400,
        60,
        l / 86_400 * 1440 + clock + 1440,
        l % 60,
    );
}

/// A second stands in its day at a whole minute of the day and at its
/// second of the minute.
pub proof fn lemma_minute_of(secs: int)
    ensures
        second_of_day(secs) == (second_of_day(secs) / 60) * 60 + secs % 60,
        0 <= second_of_day(secs) / 60 < 1440,
        0 <= secs % 60 < 60,
{
    let sod = second_of_day(secs);
    lemma_fundamental_div_mod(secs, 86_400);
    lemma_fundamental_div_mod(sod, 60);
    lemma_fundamental_div_mod_converse(secs, 60, (secs / 86_400) * 1440 + sod / 60, sod % 60);
}

/// The time of day of a rule, put on the day of `now`, stands at the
/// second of the day that the hour, the minute, and the second of the
/// minute of `now` make.
pub proof fn lemma_clock_second(time: SpecificTime, now: Timestamp)
    requires
        time.hour < 24,
        time.minutes < 60,
        now.wf(),
    ensures
        time.on_day_of(now).secs == now.secs - second_of_day(now.secs as int) + time.hour * 3600
            + time.minutes * 60 + now.secs % 60,
{
    let secs = now.secs as int;
    let sod = second_of_day(secs);
    lemma_with_hour(now, time.hour as int);
    let with_h = Timestamp { secs: now.spec_with_hour(time.hour as int) as i64, nanos: now.nanos };
    let sod1 = time.hour * 3600 + sod % 3600;
    assert(second_of_day(with_h.secs as int) == sod1);
    lemma_with_minute(with_h, time.minutes as int);
    // the hour is a whole number of minutes, and the minute of seconds
    assert(sod1 % 3600 == sod % 3600) by {
        lemma_fundamental_div_mod_converse(sod1, 3600, time.hour as int, sod % 3600);
    }
    assert(sod1 % 60 == sod % 60) by {
        lemma_fundamental_div_mod(sod, 3600);
        lemma_fundamental_div_mod(sod % 3600, 60);
        let minutes = (sod % 3600) / 60;
        lemma_fundamental_div_mod_converse(
            sod1,
            60,
            time.hour * 60 + minutes,
            (sod % 3600) % 60,
        );
        lemma_fundamental_div_mod_converse(
            sod,
            60,
            (sod / 3600) * 60 + minutes,
            (sod % 3600) % 60,
        );
    }
    assert(sod % 60 == secs % 60) by {
        lemma_fundamental_div_mod(secs, 86_400);
        lemma_fundamental_div_mod(sod, 60);
        lemma_fundamental_div_mod_converse(secs, 60, (secs / 86_400) * 1440 + sod / 60, sod % 60);
    }
}

/// A second that lies `offset` seconds after the start of the day of
/// `secs` lies in the same day, at the second `offset` of it.
pub proof fn lemma_day_offset(secs: int, offset: int)
    requires
        0 <= offset < 86_400,
    ensures
        day_of(secs - second_of_day(secs) + offset) == day_of(secs),
        second_of_day(secs - second_of_day(secs) + offset) == offset,
{
    let q = secs / 86_400;
    let r = secs % 86_400;
    lemma_fundamental_div_mod(secs, 86_400);
    assert(secs == 86_400 * q + r);
    let x = secs - r + offset;
    assert(x == q * 86_400 + offset);
    lemma_fundamental_div_mod_converse(x, 86_400, q, offset);
}

/// The time of day of a rule, put on the day of `now`, lies in that day and
/// keeps the nanoseconds of `now`.
pub proof fn lemma_on_day_of(time: SpecificTime, now: Timestamp)
    requires
        now.wf(),
    ensures
        day_of(time.on_day_of(now).secs as int) == day_of(now.secs as int),
        time.on_day_of(now).nanos == now.nanos,
        time.on_day_of(now).wf(),
{
    if time.hour < 24 {
        lemma_with_hour(now, time.hour as int);
    }
    let with_h = if time.hour < 24 {
        Timestamp { secs: now.spec_with_hour(time.hour as int) as i64, nanos: now.nanos }
    } else {
        now
    };
    assert(with_h.wf());
    assert(day_of(with_h.secs as int) == day_of(now.secs as int));
    if time.minutes < 60 {
        lemma_with_minute(with_h, time.minutes as int);
    }
}

/// A second in the day of a second that `Timestamp` can hold can be held
/// too: the range of the type is made of whole days.
pub proof fn lemma_day_bounds(secs: int, other: int)
    requires
        MIN_SECONDS <= secs <= MAX_SECONDS,
        day_of(other) == day_of(secs),
    ensures
        MIN_SECONDS <= other <= MAX_SECONDS,
{
    lemma_fundamental_div_mod(secs, 86_400);
    lemma_fundamental_div_mod(other, 86_400);
    assert(MIN_SECONDS == -92_000_000 * 86_400);
    assert(MAX_SECONDS == 92_000_000 * 86_400 - 1);
}

/// A rule with a fixed time of day never fires before `now`. It fires on
/// the day of `now` where its time of day has not passed yet, and exactly
/// one day later where it has.
pub proof fn law_specific_next(time: SpecificTime, start_time: Timestamp, now: Timestamp)
    requires
        now.wf(),
    ensures
        ({
            let next = NotificationTime::Specific(time).spec_when_next(start_time, now);
            let today = time.on_day_of(now);
            &&& !next.spec_lt(&now)
            &&& day_of(today.secs as int) == day_of(now.secs as int)
            &&& today.nanos == now.nanos
            &&& if today.spec_lt(&now) {
                &&& next.secs == today.secs + 86_400
                &&& next.nanos == today.nanos
                &&& day_of(next.secs as int) == day_of(now.secs as int) + 1
            } else {
                next == today
            }
        }),
{
    lemma_on_day_of(time, now);
    let today = time.on_day_of(now);
    let t = today.secs as int;
    let n = now.secs as int;
    lemma_fundamental_div_mod(t, 86_400);
    lemma_fundamental_div_mod(n, 86_400);
    if today.spec_lt(&now) {
        let q = t / 86_400;
        lemma_fundamental_div_mod_converse(t + 86_400, 86_400, q + 1, t % 86_400);
    }
}

} // verus!
