use bot_runner::clock::{Timestamp, MAX_SECONDS, MIN_SECONDS};
use bot_runner::config::dialog::BotDialog;
use bot_runner::config::notification::batch::nearest_batch;
use bot_runner::config::notification::{
    BotNotification, NotificationFilter, NotificationMessage,
};
use bot_runner::config::time::{NotificationTime, SpecificTime, SpecificTimeFormat};
use bot_runner::config::traits::provider::Provider;
use bot_runner::config::value::{Number, RawValue};
use bot_runner::config::{BotConfig, ConfigCreatedAt, RunnerConfig};
use bot_runner::utils::table::Table;
use chrono::{TimeDelta, Timelike};
use std::time::Duration;

#[derive(Clone)]
struct Engine;

struct EngineError;

impl Provider for Engine {
    type Function = ();
    type Value = ();
    type Error = EngineError;
    type InitData = ();

    fn init_config(&self, _d: ()) -> Result<RunnerConfig<Self>, EngineError> {
        Err(EngineError)
    }
}

fn text(s: &str) -> RawValue<()> {
    RawValue::Text(s.to_string())
}

fn object(fields: Vec<(&str, RawValue<()>)>) -> RawValue<()> {
    RawValue::Object(fields.into_iter().map(|(k, v)| (k.to_string(), v)).collect())
}

fn notification_raw(time: &str) -> RawValue<()> {
    object(vec![
        ("time", text(time)),
        ("filter", object(vec![("random", RawValue::Int(2))])),
        ("message", object(vec![("text", text("some"))])),
    ])
}

fn at(secs: i64) -> Timestamp {
    Timestamp::new(secs, 0).unwrap()
}

fn stamp(dt: chrono::DateTime<chrono::Utc>) -> Timestamp {
    Timestamp::new(dt.timestamp(), dt.timestamp_subsec_nanos()).unwrap()
}

fn rule(time: NotificationTime) -> BotNotification<Engine> {
    BotNotification::new(
        time,
        NotificationFilter::All,
        NotificationMessage::Text { text: "t".to_string() },
    )
}

fn config(timezone: i8, created: Timestamp, rules: Vec<BotNotification<Engine>>) -> RunnerConfig<Engine> {
    RunnerConfig {
        config: BotConfig { version: Number::Int(1), timezone },
        dialog: BotDialog {
            commands: Table::new(),
            buttons: Table::new(),
            stateful_msg_handlers: Table::new(),
            variants: Table::new(),
        },
        notifications: rules,
        created_at: ConfigCreatedAt { at: created },
    }
}

// 2024-03-10 00:00:00 UTC
const DAY: i64 = 1_710_028_800;

#[test]
fn test_notification_struct() {
    let botn = notification_raw("18:00");
    let n: BotNotification<Engine> = BotNotification::from_raw(&botn).unwrap();
    assert!(matches!(n.time, NotificationTime::Specific(..)));
    let time = if let NotificationTime::Specific(st) = n.time {
        st
    } else {
        unreachable!()
    };
    assert_eq!(time, SpecificTime::new(18, 00));
    assert!(matches!(n.filter, NotificationFilter::Random { random: 2 }));
    assert!(matches!(n.message, NotificationMessage::Text { text } if text == "some"));
}

#[test]
fn test_notification_time() {
    let botn = notification_raw("18:00");
    let n: BotNotification<Engine> = BotNotification::from_raw(&botn).unwrap();
    let start_time = chrono::offset::Utc::now();
    let start_time = start_time.with_hour(13).unwrap().with_minute(23).unwrap();
    let left = n.left_time(stamp(start_time), stamp(start_time));
    let secs = left;
    let minutes = secs / 60;
    let hours = minutes / 60;
    let minutes = minutes % 60;
    println!("Left: {hours}:{minutes}");

    let when_should = chrono::offset::Utc::now()
        .with_hour(18)
        .unwrap()
        .with_minute(00)
        .unwrap();

    let should_left = (when_should - start_time).to_std().unwrap();
    let should_left = Duration::from_secs(should_left.as_secs());

    assert_eq!(Duration::from_secs(left), should_left)
}

#[test]
fn test_notification_time_nextday() {
    let botn = notification_raw("11:00");
    let n: BotNotification<Engine> = BotNotification::from_raw(&botn).unwrap();
    let start_time = chrono::offset::Utc::now();
    let start_time = start_time.with_hour(13).unwrap().with_minute(23).unwrap();
    let left = n.left_time(stamp(start_time), stamp(start_time));
    let secs = left;
    let minutes = secs / 60;
    let hours = minutes / 60;
    let minutes = minutes % 60;
    println!("Left: {hours}:{minutes}");

    let when_should = chrono::offset::Utc::now()
        .with_hour(11)
        .unwrap()
        .with_minute(00)
        .unwrap();

    let should_left = (when_should + TimeDelta::days(1) - start_time)
        .to_std()
        .unwrap();
    let should_left = Duration::from_secs(should_left.as_secs());

    assert_eq!(Duration::from_secs(left), should_left)
}

#[test]
fn delta_rule_fires_at_whole_periods_after_the_start() {
    let rule = NotificationTime::Delta { delta_hours: 1, delta_minutes: 30 };
    let period = 5400;
    let start = at(DAY + 1000);
    for elapsed in [0i64, 1, 59, 5399, 5400, 5401, 10_000, 86_400, 1_000_000] {
        let now = at(DAY + 1000 + elapsed);
        let next = rule.when_next(start, now);
        assert!(next.secs > now.secs);
        assert!(next.secs - now.secs <= period);
        assert_eq!((next.secs - start.secs) % period, 0);
        assert_eq!(next.secs, start.secs + (elapsed / period + 1) * period);
        assert_eq!(next.nanos, 0);
    }
}

#[test]
fn delta_rule_fires_at_exact_periods_whatever_the_parts_of_a_second() {
    let rule = NotificationTime::Delta { delta_hours: 0, delta_minutes: 1 };
    let start = Timestamp::new(DAY, 900_000_000).unwrap();
    // 1.2 s have passed: the first period ends 60 s after the creation
    let now = Timestamp::new(DAY + 2, 100_000_000).unwrap();
    let next = rule.when_next(start, now);
    assert_eq!(next, Timestamp::new(DAY + 60, 900_000_000).unwrap());
    // 58.8 s are left, which counts as 58 whole seconds
    assert_eq!(rule_left(&rule, start, now), 58);

    // a moment before the end of the first period, and right at it
    let almost = Timestamp::new(DAY + 60, 899_999_999).unwrap();
    assert_eq!(rule.when_next(start, almost), Timestamp::new(DAY + 60, 900_000_000).unwrap());
    assert_eq!(rule_left(&rule, start, almost), 0);
    let at_it = Timestamp::new(DAY + 60, 900_000_000).unwrap();
    assert_eq!(rule.when_next(start, at_it), Timestamp::new(DAY + 120, 900_000_000).unwrap());
    assert_eq!(rule_left(&rule, start, at_it), 60);
}

fn rule_left(time: &NotificationTime, start: Timestamp, now: Timestamp) -> u64 {
    rule(time.clone()).left_time(start, now)
}

#[test]
fn delta_rule_seen_from_before_the_creation_fires_at_the_creation() {
    let rule = NotificationTime::Delta { delta_hours: 0, delta_minutes: 1 };
    let start = at(DAY + 1);
    let now = at(DAY);
    let next = rule.when_next(start, now);
    assert_eq!(next, start);
    assert!(next.secs >= now.secs);
    assert_eq!(rule_left(&rule, start, now), 1);

    // a rule of 30 minutes, created at 12:00
    let half_hour = NotificationTime::Delta { delta_hours: 0, delta_minutes: 30 };
    let noon = at(DAY + 12 * 3600);
    for minutes_before in [1i64, 10, 29, 30, 31, 60, 1000] {
        let now = at(noon.secs - minutes_before * 60);
        assert_eq!(half_hour.when_next(noon, now), noon);
        assert_eq!(rule_left(&half_hour, noon, now), (minutes_before * 60) as u64);
    }
    let just_before = Timestamp::new(noon.secs - 1, 999_999_999).unwrap();
    assert_eq!(half_hour.when_next(noon, just_before), noon);
    assert_eq!(half_hour.when_next(noon, noon), at(noon.secs + 1800));
}

#[test]
fn delta_rule_with_period_zero_is_due_now() {
    let rule = NotificationTime::Delta { delta_hours: 0, delta_minutes: 0 };
    let now = Timestamp::new(DAY + 77, 5).unwrap();
    assert_eq!(rule.when_next(at(DAY), now), now);
    assert_eq!(rule_left(&rule, at(DAY), now), 0);
}

#[test]
fn specific_rule_fires_today_or_tomorrow() {
    let rule = NotificationTime::Specific(SpecificTime::new(18, 0));
    let before = at(DAY + 13 * 3600 + 23 * 60 + 7);
    let next = rule.when_next(at(0), before);
    assert_eq!(next, at(DAY + 18 * 3600 + 7));
    assert_eq!(next.secs / 86_400, before.secs / 86_400);

    let after = at(DAY + 19 * 3600 + 5);
    let next = rule.when_next(at(0), after);
    assert_eq!(next, at(DAY + 86_400 + 18 * 3600 + 5));
    assert_eq!(next.secs / 86_400, after.secs / 86_400 + 1);

    let exactly = at(DAY + 18 * 3600 + 30);
    assert_eq!(rule.when_next(at(0), exactly), exactly);
    assert_eq!(rule_left(&rule, at(0), exactly), 0);
}

#[test]
fn specific_rule_before_the_epoch() {
    let rule = NotificationTime::Specific(SpecificTime::new(6, 30));
    // 1969-12-31 03:00:10
    let now = at(-86_400 + 3 * 3600 + 10);
    assert_eq!(rule.when_next(at(0), now), at(-86_400 + 6 * 3600 + 30 * 60 + 10));
    // 1969-12-31 23:00:00
    let late = at(-3600);
    assert_eq!(rule.when_next(at(0), late), at(6 * 3600 + 30 * 60));
}

#[test]
fn specific_rule_with_an_hour_or_minute_out_of_range() {
    let now = at(DAY + 13 * 3600 + 23 * 60 + 7);
    let bad_hour = NotificationTime::Specific(SpecificTime::new(24, 5));
    assert_eq!(bad_hour.when_next(at(0), now), at(DAY + 86_400 + 13 * 3600 + 5 * 60 + 7));
    let bad_minute = NotificationTime::Specific(SpecificTime::new(15, 60));
    assert_eq!(bad_minute.when_next(at(0), now), at(DAY + 15 * 3600 + 23 * 60 + 7));
}

#[test]
fn can_schedule_tells_the_end_of_time() {
    let delta = NotificationTime::Delta { delta_hours: 0, delta_minutes: 1 };
    assert!(delta.can_schedule(at(MAX_SECONDS - 60)));
    assert!(!delta.can_schedule(at(MAX_SECONDS - 59)));
    let specific = NotificationTime::Specific(SpecificTime::new(0, 0));
    assert!(specific.can_schedule(at(MAX_SECONDS - 172_800)));
    assert!(!specific.can_schedule(at(MAX_SECONDS - 172_799)));
    let huge = NotificationTime::Delta { delta_hours: u32::MAX, delta_minutes: u32::MAX };
    assert!(!huge.can_schedule(at(0)));
}

#[test]
fn left_time_drops_parts_of_a_second() {
    let rule = NotificationTime::Specific(SpecificTime::new(18, 0));
    let now = Timestamp::new(DAY + 13 * 3600 + 23 * 60, 999_999_999).unwrap();
    assert_eq!(rule_left(&rule, at(0), now), 4 * 3600 + 37 * 60);
}

#[test]
fn specific_time_from_its_two_formats() {
    let verbose = SpecificTime::try_from(SpecificTimeFormat::Verbose { hour: 7, minutes: 45 });
    assert_eq!(verbose.unwrap(), SpecificTime::new(7, 45));
    let text = SpecificTime::try_from(SpecificTimeFormat::String("18:05".to_string()));
    assert_eq!(text.unwrap(), SpecificTime::new(18, 5));
    let seconds = SpecificTime::try_from(SpecificTimeFormat::String("23:56:04".to_string()));
    assert_eq!(seconds.unwrap(), SpecificTime::new(23, 56));
    assert!(SpecificTime::try_from(SpecificTimeFormat::String("25:00".to_string())).is_err());
    assert!(SpecificTime::try_from(SpecificTimeFormat::String("foo".to_string())).is_err());
    assert!(SpecificTime::try_from(SpecificTimeFormat::String("".to_string())).is_err());
}

#[test]
fn times_as_scripts_write_them() {
    let delta = object(vec![("delta_hours", RawValue::Int(2))]);
    assert!(matches!(
        NotificationTime::from_raw(&delta),
        Some(NotificationTime::Delta { delta_hours: 2, delta_minutes: 0 })
    ));
    let empty = object(vec![]);
    assert!(matches!(
        NotificationTime::from_raw(&empty),
        Some(NotificationTime::Delta { delta_hours: 0, delta_minutes: 0 })
    ));
    let verbose = object(vec![("hour", RawValue::Int(9)), ("minutes", RawValue::Int(15))]);
    assert!(matches!(
        NotificationTime::from_raw(&verbose),
        Some(NotificationTime::Specific(t)) if t == SpecificTime::new(9, 15)
    ));
    let half = object(vec![("hour", RawValue::Int(9))]);
    assert!(NotificationTime::from_raw(&half).is_none());
    let negative = object(vec![("delta_minutes", RawValue::Int(-1))]);
    assert!(NotificationTime::from_raw(&negative).is_none());
    let too_big = object(vec![("delta_hours", RawValue::Int(4_294_967_296))]);
    assert!(NotificationTime::from_raw(&too_big).is_none());
    assert!(NotificationTime::from_raw(&text("noon")).is_none());
    assert!(NotificationTime::from_raw(&RawValue::<()>::Int(5)).is_none());
}

#[test]
fn nearest_batch_picks_the_ties_of_the_minimum() {
    assert_eq!(nearest_batch(&vec![5, 5, 9, 0]), Some((5, vec![0, 1])));
    assert_eq!(nearest_batch(&vec![9, 5, 1, 7, 5, 0, 5]), Some((5, vec![1, 4, 6])));
    assert_eq!(nearest_batch(&vec![2]), Some((2, vec![0])));
    assert_eq!(nearest_batch(&vec![]), None);
    assert_eq!(nearest_batch(&vec![0, 1, 1, 0]), None);
    assert_eq!(nearest_batch(&vec![300, 200, 100]), Some((100, vec![2])));
}

#[test]
fn nearest_notifications_of_a_configuration() {
    let rules = vec![
        rule(NotificationTime::Delta { delta_hours: 0, delta_minutes: 10 }),
        rule(NotificationTime::Delta { delta_hours: 1, delta_minutes: 0 }),
        rule(NotificationTime::Delta { delta_hours: 0, delta_minutes: 5 }),
        rule(NotificationTime::Delta { delta_hours: 0, delta_minutes: 0 }),
        rule(NotificationTime::Specific(SpecificTime::new(0, 10))),
    ];
    let rc = config(0, at(DAY), rules);
    // 7 minutes after the creation: 3 minutes are left of both the period
    // of 10 and the second period of 5 minutes, and until 00:10
    let now = at(DAY + 7 * 60);
    assert!(rc.can_plan(now));
    let batch = rc.nearest_notifications(now).unwrap();
    assert_eq!(batch.wait_for(), 180);
    let picked = batch.notifications();
    assert_eq!(picked.len(), 3);
    assert!(std::ptr::eq(picked[0], &rc.notifications[0]));
    assert!(std::ptr::eq(picked[1], &rc.notifications[2]));
    assert!(std::ptr::eq(picked[2], &rc.notifications[4]));
}

#[test]
fn nothing_is_pending_without_rules_worth_a_sleep() {
    let rc = config(0, at(DAY), vec![]);
    assert!(rc.nearest_notifications(at(DAY + 5)).is_none());
    assert!(rc.get_nearest_notifications().is_none());

    let due = config(0, at(DAY), vec![rule(NotificationTime::Delta { delta_hours: 0, delta_minutes: 0 })]);
    assert!(due.nearest_notifications(at(DAY + 5)).is_none());

    // one second left is not worth a sleep, two seconds are
    let rc = config(0, at(DAY), vec![rule(NotificationTime::Delta { delta_hours: 0, delta_minutes: 1 })]);
    assert!(rc.nearest_notifications(at(DAY + 59)).is_none());
    assert_eq!(rc.nearest_notifications(at(DAY + 58)).unwrap().wait_for(), 2);
}

#[test]
fn get_nearest_notifications_reads_the_clock() {
    let created = Timestamp::now().unwrap();
    let rc = config(3, created, vec![rule(NotificationTime::Delta { delta_hours: 0, delta_minutes: 1 })]);
    let batch = rc.get_nearest_notifications().unwrap();
    assert!(batch.wait_for() > 50 && batch.wait_for() <= 60);
    assert_eq!(batch.notifications().len(), 1);
}

#[test]
fn time_zone_moves_by_whole_hours() {
    let rc = config(3, at(DAY), vec![]);
    assert_eq!(rc.created_at(), at(DAY + 3 * 3600));
    assert_eq!(
        rc.timezoned_time(Timestamp::new(DAY + 5, 42).unwrap()),
        Timestamp::new(DAY + 5 + 3 * 3600, 42).unwrap()
    );
    let west = config(-2, at(DAY), vec![]);
    assert_eq!(west.created_at(), at(DAY - 2 * 3600));
    assert!(west.zone_holds(at(MIN_SECONDS + 7200)));
    assert!(!west.zone_holds(at(MIN_SECONDS + 7199)));
    assert!(rc.zone_holds(at(MAX_SECONDS - 3 * 3600)));
    assert!(!rc.zone_holds(at(MAX_SECONDS - 3 * 3600 + 1)));
    assert!(!rc.can_plan(at(MAX_SECONDS)));
}

#[test]
fn time_zone_shifts_a_fixed_time_rule() {
    // created and asked at 21:30 UTC, which is 00:30 of the next day at UTC+3
    let rc = config(3, at(DAY + 21 * 3600), vec![rule(NotificationTime::Specific(SpecificTime::new(1, 0)))]);
    let batch = rc.nearest_notifications(at(DAY + 21 * 3600 + 30 * 60)).unwrap();
    assert_eq!(batch.wait_for(), 30 * 60);
}

#[test]
fn timestamps_have_a_range() {
    assert!(Timestamp::new(0, 0).is_some());
    assert!(Timestamp::new(MAX_SECONDS, 999_999_999).is_some());
    assert!(Timestamp::new(MIN_SECONDS, 0).is_some());
    assert!(Timestamp::new(MAX_SECONDS + 1, 0).is_none());
    assert!(Timestamp::new(MIN_SECONDS - 1, 0).is_none());
    assert!(Timestamp::new(0, 1_000_000_000).is_none());
    assert_eq!(MIN_SECONDS % 86_400, 0);
    assert_eq!((MAX_SECONDS + 1) % 86_400, 0);
    assert!(chrono::DateTime::from_timestamp(MAX_SECONDS + 2 * 86_400, 0).is_some());
    assert!(chrono::DateTime::from_timestamp(MIN_SECONDS - 2 * 86_400, 0).is_some());

    let a = Timestamp::new(5, 10).unwrap();
    let b = Timestamp::new(5, 11).unwrap();
    let c = Timestamp::new(6, 0).unwrap();
    assert!(a.lt(&b) && b.lt(&c) && a.lt(&c));
    assert!(!b.lt(&a) && !a.lt(&a));
}

#[test]
fn now_is_what_chrono_shows() {
    let before = chrono::Utc::now().timestamp();
    let now = Timestamp::now().unwrap();
    let after = chrono::Utc::now().timestamp();
    assert!(before <= now.secs && now.secs <= after);
    assert!(now.nanos < 1_000_000_000);
}

#[test]
fn next_firing_time_never_goes_back() {
    let delta = NotificationTime::Delta { delta_hours: 0, delta_minutes: 7 };
    let specific = NotificationTime::Specific(SpecificTime::new(12, 30));
    let start = at(DAY + 11);
    let mut last_delta = delta.when_next(start, start);
    let mut last_specific = specific.when_next(start, at(DAY + 11));
    let mut now = DAY + 11;
    for step in [1i64, 59, 60, 360, 419, 420, 421, 3600, 40_000, 86_400, 100_000] {
        now += step;
        let next = delta.when_next(start, at(now));
        assert!(!next.lt(&last_delta));
        assert!(next.secs > now);
        assert_eq!((next.secs - start.secs) % 420, 0);
        last_delta = next;
    }
    // from before the creation on, and whatever the parts of a second
    let start = Timestamp::new(DAY + 11, 500_000_000).unwrap();
    let mut last = delta.when_next(start, at(DAY - 5000));
    let mut secs = DAY - 5000;
    for (step, nanos) in [
        (4000i64, 7u32),
        (999, 999_999_999),
        (11, 0),
        (1, 499_999_999),
        (0, 500_000_000),
        (0, 900_000_000),
        (1, 0),
        (418, 499_999_999),
        (1, 500_000_000),
        (5000, 1),
    ] {
        secs += step;
        let now = Timestamp::new(secs, nanos).unwrap();
        let next = delta.when_next(start, now);
        assert!(!next.lt(&last));
        assert!(now.lt(&next));
        assert!(!next.lt(&start));
        assert_eq!((next.secs - start.secs) % 420, 0);
        assert_eq!(next.nanos, start.nanos);
        last = next;
    }
    // the minute in which a fixed time fires never goes back, whatever the
    // seconds; the firing time itself keeps the seconds of the instant
    let six = NotificationTime::Specific(SpecificTime::new(18, 0));
    let first = six.when_next(start, at(DAY + 17 * 3600 + 59 * 60 + 40));
    let second = six.when_next(start, at(DAY + 18 * 3600 + 10));
    assert_eq!(first, at(DAY + 18 * 3600 + 40));
    assert_eq!(second, at(DAY + 18 * 3600 + 10));
    assert_eq!(first.secs / 60, second.secs / 60);
    let mut last_minute = i64::MIN;
    let mut secs = DAY;
    for step in [0i64, 7, 53, 61, 3599, 60_000, 4_700, 59, 1, 86_399, 86_401, 12_345] {
        secs += step;
        let next = six.when_next(start, at(secs));
        assert!(next.secs / 60 >= last_minute);
        assert!(next.secs >= secs);
        assert_eq!(next.secs % 86_400 / 60, 18 * 60);
        last_minute = next.secs / 60;
    }
    // with the same second of the minute, a fixed time never goes back either
    let mut now = DAY + 11;
    for minutes in [1i64, 59, 60, 700, 749, 750, 751, 1440, 2000] {
        now += minutes * 60;
        let next = specific.when_next(start, at(now));
        assert!(!next.lt(&last_specific));
        assert!(!next.lt(&at(now)));
        last_specific = next;
    }
}
