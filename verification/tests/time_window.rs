use chrono::{DateTime, Datelike, Offset, TimeZone, Timelike, Utc, Weekday};
use chrono_tz::America::New_York;
use mplus_tracker::instant::UtcInstant;
use mplus_tracker::time_window::{
    na_reset_clock, start_of_day, weekly_reset_eu, weekly_reset_na, weekly_reset_start, Scope,
    TimeWindow, WindowError,
};

fn at(text: &str) -> UtcInstant {
    let at = DateTime::parse_from_rfc3339(text).unwrap();
    UtcInstant::new(at.timestamp(), at.timestamp_subsec_nanos()).unwrap()
}

fn utc(at: UtcInstant) -> DateTime<Utc> {
    DateTime::from_timestamp(at.secs(), at.nanos()).unwrap()
}

/// Tuesday 2024-11-05 was during EST (UTC-5), so 09:00 ET = 14:00 UTC.
#[test]
fn na_reset_est() {
    let now = UtcInstant::new(1730891200, 0).unwrap();
    let reset = utc(weekly_reset_na(now).unwrap());
    assert_eq!(reset.hour(), 14);
    assert_eq!(reset.weekday(), Weekday::Tue);
    assert_eq!(weekly_reset_na(now).unwrap(), at("2024-11-05T14:00:00Z"));
}

/// Tuesday 2024-03-12 was during EDT (UTC-4), so 09:00 ET = 13:00 UTC.
#[test]
fn na_reset_edt() {
    let now = UtcInstant::new(1710331200, 0).unwrap();
    let reset = utc(weekly_reset_na(now).unwrap());
    assert_eq!(reset.hour(), 13);
    assert_eq!(reset.weekday(), Weekday::Tue);
    assert_eq!(weekly_reset_na(now).unwrap(), at("2024-03-12T13:00:00Z"));
}

#[test]
fn na_reset_at_the_very_second() {
    assert_eq!(
        weekly_reset_na(at("2024-11-05T14:00:00Z")).unwrap(),
        at("2024-11-05T14:00:00Z")
    );
    assert_eq!(
        weekly_reset_na(at("2024-11-05T13:59:59.999Z")).unwrap(),
        at("2024-10-29T13:00:00Z")
    );
}

#[test]
fn na_reset_agrees_with_a_search_by_the_hour() {
    let mut now = at("2024-02-20T00:17:31Z").secs();
    let end = at("2024-12-20T00:00:00Z").secs();
    while now < end {
        let reset = weekly_reset_na(UtcInstant::new(now, 5).unwrap()).unwrap();
        let mut expected = now - now % 3_600;
        loop {
            let local = DateTime::from_timestamp(expected, 0).unwrap().with_timezone(&New_York);
            if local.weekday() == Weekday::Tue && local.hour() == 9 {
                break;
            }
            expected -= 3_600;
        }
        assert_eq!((reset.secs(), reset.nanos()), (expected, 0));
        now += 7 * 3_600 + 11;
    }
}

#[test]
fn eu_reset_on_wednesday_at_seven() {
    assert_eq!(
        weekly_reset_eu(at("2024-10-18T20:34:12Z")).unwrap(),
        at("2024-10-16T07:00:00Z")
    );
    assert_eq!(
        weekly_reset_eu(at("2024-10-16T07:00:00Z")).unwrap(),
        at("2024-10-16T07:00:00Z")
    );
    assert_eq!(
        weekly_reset_eu(at("2024-10-16T06:59:59.5Z")).unwrap(),
        at("2024-10-09T07:00:00Z")
    );
}

#[test]
fn reset_follows_the_region() {
    let now = at("2024-10-18T20:34:12Z");
    let eu = at("2024-10-16T07:00:00Z");
    let na = at("2024-10-15T13:00:00Z");
    assert_eq!(weekly_reset_start(now, "eu").unwrap(), eu);
    assert_eq!(weekly_reset_start(now, "EU").unwrap(), eu);
    assert_eq!(weekly_reset_start(now, "us").unwrap(), na);
    assert_eq!(weekly_reset_start(now, "kr").unwrap(), na);
}

#[test]
fn new_york_keeps_its_clocks_on_tuesdays() {
    let offset = |secs: i64| {
        let at = DateTime::from_timestamp(secs, 0).unwrap().naive_utc();
        New_York.offset_from_utc_datetime(&at).fix().local_minus_utc() as i64
    };
    let weekday = |secs: i64| DateTime::from_timestamp(secs, 0).unwrap().weekday();
    let mut now = at("1880-01-01T00:00:00Z").secs();
    let end = at("2110-01-01T00:00:00Z").secs();
    let mut before = offset(now);
    while now < end {
        let after = offset(now + 3_600);
        assert!(after >= -18_000 && after <= -14_400);
        if after != before {
            assert!((after - before).abs() <= 3_600);
            for clock in [now + before, now + after, now + 3_600 + before, now + 3_600 + after] {
                assert_ne!(weekday(clock - 3_600), Weekday::Tue);
                assert_ne!(weekday(clock), Weekday::Tue);
                assert_ne!(weekday(clock + 3_600), Weekday::Tue);
            }
        }
        before = after;
        now += 3_600;
    }
}

#[test]
fn day_starts_at_midnight() {
    assert_eq!(
        start_of_day(&at("2024-02-29T23:59:59.9Z")),
        Some(at("2024-02-29T00:00:00Z"))
    );
    assert_eq!(
        start_of_day(&at("1969-12-31T12:00:00Z")),
        Some(at("1969-12-31T00:00:00Z"))
    );
}

#[test]
fn windows_of_the_scopes() {
    let now = at("2024-10-18T20:34:12Z");
    let today = TimeWindow::resolve_at(now, Scope::Today, Some("us"), None, None).unwrap();
    assert_eq!((today.from, today.to), (at("2024-10-18T00:00:00Z"), now));
    let week = TimeWindow::resolve_at(now, Scope::Week, None, None, None).unwrap();
    assert_eq!((week.from, week.to), (at("2024-10-15T13:00:00Z"), now));
    let week = TimeWindow::resolve_at(now, Scope::Week, Some("eu"), None, None).unwrap();
    assert_eq!((week.from, week.to), (at("2024-10-16T07:00:00Z"), now));
    let all = TimeWindow::resolve_at(now, Scope::Alltime, None, None, None).unwrap();
    assert_eq!((all.from, all.to), (at("1970-01-01T00:00:00Z"), now));
    let from = at("2024-10-01T00:00:00Z");
    let to = at("2024-10-31T23:59:59Z");
    let custom = TimeWindow::resolve_at(now, Scope::Custom, None, Some(from), Some(to)).unwrap();
    assert_eq!((custom.from, custom.to), (from, to));
    let point = TimeWindow::resolve_at(now, Scope::Custom, None, Some(from), Some(from)).unwrap();
    assert_eq!((point.from, point.to), (from, from));
}

#[test]
fn custom_window_errors() {
    let now = at("2024-10-18T20:34:12Z");
    let from = at("2024-10-01T00:00:00Z");
    let to = at("2024-10-31T23:59:59Z");
    let resolve = |from, to| TimeWindow::resolve_at(now, Scope::Custom, None, from, to);
    assert_eq!(resolve(None, None), Err(WindowError::MissingFrom));
    assert_eq!(resolve(None, Some(to)), Err(WindowError::MissingFrom));
    assert_eq!(resolve(Some(from), None), Err(WindowError::MissingTo));
    assert_eq!(resolve(Some(to), Some(from)), Err(WindowError::FromAfterTo));
}

#[test]
fn window_error_messages() {
    let messages = [
        (WindowError::MissingFrom, "scope=custom requires `from` parameter"),
        (WindowError::MissingTo, "scope=custom requires `to` parameter"),
        (WindowError::FromAfterTo, "`from` must be before `to`"),
        (WindowError::NoMidnight, "Could not compute midnight"),
        (WindowError::NoEpoch, "epoch failed"),
        (WindowError::NoEuDate, "Could not build EU reset datetime"),
        (WindowError::NoEuReset, "Could not determine EU weekly reset start"),
        (WindowError::NoNaDate, "Could not build ET reset datetime (DST gap?)"),
        (WindowError::NoNaReset, "Could not determine NA weekly reset start"),
    ];
    for (error, message) in messages {
        assert_eq!(error.message(), message);
    }
}

#[test]
fn scopes_have_names_and_a_default() {
    assert_eq!(Scope::default(), Scope::Alltime);
    assert_eq!(Scope::Today.name(), "today");
    assert_eq!(Scope::Week.name(), "week");
    assert_eq!(Scope::Alltime.name(), "alltime");
    assert_eq!(Scope::Custom.name(), "custom");
}

#[test]
fn resolve_takes_the_current_time() {
    let before = Utc::now();
    let all = TimeWindow::resolve(Scope::Alltime, None, None, None).unwrap();
    let after = Utc::now();
    assert_eq!((all.from.secs(), all.from.nanos()), (0, 0));
    assert!(before <= utc(all.to) && utc(all.to) <= after);
    let week = TimeWindow::resolve(Scope::Week, Some("us"), None, None).unwrap();
    assert!(week.from.up_to(&week.to));
    assert!(week.to.secs() - week.from.secs() < 7 * 86_400 + 3_600);
    assert_eq!(
        TimeWindow::resolve(Scope::Custom, None, None, None),
        Err(WindowError::MissingFrom)
    );
}

#[test]
fn instants_of_the_calendar() {
    assert!(UtcInstant::new(-8_334_601_228_800, 0).is_some());
    assert!(UtcInstant::new(-8_334_601_228_801, 0).is_none());
    assert!(UtcInstant::new(8_210_266_876_799, 999_999_999).is_some());
    assert!(UtcInstant::new(8_210_266_876_800, 0).is_none());
    assert!(UtcInstant::new(59, 1_500_000_000).is_some());
    assert!(UtcInstant::new(58, 1_500_000_000).is_none());
    assert!(UtcInstant::new(59, 2_000_000_000).is_none());
    assert!(DateTime::from_timestamp(-8_334_601_228_800, 0).is_some());
    assert!(DateTime::from_timestamp(-8_334_601_228_801, 0).is_none());
    assert!(DateTime::from_timestamp(8_210_266_876_799, 999_999_999).is_some());
    assert!(DateTime::from_timestamp(8_210_266_876_800, 0).is_none());
}

#[test]
fn reset_reading_of_a_tuesday() {
    let tuesday = at("2024-11-05T00:00:00Z").secs();
    assert_eq!(na_reset_clock(tuesday), Some(tuesday + 9 * 3_600));
    assert_eq!(na_reset_clock(tuesday + 86_399), Some(tuesday + 9 * 3_600));
    assert_eq!(na_reset_clock(tuesday - 1), None);
    assert_eq!(na_reset_clock(tuesday + 86_400), None);
    let tuesday = at("1969-12-30T00:00:00Z").secs();
    assert_eq!(na_reset_clock(tuesday + 1), Some(tuesday + 9 * 3_600));
}

#[test]
fn windows_before_the_epoch() {
    let now = at("1969-12-31T20:00:00Z");
    assert_eq!(weekly_reset_start(now, "eu").unwrap(), at("1969-12-31T07:00:00Z"));
    assert_eq!(weekly_reset_start(now, "us").unwrap(), at("1969-12-30T14:00:00Z"));
    let today = TimeWindow::resolve_at(now, Scope::Today, None, None, None).unwrap();
    assert_eq!((today.from, today.to), (at("1969-12-31T00:00:00Z"), now));
    let first = UtcInstant::new(-8_334_601_228_800 + 8 * 86_400, 0).unwrap();
    assert!(weekly_reset_start(first, "eu").unwrap().up_to(&first));
    assert!(weekly_reset_start(first, "us").unwrap().up_to(&first));
}
