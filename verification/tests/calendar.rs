use wxmatch::calendar::{CivilTime, Date, LocalTime, UtcTime, Zone};

fn date(year: i32, month: u32, day: u32) -> Date {
    Date::new(year, month, day).unwrap()
}

fn instant(text: &str) -> UtcTime {
    LocalTime::parse_rfc3339(text).unwrap().utc()
}

#[test]
fn knows_which_dates_exist() {
    assert!(Date::new(2024, 2, 29).is_some());
    assert!(Date::new(2023, 2, 29).is_none());
    assert!(Date::new(1900, 2, 29).is_none());
    assert!(Date::new(2000, 2, 29).is_some());
    assert!(Date::new(2026, 0, 1).is_none());
    assert!(Date::new(2026, 13, 1).is_none());
    assert!(Date::new(2026, 4, 31).is_none());
    assert!(Date::new(262142, 12, 31).is_some());
    assert!(Date::new(262143, 1, 1).is_none());
    assert!(Date::new(-262143, 1, 1).is_some());
    assert!(Date::new(-262144, 12, 31).is_none());
}

#[test]
fn numbers_the_days_of_a_year() {
    assert_eq!(date(2026, 1, 1).ordinal(), 1);
    assert_eq!(date(2026, 5, 14).ordinal(), 134);
    assert_eq!(date(2024, 12, 31).ordinal(), 366);
}

#[test]
fn writes_dates_and_reads_them_back() {
    for (day, text, compact) in [
        (date(2026, 5, 14), "2026-05-14", "20260514"),
        (date(33, 1, 2), "0033-01-02", "00330102"),
        (date(-5, 1, 2), "-0005-01-02", "-00050102"),
        (date(12345, 11, 30), "+12345-11-30", "+123451130"),
    ] {
        assert_eq!(day.to_text(), text);
        assert_eq!(day.to_compact(), compact);
        assert_eq!(Date::parse(text), Some(day));
    }
    assert_eq!(date(2026, 5, 4).year_digits(), "2026");
    assert_eq!(date(2026, 5, 4).month_digits(), "05");
    assert_eq!(date(2026, 5, 4).day_digits(), "04");
    assert_eq!(Date::parse("2026-02-30"), None);
    assert_eq!(Date::parse("2026/02/03"), None);
    assert_eq!(Date::parse(""), None);
}

#[test]
fn orders_dates() {
    assert!(date(2025, 12, 31).is_not_after(date(2026, 1, 1)));
    assert!(!date(2026, 1, 2).is_not_after(date(2026, 1, 1)));
    assert!(date(2026, 1, 1).same(date(2026, 1, 1)));
}

#[test]
fn reads_and_writes_rfc3339() {
    let time = LocalTime::parse_rfc3339("2026-05-14T06:15:30.250-06:00").unwrap();
    assert_eq!(time.offset(), -21600);
    assert_eq!(time.utc().seconds(), 1778760930);
    assert_eq!(time.utc().nanos(), 250_000_000);
    assert_eq!(time.to_rfc3339(), "2026-05-14T06:15:30.250-06:00");
    assert_eq!(time.utc().to_rfc3339(), "2026-05-14T12:15:30.250+00:00");
    assert_eq!(LocalTime::parse_rfc3339(&time.to_rfc3339()), Some(time));
    assert_eq!(LocalTime::parse_rfc3339("2026-05-14"), None);
    let odd = LocalTime::new(instant("2026-05-14T06:15:30.000000007Z"), 3630).unwrap();
    assert_eq!(odd.to_rfc3339(), "2026-05-14T07:16:00.000000007+01:01");
    let leap = LocalTime::parse_rfc3339("2016-12-31T23:59:60Z").unwrap();
    assert_eq!(leap.utc().nanos(), 1_000_000_000);
    assert_eq!(LocalTime::parse_rfc3339(&leap.to_rfc3339()), Some(leap));
}

#[test]
fn shows_the_local_date_hour_and_minute() {
    let time = LocalTime::parse_rfc3339("2026-05-14T03:07:30+00:00").unwrap();
    let west = LocalTime::new(time.utc(), -5 * 3600).unwrap();
    assert_eq!(west.date(), date(2026, 5, 13));
    assert_eq!(west.hour(), 22);
    assert_eq!(west.minute(), 7);
    assert_eq!(time.utc().date(), date(2026, 5, 14));
    let early = UtcTime::new(-1, 0).unwrap();
    assert_eq!(early.date(), date(1969, 12, 31));
    assert_eq!(LocalTime::new(early, 0).unwrap().hour(), 23);
}

#[test]
fn refuses_times_outside_the_calendar() {
    assert!(UtcTime::new(95026236 * 86400 + 86399, 0).is_some());
    assert!(UtcTime::new(95026237 * 86400, 0).is_none());
    assert!(UtcTime::new(-96465292 * 86400, 0).is_some());
    assert!(UtcTime::new(-96465292 * 86400 - 1, 0).is_none());
    assert!(UtcTime::new(59, 1_999_999_999).is_some());
    assert!(UtcTime::new(58, 1_000_000_000).is_none());
    assert!(UtcTime::new(59, 2_000_000_000).is_none());
    let last = UtcTime::new(95026236 * 86400 + 86399, 0).unwrap();
    assert!(LocalTime::new(last, 1).is_none());
    assert!(LocalTime::new(last, -1).is_some());
    assert!(LocalTime::new(last, -86400).is_none());
    assert_eq!(last.date(), date(262142, 12, 31));
    assert_eq!(UtcTime::new(-96465292 * 86400, 0).unwrap().date(), date(-262143, 1, 1));
    let zone = Zone::parse("America/Chicago").unwrap();
    let evening = CivilTime { seconds: 95026235 * 86400 + 82800, nanos: 0 };
    assert_eq!(zone.resolve(evening).unwrap().utc().date(), date(262142, 12, 31));
}

#[test]
fn knows_time_zones() {
    assert!(Zone::parse("America/Chicago").is_some());
    assert!(Zone::parse("America/Nowhere").is_none());
    let zone = Zone::parse("America/Chicago").unwrap();
    let summer = zone.local(instant("2026-07-01T12:00:00Z")).unwrap();
    assert_eq!(summer.offset(), -5 * 3600);
    let winter = zone.local(instant("2026-01-01T12:00:00Z")).unwrap();
    assert_eq!(winter.offset(), -6 * 3600);
    assert_eq!(winter.utc(), instant("2026-01-01T12:00:00Z"));
}

#[test]
fn resolves_clock_times_that_occur_once() {
    let zone = Zone::parse("America/Chicago").unwrap();
    let clock = |text: &str| CivilTime { seconds: instant(text).seconds(), nanos: 0 };
    let plain = zone.resolve(clock("2026-05-01T00:00:00Z")).unwrap();
    assert_eq!(plain.utc(), instant("2026-05-01T05:00:00Z"));
    assert_eq!(plain.offset(), -5 * 3600);
    assert!(zone.resolve(clock("2026-03-08T02:30:00Z")).is_none());
    assert!(zone.resolve(clock("2026-11-01T01:30:00Z")).is_none());
}

#[test]
fn shows_instants() {
    let time = instant("2026-05-14T06:15:30Z");
    assert_eq!(time.to_display(), "2026-05-14 06:15:30 UTC");
    assert_eq!(instant("2026-05-14T06:15:30.25Z").to_display(), "2026-05-14 06:15:30.250 UTC");
    assert_eq!(instant("2016-12-31T23:59:60.000001Z").to_display(), "2016-12-31 23:59:60.000001 UTC");
    assert_eq!(time.to_stamp(), "20260514T061530Z");
    assert_eq!(instant("2016-12-31T23:59:60Z").to_stamp(), "20161231T235960Z");
}

#[test]
fn counts_minutes_between_instants() {
    let time = instant("2026-05-14T06:00:00Z");
    assert_eq!(instant("2026-05-14T07:30:59Z").minutes_since(time), 90);
    assert_eq!(instant("2026-05-14T07:31:00Z").minutes_since(time), 91);
    assert_eq!(instant("2026-05-14T05:59:01Z").minutes_since(time), 0);
    assert_eq!(instant("2026-05-14T05:58:59.5Z").minutes_since(time), -1);
}
