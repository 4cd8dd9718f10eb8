use chrono::{DateTime, Duration, Local, NaiveTime, TimeZone, Timelike};
use glmeter::clock::{DayTime, LocalTime, Pause, MAX_SECS};
use glmeter::ticker::{
    daily_step, interval_of, keep_present, next_aligned, next_daily, next_from_starts, next_of, next_on_grid,
    parse_activate_at,    parse_align, read_entry, tomorrow_exists, DailyStep, DailyTicker, IntervalStep, IntervalTicker,
};

fn today_at(h: u32, m: u32, s: u32) -> DateTime<Local> {
    let naive = Local::now().date_naive().and_hms_opt(h, m, s).unwrap();
    Local.from_local_datetime(&naive).single().unwrap()
}

fn local(d: DateTime<Local>) -> LocalTime {
    LocalTime {
        secs: d.timestamp(),
        nanos: d.timestamp_subsec_nanos(),
        offset: d.offset().local_minus_utc(),
    }
}

fn day_time(t: NaiveTime) -> DayTime {
    DayTime { secs: t.num_seconds_from_midnight(), nanos: t.nanosecond() }
}

fn instant(t: LocalTime) -> (i64, u32) {
    (t.secs, t.nanos)
}

fn utc(secs: i64) -> LocalTime {
    LocalTime { secs, nanos: 0, offset: 0 }
}

#[test]
fn daily_times() {
    let nine = day_time(NaiveTime::from_hms_opt(9, 0, 0).unwrap());
    let eight = day_time(NaiveTime::from_hms_opt(8, 0, 0).unwrap());

    let now = local(today_at(7, 30, 0));
    assert_eq!(instant(next_daily(&vec![nine], &now).unwrap()), instant(local(today_at(9, 0, 0))));
    let now = local(today_at(9, 0, 1));
    let expect = local(today_at(9, 0, 0) + Duration::days(1));
    assert_eq!(instant(next_daily(&vec![nine], &now).unwrap()), instant(expect));
    let now = local(today_at(8, 30, 0));
    assert_eq!(
        instant(next_daily(&vec![nine, eight], &now).unwrap()),
        instant(local(today_at(9, 0, 0)))
    );
    let now = local(today_at(8, 0, 0));
    assert_eq!(
        instant(next_daily(&vec![eight], &now).unwrap()),
        instant(local(today_at(8, 0, 0) + Duration::days(1)))
    );
    assert!(next_daily(&vec![], &local(Local::now())).is_none());
}

#[test]
fn parse_activate_at_entries() {
    let ok = parse_activate_at(&vec!["09:00".into(), " 21:30 ".into(), "09:00:05".into()]);
    assert_eq!(ok.len(), 3);
    let bad = parse_activate_at(&vec!["9点".into(), "".into()]);
    assert!(bad.is_empty());
}

#[test]
fn aligned_grid() {
    let align = day_time(NaiveTime::from_hms_opt(9, 30, 0).unwrap());
    let base = today_at(9, 30, 0);

    let now = local(today_at(9, 0, 0));
    assert_eq!(instant(next_aligned(&align, 300, &now)), instant(local(base)));
    assert_eq!(
        instant(next_aligned(&align, 300, &local(base + Duration::seconds(10)))),
        instant(local(base + Duration::seconds(300)))
    );
    assert_eq!(
        instant(next_aligned(&align, 300, &local(base + Duration::seconds(300)))),
        instant(local(base + Duration::seconds(600)))
    );
    let late = today_at(23, 50, 0);
    let jumps = ((late - base).num_seconds() / 300 + 1) * 300;
    assert_eq!(
        instant(next_aligned(&align, 300, &local(late))),
        instant(local(base + Duration::seconds(jumps)))
    );
}

#[test]
fn entries_mean_what_they_say() {
    let times = parse_activate_at(&vec![
        "09:05".to_string(),
        "25:00".to_string(),
        "\t23:59:58\n".to_string(),
        "00:00".to_string(),
    ]);
    let secs: Vec<u32> = times.iter().map(|t| t.secs).collect();
    assert_eq!(secs, vec![9 * 3600 + 300, 86_398, 0]);
    assert!(times.iter().all(|t| t.nanos == 0));
    assert_eq!(read_entry("12:34").map(|t| t.secs), Some(45_240));
    assert!(read_entry("12-34").is_none());
    let list = vec![None, Some(DayTime { secs: 1, nanos: 0 }), None, Some(DayTime { secs: 0, nanos: 2 })];
    let kept: Vec<(u32, u32)> = keep_present(&list).iter().map(|t| (t.secs, t.nanos)).collect();
    assert_eq!(kept, vec![(1, 0), (0, 2)]);
}

#[test]
fn entries_are_read_field_by_field() {
    let secs = |text: &str| read_entry(text).map(|t| (t.secs, t.nanos));
    assert_eq!(secs("9:5"), Some((9 * 3600 + 300, 0)));
    assert_eq!(secs("9: 5: 07"), Some((9 * 3600 + 307, 0)));
    assert_eq!(secs("23:59:60"), Some((86_399, 1_000_000_000)));
    assert_eq!(secs("\u{3000}00:00\u{a0}"), Some((0, 0)));
    for bad in [
        "9点", "", " ", "9", "9:", ":5", "24:00", "09:60", "09:00:61", "009:00", "09:000", "9 :5", "+9:05", "09:00x",
        "09:00:", "09:00:00:00", "０９:00", "9：05",
    ] {
        assert_eq!(secs(bad), None, "{}", bad);
    }
    let align = |text: &str| parse_align(&Some(text.to_string())).map(|t| t.secs);
    assert_eq!(align(" 9:30"), Some(34_200));
    assert_eq!(align("9:30 "), None);
}

#[test]
fn the_start_of_the_grid_is_read() {
    assert_eq!(parse_align(&Some("09:30".to_string())).map(|t| t.secs), Some(34_200));
    assert!(parse_align(&Some("09:30:00".to_string())).is_none());
    assert!(parse_align(&Some("".to_string())).is_none());
    assert!(parse_align(&None).is_none());
}

#[test]
fn the_earliest_reading_ahead_is_next() {
    let now = utc(1_000);
    let r = next_of(&vec![(Some(utc(900)), Some(utc(5_000))), (Some(utc(3_000)), Some(utc(4_000)))], &now);
    assert_eq!(r.map(instant), Some((3_000, 0)));
    let r = next_of(&vec![(None, Some(utc(2_000))), (Some(utc(3_000)), None)], &now);
    assert_eq!(r.map(instant), Some((2_000, 0)));
    let r = next_of(&vec![(Some(utc(1_000)), None), (None, None)], &now);
    assert!(r.is_none());
    let first = LocalTime { offset: 60, ..utc(2_000) };
    let r = next_of(&vec![(Some(first), None), (Some(utc(2_000)), None)], &now);
    assert_eq!(r.unwrap().offset, 60);
}

#[test]
fn grid_points_by_the_nanosecond() {
    let base = utc(10_000);
    let at = |secs: i64, nanos: u32| LocalTime { secs, nanos, offset: 0 };
    assert_eq!(instant(next_on_grid(&base, 300, &at(9_999, 500_000_000))), (10_000, 0));
    assert_eq!(instant(next_on_grid(&base, 300, &at(10_000, 0))), (10_300, 0));
    assert_eq!(instant(next_on_grid(&base, 300, &at(10_299, 999_999_999))), (10_300, 0));
    assert_eq!(instant(next_on_grid(&base, 300, &at(10_300, 0))), (10_600, 0));
    let late = at(10_000, 7);
    assert_eq!(instant(next_on_grid(&late, 60, &at(10_060, 6))), (10_060, 7));
    assert_eq!(instant(next_on_grid(&late, 60, &at(10_060, 7))), (10_120, 7));
    assert_eq!(instant(next_on_grid(&base, 1, &at(20_000, 1))), (20_001, 0));
}

#[test]
fn the_grid_starts_anew_every_day() {
    let at = |day: i64, h: i64, m: i64| utc(day * 86_400 + h * 3_600 + m * 60);
    let starts = |now: LocalTime| next_from_starts(Some(at(9, 0, 10)), Some(at(10, 0, 10)), 25_200, &now);
    assert_eq!(instant(starts(at(9, 0, 0))), instant(at(9, 0, 10)));
    assert_eq!(instant(starts(at(9, 0, 10))), instant(at(9, 7, 10)));
    assert_eq!(instant(starts(at(9, 20, 0))), instant(at(9, 21, 10)));
    assert_eq!(instant(starts(at(9, 23, 0))), instant(at(10, 0, 10)));
    let lost = next_from_starts(None, Some(at(10, 0, 10)), 600, &at(9, 23, 0));
    assert_eq!(instant(lost), instant(at(9, 23, 10)));
    let alone = next_from_starts(Some(at(9, 0, 10)), None, 25_200, &at(9, 23, 0));
    assert_eq!(instant(alone), instant(at(10, 4, 10)));

    let align = DayTime { secs: 600, nanos: 0 };
    let now = today_at(23, 0, 0);
    let expect = today_at(0, 10, 0) + Duration::days(1);
    assert_eq!(instant(next_aligned(&align, 25_200, &local(now))), instant(local(expect)));
    let mut t = IntervalTicker::new(local(now));
    t.update(Some("00:10".to_string()));
    assert_eq!(instant(t.next_fire(25_200)), instant(local(expect)));
}

#[test]
fn room_for_an_interval() {
    let end = LocalTime { secs: MAX_SECS - 300, nanos: 0, offset: 3_600 };
    let mut t = IntervalTicker::new(end);
    assert!(t.has_room(300) && !t.has_room(301));
    t.update(Some("00:10".to_string()));
    assert!(!t.has_room(300));
    let ahead = utc(MAX_SECS);
    assert_eq!(instant(next_on_grid(&ahead, u64::MAX, &utc(0))), (MAX_SECS, 0));
}

#[test]
fn days_at_the_end_of_the_calendar() {
    assert!(tomorrow_exists(&utc(0)));
    assert!(tomorrow_exists(&utc(MAX_SECS - 86_400)));
    assert!(!tomorrow_exists(&utc(MAX_SECS - 86_399)));
}

#[test]
fn the_daily_ticker_follows_its_setting() {
    let mut t = DailyTicker::new();
    assert!(t.times.is_empty());
    assert!(t.update(vec!["08:00".to_string(), "x".to_string()]));
    assert_eq!(t.times.len(), 1);
    assert!(!t.update(vec!["08:00".to_string(), "x".to_string()]));
    assert_eq!(t.times[0].secs, 28_800);
    assert!(t.update(vec!["08:00".to_string()]));
    assert!(t.update(vec![]));
    assert!(t.times.is_empty());
}

#[test]
fn daily_steps() {
    let now = LocalTime { secs: 1_000, nanos: 500, offset: 0 };
    let pause = |secs: u64, nanos: u32| Pause { secs, nanos };
    assert!(matches!(daily_step(&None, &now), DailyStep::Sleep(p) if p == pause(60, 0)));
    let soon = LocalTime { secs: 1_060, nanos: 500, offset: 0 };
    assert!(matches!(daily_step(&Some(soon), &now), DailyStep::SleepThenActivate(p) if p == pause(60, 0)));
    let far = LocalTime { secs: 1_060, nanos: 501, offset: 0 };
    assert!(matches!(daily_step(&Some(far), &now), DailyStep::Sleep(p) if p == pause(60, 0)));
    let near = LocalTime { secs: 1_001, nanos: 0, offset: 0 };
    assert!(matches!(
        daily_step(&Some(near), &now),
        DailyStep::SleepThenActivate(p) if p == pause(0, 999_999_500)
    ));
    assert!(matches!(
        daily_step(&Some(utc(5)), &now),
        DailyStep::SleepThenActivate(p) if p == pause(60, 0)
    ));
}

#[test]
fn the_interval_ticker_counts_from_the_last_query() {
    let mut t = IntervalTicker::new(utc(1_000));
    assert!(t.update(None));
    assert!(!t.update(None));
    assert!(t.has_room(30));
    let next = t.next_fire(30);
    assert_eq!(instant(next), (1_060, 0));
    assert!(matches!(t.step(30, &next, &utc(1_059)), IntervalStep::Sleep(p) if p == Pause { secs: 1, nanos: 0 }));
    assert_eq!(t.last_fire.secs, 1_000);
    assert!(matches!(t.step(30, &next, &utc(1_061)), IntervalStep::Fetch));
    assert_eq!(t.last_fire.secs, 1_061);
    let next = t.next_fire(500);
    assert_eq!(instant(next), (1_561, 0));
    assert!(matches!(t.step(500, &next, &utc(1_061)), IntervalStep::Sleep(p) if p == Pause { secs: 60, nanos: 0 }));
    assert!(!t.has_room(u64::MAX));
    assert_eq!((interval_of(0), interval_of(60), interval_of(61)), (60, 60, 61));
}

#[test]
fn the_aligned_ticker_queries_on_the_grid() {
    let start = today_at(12, 0, 10);
    let mut t = IntervalTicker::new(local(start));
    assert!(t.update(Some("12:00".to_string())));
    let next = t.next_fire(300);
    let expect = local(today_at(12, 5, 0));
    assert_eq!(instant(next), instant(expect));
    let woken = local(today_at(12, 5, 0) + Duration::milliseconds(3));
    assert!(matches!(t.step(300, &next, &woken), IntervalStep::Fetch));
    assert_eq!(instant(t.next_fire(300)), instant(local(today_at(12, 10, 0))));
    assert!(t.update(Some("soon".to_string())));
    assert!(t.align.is_none());
    assert_eq!(t.next_fire(300).secs, woken.secs + 300);
}
