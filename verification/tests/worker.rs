use chrono::{DateTime, Duration, Local, TimeZone};
use glmeter::api::{Percent, QuotaSnapshot, TokenWindow};
use glmeter::cards::{ResetCards, ResetRecord};
use glmeter::clock::{LocalTime, MAX_SECS, MIN_SECS};
use glmeter::config::Config;
use glmeter::ui::{Status, UiState};
use glmeter::worker::{
    backoff_secs, can_plan, can_postpone, current_reset, postpone_until, schedule_auto_activate, window_active, window_active_at,
    Outcome, Start, Worker,
};

fn today_at(h: u32, m: u32, s: u32) -> DateTime<Local> {
    let naive = Local::now().date_naive().and_hms_opt(h, m, s).unwrap();
    Local.from_local_datetime(&naive).single().unwrap()
}

fn local(d: DateTime<Local>) -> LocalTime {
    LocalTime {
        secs: d.timestamp(),
        nanos: d.timestamp_subsec_nanos(),
        offset: d.offset().local_minus_utc(),
    }
}

fn instant(t: LocalTime) -> (i64, u32) {
    (t.secs, t.nanos)
}

fn at(secs: i64) -> LocalTime {
    LocalTime { secs, nanos: 0, offset: 28_800 }
}

fn state_with(reset: Option<LocalTime>) -> UiState {
    let snap = QuotaSnapshot {
        level: "lite".into(),
        windows: vec![TokenWindow {
            label: "5小时额度".into(),
            used_pct: Percent::zero(),
            activated: reset.is_some(),
            next_reset: reset,
        }],
        mcp: None,
        fetched_at: LocalTime::now(),
        resets: None,
    };
    let mut state = UiState::new(Config::default(), "/tmp/x".to_string());
    state.status = Status::Ready(snap);
    state
}

fn willing(reset: Option<LocalTime>) -> UiState {
    let mut state = state_with(reset);
    state.cfg.auto_activate = true;
    state
}

#[test]
fn scheduled_activation_postponed_until_after_reset() {
    let now = today_at(14, 0, 0);
    let then = |d: Option<DateTime<Local>>| postpone_until(d.map(local), &local(now)).map(instant);
    let reset = now + Duration::seconds(30);
    assert_eq!(
        then(Some(reset)),
        Some(instant(local(now + Duration::seconds(90))))
    );
    let late = now + Duration::hours(4);
    assert_eq!(
        then(Some(late)),
        Some(instant(local(late + Duration::seconds(60))))
    );
    assert_eq!(then(None), None);
    assert_eq!(then(Some(now - Duration::seconds(1))), None);
}

#[test]
fn window_active_requires_future_reset_with_margin() {
    let mk = |reset: Option<DateTime<Local>>| state_with(reset.map(local));
    assert!(window_active(&mk(Some(Local::now() + Duration::hours(5)))));
    assert!(!window_active(&mk(Some(
        Local::now() + Duration::seconds(30)
    ))));
    assert!(!window_active(&mk(Some(
        Local::now() - Duration::minutes(1)
    ))));
    assert!(!window_active(&mk(None)));
}

#[test]
fn the_margin_of_an_active_window() {
    let now = LocalTime { secs: 1_000, nanos: 5, offset: 0 };
    let reset = |secs: i64, nanos: u32| state_with(Some(LocalTime { secs, nanos, offset: 0 }));
    assert!(!window_active_at(&reset(1_090, 5), &now));
    assert!(window_active_at(&reset(1_090, 6), &now));
    assert!(window_active_at(&reset(1_091, 0), &now));
    let mut failed = reset(9_999, 0);
    failed.status = Status::Failed("x".to_string());
    assert!(!window_active_at(&failed, &now));
    assert!(current_reset(&failed).is_none());
    assert_eq!(current_reset(&reset(7, 8)).map(instant), Some((7, 8)));
}

#[test]
fn pauses_double_up_to_an_hour() {
    let secs: Vec<u64> = (1..8).map(backoff_secs).collect();
    assert_eq!(secs, vec![300, 600, 1200, 2400, 3600, 3600, 3600]);
    assert_eq!(backoff_secs(u32::MAX), 3600);
}

#[test]
fn activation_is_planned_once() {
    let now = at(1_000_000);
    let mut planned = None;
    let unused = willing(None);
    let r = schedule_auto_activate(&unused, &mut planned, &None, &now);
    assert_eq!(r.map(instant), Some((1_000_005, 0)));
    assert!(schedule_auto_activate(&unused, &mut planned, &None, &now).is_none());
    assert_eq!(planned.map(instant), Some((1_000_005, 0)));

    let running = willing(Some(at(1_003_600)));
    let r = schedule_auto_activate(&running, &mut planned, &None, &now);
    assert_eq!(r.map(instant), Some((1_003_660, 0)));
    let later = at(1_000_100);
    assert!(schedule_auto_activate(&running, &mut planned, &None, &later).is_none());
    assert_eq!(planned.map(instant), Some((1_003_660, 0)));

    let due = willing(Some(at(1_000_000)));
    let r = schedule_auto_activate(&due, &mut planned, &None, &now);
    assert_eq!(r.map(instant), Some((1_000_030, 0)));
}

#[test]
fn nothing_is_planned_unasked() {
    let now = at(1_000_000);
    let mut planned = Some(at(5));
    assert!(schedule_auto_activate(&state_with(None), &mut planned, &None, &now).is_none());
    assert!(planned.is_none());
    let mut planned = Some(at(5));
    assert!(schedule_auto_activate(&willing(None), &mut planned, &Some(at(1_000_001)), &now).is_none());
    assert!(planned.is_none());
    assert!(schedule_auto_activate(&willing(None), &mut planned, &Some(now), &now).is_some());
    let mut empty = willing(None);
    empty.status = Status::Loading;
    assert!(schedule_auto_activate(&empty, &mut planned, &None, &now).is_none());
    assert!(planned.is_none());
}

#[test]
fn a_scheduled_activation_waits_for_the_reset() {
    let w = Worker::new();
    let now = at(1_767_225_600);
    let state = state_with(Some(at(1_767_225_600 + 1_740)));
    match w.start_activation(&state, true, &now) {
        Start::Postpone { until, busy, log } => {
            assert_eq!(until.secs, 1_767_225_600 + 1_800);
            let shown = Local.timestamp_opt(until.secs, 0).unwrap().format("%H:%M").to_string();
            assert_eq!(busy, format!("定点激活：等待当前窗口{}重置后自动续接…", shown));
            assert_eq!(log, format!("定点激活：当前窗口尚未重置，推迟至 {} 续接新窗口", shown));
        }
        Start::Send { .. } => panic!("sent"),
    }
    assert!(matches!(
        w.start_activation(&state, false, &now),
        Start::Send { busy } if busy == "激活中，发送最小请求…"
    ));
    assert!(matches!(w.start_activation(&state_with(None), true, &now), Start::Send { .. }));
}

#[test]
fn a_round_of_requests_and_the_pause_after_it() {
    let mut w = Worker::new();
    let now = at(1_000_000);
    let dead = willing(None);
    w.scheduled = Some(at(3));
    for n in 1..4 {
        match w.activated(&dead, n == 2, &now) {
            Outcome::Retry { delay_secs, scheduled, busy } => {
                assert_eq!((delay_secs, scheduled), (60, n == 2));
                assert_eq!(busy, format!("激活未生效，60秒后重试（{}/3）", n));
            }
            _ => panic!("no retry"),
        }
        assert!(matches!(
            w.start_activation(&dead, true, &now),
            Start::Send { busy } if busy == format!("激活重试 {}/3…", n)
        ));
    }
    assert_eq!(w.scheduled.map(instant), Some((3, 0)));
    match w.activated(&dead, true, &now) {
        Outcome::BackOff { delay_secs, busy, log } => {
            assert_eq!(delay_secs, 300);
            assert_eq!(busy, "激活未生效，5分钟后自动重试（第1轮退避）");
            assert_eq!(log, "激活重试 3 次仍未生效，5分钟后重新评估");
        }
        _ => panic!("no pause"),
    }
    assert_eq!((w.activate_retries, w.failed_rounds), (0, 1));
    assert_eq!(w.cooldown_until.map(instant), Some((1_000_300, 0)));
    assert!(w.scheduled.is_none());
    assert!(w.fetched(&dead, &at(1_000_299)).is_none());
    assert_eq!(w.fetched(&dead, &at(1_000_300)).map(instant), Some((1_000_305, 0)));
    assert_eq!(w.failed_rounds, 1);
}

#[test]
fn an_active_window_ends_the_round() {
    let now = at(1_000_000);
    let fresh = willing(Some(at(1_018_000)));
    let mut w = Worker { scheduled: None, activate_retries: 2, failed_rounds: 4, cooldown_until: Some(at(2_000_000)) };
    match w.activated(&fresh, false, &now) {
        Outcome::Done { next } => assert_eq!(next.map(instant), Some((1_018_060, 0))),
        _ => panic!("not done"),
    }
    assert_eq!((w.activate_retries, w.failed_rounds), (0, 0));
    assert!(w.cooldown_until.is_none());
    let mut w = Worker { scheduled: None, activate_retries: 2, failed_rounds: 4, cooldown_until: Some(at(2_000_000)) };
    assert_eq!(w.fetched(&fresh, &now).map(instant), Some((1_018_060, 0)));
    assert_eq!((w.activate_retries, w.failed_rounds), (2, 0));
    assert!(w.cooldown_until.is_none());
}

#[test]
fn what_a_query_brings_is_taken_over() {
    let mut state = UiState::new(Config::default(), "p".to_string());
    assert!(matches!(state.status, Status::NoKey));
    state.busy = Some("b".to_string());
    state.settle(Config::default(), Err("e".to_string()));
    assert!(matches!(state.status, Status::NoKey) && state.busy.is_none());
    let keyed = Config { api_key: " k ".to_string(), ..Config::default() };
    state.settle(keyed.clone(), Err("e".to_string()));
    assert!(matches!(&state.status, Status::Failed(e) if e == "e"));
    assert_eq!(state.cfg.api_key, " k ");
    let snap = match state_with(None).status {
        Status::Ready(s) => s,
        _ => panic!("no snapshot"),
    };
    state.settle(keyed, Ok(snap));
    assert!(matches!(&state.status, Status::Ready(s) if s.level == "lite"));
    assert_eq!(state.cfg_path, "p");
}

#[test]
fn the_card_that_is_used() {
    let mut state = state_with(None);
    assert_eq!(state.card_to_use(false), None);
    if let Status::Ready(s) = &mut state.status {
        let card = |record_id: i64, t: &str| ResetRecord { record_id, expire_time: t.to_string(), available: true };
        s.resets = Some(ResetCards { five_hour: vec![card(1, "b"), card(2, "a")], week: vec![card(3, "c")] });
    }
    assert_eq!(state.card_to_use(false), Some(2));
    assert_eq!(state.card_to_use(true), Some(3));
}

#[test]
fn times_near_the_end_of_the_calendar() {
    let end = |n: i64| LocalTime { secs: MAX_SECS - n, nanos: 0, offset: 0 };
    assert!(can_plan(&willing(None), &None, &end(5)) && !can_plan(&willing(None), &None, &end(4)));
    assert!(can_plan(&state_with(None), &None, &end(4)));
    assert!(can_plan(&willing(Some(end(60))), &None, &at(0)) && !can_plan(&willing(Some(end(59))), &None, &at(0)));
    assert!(can_plan(&willing(Some(at(0))), &None, &end(30)) && !can_plan(&willing(Some(at(0))), &None, &end(29)));
    assert!(can_postpone(&Some(end(60)), &at(0)) && !can_postpone(&Some(end(59)), &at(0)));
    assert!(can_postpone(&Some(end(59)), &end(0)) && can_postpone(&None, &at(0)));
    let mut w = Worker::new();
    assert!(w.can_fetch(&willing(None), &end(5)) && !w.can_fetch(&willing(None), &end(4)));
    assert!(w.can_settle(&willing(None), &end(0)));
    w.activate_retries = 3;
    assert!(w.can_settle(&willing(None), &end(300)) && !w.can_settle(&willing(None), &end(299)));
    w.failed_rounds = u32::MAX;
    assert!(!w.can_settle(&willing(None), &at(0)));
    let start = LocalTime { secs: MIN_SECS, nanos: 0, offset: -3_600 };
    let mut planned = None;
    let reset = LocalTime { secs: MIN_SECS + 9, nanos: 0, offset: -3_600 };
    let r = schedule_auto_activate(&willing(Some(reset)), &mut planned, &None, &start);
    assert_eq!(r.map(instant), Some((MIN_SECS + 69, 0)));
}
