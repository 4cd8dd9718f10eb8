use chrono::Local;
use glmeter::api::{McpLimit, Percent, QuotaSnapshot, TokenWindow};
use glmeter::clock::{LocalTime, MAX_SECS, MIN_SECS};
use glmeter::command::{choose_line, tray_command, Choice, Cmd, ID_RESET_SITE, ID_USE_RESET_5H, ID_USE_RESET_WEEK};
use glmeter::config::Config;
use glmeter::menu::{self, NativeItem, Shape};
use glmeter::report::{bars_fit, check_status, remaining, report, report_at};
use glmeter::sni::{escape_label, tray_menu, TrayItem};
use glmeter::template::{render_template, render_template_at, substitute, template_vars, title_text, title_text_at};
use glmeter::tooltip::{tooltip, tooltip_at};
use glmeter::trayicon::{build_menu, kinds_of, render, render_at, slot_texts, MenuUpdate, Slots};
use glmeter::ui::{
    self, activate_text, bar, countdown, fmt_reset, level_text, menu_entries_at, pct, MenuEntry, Status, UiState,
    ID_ACTIVATE, ID_CONFIG, ID_QUIT, ID_REFRESH, ID_REPO,
};

fn percent(p: f64) -> Percent {
    let left = 100.0 - p;
    let cells = |part: f64, len: f64| (part.clamp(0.0, 100.0) / 100.0 * len).round() as usize;
    Percent {
        used: p.round() as i64,
        left: left.round() as i64,
        left_of_12: cells(left, 12.0),
        left_of_16: cells(left, 16.0),
        used_of_24: (p / 100.0 * 24.0).round() as usize,
        used_text: format!("{:.0}", p),
        left_text: format!("{:.0}", left),
        exact_text: format!("{}", p),
    }
}

/// The first of January 2026, 08:00:00 in China.
fn now() -> LocalTime {
    LocalTime { secs: 1_767_225_600, nanos: 0, offset: 28_800 }
}

fn after(secs: i64) -> LocalTime {
    LocalTime { secs: 1_767_225_600 + secs, nanos: 0, offset: 28_800 }
}

fn snapshot() -> QuotaSnapshot {
    QuotaSnapshot {
        level: "lite".into(),
        windows: vec![
            TokenWindow {
                label: "5小时额度".into(),
                used_pct: percent(24.0),
                activated: true,
                next_reset: Some(after(3 * 3600 + 300)),
            },
            TokenWindow { label: "每周额度".into(), used_pct: percent(99.6), activated: false, next_reset: None },
        ],
        mcp: Some(McpLimit {
            used: 13,
            total: 100,
            used_pct: percent(12.5),
            details: vec![("zread".into(), 7), ("web_search".into(), 6)],
            next_reset: Some(after(20 * 86_400)),
        }),
        fetched_at: after(-1),
        resets: None,
    }
}

fn state() -> UiState {
    let mut s = UiState::new(Config::default(), "/tmp/x".to_string());
    s.status = Status::Ready(snapshot());
    s
}

fn ok_state() -> UiState {
    let local = |d: chrono::DateTime<Local>| LocalTime {
        secs: d.timestamp(),
        nanos: d.timestamp_subsec_nanos(),
        offset: d.offset().local_minus_utc(),
    };
    let snap = QuotaSnapshot {
        level: "lite".into(),
        windows: vec![TokenWindow {
            label: "5小时额度".into(),
            used_pct: percent(30.0),
            activated: true,
            next_reset: Some(local(Local::now() + chrono::Duration::hours(3))),
        }],
        mcp: Some(McpLimit {
            used: 13,
            total: 100,
            used_pct: percent(13.0),
            details: vec![("zread".into(), 7)],
            next_reset: Some(local(Local::now() + chrono::Duration::days(20))),
        }),
        fetched_at: local(Local::now()),
        resets: None,
    };
    let mut state = UiState::new(Config::default(), "/tmp/x".to_string());
    state.status = Status::Ready(snap);
    state
}

fn lines(entries: &Vec<MenuEntry>) -> Vec<String> {
    entries
        .iter()
        .map(|e| match e {
            MenuEntry::Info(t) => format!("i {}", t),
            MenuEntry::Button { id, text } => format!("b {} {}", id, text),
            MenuEntry::Separator => "s".to_string(),
        })
        .collect()
}

#[test]
fn slots_and_slot_texts_align_on_non_separator_entries() {
    let entries = ui::menu_entries(&ok_state());
    assert!(entries.iter().any(|e| matches!(e, MenuEntry::Separator)));

    let slots = Slots::from_entries(&entries);
    let texts = slot_texts(&entries);
    assert_eq!(slots.0.len(), texts.len(), "槽位数与文本数必须一致");

    let expected: Vec<&String> = entries
        .iter()
        .filter_map(|e| match e {
            MenuEntry::Info(t) | MenuEntry::Button { text: t, .. } => Some(t),
            MenuEntry::Separator => None,
        })
        .collect();
    assert_eq!(texts, expected);
    assert!(texts.iter().any(|t| t.contains("5小时额度")));
}

#[test]
fn the_menu_of_a_snapshot() {
    let mut s = state();
    s.busy = Some("b".to_string());
    let v = lines(&menu_entries_at(&s, &now()));
    let expect = vec![
        "i GLM Coding Plan · Lite 套餐",
        "s",
        "i 5小时额度 █████████░░░ 剩余 76%",
        "i   ↻ 重置 今天 11:05（3小时05分后）",
        "i 每周额度 ░░░░░░░░░░░░ 剩余 0%",
        "i   ↻ 未激活，点下方「激活额度」开始计算",
        "s",
        "i MCP 月额度 ███████████░ 13/100 次",
        "i   · zread 7 · web_search 6",
        "i   ↻ 重置 01-21 08:00",
        "s",
        "i ⏳ b",
        "b activate ⚡ 激活额度（发送 \"1\"）",
        "b refresh ↻ 立即刷新（更新于 07:59:59）",
        "b config ⚙ 打开配置文件",
        "b repo ↗ GLMeter v0.1.0 · github.com/crazykun/GLMeter",
        "b quit ✕ 退出",
    ];
    assert_eq!(v, expect);
}

#[test]
fn the_menu_without_a_snapshot() {
    let mut s = UiState::new(Config::default(), "/tmp/x".to_string());
    let v = lines(&menu_entries_at(&s, &now()));
    assert_eq!(v[0], "i 未配置 API Key");
    assert_eq!(v[1], "i 配置文件: /tmp/x");
    assert_eq!(v[2], "i 填入 api_key 保存后，点击「刷新」即可");
    assert_eq!(v[5], "b refresh ↻ 立即刷新");
    s.status = Status::Loading;
    assert_eq!(lines(&menu_entries_at(&s, &now()))[0], "i 加载中…");
    s.status = Status::Failed("x".repeat(100));
    let v = lines(&menu_entries_at(&s, &now()));
    assert_eq!(v[0], format!("i ⚠ {}", "x".repeat(28)));
    assert_eq!(v[3], "s");
    s.status = Status::Failed(String::new());
    assert_eq!(lines(&menu_entries_at(&s, &now()))[0], "i ⚠ (空)");
}

#[test]
fn parts_of_lines() {
    assert_eq!(bar(9, 12), "█████████░░░");
    assert_eq!(bar(99, 3), "███");
    assert_eq!(bar(0, 2), "░░");
    assert_eq!(pct(-3), "-3%");
    assert_eq!(level_text(""), "…");
    assert_eq!(level_text("max"), "Max");
    assert_eq!(level_text("ßa"), "SSa");
    assert_eq!(level_text("1a"), "1a");
    assert_eq!(fmt_reset(&after(57_599), &now()), "今天 23:59");
    assert_eq!(fmt_reset(&after(57_600), &now()), "明天 00:00");
    assert_eq!(fmt_reset(&after(57_600 + 86_400), &now()), "01-03 00:00");
    assert_eq!(fmt_reset(&after(-28_801), &now()), "12-31 23:59");
    assert_eq!(fmt_reset(&after(59 * 86_400), &now()), "03-01 08:00");
    assert_eq!(fmt_reset(&after(58 * 86_400 + 365 * 2 * 86_400), &now()), "02-28 08:00");
    assert_eq!(fmt_reset(&after(59 * 86_400 + 365 * 2 * 86_400), &now()), "02-29 08:00");
    assert_eq!(countdown(&after(59), &now()), "即将重置");
    assert_eq!(countdown(&after(-5), &now()), "即将重置");
    assert_eq!(countdown(&after(60), &now()), "1分");
    assert_eq!(countdown(&after(3_599), &now()), "59分");
    assert_eq!(countdown(&after(3_600), &now()), "1小时00分");
    assert_eq!(activate_text(&state()), "⚡ 激活额度（发送 \"1\"）");
    let mut unused = state();
    if let Status::Ready(s) = &mut unused.status {
        s.windows[0].activated = false;
    }
    assert_eq!(activate_text(&unused), "⚡ 激活 5 小时额度（当前未激活）");
}

#[test]
fn templates() {
    let s = state();
    let t = "{level} {5h_used}/{5h_left} {5h_reset} {5h_countdown} {weekly_used} {weekly_left} \
             {mcp_used} {mcp_total} {mcp_left} {other} {";
    assert_eq!(
        render_template_at(t, &s, &now()),
        "Lite 24/76 今天 11:05 3小时05分 100 0 13 100 87 {other} {"
    );
    assert_eq!(render_template("plain", &s), "plain");
    let mut bare = UiState::new(Config::default(), "".to_string());
    bare.cfg.tray_title = "{5h_left}|{level}".to_string();
    assert_eq!(title_text_at(&bare, &now()), "—|—");
    bare.busy = Some("x".to_string());
    assert_eq!(title_text(&bare), "⏳ —|—");
    let mut unused = state();
    if let Status::Ready(q) = &mut unused.status {
        q.windows[0].next_reset = None;
        q.windows.truncate(1);
        q.mcp = None;
    }
    assert_eq!(
        render_template_at("{5h_reset} {5h_countdown} {weekly_used} {mcp_left}", &unused, &now()),
        "未激活 未激活 — —"
    );
    let names: Vec<&str> = template_vars(&s, &now()).iter().map(|v| v.0).collect();
    assert_eq!(names.len(), 10);
    assert_eq!(names[4], "5h_countdown");
    let vars = vec![("a", "{b}".to_string()), ("b", "c".to_string())];
    assert_eq!(substitute("{a}{a}{b}", &vars), "ccc");
}

#[test]
fn tooltips() {
    let mut s = state();
    s.busy = Some("b".to_string());
    let (title, body) = tooltip_at(&s, &now());
    assert_eq!(title, "GLMeter · Lite 套餐");
    assert_eq!(
        body,
        vec![
            "5小时额度 ████████████░░░░ 剩余 76%",
            "重置 今天 11:05（3小时05分后）",
            "每周额度 ░░░░░░░░░░░░░░░░ 剩余 0%",
            "未激活（菜单中可激活）",
            "MCP 月额度 ██████████████░░ 剩余 87 次",
            "⏳ b",
            "更新于 07:59:59",
        ]
    );
    s.status = Status::Failed("y".repeat(41));
    let (title, body) = tooltip(&s);
    assert_eq!(title, "GLMeter · 查询失败");
    assert_eq!(body, vec!["y".repeat(40), "y".to_string()]);
    s.status = Status::NoKey;
    assert_eq!(tooltip(&s).1, vec!["未配置 API Key", "配置文件: /tmp/x"]);
    s.status = Status::Loading;
    assert_eq!(tooltip(&s), ("GLMeter".to_string(), vec!["加载中…".to_string()]));
}

#[test]
fn the_native_menu() {
    let s = state();
    assert_eq!(menu::shape_of(&s), Shape::Quota { windows: 2, mcp: true, mcp_details: 2 });
    assert_eq!(menu::header_text(&s), "GLM Coding Plan · Lite · 更新于 07:59");
    let rows = menu::rows_text(&s, &now());
    assert_eq!(
        rows,
        vec![
            "5小时额度: 已用 24%（剩余 76%）",
            "  ↻ 重置 今天 11:05（3小时05分后）",
            "每周额度: 已用 100%（剩余 0%）",
            "  ↻ 未激活，点下方「激活额度」开始计算",
            "MCP 月额度: 13/100 次（已用 13%）",
            "  · zread 7 · web_search 6",
        ]
    );
    let (items, mut slots) = menu::build_at(&s, &now());
    assert_eq!(items.len(), 2 + 6 + 6);
    assert!(matches!(items[1], NativeItem::Separator) && matches!(items[8], NativeItem::Separator));
    assert!(matches!(&items[9], NativeItem::Item { id: "activate", enabled: true, .. }));
    assert!(matches!(&items[12], NativeItem::Item { id: "info", text, enabled: false }
        if text == "GLMeter v0.1.0 · github.com/crazykun/GLMeter"));
    let mut failed = state();
    failed.status = Status::Failed("no".to_string());
    failed.busy = Some("b".to_string());
    menu::apply_at(&mut slots, &failed, &now());
    assert_eq!(slots.header, "⏳ GLM Coding Plan · 查询失败");
    assert_eq!(slots.rows[0], "⚠ no");
    assert_eq!(slots.rows[1], rows[1]);
    menu::apply(&mut slots, &failed);
    assert_eq!(slots.rows.len(), 6);
    assert_eq!(menu::build(&failed).0.len(), 2 + 1 + 6);
    assert_eq!(menu::shape_of(&failed), Shape::Error(1));
}

#[test]
fn the_one_line_tooltip() {
    let mut s = state();
    assert_eq!(menu::tooltip_at(&s, &now()), "GLMeter · 5h剩余76% · 重置 今天 11:05");
    s.busy = Some("x".to_string());
    s.status = Status::Failed("z".repeat(70));
    assert_eq!(menu::tooltip(&s), format!("⏳ GLMeter · 查询失败: {}", "z".repeat(60)));
    s.status = Status::NoKey;
    assert_eq!(menu::tooltip(&s), "⏳ GLMeter · 未配置 API Key");
    s.busy = None;
    s.status = Status::Loading;
    assert_eq!(menu::tooltip(&s), "GLMeter · 加载中…");
}

#[test]
fn rows_follow_the_shape() {
    let mut s = state();
    if let Status::Ready(q) = &mut s.status {
        let m = q.mcp.as_mut().unwrap();
        m.details.clear();
        m.total = 0;
    }
    assert_eq!(menu::shape_of(&s), Shape::Quota { windows: 2, mcp: true, mcp_details: 0 });
    let rows = menu::rows_text(&s, &now());
    assert_eq!(rows.len(), 5);
    assert_eq!(rows[4], "MCP 月额度: 13 次（已用 13%）");
}

#[test]
fn labels_are_escaped() {
    assert_eq!(escape_label("a_b__c"), "a__b____c");
    let items = tray_menu(&menu_entries_at(&state(), &now()));
    assert_eq!(items.len(), 16);
    assert!(matches!(&items[8], TrayItem::Line { label, command: None } if label == "  · zread 7 · web__search 6"));
    assert!(matches!(items[1], TrayItem::Separator));
    assert!(matches!(&items[11], TrayItem::Line { command: Some(Cmd::Activate { scheduled: false }), .. }));
    assert!(matches!(&items[15], TrayItem::Line { command: Some(Cmd::Quit), .. }));
}

#[test]
fn lines_lead_to_commands() {
    assert_eq!(tray_command(ID_REFRESH), Cmd::Fetch);
    assert_eq!(tray_command(ID_CONFIG), Cmd::OpenConfig);
    assert_eq!(tray_command(ID_REPO), Cmd::OpenRepo);
    assert_eq!(tray_command("?"), Cmd::Quit);
    assert_eq!(choose_line(ID_ACTIVATE), Choice::Send(Cmd::Activate { scheduled: false }));
    assert_eq!(choose_line(ID_USE_RESET_5H), Choice::Send(Cmd::UseResetCard { week: false }));
    assert_eq!(choose_line(ID_USE_RESET_WEEK), Choice::Send(Cmd::UseResetCard { week: true }));
    assert_eq!(choose_line(ID_RESET_SITE), Choice::Send(Cmd::OpenResetSite));
    assert_eq!(choose_line(ID_QUIT), Choice::Exit);
    assert_eq!(choose_line("info"), Choice::Ignore);
}

#[test]
fn the_tray_is_rebuilt_only_where_kinds_change() {
    let mut held = None;
    let mut s = state();
    let u = render_at(&mut held, &s, &now());
    assert!(matches!(&u.menu, MenuUpdate::Rebuild(items) if items.len() == 16));
    assert_eq!(u.tooltip.lines().next(), Some("GLMeter · Lite 套餐"));
    assert_eq!(u.title, "");
    let u = render_at(&mut held, &s, &after(60));
    match &u.menu {
        MenuUpdate::Texts(texts) => {
            assert_eq!(texts.len(), 13);
            assert_eq!(texts[2], "  ↻ 重置 今天 11:05（3小时04分后）");
        }
        MenuUpdate::Rebuild(_) => panic!("rebuilt"),
    }
    s.busy = Some("b".to_string());
    assert!(matches!(render(&mut held, &s).menu, MenuUpdate::Rebuild(_)));
    assert_eq!(held, Some(kinds_of(&menu_entries_at(&s, &now()))));
}

#[test]
fn kinds_of_lines() {
    let entries = vec![
        MenuEntry::Info("a".to_string()),
        MenuEntry::Separator,
        MenuEntry::Button { id: "quit", text: "b".to_string() },
    ];
    assert_eq!(kinds_of(&entries), b"isb".to_vec());
    assert_eq!(entries[2].kind(), b'b');
    let items = build_menu(&entries);
    assert!(matches!(&items[0], NativeItem::Item { id: "info", text, enabled: false } if text == "a"));
    assert!(matches!(&items[2], NativeItem::Item { id: "quit", enabled: true, .. }));
}

#[test]
fn the_printed_report() {
    let s = snapshot();
    assert!(bars_fit(&s));
    assert_eq!(
        report_at(&s, &now()),
        vec![
            "套餐等级 : lite",
            "5小时额度: [██████░░░░░░░░░░░░░░░░░░] 已用 24%（剩余 76%）",
            "  重置时间: 2026-01-01 11:05（3小时5分后）",
            "每周额度: [████████████████████████] 已用 100%（剩余 0%）",
            "  重置时间: 未激活（--activate 可发送最小请求激活）",
            "MCP 月额度: 13/100 次（已用 12.5%）",
            "  · zread: 7",
            "  · web_search: 6",
            "  重置时间: 2026-01-21 08:00",
        ]
    );
    assert_eq!(report(&s).len(), 9);
    assert_eq!(remaining(&after(-900), &now()), "0分");
    assert_eq!(remaining(&after(59 * 60), &now()), "59分");
    let edge = |secs: i64, offset: i32| {
        let mut s = snapshot();
        s.windows[0].next_reset = Some(LocalTime { secs, nanos: 0, offset });
        assert!(s.resets_valid());
        report_at(&s, &now())[2].clone()
    };
    assert_eq!(edge(MAX_SECS, 3_600).split('（').next(), Some("  重置时间: +262143-01-01 00:59"));
    assert_eq!(edge(MIN_SECS, -60), "  重置时间: -262144-12-31 23:59（0分后）");
    assert_eq!(edge(-62_167_219_200, 0), "  重置时间: 0000-01-01 00:00（0分后）");
    assert_eq!(edge(-62_135_596_800 + 86_400 * 365 * 50, 0), "  重置时间: 0050-12-20 00:00（0分后）");
    let mut wrong = snapshot();
    wrong.windows[0].next_reset = Some(LocalTime { secs: MAX_SECS + 1, nanos: 0, offset: 0 });
    assert!(!wrong.resets_valid());
    let mut over = snapshot();
    over.windows[1].used_pct.used_of_24 = 25;
    assert!(!bars_fit(&over));
}

#[test]
fn how_printing_ends() {
    assert_eq!((check_status(false, false), check_status(false, true)), (2, 2));
    assert_eq!((check_status(true, false), check_status(true, true)), (1, 0));
}

#[test]
fn what_can_be_shown() {
    let mut s = state();
    assert!(s.can_be_shown());
    if let Status::Ready(q) = &mut s.status {
        q.mcp.as_mut().unwrap().used = i64::MIN;
    }
    assert!(!s.can_be_shown());
    s.status = Status::Loading;
    assert!(s.can_be_shown());
    assert!(s.title_fits() && s.tooltip_fits());
    let off = Some(LocalTime { secs: MAX_SECS, nanos: 0, offset: 60 });
    let mut second = state();
    if let Status::Ready(q) = &mut second.status {
        q.windows[1].next_reset = off;
    }
    assert!(second.title_fits() && !second.tooltip_fits() && !second.times_fit());
    second.cfg.tray_title = "{5h_left}".to_string();
    assert_eq!(title_text_at(&second, &now()), "76");
    let mut month = state();
    if let Status::Ready(q) = &mut month.status {
        q.mcp.as_mut().unwrap().next_reset = off;
    }
    assert!(month.title_fits() && month.tooltip_fits() && !month.times_fit());
    assert_eq!(tooltip_at(&month, &now()).1.len(), 6);
    assert_eq!(menu::rows_text(&month, &now()).len(), 6);
    let mut late = state();
    if let Status::Ready(q) = &mut late.status {
        q.windows[0].next_reset = Some(LocalTime { secs: i64::MAX, nanos: 0, offset: 0 });
    }
    assert!(!late.can_be_shown());
    assert_eq!(late.five_hour().unwrap().label, "5小时额度");
}
