//! The state that is shown, and the menu, the tray text and the tooltip made of it.

use crate::api::{McpLimit, QuotaSnapshot, TokenWindow};
use crate::clock::{
    hours_minutes, hours_minutes_seconds, month_day_time, time_text,
    leap_seconds_count_where_they_are_passed, told_by_clock, total_nanos, LocalTime, SECOND,
};
use crate::config::Config;
use crate::text::{
    chars_of, decimal, decimal_stands_for_the_number, decimals_differ, join, joined,
    leading_digits_tell_texts_apart, number_text, push_number, push_run, push_two_digits, run,
    text_of_range, two_digits, two_digits_stand_for_the_number, two_each, two_each_more, views,
    wrap, wrapped,
};
use vstd::prelude::*;
use vstd::string::*;

verus! {

pub const ID_ACTIVATE: &'static str = "activate";

pub const ID_REFRESH: &'static str = "refresh";

pub const ID_CONFIG: &'static str = "config";

pub const ID_REPO: &'static str = "repo";

pub const ID_QUIT: &'static str = "quit";

pub const VERSION: &'static str = "0.1.0";

pub const REPO: &'static str = "github.com/crazykun/GLMeter";

pub const REPO_URL: &'static str = "https://github.com/crazykun/GLMeter";

/// How the last query went.
#[derive(Debug)]
pub enum Status {
    Loading,
    NoKey,
    Ready(QuotaSnapshot),
    Failed(String),
}

/// Everything that is shown.
#[derive(Debug)]
pub struct UiState {
    pub cfg: Config,
    /// The path of the settings, as it is shown.
    pub cfg_path: String,
    pub status: Status,
    /// What is going on, if anything.
    pub busy: Option<String>,
}

/// A line of the menu.
#[derive(Debug)]
pub enum MenuEntry {
    /// A line that only informs.
    Info(String),
    /// A line that can be chosen; `id` is one of the `ID_` constants.
    Button { id: &'static str, text: String },
    Separator,
}

/// What a line of the menu says.
pub enum EntryView {
    Info(Seq<char>),
    Button { id: Seq<char>, text: Seq<char> },
    Separator,
}

impl View for MenuEntry {
    type V = EntryView;

    open spec fn view(&self) -> EntryView {
        match self {
            MenuEntry::Info(text) => EntryView::Info(text@),
            MenuEntry::Button { id, text } => EntryView::Button { id: id@, text: text@ },
            MenuEntry::Separator => EntryView::Separator,
        }
    }
}

/// What the lines of a menu say.
pub open spec fn entry_views(list: Seq<MenuEntry>) -> Seq<EntryView> {
    list.map_values(|e: MenuEntry| e@)
}

impl EntryView {
    /// The letter for the kind of line: what the line says does not matter.
    pub open spec fn letter(self) -> u8 {
        match self {
            EntryView::Info(_) => 105u8,
            EntryView::Button { .. } => 98u8,
            EntryView::Separator => 115u8,
        }
    }
}

impl MenuEntry {
    /// The letter for the kind of line: `i`, `b` or `s`.
    pub fn kind(&self) -> (r: u8)
        ensures
            r == self@.letter(),
    {
        match self {
            MenuEntry::Info(_) => 105u8,
            MenuEntry::Button { .. } => 98u8,
            MenuEntry::Separator => 115u8,
        }
    }
}

// ---------------------------------------------------------------------------------------------
// Parts of lines
// ---------------------------------------------------------------------------------------------

/// What `char::to_uppercase` makes of a character.
pub uninterp spec fn upper_case(c: char) -> Seq<char>;

/// `char::to_uppercase` gives the capital letter or letters for a character. The ASCII letters from
/// a to z become those from A to Z, and the other ASCII characters stay as they are.
#[verifier::external_body]
fn upper_text(c: char) -> (r: String)
    ensures
        r@ == upper_case(c),
        'a' <= c <= 'z' ==> r@ == seq![((c as u32 - 32) as u8) as char],
        (c as u32) < 128 && !('a' <= c <= 'z') ==> r@ == seq![c],
{
    c.to_uppercase().collect()
}

/// The capital letter or letters for a character.
pub open spec fn capital(c: char) -> Seq<char> {
    if 'a' <= c <= 'z' {
        seq![((c as u32 - 32) as u8) as char]
    } else if (c as u32) < 128 {
        seq![c]
    } else {
        upper_case(c)
    }
}

/// The name of the plan with a capital letter, or three dots where there is no name.
pub open spec fn level_shown(level: Seq<char>) -> Seq<char> {
    if level.len() == 0 {
        "…"@
    } else {
        capital(level[0]) + level.skip(1)
    }
}

/// When a window resets: today, tomorrow, or on a date.
pub open spec fn reset_shown(t: LocalTime, now: LocalTime) -> Seq<char> {
    let days = t.local_day() - now.local_day();
    if days == 0 {
        "今天 "@ + hours_minutes(t.local_secs())
    } else if days == 1 {
        "明天 "@ + hours_minutes(t.local_secs())
    } else {
        month_day_time(t.local_secs())
    }
}

/// How long it is until a window resets.
pub open spec fn countdown_shown(t: LocalTime, now: LocalTime) -> Seq<char> {
    let mins = t.minutes_since(now);
    if mins <= 0 {
        "即将重置"@
    } else if mins >= 60 {
        decimal(mins / 60) + "小时"@ + two_digits((mins % 60) as nat) + "分"@
    } else {
        decimal(mins) + "分"@
    }
}

/// A whole percentage.
pub open spec fn percent_shown(n: int) -> Seq<char> {
    decimal(n) + "%"@
}

/// A bar of `len` cells, the first of which are filled.
pub open spec fn bar_shown(filled: nat, len: nat) -> Seq<char> {
    let full = if filled < len {
        filled
    } else {
        len
    };
    run('█', full) + run('░', (len - full) as nat)
}

/// The name of the plan, as it is shown.
pub fn level_text(level: &str) -> (r: String)
    ensures
        r@ == level_shown(level@),
{
    let chars = chars_of(level);
    if chars.len() == 0 {
        return "…".to_owned();
    }
    let mut text = upper_text(chars[0]);
    let rest = text_of_range(&chars, 1, chars.len());
    assert(rest@ =~= level@.skip(1));
    text.append(rest.as_str());
    text
}

/// When a window resets, seen at `now`.
pub fn fmt_reset(t: &LocalTime, now: &LocalTime) -> (r: String)
    requires
        t.wf(),
        t.dated(),
        now.wf(),
    ensures
        r@ == reset_shown(*t, *now),
{
    let day: i64 = t.day();
    let today: i64 = now.day();
    if day == today {
        let mut text = "今天 ".to_owned();
        text.append(time_text(t, "%H:%M").as_str());
        text
    } else if day - today == 1 {
        let mut text = "明天 ".to_owned();
        text.append(time_text(t, "%H:%M").as_str());
        text
    } else {
        time_text(t, "%m-%d %H:%M")
    }
}

/// How long it is until `t`, seen at `now`.
pub fn countdown(t: &LocalTime, now: &LocalTime) -> (r: String)
    requires
        t.wf(),
        now.wf(),
    ensures
        r@ == countdown_shown(*t, *now),
{
    let mins: i64 = t.minutes_from(now);
    if mins <= 0 {
        "即将重置".to_owned()
    } else if mins >= 60 {
        let mut text = number_text((mins as u64 / 60) as i64);
        text.append("小时");
        push_two_digits(&mut text, mins as u64 % 60);
        text.append("分");
        text
    } else {
        let mut text = number_text(mins);
        text.append("分");
        text
    }
}

/// A whole percentage.
pub fn pct(n: i64) -> (r: String)
    ensures
        r@ == percent_shown(n as int),
{
    let mut text = number_text(n);
    text.append("%");
    text
}

/// A bar of `len` cells.
pub fn bar(filled: usize, len: usize) -> (r: String)
    ensures
        r@ == bar_shown(filled as nat, len as nat),
{
    let full: usize = if filled < len { filled } else { len };
    let mut text: String = String::new();
    push_run(&mut text, '█', full);
    assert(text@ =~= run('█', full as nat));
    push_run(&mut text, '░', len - full);
    text
}

// ---------------------------------------------------------------------------------------------
// The state
// ---------------------------------------------------------------------------------------------

/// The time, where there is one, can be shown.
pub open spec fn time_ok(t: Option<LocalTime>) -> bool {
    t matches Some(x) ==> x.wf() && x.dated()
}

/// What is left of a monthly quota.
pub open spec fn calls_left(m: McpLimit) -> int {
    if m.total - m.used > 0 {
        m.total - m.used
    } else {
        0
    }
}

impl QuotaSnapshot {
    /// The reset times of the windows can be shown.
    pub open spec fn windows_ok(self) -> bool {
        forall|i: int|
            0 <= i < self.windows@.len() ==> time_ok((#[trigger] self.windows@[i]).next_reset)
    }

    /// All times in the snapshot can be shown.
    pub open spec fn times_ok(self) -> bool {
        &&& self.fetched_at.wf()
        &&& self.windows_ok()
        &&& self.mcp matches Some(m) ==> time_ok(m.next_reset)
    }

    /// The reset times in the snapshot are points in time.
    pub open spec fn resets_wf(self) -> bool {
        &&& forall|i: int|
            0 <= i < self.windows@.len() ==> ((#[trigger] self.windows@[i]).next_reset matches Some(
                t,
            ) ==> t.wf())
        &&& self.mcp matches Some(m) ==> (m.next_reset matches Some(t) ==> t.wf())
    }

    /// Whether the reset times in the snapshot are points in time.
    pub fn resets_valid(&self) -> (r: bool)
        ensures
            r == self.resets_wf(),
    {
        let mut i: usize = 0;
        while i < self.windows.len()
            invariant
                i <= self.windows@.len(),
                forall|j: int|
                    0 <= j < i ==> ((#[trigger] self.windows@[j]).next_reset matches Some(t)
                        ==> t.wf()),
            decreases self.windows@.len() - i,
        {
            if let Some(t) = &self.windows[i].next_reset {
                if !t.is_valid() {
                    assert(!(self.windows@[i as int].next_reset->0.wf()));
                    return false;
                }
            }
            i = i + 1;
        }
        match &self.mcp {
            Some(m) => match &m.next_reset {
                Some(t) => t.is_valid(),
                None => true,
            },
            None => true,
        }
    }

    /// Whether the reset times of the windows can be shown.
    pub fn windows_fit(&self) -> (r: bool)
        ensures
            r == self.windows_ok(),
    {
        let mut i: usize = 0;
        while i < self.windows.len()
            invariant
                i <= self.windows@.len(),
                forall|j: int| 0 <= j < i ==> time_ok((#[trigger] self.windows@[j]).next_reset),
            decreases self.windows@.len() - i,
        {
            if !is_time_ok(&self.windows[i].next_reset) {
                assert(!time_ok(self.windows@[i as int].next_reset));
                return false;
            }
            i = i + 1;
        }
        true
    }

    /// Whether all times in the snapshot can be shown.
    pub fn times_fit(&self) -> (r: bool)
        ensures
            r == self.times_ok(),
    {
        self.fetched_at.is_valid() && self.windows_fit() && match &self.mcp {
            Some(m) => is_time_ok(&m.next_reset),
            None => true,
        }
    }

    /// Whether the calls that are left can be counted in 64 bits.
    pub fn calls_fit(&self) -> (r: bool)
        ensures
            r == self.calls_ok(),
    {
        match &self.mcp {
            Some(m) => m.total.checked_sub(m.used).is_some(),
            None => true,
        }
    }

    /// The calls that are left can be counted in 64 bits.
    pub open spec fn calls_ok(self) -> bool {
        self.mcp matches Some(m) ==> i64::MIN <= m.total - m.used <= i64::MAX
    }
}

impl UiState {
    /// The state at the start.
    pub fn new(cfg: Config, cfg_path: String) -> (r: UiState)
        ensures
            r.cfg == cfg,
            r.cfg_path == cfg_path,
            r.status == if cfg.has_key() {
                Status::Loading
            } else {
                Status::NoKey
            },
            r.busy is None,
    {
        let status = if cfg.configured() {
            Status::Loading
        } else {
            Status::NoKey
        };
        UiState { cfg, cfg_path, status, busy: None }
    }

    /// The snapshot, where the last query brought one.
    pub open spec fn snapshot(self) -> Option<QuotaSnapshot> {
        match self.status {
            Status::Ready(s) => Some(s),
            _ => None,
        }
    }

    /// The time of the last query is a point in time.
    pub open spec fn fetched_ok(self) -> bool {
        self.snapshot() matches Some(s) ==> s.fetched_at.wf()
    }

    /// The reset time of the window of five hours can be shown.
    pub open spec fn first_reset_ok(self) -> bool {
        self.five_hour_window() matches Some(w) ==> time_ok(w.next_reset)
    }

    /// The reset times of the windows can be shown.
    pub open spec fn windows_ok(self) -> bool {
        self.snapshot() matches Some(s) ==> s.windows_ok()
    }

    /// All times in the state can be shown.
    pub open spec fn times_ok(self) -> bool {
        self.snapshot() matches Some(s) ==> s.times_ok()
    }

    /// The calls that are left can be counted in 64 bits.
    pub open spec fn calls_ok(self) -> bool {
        self.snapshot() matches Some(s) ==> s.calls_ok()
    }

    /// The window of five hours, where there is a snapshot that has it.
    pub open spec fn five_hour_window(self) -> Option<TokenWindow> {
        match self.status {
            Status::Ready(s) => s.first_window(),
            _ => None,
        }
    }

    /// The window of five hours.
    pub fn five_hour(&self) -> (r: Option<&TokenWindow>)
        ensures
            match r {
                Some(w) => self.five_hour_window() == Some(*w),
                None => self.five_hour_window() is None,
            },
    {
        match &self.status {
            Status::Ready(s) => s.five_hour(),
            _ => None,
        }
    }

    /// Whether all times in the state can be shown.
    pub fn times_fit(&self) -> (r: bool)
        ensures
            r == self.times_ok(),
    {
        match &self.status {
            Status::Ready(s) => s.times_fit(),
            _ => true,
        }
    }

    /// Whether what the text in the tray is made of can be shown.
    pub fn title_fits(&self) -> (r: bool)
        ensures
            r == (self.first_reset_ok() && self.calls_ok()),
    {
        let dated = match self.five_hour() {
            Some(w) => is_time_ok(&w.next_reset),
            None => true,
        };
        dated && match &self.status {
            Status::Ready(s) => s.calls_fit(),
            _ => true,
        }
    }

    /// Whether what the tooltip is made of can be shown.
    pub fn tooltip_fits(&self) -> (r: bool)
        ensures
            r == (self.windows_ok() && self.fetched_ok() && self.calls_ok()),
    {
        match &self.status {
            Status::Ready(s) => s.windows_fit() && s.fetched_at.is_valid() && s.calls_fit(),
            _ => true,
        }
    }

    /// Whether everything in the state can be shown.
    pub fn can_be_shown(&self) -> (r: bool)
        ensures
            r == (self.times_ok() && self.calls_ok()),
    {
        self.times_fit() && match &self.status {
            Status::Ready(s) => s.calls_fit(),
            _ => true,
        }
    }
}

fn is_time_ok(t: &Option<LocalTime>) -> (r: bool)
    ensures
        r == time_ok(*t),
{
    match t {
        Some(x) => x.is_dated(),
        None => true,
    }
}

// ---------------------------------------------------------------------------------------------
// The menu
// ---------------------------------------------------------------------------------------------

/// At most the first three of a list.
pub open spec fn first_three<T>(list: Seq<T>) -> Seq<T> {
    if list.len() <= 3 {
        list
    } else {
        list.take(3)
    }
}

/// A window with a bar of what is left of it.
pub open spec fn window_line(w: TokenWindow, filled: nat, len: nat) -> Seq<char> {
    w.label@ + " "@ + bar_shown(filled, len) + " 剩余 "@ + percent_shown(w.used_pct.left as int)
}

/// When a window resets and how long that is.
pub open spec fn reset_line(start: Seq<char>, t: LocalTime, now: LocalTime) -> Seq<char> {
    start + reset_shown(t, now) + "（"@ + countdown_shown(t, now) + "后）"@
}

/// The second line of a window in the menu.
pub open spec fn menu_reset_line(w: TokenWindow, now: LocalTime) -> Seq<char> {
    match w.next_reset {
        Some(t) => reset_line("  ↻ 重置 "@, t, now),
        None => "  ↻ 未激活，点下方「激活额度」开始计算"@,
    }
}

/// The windows in the menu, two lines each.
pub open spec fn menu_windows(windows: Seq<TokenWindow>, now: LocalTime) -> Seq<EntryView> {
    two_each(
        windows,
        |w: TokenWindow| EntryView::Info(window_line(w, w.used_pct.left_of_12 as nat, 12)),
        |w: TokenWindow| EntryView::Info(menu_reset_line(w, now)),
    )
}

/// The tools and how often each was used.
pub open spec fn tools_shown(details: Seq<(String, i64)>) -> Seq<char> {
    joined(details.map_values(|d: (String, i64)| d.0@ + " "@ + decimal(d.1 as int)), " · "@)
}

/// The monthly quota in the menu.
pub open spec fn menu_mcp(mcp: Option<McpLimit>, now: LocalTime) -> Seq<EntryView> {
    match mcp {
        None => Seq::empty(),
        Some(m) => seq![
            EntryView::Separator,
            EntryView::Info(
                "MCP 月额度 "@ + bar_shown(m.used_pct.left_of_12 as nat, 12) + " "@ + decimal(
                    m.used as int,
                ) + "/"@ + decimal(m.total as int) + " 次"@,
            ),
        ] + (if m.details@.len() > 0 {
            seq![EntryView::Info("  · "@ + tools_shown(m.details@))]
        } else {
            Seq::empty()
        }) + (match m.next_reset {
            Some(t) => seq![EntryView::Info("  ↻ 重置 "@ + reset_shown(t, now))],
            None => Seq::empty(),
        }),
    }
}

/// The part of the menu that tells how the last query went.
pub open spec fn menu_status(state: UiState, now: LocalTime) -> Seq<EntryView> {
    match state.status {
        Status::Loading => seq![EntryView::Info("加载中…"@)],
        Status::NoKey => seq![
            EntryView::Info("未配置 API Key"@),
            EntryView::Info("配置文件: "@ + state.cfg_path@),
            EntryView::Info("填入 api_key 保存后，点击「刷新」即可"@),
        ],
        Status::Failed(msg) => first_three(wrapped(msg@, 28)).map_values(
            |line: Seq<char>| EntryView::Info("⚠ "@ + line),
        ),
        Status::Ready(s) => seq![
            EntryView::Info("GLM Coding Plan · "@ + level_shown(s.level@) + " 套餐"@),
            EntryView::Separator,
        ] + menu_windows(s.windows@, now) + menu_mcp(s.mcp, now),
    }
}

/// What the line for activating says.
pub open spec fn activate_shown(state: UiState) -> Seq<char> {
    if state.snapshot() is Some && state.snapshot()->0.all_inactive() {
        "⚡ 激活 5 小时额度（当前未激活）"@
    } else {
        "⚡ 激活额度（发送 \"1\"）"@
    }
}

/// What the line for refreshing says: also when that was last done.
pub open spec fn refresh_shown(state: UiState) -> Seq<char> {
    match state.status {
        Status::Ready(s) => "↻ 立即刷新（更新于 "@ + hours_minutes_seconds(
            s.fetched_at.local_secs(),
            s.fetched_at.nanos as int,
        ) + "）"@,
        _ => "↻ 立即刷新"@,
    }
}

/// The part of the menu that can be chosen from.
pub open spec fn menu_actions(state: UiState) -> Seq<EntryView> {
    seq![EntryView::Separator] + (match state.busy {
        Some(busy) => seq![EntryView::Info("⏳ "@ + busy@)],
        None => Seq::empty(),
    }) + seq![
        EntryView::Button { id: ID_ACTIVATE@, text: activate_shown(state) },
        EntryView::Button { id: ID_REFRESH@, text: refresh_shown(state) },
        EntryView::Button { id: ID_CONFIG@, text: "⚙ 打开配置文件"@ },
        EntryView::Button { id: ID_REPO@, text: "↗ GLMeter v"@ + VERSION@ + " · "@ + REPO@ },
        EntryView::Button { id: ID_QUIT@, text: "✕ 退出"@ },
    ]
}

/// The menu.
pub open spec fn menu_shown(state: UiState, now: LocalTime) -> Seq<EntryView> {
    menu_status(state, now) + menu_actions(state)
}

fn push_info(v: &mut Vec<MenuEntry>, text: String)
    ensures
        entry_views(final(v)@) == entry_views(old(v)@).push(EntryView::Info(text@)),
{
    let ghost before = entry_views(v@);
    v.push(MenuEntry::Info(text));
    assert(entry_views(v@) =~= before.push(EntryView::Info(text@)));
}

fn push_button(v: &mut Vec<MenuEntry>, id: &'static str, text: String)
    ensures
        entry_views(final(v)@) == entry_views(old(v)@).push(
            EntryView::Button { id: id@, text: text@ },
        ),
{
    let ghost before = entry_views(v@);
    v.push(MenuEntry::Button { id, text });
    assert(entry_views(v@) =~= before.push(EntryView::Button { id: id@, text: text@ }));
}

fn push_separator(v: &mut Vec<MenuEntry>)
    ensures
        entry_views(final(v)@) == entry_views(old(v)@).push(EntryView::Separator),
{
    let ghost before = entry_views(v@);
    v.push(MenuEntry::Separator);
    assert(entry_views(v@) =~= before.push(EntryView::Separator));
}

/// Two texts one after the other.
pub(crate) fn glue(a: &str, b: &str) -> (r: String)
    ensures
        r@ == a@ + b@,
{
    let mut text = a.to_owned();
    text.append(b);
    text
}

/// A window with a bar of what is left of it.
pub(crate) fn window_text(w: &TokenWindow, filled: usize, len: usize) -> (r: String)
    ensures
        r@ == window_line(*w, filled as nat, len as nat),
{
    let mut text = w.label.clone();
    text.append(" ");
    text.append(bar(filled, len).as_str());
    text.append(" 剩余 ");
    text.append(pct(w.used_pct.left).as_str());
    text
}

/// When a window resets and how long that is.
pub(crate) fn reset_text(start: &str, t: &LocalTime, now: &LocalTime) -> (r: String)
    requires
        t.wf(),
        t.dated(),
        now.wf(),
    ensures
        r@ == reset_line(start@, *t, *now),
{
    let mut text = start.to_owned();
    text.append(fmt_reset(t, now).as_str());
    text.append("（");
    text.append(countdown(t, now).as_str());
    text.append("后）");
    text
}

/// The tools and how often each was used.
pub(crate) fn tools_text(details: &Vec<(String, i64)>) -> (r: String)
    ensures
        r@ == tools_shown(details@),
{
    let mut tools: Vec<String> = Vec::new();
    let ghost line = |d: (String, i64)| d.0@ + " "@ + decimal(d.1 as int);
    let mut i: usize = 0;
    while i < details.len()
        invariant
            i <= details@.len(),
            line == (|d: (String, i64)| d.0@ + " "@ + decimal(d.1 as int)),
            views(tools@) == details@.take(i as int).map_values(line),
        decreases details@.len() - i,
    {
        let ghost before = views(tools@);
        let mut text = details[i].0.clone();
        text.append(" ");
        push_number(&mut text, details[i].1 as i128);
        tools.push(text);
        assert(views(tools@) =~= before.push(line(details@[i as int])));
        assert(details@.take(i + 1).map_values(line) =~= details@.take(i as int).map_values(
            line,
        ).push(line(details@[i as int])));
        i = i + 1;
    }
    assert(details@.take(i as int) =~= details@);
    join(&tools, " · ")
}

fn push_windows(v: &mut Vec<MenuEntry>, windows: &Vec<TokenWindow>, now: &LocalTime)
    requires
        forall|i: int| 0 <= i < windows@.len() ==> time_ok((#[trigger] windows@[i]).next_reset),
        now.wf(),
    ensures
        entry_views(final(v)@) == entry_views(old(v)@) + menu_windows(windows@, *now),
{
    let ghost before = entry_views(v@);
    let mut i: usize = 0;
    assert(before + menu_windows(windows@.take(0), *now) =~= before);
    while i < windows.len()
        invariant
            i <= windows@.len(),
            forall|k: int|
                0 <= k < windows@.len() ==> time_ok((#[trigger] windows@[k]).next_reset),
            now.wf(),
            entry_views(v@) == before + menu_windows(windows@.take(i as int), *now),
        decreases windows@.len() - i,
    {
        let w = &windows[i];
        assert(time_ok(w.next_reset));
        push_info(v, window_text(w, w.used_pct.left_of_12, 12));
        push_info(
            v,
            match &w.next_reset {
                Some(t) => reset_text("  ↻ 重置 ", t, now),
                None => "  ↻ 未激活，点下方「激活额度」开始计算".to_owned(),
            },
        );
        proof {
            two_each_more(
                windows@,
                i as int,
                |w: TokenWindow| EntryView::Info(window_line(w, w.used_pct.left_of_12 as nat, 12)),
                |w: TokenWindow| EntryView::Info(menu_reset_line(w, *now)),
            );
            assert(entry_views(v@) =~= before + menu_windows(windows@.take(i + 1), *now));
        }
        i = i + 1;
    }
    assert(windows@.take(i as int) =~= windows@);
}

fn push_mcp(v: &mut Vec<MenuEntry>, mcp: &Option<McpLimit>, now: &LocalTime)
    requires
        mcp matches Some(m) ==> time_ok(m.next_reset),
        now.wf(),
    ensures
        entry_views(final(v)@) == entry_views(old(v)@) + menu_mcp(*mcp, *now),
{
    let ghost before = entry_views(v@);
    if let Some(m) = mcp {
        push_separator(v);
        let mut text = "MCP 月额度 ".to_owned();
        text.append(bar(m.used_pct.left_of_12, 12).as_str());
        text.append(" ");
        push_number(&mut text, m.used as i128);
        text.append("/");
        push_number(&mut text, m.total as i128);
        text.append(" 次");
        push_info(v, text);
        if m.details.len() > 0 {
            push_info(v, glue("  · ", tools_text(&m.details).as_str()));
        }
        if let Some(t) = &m.next_reset {
            push_info(v, glue("  ↻ 重置 ", fmt_reset(t, now).as_str()));
        }
    }
    assert(entry_views(v@) =~= before + menu_mcp(*mcp, *now));
}

fn push_failure(v: &mut Vec<MenuEntry>, msg: &String)
    ensures
        entry_views(final(v)@) == entry_views(old(v)@) + first_three(
            wrapped(msg@, 28),
        ).map_values(|line: Seq<char>| EntryView::Info("⚠ "@ + line)),
{
    let ghost before = entry_views(v@);
    let ghost shown = |line: Seq<char>| EntryView::Info("⚠ "@ + line);
    let lines = wrap(msg.as_str(), 28);
    let ghost all = views(lines@);
    let mut i: usize = 0;
    assert(before + all.take(0).map_values(shown) =~= before);
    while i < lines.len() && i < 3
        invariant
            i <= lines@.len(),
            i <= 3,
            all == views(lines@),
            shown == (|line: Seq<char>| EntryView::Info("⚠ "@ + line)),
            entry_views(v@) == before + all.take(i as int).map_values(shown),
        decreases lines@.len() - i,
    {
        push_info(v, glue("⚠ ", lines[i].as_str()));
        assert(before + all.take(i + 1).map_values(shown) =~= (before + all.take(
            i as int,
        ).map_values(shown)).push(shown(all[i as int])));
        i = i + 1;
    }
    assert(first_three(all) =~= all.take(i as int));
}

/// What the line for activating says.
pub fn activate_text(state: &UiState) -> (r: &'static str)
    ensures
        r@ == activate_shown(*state),
{
    if let Status::Ready(s) = &state.status {
        if s.needs_activation() {
            return "⚡ 激活 5 小时额度（当前未激活）";
        }
    }
    "⚡ 激活额度（发送 \"1\"）"
}

/// The menu, seen at `now`.
pub fn menu_entries_at(state: &UiState, now: &LocalTime) -> (v: Vec<MenuEntry>)
    requires
        state.times_ok(),
        now.wf(),
    ensures
        entry_views(v@) == menu_shown(*state, *now),
{
    let mut v: Vec<MenuEntry> = Vec::new();
    assert(entry_views(v@) =~= Seq::empty());
    match &state.status {
        Status::Loading => {
            push_info(&mut v, "加载中…".to_owned());
        },
        Status::NoKey => {
            push_info(&mut v, "未配置 API Key".to_owned());
            push_info(&mut v, glue("配置文件: ", state.cfg_path.as_str()));
            push_info(&mut v, "填入 api_key 保存后，点击「刷新」即可".to_owned());
        },
        Status::Failed(msg) => {
            push_failure(&mut v, msg);
        },
        Status::Ready(s) => {
            let mut text = "GLM Coding Plan · ".to_owned();
            text.append(level_text(s.level.as_str()).as_str());
            text.append(" 套餐");
            push_info(&mut v, text);
            push_separator(&mut v);
            push_windows(&mut v, &s.windows, now);
            push_mcp(&mut v, &s.mcp, now);
        },
    }
    assert(entry_views(v@) =~= menu_status(*state, *now));
    push_separator(&mut v);
    if let Some(busy) = &state.busy {
        push_info(&mut v, glue("⏳ ", busy.as_str()));
    }
    push_button(&mut v, ID_ACTIVATE, activate_text(state).to_owned());
    let refresh = match &state.status {
        Status::Ready(s) => {
            let mut text = "↻ 立即刷新（更新于 ".to_owned();
            text.append(time_text(&s.fetched_at, "%H:%M:%S").as_str());
            text.append("）");
            text
        },
        _ => "↻ 立即刷新".to_owned(),
    };
    push_button(&mut v, ID_REFRESH, refresh);
    push_button(&mut v, ID_CONFIG, "⚙ 打开配置文件".to_owned());
    let mut repo = "↗ GLMeter v".to_owned();
    repo.append(VERSION);
    repo.append(" · ");
    repo.append(REPO);
    push_button(&mut v, ID_REPO, repo);
    push_button(&mut v, ID_QUIT, "✕ 退出".to_owned());
    assert(entry_views(v@) =~= menu_shown(*state, *now));
    v
}

/// The menu, seen now.
pub fn menu_entries(state: &UiState) -> (v: Vec<MenuEntry>)
    requires
        state.times_ok(),
    ensures
        exists|now: LocalTime|
            now.wf() && told_by_clock(now) && entry_views(v@) == #[trigger] menu_shown(*state, now),
{
    let now = LocalTime::now();
    menu_entries_at(state, &now)
}

// ---------------------------------------------------------------------------------------------
// Laws
// ---------------------------------------------------------------------------------------------

/// A bar has as many cells as it should, however much is filled.
pub proof fn bars_keep_their_length(filled: nat, len: nat)
    ensures
        bar_shown(filled, len).len() == len,
{
}

/// The menu always ends with what can be chosen: activating, refreshing, the settings, the project
/// and the end of the program.
pub proof fn the_menu_ends_with_the_actions(state: UiState, now: LocalTime, i: int)
    requires
        0 <= i < menu_shown(state, now).len(),
    ensures
        menu_shown(state, now)[i] is Button <==> i >= menu_shown(state, now).len() - 5,
        ({
            let n = menu_shown(state, now).len();
            &&& n > 5
            &&& menu_shown(state, now)[n - 5]->id == ID_ACTIVATE@
            &&& menu_shown(state, now)[n - 4]->id == ID_REFRESH@
            &&& menu_shown(state, now)[n - 3]->id == ID_CONFIG@
            &&& menu_shown(state, now)[n - 2]->id == ID_REPO@
            &&& menu_shown(state, now)[n - 1]->id == ID_QUIT@
        }),
{
    let shown = menu_shown(state, now);
    let head = menu_status(state, now);
    if i < head.len() {
        assert(shown[i] == head[i]);
    } else {
        assert(shown[i] == menu_actions(state)[i - head.len()]);
    }
}

/// The countdown tells the time that is left, to the minute. From an hour on, sixty times the number
/// before "小时" and the number before "分" are the whole minutes, however many hours there are.
pub proof fn countdown_tells_the_time_left(t: LocalTime, now: LocalTime)
    ensures
        t.nanos < SECOND && now.nanos < SECOND ==> t.nanos_since(now) == total_nanos(t)
            - total_nanos(now),
        ({
            let minute: int = 60_000_000_000;
            let left = t.nanos_since(now);
            let text = countdown_shown(t, now);
            &&& left < minute ==> text == "即将重置"@
            &&& minute <= left < 60 * minute ==> exists|m: int|
                text == #[trigger] decimal(m) + "分"@ && m * minute <= left < (m + 1) * minute
            &&& 60 * minute <= left ==> exists|h: int, m: int|
                {
                    &&& text == #[trigger] decimal(h) + "小时"@ + #[trigger] two_digits(m as nat)
                        + "分"@
                    &&& 0 <= m < 60
                    &&& (60 * h + m) * minute <= left < (60 * h + m + 1) * minute
                }
        }),
{
    leap_seconds_count_where_they_are_passed(t, now);
    let mins = t.minutes_since(now);
    if mins >= 60 {
        let (h, m) = (mins / 60, mins % 60);
        assert(countdown_shown(t, now) == decimal(h) + "小时"@ + two_digits(m as nat) + "分"@);
        assert(60 * h + m == mins);
    } else if mins >= 1 {
        assert(countdown_shown(t, now) == decimal(mins) + "分"@);
    }
}

/// Two resets that are a different number of minutes away, at least one, have different countdowns.
pub proof fn countdowns_tell_resets_apart(t: LocalTime, u: LocalTime, now: LocalTime)
    requires
        t.minutes_since(now) >= 1,
        u.minutes_since(now) >= 1,
        countdown_shown(t, now) == countdown_shown(u, now),
    ensures
        t.minutes_since(now) == u.minutes_since(now),
{
    reveal_strlit("小时");
    reveal_strlit("分");
    let (a, b) = (t.minutes_since(now), u.minutes_since(now));
    let (p, q) = (
        if a >= 60 {
            a / 60
        } else {
            a
        },
        if b >= 60 {
            b / 60
        } else {
            b
        },
    );
    let (x, y) = (after_number(a), after_number(b));
    decimal_stands_for_the_number(p);
    decimal_stands_for_the_number(q);
    assert(countdown_shown(t, now) =~= decimal(p) + x);
    assert(countdown_shown(u, now) =~= decimal(q) + y);
    leading_digits_tell_texts_apart(decimal(p), x, decimal(q), y);
    decimals_differ(p, q);
    assert(x[0] == y[0]);
    if a >= 60 {
        two_digits_stand_for_the_number((a % 60) as nat);
        two_digits_stand_for_the_number((b % 60) as nat);
        assert(x.subrange(2, 4) =~= two_digits((a % 60) as nat));
        assert(y.subrange(2, 4) =~= two_digits((b % 60) as nat));
    }
}

/// What follows the first number of a countdown.
spec fn after_number(mins: int) -> Seq<char> {
    if mins >= 60 {
        "小时"@ + two_digits((mins % 60) as nat) + "分"@
    } else {
        "分"@
    }
}

/// A reset is shown with its own local time, after the word for today or tomorrow where it is then,
/// and after its month and day otherwise.
pub proof fn resets_are_shown_by_day_and_time(t: LocalTime, now: LocalTime)
    ensures
        ({
            let text = reset_shown(t, now);
            let today = (now.secs + now.offset) / 86_400;
            let day = (t.secs + t.offset) / 86_400;
            let time = hours_minutes(t.secs + t.offset);
            &&& day == today ==> text == "今天 "@ + time
            &&& day == today + 1 ==> text == "明天 "@ + time
            &&& day != today && day != today + 1 ==> text == month_day_time(t.secs + t.offset)
        }),
{
}

/// The first cells of a bar are filled, as many as there should be, and the others are not.
pub proof fn bars_show_their_cells(filled: nat, len: nat, i: int)
    requires
        0 <= i < len,
    ensures
        bar_shown(filled, len).len() == len,
        bar_shown(filled, len)[i] == if i < filled {
            '█'
        } else {
            '░'
        },
{
}

/// Only the first letter of the name of a plan is changed, and a letter from a to z becomes its
/// capital.
pub proof fn levels_keep_their_letters(level: Seq<char>)
    requires
        level.len() > 0,
        (level[0] as u32) < 128,
    ensures
        level_shown(level).len() == level.len(),
        forall|i: int| 1 <= i < level.len() ==> level_shown(level)[i] == #[trigger] level[i],
        'a' <= level[0] <= 'z' ==> level_shown(level)[0] as u32 + 32 == level[0] as u32,
        !('a' <= level[0] <= 'z') ==> level_shown(level)[0] == level[0],
{
}

/// What is left of a monthly quota and what is used make up the quota, unless more was used.
pub proof fn calls_left_and_used_are_the_total(m: McpLimit)
    ensures
        m.used <= m.total ==> calls_left(m) + m.used == m.total,
        m.used > m.total ==> calls_left(m) == 0,
{
}

/// Every window has its two lines in the menu, in the order of the windows: its own name, a bar of
/// twelve cells of which as many are filled as are left, the percentage that is left, and its own
/// reset with the countdown.
pub proof fn the_menu_tells_every_window(state: UiState, now: LocalTime, i: int)
    requires
        state.status is Ready,
        0 <= i < state.status->Ready_0.windows@.len(),
    ensures
        ({
            let shown = menu_shown(state, now);
            let s = state.status->Ready_0;
            let w = s.windows@[i];
            &&& shown.len() >= 2 + 2 * s.windows@.len()
            &&& shown[0] == EntryView::Info("GLM Coding Plan · "@ + level_shown(s.level@) + " 套餐"@)
            &&& exists|bar: Seq<char>|
                {
                    &&& bar.len() == 12
                    &&& forall|k: int|
                        0 <= k < 12 ==> (#[trigger] bar[k] == if k < w.used_pct.left_of_12 {
                            '█'
                        } else {
                            '░'
                        })
                    &&& shown[2 + 2 * i] == EntryView::Info(
                        #[trigger] (w.label@ + " "@ + bar) + " 剩余 "@ + decimal(
                            w.used_pct.left as int,
                        ) + "%"@,
                    )
                }
            &&& w.next_reset is None ==> shown[3 + 2 * i] == EntryView::Info(
                "  ↻ 未激活，点下方「激活额度」开始计算"@,
            )
            &&& w.next_reset is Some ==> shown[3 + 2 * i] == EntryView::Info(
                "  ↻ 重置 "@ + reset_shown(w.next_reset->0, now) + "（"@ + countdown_shown(
                    w.next_reset->0,
                    now,
                ) + "后）"@,
            )
        }),
{
    let s = state.status->Ready_0;
    let w = s.windows@[i];
    let shown = menu_shown(state, now);
    let rows = menu_windows(s.windows@, now);
    assert(menu_status(state, now)[2 + 2 * i] == rows[2 * i]);
    assert(menu_status(state, now)[3 + 2 * i] == rows[2 * i + 1]);
    assert(shown[2 + 2 * i] == rows[2 * i]);
    assert(shown[3 + 2 * i] == rows[2 * i + 1]);
    assert((2 * i) / 2 == i && (2 * i + 1) / 2 == i);
    let bar = bar_shown(w.used_pct.left_of_12 as nat, 12);
    let line = (w.label@ + " "@ + bar) + " 剩余 "@ + decimal(w.used_pct.left as int) + "%"@;
    assert(window_line(w, w.used_pct.left_of_12 as nat, 12) =~= line);
}

/// The monthly quota stands below the windows: a bar of what is left, the calls that were used and
/// their total, the tools, and its own reset.
pub proof fn the_menu_tells_the_monthly_quota(state: UiState, now: LocalTime)
    requires
        state.status is Ready,
        state.status->Ready_0.mcp is Some,
    ensures
        ({
            let shown = menu_shown(state, now);
            let s = state.status->Ready_0;
            let m = s.mcp->0;
            let at = 2 + 2 * s.windows@.len() as int;
            let tools: int = if m.details@.len() > 0 {
                1
            } else {
                0
            };
            &&& shown[at] == EntryView::Separator
            &&& exists|bar: Seq<char>|
                {
                    &&& bar.len() == 12
                    &&& forall|k: int|
                        0 <= k < 12 ==> (#[trigger] bar[k] == if k < m.used_pct.left_of_12 {
                            '█'
                        } else {
                            '░'
                        })
                    &&& shown[at + 1] == EntryView::Info(
                        #[trigger] ("MCP 月额度 "@ + bar) + " "@ + decimal(m.used as int) + "/"@
                            + decimal(m.total as int) + " 次"@,
                    )
                }
            &&& tools == 1 ==> shown[at + 2] == EntryView::Info("  · "@ + tools_shown(m.details@))
            &&& m.next_reset is Some ==> shown[at + 2 + tools] == EntryView::Info(
                "  ↻ 重置 "@ + reset_shown(m.next_reset->0, now),
            )
        }),
{
    let s = state.status->Ready_0;
    let m = s.mcp->0;
    let shown = menu_shown(state, now);
    let rows = menu_mcp(s.mcp, now);
    let at = 2 + 2 * s.windows@.len() as int;
    assert forall|k: int| 0 <= k < rows.len() implies shown[at + k] == rows[k] by {
        assert(menu_status(state, now)[at + k] == rows[k]);
    }
    assert(shown[at] == rows[0]);
    assert(shown[at + 1] == rows[1]);
    let bar = bar_shown(m.used_pct.left_of_12 as nat, 12);
    let line = ("MCP 月额度 "@ + bar) + " "@ + decimal(m.used as int) + "/"@ + decimal(
        m.total as int,
    ) + " 次"@;
    assert(rows[1] == EntryView::Info(line));
    if m.details@.len() > 0 {
        assert(shown[at + 2] == rows[2]);
        if m.next_reset is Some {
            assert(shown[at + 3] == rows[3]);
        }
    } else if m.next_reset is Some {
        assert(shown[at + 2] == rows[2]);
    }
}

/// The tools are shown one after the other, each with its own name and count.
pub proof fn tools_are_shown_in_order(a: Seq<(String, i64)>, tool: (String, i64))
    ensures
        tools_shown(a.push(tool)) == (if a.len() == 0 {
            Seq::empty()
        } else {
            tools_shown(a) + " · "@
        }) + tool.0@ + " "@ + decimal(tool.1 as int),
{
    let line = |d: (String, i64)| d.0@ + " "@ + decimal(d.1 as int);
    let (few, all) = (a.map_values(line), a.push(tool).map_values(line));
    assert(all.drop_last() =~= few);
    assert(tools_shown(a.push(tool)) =~= (if a.len() == 0 {
        Seq::empty()
    } else {
        tools_shown(a) + " · "@
    }) + tool.0@ + " "@ + decimal(tool.1 as int));
}

/// Without a snapshot the menu tells why: the query is on its way, there is no key and where to put
/// it, or what went wrong in up to three lines.
pub proof fn the_menu_tells_why_there_is_nothing(state: UiState, now: LocalTime)
    ensures
        ({
            let shown = menu_shown(state, now);
            &&& state.status is Loading ==> shown[0] == EntryView::Info("加载中…"@)
                && shown[1] == EntryView::Separator
            &&& state.status is NoKey ==> shown[0] == EntryView::Info("未配置 API Key"@)
                && shown[1] == EntryView::Info("配置文件: "@ + state.cfg_path@) && shown[2]
                == EntryView::Info("填入 api_key 保存后，点击「刷新」即可"@) && shown[3]
                == EntryView::Separator
            &&& state.status matches Status::Failed(msg) ==> {
                let lines = wrapped(msg@, 28);
                let n = if lines.len() < 3 {
                    lines.len() as int
                } else {
                    3
                };
                &&& forall|i: int|
                    0 <= i < n ==> #[trigger] shown[i] == EntryView::Info("⚠ "@ + lines[i])
                &&& shown[n] == EntryView::Separator
            }
        }),
{
    let shown = menu_shown(state, now);
    let head = menu_status(state, now);
    assert(shown[head.len() as int] == menu_actions(state)[0]);
    assert forall|i: int| 0 <= i < head.len() implies #[trigger] shown[i] == head[i] by {}
}

/// Below the separator stand what is going on, if anything is, and the lines that can be chosen.
/// The line for activating asks for it where there are windows and none of them is in use, and the
/// line for refreshing tells when the quota was fetched.
pub proof fn the_menu_tells_what_can_be_done(state: UiState, now: LocalTime)
    ensures
        ({
            let shown = menu_shown(state, now);
            let n = shown.len() as int;
            let unused = state.status is Ready && state.status->Ready_0.windows@.len() > 0 && forall|
                i: int,
            |
                0 <= i < state.status->Ready_0.windows@.len() ==> !(
                #[trigger] state.status->Ready_0.windows@[i]).activated;
            &&& n >= 6
            &&& state.busy is Some ==> shown[n - 6] == EntryView::Info("⏳ "@ + state.busy->0@)
                && shown[n - 7] == EntryView::Separator
            &&& state.busy is None ==> shown[n - 6] == EntryView::Separator
            &&& unused ==> shown[n - 5]->text == "⚡ 激活 5 小时额度（当前未激活）"@
            &&& !unused ==> shown[n - 5]->text == "⚡ 激活额度（发送 \"1\"）"@
            &&& state.status is Ready ==> shown[n - 4]->text == "↻ 立即刷新（更新于 "@
                + hours_minutes_seconds(
                state.status->Ready_0.fetched_at.local_secs(),
                state.status->Ready_0.fetched_at.nanos as int,
            ) + "）"@
            &&& !(state.status is Ready) ==> shown[n - 4]->text == "↻ 立即刷新"@
            &&& shown[n - 3]->text == "⚙ 打开配置文件"@
            &&& shown[n - 2]->text == "↗ GLMeter v"@ + VERSION@ + " · "@ + REPO@
            &&& shown[n - 1]->text == "✕ 退出"@
        }),
{
    let shown = menu_shown(state, now);
    let (head, tail) = (menu_status(state, now), menu_actions(state));
    assert forall|i: int| 0 <= i < tail.len() implies shown[head.len() + i] == tail[i] by {}
    let n = shown.len() as int;
    let k = tail.len() as int;
    assert(shown[n - 1] == tail[k - 1]);
    assert(shown[n - 2] == tail[k - 2]);
    assert(shown[n - 3] == tail[k - 3]);
    assert(shown[n - 4] == tail[k - 4]);
    assert(shown[n - 5] == tail[k - 5]);
    assert(shown[n - 6] == tail[k - 6]);
    if state.busy is Some {
        assert(shown[n - 7] == tail[k - 7]);
    }
}

/// The menu has the lines that are told of and no others.
pub proof fn the_menu_has_no_other_lines(state: UiState, now: LocalTime)
    ensures
        ({
            let n = menu_shown(state, now).len();
            let below: int = if state.busy is Some {
                7
            } else {
                6
            };
            &&& state.status is Loading ==> n == 1 + below
            &&& state.status is NoKey ==> n == 3 + below
            &&& state.status matches Status::Failed(msg) ==> n == below + (if wrapped(
                msg@,
                28,
            ).len() < 3 {
                wrapped(msg@, 28).len() as int
            } else {
                3
            })
            &&& state.status matches Status::Ready(s) ==> n == 2 + 2 * s.windows@.len() + below
                + match s.mcp {
                None => 0int,
                Some(m) => 2 + (if m.details@.len() > 0 {
                    1int
                } else {
                    0
                }) + (if m.next_reset is Some {
                    1int
                } else {
                    0
                }),
            }
            &&& state.status is Ready ==> menu_shown(state, now)[1] == EntryView::Separator
        }),
{
}

/// What can be shown: every time that lies on the calendar, with a local date on the calendar where a
/// date may be told, and quotas whose difference fits in 64 bits.
pub proof fn states_that_can_be_shown(state: UiState)
    ensures
        !(state.status is Ready) ==> state.windows_ok() && state.fetched_ok()
            && state.first_reset_ok() && state.times_ok() && state.calls_ok(),
        state.status matches Status::Ready(s) ==> {
            &&& state.fetched_ok() <==> s.fetched_at.wf()
            &&& s.windows@.len() == 0 || s.windows@[0].next_reset is None ==> state.first_reset_ok()
            &&& s.windows@.len() > 0 && s.windows@[0].next_reset is Some ==> (
            state.first_reset_ok() <==> s.windows@[0].next_reset->0.wf()
                && s.windows@[0].next_reset->0.dated())
            &&& state.windows_ok() <==> forall|i: int|
                0 <= i < s.windows@.len() && (#[trigger] s.windows@[i]).next_reset is Some
                    ==> s.windows@[i].next_reset->0.wf() && s.windows@[i].next_reset->0.dated()
            &&& state.times_ok() <==> state.windows_ok() && s.fetched_at.wf() && (s.mcp is Some
                && s.mcp->0.next_reset is Some ==> s.mcp->0.next_reset->0.wf()
                && s.mcp->0.next_reset->0.dated())
            &&& state.calls_ok() <==> s.mcp is None || (-0x8000_0000_0000_0000 <= s.mcp->0.total
                - s.mcp->0.used <= 0x7fff_ffff_ffff_ffff)
        },
{
    if let Status::Ready(s) = state.status {
        if state.windows_ok() {
            assert forall|i: int|
                0 <= i < s.windows@.len() && (#[trigger] s.windows@[i]).next_reset is Some implies
                s.windows@[i].next_reset->0.wf() && s.windows@[i].next_reset->0.dated() by {
                assert(time_ok(s.windows@[i].next_reset));
            }
        } else {
            let i = choose|i: int|
                0 <= i < s.windows@.len() && !time_ok((#[trigger] s.windows@[i]).next_reset);
            assert(s.windows@[i].next_reset is Some);
        }
    }
}

/// A plan without a name is shown as three dots, and of another name everything but the first
/// character is shown as it is.
pub proof fn names_of_plans_are_shown_whole(level: Seq<char>)
    ensures
        level.len() == 0 ==> level_shown(level) == "…"@,
        level.len() > 0 && level[0] as u32 >= 128 ==> level_shown(level) == upper_case(level[0])
            + level.subrange(1, level.len() as int),
        level.len() > 0 ==> level_shown(level).len() >= level.len() - 1 && level_shown(
            level,
        ).subrange(
            level_shown(level).len() - level.len() + 1,
            level_shown(level).len() as int,
        ) == level.subrange(1, level.len() as int),
{
    if level.len() > 0 {
        let shown = level_shown(level);
        let rest = level.subrange(1, level.len() as int);
        assert(level.skip(1) =~= rest);
        assert(shown.subrange(shown.len() - level.len() + 1, shown.len() as int) =~= rest);
    }
}

/// What a menu says is what each of its lines says, in its place: its kind, its text, and the id by
/// which it is chosen.
pub proof fn every_line_of_the_menu_is_told(list: Seq<MenuEntry>, i: int)
    requires
        0 <= i < list.len(),
    ensures
        entry_views(list).len() == list.len(),
        list[i] matches MenuEntry::Info(text) ==> entry_views(list)[i] == EntryView::Info(text@),
        list[i] matches MenuEntry::Button { id, text } ==> entry_views(list)[i]
            == (EntryView::Button { id: id@, text: text@ }),
        list[i] is Separator ==> entry_views(list)[i] is Separator,
{
}

/// The resets of a snapshot are points in time exactly where each of them is.
pub proof fn resets_that_are_points_in_time(s: QuotaSnapshot)
    ensures
        s.resets_wf() <==> (forall|i: int|
            0 <= i < s.windows@.len() && (#[trigger] s.windows@[i]).next_reset is Some
                ==> s.windows@[i].next_reset->0.wf()) && (s.mcp is Some
            && s.mcp->0.next_reset is Some ==> s.mcp->0.next_reset->0.wf()),
{
    if !s.resets_wf() && (s.mcp is Some && s.mcp->0.next_reset is Some
        ==> s.mcp->0.next_reset->0.wf()) {
        let i = choose|i: int|
            0 <= i < s.windows@.len() && !((#[trigger] s.windows@[i]).next_reset matches Some(t)
                ==> t.wf());
        assert(s.windows@[i].next_reset is Some);
    }
}

/// The window of five hours is the first of the snapshot, where there is one.
pub proof fn the_first_window_is_that_of_five_hours(state: UiState)
    ensures
        state.five_hour_window() is Some <==> state.status is Ready
            && state.status->Ready_0.windows@.len() > 0,
        state.five_hour_window() matches Some(w) ==> w == state.status->Ready_0.windows@[0],
        state.snapshot() is Some <==> state.status is Ready,
        state.snapshot() matches Some(s) ==> s == state.status->Ready_0,
{
}

} // verus!
