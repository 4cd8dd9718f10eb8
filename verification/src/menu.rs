//! The menu of a native tray: a heading, rows that change, and actions. The menu is built anew only
//! where its shape changes; otherwise the texts of its items are replaced in place.

use crate::api::{McpLimit, TokenWindow};
use crate::clock::{hours_minutes, time_text, told_by_clock, LocalTime};
use crate::text::{
    cut, decimal, first_chars, push_number, push_text, two_each, two_each_more, views, wrap,
    wrapped,
};
use crate::ui::{
    activate_shown, activate_text, countdown_shown, first_three, fmt_reset, glue, level_shown, level_text,
    menu_reset_line, pct, percent_shown, reset_shown, reset_text, time_ok, tools_shown,
    tools_text, Status, UiState, ID_ACTIVATE, ID_CONFIG, ID_QUIT, ID_REFRESH, REPO, VERSION,
};
use vstd::prelude::*;
use vstd::string::*;

verus! {

/// The shape of a menu: two menus of the same shape have the same items but for their texts.
#[derive(Clone, Copy, PartialEq, Eq, Debug, Structural)]
pub enum Shape {
    Loading,
    NoKey,
    Error(usize),
    Quota { windows: usize, mcp: bool, mcp_details: usize },
}

/// The shape that the menu of a state has.
pub open spec fn shape_shown(state: UiState) -> Shape {
    match state.status {
        Status::Loading => Shape::Loading,
        Status::NoKey => Shape::NoKey,
        Status::Failed(msg) => Shape::Error(first_three(wrapped(msg@, 28)).len() as usize),
        Status::Ready(s) => Shape::Quota {
            windows: s.windows@.len() as usize,
            mcp: s.mcp is Some,
            mcp_details: match s.mcp {
                Some(m) => m.details@.len() as usize,
                None => 0,
            },
        },
    }
}

/// The shape of the menu of a state.
pub fn shape_of(state: &UiState) -> (r: Shape)
    ensures
        r == shape_shown(*state),
{
    match &state.status {
        Status::Loading => Shape::Loading,
        Status::NoKey => Shape::NoKey,
        Status::Failed(msg) => {
            let lines = wrap(msg.as_str(), 28);
            let n: usize = lines.len();
            assert(views(lines@).len() == n);
            Shape::Error(if n <= 3 { n } else { 3 })
        },
        Status::Ready(s) => Shape::Quota {
            windows: s.windows.len(),
            mcp: s.mcp.is_some(),
            mcp_details: match &s.mcp {
                Some(m) => m.details.len(),
                None => 0,
            },
        },
    }
}

// ---------------------------------------------------------------------------------------------
// Texts
// ---------------------------------------------------------------------------------------------

/// The mark before a heading while something is going on.
pub open spec fn busy_mark(state: UiState) -> Seq<char> {
    if state.busy is Some {
        "⏳ "@
    } else {
        ""@
    }
}

/// The heading.
pub open spec fn header_shown(state: UiState) -> Seq<char> {
    busy_mark(state) + match state.status {
        Status::Loading => "GLM Coding Plan · 加载中…"@,
        Status::NoKey => "GLM Coding Plan · 未配置"@,
        Status::Failed(_) => "GLM Coding Plan · 查询失败"@,
        Status::Ready(s) => "GLM Coding Plan · "@ + level_shown(s.level@) + " · 更新于 "@
            + hours_minutes(s.fetched_at.local_secs()),
    }
}

/// The first row of a window: what is used and what is left.
pub open spec fn row_line(w: TokenWindow) -> Seq<char> {
    w.label@ + ": 已用 "@ + percent_shown(w.used_pct.used as int) + "（剩余 "@ + percent_shown(
        w.used_pct.left as int,
    ) + "）"@
}

/// The rows of the windows, two each.
pub open spec fn window_rows(windows: Seq<TokenWindow>, now: LocalTime) -> Seq<Seq<char>> {
    two_each(
        windows,
        |w: TokenWindow| row_line(w),
        |w: TokenWindow| menu_reset_line(w, now),
    )
}

/// The rows of the monthly quota.
pub open spec fn mcp_rows(mcp: Option<McpLimit>) -> Seq<Seq<char>> {
    match mcp {
        None => Seq::empty(),
        Some(m) => seq![
            "MCP 月额度: "@ + decimal(m.used as int) + (if m.total > 0 {
                "/"@ + decimal(m.total as int)
            } else {
                ""@
            }) + " 次"@ + "（已用 "@ + percent_shown(m.used_pct.used as int) + "）"@,
        ] + (if m.details@.len() > 0 {
            seq!["  · "@ + tools_shown(m.details@)]
        } else {
            Seq::empty()
        }),
    }
}

/// The rows that change.
pub open spec fn rows_shown(state: UiState, now: LocalTime) -> Seq<Seq<char>> {
    match state.status {
        Status::Loading => seq!["加载中…"@],
        Status::NoKey => seq![
            "未配置 API Key"@,
            "配置文件: "@ + state.cfg_path@,
            "填入 api_key 保存后，点击「刷新」即可"@,
        ],
        Status::Failed(msg) => first_three(wrapped(msg@, 28)).map_values(
            |line: Seq<char>| "⚠ "@ + line,
        ),
        Status::Ready(s) => window_rows(s.windows@, now) + mcp_rows(s.mcp),
    }
}

/// The heading.
pub fn header_text(state: &UiState) -> (r: String)
    requires
        state.fetched_ok(),
    ensures
        r@ == header_shown(*state),
{
    let text = match &state.status {
        Status::Loading => "GLM Coding Plan · 加载中…".to_owned(),
        Status::NoKey => "GLM Coding Plan · 未配置".to_owned(),
        Status::Failed(_) => "GLM Coding Plan · 查询失败".to_owned(),
        Status::Ready(s) => {
            let mut text = "GLM Coding Plan · ".to_owned();
            text.append(level_text(s.level.as_str()).as_str());
            text.append(" · 更新于 ");
            text.append(time_text(&s.fetched_at, "%H:%M").as_str());
            text
        },
    };
    glue(if state.busy.is_some() { "⏳ " } else { "" }, text.as_str())
}

fn push_window_rows(rows: &mut Vec<String>, windows: &Vec<TokenWindow>, now: &LocalTime)
    requires
        forall|i: int| 0 <= i < windows@.len() ==> time_ok((#[trigger] windows@[i]).next_reset),
        now.wf(),
    ensures
        views(final(rows)@) == views(old(rows)@) + window_rows(windows@, *now),
{
    let ghost before = views(rows@);
    let mut i: usize = 0;
    assert(before + window_rows(windows@.take(0), *now) =~= before);
    while i < windows.len()
        invariant
            i <= windows@.len(),
            forall|k: int|
                0 <= k < windows@.len() ==> time_ok((#[trigger] windows@[k]).next_reset),
            now.wf(),
            views(rows@) == before + window_rows(windows@.take(i as int), *now),
        decreases windows@.len() - i,
    {
        let w = &windows[i];
        assert(time_ok(w.next_reset));
        let mut text = w.label.clone();
        text.append(": 已用 ");
        text.append(pct(w.used_pct.used).as_str());
        text.append("（剩余 ");
        text.append(pct(w.used_pct.left).as_str());
        text.append("）");
        push_text(rows, text);
        push_text(
            rows,
            match &w.next_reset {
                Some(t) => reset_text("  ↻ 重置 ", t, now),
                None => "  ↻ 未激活，点下方「激活额度」开始计算".to_owned(),
            },
        );
        proof {
            two_each_more(
                windows@,
                i as int,
                |w: TokenWindow| row_line(w),
                |w: TokenWindow| menu_reset_line(w, *now),
            );
            assert(views(rows@) =~= before + window_rows(windows@.take(i + 1), *now));
        }
        i = i + 1;
    }
    assert(windows@.take(i as int) =~= windows@);
}

fn push_mcp_rows(rows: &mut Vec<String>, mcp: &Option<McpLimit>)
    ensures
        views(final(rows)@) == views(old(rows)@) + mcp_rows(*mcp),
{
    let ghost before = views(rows@);
    if let Some(m) = mcp {
        let mut text = "MCP 月额度: ".to_owned();
        push_number(&mut text, m.used as i128);
        if m.total > 0 {
            let mut total = "/".to_owned();
            push_number(&mut total, m.total as i128);
            text.append(total.as_str());
        } else {
            text.append("");
        }
        text.append(" 次");
        text.append("（已用 ");
        text.append(pct(m.used_pct.used).as_str());
        text.append("）");
        push_text(rows, text);
        if m.details.len() > 0 {
            push_text(rows, glue("  · ", tools_text(&m.details).as_str()));
        }
    }
    assert(views(rows@) =~= before + mcp_rows(*mcp));
}

/// The rows that change, seen at `now`.
pub fn rows_text(state: &UiState, now: &LocalTime) -> (rows: Vec<String>)
    requires
        state.windows_ok(),
        now.wf(),
    ensures
        views(rows@) == rows_shown(*state, *now),
{
    let mut rows: Vec<String> = Vec::new();
    assert(views(rows@) =~= Seq::empty());
    match &state.status {
        Status::Loading => {
            push_text(&mut rows, "加载中…".to_owned());
        },
        Status::NoKey => {
            push_text(&mut rows, "未配置 API Key".to_owned());
            push_text(&mut rows, glue("配置文件: ", state.cfg_path.as_str()));
            push_text(&mut rows, "填入 api_key 保存后，点击「刷新」即可".to_owned());
        },
        Status::Failed(msg) => {
            let ghost shown = |line: Seq<char>| "⚠ "@ + line;
            let lines = wrap(msg.as_str(), 28);
            let ghost all = views(lines@);
            let mut i: usize = 0;
            assert(all.take(0).map_values(shown) =~= Seq::empty());
            while i < lines.len() && i < 3
                invariant
                    i <= lines@.len(),
                    i <= 3,
                    all == views(lines@),
                    shown == (|line: Seq<char>| "⚠ "@ + line),
                    views(rows@) == all.take(i as int).map_values(shown),
                decreases lines@.len() - i,
            {
                push_text(&mut rows, glue("⚠ ", lines[i].as_str()));
                assert(all.take(i + 1).map_values(shown) =~= all.take(i as int).map_values(
                    shown,
                ).push(shown(all[i as int])));
                i = i + 1;
            }
            assert(first_three(all) =~= all.take(i as int));
        },
        Status::Ready(s) => {
            push_window_rows(&mut rows, &s.windows, now);
            push_mcp_rows(&mut rows, &s.mcp);
        },
    }
    assert(views(rows@) =~= rows_shown(*state, *now));
    rows
}

// ---------------------------------------------------------------------------------------------
// Items
// ---------------------------------------------------------------------------------------------

/// A line of a native menu.
#[derive(Debug)]
pub enum NativeItem {
    Item { id: &'static str, text: String, enabled: bool },
    Separator,
}

/// What a line of a native menu says.
pub enum NativeView {
    Item { id: Seq<char>, text: Seq<char>, enabled: bool },
    Separator,
}

impl View for NativeItem {
    type V = NativeView;

    open spec fn view(&self) -> NativeView {
        match self {
            NativeItem::Item { id, text, enabled } => NativeView::Item {
                id: id@,
                text: text@,
                enabled: *enabled,
            },
            NativeItem::Separator => NativeView::Separator,
        }
    }
}

/// What the lines of a native menu say.
pub open spec fn native_views(list: Seq<NativeItem>) -> Seq<NativeView> {
    list.map_values(|e: NativeItem| e@)
}

/// A line that can be chosen.
pub open spec fn item_shown(id: Seq<char>, text: Seq<char>) -> NativeView {
    NativeView::Item { id, text, enabled: true }
}

/// A line that only informs.
pub open spec fn info_shown(text: Seq<char>) -> NativeView {
    NativeView::Item { id: "info"@, text, enabled: false }
}

/// The texts of those items that change.
#[derive(Debug)]
pub struct Slots {
    pub header: String,
    pub rows: Vec<String>,
    pub activate: String,
}

impl Slots {
    /// The texts are those of a state, seen at `now`.
    pub open spec fn shows(self, state: UiState, now: LocalTime) -> bool {
        &&& self.header@ == header_shown(state)
        &&& views(self.rows@) == rows_shown(state, now)
        &&& self.activate@ == activate_shown(state)
    }
}

/// The lines that a menu is built of.
pub open spec fn built_shown(state: UiState, now: LocalTime) -> Seq<NativeView> {
    seq![info_shown(header_shown(state)), NativeView::Separator] + rows_shown(
        state,
        now,
    ).map_values(|row: Seq<char>| info_shown(row)) + seq![
        NativeView::Separator,
        item_shown(ID_ACTIVATE@, activate_shown(state)),
        item_shown(ID_REFRESH@, "↻ 立即刷新"@),
        item_shown(ID_CONFIG@, "⚙ 打开配置文件"@),
        info_shown("GLMeter v"@ + VERSION@ + " · "@ + REPO@),
        item_shown(ID_QUIT@, "✕ 退出"@),
    ]
}

fn item(id: &'static str, text: &str, enabled: bool) -> (r: NativeItem)
    ensures
        r@ == (NativeView::Item { id: id@, text: text@, enabled }),
{
    NativeItem::Item { id, text: text.to_owned(), enabled }
}

fn info(text: &str) -> (r: NativeItem)
    ensures
        r@ == info_shown(text@),
{
    item("info", text, false)
}

fn push_item(list: &mut Vec<NativeItem>, entry: NativeItem)
    ensures
        native_views(final(list)@) == native_views(old(list)@).push(entry@),
{
    let ghost before = native_views(list@);
    list.push(entry);
    assert(native_views(list@) =~= before.push(entry@));
}

/// The lines of the menu, and the texts of those that change, seen at `now`.
pub fn build_at(state: &UiState, now: &LocalTime) -> (r: (Vec<NativeItem>, Slots))
    requires
        state.windows_ok(),
        state.fetched_ok(),
        now.wf(),
    ensures
        native_views(r.0@) == built_shown(*state, *now),
        r.1.shows(*state, *now),
{
    let header = header_text(state);
    let rows = rows_text(state, now);
    let activate = activate_text(state);
    let mut menu: Vec<NativeItem> = Vec::new();
    assert(native_views(menu@) =~= Seq::empty());
    push_item(&mut menu, info(header.as_str()));
    push_item(&mut menu, NativeItem::Separator);
    let ghost start = native_views(menu@);
    let ghost shown = |row: Seq<char>| info_shown(row);
    let ghost all = views(rows@);
    let mut i: usize = 0;
    assert(start + all.take(0).map_values(shown) =~= start);
    while i < rows.len()
        invariant
            i <= rows@.len(),
            all == views(rows@),
            shown == (|row: Seq<char>| info_shown(row)),
            native_views(menu@) == start + all.take(i as int).map_values(shown),
        decreases rows@.len() - i,
    {
        push_item(&mut menu, info(rows[i].as_str()));
        assert(start + all.take(i + 1).map_values(shown) =~= (start + all.take(i as int).map_values(
            shown,
        )).push(shown(all[i as int])));
        i = i + 1;
    }
    assert(all.take(i as int) =~= all);
    push_item(&mut menu, NativeItem::Separator);
    push_item(&mut menu, item(ID_ACTIVATE, activate, true));
    push_item(&mut menu, item(ID_REFRESH, "↻ 立即刷新", true));
    push_item(&mut menu, item(ID_CONFIG, "⚙ 打开配置文件", true));
    let mut about = "GLMeter v".to_owned();
    about.append(VERSION);
    about.append(" · ");
    about.append(REPO);
    push_item(&mut menu, info(about.as_str()));
    push_item(&mut menu, item(ID_QUIT, "✕ 退出", true));
    assert(native_views(menu@) =~= built_shown(*state, *now));
    (menu, Slots { header, rows, activate: activate.to_owned() })
}

/// The lines of the menu, and the texts of those that change, seen now.
pub fn build(state: &UiState) -> (r: (Vec<NativeItem>, Slots))
    requires
        state.windows_ok(),
        state.fetched_ok(),
    ensures
        exists|now: LocalTime|
            now.wf() && told_by_clock(now) && native_views(r.0@) == #[trigger] built_shown(*state, now) && r.1.shows(
                *state,
                now,
            ),
{
    let now = LocalTime::now();
    build_at(state, &now)
}

/// The rows after those of `new` have been put in the place of the first ones of `held`.
pub open spec fn rows_replaced(held: Seq<Seq<char>>, new: Seq<Seq<char>>) -> Seq<Seq<char>> {
    Seq::new(
        held.len(),
        |i: int|
            if i < new.len() {
                new[i]
            } else {
                held[i]
            },
    )
}

/// Puts the texts of a state, seen at `now`, into the items that are there. No item is added or
/// taken away.
pub fn apply_at(slots: &mut Slots, state: &UiState, now: &LocalTime)
    requires
        state.windows_ok(),
        state.fetched_ok(),
        now.wf(),
    ensures
        final(slots).header@ == header_shown(*state),
        final(slots).activate@ == activate_shown(*state),
        views(final(slots).rows@) == rows_replaced(views(old(slots).rows@), rows_shown(*state, *now)),
{
    let ghost held = views(slots.rows@);
    let rows = rows_text(state, now);
    let ghost new = views(rows@);
    slots.header = header_text(state);
    slots.activate = activate_text(state).to_owned();
    let mut i: usize = 0;
    while i < slots.rows.len() && i < rows.len()
        invariant
            i <= rows@.len(),
            i <= slots.rows@.len(),
            slots.rows@.len() == held.len(),
            new == views(rows@),
            slots.header@ == header_shown(*state),
            slots.activate@ == activate_shown(*state),
            forall|k: int| 0 <= k < i ==> (#[trigger] slots.rows@[k])@ == new[k],
            forall|k: int| i <= k < held.len() ==> (#[trigger] slots.rows@[k])@ == held[k],
        decreases rows@.len() - i,
    {
        slots.rows.set(i, rows[i].clone());
        i = i + 1;
    }
    assert(views(slots.rows@) =~= rows_replaced(held, new));
}

/// Puts the texts of a state, seen now, into the items that are there.
pub fn apply(slots: &mut Slots, state: &UiState)
    requires
        state.windows_ok(),
        state.fetched_ok(),
    ensures
        final(slots).header@ == header_shown(*state),
        final(slots).activate@ == activate_shown(*state),
        exists|now: LocalTime|
            now.wf() && told_by_clock(now) && views(final(slots).rows@) == rows_replaced(
                views(old(slots).rows@),
                #[trigger] rows_shown(*state, now),
            ),
{
    let now = LocalTime::now();
    apply_at(slots, state, &now);
}

/// The tooltip in one line.
pub open spec fn tooltip_shown(state: UiState, now: LocalTime) -> Seq<char> {
    match state.status {
        Status::Loading => busy_mark(state) + "GLMeter · 加载中…"@,
        Status::NoKey => busy_mark(state) + "GLMeter · 未配置 API Key"@,
        Status::Failed(msg) => busy_mark(state) + "GLMeter · 查询失败: "@ + first_chars(msg@, 60),
        Status::Ready(s) => match s.first_window() {
            None => busy_mark(state) + "GLMeter"@,
            Some(w) => match w.next_reset {
                None => busy_mark(state) + "GLMeter"@ + " · 5h剩余"@ + percent_shown(
                    w.used_pct.left as int,
                ),
                Some(t) => busy_mark(state) + "GLMeter"@ + " · 5h剩余"@ + percent_shown(
                    w.used_pct.left as int,
                ) + " · 重置 "@ + reset_shown(t, now),
            },
        },
    }
}

/// The tooltip in one line, seen at `now`.
pub fn tooltip_at(state: &UiState, now: &LocalTime) -> (r: String)
    requires
        state.first_reset_ok(),
        now.wf(),
    ensures
        r@ == tooltip_shown(*state, *now),
{
    let mut text = if state.busy.is_some() {
        "⏳ ".to_owned()
    } else {
        "".to_owned()
    };
    match &state.status {
        Status::Loading => {
            text.append("GLMeter · 加载中…");
        },
        Status::NoKey => {
            text.append("GLMeter · 未配置 API Key");
        },
        Status::Failed(msg) => {
            text.append("GLMeter · 查询失败: ");
            text.append(cut(msg.as_str(), 60).as_str());
        },
        Status::Ready(s) => {
            text.append("GLMeter");
            if s.windows.len() > 0 {
                let w = &s.windows[0];
                assert(state.five_hour_window() == Some(*w));
                text.append(" · 5h剩余");
                text.append(pct(w.used_pct.left).as_str());
                if let Some(t) = &w.next_reset {
                    text.append(" · 重置 ");
                    text.append(fmt_reset(t, now).as_str());
                }
            }
        },
    }
    text
}

/// The tooltip in one line, seen now.
pub fn tooltip(state: &UiState) -> (r: String)
    requires
        state.first_reset_ok(),
    ensures
        exists|now: LocalTime|
            now.wf() && told_by_clock(now) && r@ == #[trigger] tooltip_shown(*state, now),
{
    let now = LocalTime::now();
    tooltip_at(state, &now)
}

// ---------------------------------------------------------------------------------------------
// Laws
// ---------------------------------------------------------------------------------------------

/// How many rows a menu of some shape has.
pub open spec fn row_count(shape: Shape) -> int {
    match shape {
        Shape::Loading => 1,
        Shape::NoKey => 3,
        Shape::Error(n) => n as int,
        Shape::Quota { windows, mcp, mcp_details } => 2 * windows + (if mcp {
            if mcp_details > 0 {
                2int
            } else {
                1int
            }
        } else {
            0int
        }),
    }
}

/// The shape of a menu tells how many rows it has.
pub proof fn shape_tells_rows(state: UiState, now: LocalTime)
    requires
        state.snapshot() matches Some(s) ==> s.windows@.len() <= usize::MAX && (s.mcp matches Some(m)
            ==> m.details@.len() <= usize::MAX),
    ensures
        rows_shown(state, now).len() == row_count(shape_shown(state)),
{
}

/// Where the shape has not changed, replacing the texts in place shows the same as building the
/// menu anew.
pub proof fn same_shape_needs_no_rebuild(
    before: UiState,
    then: LocalTime,
    after: UiState,
    now: LocalTime,
)
    requires
        shape_shown(before) == shape_shown(after),
        before.snapshot() matches Some(s) ==> s.windows@.len() <= usize::MAX && (
        s.mcp matches Some(m) ==> m.details@.len() <= usize::MAX),
        after.snapshot() matches Some(s) ==> s.windows@.len() <= usize::MAX && (
        s.mcp matches Some(m) ==> m.details@.len() <= usize::MAX),
    ensures
        rows_replaced(rows_shown(before, then), rows_shown(after, now)) == rows_shown(after, now),
{
    shape_tells_rows(before, then);
    shape_tells_rows(after, now);
    assert(rows_replaced(rows_shown(before, then), rows_shown(after, now)) =~= rows_shown(
        after,
        now,
    ));
}

/// The heading tells the plan and the minute at which the quota was fetched, or why there is none.
/// In front of it stands a mark exactly where something is going on.
pub proof fn the_heading_tells_the_state(state: UiState)
    ensures
        ({
            let said = match state.status {
                Status::Loading => "GLM Coding Plan · 加载中…"@,
                Status::NoKey => "GLM Coding Plan · 未配置"@,
                Status::Failed(_) => "GLM Coding Plan · 查询失败"@,
                Status::Ready(s) => "GLM Coding Plan · "@ + level_shown(s.level@) + " · 更新于 "@
                    + hours_minutes(s.fetched_at.secs + s.fetched_at.offset),
            };
            &&& state.busy is Some ==> header_shown(state) == "⏳ "@ + said
            &&& state.busy is None ==> header_shown(state) == said
        }),
{
    reveal_strlit("");
    if state.busy is None {
        let mark = busy_mark(state);
        assert(mark =~= Seq::empty());
        assert(forall|t: Seq<char>| #[trigger] (mark + t) =~= t);
    }
}

/// Every window has its two rows, in the order of the windows: its own name, what is used and what is
/// left, and its own reset with the countdown.
pub proof fn rows_tell_every_window(state: UiState, now: LocalTime, i: int)
    requires
        state.status is Ready,
        0 <= i < state.status->Ready_0.windows@.len(),
    ensures
        ({
            let rows = rows_shown(state, now);
            let w = state.status->Ready_0.windows@[i];
            &&& rows.len() >= 2 * state.status->Ready_0.windows@.len()
            &&& rows[2 * i] == w.label@ + ": 已用 "@ + decimal(w.used_pct.used as int) + "%"@
                + "（剩余 "@ + decimal(w.used_pct.left as int) + "%"@ + "）"@
            &&& w.next_reset is None ==> rows[2 * i + 1]
                == "  ↻ 未激活，点下方「激活额度」开始计算"@
            &&& w.next_reset is Some ==> rows[2 * i + 1] == "  ↻ 重置 "@ + reset_shown(
                w.next_reset->0,
                now,
            ) + "（"@ + countdown_shown(w.next_reset->0, now) + "后）"@
        }),
{
    let s = state.status->Ready_0;
    let w = s.windows@[i];
    let rows = rows_shown(state, now);
    let mine = window_rows(s.windows@, now);
    assert(rows[2 * i] == mine[2 * i]);
    assert(rows[2 * i + 1] == mine[2 * i + 1]);
    assert((2 * i) / 2 == i && (2 * i + 1) / 2 == i);
    assert(row_line(w) =~= w.label@ + ": 已用 "@ + decimal(w.used_pct.used as int) + "%"@
        + "（剩余 "@ + decimal(w.used_pct.left as int) + "%"@ + "）"@);
}

/// Below the windows stand the calls of the monthly quota, with their total where there is one, and
/// the tools where any was used.
pub proof fn rows_tell_the_monthly_quota(state: UiState, now: LocalTime)
    requires
        state.status is Ready,
    ensures
        ({
            let rows = rows_shown(state, now);
            let at = 2 * state.status->Ready_0.windows@.len() as int;
            let m = state.status->Ready_0.mcp->0;
            &&& state.status->Ready_0.mcp is None ==> rows.len() == at
            &&& state.status->Ready_0.mcp is Some ==> {
                &&& m.total > 0 ==> rows[at] == "MCP 月额度: "@ + decimal(m.used as int) + "/"@
                    + decimal(m.total as int) + " 次"@ + "（已用 "@ + decimal(
                    m.used_pct.used as int,
                ) + "%"@ + "）"@
                &&& m.total <= 0 ==> rows[at] == "MCP 月额度: "@ + decimal(m.used as int) + " 次"@
                    + "（已用 "@ + decimal(m.used_pct.used as int) + "%"@ + "）"@
                &&& m.details@.len() > 0 ==> rows.len() == at + 2 && rows[at + 1] == "  · "@
                    + tools_shown(m.details@)
                &&& m.details@.len() == 0 ==> rows.len() == at + 1
            }
        }),
{
    reveal_strlit("");
    let rows = rows_shown(state, now);
    let s = state.status->Ready_0;
    let at = 2 * s.windows@.len() as int;
    if let Some(m) = s.mcp {
        assert(rows[at] == mcp_rows(s.mcp)[0]);
        if m.total > 0 {
            assert(rows[at] =~= "MCP 月额度: "@ + decimal(m.used as int) + "/"@ + decimal(
                m.total as int,
            ) + " 次"@ + "（已用 "@ + decimal(m.used_pct.used as int) + "%"@ + "）"@);
        } else {
            assert(rows[at] =~= "MCP 月额度: "@ + decimal(m.used as int) + " 次"@ + "（已用 "@
                + decimal(m.used_pct.used as int) + "%"@ + "）"@);
        }
        if m.details@.len() > 0 {
            assert(rows[at + 1] == mcp_rows(s.mcp)[1]);
        }
    }
}

/// Without a snapshot the rows tell why: the query is on its way, there is no key and where to put
/// it, or what went wrong in up to three lines.
pub proof fn rows_tell_why_there_is_nothing(state: UiState, now: LocalTime)
    ensures
        state.status is Loading ==> rows_shown(state, now) == seq!["加载中…"@],
        state.status is NoKey ==> rows_shown(state, now) == seq![
            "未配置 API Key"@,
            "配置文件: "@ + state.cfg_path@,
            "填入 api_key 保存后，点击「刷新」即可"@,
        ],
        state.status matches Status::Failed(msg) ==> {
            let lines = wrapped(msg@, 28);
            let rows = rows_shown(state, now);
            &&& lines.len() <= 3 ==> rows.len() == lines.len()
            &&& lines.len() > 3 ==> rows.len() == 3
            &&& forall|i: int| 0 <= i < rows.len() ==> #[trigger] rows[i] == "⚠ "@ + lines[i]
        },
{
}

/// The menu is built of the heading, the rows, and the lines that can be chosen, with separators
/// between. Nothing in the heading, the rows and the note on the version can be chosen.
pub proof fn the_menu_holds_heading_rows_and_actions(state: UiState, now: LocalTime)
    ensures
        ({
            let lines = built_shown(state, now);
            let rows = rows_shown(state, now);
            let at = 2 + rows.len() as int;
            &&& lines.len() == at + 6
            &&& lines[0] == (NativeView::Item {
                id: "info"@,
                text: header_shown(state),
                enabled: false,
            })
            &&& lines[1] == NativeView::Separator
            &&& forall|i: int|
                0 <= i < rows.len() ==> lines[2 + i] == (NativeView::Item {
                    id: "info"@,
                    text: #[trigger] rows[i],
                    enabled: false,
                })
            &&& lines[at] == NativeView::Separator
            &&& lines[at + 1] == (NativeView::Item {
                id: "activate"@,
                text: activate_shown(state),
                enabled: true,
            })
            &&& lines[at + 2] == (NativeView::Item {
                id: "refresh"@,
                text: "↻ 立即刷新"@,
                enabled: true,
            })
            &&& lines[at + 3] == (NativeView::Item {
                id: "config"@,
                text: "⚙ 打开配置文件"@,
                enabled: true,
            })
            &&& lines[at + 4] == (NativeView::Item {
                id: "info"@,
                text: "GLMeter v"@ + VERSION@ + " · "@ + REPO@,
                enabled: false,
            })
            &&& lines[at + 5] == (NativeView::Item {
                id: "quit"@,
                text: "✕ 退出"@,
                enabled: true,
            })
        }),
{
}

/// Replacing rows keeps their number. A row that has a new text gets it, and another keeps its own.
pub proof fn rows_are_replaced_in_place(held: Seq<Seq<char>>, new: Seq<Seq<char>>, i: int)
    requires
        0 <= i < held.len(),
    ensures
        rows_replaced(held, new).len() == held.len(),
        i < new.len() ==> rows_replaced(held, new)[i] == new[i],
        i >= new.len() ==> rows_replaced(held, new)[i] == held[i],
{
}

/// The tooltip in one line tells what is left of the first window and when it resets, or why there is
/// nothing to tell. In front of it stands a mark exactly where something is going on.
pub proof fn the_tooltip_tells_the_first_window(state: UiState, now: LocalTime)
    ensures
        ({
            let said = match state.status {
                Status::Loading => "GLMeter · 加载中…"@,
                Status::NoKey => "GLMeter · 未配置 API Key"@,
                Status::Failed(msg) => "GLMeter · 查询失败: "@ + (if msg@.len() <= 60 {
                    msg@
                } else {
                    msg@.subrange(0, 60)
                }),
                Status::Ready(s) => if s.windows@.len() == 0 {
                    "GLMeter"@
                } else if s.windows@[0].next_reset is None {
                    "GLMeter"@ + " · 5h剩余"@ + decimal(s.windows@[0].used_pct.left as int) + "%"@
                } else {
                    "GLMeter"@ + " · 5h剩余"@ + decimal(s.windows@[0].used_pct.left as int) + "%"@
                        + " · 重置 "@ + reset_shown(s.windows@[0].next_reset->0, now)
                },
            };
            &&& state.busy is Some ==> tooltip_shown(state, now) == "⏳ "@ + said
            &&& state.busy is None ==> tooltip_shown(state, now) == said
        }),
{
    reveal_strlit("");
    let mark = if state.busy is Some {
        "⏳ "@
    } else {
        Seq::empty()
    };
    assert(busy_mark(state) =~= mark);
    let shown = tooltip_shown(state, now);
    match state.status {
        Status::Failed(msg) => {
            if msg@.len() <= 60 {
                assert(first_chars(msg@, 60) =~= msg@);
                assert(shown =~= mark + ("GLMeter · 查询失败: "@ + msg@));
            } else {
                assert(first_chars(msg@, 60) =~= msg@.subrange(0, 60));
                assert(shown =~= mark + ("GLMeter · 查询失败: "@ + msg@.subrange(0, 60)));
            }
        },
        Status::Ready(s) => {
            if s.windows@.len() > 0 {
                let w = s.windows@[0];
                let head = "GLMeter"@ + " · 5h剩余"@ + decimal(w.used_pct.left as int) + "%"@;
                if w.next_reset is None {
                    assert(shown =~= mark + head);
                } else {
                    assert(shown =~= mark + (head + " · 重置 "@ + reset_shown(
                        w.next_reset->0,
                        now,
                    )));
                }
            }
        },
        _ => {},
    }
    if state.busy is None {
        assert(forall|t: Seq<char>| #[trigger] (mark + t) =~= t);
    }
}

/// The shape of a menu counts its windows, its tools and the lines of a failure.
pub proof fn shapes_count(state: UiState)
    ensures
        state.status is Loading <==> shape_shown(state) is Loading,
        state.status is NoKey <==> shape_shown(state) is NoKey,
        state.status matches Status::Failed(msg) ==> shape_shown(state) == Shape::Error(
            if wrapped(msg@, 28).len() < 3 {
                wrapped(msg@, 28).len() as usize
            } else {
                3usize
            },
        ),
        state.status matches Status::Ready(s) ==> shape_shown(state) == (Shape::Quota {
            windows: s.windows@.len() as usize,
            mcp: s.mcp is Some,
            mcp_details: if s.mcp is Some {
                s.mcp->0.details@.len() as usize
            } else {
                0usize
            },
        }),
{
}

/// What a native menu says is what each of its lines says, in its place: its id, its text, and
/// whether it can be chosen.
pub proof fn every_native_line_is_told(list: Seq<NativeItem>, i: int)
    requires
        0 <= i < list.len(),
    ensures
        native_views(list).len() == list.len(),
        list[i] matches NativeItem::Item { id, text, enabled } ==> native_views(list)[i]
            == (NativeView::Item { id: id@, text: text@, enabled }),
        list[i] is Separator ==> native_views(list)[i] is Separator,
{
}

/// Slots that show a state hold its heading, each of its rows, and its line for activating.
pub proof fn slots_hold_what_they_show(slots: Slots, state: UiState, now: LocalTime)
    requires
        slots.shows(state, now),
    ensures
        slots.header@ == header_shown(state),
        slots.activate@ == activate_shown(state),
        slots.rows@.len() == rows_shown(state, now).len(),
        forall|i: int|
            0 <= i < slots.rows@.len() ==> (#[trigger] slots.rows@[i])@ == rows_shown(
                state,
                now,
            )[i],
{
    assert(views(slots.rows@).len() == slots.rows@.len());
    assert forall|i: int| 0 <= i < slots.rows@.len() implies (#[trigger] slots.rows@[i])@
        == rows_shown(state, now)[i] by {
        assert(views(slots.rows@)[i] == slots.rows@[i]@);
    }
}

/// The line for activating asks for it where there are windows and none of them is in use.
pub proof fn the_line_for_activating_asks_for_it(state: UiState)
    ensures
        ({
            let unused = state.status is Ready && state.status->Ready_0.windows@.len() > 0 && forall|
                i: int,
            |
                0 <= i < state.status->Ready_0.windows@.len() ==> !(
                #[trigger] state.status->Ready_0.windows@[i]).activated;
            &&& unused ==> activate_shown(state) == "⚡ 激活 5 小时额度（当前未激活）"@
            &&& !unused ==> activate_shown(state) == "⚡ 激活额度（发送 \"1\"）"@
        }),
{
}

} // verus!
