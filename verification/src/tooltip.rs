//! The tooltip of the tray: a title and lines.

use crate::api::{McpLimit, TokenWindow};
use crate::clock::{hours_minutes_seconds, time_text, told_by_clock, LocalTime};
use crate::text::{
    decimal, push_number, push_text, two_each, two_each_more, views, wrap, wrapped,
};
use crate::ui::{
    bar, bar_shown, calls_left, countdown_shown, glue, level_shown, level_text, reset_line, reset_shown,
    reset_text, time_ok, window_line, window_text, Status, UiState,
};
use vstd::prelude::*;
use vstd::string::*;

verus! {

/// The second line of a window in the tooltip.
pub open spec fn tip_reset_line(w: TokenWindow, now: LocalTime) -> Seq<char> {
    match w.next_reset {
        Some(t) => reset_line("重置 "@, t, now),
        None => "未激活（菜单中可激活）"@,
    }
}

/// The windows in the tooltip, two lines each.
pub open spec fn tip_windows(windows: Seq<TokenWindow>, now: LocalTime) -> Seq<Seq<char>> {
    two_each(
        windows,
        |w: TokenWindow| window_line(w, w.used_pct.left_of_16 as nat, 16),
        |w: TokenWindow| tip_reset_line(w, now),
    )
}

/// The monthly quota in the tooltip.
pub open spec fn tip_mcp(mcp: Option<McpLimit>) -> Seq<Seq<char>> {
    match mcp {
        Some(m) => seq![
            "MCP 月额度 "@ + bar_shown(m.used_pct.left_of_16 as nat, 16) + " 剩余 "@ + decimal(
                calls_left(m),
            ) + " 次"@,
        ],
        None => Seq::empty(),
    }
}

/// The title of the tooltip.
pub open spec fn tip_title(state: UiState) -> Seq<char> {
    match state.status {
        Status::Loading => "GLMeter"@,
        Status::NoKey => "GLMeter"@,
        Status::Failed(_) => "GLMeter · 查询失败"@,
        Status::Ready(s) => "GLMeter · "@ + level_shown(s.level@) + " 套餐"@,
    }
}

/// The lines of the tooltip.
pub open spec fn tip_lines(state: UiState, now: LocalTime) -> Seq<Seq<char>> {
    match state.status {
        Status::Loading => seq!["加载中…"@],
        Status::NoKey => seq!["未配置 API Key"@, "配置文件: "@ + state.cfg_path@],
        Status::Failed(msg) => wrapped(msg@, 40),
        Status::Ready(s) => tip_windows(s.windows@, now) + tip_mcp(s.mcp) + (match state.busy {
            Some(busy) => seq!["⏳ "@ + busy@],
            None => Seq::empty(),
        }) + seq![
            "更新于 "@ + hours_minutes_seconds(
                s.fetched_at.local_secs(),
                s.fetched_at.nanos as int,
            ),
        ],
    }
}

/// `r` is the tooltip.
pub open spec fn is_tooltip(r: (String, Vec<String>), state: UiState, now: LocalTime) -> bool {
    r.0@ == tip_title(state) && views(r.1@) == tip_lines(state, now)
}

fn push_windows(lines: &mut Vec<String>, windows: &Vec<TokenWindow>, now: &LocalTime)
    requires
        forall|i: int| 0 <= i < windows@.len() ==> time_ok((#[trigger] windows@[i]).next_reset),
        now.wf(),
    ensures
        views(final(lines)@) == views(old(lines)@) + tip_windows(windows@, *now),
{
    let ghost before = views(lines@);
    let mut i: usize = 0;
    assert(before + tip_windows(windows@.take(0), *now) =~= before);
    while i < windows.len()
        invariant
            i <= windows@.len(),
            forall|k: int|
                0 <= k < windows@.len() ==> time_ok((#[trigger] windows@[k]).next_reset),
            now.wf(),
            views(lines@) == before + tip_windows(windows@.take(i as int), *now),
        decreases windows@.len() - i,
    {
        let w = &windows[i];
        assert(time_ok(w.next_reset));
        push_text(lines, window_text(w, w.used_pct.left_of_16, 16));
        push_text(
            lines,
            match &w.next_reset {
                Some(t) => reset_text("重置 ", t, now),
                None => "未激活（菜单中可激活）".to_owned(),
            },
        );
        proof {
            two_each_more(
                windows@,
                i as int,
                |w: TokenWindow| window_line(w, w.used_pct.left_of_16 as nat, 16),
                |w: TokenWindow| tip_reset_line(w, *now),
            );
            assert(views(lines@) =~= before + tip_windows(windows@.take(i + 1), *now));
        }
        i = i + 1;
    }
    assert(windows@.take(i as int) =~= windows@);
}

/// The tooltip, seen at `now`.
pub fn tooltip_at(state: &UiState, now: &LocalTime) -> (r: (String, Vec<String>))
    requires
        state.windows_ok(),
        state.fetched_ok(),
        state.calls_ok(),
        now.wf(),
    ensures
        is_tooltip(r, *state, *now),
{
    let mut lines: Vec<String> = Vec::new();
    assert(views(lines@) =~= Seq::empty());
    let title = match &state.status {
        Status::Loading => {
            push_text(&mut lines, "加载中…".to_owned());
            "GLMeter".to_owned()
        },
        Status::NoKey => {
            push_text(&mut lines, "未配置 API Key".to_owned());
            push_text(&mut lines, glue("配置文件: ", state.cfg_path.as_str()));
            "GLMeter".to_owned()
        },
        Status::Failed(msg) => {
            lines = wrap(msg.as_str(), 40);
            "GLMeter · 查询失败".to_owned()
        },
        Status::Ready(s) => {
            push_windows(&mut lines, &s.windows, now);
            if let Some(m) = &s.mcp {
                let left: i64 = m.total - m.used;
                let mut text = "MCP 月额度 ".to_owned();
                text.append(bar(m.used_pct.left_of_16, 16).as_str());
                text.append(" 剩余 ");
                push_number(&mut text, if left > 0 { left as i128 } else { 0 });
                text.append(" 次");
                push_text(&mut lines, text);
            }
            if let Some(busy) = &state.busy {
                push_text(&mut lines, glue("⏳ ", busy.as_str()));
            }
            push_text(
                &mut lines,
                glue("更新于 ", time_text(&s.fetched_at, "%H:%M:%S").as_str()),
            );
            let mut text = "GLMeter · ".to_owned();
            text.append(level_text(s.level.as_str()).as_str());
            text.append(" 套餐");
            text
        },
    };
    assert(views(lines@) =~= tip_lines(*state, *now));
    (title, lines)
}

/// The tooltip, seen now.
pub fn tooltip(state: &UiState) -> (r: (String, Vec<String>))
    requires
        state.windows_ok(),
        state.fetched_ok(),
        state.calls_ok(),
    ensures
        exists|now: LocalTime|
            now.wf() && told_by_clock(now) && #[trigger] is_tooltip(r, *state, now),
{
    let now = LocalTime::now();
    tooltip_at(state, &now)
}

// ---------------------------------------------------------------------------------------------
// Laws
// ---------------------------------------------------------------------------------------------

/// Every window has its two lines in the tooltip, in the order of the windows: its own name, a bar of
/// sixteen cells of which as many are filled as are left, the percentage that is left, and its own
/// reset with the countdown.
pub proof fn the_tooltip_tells_every_window(state: UiState, now: LocalTime, i: int)
    requires
        state.status is Ready,
        0 <= i < state.status->Ready_0.windows@.len(),
    ensures
        ({
            let lines = tip_lines(state, now);
            let s = state.status->Ready_0;
            let w = s.windows@[i];
            &&& lines.len() > 2 * s.windows@.len()
            &&& exists|bar: Seq<char>|
                {
                    &&& bar.len() == 16
                    &&& forall|k: int|
                        0 <= k < 16 ==> (#[trigger] bar[k] == if k < w.used_pct.left_of_16 {
                            '█'
                        } else {
                            '░'
                        })
                    &&& lines[2 * i] == #[trigger] (w.label@ + " "@ + bar) + " 剩余 "@ + decimal(
                        w.used_pct.left as int,
                    ) + "%"@
                }
            &&& w.next_reset is None ==> lines[2 * i + 1] == "未激活（菜单中可激活）"@
            &&& w.next_reset is Some ==> lines[2 * i + 1] == "重置 "@ + reset_shown(
                w.next_reset->0,
                now,
            ) + "（"@ + countdown_shown(w.next_reset->0, now) + "后）"@
        }),
{
    let s = state.status->Ready_0;
    let w = s.windows@[i];
    let lines = tip_lines(state, now);
    let rows = tip_windows(s.windows@, now);
    assert(lines[2 * i] == rows[2 * i]);
    assert(lines[2 * i + 1] == rows[2 * i + 1]);
    assert((2 * i) / 2 == i && (2 * i + 1) / 2 == i);
    let bar = bar_shown(w.used_pct.left_of_16 as nat, 16);
    let line = (w.label@ + " "@ + bar) + " 剩余 "@ + decimal(w.used_pct.left as int) + "%"@;
    assert(window_line(w, w.used_pct.left_of_16 as nat, 16) =~= line);
}

/// Below the windows stand what is left of the monthly quota, what is going on, and when the quota
/// was fetched, each where there is any.
pub proof fn the_tooltip_ends_with_the_time(state: UiState, now: LocalTime)
    requires
        state.status is Ready,
    ensures
        ({
            let lines = tip_lines(state, now);
            let s = state.status->Ready_0;
            let quota: int = if s.mcp is Some {
                1
            } else {
                0
            };
            let busy: int = if state.busy is Some {
                1
            } else {
                0
            };
            let at = 2 * s.windows@.len() as int;
            &&& tip_title(state) == "GLMeter · "@ + level_shown(s.level@) + " 套餐"@
            &&& lines.len() == at + quota + busy + 1
            &&& s.mcp is Some ==> exists|bar: Seq<char>|
                {
                    &&& bar.len() == 16
                    &&& forall|k: int|
                        0 <= k < 16 ==> (#[trigger] bar[k] == if k < s.mcp->0.used_pct.left_of_16 {
                            '█'
                        } else {
                            '░'
                        })
                    &&& lines[at] == #[trigger] ("MCP 月额度 "@ + bar) + " 剩余 "@ + decimal(
                        if s.mcp->0.total > s.mcp->0.used {
                            s.mcp->0.total - s.mcp->0.used
                        } else {
                            0
                        },
                    ) + " 次"@
                }
            &&& state.busy is Some ==> lines[at + quota] == "⏳ "@ + state.busy->0@
            &&& lines[at + quota + busy] == "更新于 "@ + hours_minutes_seconds(
                s.fetched_at.secs + s.fetched_at.offset,
                s.fetched_at.nanos as int,
            )
        }),
{
    let s = state.status->Ready_0;
    if let Some(m) = s.mcp {
        let bar = bar_shown(m.used_pct.left_of_16 as nat, 16);
        let line = ("MCP 月额度 "@ + bar) + " 剩余 "@ + decimal(calls_left(m)) + " 次"@;
        assert(tip_lines(state, now)[2 * s.windows@.len() as int] =~= line);
    }
}

/// Without a snapshot the tooltip tells why: the query is on its way, there is no key and where to
/// put it, or what went wrong, all of it.
pub proof fn the_tooltip_tells_why_there_is_nothing(state: UiState, now: LocalTime)
    ensures
        state.status is Loading ==> tip_title(state) == "GLMeter"@ && tip_lines(state, now)
            == seq!["加载中…"@],
        state.status is NoKey ==> tip_title(state) == "GLMeter"@ && tip_lines(state, now) == seq![
            "未配置 API Key"@,
            "配置文件: "@ + state.cfg_path@,
        ],
        state.status matches Status::Failed(msg) ==> tip_title(state) == "GLMeter · 查询失败"@
            && tip_lines(state, now) == wrapped(msg@, 40),
{
}

/// A tooltip holds the title and each of the lines.
pub proof fn a_tooltip_holds_title_and_lines(
    r: (String, Vec<String>),
    state: UiState,
    now: LocalTime,
)
    requires
        is_tooltip(r, state, now),
    ensures
        r.0@ == tip_title(state),
        r.1@.len() == tip_lines(state, now).len(),
        forall|i: int| 0 <= i < r.1@.len() ==> (#[trigger] r.1@[i])@ == tip_lines(state, now)[i],
{
    assert(views(r.1@).len() == r.1@.len());
    assert forall|i: int| 0 <= i < r.1@.len() implies (#[trigger] r.1@[i])@ == tip_lines(
        state,
        now,
    )[i] by {
        assert(views(r.1@)[i] == r.1@[i]@);
    }
}

} // verus!
