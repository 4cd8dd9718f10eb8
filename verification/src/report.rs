//! The report that is printed where there is no tray.

use crate::api::{McpLimit, QuotaSnapshot, TokenWindow};
use crate::clock::{
    full_date_time, time_text, leap_seconds_count_where_they_are_passed, told_by_clock, total_nanos,
    LocalTime, SECOND,
};
use crate::text::{
    decimal, number_text, push_number, push_text, two_each, two_each_more, views,
};
use crate::ui::{bar, bar_shown, glue};
use vstd::prelude::*;
use vstd::string::*;

verus! {

/// How long it is until a window resets: never less than nothing.
pub open spec fn remaining_shown(t: LocalTime, now: LocalTime) -> Seq<char> {
    let mins = if t.minutes_since(now) > 0 {
        t.minutes_since(now)
    } else {
        0
    };
    if mins >= 60 {
        decimal(mins / 60) + "小时"@ + decimal(mins % 60) + "分"@
    } else {
        decimal(mins) + "分"@
    }
}

/// A window with a bar of what is used of it.
pub open spec fn used_line(w: TokenWindow) -> Seq<char> {
    w.label@ + ": ["@ + bar_shown(w.used_pct.used_of_24 as nat, 24) + "] 已用 "@
        + w.used_pct.used_text@ + "%（剩余 "@ + w.used_pct.left_text@ + "%）"@
}

/// When a window resets.
pub open spec fn resets_line(w: TokenWindow, now: LocalTime) -> Seq<char> {
    match w.next_reset {
        Some(t) => "  重置时间: "@ + full_date_time(t.local_secs()) + "（"@ + remaining_shown(t, now) + "后）"@,
        None => "  重置时间: 未激活（--activate 可发送最小请求激活）"@,
    }
}

/// The windows, two lines each.
pub open spec fn window_lines(windows: Seq<TokenWindow>, now: LocalTime) -> Seq<Seq<char>> {
    two_each(
        windows,
        |w: TokenWindow| used_line(w),
        |w: TokenWindow| resets_line(w, now),
    )
}

/// A tool and how often it was used.
pub open spec fn tool_line(tool: (String, i64)) -> Seq<char> {
    "  · "@ + tool.0@ + ": "@ + decimal(tool.1 as int)
}

/// The monthly quota.
pub open spec fn mcp_lines(mcp: Option<McpLimit>) -> Seq<Seq<char>> {
    match mcp {
        None => Seq::empty(),
        Some(m) => seq![
            "MCP 月额度: "@ + decimal(m.used as int) + "/"@ + decimal(m.total as int)
                + " 次（已用 "@ + m.used_pct.exact_text@ + "%）"@,
        ] + m.details@.map_values(|d: (String, i64)| tool_line(d)) + (match m.next_reset {
            Some(t) => seq!["  重置时间: "@ + full_date_time(t.local_secs())],
            None => Seq::empty(),
        }),
    }
}

/// The lines of the report.
pub open spec fn report_shown(s: QuotaSnapshot, now: LocalTime) -> Seq<Seq<char>> {
    seq!["套餐等级 : "@ + s.level@] + window_lines(s.windows@, now) + mcp_lines(s.mcp)
}

/// The bars have room for what is used.
pub open spec fn bars_ok(s: QuotaSnapshot) -> bool {
    forall|i: int|
        0 <= i < s.windows@.len() ==> (#[trigger] s.windows@[i]).used_pct.used_of_24 <= 24
}

/// Whether the bars have room for what is used.
pub fn bars_fit(s: &QuotaSnapshot) -> (r: bool)
    ensures
        r == bars_ok(*s),
{
    let mut i: usize = 0;
    while i < s.windows.len()
        invariant
            i <= s.windows@.len(),
            forall|j: int| 0 <= j < i ==> (#[trigger] s.windows@[j]).used_pct.used_of_24 <= 24,
        decreases s.windows@.len() - i,
    {
        if s.windows[i].used_pct.used_of_24 > 24 {
            assert(s.windows@[i as int].used_pct.used_of_24 > 24);
            return false;
        }
        i = i + 1;
    }
    true
}

/// How long it is until `t`, seen at `now`.
pub fn remaining(t: &LocalTime, now: &LocalTime) -> (r: String)
    requires
        t.wf(),
        now.wf(),
    ensures
        r@ == remaining_shown(*t, *now),
{
    let left: i64 = t.minutes_from(now);
    let mins: i64 = if left > 0 { left } else { 0 };
    if mins >= 60 {
        let mut text = number_text((mins as u64 / 60) as i64);
        text.append("小时");
        push_number(&mut text, (mins as u64 % 60) as i128);
        text.append("分");
        text
    } else {
        let mut text = number_text(mins);
        text.append("分");
        text
    }
}

fn push_window_lines(lines: &mut Vec<String>, windows: &Vec<TokenWindow>, now: &LocalTime)
    requires
        forall|i: int|
            0 <= i < windows@.len() ==> ((#[trigger] windows@[i]).next_reset matches Some(t)
                ==> t.wf()),
        now.wf(),
    ensures
        views(final(lines)@) == views(old(lines)@) + window_lines(windows@, *now),
{
    let ghost before = views(lines@);
    let mut i: usize = 0;
    assert(before + window_lines(windows@.take(0), *now) =~= before);
    while i < windows.len()
        invariant
            i <= windows@.len(),
            forall|k: int|
                0 <= k < windows@.len() ==> ((#[trigger] windows@[k]).next_reset matches Some(t)
                    ==> t.wf()),
            now.wf(),
            views(lines@) == before + window_lines(windows@.take(i as int), *now),
        decreases windows@.len() - i,
    {
        let w = &windows[i];
        assert(windows@[i as int] == *w);
        let mut used = w.label.clone();
        used.append(": [");
        used.append(bar(w.used_pct.used_of_24, 24).as_str());
        used.append("] 已用 ");
        used.append(w.used_pct.used_text.as_str());
        used.append("%（剩余 ");
        used.append(w.used_pct.left_text.as_str());
        used.append("%）");
        push_text(lines, used);
        let resets = match &w.next_reset {
            Some(t) => {
                let mut text = "  重置时间: ".to_owned();
                text.append(time_text(t, "%Y-%m-%d %H:%M").as_str());
                text.append("（");
                text.append(remaining(t, now).as_str());
                text.append("后）");
                text
            },
            None => "  重置时间: 未激活（--activate 可发送最小请求激活）".to_owned(),
        };
        push_text(lines, resets);
        proof {
            two_each_more(
                windows@,
                i as int,
                |w: TokenWindow| used_line(w),
                |w: TokenWindow| resets_line(w, *now),
            );
            assert(views(lines@) =~= before + window_lines(windows@.take(i + 1), *now));
        }
        i = i + 1;
    }
    assert(windows@.take(i as int) =~= windows@);
}

fn push_tool_lines(lines: &mut Vec<String>, details: &Vec<(String, i64)>)
    ensures
        views(final(lines)@) == views(old(lines)@) + details@.map_values(
            |d: (String, i64)| tool_line(d),
        ),
{
    let ghost before = views(lines@);
    let ghost line = |d: (String, i64)| tool_line(d);
    let mut i: usize = 0;
    assert(before + details@.take(0).map_values(line) =~= before);
    while i < details.len()
        invariant
            i <= details@.len(),
            line == (|d: (String, i64)| tool_line(d)),
            views(lines@) == before + details@.take(i as int).map_values(line),
        decreases details@.len() - i,
    {
        let mut text = "  · ".to_owned();
        text.append(details[i].0.as_str());
        text.append(": ");
        push_number(&mut text, details[i].1 as i128);
        push_text(lines, text);
        assert(before + details@.take(i + 1).map_values(line) =~= (before + details@.take(
            i as int,
        ).map_values(line)).push(line(details@[i as int])));
        i = i + 1;
    }
    assert(details@.take(i as int) =~= details@);
}

/// The lines of the report, seen at `now`.
pub fn report_at(s: &QuotaSnapshot, now: &LocalTime) -> (lines: Vec<String>)
    requires
        s.resets_wf(),
        bars_ok(*s),
        now.wf(),
    ensures
        views(lines@) == report_shown(*s, *now),
{
    let mut lines: Vec<String> = Vec::new();
    push_text(&mut lines, glue("套餐等级 : ", s.level.as_str()));
    push_window_lines(&mut lines, &s.windows, now);
    if let Some(m) = &s.mcp {
        let mut text = "MCP 月额度: ".to_owned();
        push_number(&mut text, m.used as i128);
        text.append("/");
        push_number(&mut text, m.total as i128);
        text.append(" 次（已用 ");
        text.append(m.used_pct.exact_text.as_str());
        text.append("%）");
        push_text(&mut lines, text);
        push_tool_lines(&mut lines, &m.details);
        if let Some(t) = &m.next_reset {
            push_text(&mut lines, glue("  重置时间: ", time_text(t, "%Y-%m-%d %H:%M").as_str()));
        }
    }
    assert(views(lines@) =~= report_shown(*s, *now));
    lines
}

/// The lines of the report, seen now.
pub fn report(s: &QuotaSnapshot) -> (lines: Vec<String>)
    requires
        s.resets_wf(),
        bars_ok(*s),
    ensures
        exists|now: LocalTime|
            now.wf() && told_by_clock(now) && views(lines@) == #[trigger] report_shown(*s, now),
{
    let now = LocalTime::now();
    report_at(s, &now)
}

/// The status with which printing ends: 2 where there is no key, 1 where the query failed, 0 where
/// the report was printed.
pub fn check_status(configured: bool, fetched: bool) -> (r: i32)
    ensures
        r == if !configured {
            2int
        } else if !fetched {
            1int
        } else {
            0int
        },
{
    if !configured {
        2
    } else if !fetched {
        1
    } else {
        0
    }
}

// ---------------------------------------------------------------------------------------------
// Laws
// ---------------------------------------------------------------------------------------------

/// The report tells the time that is left, to the minute: sixty times the hours and the minutes are
/// the whole minutes that are left, and a time that is over counts as none left.
pub proof fn the_report_tells_the_time_left(t: LocalTime, now: LocalTime)
    ensures
        t.nanos < SECOND && now.nanos < SECOND ==> t.nanos_since(now) == total_nanos(t)
            - total_nanos(now),
        ({
            let minute: int = 60_000_000_000;
            let left = t.nanos_since(now);
            let text = remaining_shown(t, now);
            &&& left < minute ==> text == decimal(0) + "分"@
            &&& minute <= left < 60 * minute ==> exists|m: int|
                text == #[trigger] decimal(m) + "分"@ && m * minute <= left < (m + 1) * minute
            &&& 60 * minute <= left ==> exists|h: int, m: int|
                {
                    &&& text == #[trigger] (decimal(h) + "小时"@) + #[trigger] decimal(m) + "分"@
                    &&& 0 <= m < 60
                    &&& (60 * h + m) * minute <= left < (60 * h + m + 1) * minute
                }
        }),
{
    leap_seconds_count_where_they_are_passed(t, now);
    let mins = t.minutes_since(now);
    if mins >= 60 {
        let (h, m) = (mins / 60, mins % 60);
        assert(remaining_shown(t, now) == (decimal(h) + "小时"@) + decimal(m) + "分"@);
        assert(60 * h + m == mins);
    } else if mins >= 1 {
        assert(remaining_shown(t, now) == decimal(mins) + "分"@);
    }
}

/// Every window has its two lines in the report, in the order of the windows: its own name, a bar of
/// 24 cells of which as many are filled as are used, both percentages, and its own reset.
pub proof fn the_report_tells_every_window(s: QuotaSnapshot, now: LocalTime, i: int)
    requires
        0 <= i < s.windows@.len(),
    ensures
        ({
            let lines = report_shown(s, now);
            let w = s.windows@[i];
            &&& lines.len() > 2 * s.windows@.len()
            &&& lines[0] == "套餐等级 : "@ + s.level@
            &&& exists|bar: Seq<char>|
                {
                    &&& bar.len() == 24
                    &&& forall|k: int|
                        0 <= k < 24 ==> (#[trigger] bar[k] == if k < w.used_pct.used_of_24 {
                            '█'
                        } else {
                            '░'
                        })
                    &&& lines[2 * i + 1] == #[trigger] (w.label@ + ": ["@ + bar) + "] 已用 "@
                        + w.used_pct.used_text@ + "%（剩余 "@ + w.used_pct.left_text@ + "%）"@
                }
            &&& w.next_reset is None ==> lines[2 * i + 2]
                == "  重置时间: 未激活（--activate 可发送最小请求激活）"@
            &&& w.next_reset is Some ==> lines[2 * i + 2] == "  重置时间: "@ + full_date_time(
                w.next_reset->0.secs + w.next_reset->0.offset,
            ) + "（"@ + remaining_shown(w.next_reset->0, now) + "后）"@
        }),
{
    let w = s.windows@[i];
    let lines = report_shown(s, now);
    let rows = window_lines(s.windows@, now);
    assert(lines[2 * i + 1] == rows[2 * i]);
    assert(lines[2 * i + 2] == rows[2 * i + 1]);
    assert((2 * i) / 2 == i && (2 * i + 1) / 2 == i);
    let bar = bar_shown(w.used_pct.used_of_24 as nat, 24);
    let line = (w.label@ + ": ["@ + bar) + "] 已用 "@ + w.used_pct.used_text@ + "%（剩余 "@
        + w.used_pct.left_text@ + "%）"@;
    assert(used_line(w) =~= line);
}

/// Below the windows stands the monthly quota: the calls that were used, their total and the exact
/// percentage, then every tool with its own name and count, then its own reset.
pub proof fn the_report_tells_the_monthly_quota(s: QuotaSnapshot, now: LocalTime)
    ensures
        ({
            let lines = report_shown(s, now);
            let at = 2 * s.windows@.len() as int + 1;
            let m = s.mcp->0;
            let n = m.details@.len() as int;
            &&& s.mcp is None ==> lines.len() == at
            &&& s.mcp is Some ==> {
                &&& lines.len() == at + 1 + n + (if m.next_reset is Some {
                    1int
                } else {
                    0
                })
                &&& lines[at] == "MCP 月额度: "@ + decimal(m.used as int) + "/"@ + decimal(
                    m.total as int,
                ) + " 次（已用 "@ + m.used_pct.exact_text@ + "%）"@
                &&& forall|k: int|
                    0 <= k < n ==> lines[at + 1 + k] == "  · "@ + (#[trigger] m.details@[k]).0@
                        + ": "@ + decimal(m.details@[k].1 as int)
                &&& m.next_reset is Some ==> lines[at + 1 + n] == "  重置时间: "@
                    + full_date_time(m.next_reset->0.secs + m.next_reset->0.offset)
            }
        }),
{
    let lines = report_shown(s, now);
    let at = 2 * s.windows@.len() as int + 1;
    let rows = mcp_lines(s.mcp);
    assert forall|k: int| 0 <= k < rows.len() implies lines[at + k] == rows[k] by {}
    if let Some(m) = s.mcp {
        let n = m.details@.len() as int;
        assert(lines[at] == rows[0]);
        assert forall|k: int| 0 <= k < n implies lines[at + 1 + k] == "  · "@ + (
        #[trigger] m.details@[k]).0@ + ": "@ + decimal(m.details@[k].1 as int) by {
            assert(rows[1 + k] == tool_line(m.details@[k]));
            assert(lines[at + (1 + k)] == rows[1 + k]);
        }
        if m.next_reset is Some {
            assert(lines[at + (1 + n)] == rows[1 + n]);
        }
    }
}

/// The bars have room exactly where no window fills more than 24 cells.
pub proof fn bars_have_24_cells(s: QuotaSnapshot)
    ensures
        bars_ok(s) <==> forall|i: int|
            0 <= i < s.windows@.len() ==> (#[trigger] s.windows@[i]).used_pct.used_of_24 < 25,
{
    if !bars_ok(s) {
        let i = choose|i: int|
            0 <= i < s.windows@.len() && !((#[trigger] s.windows@[i]).used_pct.used_of_24 <= 24);
        assert(s.windows@[i].used_pct.used_of_24 >= 25);
    }
}

} // verus!
