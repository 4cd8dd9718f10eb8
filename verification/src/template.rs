//! Templates for the text in the tray: names in braces stand for values.

use crate::clock::{told_by_clock, LocalTime};
use crate::text::{decimal, number_text, replace_all, replaced};
use crate::ui::{
    calls_left, countdown, countdown_shown, fmt_reset, glue, level_shown, level_text, reset_shown,
    time_ok, Status, UiState,
};
use vstd::prelude::*;
use vstd::string::*;

verus! {

/// The text for a value that is not known.
pub const NA: &'static str = "—";

/// A name in braces.
pub open spec fn in_braces(name: Seq<char>) -> Seq<char> {
    seq!['{'] + name + seq!['}']
}

/// When a window resets, or that the window is not in use.
pub open spec fn reset_value(t: Option<LocalTime>, now: LocalTime) -> Seq<char> {
    match t {
        Some(x) => reset_shown(x, now),
        None => "未激活"@,
    }
}

/// How long it is until a window resets, or that the window is not in use.
pub open spec fn countdown_value(t: Option<LocalTime>, now: LocalTime) -> Seq<char> {
    match t {
        Some(x) => countdown_shown(x, now),
        None => "未激活"@,
    }
}

/// The names, in the order in which they are replaced.
pub open spec fn names() -> Seq<Seq<char>> {
    seq![
        "level"@,
        "5h_used"@,
        "5h_left"@,
        "5h_reset"@,
        "5h_countdown"@,
        "weekly_used"@,
        "weekly_left"@,
        "mcp_used"@,
        "mcp_total"@,
        "mcp_left"@,
    ]
}

/// The value for the name at place `i`.
pub open spec fn value(state: UiState, now: LocalTime, i: int) -> Seq<char> {
    match state.status {
        Status::Ready(s) => {
            let five = s.first_window();
            if i == 0 {
                level_shown(s.level@)
            } else if 1 <= i <= 4 {
                match five {
                    None => NA@,
                    Some(w) => if i == 1 {
                        decimal(w.used_pct.used as int)
                    } else if i == 2 {
                        decimal(w.used_pct.left as int)
                    } else if i == 3 {
                        reset_value(w.next_reset, now)
                    } else {
                        countdown_value(w.next_reset, now)
                    },
                }
            } else if i == 5 || i == 6 {
                if s.windows@.len() > 1 {
                    if i == 5 {
                        decimal(s.windows@[1].used_pct.used as int)
                    } else {
                        decimal(s.windows@[1].used_pct.left as int)
                    }
                } else {
                    NA@
                }
            } else {
                match s.mcp {
                    None => NA@,
                    Some(m) => if i == 7 {
                        decimal(m.used as int)
                    } else if i == 8 {
                        decimal(m.total as int)
                    } else {
                        decimal(calls_left(m))
                    },
                }
            }
        },
        _ => NA@,
    }
}

/// The names with their values.
pub open spec fn vars(state: UiState, now: LocalTime) -> Seq<(Seq<char>, Seq<char>)> {
    Seq::new(names().len(), |i: int| (names()[i], value(state, now, i)))
}

/// A template in which the names in braces are replaced, one name after the other.
pub open spec fn substituted(tpl: Seq<char>, vars: Seq<(Seq<char>, Seq<char>)>) -> Seq<char>
    decreases vars.len(),
{
    if vars.len() == 0 {
        tpl
    } else {
        replaced(substituted(tpl, vars.drop_last()), in_braces(vars.last().0), vars.last().1)
    }
}

/// A template filled in.
pub open spec fn rendered(tpl: Seq<char>, state: UiState, now: LocalTime) -> Seq<char> {
    substituted(tpl, vars(state, now))
}

/// The text in the tray: the template of the settings filled in, with a mark where something is
/// going on.
pub open spec fn title_shown(state: UiState, now: LocalTime) -> Seq<char> {
    let text = rendered(state.cfg.tray_title@, state, now);
    if state.busy is Some {
        "⏳ "@ + text
    } else {
        text
    }
}

/// The names and values in a list.
pub open spec fn var_views(list: Seq<(&'static str, String)>) -> Seq<(Seq<char>, Seq<char>)> {
    list.map_values(|v: (&'static str, String)| (v.0@, v.1@))
}

fn push_var(list: &mut Vec<(&'static str, String)>, name: &'static str, value: String)
    ensures
        var_views(final(list)@) == var_views(old(list)@).push((name@, value@)),
{
    let ghost before = var_views(list@);
    list.push((name, value));
    assert(var_views(list@) =~= before.push((name@, value@)));
}

fn reset_or_note(t: &Option<LocalTime>, now: &LocalTime) -> (r: String)
    requires
        time_ok(*t),
        now.wf(),
    ensures
        r@ == reset_value(*t, *now),
{
    match t {
        Some(x) => fmt_reset(x, now),
        None => "未激活".to_owned(),
    }
}

fn countdown_or_note(t: &Option<LocalTime>, now: &LocalTime) -> (r: String)
    requires
        t matches Some(x) ==> x.wf(),
        now.wf(),
    ensures
        r@ == countdown_value(*t, *now),
{
    match t {
        Some(x) => countdown(x, now),
        None => "未激活".to_owned(),
    }
}

/// The names with their values, seen at `now`.
pub fn template_vars(state: &UiState, now: &LocalTime) -> (list: Vec<(&'static str, String)>)
    requires
        state.first_reset_ok(),
        state.calls_ok(),
        now.wf(),
    ensures
        var_views(list@) == vars(*state, *now),
{
    let mut list: Vec<(&'static str, String)> = Vec::new();
    assert(var_views(list@) =~= Seq::empty());
    match &state.status {
        Status::Ready(s) => {
            push_var(&mut list, "level", level_text(s.level.as_str()));
            if s.windows.len() > 0 {
                let w = &s.windows[0];
                assert(state.five_hour_window() == Some(*w));
                push_var(&mut list, "5h_used", number_text(w.used_pct.used));
                push_var(&mut list, "5h_left", number_text(w.used_pct.left));
                push_var(&mut list, "5h_reset", reset_or_note(&w.next_reset, now));
                push_var(&mut list, "5h_countdown", countdown_or_note(&w.next_reset, now));
            } else {
                push_var(&mut list, "5h_used", NA.to_owned());
                push_var(&mut list, "5h_left", NA.to_owned());
                push_var(&mut list, "5h_reset", NA.to_owned());
                push_var(&mut list, "5h_countdown", NA.to_owned());
            }
            if s.windows.len() > 1 {
                let w = &s.windows[1];
                push_var(&mut list, "weekly_used", number_text(w.used_pct.used));
                push_var(&mut list, "weekly_left", number_text(w.used_pct.left));
            } else {
                push_var(&mut list, "weekly_used", NA.to_owned());
                push_var(&mut list, "weekly_left", NA.to_owned());
            }
            match &s.mcp {
                Some(m) => {
                    let left: i64 = m.total - m.used;
                    push_var(&mut list, "mcp_used", number_text(m.used));
                    push_var(&mut list, "mcp_total", number_text(m.total));
                    push_var(&mut list, "mcp_left", number_text(if left > 0 { left } else { 0 }));
                },
                None => {
                    push_var(&mut list, "mcp_used", NA.to_owned());
                    push_var(&mut list, "mcp_total", NA.to_owned());
                    push_var(&mut list, "mcp_left", NA.to_owned());
                },
            }
        },
        _ => {
            push_var(&mut list, "level", NA.to_owned());
            push_var(&mut list, "5h_used", NA.to_owned());
            push_var(&mut list, "5h_left", NA.to_owned());
            push_var(&mut list, "5h_reset", NA.to_owned());
            push_var(&mut list, "5h_countdown", NA.to_owned());
            push_var(&mut list, "weekly_used", NA.to_owned());
            push_var(&mut list, "weekly_left", NA.to_owned());
            push_var(&mut list, "mcp_used", NA.to_owned());
            push_var(&mut list, "mcp_total", NA.to_owned());
            push_var(&mut list, "mcp_left", NA.to_owned());
        },
    }
    assert(var_views(list@) =~= vars(*state, *now));
    list
}

/// A template filled in with given names and values.
pub fn substitute(tpl: &str, list: &Vec<(&'static str, String)>) -> (r: String)
    ensures
        r@ == substituted(tpl@, var_views(list@)),
{
    let ghost all = var_views(list@);
    let mut out = tpl.to_owned();
    let mut i: usize = 0;
    assert(all.take(0) =~= Seq::empty());
    while i < list.len()
        invariant
            i <= list@.len(),
            all == var_views(list@),
            out@ == substituted(tpl@, all.take(i as int)),
        decreases list@.len() - i,
    {
        let mut name: String = String::new();
        name.push('{');
        name.append(list[i].0);
        name.push('}');
        assert(name@ =~= in_braces(all[i as int].0));
        out = replace_all(out.as_str(), name.as_str(), list[i].1.as_str());
        assert(all.take(i + 1).drop_last() =~= all.take(i as int));
        i = i + 1;
    }
    assert(all.take(i as int) =~= all);
    out
}

/// A template filled in, seen at `now`.
pub fn render_template_at(tpl: &str, state: &UiState, now: &LocalTime) -> (r: String)
    requires
        state.first_reset_ok(),
        state.calls_ok(),
        now.wf(),
    ensures
        r@ == rendered(tpl@, *state, *now),
{
    let list = template_vars(state, now);
    substitute(tpl, &list)
}

/// A template filled in, seen now.
pub fn render_template(tpl: &str, state: &UiState) -> (r: String)
    requires
        state.first_reset_ok(),
        state.calls_ok(),
    ensures
        exists|now: LocalTime|
            now.wf() && told_by_clock(now) && r@ == #[trigger] rendered(tpl@, *state, now),
{
    let now = LocalTime::now();
    render_template_at(tpl, state, &now)
}

/// The text in the tray, seen at `now`.
pub fn title_text_at(state: &UiState, now: &LocalTime) -> (r: String)
    requires
        state.first_reset_ok(),
        state.calls_ok(),
        now.wf(),
    ensures
        r@ == title_shown(*state, *now),
{
    let text = render_template_at(state.cfg.tray_title.as_str(), state, now);
    if state.busy.is_some() {
        glue("⏳ ", text.as_str())
    } else {
        text
    }
}

/// The text in the tray, seen now.
pub fn title_text(state: &UiState) -> (r: String)
    requires
        state.first_reset_ok(),
        state.calls_ok(),
    ensures
        exists|now: LocalTime|
            now.wf() && told_by_clock(now) && r@ == #[trigger] title_shown(*state, now),
{
    let now = LocalTime::now();
    title_text_at(state, &now)
}

// ---------------------------------------------------------------------------------------------
// Laws
// ---------------------------------------------------------------------------------------------

/// There is no opening brace in a text.
pub open spec fn plain(s: Seq<char>) -> bool {
    forall|i: int| 0 <= i < s.len() ==> #[trigger] s[i] != '{'
}

/// What stands before the first opening brace is not touched.
proof fn replaced_skips_plain(pre: Seq<char>, rest: Seq<char>, name: Seq<char>, with: Seq<char>)
    requires
        plain(pre),
    ensures
        replaced(pre + rest, in_braces(name), with) == pre + replaced(rest, in_braces(name), with),
    decreases pre.len(),
{
    let pat = in_braces(name);
    let s = pre + rest;
    if pre.len() == 0 {
        assert(s =~= rest);
        assert(pre + replaced(rest, pat, with) =~= replaced(rest, pat, with));
    } else if s.len() < pat.len() {
        assert(rest.len() < pat.len());
    } else {
        assert(s.take(pat.len() as int)[0] == pre[0]);
        assert(pat[0] == '{');
        assert(s.skip(1) =~= pre.skip(1) + rest);
        assert(plain(pre.skip(1))) by {
            assert forall|i: int| 0 <= i < pre.skip(1).len() implies #[trigger] pre.skip(1)[i]
                != '{' by {
                assert(pre.skip(1)[i] == pre[i + 1]);
            }
        }
        replaced_skips_plain(pre.skip(1), rest, name, with);
        assert(pre =~= seq![pre[0]] + pre.skip(1));
        assert(seq![s[0]] + (pre.skip(1) + replaced(rest, pat, with)) =~= pre + replaced(
            rest,
            pat,
            with,
        ));
    }
}

/// A text without an opening brace is not touched.
proof fn replaced_keeps_plain(s: Seq<char>, name: Seq<char>, with: Seq<char>)
    requires
        plain(s),
    ensures
        replaced(s, in_braces(name), with) == s,
{
    let none = Seq::<char>::empty();
    assert(s + none =~= s);
    replaced_skips_plain(s, none, name, with);
    assert(s + replaced(none, in_braces(name), with) =~= s);
}

/// A name in braces is not touched by the replacing of another name.
proof fn replaced_keeps_other(
    name: Seq<char>,
    post: Seq<char>,
    other: Seq<char>,
    with: Seq<char>,
)
    requires
        name != other,
        forall|i: int| 0 <= i < name.len() ==> #[trigger] name[i] != '{' && name[i] != '}',
        forall|i: int| 0 <= i < other.len() ==> #[trigger] other[i] != '{' && other[i] != '}',
        plain(post),
    ensures
        replaced(in_braces(name) + post, in_braces(other), with) == in_braces(name) + post,
{
    let s = in_braces(name) + post;
    let pat = in_braces(other);
    if s.len() >= pat.len() {
        let head = s.take(pat.len() as int);
        if head == pat {
            let (m, n) = (name.len() as int, other.len() as int);
            if m < n {
                assert(head[m + 1] == '}');
                assert(pat[m + 1] == other[m]);
            } else if n < m {
                assert(head[n + 1] == name[n]);
                assert(pat[n + 1] == '}');
            } else {
                assert forall|i: int| 0 <= i < m implies name[i] == other[i] by {
                    assert(head[i + 1] == name[i] && pat[i + 1] == other[i]);
                }
                assert(name =~= other);
            }
        }
        let tail = s.skip(1);
        assert forall|i: int| 0 <= i < tail.len() implies #[trigger] tail[i] != '{' by {
            if i < name.len() {
                assert(tail[i] == name[i]);
            } else if i == name.len() {
                assert(tail[i] == '}');
            } else {
                assert(tail[i] == post[i - name.len() - 1]);
            }
        }
        replaced_keeps_plain(tail, other, with);
        assert(seq![s[0]] + tail =~= s);
    }
}

/// The name that is replaced gives way to its value.
proof fn replaced_fills(name: Seq<char>, post: Seq<char>, with: Seq<char>)
    requires
        plain(post),
    ensures
        replaced(in_braces(name) + post, in_braces(name), with) == with + post,
{
    let s = in_braces(name) + post;
    let pat = in_braces(name);
    assert(s.take(pat.len() as int) =~= pat);
    assert(s.skip(pat.len() as int) =~= post);
    replaced_keeps_plain(post, name, with);
}

/// The names are different from each other and hold no braces.
proof fn names_are_distinct(i: int, j: int)
    requires
        0 <= i < names().len(),
        0 <= j < names().len(),
    ensures
        i != j ==> names()[i] != names()[j],
        forall|k: int|
            0 <= k < names()[i].len() ==> #[trigger] names()[i][k] != '{' && names()[i][k] != '}',
{
    reveal_strlit("level");
    reveal_strlit("5h_used");
    reveal_strlit("5h_left");
    reveal_strlit("5h_reset");
    reveal_strlit("5h_countdown");
    reveal_strlit("weekly_used");
    reveal_strlit("weekly_left");
    reveal_strlit("mcp_used");
    reveal_strlit("mcp_total");
    reveal_strlit("mcp_left");
    let (a, b) = (names()[i], names()[j]);
    if i != j && a.len() == b.len() {
        assert(a[0] != b[0] || a[3] != b[3] || a[4] != b[4] || a[7] != b[7]);
    }
}

/// A template without names in it comes out as it is.
pub proof fn plain_template_is_kept(tpl: Seq<char>, state: UiState, now: LocalTime)
    requires
        plain(tpl),
    ensures
        rendered(tpl, state, now) == tpl,
{
    plain_is_kept(tpl, vars(state, now));
}

proof fn plain_is_kept(tpl: Seq<char>, list: Seq<(Seq<char>, Seq<char>)>)
    requires
        plain(tpl),
    ensures
        substituted(tpl, list) == tpl,
    decreases list.len(),
{
    if list.len() > 0 {
        plain_is_kept(tpl, list.drop_last());
        replaced_keeps_plain(tpl, list.last().0, list.last().1);
    }
}

/// Each name in braces stands for its value: a template that holds one of them, between other
/// text, comes out with the value in its place. (A value that itself held a brace could be read as
/// a name again; such values are left out.)
pub proof fn name_stands_for_value(
    pre: Seq<char>,
    i: int,
    post: Seq<char>,
    state: UiState,
    now: LocalTime,
)
    requires
        plain(pre),
        plain(post),
        0 <= i < names().len(),
        plain(value(state, now, i)),
    ensures
        rendered(pre + in_braces(names()[i]) + post, state, now) == pre + value(state, now, i)
            + post,
{
    let all = vars(state, now);
    value_after(pre, i, post, state, now, all.len() as int);
    assert(all.take(all.len() as int) =~= all);
}

/// The template after the first `n` names have been replaced.
proof fn value_after(
    pre: Seq<char>,
    i: int,
    post: Seq<char>,
    state: UiState,
    now: LocalTime,
    n: int,
)
    requires
        plain(pre),
        plain(post),
        0 <= i < names().len(),
        plain(value(state, now, i)),
        0 <= n <= names().len(),
    ensures
        substituted(pre + in_braces(names()[i]) + post, vars(state, now).take(n)) == if n <= i {
            pre + in_braces(names()[i]) + post
        } else {
            pre + value(state, now, i) + post
        },
    decreases n,
{
    let all = vars(state, now);
    if n > 0 {
        value_after(pre, i, post, state, now, n - 1);
        let done = all.take(n);
        assert(done.drop_last() =~= all.take(n - 1));
        let name = names()[n - 1];
        let with = value(state, now, n - 1);
        assert(done.last() == (name, with));
        let mine = names()[i];
        let tpl = pre + in_braces(mine) + post;
        assert(tpl =~= pre + (in_braces(mine) + post));
        names_are_distinct(i, n - 1);
        names_are_distinct(n - 1, i);
        if n - 1 < i {
            replaced_skips_plain(pre, in_braces(mine) + post, name, with);
            replaced_keeps_other(mine, post, name, with);
        } else if n - 1 == i {
            replaced_skips_plain(pre, in_braces(mine) + post, name, with);
            replaced_fills(mine, post, with);
            assert(pre + (with + post) =~= pre + with + post);
        } else {
            let out = pre + value(state, now, i) + post;
            assert(plain(out)) by {
                assert forall|k: int| 0 <= k < out.len() implies #[trigger] out[k] != '{' by {
                    let v = value(state, now, i);
                    if k < pre.len() {
                        assert(out[k] == pre[k]);
                    } else if k < pre.len() + v.len() {
                        assert(out[k] == v[k - pre.len()]);
                    } else {
                        assert(out[k] == post[k - pre.len() - v.len()]);
                    }
                }
            }
            replaced_keeps_plain(out, name, with);
        }
    } else {
        assert(all.take(0) =~= Seq::empty());
    }
}

/// What each name stands for. Without a snapshot every name stands for a dash, and so does one that
/// the snapshot tells nothing of.
pub proof fn each_name_has_its_value(state: UiState, now: LocalTime)
    ensures
        vars(state, now).len() == 10,
        names()[0] == "level"@,
        names()[1] == "5h_used"@,
        names()[2] == "5h_left"@,
        names()[3] == "5h_reset"@,
        names()[4] == "5h_countdown"@,
        names()[5] == "weekly_used"@,
        names()[6] == "weekly_left"@,
        names()[7] == "mcp_used"@,
        names()[8] == "mcp_total"@,
        names()[9] == "mcp_left"@,
        forall|i: int|
            0 <= i < 10 ==> #[trigger] vars(state, now)[i] == (names()[i], value(state, now, i)),
        !(state.status is Ready) ==> forall|i: int| #[trigger] value(state, now, i) == "—"@,
        state.status matches Status::Ready(s) ==> {
            &&& value(state, now, 0) == level_shown(s.level@)
            &&& s.windows@.len() == 0 ==> forall|i: int|
                1 <= i <= 4 ==> #[trigger] value(state, now, i) == "—"@
            &&& s.windows@.len() > 0 ==> {
                let w = s.windows@[0];
                &&& value(state, now, 1) == decimal(w.used_pct.used as int)
                &&& value(state, now, 2) == decimal(w.used_pct.left as int)
                &&& w.next_reset is Some ==> value(state, now, 3) == reset_shown(
                    w.next_reset->0,
                    now,
                ) && value(state, now, 4) == countdown_shown(w.next_reset->0, now)
                &&& w.next_reset is None ==> value(state, now, 3) == "未激活"@ && value(
                    state,
                    now,
                    4,
                ) == "未激活"@
            }
            &&& s.windows@.len() <= 1 ==> value(state, now, 5) == "—"@ && value(state, now, 6)
                == "—"@
            &&& s.windows@.len() > 1 ==> value(state, now, 5) == decimal(
                s.windows@[1].used_pct.used as int,
            ) && value(state, now, 6) == decimal(s.windows@[1].used_pct.left as int)
            &&& s.mcp is None ==> forall|i: int|
                7 <= i <= 9 ==> #[trigger] value(state, now, i) == "—"@
            &&& s.mcp matches Some(m) ==> {
                &&& value(state, now, 7) == decimal(m.used as int)
                &&& value(state, now, 8) == decimal(m.total as int)
                &&& m.used <= m.total ==> value(state, now, 9) == decimal(m.total - m.used)
                &&& m.used > m.total ==> value(state, now, 9) == decimal(0)
            }
        },
{
}

/// The text in the tray is the template of the settings filled in. A mark stands in front of it
/// exactly where something is going on.
pub proof fn the_title_is_the_template_filled_in(state: UiState, now: LocalTime)
    ensures
        state.busy is None ==> title_shown(state, now) == rendered(
            state.cfg.tray_title@,
            state,
            now,
        ),
        state.busy is Some ==> title_shown(state, now) == "⏳ "@ + rendered(
            state.cfg.tray_title@,
            state,
            now,
        ),
{
}

/// Names are replaced one after the other, and each wherever it stands: a list of names that is one
/// longer fills in what the shorter one left.
pub proof fn names_are_replaced_in_turn(
    tpl: Seq<char>,
    list: Seq<(Seq<char>, Seq<char>)>,
    name: Seq<char>,
    with: Seq<char>,
)
    ensures
        substituted(tpl, Seq::empty()) == tpl,
        substituted(tpl, list.push((name, with))) == replaced(
            substituted(tpl, list),
            "{"@ + name + "}"@,
            with,
        ),
{
    reveal_strlit("{");
    reveal_strlit("}");
    assert(list.push((name, with)).drop_last() =~= list);
    assert(in_braces(name) =~= "{"@ + name + "}"@);
}

/// What a list of names and values says is what each pair says, in its place.
pub proof fn every_name_is_told(list: Seq<(&'static str, String)>)
    ensures
        var_views(list).len() == list.len(),
        forall|i: int|
            0 <= i < list.len() ==> #[trigger] var_views(list)[i] == (list[i].0@, list[i].1@),
{
}

} // verus!
