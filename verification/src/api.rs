//! What the quota service answers, and what is made of it.

use crate::cards::ResetCards;
use crate::clock::{ms_to_local, told_by_clock, LocalTime, MAX_SECS, MIN_SECS};
use crate::text::{decimal, push_number, same_text};
use vstd::prelude::*;
use vstd::string::*;

verus! {

/// A used percentage, in the forms in which it is shown.
#[derive(Debug, Clone)]
pub struct Percent {
    /// The nearest whole percentage used.
    pub used: i64,
    /// The nearest whole percentage left.
    pub left: i64,
    /// How many cells of a bar of 12 the part left fills.
    pub left_of_12: usize,
    /// How many cells of a bar of 16 the part left fills.
    pub left_of_16: usize,
    /// How many cells of a bar of 24 the part used fills.
    pub used_of_24: usize,
    /// The percentage used, rounded for printing.
    pub used_text: String,
    /// The percentage left, rounded for printing.
    pub left_text: String,
    /// The percentage used, as exact as it is known.
    pub exact_text: String,
}

impl Percent {
    /// What is left fills no more cells than a bar has.
    pub open spec fn wf(self) -> bool {
        self.left_of_12 <= 12 && self.left_of_16 <= 16
    }

    /// Nothing is used.
    pub open spec fn is_zero(self) -> bool {
        &&& self.used == 0
        &&& self.left == 100
        &&& self.left_of_12 == 12
        &&& self.left_of_16 == 16
        &&& self.used_of_24 == 0
        &&& self.used_text@ == "0"@
        &&& self.left_text@ == "100"@
        &&& self.exact_text@ == "0"@
    }

    /// The percentage of something unused.
    pub fn zero() -> (r: Percent)
        ensures
            r.wf(),
            r.is_zero(),
    {
        Percent {
            used: 0,
            left: 100,
            left_of_12: 12,
            left_of_16: 16,
            used_of_24: 0,
            used_text: "0".to_owned(),
            left_text: "100".to_owned(),
            exact_text: "0".to_owned(),
        }
    }

    /// The same percentage once more.
    pub fn copy(&self) -> (r: Percent)
        ensures
            r == *self,
    {
        Percent {
            used: self.used,
            left: self.left,
            left_of_12: self.left_of_12,
            left_of_16: self.left_of_16,
            used_of_24: self.used_of_24,
            used_text: self.used_text.clone(),
            left_text: self.left_text.clone(),
            exact_text: self.exact_text.clone(),
        }
    }
}

/// A window of the token quota: five hours, or a week.
#[derive(Debug, Clone)]
pub struct TokenWindow {
    pub label: String,
    pub used_pct: Percent,
    /// The window is in use: the service has told when it resets.
    pub activated: bool,
    pub next_reset: Option<LocalTime>,
}

/// The monthly quota of tool calls.
#[derive(Debug, Clone)]
pub struct McpLimit {
    pub used: i64,
    pub total: i64,
    pub used_pct: Percent,
    pub next_reset: Option<LocalTime>,
    pub details: Vec<(String, i64)>,
}

#[derive(Debug, Clone)]
pub struct QuotaSnapshot {
    pub level: String,
    pub windows: Vec<TokenWindow>,
    pub mcp: Option<McpLimit>,
    pub fetched_at: LocalTime,
    /// The reset cards, which are asked for separately: `None` where they could not be had.
    pub resets: Option<ResetCards>,
}

impl QuotaSnapshot {
    /// The first window is the one of five hours.
    pub open spec fn first_window(self) -> Option<TokenWindow> {
        if self.windows@.len() > 0 {
            Some(self.windows@[0])
        } else {
            None
        }
    }

    /// There are windows, and none of them is in use.
    pub open spec fn all_inactive(self) -> bool {
        &&& self.windows@.len() > 0
        &&& forall|i: int| 0 <= i < self.windows@.len() ==> !(#[trigger] self.windows@[i]).activated
    }

    /// The window of five hours: the one that resets first.
    pub fn five_hour(&self) -> (r: Option<&TokenWindow>)
        ensures
            match r {
                Some(w) => self.first_window() == Some(*w),
                None => self.first_window() is None,
            },
    {
        if self.windows.len() > 0 {
            Some(&self.windows[0])
        } else {
            None
        }
    }

    /// Whether there are windows and none of them is in use.
    pub fn needs_activation(&self) -> (r: bool)
        ensures
            r == self.all_inactive(),
    {
        let mut i: usize = 0;
        while i < self.windows.len()
            invariant
                i <= self.windows@.len(),
                forall|j: int| 0 <= j < i ==> !(#[trigger] self.windows@[j]).activated,
            decreases self.windows@.len() - i,
        {
            if self.windows[i].activated {
                return false;
            }
            i = i + 1;
        }
        self.windows.len() > 0
    }

    /// The snapshot with the reset cards that were asked for besides it. That they could not be
    /// had takes nothing from the rest.
    pub fn with_resets(self, cards: Result<ResetCards, String>) -> (r: QuotaSnapshot)
        ensures
            r == (QuotaSnapshot {
                resets: match cards {
                    Ok(c) => Some(c),
                    Err(_) => None,
                },
                ..self
            }),
    {
        let mut snapshot = self;
        snapshot.resets = match cards {
            Ok(c) => Some(c),
            Err(_) => None,
        };
        snapshot
    }
}

/// The answer of the quota service.
#[derive(Debug)]
pub struct RawResp {
    pub code: i64,
    pub msg: String,
    pub data: Option<RawData>,
    pub success: bool,
}

#[derive(Debug)]
pub struct RawData {
    pub limits: Vec<RawLimit>,
    pub level: String,
}

#[derive(Debug)]
pub struct RawLimit {
    pub kind: String,
    pub percentage: Option<Percent>,
    pub usage: Option<i64>,
    pub current_value: Option<i64>,
    pub next_reset_time: Option<i64>,
    pub usage_details: Option<Vec<UsageDetail>>,
}

#[derive(Debug)]
pub struct UsageDetail {
    pub model_code: String,
    pub usage: i64,
}

impl RawLimit {
    /// When the limit resets; one that does not say stands behind all that do.
    pub open spec fn reset_key(self) -> i64 {
        match self.next_reset_time {
            Some(ms) => ms,
            None => i64::MAX,
        }
    }

    fn key(&self) -> (r: i64)
        ensures
            r == self.reset_key(),
    {
        match self.next_reset_time {
            Some(ms) => ms,
            None => i64::MAX,
        }
    }
}

/// Puts a limit into a list ordered by reset time, behind those that reset no later.
pub open spec fn insert_by_reset(list: Seq<RawLimit>, x: RawLimit) -> Seq<RawLimit>
    decreases list.len(),
{
    if list.len() == 0 || list.last().reset_key() <= x.reset_key() {
        list.push(x)
    } else {
        insert_by_reset(list.drop_last(), x).push(list.last())
    }
}

/// The limits in the order of their reset times; those with the same time keep their order.
pub open spec fn by_reset(list: Seq<RawLimit>) -> Seq<RawLimit>
    decreases list.len(),
{
    if list.len() == 0 {
        list
    } else {
        insert_by_reset(by_reset(list.drop_last()), list.last())
    }
}

/// The limits on tokens, in the order of their reset times.
pub open spec fn token_limits(limits: Seq<RawLimit>) -> Seq<RawLimit> {
    by_reset(limits.filter(|l: RawLimit| l.kind@ == "TOKENS_LIMIT"@))
}

/// The first limit on tool calls.
pub open spec fn call_limit(limits: Seq<RawLimit>) -> Option<RawLimit>
    decreases limits.len(),
{
    if limits.len() == 0 {
        None
    } else if limits[0].kind@ == "TIME_LIMIT"@ {
        Some(limits[0])
    } else {
        call_limit(limits.skip(1))
    }
}

/// What a window is called by its place.
pub open spec fn window_label(i: int) -> Seq<char> {
    if i == 0 {
        "5小时额度"@
    } else if i == 1 {
        "每周额度"@
    } else {
        "额度窗口"@
    }
}

/// `t` is the point in time at `ms`, or nothing where there is none on the calendar.
pub open spec fn is_reset_at(t: Option<LocalTime>, ms: Option<i64>) -> bool {
    match ms {
        None => t is None,
        Some(n) => {
            &&& t is Some <==> MIN_SECS <= n as int / 1000 <= MAX_SECS
            &&& t matches Some(at) ==> at.wf() && at.secs == n as int / 1000 && at.nanos == (n as int
                % 1000) * 1_000_000
        },
    }
}

/// `p` is the percentage that was told, or zero.
pub open spec fn is_percent_of(p: Percent, told: Option<Percent>) -> bool {
    match told {
        Some(q) => p == q,
        None => p.is_zero(),
    }
}

/// `w` is the window at place `i` that a limit describes.
pub open spec fn is_window_of(w: TokenWindow, l: RawLimit, i: int) -> bool {
    &&& w.label@ == window_label(i)
    &&& is_percent_of(w.used_pct, l.percentage)
    &&& w.activated == l.next_reset_time is Some
    &&& is_reset_at(w.next_reset, l.next_reset_time)
}

/// The names and counts of those tools that were used.
pub open spec fn used_tools(details: Option<Vec<UsageDetail>>) -> Seq<(Seq<char>, i64)> {
    match details {
        None => Seq::empty(),
        Some(list) => list@.filter(|d: UsageDetail| d.usage > 0).map_values(
            |d: UsageDetail| (d.model_code@, d.usage),
        ),
    }
}

/// The names and counts in a list.
pub open spec fn tool_views(list: Seq<(String, i64)>) -> Seq<(Seq<char>, i64)> {
    list.map_values(|d: (String, i64)| (d.0@, d.1))
}

/// `m` is the monthly quota that a limit describes.
pub open spec fn is_mcp_of(m: McpLimit, l: RawLimit) -> bool {
    &&& m.used == match l.current_value {
        Some(n) => n,
        None => 0,
    }
    &&& m.total == match l.usage {
        Some(n) => n,
        None => 0,
    }
    &&& is_percent_of(m.used_pct, l.percentage)
    &&& is_reset_at(m.next_reset, l.next_reset_time)
    &&& tool_views(m.details@) == used_tools(l.usage_details)
}

/// The limits of an answer.
pub open spec fn limits_of(data: Option<RawData>) -> Seq<RawLimit> {
    match data {
        Some(d) => d.limits@,
        None => Seq::empty(),
    }
}

/// `s` is what an answer says, fetched at `now`.
pub open spec fn is_snapshot_of(s: QuotaSnapshot, data: Option<RawData>, now: LocalTime) -> bool {
    let tokens = token_limits(limits_of(data));
    &&& s.level@ == match data {
        Some(d) => d.level@,
        None => Seq::empty(),
    }
    &&& s.windows@.len() == tokens.len()
    &&& forall|i: int|
        0 <= i < tokens.len() ==> is_window_of(#[trigger] s.windows@[i], tokens[i], i)
    &&& match call_limit(limits_of(data)) {
        Some(l) => s.mcp is Some && is_mcp_of(s.mcp->0, l),
        None => s.mcp is None,
    }
    &&& s.fetched_at == now
    &&& s.resets is None
}

/// Why an answer is a refusal: it reports no success and carries no data.
pub open spec fn refusal(raw: RawResp) -> Option<Seq<char>> {
    if !raw.success && raw.data is None {
        Some(
            if raw.msg@.len() == 0 {
                "code "@ + decimal(raw.code as int)
            } else {
                raw.msg@
            },
        )
    } else {
        None
    }
}

/// `r` is what the answer `parsed` comes to at `now`.
pub open spec fn is_quota_of(
    r: Result<QuotaSnapshot, String>,
    parsed: Result<RawResp, String>,
    now: LocalTime,
) -> bool {
    match parsed {
        Err(e) => r is Err && r->Err_0@ == "解析失败: "@ + e@,
        Ok(raw) => match refusal(raw) {
            Some(text) => r is Err && r->Err_0@ == text,
            None => r is Ok && is_snapshot_of(r->Ok_0, raw.data, now),
        },
    }
}

/// "code " and a number.
pub(crate) fn code_text(code: i64) -> (r: String)
    ensures
        r@ == "code "@ + decimal(code as int),
{
    let mut text = "code ".to_owned();
    push_number(&mut text, code as i128);
    text
}

fn percent_of(told: &Option<Percent>) -> (r: Percent)
    ensures
        is_percent_of(r, *told),
{
    match told {
        Some(p) => p.copy(),
        None => Percent::zero(),
    }
}

fn reset_at(ms: Option<i64>) -> (r: Option<LocalTime>)
    ensures
        is_reset_at(r, ms),
{
    match ms {
        Some(n) => ms_to_local(n),
        None => None,
    }
}

/// Where a limit goes, seen from the end of the list.
proof fn insert_place(list: Seq<RawLimit>, x: RawLimit, j: int)
    requires
        0 <= j <= list.len(),
        j > 0 ==> list[j - 1].reset_key() <= x.reset_key(),
        forall|k: int| j <= k < list.len() ==> (#[trigger] list[k]).reset_key() > x.reset_key(),
    ensures
        insert_by_reset(list, x) == list.insert(j, x),
    decreases list.len(),
{
    if j == list.len() {
        assert(list.insert(j, x) =~= list.push(x));
    } else {
        insert_place(list.drop_last(), x, j);
        assert(list.drop_last().insert(j, x).push(list.last()) =~= list.insert(j, x));
    }
}

/// The places of the limits on tokens, in the order of their reset times.
fn token_order(limits: &Vec<RawLimit>) -> (order: Vec<usize>)
    ensures
        forall|k: int| 0 <= k < order@.len() ==> (#[trigger] order@[k]) < limits@.len(),
        order@.map_values(|i: usize| limits@[i as int]) == token_limits(limits@),
{
    let ghost is_token = |l: RawLimit| l.kind@ == "TOKENS_LIMIT"@;
    let ghost at = |i: usize| limits@[i as int];
    let mut order: Vec<usize> = Vec::new();
    let mut i: usize = 0;
    proof {
        reveal(Seq::filter);
        assert(limits@.take(0).filter(is_token) =~= Seq::empty());
        assert(order@.map_values(at) =~= Seq::empty());
    }
    while i < limits.len()
        invariant
            i <= limits@.len(),
            is_token == (|l: RawLimit| l.kind@ == "TOKENS_LIMIT"@),
            at == (|k: usize| limits@[k as int]),
            forall|k: int| 0 <= k < order@.len() ==> (#[trigger] order@[k]) < i,
            order@.map_values(at) == by_reset(limits@.take(i as int).filter(is_token)),
        decreases limits@.len() - i,
    {
        proof {
            reveal(Seq::filter);
            assert(limits@.take(i + 1).drop_last() =~= limits@.take(i as int));
            assert(limits@.take(i + 1).last() == limits@[i as int]);
        }
        let ghost before = limits@.take(i as int).filter(is_token);
        let ghost list = order@.map_values(at);
        if same_text(limits[i].kind.as_str(), "TOKENS_LIMIT") {
            let key: i64 = limits[i].key();
            let mut j: usize = order.len();
            while j > 0 && limits[order[j - 1]].key() > key
                invariant
                    j <= order@.len(),
                    i < limits@.len(),
                    key == limits@[i as int].reset_key(),
                    forall|k: int| 0 <= k < order@.len() ==> (#[trigger] order@[k]) < i,
                    forall|k: int|
                        j <= k < order@.len() ==> limits@[(#[trigger] order@[k]) as int].reset_key()
                            > key,
                ensures
                    j <= order@.len(),
                    j > 0 ==> limits@[order@[j - 1] as int].reset_key() <= key,
                    forall|k: int|
                        j <= k < order@.len() ==> limits@[(#[trigger] order@[k]) as int].reset_key()
                            > key,
                decreases j,
            {
                j = j - 1;
            }
            proof {
                assert(before.push(limits@[i as int]).drop_last() =~= before);
                assert forall|k: int| j <= k < list.len() implies (#[trigger] list[k]).reset_key()
                    > key by {
                    assert(order@[k] < i);
                }
                insert_place(list, limits@[i as int], j as int);
            }
            let ghost old_order = order@;
            order.insert(j, i);
            assert(order@.map_values(at) =~= list.insert(j as int, limits@[i as int]));
            assert forall|k: int| 0 <= k < order@.len() implies (#[trigger] order@[k]) < i + 1 by {
                if k < j {
                    assert(order@[k] == old_order[k]);
                } else if k > j {
                    assert(order@[k] == old_order[k - 1]);
                }
            }
        } else {
            assert forall|k: int| 0 <= k < order@.len() implies (#[trigger] order@[k]) < i + 1 by {
            }
        }
        i = i + 1;
    }
    assert(limits@.take(i as int) =~= limits@);
    order
}

fn windows_of(limits: &Vec<RawLimit>) -> (windows: Vec<TokenWindow>)
    ensures
        windows@.len() == token_limits(limits@).len(),
        forall|i: int|
            0 <= i < windows@.len() ==> is_window_of(
                #[trigger] windows@[i],
                token_limits(limits@)[i],
                i,
            ),
{
    let order = token_order(limits);
    let ghost tokens = token_limits(limits@);
    assert(tokens.len() == order@.len());
    let mut windows: Vec<TokenWindow> = Vec::new();
    let mut i: usize = 0;
    while i < order.len()
        invariant
            i <= order@.len(),
            windows@.len() == i,
            tokens == order@.map_values(|k: usize| limits@[k as int]),
            forall|k: int| 0 <= k < order@.len() ==> (#[trigger] order@[k]) < limits@.len(),
            forall|j: int| 0 <= j < i ==> is_window_of(#[trigger] windows@[j], tokens[j], j),
        decreases order@.len() - i,
    {
        let l: &RawLimit = &limits[order[i]];
        assert(tokens[i as int] == *l);
        let label = if i == 0 {
            "5小时额度".to_owned()
        } else if i == 1 {
            "每周额度".to_owned()
        } else {
            "额度窗口".to_owned()
        };
        windows.push(
            TokenWindow {
                label,
                used_pct: percent_of(&l.percentage),
                activated: l.next_reset_time.is_some(),
                next_reset: reset_at(l.next_reset_time),
            },
        );
        i = i + 1;
    }
    windows
}

fn details_of(details: &Option<Vec<UsageDetail>>) -> (r: Vec<(String, i64)>)
    ensures
        tool_views(r@) == used_tools(*details),
{
    let mut out: Vec<(String, i64)> = Vec::new();
    assert(tool_views(out@) =~= Seq::empty());
    match details {
        None => out,
        Some(list) => {
            let ghost is_used = |d: UsageDetail| d.usage > 0;
            let ghost pair = |d: UsageDetail| (d.model_code@, d.usage);
            let mut i: usize = 0;
            proof {
                reveal(Seq::filter);
                assert(list@.take(0).filter(is_used).map_values(pair) =~= Seq::empty());
            }
            while i < list.len()
                invariant
                    i <= list@.len(),
                    is_used == (|d: UsageDetail| d.usage > 0),
                    pair == (|d: UsageDetail| (d.model_code@, d.usage)),
                    tool_views(out@) == list@.take(i as int).filter(is_used).map_values(pair),
                decreases list@.len() - i,
            {
                let ghost before = list@.take(i as int).filter(is_used);
                let ghost shown = tool_views(out@);
                proof {
                    reveal(Seq::filter);
                    assert(list@.take(i + 1).drop_last() =~= list@.take(i as int));
                    assert(list@.take(i + 1).last() == list@[i as int]);
                }
                if list[i].usage > 0 {
                    out.push((list[i].model_code.clone(), list[i].usage));
                    assert(tool_views(out@) =~= shown.push(pair(list@[i as int])));
                    assert(before.push(list@[i as int]).map_values(pair) =~= before.map_values(
                        pair,
                    ).push(pair(list@[i as int])));
                }
                i = i + 1;
            }
            assert(list@.take(i as int) =~= list@);
            out
        },
    }
}

fn or_zero(n: Option<i64>) -> (r: i64)
    ensures
        r == match n {
            Some(v) => v,
            None => 0,
        },
{
    match n {
        Some(v) => v,
        None => 0,
    }
}

fn mcp_of(limits: &Vec<RawLimit>) -> (r: Option<McpLimit>)
    ensures
        match call_limit(limits@) {
            Some(l) => r is Some && is_mcp_of(r->0, l),
            None => r is None,
        },
{
    let mut i: usize = 0;
    assert(limits@.skip(0) =~= limits@);
    while i < limits.len()
        invariant
            i <= limits@.len(),
            call_limit(limits@) == call_limit(limits@.skip(i as int)),
        decreases limits@.len() - i,
    {
        let l: &RawLimit = &limits[i];
        assert(limits@.skip(i as int)[0] == *l);
        assert(limits@.skip(i as int).skip(1) =~= limits@.skip(i + 1));
        if same_text(l.kind.as_str(), "TIME_LIMIT") {
            return Some(
                McpLimit {
                    used: or_zero(l.current_value),
                    total: or_zero(l.usage),
                    used_pct: percent_of(&l.percentage),
                    next_reset: reset_at(l.next_reset_time),
                    details: details_of(&l.usage_details),
                },
            );
        }
        i = i + 1;
    }
    None
}

/// What the answer of the quota service comes to, fetched at `now`. Where the body could not be
/// read, `parsed` says why.
pub fn parse_quota_at(parsed: Result<RawResp, String>, now: &LocalTime) -> (r: Result<
    QuotaSnapshot,
    String,
>)
    ensures
        is_quota_of(r, parsed, *now),
{
    let raw = match parsed {
        Ok(raw) => raw,
        Err(e) => {
            let mut text = "解析失败: ".to_owned();
            text.append(e.as_str());
            return Err(text);
        },
    };
    if !raw.success && raw.data.is_none() {
        return Err(
            if raw.msg.as_str().is_empty() {
                code_text(raw.code)
            } else {
                raw.msg
            },
        );
    }
    let data = match raw.data {
        Some(data) => data,
        None => RawData { limits: Vec::new(), level: "".to_owned() },
    };
    proof {
        reveal_strlit("");
        assert(""@ =~= Seq::<char>::empty());
        assert(limits_of(raw.data) =~= data.limits@);
    }
    Ok(
        QuotaSnapshot {
            windows: windows_of(&data.limits),
            mcp: mcp_of(&data.limits),
            level: data.level,
            fetched_at: *now,
            resets: None,
        },
    )
}

/// What the answer of the quota service comes to, fetched now.
pub fn parse_quota(parsed: Result<RawResp, String>) -> (r: Result<QuotaSnapshot, String>)
    ensures
        exists|now: LocalTime|
            now.wf() && told_by_clock(now) && #[trigger] is_quota_of(r, parsed, now),
{
    let now = LocalTime::now();
    parse_quota_at(parsed, &now)
}

// ---------------------------------------------------------------------------------------------
// Laws
// ---------------------------------------------------------------------------------------------

/// No limit in the list resets before one that stands earlier.
pub open spec fn in_reset_order(list: Seq<RawLimit>) -> bool {
    forall|i: int, j: int|
        0 <= i <= j < list.len() ==> (#[trigger] list[i]).reset_key() <= (
        #[trigger] list[j]).reset_key()
}

/// The place at which `insert_by_reset` puts a limit into an ordered list.
proof fn insert_splits(list: Seq<RawLimit>, x: RawLimit) -> (j: int)
    requires
        in_reset_order(list),
    ensures
        0 <= j <= list.len(),
        insert_by_reset(list, x) == list.insert(j, x),
        forall|k: int| 0 <= k < j ==> (#[trigger] list[k]).reset_key() <= x.reset_key(),
        forall|k: int| j <= k < list.len() ==> (#[trigger] list[k]).reset_key() > x.reset_key(),
    decreases list.len(),
{
    if list.len() == 0 || list.last().reset_key() <= x.reset_key() {
        assert(list.insert(list.len() as int, x) =~= list.push(x));
        list.len() as int
    } else {
        let shorter = list.drop_last();
        assert(in_reset_order(shorter)) by {
            assert forall|a: int, b: int| 0 <= a <= b < shorter.len() implies (
            #[trigger] shorter[a]).reset_key() <= (#[trigger] shorter[b]).reset_key() by {
                assert(shorter[a] == list[a] && shorter[b] == list[b]);
            }
        }
        let j = insert_splits(shorter, x);
        assert(shorter.insert(j, x).push(list.last()) =~= list.insert(j, x));
        assert forall|k: int| 0 <= k < j implies (#[trigger] list[k]).reset_key()
            <= x.reset_key() by {
            assert(shorter[k] == list[k]);
        }
        assert forall|k: int| j <= k < list.len() implies (#[trigger] list[k]).reset_key()
            > x.reset_key() by {
            if k < shorter.len() {
                assert(shorter[k] == list[k]);
            }
        }
        j
    }
}

/// Windows stand in the order of their reset times: `by_reset` orders any list.
pub proof fn by_reset_is_ordered(list: Seq<RawLimit>)
    ensures
        in_reset_order(by_reset(list)),
    decreases list.len(),
{
    if list.len() > 0 {
        let sorted = by_reset(list.drop_last());
        let x = list.last();
        by_reset_is_ordered(list.drop_last());
        let j = insert_splits(sorted, x);
        let more = sorted.insert(j, x);
        assert forall|a: int, b: int| 0 <= a <= b < more.len() implies (
        #[trigger] more[a]).reset_key() <= (#[trigger] more[b]).reset_key() by {
            let ka = if a < j {
                a
            } else {
                a - 1
            };
            let kb = if b < j {
                b
            } else {
                b - 1
            };
            assert(a != j ==> more[a] == sorted[ka]);
            assert(b != j ==> more[b] == sorted[kb]);
        }
    }
}

/// Putting the limits in order neither loses one nor adds one.
pub proof fn by_reset_keeps_all(list: Seq<RawLimit>)
    ensures
        by_reset(list).to_multiset() == list.to_multiset(),
        by_reset(list).len() == list.len(),
    decreases list.len(),
{
    broadcast use vstd::seq_lib::group_to_multiset_ensures;

    if list.len() > 0 {
        let sorted = by_reset(list.drop_last());
        by_reset_keeps_all(list.drop_last());
        by_reset_is_ordered(list.drop_last());
        let j = insert_splits(sorted, list.last());
        assert(list =~= list.drop_last().push(list.last()));
    }
}

/// What passes a test in a list is what passes it in the two parts of the list.
proof fn filter_insert(list: Seq<RawLimit>, j: int, x: RawLimit, test: spec_fn(RawLimit) -> bool)
    requires
        0 <= j <= list.len(),
        forall|k: int| j <= k < list.len() ==> !(test(x) && test(#[trigger] list[k])),
    ensures
        list.insert(j, x).filter(test) == if test(x) {
            list.filter(test).push(x)
        } else {
            list.filter(test)
        },
    decreases list.len(),
{
    reveal(Seq::filter);
    if j == list.len() {
        assert(list.insert(j, x) =~= list.push(x));
        assert(list.push(x).drop_last() =~= list);
    } else {
        let shorter = list.drop_last();
        assert forall|k: int| j <= k < shorter.len() implies !(test(x) && test(
            #[trigger] shorter[k],
        )) by {
            assert(shorter[k] == list[k]);
        }
        filter_insert(shorter, j, x, test);
        assert(list.insert(j, x) =~= shorter.insert(j, x).push(list.last()));
        assert(shorter.insert(j, x).push(list.last()).drop_last() =~= shorter.insert(j, x));
        assert(list.last() == list[list.len() - 1]);
    }
}

/// Limits that reset at the same time keep the order in which the service told them.
pub proof fn by_reset_is_stable(list: Seq<RawLimit>, key: i64)
    ensures
        by_reset(list).filter(|l: RawLimit| l.reset_key() == key) == list.filter(
            |l: RawLimit| l.reset_key() == key,
        ),
    decreases list.len(),
{
    let test = |l: RawLimit| l.reset_key() == key;
    if list.len() > 0 {
        let sorted = by_reset(list.drop_last());
        let x = list.last();
        by_reset_is_stable(list.drop_last(), key);
        by_reset_is_ordered(list.drop_last());
        let j = insert_splits(sorted, x);
        filter_insert(sorted, j, x, test);
        reveal(Seq::filter);
    }
}

/// Every window stands for a limit on tokens, and the windows stand in the order of their reset
/// times, so that the first is the one that resets first. A window that tells no reset time stands
/// behind all that tell one (before the end of time).
pub proof fn windows_follow_the_resets(
    s: QuotaSnapshot,
    data: Option<RawData>,
    now: LocalTime,
    i: int,
    j: int,
)
    requires
        is_snapshot_of(s, data, now),
        0 <= i <= j < s.windows@.len(),
    ensures
        s.windows@.len() == limits_of(data).filter(
            |l: RawLimit| l.kind@ == "TOKENS_LIMIT"@,
        ).len(),
        token_limits(limits_of(data))[i].reset_key() <= token_limits(limits_of(data))[j].reset_key(),
        s.windows@[j].activated && token_limits(limits_of(data))[j].reset_key() < i64::MAX
            ==> s.windows@[i].activated,
{
    let tokens = limits_of(data).filter(|l: RawLimit| l.kind@ == "TOKENS_LIMIT"@);
    by_reset_keeps_all(tokens);
    by_reset_is_ordered(tokens);
    assert(is_window_of(s.windows@[i], by_reset(tokens)[i], i));
    assert(is_window_of(s.windows@[j], by_reset(tokens)[j], j));
}

/// A fetched snapshot asks for activation exactly where the service told of limits on tokens and
/// of a reset time for none of them.
pub proof fn activation_is_needed_without_reset_times(
    s: QuotaSnapshot,
    data: Option<RawData>,
    now: LocalTime,
)
    requires
        is_snapshot_of(s, data, now),
    ensures
        s.all_inactive() <==> token_limits(limits_of(data)).len() > 0 && forall|i: int|
            0 <= i < token_limits(limits_of(data)).len() ==> (#[trigger] token_limits(
                limits_of(data),
            )[i]).next_reset_time is None,
{
    let tokens = token_limits(limits_of(data));
    if s.all_inactive() {
        assert forall|i: int| 0 <= i < tokens.len() implies (
        #[trigger] tokens[i]).next_reset_time is None by {
            assert(is_window_of(s.windows@[i], tokens[i], i));
            assert(!s.windows@[i].activated);
        }
    } else if tokens.len() > 0 {
        let i = choose|i: int| 0 <= i < s.windows@.len() && (#[trigger] s.windows@[i]).activated;
        assert(is_window_of(s.windows@[i], tokens[i], i));
    }
}

/// Percentages whose bars hold them stay such: those of the windows, and that of the monthly quota.
pub proof fn percentages_stay_within_their_bars(
    s: QuotaSnapshot,
    data: Option<RawData>,
    now: LocalTime,
)
    requires
        is_snapshot_of(s, data, now),
        forall|i: int|
            0 <= i < limits_of(data).len() ==> ((#[trigger] limits_of(data)[i]).percentage matches Some(
                p,
            ) ==> p.wf()),
    ensures
        forall|i: int| 0 <= i < s.windows@.len() ==> (#[trigger] s.windows@[i]).used_pct.wf(),
        s.mcp matches Some(m) ==> m.used_pct.wf(),
{
    let limits = limits_of(data);
    let is_token = |l: RawLimit| l.kind@ == "TOKENS_LIMIT"@;
    let tokens = limits.filter(is_token);
    by_reset_keeps_all(tokens);
    assert forall|i: int| 0 <= i < s.windows@.len() implies (
    #[trigger] s.windows@[i]).used_pct.wf() by {
        let l = by_reset(tokens)[i];
        assert(is_window_of(s.windows@[i], l, i));
        broadcast use vstd::seq_lib::group_to_multiset_ensures;

        assert(by_reset(tokens).contains(l));
        assert(by_reset(tokens).to_multiset().count(l) > 0);
        assert(tokens.to_multiset().count(l) > 0);
        assert(tokens.contains(l));
        limits.lemma_filter_contains_rev(is_token, l);
        let k = choose|k: int| 0 <= k < limits.len() && limits[k] == l;
        assert(limits[k].percentage == l.percentage);
    }
    call_limit_is_told(limits);
}

/// The first limit on tool calls is one of the limits.
proof fn call_limit_is_told(limits: Seq<RawLimit>)
    ensures
        call_limit(limits) matches Some(l) ==> exists|i: int|
            0 <= i < limits.len() && #[trigger] limits[i] == l,
    decreases limits.len(),
{
    if limits.len() > 0 {
        call_limit_is_told(limits.skip(1));
        if call_limit(limits.skip(1)) is Some && limits[0].kind@ != "TIME_LIMIT"@ {
            let l = call_limit(limits.skip(1))->0;
            let i = choose|i: int| 0 <= i < limits.skip(1).len() && #[trigger] limits.skip(1)[i] == l;
            assert(limits[i + 1] == l);
        }
    }
}

/// The monthly quota is what the first limit on tool calls in the answer tells: its percentage, its
/// calls, its total, and its reset to the millisecond.
pub proof fn the_first_call_limit_is_the_monthly_quota(
    r: Result<QuotaSnapshot, String>,
    raw: RawResp,
    now: LocalTime,
    k: int,
)
    requires
        is_quota_of(r, Ok(raw), now),
        raw.data is Some,
        0 <= k < raw.data->0.limits@.len(),
        raw.data->0.limits@[k].kind@ == "TIME_LIMIT"@,
        forall|j: int|
            0 <= j < k ==> (#[trigger] raw.data->0.limits@[j]).kind@ != "TIME_LIMIT"@,
    ensures
        r is Ok,
        r->Ok_0.mcp is Some,
        ({
            let told = raw.data->0.limits@[k];
            let m = r->Ok_0.mcp->0;
            let at = m.next_reset;
            &&& told.percentage matches Some(p) ==> m.used_pct == p
            &&& told.percentage is None ==> m.used_pct.used == 0 && m.used_pct.left == 100
                && m.used_pct.left_of_12 == 12 && m.used_pct.left_of_16 == 16
                && m.used_pct.used_of_24 == 0 && m.used_pct.used_text@ == "0"@
                && m.used_pct.left_text@ == "100"@ && m.used_pct.exact_text@ == "0"@
            &&& told.current_value matches Some(n) ==> m.used == n
            &&& told.current_value is None ==> m.used == 0
            &&& told.usage matches Some(n) ==> m.total == n
            &&& told.usage is None ==> m.total == 0
            &&& told.next_reset_time is None ==> at is None
            &&& told.next_reset_time matches Some(ms) ==> (at is Some <==> MIN_SECS * 1000 <= ms
                < (MAX_SECS + 1) * 1000)
            &&& told.next_reset_time matches Some(ms) ==> (at is Some ==> at->0.wf()
                && at->0.secs * 1000 * 1_000_000 + at->0.nanos == ms * 1_000_000
                && at->0.nanos < 1_000_000_000)
        }),
{
    let limits = raw.data->0.limits@;
    first_call_limit(limits, k);
}

proof fn first_call_limit(limits: Seq<RawLimit>, k: int)
    requires
        0 <= k < limits.len(),
        limits[k].kind@ == "TIME_LIMIT"@,
        forall|j: int| 0 <= j < k ==> (#[trigger] limits[j]).kind@ != "TIME_LIMIT"@,
    ensures
        call_limit(limits) == Some(limits[k]),
    decreases k,
{
    if k > 0 {
        let rest = limits.skip(1);
        assert(limits[0].kind@ != "TIME_LIMIT"@);
        assert forall|j: int| 0 <= j < k - 1 implies (#[trigger] rest[j]).kind@
            != "TIME_LIMIT"@ by {
            assert(rest[j] == limits[j + 1]);
        }
        assert(rest[k - 1] == limits[k]);
        first_call_limit(rest, k - 1);
    }
}

/// An answer without a limit on tool calls tells of no monthly quota.
pub proof fn without_a_call_limit_there_is_no_monthly_quota(
    r: Result<QuotaSnapshot, String>,
    raw: RawResp,
    now: LocalTime,
)
    requires
        is_quota_of(r, Ok(raw), now),
        r is Ok,
        raw.data matches Some(d) ==> forall|j: int|
            0 <= j < d.limits@.len() ==> (#[trigger] d.limits@[j]).kind@ != "TIME_LIMIT"@,
    ensures
        r->Ok_0.mcp is None,
{
    let limits = limits_of(raw.data);
    call_limit_is_told(limits);
    call_limit_is_one(limits);
}

proof fn call_limit_is_one(limits: Seq<RawLimit>)
    ensures
        call_limit(limits) matches Some(l) ==> l.kind@ == "TIME_LIMIT"@,
    decreases limits.len(),
{
    if limits.len() > 0 {
        call_limit_is_one(limits.skip(1));
    }
}

/// The tools of the monthly quota are those of the answer that were used, with their own names and
/// counts, in the order of the answer. There are places in the answer's list, one for each tool,
/// that rise and leave out no tool that was used.
pub proof fn the_tools_that_were_used_are_told(m: McpLimit, l: RawLimit) -> (places: Seq<int>)
    requires
        is_mcp_of(m, l),
        l.usage_details is Some,
    ensures
        ({
            let told = l.usage_details->0@;
            &&& places.len() == m.details@.len()
            &&& forall|i: int|
                0 <= i < places.len() ==> 0 <= #[trigger] places[i] < told.len() && m.details@[i].0@
                    == told[places[i]].model_code@ && m.details@[i].1 == told[places[i]].usage
                    && m.details@[i].1 > 0
            &&& forall|i: int, j: int|
                0 <= i < j < places.len() ==> #[trigger] places[i] < #[trigger] places[j]
            &&& forall|k: int|
                0 <= k < told.len() && (#[trigger] told[k]).usage > 0 ==> places.contains(k)
        }),
{
    let told = l.usage_details->0@;
    let used = |d: UsageDetail| d.usage > 0;
    let places = filter_places(told, used);
    let shown = tool_views(m.details@);
    assert(shown.len() == m.details@.len());
    assert forall|i: int| 0 <= i < places.len() implies 0 <= #[trigger] places[i] < told.len()
        && m.details@[i].0@ == told[places[i]].model_code@ && m.details@[i].1
        == told[places[i]].usage && m.details@[i].1 > 0 by {
        assert(shown[i] == (m.details@[i].0@, m.details@[i].1));
        assert(told.filter(used)[i] == told[places[i]]);
        assert(used(told[places[i]]));
    }
    places
}

/// Where the elements stand that pass a test.
pub proof fn filter_places<A>(list: Seq<A>, test: spec_fn(A) -> bool) -> (places: Seq<int>)
    ensures
        places.len() == list.filter(test).len(),
        forall|i: int|
            0 <= i < places.len() ==> 0 <= #[trigger] places[i] < list.len() && test(
                list[places[i]],
            ) && list.filter(test)[i] == list[places[i]],
        forall|i: int, j: int|
            0 <= i < j < places.len() ==> #[trigger] places[i] < #[trigger] places[j],
        forall|k: int| 0 <= k < list.len() && test(#[trigger] list[k]) ==> places.contains(k),
    decreases list.len(),
{
    reveal(Seq::filter);
    if list.len() == 0 {
        Seq::empty()
    } else {
        let shorter = list.drop_last();
        let few = filter_places(shorter, test);
        let last = list.len() - 1;
        let places = if test(list.last()) {
            few.push(last)
        } else {
            few
        };
        assert forall|k: int| 0 <= k < list.len() && test(
            #[trigger] list[k],
        ) implies places.contains(k) by {
            if k < last {
                assert(shorter[k] == list[k]);
                let i = choose|i: int| 0 <= i < few.len() && few[i] == k;
                assert(places[i] == k);
            } else {
                assert(places[few.len() as int] == k);
            }
        }
        places
    }
}

/// The windows are the limits on tokens that the answer tells of, each once, with their own
/// percentages and resets. They stand in the order of the reset times, those without one behind
/// those with one, and limits of one time in the order of the answer. The first is called that of
/// five hours, the second that of the week.
pub proof fn the_token_limits_are_the_windows(
    r: Result<QuotaSnapshot, String>,
    raw: RawResp,
    now: LocalTime,
) -> (places: Seq<int>)
    requires
        is_quota_of(r, Ok(raw), now),
        raw.data is Some,
    ensures
        r is Ok,
        r->Ok_0.level@ == raw.data->0.level@,
        r->Ok_0.fetched_at == now,
        r->Ok_0.resets is None,
        ({
            let limits = raw.data->0.limits@;
            let windows = r->Ok_0.windows@;
            &&& places.len() == windows.len()
            &&& forall|i: int|
                0 <= i < windows.len() ==> {
                    let told = limits[#[trigger] places[i]];
                    let w = windows[i];
                    let at = w.next_reset;
                    &&& 0 <= places[i] < limits.len()
                    &&& told.kind@ == "TOKENS_LIMIT"@
                    &&& w.label@ == if i == 0 {
                        "5小时额度"@
                    } else if i == 1 {
                        "每周额度"@
                    } else {
                        "额度窗口"@
                    }
                    &&& told.percentage matches Some(p) ==> w.used_pct == p
                    &&& told.percentage is None ==> w.used_pct.used == 0 && w.used_pct.left == 100
                        && w.used_pct.left_of_12 == 12 && w.used_pct.left_of_16 == 16
                        && w.used_pct.used_of_24 == 0 && w.used_pct.used_text@ == "0"@
                        && w.used_pct.left_text@ == "100"@ && w.used_pct.exact_text@ == "0"@
                    &&& w.activated <==> told.next_reset_time is Some
                    &&& told.next_reset_time is None ==> at is None
                    &&& told.next_reset_time matches Some(ms) ==> (at is Some <==> MIN_SECS * 1000
                        <= ms < (MAX_SECS + 1) * 1000)
                    &&& told.next_reset_time matches Some(ms) ==> (at is Some ==> at->0.wf()
                        && at->0.secs * 1000 * 1_000_000 + at->0.nanos == ms * 1_000_000
                        && at->0.nanos < 1_000_000_000)
                }
            &&& forall|i: int, j: int|
                0 <= i < j < windows.len() ==> {
                    let earlier = limits[#[trigger] places[i]].next_reset_time;
                    let later = limits[#[trigger] places[j]].next_reset_time;
                    &&& places[i] != places[j]
                    &&& earlier is None ==> later is None || later == Some(i64::MAX)
                    &&& earlier is Some && later is Some ==> earlier->0 <= later->0
                    &&& earlier == later ==> places[i] < places[j]
                }
            &&& forall|k: int|
                0 <= k < limits.len() && (#[trigger] limits[k]).kind@ == "TOKENS_LIMIT"@
                    ==> places.contains(k)
        }),
{
    let limits = raw.data->0.limits@;
    let windows = r->Ok_0.windows@;
    let places = token_places(limits);
    assert forall|i: int| 0 <= i < windows.len() implies is_window_of(
        windows[i],
        limits[#[trigger] places[i]],
        i,
    ) by {
        assert(is_window_of(windows[i], token_limits(limits)[i], i));
    }
    places
}

proof fn token_places(limits: Seq<RawLimit>) -> (places: Seq<int>)
    ensures
        places.len() == token_limits(limits).len(),
        forall|i: int|
            0 <= i < places.len() ==> 0 <= #[trigger] places[i] < limits.len()
                && limits[places[i]].kind@ == "TOKENS_LIMIT"@ && token_limits(limits)[i]
                == limits[places[i]],
        forall|i: int, j: int|
            0 <= i < j < places.len() ==> {
                let earlier = limits[#[trigger] places[i]].reset_key();
                let later = limits[#[trigger] places[j]].reset_key();
                &&& places[i] != places[j]
                &&& earlier <= later
                &&& earlier == later ==> places[i] < places[j]
            },
        forall|k: int|
            0 <= k < limits.len() && (#[trigger] limits[k]).kind@ == "TOKENS_LIMIT"@
                ==> places.contains(k),
    decreases limits.len(),
{
    reveal(Seq::filter);
    let is_token = |l: RawLimit| l.kind@ == "TOKENS_LIMIT"@;
    if limits.len() == 0 {
        Seq::empty()
    } else {
        let shorter = limits.drop_last();
        let x = limits.last();
        let last = limits.len() - 1;
        let few = token_places(shorter);
        assert(forall|k: int| 0 <= k < last ==> shorter[k] == #[trigger] limits[k]);
        if is_token(x) {
            let some = shorter.filter(is_token);
            assert(limits.filter(is_token) =~= some.push(x));
            assert(some.push(x).drop_last() =~= some);
            by_reset_is_ordered(some);
            let j = insert_splits(by_reset(some), x);
            let places = few.insert(j, last);
            assert(token_limits(limits) == token_limits(shorter).insert(j, x));
            assert forall|a: int, b: int| 0 <= a < b < places.len() implies {
                let earlier = limits[#[trigger] places[a]].reset_key();
                let later = limits[#[trigger] places[b]].reset_key();
                &&& places[a] != places[b]
                &&& earlier <= later
                &&& earlier == later ==> places[a] < places[b]
            } by {
                let ka = if a < j {
                    a
                } else {
                    a - 1
                };
                let kb = if b < j {
                    b
                } else {
                    b - 1
                };
                assert(a != j ==> places[a] == few[ka] && token_limits(shorter)[ka]
                    == limits[few[ka]]);
                assert(b != j ==> places[b] == few[kb] && token_limits(shorter)[kb]
                    == limits[few[kb]]);
            }
            assert forall|k: int| 0 <= k < limits.len() && (#[trigger] limits[k]).kind@
                == "TOKENS_LIMIT"@ implies places.contains(k) by {
                if k < last {
                    assert(shorter[k].kind@ == "TOKENS_LIMIT"@);
                    let i = choose|i: int| 0 <= i < few.len() && few[i] == k;
                    assert(places[if i < j {
                        i
                    } else {
                        i + 1
                    }] == k);
                } else {
                    assert(places[j] == k);
                }
            }
            assert forall|i: int| 0 <= i < places.len() implies 0 <= #[trigger] places[i]
                < limits.len() && limits[places[i]].kind@ == "TOKENS_LIMIT"@ && token_limits(
                limits,
            )[i] == limits[places[i]] by {
                if i < j {
                    assert(places[i] == few[i]);
                } else if i > j {
                    assert(places[i] == few[i - 1]);
                }
            }
            places
        } else {
            assert(limits.filter(is_token) =~= shorter.filter(is_token));
            assert forall|k: int| 0 <= k < limits.len() && (#[trigger] limits[k]).kind@
                == "TOKENS_LIMIT"@ implies few.contains(k) by {
                assert(shorter[k].kind@ == "TOKENS_LIMIT"@);
            }
            few
        }
    }
}

/// An answer is an error exactly where it cannot be read, or where it reports no success and carries
/// no data. The error then tells what was wrong with the text, or the message of the answer, or its
/// code where the message is empty.
pub proof fn only_refusals_are_errors(
    r: Result<QuotaSnapshot, String>,
    parsed: Result<RawResp, String>,
    now: LocalTime,
)
    requires
        is_quota_of(r, parsed, now),
    ensures
        r is Err <==> parsed is Err || (!parsed->Ok_0.success && parsed->Ok_0.data is None),
        parsed matches Err(e) ==> r->Err_0@ == "解析失败: "@ + e@,
        parsed matches Ok(raw) ==> (r is Err ==> if raw.msg@ == ""@ {
            r->Err_0@ == "code "@ + decimal(raw.code as int)
        } else {
            r->Err_0@ == raw.msg@
        }),
        parsed matches Ok(raw) ==> (raw.success && raw.data is None ==> r is Ok
            && r->Ok_0.level@ == ""@ && r->Ok_0.windows@.len() == 0 && r->Ok_0.mcp is None
            && r->Ok_0.fetched_at == now),
{
    reveal_strlit("");
    assert(""@ =~= Seq::<char>::empty());
    if let Ok(raw) = parsed {
        if raw.msg@.len() == 0 {
            assert(raw.msg@ =~= ""@);
        }
        reveal(Seq::filter);
    }
}

/// A snapshot asks for activation exactly where it has a window and each of its windows is unused.
pub proof fn any_used_window_is_enough(s: QuotaSnapshot)
    ensures
        s.windows@.len() == 0 ==> !s.all_inactive(),
        forall|i: int|
            0 <= i < s.windows@.len() && (#[trigger] s.windows@[i]).activated ==> !s.all_inactive(),
        s.windows@.len() > 0 && (forall|i: int|
            0 <= i < s.windows@.len() ==> !(#[trigger] s.windows@[i]).activated)
            ==> s.all_inactive(),
        s.windows@.len() > 0 ==> s.first_window() == Some(s.windows@[0]),
        s.windows@.len() == 0 ==> s.first_window() is None,
{
}

} // verus!
