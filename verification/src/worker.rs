//! The decisions of the worker: when a window counts as active, when it is activated, what follows
//! a request that did not help.

use crate::api::QuotaSnapshot;
use crate::cards::{is_best, ResetCards};
use crate::clock::{hours_minutes, time_text, told_by_clock, LocalTime, MAX_SECS, SECOND};
use crate::config::Config;
use crate::text::{decimal, push_number};
use crate::ui::{Status, UiState};
use vstd::prelude::*;
use vstd::string::*;

verus! {

/// How often an activating request is repeated.
pub const MAX_ACTIVATE_RETRIES: u32 = 3;

/// Seconds before it is repeated.
pub const RETRY_DELAY_SECS: u64 = 60;

/// Seconds of the first pause after a round of requests that did not help.
pub const BACKOFF_BASE_SECS: u64 = 300;

/// Seconds of the longest such pause.
pub const BACKOFF_MAX_SECS: u64 = 3600;

/// Seconds for which a window must still run to count as active.
pub const ACTIVE_MARGIN_SECS: i64 = 90;

/// Seconds after a reset at which the next window is opened.
pub const AFTER_RESET_SECS: i64 = 60;

impl LocalTime {
    /// `self` is later than the point in time `n` seconds after `other`.
    pub open spec fn later_by(self, other: LocalTime, n: int) -> bool {
        let nanos = if n > 0 && other.nanos >= SECOND {
            other.nanos - SECOND
        } else {
            other.nanos as int
        };
        self.secs > other.secs + n || (self.secs == other.secs + n && self.nanos > nanos)
    }
}

impl UiState {
    /// When the window of five hours resets, where that is known.
    pub open spec fn reset_time(self) -> Option<LocalTime> {
        match self.five_hour_window() {
            Some(w) => w.next_reset,
            None => None,
        }
    }

    /// The window of five hours is active: it resets later than in a minute and a half.
    pub open spec fn is_active(self, now: LocalTime) -> bool {
        self.reset_time() matches Some(r) && r.later_by(now, ACTIVE_MARGIN_SECS as int)
    }

    /// The time of the reset, where it is known, is a point in time.
    pub open spec fn reset_wf(self) -> bool {
        self.reset_time() matches Some(r) ==> r.wf()
    }

    /// Whether the time of the reset, where it is known, is a point in time.
    pub fn reset_valid(&self) -> (r: bool)
        ensures
            r == self.reset_wf(),
    {
        match current_reset(self) {
            Some(r) => r.is_valid(),
            None => true,
        }
    }

    /// Takes over what a query brought, with the settings that were in force for it. Without a key
    /// nothing else counts.
    pub fn settle(&mut self, cfg: Config, result: Result<QuotaSnapshot, String>)
        ensures
            final(self).cfg == cfg,
            final(self).cfg_path == old(self).cfg_path,
            final(self).busy is None,
            final(self).status == if !cfg.has_key() {
                Status::NoKey
            } else {
                match result {
                    Ok(s) => Status::Ready(s),
                    Err(e) => Status::Failed(e),
                }
            },
    {
        let configured = cfg.configured();
        self.cfg = cfg;
        self.busy = None;
        self.status = if !configured {
            Status::NoKey
        } else {
            match result {
                Ok(s) => Status::Ready(s),
                Err(e) => Status::Failed(e),
            }
        };
    }

    /// The cards that are known.
    pub open spec fn known_cards(self) -> Option<ResetCards> {
        match self.status {
            Status::Ready(s) => s.resets,
            _ => None,
        }
    }

    /// The number of the card to use for the week, or for the five hours: of those that can be used
    /// the one that runs out first.
    pub fn card_to_use(&self, week: bool) -> (r: Option<i64>)
        ensures
            match (r, self.known_cards()) {
                (Some(n), Some(c)) => exists|i: int| #[trigger]
                    is_best(c.cards(week), i) && n == c.cards(week)[i].record_id,
                (Some(_), None) => false,
                (None, Some(c)) => forall|i: int|
                    0 <= i < c.cards(week).len() ==> !(#[trigger] c.cards(week)[i]).available,
                (None, None) => true,
            },
    {
        match &self.status {
            Status::Ready(s) => match &s.resets {
                Some(c) => match c.pick(week) {
                    Some(card) => Some(card.record_id),
                    None => None,
                },
                None => None,
            },
            _ => None,
        }
    }
}

/// When the window of five hours resets, where that is known.
pub fn current_reset(state: &UiState) -> (r: Option<LocalTime>)
    ensures
        r == state.reset_time(),
{
    match state.five_hour() {
        Some(w) => w.next_reset,
        None => None,
    }
}

/// Whether the window of five hours is active at `now`.
pub fn window_active_at(state: &UiState, now: &LocalTime) -> (r: bool)
    requires
        now.wf(),
    ensures
        r == state.is_active(*now),
{
    match current_reset(state) {
        Some(r) => {
            let secs: i64 = now.secs + ACTIVE_MARGIN_SECS;
            let nanos: u32 = if now.nanos >= SECOND { now.nanos - SECOND } else { now.nanos };
            r.secs > secs || (r.secs == secs && r.nanos > nanos)
        },
        None => false,
    }
}

/// Whether the window of five hours is active now.
pub fn window_active(state: &UiState) -> (r: bool)
    ensures
        exists|now: LocalTime|
            now.wf() && told_by_clock(now) && r == #[trigger] state.is_active(now),
{
    let now = LocalTime::now();
    window_active_at(state, &now)
}

/// `r` is the point in time to which an activation is put off: a minute after the reset of a window
/// that is still running. There is none where no window is running.
pub open spec fn is_postponed_to(
    r: Option<LocalTime>,
    next_reset: Option<LocalTime>,
    now: LocalTime,
) -> bool {
    match next_reset {
        Some(t) => if t.later(now) {
            r is Some && r->0.wf() && r->0.is_seconds_after(t, AFTER_RESET_SECS as int)
        } else {
            r is None
        },
        None => r is None,
    }
}

/// The point in time to which an activation is put off, where it is, lies on the calendar.
pub open spec fn postpone_fits(next_reset: Option<LocalTime>, now: LocalTime) -> bool {
    next_reset matches Some(t) ==> t.wf() && (t.later(now) ==> t.secs + AFTER_RESET_SECS
        <= MAX_SECS)
}

/// Whether the point in time to which an activation is put off lies on the calendar.
pub fn can_postpone(next_reset: &Option<LocalTime>, now: &LocalTime) -> (r: bool)
    ensures
        r == postpone_fits(*next_reset, *now),
{
    match next_reset {
        Some(t) => t.is_valid() && (!t.is_later(now) || t.secs + AFTER_RESET_SECS <= MAX_SECS),
        None => true,
    }
}

/// To when an activation is put off, so that the request opens a new window instead of going into
/// the one that is running out.
pub fn postpone_until(next_reset: Option<LocalTime>, now: &LocalTime) -> (r: Option<LocalTime>)
    requires
        postpone_fits(next_reset, *now),
    ensures
        is_postponed_to(r, next_reset, *now),
{
    match next_reset {
        Some(t) => if t.is_later(now) {
            Some(t.plus_seconds(AFTER_RESET_SECS))
        } else {
            None
        },
        None => None,
    }
}

// ---------------------------------------------------------------------------------------------
// Activating without being asked
// ---------------------------------------------------------------------------------------------

/// `until` is still to come.
pub open spec fn in_cooldown(until: Option<LocalTime>, now: LocalTime) -> bool {
    until matches Some(t) && t.later(now)
}

/// Activating without being asked is called for: it is switched on, a window is known, and no
/// pause is in force.
pub open spec fn wants_activation(
    state: UiState,
    cooldown: Option<LocalTime>,
    now: LocalTime,
) -> bool {
    !in_cooldown(cooldown, now) && state.five_hour_window() is Some && state.cfg.auto_activate
}

/// `t` is the time for it: five seconds from now for a window that is not in use, a minute after
/// the reset of one that is, and half a minute from now where the reset is due.
pub open spec fn is_activation_time(t: LocalTime, state: UiState, now: LocalTime) -> bool {
    match state.reset_time() {
        None => t.is_seconds_after(now, 5),
        Some(r) => if r.later(now) {
            t.is_seconds_after(r, AFTER_RESET_SECS as int)
        } else {
            t.is_seconds_after(now, 30)
        },
    }
}

/// `r` and `after` are what planning makes of what was planned `before`: the point in time to wait
/// for, if it is a new one, and the one that is planned now.
pub open spec fn is_planned(
    r: Option<LocalTime>,
    after: Option<LocalTime>,
    before: Option<LocalTime>,
    state: UiState,
    cooldown: Option<LocalTime>,
    now: LocalTime,
) -> bool {
    if !wants_activation(state, cooldown, now) {
        r is None && after is None
    } else {
        &&& after is Some && is_activation_time(after->0, state, now)
        &&& if before is Some && is_activation_time(before->0, state, now) {
            r is None && after == before
        } else {
            r == after && r->0.wf()
        }
    }
}

/// What is planned, if anything is, lies on the calendar.
pub open spec fn plan_fits(state: UiState, cooldown: Option<LocalTime>, now: LocalTime) -> bool {
    &&& now.wf()
    &&& state.reset_wf()
    &&& wants_activation(state, cooldown, now) ==> match state.reset_time() {
        None => now.secs + 5 <= MAX_SECS,
        Some(r) => if r.later(now) {
            r.secs + AFTER_RESET_SECS <= MAX_SECS
        } else {
            now.secs + 30 <= MAX_SECS
        },
    }
}

/// Whether activating without being asked is called for.
fn is_wanted(state: &UiState, cooldown: &Option<LocalTime>, now: &LocalTime) -> (r: bool)
    ensures
        r == wants_activation(*state, *cooldown, *now),
{
    let paused = match cooldown {
        Some(until) => until.is_later(now),
        None => false,
    };
    !paused && state.five_hour().is_some() && state.cfg.auto_activate
}

/// Whether what is planned lies on the calendar.
pub fn can_plan(state: &UiState, cooldown: &Option<LocalTime>, now: &LocalTime) -> (r: bool)
    ensures
        r == plan_fits(*state, *cooldown, *now),
{
    now.is_valid() && state.reset_valid() && (!is_wanted(state, cooldown, now)
        || match current_reset(state) {
        None => now.secs <= MAX_SECS - 5,
        Some(r) => if r.is_later(now) {
            r.secs <= MAX_SECS - AFTER_RESET_SECS
        } else {
            now.secs <= MAX_SECS - 30
        },
    })
}

/// Plans the activating of the next window. What comes back is a point in time to wait for, unless
/// that has been planned already.
pub fn schedule_auto_activate(
    state: &UiState,
    scheduled: &mut Option<LocalTime>,
    cooldown: &Option<LocalTime>,
    now: &LocalTime,
) -> (r: Option<LocalTime>)
    requires
        plan_fits(*state, *cooldown, *now),
    ensures
        is_planned(r, *final(scheduled), *old(scheduled), *state, *cooldown, *now),
{
    if !is_wanted(state, cooldown, now) {
        *scheduled = None;
        return None;
    }
    let target = match current_reset(state) {
        None => now.plus_seconds(5),
        Some(reset) => if reset.is_later(now) {
            reset.plus_seconds(AFTER_RESET_SECS)
        } else {
            now.plus_seconds(30)
        },
    };
    if let Some(t) = &*scheduled {
        if t.secs == target.secs && t.nanos == target.nanos {
            return None;
        }
    }
    *scheduled = Some(target);
    Some(target)
}

// ---------------------------------------------------------------------------------------------
// The worker
// ---------------------------------------------------------------------------------------------

/// The pause after `rounds` rounds in a row that did not help: five minutes, twice as long after
/// each further round, an hour at most.
pub open spec fn backoff(rounds: nat) -> nat
    decreases rounds,
{
    if rounds <= 1 {
        300
    } else if 2 * backoff((rounds - 1) as nat) < 3600 {
        2 * backoff((rounds - 1) as nat)
    } else {
        3600
    }
}

/// The first pauses.
proof fn backoff_values(rounds: nat)
    ensures
        rounds == 1 ==> backoff(rounds) == 300,
        rounds == 2 ==> backoff(rounds) == 600,
        rounds == 3 ==> backoff(rounds) == 1200,
        rounds == 4 ==> backoff(rounds) == 2400,
        rounds >= 5 ==> backoff(rounds) == 3600,
    decreases rounds,
{
    if rounds > 1 {
        backoff_values((rounds - 1) as nat);
    }
}

/// The pause after `rounds` rounds in a row that did not help.
pub fn backoff_secs(rounds: u32) -> (r: u64)
    requires
        rounds > 0,
    ensures
        r == backoff(rounds as nat),
{
    let steps: u32 = if rounds - 1 < 7 { rounds - 1 } else { 7 };
    let secs: u64 = BACKOFF_BASE_SECS << steps;
    proof {
        backoff_values(rounds as nat);
        assert(300u64 << 0u32 == 300) by (bit_vector);
        assert(300u64 << 1u32 == 600) by (bit_vector);
        assert(300u64 << 2u32 == 1200) by (bit_vector);
        assert(300u64 << 3u32 == 2400) by (bit_vector);
        assert(300u64 << 4u32 == 4800) by (bit_vector);
        assert(300u64 << 5u32 == 9600) by (bit_vector);
        assert(300u64 << 6u32 == 19200) by (bit_vector);
        assert(300u64 << 7u32 == 38400) by (bit_vector);
    }
    if secs < BACKOFF_MAX_SECS {
        secs
    } else {
        BACKOFF_MAX_SECS
    }
}

/// What the worker remembers from one command to the next.
#[derive(Debug)]
pub struct Worker {
    /// The point in time for which an activation is planned.
    pub scheduled: Option<LocalTime>,
    /// How often the activating request has been repeated in this round.
    pub activate_retries: u32,
    /// How many rounds in a row did not help.
    pub failed_rounds: u32,
    /// Until when nothing is activated without being asked.
    pub cooldown_until: Option<LocalTime>,
}

/// How an activation starts.
#[derive(Debug)]
pub enum Start {
    /// It is put off until a point in time; meanwhile the text is shown. A line goes to the log.
    Postpone { until: LocalTime, busy: String, log: String },
    /// The request is sent, and the text is shown.
    Send { busy: String },
}

/// What follows an activation.
#[derive(Debug)]
pub enum Outcome {
    /// It helped. The next one is due at the point in time, if any.
    Done { next: Option<LocalTime> },
    /// It is repeated after a pause; meanwhile the text is shown.
    Retry { delay_secs: u64, scheduled: bool, busy: String },
    /// It is given up, and the quota is looked at again after a pause; meanwhile the text is shown.
    /// A line goes to the log.
    BackOff { delay_secs: u64, busy: String, log: String },
}

/// The counts after one more request that did not help: three repetitions belong to a round.
pub open spec fn next_counts(counts: (nat, nat)) -> (nat, nat) {
    if counts.0 < MAX_ACTIVATE_RETRIES {
        (counts.0 + 1, counts.1)
    } else {
        (0, counts.1 + 1)
    }
}

/// The counts after `n` more requests that did not help.
pub open spec fn counts_after(counts: (nat, nat), n: nat) -> (nat, nat)
    decreases n,
{
    if n == 0 {
        counts
    } else {
        next_counts(counts_after(counts, (n - 1) as nat))
    }
}

/// What is shown while an activation is put off.
pub open spec fn postponed_shown(until: LocalTime) -> Seq<char> {
    "定点激活：等待当前窗口"@ + hours_minutes(until.local_secs()) + "重置后自动续接…"@
}

/// What is logged of an activation that is put off.
pub open spec fn postponed_logged(until: LocalTime) -> Seq<char> {
    "定点激活：当前窗口尚未重置，推迟至 "@ + hours_minutes(until.local_secs()) + " 续接新窗口"@
}

/// What is shown while the request is on its way.
pub open spec fn sending_shown(attempt: u32) -> Seq<char> {
    if attempt == 0 {
        "激活中，发送最小请求…"@
    } else {
        "激活重试 "@ + decimal(attempt as int) + "/"@ + decimal(MAX_ACTIVATE_RETRIES as int) + "…"@
    }
}

/// What is shown before the request is repeated.
pub open spec fn retry_shown(attempt: int) -> Seq<char> {
    "激活未生效，"@ + decimal(RETRY_DELAY_SECS as int) + "秒后重试（"@ + decimal(attempt) + "/"@
        + decimal(MAX_ACTIVATE_RETRIES as int) + "）"@
}

/// What is shown after a round that did not help.
pub open spec fn backoff_shown(secs: int, rounds: int) -> Seq<char> {
    "激活未生效，"@ + decimal(secs / 60) + "分钟后自动重试（第"@ + decimal(rounds) + "轮退避）"@
}

/// What is logged of a round that did not help.
pub open spec fn backoff_logged(secs: int) -> Seq<char> {
    "激活重试 "@ + decimal(MAX_ACTIVATE_RETRIES as int) + " 次仍未生效，"@ + decimal(secs / 60)
        + "分钟后重新评估"@
}

impl Worker {
    pub open spec fn wf(self) -> bool {
        self.activate_retries <= MAX_ACTIVATE_RETRIES
    }

    /// The requests that were repeated in this round, and the rounds that did not help.
    pub open spec fn counts(self) -> (nat, nat) {
        (self.activate_retries as nat, self.failed_rounds as nat)
    }

    /// The worker before its first command.
    pub fn new() -> (r: Worker)
        ensures
            r.wf(),
            r.scheduled is None,
            r.activate_retries == 0,
            r.failed_rounds == 0,
            r.cooldown_until is None,
    {
        Worker { scheduled: None, activate_retries: 0, failed_rounds: 0, cooldown_until: None }
    }

    /// The pause that is in force once a query has shown whether a window is active.
    pub open spec fn cooldown_after(self, active: bool) -> Option<LocalTime> {
        if active {
            None
        } else {
            self.cooldown_until
        }
    }

    /// What is planned after a query lies on the calendar.
    pub open spec fn fetch_fits(self, state: UiState, now: LocalTime) -> bool {
        plan_fits(state, self.cooldown_after(state.is_active(now)), now)
    }

    /// Whether what is planned after a query lies on the calendar.
    pub fn can_fetch(&self, state: &UiState, now: &LocalTime) -> (r: bool)
        ensures
            r == self.fetch_fits(*state, *now),
    {
        if !now.is_valid() {
            return false;
        }
        if window_active_at(state, now) {
            can_plan(state, &None, now)
        } else {
            can_plan(state, &self.cooldown_until, now)
        }
    }

    /// What follows a query: an active window ends the pause, and the next activation is planned.
    /// What comes back is the point in time to wait for, if any.
    pub fn fetched(&mut self, state: &UiState, now: &LocalTime) -> (r: Option<LocalTime>)
        requires
            old(self).wf(),
            old(self).fetch_fits(*state, *now),
        ensures
            final(self).wf(),
            final(self).activate_retries == old(self).activate_retries,
            final(self).failed_rounds == if state.is_active(*now) {
                0
            } else {
                old(self).failed_rounds
            },
            final(self).cooldown_until == old(self).cooldown_after(state.is_active(*now)),
            is_planned(
                r,
                final(self).scheduled,
                old(self).scheduled,
                *state,
                final(self).cooldown_until,
                *now,
            ),
    {
        if window_active_at(state, now) {
            self.failed_rounds = 0;
            self.cooldown_until = None;
        }
        let cooldown = self.cooldown_until;
        schedule_auto_activate(state, &mut self.scheduled, &cooldown, now)
    }

    /// How an activation starts. One that the clock asked for is put off while a window is still
    /// running.
    pub fn start_activation(&self, state: &UiState, scheduled: bool, now: &LocalTime) -> (r: Start)
        requires
            scheduled ==> postpone_fits(state.reset_time(), *now),
        ensures
            match r {
                Start::Postpone { until, busy, log } => {
                    &&& scheduled
                    &&& is_postponed_to(Some(until), state.reset_time(), *now)
                    &&& busy@ == postponed_shown(until)
                    &&& log@ == postponed_logged(until)
                },
                Start::Send { busy } => {
                    &&& !scheduled || is_postponed_to(None, state.reset_time(), *now)
                    &&& busy@ == sending_shown(self.activate_retries)
                },
            },
    {
        if scheduled {
            if let Some(until) = postpone_until(current_reset(state), now) {
                let mut busy = "定点激活：等待当前窗口".to_owned();
                busy.append(time_text(&until, "%H:%M").as_str());
                busy.append("重置后自动续接…");
                let mut log = "定点激活：当前窗口尚未重置，推迟至 ".to_owned();
                log.append(time_text(&until, "%H:%M").as_str());
                log.append(" 续接新窗口");
                return Start::Postpone { until, busy, log };
            }
        }
        let busy = if self.activate_retries == 0 {
            "激活中，发送最小请求…".to_owned()
        } else {
            let mut text = "激活重试 ".to_owned();
            push_number(&mut text, self.activate_retries as i128);
            text.append("/");
            push_number(&mut text, MAX_ACTIVATE_RETRIES as i128);
            text.append("…");
            text
        };
        Start::Send { busy }
    }

    /// What is planned after an activation, or the end of the pause after it, lies on the calendar,
    /// and the rounds can be counted.
    pub open spec fn outcome_fits(self, state: UiState, now: LocalTime) -> bool {
        if state.is_active(now) {
            plan_fits(state, None, now)
        } else {
            now.wf() && (self.activate_retries == MAX_ACTIVATE_RETRIES ==> self.failed_rounds
                < u32::MAX && now.secs + backoff((self.failed_rounds + 1) as nat) <= MAX_SECS)
        }
    }

    /// Whether what is planned after an activation lies on the calendar, and the rounds can be
    /// counted.
    pub fn can_settle(&self, state: &UiState, now: &LocalTime) -> (r: bool)
        ensures
            r == self.outcome_fits(*state, *now),
    {
        if !now.is_valid() {
            return false;
        }
        if window_active_at(state, now) {
            return can_plan(state, &None, now);
        }
        if self.activate_retries != MAX_ACTIVATE_RETRIES {
            return true;
        }
        if self.failed_rounds == u32::MAX {
            return false;
        }
        proof {
            backoff_values((self.failed_rounds + 1) as nat);
        }
        now.secs <= MAX_SECS - backoff_secs(self.failed_rounds + 1) as i64
    }

    /// What follows an activation, by what the query after it showed. A window that is active now
    /// ends the round. Otherwise the request is repeated, three times at most; then there is a
    /// pause, which grows from round to round, and the quota is only looked at again after it.
    pub fn activated(&mut self, state: &UiState, scheduled: bool, now: &LocalTime) -> (r: Outcome)
        requires
            old(self).wf(),
            old(self).outcome_fits(*state, *now),
        ensures
            final(self).wf(),
            state.is_active(*now) ==> {
                &&& final(self).activate_retries == 0
                &&& final(self).failed_rounds == 0
                &&& final(self).cooldown_until is None
                &&& r matches Outcome::Done { next } && is_planned(
                    next,
                    final(self).scheduled,
                    old(self).scheduled,
                    *state,
                    None,
                    *now,
                )
            },
            !state.is_active(*now) && old(self).activate_retries < MAX_ACTIVATE_RETRIES ==> {
                &&& final(self).counts() == next_counts(old(self).counts())
                &&& final(self).cooldown_until == old(self).cooldown_until
                &&& final(self).scheduled == old(self).scheduled
                &&& r matches Outcome::Retry { delay_secs, scheduled: again, busy } && delay_secs
                    == RETRY_DELAY_SECS && again == scheduled && busy@ == retry_shown(
                    old(self).activate_retries + 1,
                )
            },
            !state.is_active(*now) && old(self).activate_retries == MAX_ACTIVATE_RETRIES ==> {
                &&& final(self).counts() == next_counts(old(self).counts())
                &&& final(self).cooldown_until matches Some(t) && t.wf() && t.is_seconds_after(
                    *now,
                    backoff(final(self).failed_rounds as nat) as int,
                )
                &&& final(self).scheduled is None
                &&& r matches Outcome::BackOff { delay_secs, busy, log } && delay_secs == backoff(
                    final(self).failed_rounds as nat,
                ) && busy@ == backoff_shown(delay_secs as int, final(self).failed_rounds as int)
                    && log@ == backoff_logged(delay_secs as int)
            },
    {
        if window_active_at(state, now) {
            self.activate_retries = 0;
            self.failed_rounds = 0;
            self.cooldown_until = None;
            let next = schedule_auto_activate(state, &mut self.scheduled, &None, now);
            return Outcome::Done { next };
        }
        if self.activate_retries < MAX_ACTIVATE_RETRIES {
            self.activate_retries = self.activate_retries + 1;
            let mut busy = "激活未生效，".to_owned();
            push_number(&mut busy, RETRY_DELAY_SECS as i128);
            busy.append("秒后重试（");
            push_number(&mut busy, self.activate_retries as i128);
            busy.append("/");
            push_number(&mut busy, MAX_ACTIVATE_RETRIES as i128);
            busy.append("）");
            return Outcome::Retry { delay_secs: RETRY_DELAY_SECS, scheduled, busy };
        }
        self.activate_retries = 0;
        self.failed_rounds = self.failed_rounds + 1;
        let delay_secs: u64 = backoff_secs(self.failed_rounds);
        proof {
            backoff_values(self.failed_rounds as nat);
        }
        self.cooldown_until = Some(now.plus_seconds(delay_secs as i64));
        self.scheduled = None;
        let mut busy = "激活未生效，".to_owned();
        push_number(&mut busy, (delay_secs / 60) as i128);
        busy.append("分钟后自动重试（第");
        push_number(&mut busy, self.failed_rounds as i128);
        busy.append("轮退避）");
        let mut log = "激活重试 ".to_owned();
        push_number(&mut log, MAX_ACTIVATE_RETRIES as i128);
        log.append(" 次仍未生效，");
        push_number(&mut log, (delay_secs / 60) as i128);
        log.append("分钟后重新评估");
        Outcome::BackOff { delay_secs, busy, log }
    }
}

// ---------------------------------------------------------------------------------------------
// Laws
// ---------------------------------------------------------------------------------------------

/// The pauses start at five minutes, double from round to round, and stop growing at an hour.
pub proof fn backoff_doubles_up_to_an_hour(rounds: nat)
    requires
        rounds > 0,
    ensures
        backoff(1) == BACKOFF_BASE_SECS,
        backoff(rounds + 1) == if 2 * backoff(rounds) < BACKOFF_MAX_SECS {
            2 * backoff(rounds)
        } else {
            BACKOFF_MAX_SECS as nat
        },
        BACKOFF_BASE_SECS <= backoff(rounds) <= backoff(rounds + 1) <= BACKOFF_MAX_SECS,
{
    backoff_values(1);
    backoff_values(rounds);
    backoff_values(rounds + 1);
}

/// A pause follows every fourth request in a row that did not help: the first one and three
/// repetitions make a round.
pub proof fn a_round_is_four_requests(rounds: nat, n: nat)
    ensures
        counts_after((0, rounds), n) == (n % 4, rounds + n / 4),
    decreases n,
{
    if n > 0 {
        a_round_is_four_requests(rounds, (n - 1) as nat);
    }
}

/// During a pause nothing is activated without being asked, and what was planned is dropped.
pub proof fn a_pause_keeps_quiet(
    cooldown: LocalTime,
    start: LocalTime,
    rounds: nat,
    state: UiState,
    now: LocalTime,
    before: Option<LocalTime>,
    after: Option<LocalTime>,
    r: Option<LocalTime>,
)
    requires
        cooldown.is_seconds_after(start, backoff(rounds) as int),
        now.secs < start.secs + backoff(rounds),
        is_planned(r, after, before, state, Some(cooldown), now),
    ensures
        r is None,
        after is None,
{
}

/// What is planned lies ahead, and past the reset of a window that is still running.
pub proof fn planned_for_later(
    r: Option<LocalTime>,
    after: Option<LocalTime>,
    before: Option<LocalTime>,
    state: UiState,
    cooldown: Option<LocalTime>,
    now: LocalTime,
)
    requires
        is_planned(r, after, before, state, cooldown, now),
        now.wf(),
        state.reset_time() matches Some(t) ==> t.wf(),
        after is Some,
    ensures
        after->0.later(now),
        state.reset_time() matches Some(t) ==> after->0.later(t),
{
}

/// While a window is running, its successor is planned for once, a minute after its reset, however
/// often the quota is queried.
pub proof fn planned_once(
    r: Option<LocalTime>,
    after: Option<LocalTime>,
    before: Option<LocalTime>,
    again: Option<LocalTime>,
    state: UiState,
    cooldown: Option<LocalTime>,
    now: LocalTime,
    then_cooldown: Option<LocalTime>,
    then_now: LocalTime,
    then_after: Option<LocalTime>,
)
    requires
        state.reset_time() matches Some(t) && t.later(now) && t.later(then_now),
        is_planned(r, after, before, state, cooldown, now),
        wants_activation(state, cooldown, now),
        is_planned(again, then_after, after, state, then_cooldown, then_now),
        wants_activation(state, then_cooldown, then_now),
    ensures
        after is Some && after->0.is_seconds_after(state.reset_time()->0, AFTER_RESET_SECS as int),
        before is None ==> r == after,
        again is None,
        then_after == after,
{
}

/// An activation that was put off comes after the reset, and so does not go into the window that is
/// running out.
pub proof fn postponed_past_the_reset(
    until: LocalTime,
    next_reset: Option<LocalTime>,
    now: LocalTime,
)
    requires
        is_postponed_to(Some(until), next_reset, now),
        next_reset matches Some(t) ==> t.wf(),
    ensures
        next_reset matches Some(t) && until.later(t),
        until.later(now),
{
}

/// Once a postponed activation is due, nothing puts it off any more.
pub proof fn postponed_only_once(
    until: LocalTime,
    next_reset: Option<LocalTime>,
    now: LocalTime,
    due: LocalTime,
    r: Option<LocalTime>,
)
    requires
        is_postponed_to(Some(until), next_reset, now),
        next_reset matches Some(t) ==> t.wf(),
        !until.later(due),
        is_postponed_to(r, next_reset, due),
    ensures
        r is None,
{
}

/// A window that was just opened, which resets five hours later, is active. One that has run out,
/// or was never opened, is not.
pub proof fn a_fresh_window_is_active(state: UiState, now: LocalTime)
    requires
        now.wf(),
    ensures
        state.reset_time() matches Some(r) && r.secs >= now.secs + 5 * 3600 ==> state.is_active(now),
        state.reset_time() matches Some(r) && !r.later(now) ==> !state.is_active(now),
        state.reset_time() is None ==> !state.is_active(now),
{
}

/// Where the old window resets within a minute, the repeated request comes after the reset.
pub proof fn a_retry_comes_after_the_reset(
    reset: LocalTime,
    now: LocalTime,
    retry: LocalTime,
)
    requires
        now.wf(),
        !reset.later_by(now, RETRY_DELAY_SECS as int),
        retry.is_seconds_after(now, RETRY_DELAY_SECS as int),
    ensures
        !reset.later(retry),
{
}

/// Where activating without being asked is switched off, nothing is planned, and what was planned
/// is dropped, whatever the window, its reset and the pause are. Nor is anything planned where no
/// window is known, or while a pause is in force.
pub proof fn nothing_is_planned_where_it_is_switched_off(
    r: Option<LocalTime>,
    after: Option<LocalTime>,
    before: Option<LocalTime>,
    state: UiState,
    cooldown: Option<LocalTime>,
    now: LocalTime,
)
    requires
        is_planned(r, after, before, state, cooldown, now),
    ensures
        !state.cfg.auto_activate ==> r is None && after is None,
        !(state.status is Ready) ==> r is None && after is None,
        state.status is Ready && state.status->Ready_0.windows@.len() == 0 ==> r is None
            && after is None,
        cooldown is Some && (cooldown->0.secs > now.secs || (cooldown->0.secs == now.secs
            && cooldown->0.nanos > now.nanos)) ==> r is None && after is None,
{
}

/// Where it is switched on, a window is known and no pause is in force, there is always a plan: a
/// minute after the reset of a window that is running, half a minute from now where the reset is
/// due, five seconds from now where the window is not in use.
pub proof fn a_known_window_is_planned_for(
    r: Option<LocalTime>,
    after: Option<LocalTime>,
    before: Option<LocalTime>,
    state: UiState,
    cooldown: Option<LocalTime>,
    now: LocalTime,
)
    requires
        is_planned(r, after, before, state, cooldown, now),
        state.cfg.auto_activate,
        state.status is Ready,
        state.status->Ready_0.windows@.len() > 0,
        cooldown is None || cooldown->0.secs < now.secs || (cooldown->0.secs == now.secs
            && cooldown->0.nanos <= now.nanos),
        now.nanos < 2_000_000_000,
    ensures
        after is Some,
        r is None ==> before == after,
        r is Some ==> r == after,
        ({
            let window = state.status->Ready_0.windows@[0];
            let at = after->0;
            match window.next_reset {
                None => at.secs == now.secs + 5 && at.nanos == now.nanos % 1_000_000_000,
                Some(t) => if t.secs > now.secs || (t.secs == now.secs && t.nanos > now.nanos) {
                    at.secs == t.secs + 60 && (t.nanos < 2_000_000_000 ==> at.nanos == t.nanos
                        % 1_000_000_000)
                } else {
                    at.secs == now.secs + 30 && at.nanos == now.nanos % 1_000_000_000
                },
            }
        }),
{
}

/// A window is active exactly where its reset lies more than a minute and a half ahead, to the
/// nanosecond. A leap second of the present is left behind.
pub proof fn active_by_the_nanosecond(state: UiState, now: LocalTime)
    requires
        now.nanos < 2_000_000_000,
    ensures
        state.is_active(now) <==> state.status is Ready && state.status->Ready_0.windows@.len() > 0
            && state.status->Ready_0.windows@[0].next_reset is Some && {
            let t = state.status->Ready_0.windows@[0].next_reset->0;
            t.secs > now.secs + 90 || (t.secs == now.secs + 90 && t.nanos > now.nanos
                % 1_000_000_000)
        },
{
}

/// Seen to the second, an activation that is put off comes a minute after the reset it waits for. It
/// is put off exactly where that reset lies ahead.
pub proof fn postponed_by_a_minute(
    r: Option<LocalTime>,
    next_reset: Option<LocalTime>,
    now: LocalTime,
)
    requires
        is_postponed_to(r, next_reset, now),
    ensures
        r is Some <==> next_reset is Some && (next_reset->0.secs > now.secs || (next_reset->0.secs
            == now.secs && next_reset->0.nanos > now.nanos)),
        r is Some ==> r->0.secs == next_reset->0.secs + 60,
        r is Some && next_reset->0.nanos < 2_000_000_000 ==> r->0.nanos == next_reset->0.nanos
            % 1_000_000_000,
{
}

/// The pause after the round number `rounds` in seconds: five minutes times two to the number of
/// rounds before it, and an hour at most.
pub proof fn pauses_in_seconds(rounds: nat)
    requires
        rounds > 0,
    ensures
        rounds == 1 ==> backoff(rounds) == 5 * 60,
        rounds == 2 ==> backoff(rounds) == 10 * 60,
        rounds == 3 ==> backoff(rounds) == 20 * 60,
        rounds == 4 ==> backoff(rounds) == 40 * 60,
        rounds >= 5 ==> backoff(rounds) == 60 * 60,
{
    backoff_values(rounds);
}

/// An active window ends the pause. Any other state of the window leaves it as it is.
pub proof fn only_an_active_window_ends_a_pause(worker: Worker)
    ensures
        worker.cooldown_after(true) is None,
        worker.cooldown_after(false) == worker.cooldown_until,
{
}

/// A request that did not help is counted. The fourth in a row ends the round: the requests are
/// counted anew, and the rounds go up by one.
pub proof fn requests_are_counted(worker: Worker)
    requires
        worker.wf(),
    ensures
        worker.activate_retries < 3 ==> next_counts(worker.counts()) == (
            (worker.activate_retries + 1) as nat,
            worker.failed_rounds as nat,
        ),
        worker.activate_retries == 3 ==> next_counts(worker.counts()) == (
            0nat,
            (worker.failed_rounds + 1) as nat,
        ),
{
}

/// What is told of an activation: that it is sent, for the first time or again, that it is repeated
/// in a minute, that there is a pause of so many minutes, or that it waits for a reset at an hour and
/// a minute of the local clock.
pub proof fn activations_are_told(attempt: u32, secs: int, rounds: int, until: LocalTime)
    ensures
        sending_shown(0) == "激活中，发送最小请求…"@,
        attempt > 0 ==> sending_shown(attempt) == "激活重试 "@ + decimal(attempt as int) + "/"@
            + decimal(3) + "…"@,
        retry_shown(attempt as int) == "激活未生效，"@ + decimal(60) + "秒后重试（"@ + decimal(
            attempt as int,
        ) + "/"@ + decimal(3) + "）"@,
        exists|m: int|
            60 * m <= secs < 60 * (m + 1) && backoff_shown(secs, rounds) == "激活未生效，"@
                + #[trigger] decimal(m) + "分钟后自动重试（第"@ + decimal(rounds) + "轮退避）"@
                && backoff_logged(secs) == "激活重试 "@ + decimal(3) + " 次仍未生效，"@ + decimal(
                m,
            ) + "分钟后重新评估"@,
        postponed_shown(until) == "定点激活：等待当前窗口"@ + hours_minutes(
            until.secs + until.offset,
        ) + "重置后自动续接…"@,
        postponed_logged(until) == "定点激活：当前窗口尚未重置，推迟至 "@ + hours_minutes(
            until.secs + until.offset,
        ) + " 续接新窗口"@,
{
    let m = secs / 60;
    assert(60 * m <= secs < 60 * (m + 1));
    assert(backoff_shown(secs, rounds) == "激活未生效，"@ + decimal(m) + "分钟后自动重试（第"@
        + decimal(rounds) + "轮退避）"@);
}

/// Away from the last hour of the calendar every plan, every postponement and every pause fits on it.
pub proof fn plans_fit_on_the_calendar(
    worker: Worker,
    state: UiState,
    cooldown: Option<LocalTime>,
    now: LocalTime,
)
    requires
        now.wf(),
        now.secs + 3600 <= MAX_SECS,
        state.reset_time() matches Some(t) ==> t.wf() && t.secs + 60 <= MAX_SECS,
    ensures
        plan_fits(state, cooldown, now),
        postpone_fits(state.reset_time(), now),
        worker.fetch_fits(state, now),
        worker.failed_rounds < u32::MAX ==> worker.outcome_fits(state, now),
{
    backoff_values((worker.failed_rounds + 1) as nat);
}

/// The reset that counts is that of the first window of the snapshot.
pub proof fn the_first_window_counts(state: UiState)
    ensures
        !(state.status is Ready) ==> state.reset_time() is None && state.known_cards() is None,
        state.status matches Status::Ready(s) ==> {
            &&& state.known_cards() == s.resets
            &&& s.windows@.len() == 0 ==> state.reset_time() is None
            &&& s.windows@.len() > 0 ==> state.reset_time() == s.windows@[0].next_reset
        },
{
}

} // verus!
