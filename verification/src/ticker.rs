//! When the quota is queried and a window is opened by the clock.

use crate::clock::{
    a_reading_is_a_time_of_day, clock_reading, clock_texts_have_digits_at_the_ends, find_local, hours_minutes, hours_minutes_seconds,
    is_found, read_clock, written_minutes_are_read, written_seconds_are_read, DayTime, LocalTime,
    Pause, DAY_SECS, MAX_SECS, SECOND,
};
use crate::text::{blank, same_text, trim, trimmed, trimming_keeps, trimming_skips_blanks, views};
use vstd::prelude::*;
use vstd::string::*;

verus! {

/// The longest single sleep: a changed setting is noticed within this many seconds.
pub const TICKER_POLL_SECS: u64 = 60;

/// The shortest interval, in seconds, between two queries.
pub const MIN_INTERVAL_SECS: u64 = 60;

// ---------------------------------------------------------------------------------------------
// Times of day in the settings
// ---------------------------------------------------------------------------------------------

/// A time of day, given as seconds and nanoseconds since midnight.
pub open spec fn day_time(reading: Option<(u32, u32)>) -> Option<DayTime> {
    match reading {
        Some(t) => Some(DayTime { secs: t.0, nanos: t.1 }),
        None => None,
    }
}

/// The time of day that an entry stands for: hours and minutes, or else with seconds, whatever
/// blanks stand around them.
pub open spec fn entry_time(text: Seq<char>) -> Option<DayTime> {
    match clock_reading(trimmed(text), false) {
        Some(t) => day_time(Some(t)),
        None => day_time(clock_reading(trimmed(text), true)),
    }
}

/// The values that are there, in order.
pub open spec fn present(list: Seq<Option<DayTime>>) -> Seq<DayTime>
    decreases list.len(),
{
    if list.len() == 0 {
        Seq::empty()
    } else {
        match list.last() {
            Some(t) => present(list.drop_last()).push(t),
            None => present(list.drop_last()),
        }
    }
}

/// The times of day that a list of entries stands for. Entries that cannot be read are left out.
pub open spec fn entry_times(texts: Seq<Seq<char>>) -> Seq<DayTime> {
    present(texts.map_values(|t: Seq<char>| entry_time(t)))
}

/// The values that are there, in order.
pub fn keep_present(list: &Vec<Option<DayTime>>) -> (r: Vec<DayTime>)
    ensures
        r@ == present(list@),
{
    let mut r: Vec<DayTime> = Vec::new();
    let mut i: usize = 0;
    while i < list.len()
        invariant
            i <= list.len(),
            r@ == present(list@.take(i as int)),
        decreases list.len() - i,
    {
        assert(list@.take(i + 1).drop_last() =~= list@.take(i as int));
        if let Some(t) = &list[i] {
            r.push(*t);
        }
        i = i + 1;
    }
    assert(list@.take(i as int) =~= list@);
    r
}

/// Reads one entry of the times at which a window is opened.
pub fn read_entry(text: &str) -> (r: Option<DayTime>)
    ensures
        r == entry_time(text@),
        r matches Some(t) ==> t.wf(),
{
    let text = trim(text);
    proof {
        a_reading_is_a_time_of_day(text@, false);
        a_reading_is_a_time_of_day(text@, true);
    }
    match read_clock(text.as_str(), "%H:%M") {
        Some(t) => Some(DayTime { secs: t.0, nanos: t.1 }),
        None => match read_clock(text.as_str(), "%H:%M:%S") {
            Some(t) => Some(DayTime { secs: t.0, nanos: t.1 }),
            None => None,
        },
    }
}

/// The values of `list` are well formed.
proof fn present_wf(list: Seq<Option<DayTime>>)
    requires
        forall|i: int| 0 <= i < list.len() ==> (#[trigger] list[i] matches Some(t) ==> t.wf()),
    ensures
        forall|i: int| 0 <= i < present(list).len() ==> (#[trigger] present(list)[i]).wf(),
    decreases list.len(),
{
    if list.len() > 0 {
        let front = list.drop_last();
        assert forall|i: int| 0 <= i < front.len() implies (#[trigger] front[i] matches Some(t)
            ==> t.wf()) by {
            assert(front[i] == list[i]);
        }
        present_wf(front);
        assert(list.last() == list[list.len() - 1]);
        assert forall|i: int| 0 <= i < present(list).len() implies (#[trigger] present(
            list,
        )[i]).wf() by {
            if i < present(front).len() {
                assert(present(list)[i] == present(front)[i]);
            }
        }
    }
}

/// Reads the times of day at which a window is opened. What cannot be read is left out.
pub fn parse_activate_at(activate_at: &Vec<String>) -> (r: Vec<DayTime>)
    ensures
        r@ == entry_times(views(activate_at@)),
        forall|i: int| 0 <= i < r.len() ==> (#[trigger] r[i]).wf(),
{
    let mut list: Vec<Option<DayTime>> = Vec::new();
    let mut i: usize = 0;
    while i < activate_at.len()
        invariant
            i <= activate_at.len(),
            list.len() == i,
            forall|j: int| 0 <= j < i ==> #[trigger] list[j] == entry_time(activate_at[j]@),
            forall|j: int| 0 <= j < i ==> (#[trigger] list[j] matches Some(t) ==> t.wf()),
        decreases activate_at.len() - i,
    {
        list.push(read_entry(activate_at[i].as_str()));
        i = i + 1;
    }
    proof {
        present_wf(list@);
        assert(list@ =~= views(activate_at@).map_values(|t: Seq<char>| entry_time(t)));
    }
    keep_present(&list)
}

/// The time of day from which the queries are counted, where the setting is one.
pub open spec fn align_time(align: Option<Seq<char>>) -> Option<DayTime> {
    match align {
        Some(text) => day_time(clock_reading(text, false)),
        None => None,
    }
}

/// A text that may be missing, by its characters.
pub open spec fn text_or_none(text: Option<String>) -> Option<Seq<char>> {
    match text {
        Some(t) => Some(t@),
        None => None,
    }
}

/// Reads the time of day from which the queries are counted. What cannot be read counts as none.
pub fn parse_align(align: &Option<String>) -> (r: Option<DayTime>)
    ensures
        r == align_time(text_or_none(*align)),
        r matches Some(t) ==> t.wf(),
{
    match align {
        Some(text) => {
            proof {
                a_reading_is_a_time_of_day(text@, false);
            }
            match read_clock(text.as_str(), "%H:%M") {
                Some(t) => Some(DayTime { secs: t.0, nanos: t.1 }),
                None => None,
            }
        },
        None => None,
    }
}

// ---------------------------------------------------------------------------------------------
// The next of some times of day
// ---------------------------------------------------------------------------------------------

/// `reading` is what looking for a date and time on the local clock brought: nothing, or a point in
/// time at which the clock shows them.
pub open spec fn is_reading(reading: Option<LocalTime>, day: int, time: DayTime) -> bool {
    &&& is_found((day * 86_400 + time.secs) as i64, time.nanos, reading)
    &&& reading matches Some(t) ==> t.wf() && t.local_secs() == day * 86_400 + time.secs && t.nanos
        == time.nanos
}

/// The first of two points in time that comes after `now`.
pub open spec fn still_to_come(
    pair: (Option<LocalTime>, Option<LocalTime>),
    now: LocalTime,
) -> Option<LocalTime> {
    if pair.0 is Some && pair.0->0.later(now) {
        pair.0
    } else if pair.1 is Some && pair.1->0.later(now) {
        pair.1
    } else {
        None
    }
}

/// `r` is the earliest, and among equals the first, of what is still to come today or else
/// tomorrow.
pub open spec fn is_next_of(
    r: Option<LocalTime>,
    readings: Seq<(Option<LocalTime>, Option<LocalTime>)>,
    now: LocalTime,
) -> bool {
    match r {
        Some(t) => exists|i: int|
            {
                &&& 0 <= i < readings.len()
                &&& #[trigger] still_to_come(readings[i], now) == Some(t)
                &&& forall|j: int|
                    0 <= j < readings.len() ==> (#[trigger] still_to_come(readings[j], now) matches Some(
                        u,
                    ) ==> !t.later(u) && (j < i ==> u.later(t)))
            },
        None => forall|j: int|
            0 <= j < readings.len() ==> #[trigger] still_to_come(readings[j], now) is None,
    }
}

/// The earliest of the points in time that come after `now`: for each pair the first, or else the
/// second.
pub fn next_of(
    readings: &Vec<(Option<LocalTime>, Option<LocalTime>)>,
    now: &LocalTime,
) -> (r: Option<LocalTime>)
    ensures
        is_next_of(r, readings@, *now),
{
    let mut best: Option<LocalTime> = None;
    let mut i: usize = 0;
    while i < readings.len()
        invariant
            i <= readings.len(),
            is_next_of(best, readings@.take(i as int), *now),
        decreases readings.len() - i,
    {
        let ghost seen = readings@.take(i as int);
        let ghost more = readings@.take(i + 1);
        let ghost before = best;
        let today = match &readings[i].0 {
            Some(t) => if t.is_later(now) {
                Some(*t)
            } else {
                None
            },
            None => None,
        };
        let coming = match today {
            Some(t) => Some(t),
            None => match &readings[i].1 {
                Some(t) => if t.is_later(now) {
                    Some(*t)
                } else {
                    None
                },
                None => None,
            },
        };
        assert(coming == still_to_come(more[i as int], *now));
        assert(forall|j: int| 0 <= j < i ==> #[trigger] more[j] == seen[j]);
        if let Some(t) = coming {
            let better = match &best {
                Some(b) => b.is_later(&t),
                None => true,
            };
            if better {
                best = Some(t);
            }
        }
        proof {
            if before is Some {
                let k = choose|k: int|
                    {
                        &&& 0 <= k < seen.len()
                        &&& #[trigger] still_to_come(seen[k], *now) == before
                        &&& forall|j: int|
                            0 <= j < seen.len() ==> (#[trigger] still_to_come(seen[j], *now) matches Some(
                                u,
                            ) ==> !before->0.later(u) && (j < k ==> u.later(before->0)))
                    };
                assert(still_to_come(more[k], *now) == before);
                assert forall|j: int| 0 <= j < more.len() implies (#[trigger] still_to_come(
                    more[j],
                    *now,
                ) matches Some(u) ==> !best->0.later(u) && (j < (if best == before {
                    k
                } else {
                    i as int
                }) ==> u.later(best->0))) by {
                    if j < i {
                        assert(still_to_come(seen[j], *now) == still_to_come(more[j], *now));
                    }
                }
            } else {
                assert forall|j: int| 0 <= j < i implies #[trigger] still_to_come(
                    more[j],
                    *now,
                ) is None by {
                    assert(still_to_come(seen[j], *now) is None);
                }
            }
        }
        i = i + 1;
    }
    assert(readings@.take(i as int) =~= readings@);
    best
}

/// `readings` is what looking for the times on the local clock can bring, for the day of `now` and
/// for the day after it.
pub open spec fn are_readings(
    readings: Seq<(Option<LocalTime>, Option<LocalTime>)>,
    times: Seq<DayTime>,
    now: LocalTime,
) -> bool {
    &&& readings.len() == times.len()
    &&& forall|i: int|
        0 <= i < times.len() ==> is_reading((#[trigger] readings[i]).0, now.local_day(), times[i])
            && is_reading(readings[i].1, now.local_day() + 1, times[i])
}

/// `r` is the next of some times of day, by what looking for each of them brought.
pub open spec fn is_next_daily(r: Option<LocalTime>, times: Seq<DayTime>, now: LocalTime) -> bool {
    exists|readings: Seq<(Option<LocalTime>, Option<LocalTime>)>|
        are_readings(readings, times, now) && #[trigger] is_next_of(r, readings, now)
}

/// The day after the local day of `now` lies on the calendar.
pub open spec fn has_tomorrow(now: LocalTime) -> bool {
    now.wf() && now.dated() && now.local_secs() + DAY_SECS <= MAX_SECS
}

/// Whether the day after the local day of `now` lies on the calendar.
pub fn tomorrow_exists(now: &LocalTime) -> (r: bool)
    ensures
        r == has_tomorrow(*now),
{
    now.is_dated() && now.secs + now.offset as i64 <= MAX_SECS - DAY_SECS
}

/// The next of some times of day: the earliest that is still to come today, or else tomorrow.
pub fn next_daily(times: &Vec<DayTime>, now: &LocalTime) -> (r: Option<LocalTime>)
    requires
        has_tomorrow(*now),
        forall|i: int| 0 <= i < times.len() ==> (#[trigger] times[i]).wf(),
    ensures
        is_next_daily(r, times@, *now),
{
    let today: i64 = now.day();
    let mut readings: Vec<(Option<LocalTime>, Option<LocalTime>)> = Vec::new();
    let mut i: usize = 0;
    while i < times.len()
        invariant
            has_tomorrow(*now),
            today == now.local_day(),
            i <= times.len(),
            forall|j: int| 0 <= j < times.len() ==> (#[trigger] times[j]).wf(),
            are_readings(readings@, times@.take(i as int), *now),
        decreases times.len() - i,
    {
        let time = times[i];
        assert(times[i as int].wf());
        let start: i64 = today * 86_400;
        let first = find_local(start + time.secs as i64, time.nanos);
        let second = find_local(start + 86_400 + time.secs as i64, time.nanos);
        readings.push((first, second));
        i = i + 1;
    }
    assert(times@.take(i as int) =~= times@);
    next_of(&readings, now)
}

// ---------------------------------------------------------------------------------------------
// The grid
// ---------------------------------------------------------------------------------------------

/// `t` is the point number `k` of the grid that starts at `base` and goes on in steps of `interval`
/// seconds.
pub open spec fn is_grid_point(t: LocalTime, base: LocalTime, interval: int, k: int) -> bool {
    if k == 0 {
        t.same_instant(base)
    } else {
        k > 0 && t.is_seconds_after(base, k * interval)
    }
}

/// `t` is the first point of the grid after `now`, and its number is `k`.
pub open spec fn is_first_after(
    t: LocalTime,
    base: LocalTime,
    interval: int,
    now: LocalTime,
    k: int,
) -> bool {
    &&& is_grid_point(t, base, interval, k)
    &&& t.later(now)
    &&& forall|u: LocalTime, j: int|
        0 <= j < k && #[trigger] is_grid_point(u, base, interval, j) ==> !u.later(now)
}

/// `t` is the first point of the grid after `now`.
pub open spec fn is_next_on_grid(
    t: LocalTime,
    base: LocalTime,
    interval: int,
    now: LocalTime,
) -> bool {
    exists|k: int| is_first_after(t, base, interval, now, k)
}

/// The first point after `now` of the grid that starts at `base` and goes on in steps of `interval`
/// seconds.
pub fn next_on_grid(base: &LocalTime, interval: u64, now: &LocalTime) -> (r: LocalTime)
    requires
        base.wf(),
        now.wf(),
        interval > 0,
        !base.later(*now) ==> now.secs + interval <= MAX_SECS,
    ensures
        r.wf(),
        is_next_on_grid(r, *base, interval as int, *now),
{
    if base.is_later(now) {
        assert(is_first_after(*base, *base, interval as int, *now, 0));
        return *base;
    }
    let nanos: u32 = if base.nanos >= SECOND { base.nanos - SECOND } else { base.nanos };
    let whole: i64 = now.secs - base.secs;
    let elapsed: u64 = if now.nanos >= nanos { whole as u64 } else { (whole - 1) as u64 };
    let jumps: u64 = elapsed / interval + 1;
    let ghost e = elapsed as int;
    let ghost n = interval as int;
    let ghost k = jumps as int;
    assert(e < k * n <= e + n && (k - 1) * n <= e) by (nonlinear_arith)
        requires
            n > 0,
            e >= 0,
            k == e / n + 1,
    ;
    let ahead: u64 = jumps * interval;
    let r = base.plus_seconds(ahead as i64);
    proof {
        assert(is_grid_point(r, *base, n, k));
        assert forall|u: LocalTime, j: int|
            0 <= j < k && #[trigger] is_grid_point(u, *base, n, j) implies !u.later(*now) by {
            assert(j * n <= (k - 1) * n) by (nonlinear_arith)
                requires
                    n > 0,
                    0 <= j <= k - 1,
            ;
        }
        assert(is_first_after(r, *base, n, *now, k));
    }
    r
}

/// Where the grid of a day starts: where it was found, or else at `now`.
pub open spec fn start_or(today: Option<LocalTime>, now: LocalTime) -> LocalTime {
    match today {
        Some(t) => t,
        None => now,
    }
}

/// `c`, or the start of the next day's grid where that comes after `now` and before `c`.
pub open spec fn or_tomorrow(
    c: LocalTime,
    tomorrow: Option<LocalTime>,
    now: LocalTime,
) -> LocalTime {
    match tomorrow {
        Some(t) => if t.later(now) && c.later(t) {
            t
        } else {
            c
        },
        None => c,
    }
}

/// `r` is the first point after `now` of the grid that starts `today` and anew `tomorrow`.
pub open spec fn is_next_from_starts(
    r: LocalTime,
    today: Option<LocalTime>,
    tomorrow: Option<LocalTime>,
    interval: int,
    now: LocalTime,
) -> bool {
    exists|c: LocalTime| #[trigger]
        is_next_on_grid(c, start_or(today, now), interval, now) && r == or_tomorrow(
            c,
            tomorrow,
            now,
        )
}

/// The first point after `now` of the grid that starts `today` and anew `tomorrow`, and goes on in
/// steps of `interval` seconds. Where no start was found for today, it starts at `now`.
pub fn next_from_starts(
    today: Option<LocalTime>,
    tomorrow: Option<LocalTime>,
    interval: u64,
    now: &LocalTime,
) -> (r: LocalTime)
    requires
        today matches Some(t) ==> t.wf(),
        tomorrow matches Some(t) ==> t.wf(),
        now.wf(),
        interval > 0,
        !start_or(today, *now).later(*now) ==> now.secs + interval <= MAX_SECS,
    ensures
        r.wf(),
        is_next_from_starts(r, today, tomorrow, interval as int, *now),
{
    let base = match today {
        Some(t) => t,
        None => *now,
    };
    let c = next_on_grid(&base, interval, now);
    assert(is_next_on_grid(c, start_or(today, *now), interval as int, *now));
    match tomorrow {
        Some(t) => if t.is_later(now) && c.is_later(&t) {
            t
        } else {
            c
        },
        None => c,
    }
}

/// `r` is the first point after `now` of the grid that starts every day at a time of day, for what
/// looking for that time on the local clock can bring.
pub open spec fn is_next_aligned(
    r: LocalTime,
    align: DayTime,
    interval: int,
    now: LocalTime,
) -> bool {
    exists|today: Option<LocalTime>, tomorrow: Option<LocalTime>|
        {
            &&& is_reading(today, now.local_day(), align)
            &&& if has_tomorrow(now) {
                is_reading(tomorrow, now.local_day() + 1, align)
            } else {
                tomorrow is None
            }
            &&& #[trigger] is_next_from_starts(r, today, tomorrow, interval, now)
        }
}

/// The first point after `now` of the grid that starts every day at a time of day and goes on in
/// steps of `interval` seconds.
pub fn next_aligned(align: &DayTime, interval: u64, now: &LocalTime) -> (r: LocalTime)
    requires
        align.wf(),
        interval > 0,
        now.wf(),
        now.dated(),
        now.secs + interval <= MAX_SECS,
    ensures
        r.wf(),
        is_next_aligned(r, *align, interval as int, *now),
{
    let start: i64 = now.day() * 86_400 + align.secs as i64;
    let today = find_local(start, align.nanos);
    let tomorrow = if tomorrow_exists(now) {
        find_local(start + 86_400, align.nanos)
    } else {
        None
    };
    next_from_starts(today, tomorrow, interval, now)
}

// ---------------------------------------------------------------------------------------------
// The two tickers
// ---------------------------------------------------------------------------------------------

/// A whole number of seconds to wait.
pub open spec fn is_pause(p: Pause, secs: int) -> bool {
    p.secs == secs && p.nanos == 0
}

/// Whether two lists hold the same texts.
fn same_texts(a: &Vec<String>, b: &Vec<String>) -> (r: bool)
    ensures
        r == (views(a@) == views(b@)),
{
    if a.len() != b.len() {
        assert(views(a@).len() != views(b@).len());
        return false;
    }
    let mut i: usize = 0;
    while i < a.len()
        invariant
            i <= a.len(),
            a.len() == b.len(),
            forall|j: int| 0 <= j < i ==> #[trigger] a[j]@ == b[j]@,
        decreases a.len() - i,
    {
        if !same_text(a[i].as_str(), b[i].as_str()) {
            assert(views(a@)[i as int] != views(b@)[i as int]);
            return false;
        }
        i = i + 1;
    }
    assert(views(a@) =~= views(b@));
    true
}

/// Opens a window at some times of every day.
#[derive(Debug)]
pub struct DailyTicker {
    /// The setting that was read last.
    pub raw: Option<Vec<String>>,
    /// The times of day that it stands for.
    pub times: Vec<DayTime>,
}

/// What the daily ticker does next.
#[derive(Debug, Clone, Copy)]
pub enum DailyStep {
    /// It sleeps, and looks at the settings again.
    Sleep(Pause),
    /// It sleeps, and asks for an activation.
    SleepThenActivate(Pause),
}

impl DailyTicker {
    pub open spec fn wf(self) -> bool {
        &&& forall|i: int| 0 <= i < self.times.len() ==> (#[trigger] self.times[i]).wf()
        &&& match self.raw {
            Some(raw) => self.times@ == entry_times(views(raw@)),
            None => self.times.len() == 0,
        }
    }

    pub fn new() -> (r: DailyTicker)
        ensures
            r.wf(),
            r.raw is None,
    {
        DailyTicker { raw: None, times: Vec::new() }
    }

    /// Takes over the setting. It is read anew only where it has changed; what comes back is
    /// whether it was.
    pub fn update(&mut self, raw: Vec<String>) -> (changed: bool)
        requires
            old(self).wf(),
        ensures
            final(self).wf(),
            final(self).times@ == entry_times(views(raw@)),
            final(self).raw is Some && views(final(self).raw->0@) == views(raw@),
            changed <==> !(old(self).raw is Some && views(old(self).raw->0@) == views(raw@)),
            !changed ==> *final(self) == *old(self),
    {
        let same = match &self.raw {
            Some(held) => same_texts(held, &raw),
            None => false,
        };
        if same {
            return false;
        }
        self.times = parse_activate_at(&raw);
        self.raw = Some(raw);
        true
    }
}

/// What the daily ticker does at `now` for the next point in time, if there is one: it asks for the
/// activation once that is no more than a minute away.
pub fn daily_step(next: &Option<LocalTime>, now: &LocalTime) -> (r: DailyStep)
    requires
        now.wf(),
        next matches Some(t) ==> t.wf(),
    ensures
        match (*next, r) {
            (Some(t), DailyStep::SleepThenActivate(p)) => if t.nanos_since(*now) < 0 {
                is_pause(p, TICKER_POLL_SECS as int)
            } else {
                p.total_nanos() == t.nanos_since(*now) && p.nanos < SECOND && t.nanos_since(*now)
                    <= 60_000_000_000
            },
            (Some(t), DailyStep::Sleep(p)) => t.nanos_since(*now) > 60_000_000_000 && is_pause(
                p,
                TICKER_POLL_SECS as int,
            ),
            (None, DailyStep::Sleep(p)) => is_pause(p, TICKER_POLL_SECS as int),
            (None, DailyStep::SleepThenActivate(_)) => false,
        },
        r matches DailyStep::Sleep(p) ==> p.total_nanos() <= 60_000_000_000,
        r matches DailyStep::SleepThenActivate(p) ==> p.total_nanos() <= 60_000_000_000,
{
    let poll = Pause { secs: TICKER_POLL_SECS, nanos: 0 };
    match next {
        Some(t) => {
            let wait = t.wait_from(now, poll);
            if wait.secs > TICKER_POLL_SECS || (wait.secs == TICKER_POLL_SECS && wait.nanos > 0) {
                DailyStep::Sleep(poll)
            } else {
                DailyStep::SleepThenActivate(wait)
            }
        },
        None => DailyStep::Sleep(poll),
    }
}

/// Queries the quota again and again.
#[derive(Debug)]
pub struct IntervalTicker {
    /// When the quota was queried last, or else when the ticker started.
    pub last_fire: LocalTime,
    /// The setting of the time of day that was read last.
    pub align_raw: Option<Option<String>>,
    /// The time of day that it stands for.
    pub align: Option<DayTime>,
}

/// What the interval ticker does next.
#[derive(Debug, Clone, Copy)]
pub enum IntervalStep {
    /// It asks for a query.
    Fetch,
    /// It sleeps, and looks at the settings again.
    Sleep(Pause),
}

/// The interval that is kept to: at least a minute.
pub open spec fn kept_interval(interval_secs: u64) -> int {
    if interval_secs < MIN_INTERVAL_SECS {
        MIN_INTERVAL_SECS as int
    } else {
        interval_secs as int
    }
}

/// The interval that is kept to.
pub fn interval_of(interval_secs: u64) -> (r: u64)
    ensures
        r == kept_interval(interval_secs),
{
    if interval_secs < MIN_INTERVAL_SECS {
        MIN_INTERVAL_SECS
    } else {
        interval_secs
    }
}

impl IntervalTicker {
    pub open spec fn wf(self) -> bool {
        &&& self.last_fire.wf()
        &&& self.align matches Some(t) ==> t.wf()
        &&& match self.align_raw {
            Some(raw) => self.align == align_time(text_or_none(raw)),
            None => self.align is None,
        }
    }

    /// There is room for an interval after the last query, which has a local date where the queries
    /// are counted from a time of day.
    pub open spec fn fits(self, interval_secs: u64) -> bool {
        (self.align is Some ==> self.last_fire.dated()) && self.last_fire.secs + kept_interval(interval_secs) <= MAX_SECS
    }

    pub fn new(now: LocalTime) -> (r: IntervalTicker)
        requires
            now.wf(),
        ensures
            r.wf(),
            r.last_fire == now,
            r.align_raw is None,
    {
        IntervalTicker { last_fire: now, align_raw: None, align: None }
    }

    /// Whether there is room for an interval after the last query.
    pub fn has_room(&self, interval_secs: u64) -> (r: bool)
        requires
            self.wf(),
        ensures
            r == self.fits(interval_secs),
    {
        let interval: u64 = interval_of(interval_secs);
        (self.align.is_none() || self.last_fire.is_dated()) && interval <= 20_000_000_000_000 && self.last_fire.secs
            + interval as i64 <= MAX_SECS
    }

    /// Takes over the setting of the time of day. It is read anew only where it has changed; what
    /// comes back is whether it was.
    pub fn update(&mut self, raw: Option<String>) -> (changed: bool)
        requires
            old(self).wf(),
        ensures
            final(self).wf(),
            final(self).last_fire == old(self).last_fire,
            final(self).align == align_time(text_or_none(raw)),
            final(self).align_raw matches Some(held) && text_or_none(held) == text_or_none(raw),
            changed <==> !(old(self).align_raw is Some && text_or_none(old(self).align_raw->0)
                == text_or_none(raw)),
            !changed ==> *final(self) == *old(self),
    {
        let same = match (&self.align_raw, &raw) {
            (Some(Some(held)), Some(text)) => same_text(held.as_str(), text.as_str()),
            (Some(None), None) => true,
            _ => false,
        };
        if same {
            return false;
        }
        self.align = parse_align(&raw);
        self.align_raw = Some(raw);
        true
    }

    /// The point in time of the next query: the first one after the last query on the grid of every
    /// day, or else an interval after it.
    pub fn next_fire(&self, interval_secs: u64) -> (r: LocalTime)
        requires
            self.wf(),
            self.fits(interval_secs),
        ensures
            r.wf(),
            r.later(self.last_fire),
            self.align is None ==> r.is_seconds_after(self.last_fire, kept_interval(interval_secs)),
            self.align matches Some(t) ==> is_next_aligned(
                r,
                t,
                kept_interval(interval_secs),
                self.last_fire,
            ),
    {
        let interval: u64 = interval_of(interval_secs);
        match &self.align {
            Some(t) => next_aligned(t, interval, &self.last_fire),
            None => self.last_fire.plus_seconds(interval as i64),
        }
    }

    /// What the interval ticker does at `now` for the point in time of the next query: it asks for
    /// the query once that has come, and before it sleeps for a minute at most.
    pub fn step(&mut self, interval_secs: u64, next: &LocalTime, now: &LocalTime) -> (r:
        IntervalStep)
        requires
            old(self).wf(),
            next.wf(),
            now.wf(),
        ensures
            final(self).wf(),
            final(self).align_raw == old(self).align_raw,
            final(self).align == old(self).align,
            !next.later(*now) ==> r is Fetch && final(self).last_fire == *now,
            next.later(*now) ==> final(self).last_fire == old(self).last_fire && (r matches
                IntervalStep::Sleep(p) && if 0 <= next.nanos_since(*now) <= 60_000_000_000 {
                p.total_nanos() == next.nanos_since(*now)
            } else {
                is_pause(p, 60)
            }),
            r matches IntervalStep::Sleep(p) ==> p.total_nanos() <= 60_000_000_000,
    {
        if !next.is_later(now) {
            self.last_fire = *now;
            return IntervalStep::Fetch;
        }
        let wait = next.wait_from(now, Pause { secs: interval_of(interval_secs), nanos: 0 });
        if wait.secs >= TICKER_POLL_SECS {
            IntervalStep::Sleep(Pause { secs: TICKER_POLL_SECS, nanos: 0 })
        } else {
            IntervalStep::Sleep(wait)
        }
    }
}

// ---------------------------------------------------------------------------------------------
// Laws
// ---------------------------------------------------------------------------------------------

/// The next of some times of day comes after `now`, today or tomorrow, at one of those times.
pub proof fn next_daily_is_ahead(
    r: LocalTime,
    readings: Seq<(Option<LocalTime>, Option<LocalTime>)>,
    times: Seq<DayTime>,
    now: LocalTime,
)
    requires
        are_readings(readings, times, now),
        is_next_of(Some(r), readings, now),
        forall|i: int| 0 <= i < times.len() ==> (#[trigger] times[i]).wf(),
    ensures
        r.later(now),
        now.local_day() <= r.local_day() <= now.local_day() + 1,
        exists|i: int|
            0 <= i < times.len() && r.local_secs() % 86_400 == (#[trigger] times[i]).secs && r.nanos
                == times[i].nanos,
{
    let i = choose|i: int|
        0 <= i < readings.len() && #[trigger] still_to_come(readings[i], now) == Some(r);
    assert(times[i].wf());
}

/// Without times of day there is no next one.
pub proof fn no_times_no_next(
    r: Option<LocalTime>,
    readings: Seq<(Option<LocalTime>, Option<LocalTime>)>,
    now: LocalTime,
)
    requires
        are_readings(readings, Seq::empty(), now),
        is_next_of(r, readings, now),
    ensures
        r is None,
{
}

/// Nothing that is still to come today is passed over.
pub proof fn today_comes_first(
    r: Option<LocalTime>,
    readings: Seq<(Option<LocalTime>, Option<LocalTime>)>,
    now: LocalTime,
    i: int,
)
    requires
        is_next_of(r, readings, now),
        0 <= i < readings.len(),
        readings[i].0 matches Some(t) && t.later(now),
    ensures
        r is Some,
        !r->0.later(readings[i].0->0),
{
    assert(still_to_come(readings[i], now) == readings[i].0);
}

/// Two points of a grid with the same place after `now` are the same point in time.
pub proof fn next_on_grid_is_unique(
    a: LocalTime,
    b: LocalTime,
    base: LocalTime,
    interval: int,
    now: LocalTime,
)
    requires
        is_next_on_grid(a, base, interval, now),
        is_next_on_grid(b, base, interval, now),
    ensures
        a.same_instant(b),
{
    let i = choose|i: int| is_first_after(a, base, interval, now, i);
    let j = choose|j: int| is_first_after(b, base, interval, now, j);
    if i < j {
        assert(is_grid_point(a, base, interval, i));
    } else if j < i {
        assert(is_grid_point(b, base, interval, j));
    }
}

/// Where the grid has started, its next point is no more than one step away.
pub proof fn next_on_grid_is_near(
    r: LocalTime,
    base: LocalTime,
    interval: int,
    now: LocalTime,
)
    requires
        base.wf(),
        now.wf(),
        interval > 0,
        !base.later(now),
        is_next_on_grid(r, base, interval, now),
    ensures
        r.later(now),
        r.secs <= now.secs + interval,
{
    let k = choose|k: int| is_first_after(r, base, interval, now, k);
    let nanos = if base.nanos >= SECOND {
        (base.nanos - SECOND) as u32
    } else {
        base.nanos
    };
    if k == 1 {
        assert(is_grid_point(base, base, interval, 0));
        assert(k * interval == interval) by (nonlinear_arith)
            requires
                k == 1,
        ;
    } else if k > 1 {
        let secs = base.secs + (k - 1) * interval;
        assert(r.secs == secs + interval) by (nonlinear_arith)
            requires
                secs == base.secs + (k - 1) * interval,
                r.secs == base.secs + k * interval,
        ;
        assert(secs >= base.secs) by (nonlinear_arith)
            requires
                secs == base.secs + (k - 1) * interval,
                k > 1,
                interval > 0,
        ;
        let u = LocalTime { secs: secs as i64, nanos, offset: base.offset };
        assert(is_grid_point(u, base, interval, k - 1));
        assert(!u.later(now));
    }
}

/// The next point of the grid of every day comes after `now`, and the start of the next day is not
/// passed over.
pub proof fn no_start_is_passed_over(
    r: LocalTime,
    today: Option<LocalTime>,
    tomorrow: Option<LocalTime>,
    interval: int,
    now: LocalTime,
)
    requires
        is_next_from_starts(r, today, tomorrow, interval, now),
    ensures
        r.later(now),
        today matches Some(t) ==> (t.later(now) ==> !r.later(t)),
        tomorrow matches Some(t) ==> (t.later(now) ==> !r.later(t)),
{
    let c = choose|c: LocalTime| #[trigger]
        is_next_on_grid(c, start_or(today, now), interval, now) && r == or_tomorrow(
            c,
            tomorrow,
            now,
        );
    let base = start_or(today, now);
    let k = choose|k: int| is_first_after(c, base, interval, now, k);
    if base.later(now) {
        assert(is_grid_point(base, base, interval, 0));
    }
}

/// There is one next point only of the grid of every day.
pub proof fn next_from_starts_is_unique(
    a: LocalTime,
    b: LocalTime,
    today: Option<LocalTime>,
    tomorrow: Option<LocalTime>,
    interval: int,
    now: LocalTime,
)
    requires
        is_next_from_starts(a, today, tomorrow, interval, now),
        is_next_from_starts(b, today, tomorrow, interval, now),
    ensures
        a.same_instant(b),
{
    let base = start_or(today, now);
    let c = choose|c: LocalTime| #[trigger]
        is_next_on_grid(c, base, interval, now) && a == or_tomorrow(c, tomorrow, now);
    let d = choose|d: LocalTime| #[trigger]
        is_next_on_grid(d, base, interval, now) && b == or_tomorrow(d, tomorrow, now);
    next_on_grid_is_unique(c, d, base, interval, now);
}

/// Every time of day counts: each is looked for on the local clock, today and tomorrow, and
/// nothing that was found and is still to come is passed over. What comes back was found for one of
/// them.
pub proof fn every_time_of_day_counts(r: Option<LocalTime>, times: Seq<DayTime>, now: LocalTime)
    requires
        is_next_daily(r, times, now),
    ensures
        exists|found: Seq<(Option<LocalTime>, Option<LocalTime>)>|
            {
                &&& #[trigger] found.len() == times.len()
                &&& forall|i: int|
                    0 <= i < times.len() ==> {
                        let secs = now.local_secs() / 86_400 * 86_400 + times[i].secs;
                        let (today, tomorrow) = #[trigger] found[i];
                        &&& is_found(secs as i64, times[i].nanos, today)
                        &&& is_found((secs + 86_400) as i64, times[i].nanos, tomorrow)
                        &&& today is Some && today->0.later(now) ==> r is Some && !r->0.later(
                            today->0,
                        )
                        &&& tomorrow is Some && tomorrow->0.later(now) && !(today is Some
                            && today->0.later(now)) ==> r is Some && !r->0.later(tomorrow->0)
                    }
                &&& r is Some ==> r->0.later(now) && exists|i: int|
                    0 <= i < times.len() && (r == (#[trigger] found[i]).0 || r == found[i].1)
            },
{
    let found = choose|readings: Seq<(Option<LocalTime>, Option<LocalTime>)>|
        are_readings(readings, times, now) && #[trigger] is_next_of(r, readings, now);
    assert forall|i: int| 0 <= i < times.len() implies ({
        let secs = now.local_secs() / 86_400 * 86_400 + times[i].secs;
        let (today, tomorrow) = #[trigger] found[i];
        &&& is_found(secs as i64, times[i].nanos, today)
        &&& is_found((secs + 86_400) as i64, times[i].nanos, tomorrow)
        &&& today is Some && today->0.later(now) ==> r is Some && !r->0.later(today->0)
        &&& tomorrow is Some && tomorrow->0.later(now) && !(today is Some && today->0.later(now))
            ==> r is Some && !r->0.later(tomorrow->0)
    }) by {
        assert((now.local_day() + 1) * 86_400 == now.local_day() * 86_400 + 86_400);
        assert(still_to_come(found[i], now) is Some ==> r is Some);
    }
    if r is Some {
        let i = choose|i: int|
            0 <= i < found.len() && #[trigger] still_to_come(found[i], now) == r;
        assert(r == found[i].0 || r == found[i].1);
    }
    assert(found.len() == times.len());
}

/// A list that holds more times of day has a next one that comes no later, wherever in the list the
/// times stand.
pub proof fn more_times_come_no_later(
    r: Option<LocalTime>,
    few: Seq<(Option<LocalTime>, Option<LocalTime>)>,
    q: Option<LocalTime>,
    many: Seq<(Option<LocalTime>, Option<LocalTime>)>,
    now: LocalTime,
)
    requires
        is_next_of(r, few, now),
        is_next_of(q, many, now),
        forall|i: int| 0 <= i < few.len() ==> many.contains(#[trigger] few[i]),
    ensures
        r is Some ==> q is Some && !q->0.later(r->0),
{
    if r is Some {
        let i = choose|i: int| 0 <= i < few.len() && #[trigger] still_to_come(few[i], now) == r;
        assert(many.contains(few[i]));
        let j = choose|j: int| 0 <= j < many.len() && many[j] == few[i];
        assert(still_to_come(many[j], now) == r);
    }
}

/// Readable entries are read in their order, whatever stands between them. An entry that cannot be
/// read takes nothing from the others.
pub proof fn entries_are_read_in_order(texts: Seq<Seq<char>>, text: Seq<char>)
    ensures
        entry_times(Seq::empty()) == Seq::<DayTime>::empty(),
        entry_times(texts.push(text)) == match entry_time(text) {
            Some(t) => entry_times(texts).push(t),
            None => entry_times(texts),
        },
{
    let read = |t: Seq<char>| entry_time(t);
    let none = Seq::<Seq<char>>::empty();
    assert(none.map_values(read) =~= Seq::empty());
    let all = texts.push(text).map_values(read);
    assert(all.drop_last() =~= texts.map_values(read));
    assert(all.last() == entry_time(text));
}

/// The interval that is kept to is that of the settings, and a minute where that is shorter.
pub proof fn intervals_last_a_minute(interval_secs: u64)
    ensures
        interval_secs >= 60 ==> kept_interval(interval_secs) == interval_secs,
        interval_secs < 60 ==> kept_interval(interval_secs) == 60,
{
}

/// The next point of the grid of every day is the start of tomorrow's grid, or a whole number of
/// steps from the start of today's. None of the points of today's grid that are still to come lies
/// before it. Where no start was found for today, the grid starts now.
pub proof fn nothing_on_the_grid_is_passed_over(
    r: LocalTime,
    today: Option<LocalTime>,
    tomorrow: Option<LocalTime>,
    interval: int,
    now: LocalTime,
    u: LocalTime,
    j: int,
)
    requires
        is_next_from_starts(r, today, tomorrow, interval, now),
        interval > 0,
        now.nanos < 2_000_000_000,
        today matches Some(t) ==> t.nanos < 2_000_000_000,
        j >= 0,
        ({
            let start = if today is Some {
                today->0
            } else {
                now
            };
            u.secs == start.secs + j * interval && u.nanos == if j == 0 {
                start.nanos
            } else {
                start.nanos % 1_000_000_000
            }
        }),
    ensures
        u.secs > now.secs || (u.secs == now.secs && u.nanos > now.nanos) ==> r.secs < u.secs || (
        r.secs == u.secs && r.nanos <= u.nanos),
        r.secs > now.secs || (r.secs == now.secs && r.nanos > now.nanos),
        (tomorrow is Some && r == tomorrow->0) || exists|k: int|
            k >= 0 && r.secs == (if today is Some {
                today->0
            } else {
                now
            }).secs + #[trigger] (k * interval) && r.nanos % 1_000_000_000 == (if today is Some {
                today->0
            } else {
                now
            }).nanos % 1_000_000_000,
{
    let base = start_or(today, now);
    let c = choose|c: LocalTime| #[trigger]
        is_next_on_grid(c, base, interval, now) && r == or_tomorrow(c, tomorrow, now);
    let k = choose|k: int| is_first_after(c, base, interval, now, k);
    assert(j == 0 ==> j * interval == 0) by (nonlinear_arith);
    assert(k == 0 ==> k * interval == 0) by (nonlinear_arith);
    assert(is_grid_point(u, base, interval, j));
    if u.later(now) {
        assert(j >= k);
        assert(j > k ==> j * interval > k * interval) by (nonlinear_arith)
            requires
                interval > 0,
        ;
    }
    assert(c.secs == base.secs + k * interval && c.nanos % 1_000_000_000 == base.nanos
        % 1_000_000_000);
}

/// The time of day from which queries are counted is looked for on the local clock, for today and,
/// while the calendar goes on, for tomorrow, and the next query is the next point of the grid that
/// starts there.
pub proof fn the_grid_starts_at_the_time_of_day(
    r: LocalTime,
    align: DayTime,
    interval: int,
    now: LocalTime,
)
    requires
        is_next_aligned(r, align, interval, now),
    ensures
        exists|today: Option<LocalTime>, tomorrow: Option<LocalTime>|
            {
                let secs = now.local_secs() / 86_400 * 86_400 + align.secs;
                &&& is_found(secs as i64, align.nanos, today)
                &&& now.wf() && now.dated() && now.local_secs() + 86_400 <= MAX_SECS ==> is_found(
                    (secs + 86_400) as i64,
                    align.nanos,
                    tomorrow,
                )
                &&& !(now.wf() && now.dated() && now.local_secs() + 86_400 <= MAX_SECS)
                    ==> tomorrow is None
                &&& #[trigger] is_next_from_starts(r, today, tomorrow, interval, now)
            },
        r.later(now),
{
    let (today, tomorrow) = choose|today: Option<LocalTime>, tomorrow: Option<LocalTime>|
        {
            &&& is_reading(today, now.local_day(), align)
            &&& if has_tomorrow(now) {
                is_reading(tomorrow, now.local_day() + 1, align)
            } else {
                tomorrow is None
            }
            &&& #[trigger] is_next_from_starts(r, today, tomorrow, interval, now)
        };
    assert((now.local_day() + 1) * 86_400 == now.local_day() * 86_400 + 86_400);
    no_start_is_passed_over(r, today, tomorrow, interval, now);
    assert(is_next_from_starts(r, today, tomorrow, interval, now));
}

/// There is room for an interval after the last query everywhere but at the end of the calendar.
pub proof fn there_is_room_for_an_interval(ticker: IntervalTicker, interval_secs: u64)
    requires
        ticker.align is Some ==> ticker.last_fire.dated(),
    ensures
        ticker.fits(interval_secs) <==> ticker.last_fire.secs + interval_secs <= MAX_SECS
            && ticker.last_fire.secs + 60 <= MAX_SECS,
{
}

/// A time of day that is written with hours and minutes, or with seconds too, is read as it was
/// written.
pub proof fn written_entries_are_read(local_secs: int)
    ensures
        entry_time(hours_minutes(local_secs)) == Some(
            DayTime { secs: (local_secs % 86_400 / 60 * 60) as u32, nanos: 0 },
        ),
        entry_time(hours_minutes_seconds(local_secs, 0)) == Some(
            DayTime { secs: (local_secs % 86_400) as u32, nanos: 0 },
        ),
        align_time(Some(hours_minutes(local_secs))) == Some(
            DayTime { secs: (local_secs % 86_400 / 60 * 60) as u32, nanos: 0 },
        ),
        align_time(None) is None,
{
    let (short, long) = (hours_minutes(local_secs), hours_minutes_seconds(local_secs, 0));
    written_minutes_are_read(local_secs);
    written_seconds_are_read(local_secs);
    clock_texts_have_digits_at_the_ends(local_secs);
    trimming_keeps(short);
    trimming_keeps(long);
}

/// Blanks around an entry do not matter.
pub proof fn blanks_around_entries_do_not_matter(text: Seq<char>, c: char)
    requires
        blank(c),
    ensures
        entry_time(seq![c] + text) == entry_time(text),
        entry_time(text.push(c)) == entry_time(text),
{
    trimming_skips_blanks(text, c);
}

/// An entry is read with hours and minutes alone where it can be, or else with seconds, and is left
/// out where neither can be.
pub proof fn entries_are_read_with_or_without_seconds(text: Seq<char>)
    requires
        text.len() > 0,
        !blank(text[0]),
        !blank(text.last()),
    ensures
        clock_reading(text, false) matches Some(t) ==> entry_time(text) == Some(
            DayTime { secs: t.0, nanos: t.1 },
        ),
        clock_reading(text, false) is None ==> match clock_reading(text, true) {
            Some(t) => entry_time(text) == Some(DayTime { secs: t.0, nanos: t.1 }),
            None => entry_time(text) is None,
        },
{
    trimming_keeps(text);
}

/// What comes back was found for the first of those times of day that come next together.
pub proof fn of_equal_times_the_first_comes_back(
    r: LocalTime,
    readings: Seq<(Option<LocalTime>, Option<LocalTime>)>,
    now: LocalTime,
) -> (i: int)
    requires
        is_next_of(Some(r), readings, now),
    ensures
        0 <= i < readings.len(),
        readings[i].0 == Some(r) || readings[i].1 == Some(r),
        forall|j: int|
            0 <= j < i ==> ((#[trigger] readings[j]).0 matches Some(t) ==> !t.later(now) || t.later(
                r,
            )),
{
    let i = choose|i: int|
        {
            &&& 0 <= i < readings.len()
            &&& #[trigger] still_to_come(readings[i], now) == Some(r)
            &&& forall|j: int|
                0 <= j < readings.len() ==> (#[trigger] still_to_come(readings[j], now) matches Some(
                    u,
                ) ==> !r.later(u) && (j < i ==> u.later(r)))
        };
    assert forall|j: int| 0 <= j < i implies ((#[trigger] readings[j]).0 matches Some(t)
        ==> !t.later(now) || t.later(r)) by {
        assert(readings[j].0 is Some && readings[j].0->0.later(now) ==> still_to_come(
            readings[j],
            now,
        ) == readings[j].0);
    }
    i
}

/// A pause of whole seconds lasts as many, and a setting that is held is the text that was given.
pub proof fn pauses_and_settings_are_held(p: Pause, secs: int, text: Option<String>)
    ensures
        is_pause(p, secs) <==> p.total_nanos() == secs * 1_000_000_000 && p.secs == secs,
        text matches Some(t) ==> text_or_none(text) == Some(t@),
        text is None ==> text_or_none(text) is None,
{
}

/// The day after today lies on the calendar everywhere but on its last day.
pub proof fn only_the_last_day_has_no_tomorrow(now: LocalTime)
    requires
        now.wf(),
        now.dated(),
    ensures
        has_tomorrow(now) <==> now.secs + now.offset + 86_400 <= MAX_SECS,
{
}

} // verus!
