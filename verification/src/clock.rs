//! Points in time with the offset of the local clock, times of day, and waiting times.

use crate::text::{blank, digit, digits, trimmed_start, two_digits};
use chrono::{TimeZone, Timelike};
use vstd::prelude::*;
use vstd::string::*;

verus! {

/// The earliest second that the calendar knows: the start of the year -262143.
pub const MIN_SECS: i64 = -8_334_601_228_800;

/// The latest second that the calendar knows: the end of the year 262142.
pub const MAX_SECS: i64 = 8_210_266_876_799;

pub const DAY_SECS: i64 = 86_400;

/// The length of a second in nanoseconds.
pub const SECOND: u32 = 1_000_000_000;

/// A second on the calendar and the nanoseconds past it. From one second on, the nanoseconds
/// stand for a leap second, which follows the last second of a minute only.
pub open spec fn valid_second(secs: int, nanos: int) -> bool {
    &&& MIN_SECS <= secs <= MAX_SECS
    &&& 0 <= nanos < 2 * SECOND
    &&& nanos >= SECOND ==> secs % 60 == 59
}

/// The division that rounds toward zero.
pub open spec fn trunc_div(n: int, d: int) -> int {
    if n >= 0 {
        n / d
    } else {
        -((-n) / d)
    }
}

/// A point in time, in seconds and nanoseconds since the start of 1970 in UTC, with the number of
/// seconds that the local clock is ahead of UTC.
#[derive(Debug, Clone, Copy)]
pub struct LocalTime {
    pub secs: i64,
    pub nanos: u32,
    pub offset: i32,
}

/// A time of day, in seconds and nanoseconds since midnight.
#[derive(Debug, Clone, Copy)]
pub struct DayTime {
    pub secs: u32,
    pub nanos: u32,
}

/// A time to wait.
#[derive(Debug, Clone, Copy, PartialEq, Eq, Structural)]
pub struct Pause {
    pub secs: u64,
    pub nanos: u32,
}

impl DayTime {
    pub open spec fn wf(self) -> bool {
        &&& self.secs < DAY_SECS
        &&& self.nanos < 2 * SECOND
        &&& self.nanos >= SECOND ==> self.secs % 60 == 59
    }
}

impl Pause {
    pub open spec fn total_nanos(self) -> int {
        self.secs * 1_000_000_000 + self.nanos
    }
}

impl LocalTime {
    pub open spec fn wf(self) -> bool {
        &&& MIN_SECS <= self.secs <= MAX_SECS
        &&& self.nanos < 2 * SECOND
        &&& -DAY_SECS < self.offset < DAY_SECS
    }

    /// The seconds that the local clock shows, counted like the seconds of UTC.
    pub open spec fn local_secs(self) -> int {
        self.secs + self.offset
    }

    /// The number of the local day.
    pub open spec fn local_day(self) -> int {
        self.local_secs() / DAY_SECS as int
    }

    /// The local date lies on the calendar.
    pub open spec fn dated(self) -> bool {
        MIN_SECS <= self.local_secs() <= MAX_SECS
    }

    /// The same point in time, whatever the offset.
    pub open spec fn same_instant(self, other: LocalTime) -> bool {
        self.secs == other.secs && self.nanos == other.nanos
    }

    /// `self` is a later point in time than `other`.
    pub open spec fn later(self, other: LocalTime) -> bool {
        self.secs > other.secs || (self.secs == other.secs && self.nanos > other.nanos)
    }

    /// The nanoseconds from `other` to `self`. A leap second that lies between the two times of
    /// day counts.
    pub open spec fn nanos_since(self, other: LocalTime) -> int {
        let day = DAY_SECS as int;
        let leap: int = if self.secs as int % day > other.secs as int % day && other.nanos
            >= SECOND {
            1
        } else if (self.secs as int % day) < other.secs as int % day && self.nanos >= SECOND {
            -1
        } else {
            0
        };
        (self.secs - other.secs + leap) * 1_000_000_000 + (self.nanos - other.nanos)
    }

    /// The whole seconds from `other` to `self`.
    pub open spec fn seconds_since(self, other: LocalTime) -> int {
        trunc_div(self.nanos_since(other), SECOND as int)
    }

    /// The whole minutes from `other` to `self`.
    pub open spec fn minutes_since(self, other: LocalTime) -> int {
        trunc_div(self.seconds_since(other), 60)
    }

    /// The point in time `n` seconds later, for a positive `n`. A leap second is left behind.
    pub open spec fn is_seconds_after(self, other: LocalTime, n: int) -> bool {
        &&& self.secs == other.secs + n
        &&& self.nanos == if other.nanos >= SECOND {
            other.nanos - SECOND
        } else {
            other.nanos as int
        }
    }

    /// What the clock of the machine shows.
    pub fn now() -> (r: LocalTime)
        ensures
            r.wf(),
            r.nanos < SECOND,
            told_by_clock(r),
    {
        local_now()
    }

    /// Whether `self` is a later point in time than `other`.
    pub fn is_later(&self, other: &LocalTime) -> (r: bool)
        ensures
            r == self.later(*other),
    {
        self.secs > other.secs || (self.secs == other.secs && self.nanos > other.nanos)
    }

    /// Whether this is a point in time.
    pub fn is_valid(&self) -> (r: bool)
        ensures
            r == self.wf(),
    {
        MIN_SECS <= self.secs && self.secs <= MAX_SECS && self.nanos < 2 * SECOND && self.offset
            > -86_400 && self.offset < 86_400
    }

    /// Whether this is a point in time whose local date lies on the calendar.
    pub fn is_dated(&self) -> (r: bool)
        ensures
            r == (self.wf() && self.dated()),
    {
        self.is_valid() && MIN_SECS <= self.secs + self.offset as i64 && self.secs
            + self.offset as i64 <= MAX_SECS
    }

    /// The number of the local day.
    pub fn day(&self) -> (r: i64)
        requires
            self.wf(),
        ensures
            r == self.local_day(),
    {
        floor_div(self.secs + self.offset as i64, DAY_SECS)
    }

    /// The nanoseconds from `other` to `self`.
    pub fn nanos_from(&self, other: &LocalTime) -> (r: i128)
        requires
            self.wf(),
            other.wf(),
        ensures
            r == self.nanos_since(*other),
            -20_000_000_000_000_000_000_000 < r < 20_000_000_000_000_000_000_000,
    {
        let mine: i64 = modulo(self.secs, DAY_SECS);
        let theirs: i64 = modulo(other.secs, DAY_SECS);
        let leap: i64 = if mine > theirs && other.nanos >= SECOND {
            1
        } else if mine < theirs && self.nanos >= SECOND {
            -1
        } else {
            0
        };
        (self.secs - other.secs + leap) as i128 * 1_000_000_000 + (self.nanos as i128
            - other.nanos as i128)
    }

    /// The whole seconds from `other` to `self`.
    pub fn seconds_from(&self, other: &LocalTime) -> (r: i64)
        requires
            self.wf(),
            other.wf(),
        ensures
            r == self.seconds_since(*other),
            -20_000_000_000_000 <= r <= 20_000_000_000_000,
    {
        let n: i128 = self.nanos_from(other);
        if n >= 0 {
            (n as u128 / SECOND as u128) as i64
        } else {
            -(((-n) as u128 / SECOND as u128) as i64)
        }
    }

    /// The whole minutes from `other` to `self`.
    pub fn minutes_from(&self, other: &LocalTime) -> (r: i64)
        requires
            self.wf(),
            other.wf(),
        ensures
            r == self.minutes_since(*other),
            -20_000_000_000_000 <= r <= 20_000_000_000_000,
    {
        let n: i64 = self.seconds_from(other);
        if n >= 0 {
            (n as u64 / 60) as i64
        } else {
            -(((-n) as u64 / 60) as i64)
        }
    }

    /// The point in time `n` seconds later.
    pub fn plus_seconds(&self, n: i64) -> (r: LocalTime)
        requires
            self.wf(),
            n > 0,
            self.secs + n <= MAX_SECS,
        ensures
            r.wf(),
            r.is_seconds_after(*self, n as int),
    {
        let nanos: u32 = if self.nanos >= SECOND { self.nanos - SECOND } else { self.nanos };
        match local_at(self.secs + n, nanos) {
            Some(t) => t,
            None => *self,
        }
    }

    /// The time to wait at `now` until this point in time, or `otherwise` where it has passed.
    pub fn wait_from(&self, now: &LocalTime, otherwise: Pause) -> (r: Pause)
        requires
            self.wf(),
            now.wf(),
        ensures
            self.nanos_since(*now) < 0 ==> r == otherwise,
            self.nanos_since(*now) >= 0 ==> r.total_nanos() == self.nanos_since(*now) && r.nanos
                < SECOND,
    {
        let n: i128 = self.nanos_from(now);
        if n < 0 {
            otherwise
        } else {
            Pause {
                secs: (n as u128 / 1_000_000_000) as u64,
                nanos: (n as u128 % 1_000_000_000) as u32,
            }
        }
    }
}

/// The quotient that rounds down.
pub fn floor_div(n: i64, d: i64) -> (r: i64)
    requires
        d > 1,
    ensures
        r == n as int / d as int,
{
    proof {
        assert(-0x8000_0000_0000_0000 <= n as int / d as int <= 0x7fff_ffff_ffff_ffff)
            by (nonlinear_arith)
            requires
                d > 1,
                -0x8000_0000_0000_0000 <= n <= 0x7fff_ffff_ffff_ffff,
        ;
    }
    n.checked_div_euclid(d).unwrap()
}

/// The remainder that is never negative.
pub fn modulo(n: i64, d: i64) -> (r: i64)
    requires
        d > 1,
    ensures
        r == n as int % d as int,
        0 <= r < d,
{
    n.checked_rem_euclid(d).unwrap()
}

/// `chrono::Local::now` reads the clock of the machine. Nothing is said of what it shows, only
/// that it is a point in time on the calendar, and no leap second. It does not return where the
/// clock stands before 1970 or past the end of the calendar.
#[verifier::external_body]
pub(crate) fn local_now() -> (now: LocalTime)
    ensures
        now.wf(),
        now.nanos < SECOND,
{
    let d = chrono::Local::now();
    LocalTime {
        secs: d.timestamp(),
        nanos: d.timestamp_subsec_nanos(),
        offset: d.offset().local_minus_utc(),
    }
}

/// `now` is what reading the clock of the machine brought.
pub closed spec fn told_by_clock(now: LocalTime) -> bool {
    call_ensures(local_now, (), now)
}

/// `chrono::DateTime::from_timestamp` with `with_timezone(&Local)` gives the local time at a second
/// and nanosecond of UTC, exactly where they lie on the calendar. The offset is what the time zone
/// of the machine has then; nothing more is said of it.
#[verifier::external_body]
pub(crate) fn local_at(secs: i64, nanos: u32) -> (r: Option<LocalTime>)
    ensures
        r is Some <==> valid_second(secs as int, nanos as int),
        r matches Some(t) ==> t.wf() && t.secs == secs && t.nanos == nanos,
{
    chrono::DateTime::from_timestamp(secs, nanos).map(
        |u|
            {
                let d = u.with_timezone(&chrono::Local);
                LocalTime { secs, nanos, offset: d.offset().local_minus_utc() }
            },
    )
}

/// `chrono::Local.from_local_datetime(..).single()` looks for the one point in time at which the
/// local clock shows a date and time. There may be none, where the clock is put forward, or two,
/// where it is put back: that depends on the time zone of the machine. Where there is one, the
/// local clock does show that date and time then.
#[verifier::external_body]
pub(crate) fn local_reading(local_secs: i64, nanos: u32) -> (r: Option<LocalTime>)
    requires
        valid_second(local_secs as int, nanos as int),
    ensures
        r matches Some(t) ==> t.wf() && t.local_secs() == local_secs && t.nanos == nanos,
{
    let naive = chrono::DateTime::from_timestamp(local_secs, nanos)?.naive_utc();
    let d = chrono::Local.from_local_datetime(&naive).single()?;
    Some(
        LocalTime {
            secs: d.timestamp(),
            nanos: d.timestamp_subsec_nanos(),
            offset: d.offset().local_minus_utc(),
        },
    )
}

/// `r` is what looking for a local date and time brought: it came from a search for just these
/// seconds and nanoseconds.
pub closed spec fn is_found(local_secs: i64, nanos: u32, r: Option<LocalTime>) -> bool {
    call_ensures(local_reading, (local_secs, nanos), r)
}

/// Looks for the one point in time at which the local clock shows a date and time.
pub fn find_local(local_secs: i64, nanos: u32) -> (r: Option<LocalTime>)
    requires
        valid_second(local_secs as int, nanos as int),
    ensures
        is_found(local_secs, nanos, r),
        r matches Some(t) ==> t.wf() && t.local_secs() == local_secs && t.nanos == nanos,
{
    local_reading(local_secs, nanos)
}

/// The point in time a number of milliseconds after the start of 1970 in UTC.
pub fn ms_to_local(ms: i64) -> (r: Option<LocalTime>)
    ensures
        r is Some <==> MIN_SECS <= ms as int / 1000 <= MAX_SECS,
        r matches Some(t) ==> t.wf() && t.secs == ms as int / 1000 && t.nanos == (ms as int % 1000)
            * 1_000_000,
{
    let nanos: u32 = modulo(ms, 1000) as u32 * 1_000_000;
    local_at(floor_div(ms, 1000), nanos)
}

// ---------------------------------------------------------------------------------------------
// Reading and showing times
// ---------------------------------------------------------------------------------------------

/// Hours and minutes: `%H:%M`.
pub open spec fn hours_minutes(local_secs: int) -> Seq<char> {
    let s = local_secs % DAY_SECS as int;
    two_digits((s / 3600) as nat) + ":"@ + two_digits((s / 60 % 60) as nat)
}

/// Hours, minutes and seconds: `%H:%M:%S`.
pub open spec fn hours_minutes_seconds(local_secs: int, nanos: int) -> Seq<char> {
    let s = local_secs % DAY_SECS as int;
    let leap: int = if nanos >= SECOND { 1 } else { 0 };
    hours_minutes(local_secs) + ":"@ + two_digits((s % 60 + leap) as nat)
}

pub open spec fn is_leap_year(y: int) -> bool {
    y % 4 == 0 && (y % 100 != 0 || y % 400 == 0)
}

pub open spec fn month_length(y: int, m: int) -> int {
    if m == 2 {
        if is_leap_year(y) {
            29
        } else {
            28
        }
    } else if m == 4 || m == 6 || m == 9 || m == 11 {
        30
    } else {
        31
    }
}

/// The days of a year before the month `m`.
pub open spec fn days_before_month(y: int, m: int) -> int
    decreases m,
{
    if m <= 1 {
        0
    } else {
        days_before_month(y, m - 1) + month_length(y, m - 1)
    }
}

/// The first day of a year, counted from the start of 1970.
pub open spec fn year_start(y: int) -> int {
    365 * (y - 1) + (y - 1) / 4 - (y - 1) / 100 + (y - 1) / 400 - 719_162
}

/// `day`, counted from the start of 1970, is the day `d` of the month `m` of the year `y` in the
/// Gregorian calendar.
pub open spec fn is_date_of(day: int, y: int, m: int, d: int) -> bool {
    &&& 1 <= m <= 12
    &&& 1 <= d <= month_length(y, m)
    &&& day == year_start(y) + days_before_month(y, m) + (d - 1)
}

/// The year, the month and the day of the month, of which there is exactly one for each day.
pub open spec fn date_of(day: int) -> (int, int, int) {
    choose|date: (int, int, int)| #[trigger] is_date_of(day, date.0, date.1, date.2)
}

/// A number that is not negative, with zeros before it to make four digits.
pub open spec fn four_digits(n: nat) -> Seq<char> {
    if n < 10 {
        "000"@ + digits(n)
    } else if n < 100 {
        "00"@ + digits(n)
    } else if n < 1000 {
        "0"@ + digits(n)
    } else {
        digits(n)
    }
}

/// A year: `%Y`. One that four digits do not hold has a sign.
pub open spec fn year_text(y: int) -> Seq<char> {
    if y < 0 {
        "-"@ + four_digits((-y) as nat)
    } else if y > 9999 {
        "+"@ + four_digits(y as nat)
    } else {
        four_digits(y as nat)
    }
}

/// Month and day: `%m-%d`.
pub open spec fn month_day(m: int, d: int) -> Seq<char> {
    two_digits(m as nat) + "-"@ + two_digits(d as nat)
}

/// The month, the day and the time: `%m-%d %H:%M`.
pub open spec fn month_day_time(local_secs: int) -> Seq<char> {
    let date = date_of(local_secs / DAY_SECS as int);
    month_day(date.1, date.2) + " "@ + hours_minutes(local_secs)
}

/// The date and the time: `%Y-%m-%d %H:%M`.
pub open spec fn full_date_time(local_secs: int) -> Seq<char> {
    let date = date_of(local_secs / DAY_SECS as int);
    year_text(date.0) + "-"@ + month_day(date.1, date.2) + " "@ + hours_minutes(local_secs)
}

/// The patterns in which times are shown.
pub open spec fn known_pattern(pattern: Seq<char>) -> bool {
    pattern == "%H:%M"@ || pattern == "%H:%M:%S"@ || pattern == "%m-%d %H:%M"@ || pattern
        == "%Y-%m-%d %H:%M"@
}

/// `chrono::DateTime::format` writes the local date and time in a pattern, also where they lie up
/// to a day past the ends of the calendar. Month, day, hours, minutes and seconds come out as two
/// digits each, and the date is that of the Gregorian calendar. A year has four digits; outside of
/// 0 to 9999 it has a sign before them, and more digits where it needs them.
#[verifier::external_body]
pub(crate) fn time_text(t: &LocalTime, pattern: &str) -> (r: String)
    requires
        t.wf(),
        known_pattern(pattern@),
    ensures
        pattern@ == "%H:%M"@ ==> r@ == hours_minutes(t.local_secs()),
        pattern@ == "%H:%M:%S"@ ==> r@ == hours_minutes_seconds(t.local_secs(), t.nanos as int),
        pattern@ == "%m-%d %H:%M"@ ==> r@ == month_day_time(t.local_secs()),
        pattern@ == "%Y-%m-%d %H:%M"@ ==> r@ == full_date_time(t.local_secs()),
{
    let naive = chrono::DateTime::from_timestamp(t.secs, 0).unwrap().naive_utc();
    let utc = naive.with_nanosecond(t.nanos).unwrap().and_utc();
    utc.with_timezone(&chrono::FixedOffset::east_opt(t.offset).unwrap()).format(pattern).to_string()
}

/// A decimal digit.
pub open spec fn is_digit(c: char) -> bool {
    '0' <= c <= '9'
}

/// The value of a decimal digit.
pub open spec fn digit_value(c: char) -> nat {
    (c as u32 - 48) as nat
}

/// The number of one or two digits at the start of a text, after any white space, and the rest of
/// the text.
pub open spec fn leading_number(s: Seq<char>) -> Option<(nat, Seq<char>)> {
    let t = trimmed_start(s);
    if t.len() == 0 || !is_digit(t[0]) {
        None
    } else if t.len() > 1 && is_digit(t[1]) {
        Some((10 * digit_value(t[0]) + digit_value(t[1]), t.skip(2)))
    } else {
        Some((digit_value(t[0]), t.skip(1)))
    }
}

/// The numbers of a text that is made of `n` of them with colons between, and of nothing after
/// them.
pub open spec fn numbers_in(s: Seq<char>, n: nat) -> Option<Seq<nat>>
    decreases n,
{
    match leading_number(s) {
        None => None,
        Some((v, rest)) => if n <= 1 {
            if rest.len() == 0 {
                Some(seq![v])
            } else {
                None
            }
        } else if rest.len() > 0 && rest[0] == ':' {
            match numbers_in(rest.skip(1), (n - 1) as nat) {
                Some(more) => Some(seq![v] + more),
                None => None,
            }
        } else {
            None
        },
    }
}

/// The time of day, in seconds and nanoseconds since midnight, that a text gives as hours and
/// minutes, or with seconds: `%H:%M`, `%H:%M:%S`. The second 60 is a leap second.
pub open spec fn clock_reading(text: Seq<char>, seconds: bool) -> Option<(u32, u32)> {
    match numbers_in(text, if seconds { 3 } else { 2 }) {
        None => None,
        Some(v) => {
            let s: nat = if seconds {
                v[2]
            } else {
                0
            };
            if v[0] < 24 && v[1] < 60 && s < 60 {
                Some(((v[0] * 3600 + v[1] * 60 + s) as u32, 0u32))
            } else if v[0] < 24 && v[1] < 60 && s == 60 {
                Some(((v[0] * 3600 + v[1] * 60 + 59) as u32, SECOND))
            } else {
                None
            }
        },
    }
}

/// `chrono::NaiveTime::parse_from_str` reads a time of day. It takes one or two digits each for
/// hours and minutes (and seconds, where the pattern has them), with a colon between and with white
/// space before each, and nothing else. Hours go up to 23, minutes up to 59, and seconds up to 60,
/// which stands for a leap second. Seconds that the pattern does not have are zero.
#[verifier::external_body]
pub(crate) fn read_clock(text: &str, pattern: &str) -> (r: Option<(u32, u32)>)
    requires
        pattern@ == "%H:%M"@ || pattern@ == "%H:%M:%S"@,
    ensures
        pattern@ == "%H:%M"@ ==> r == clock_reading(text@, false),
        pattern@ == "%H:%M:%S"@ ==> r == clock_reading(text@, true),
{
    chrono::NaiveTime::parse_from_str(text, pattern).ok().map(
        |t| (t.num_seconds_from_midnight(), t.nanosecond()),
    )
}

// ---------------------------------------------------------------------------------------------
// Laws
// ---------------------------------------------------------------------------------------------

/// The days of a year before December.
proof fn days_before_december(y: int)
    ensures
        days_before_month(y, 12) == if is_leap_year(y) {
            335int
        } else {
            334int
        },
{
    assert(days_before_month(y, 1) == 0);
    assert(days_before_month(y, 2) == 31);
    assert(days_before_month(y, 3) == 31 + month_length(y, 2));
    assert(days_before_month(y, 4) == 62 + month_length(y, 2));
    assert(days_before_month(y, 5) == 92 + month_length(y, 2));
    assert(days_before_month(y, 6) == 123 + month_length(y, 2));
    assert(days_before_month(y, 7) == 153 + month_length(y, 2));
    assert(days_before_month(y, 8) == 184 + month_length(y, 2));
    assert(days_before_month(y, 9) == 215 + month_length(y, 2));
    assert(days_before_month(y, 10) == 245 + month_length(y, 2));
    assert(days_before_month(y, 11) == 276 + month_length(y, 2));
}

/// A quotient grows by one where a multiple is reached.
proof fn quotient_steps(y: int)
    ensures
        y / 4 - (y - 1) / 4 == if y % 4 == 0 {
            1int
        } else {
            0int
        },
        y / 100 - (y - 1) / 100 == if y % 100 == 0 {
            1int
        } else {
            0int
        },
        y / 400 - (y - 1) / 400 == if y % 400 == 0 {
            1int
        } else {
            0int
        },
{
}

/// What is a multiple of 400 is one of 100, and what is one of 100 is one of 4.
proof fn multiples(y: int)
    ensures
        y % 100 == 0 ==> y % 4 == 0,
        y % 400 == 0 ==> y % 100 == 0,
{
    assert(y % 100 == 0 ==> y == 4 * (25 * (y / 100)));
    assert(y % 400 == 0 ==> y == 100 * (4 * (y / 400)));
}

/// The months of a year make up the year.
proof fn year_length(y: int)
    ensures
        days_before_month(y, 12) + 31 == year_start(y + 1) - year_start(y),
{
    days_before_december(y);
    quotient_steps(y);
    multiples(y);
    let (a, b, c) = (y / 4, y / 100, y / 400);
    let (p, q, r) = ((y - 1) / 4, (y - 1) / 100, (y - 1) / 400);
    assert(year_start(y + 1) == 365 * y + a - b + c - 719_162);
    assert(year_start(y) == 365 * (y - 1) + p - q + r - 719_162);
    assert(a - p - (b - q) + (c - r) == if is_leap_year(y) {
        1int
    } else {
        0int
    });
}

proof fn years_in_order(a: int, b: int)
    requires
        a <= b,
    ensures
        year_start(a) <= year_start(b),
    decreases b - a,
{
    if a < b {
        years_in_order(a, b - 1);
        year_length(b - 1);
        months_in_order(b - 1, 1, 12);
    }
}

proof fn months_in_order(y: int, a: int, b: int)
    requires
        1 <= a < b,
    ensures
        0 <= days_before_month(y, a),
        days_before_month(y, a) + month_length(y, a) <= days_before_month(y, b),
    decreases b,
{
    if a < b - 1 {
        months_in_order(y, a, b - 1);
    } else if a > 1 {
        months_in_order(y, a - 1, a);
    }
}

/// A day of a year lies before the start of the next year.
proof fn day_within_year(day: int, y: int, m: int, d: int)
    requires
        is_date_of(day, y, m, d),
    ensures
        year_start(y) <= day < year_start(y + 1),
{
    year_length(y);
    if m < 12 {
        months_in_order(y, m, 12);
    } else {
        months_in_order(y, 1, 12);
    }
}

/// A day has one date only, so that `date_of` is the date of the calendar.
pub proof fn date_is_unique(day: int, y: int, m: int, d: int)
    requires
        is_date_of(day, y, m, d),
    ensures
        date_of(day) == (y, m, d),
{
    let date = (y, m, d);
    assert(is_date_of(day, date.0, date.1, date.2));
    let (a, b, c) = date_of(day);
    day_within_year(day, y, m, d);
    day_within_year(day, a, b, c);
    if a < y {
        years_in_order(a + 1, y);
    } else if y < a {
        years_in_order(y + 1, a);
    } else if b < m {
        months_in_order(y, b, m);
    } else if m < b {
        months_in_order(y, m, b);
    }
}

proof fn find_year(day: int, from: int) -> (y: int)
    requires
        year_start(from) <= day,
    ensures
        year_start(y) <= day < year_start(y + 1),
    decreases day - year_start(from),
{
    year_length(from);
    months_in_order(from, 1, 12);
    if day < year_start(from + 1) {
        from
    } else {
        find_year(day, from + 1)
    }
}

proof fn find_month(day: int, y: int, from: int) -> (m: int)
    requires
        1 <= from <= 12,
        year_start(y) + days_before_month(y, from) <= day < year_start(y + 1),
    ensures
        1 <= m <= 12,
        year_start(y) + days_before_month(y, m) <= day < year_start(y) + days_before_month(y, m)
            + month_length(y, m),
    decreases 12 - from,
{
    year_length(y);
    if from == 12 || day < year_start(y) + days_before_month(y, from + 1) {
        from
    } else {
        find_month(day, y, from + 1)
    }
}

/// Every day has a date, and `date_of` is that date.
pub proof fn every_day_has_a_date(day: int)
    ensures
        is_date_of(day, date_of(day).0, date_of(day).1, date_of(day).2),
{
    let y = find_year(
        day,
        if day < 0 {
            day
        } else {
            1
        },
    );
    let m = find_month(day, y, 1);
    date_is_unique(day, y, m, day - year_start(y) - days_before_month(y, m) + 1);
}

/// What is read is a time of day.
pub proof fn a_reading_is_a_time_of_day(text: Seq<char>, seconds: bool)
    ensures
        clock_reading(text, seconds) matches Some(t) ==> (DayTime { secs: t.0, nanos: t.1 }).wf(),
{
}

proof fn two_digits_are_two(n: nat)
    requires
        n < 100,
    ensures
        two_digits(n) == seq![digit(n / 10), digit(n % 10)],
        is_digit(digit(n / 10)) && digit_value(digit(n / 10)) == n / 10,
        is_digit(digit(n % 10)) && digit_value(digit(n % 10)) == n % 10,
{
    reveal_with_fuel(digits, 2);
    assert(two_digits(n) =~= seq![digit(n / 10), digit(n % 10)]);
}

/// Two digits are read as their number, and what follows them is left.
proof fn two_digits_are_read(n: nat, rest: Seq<char>)
    requires
        n < 100,
    ensures
        leading_number(two_digits(n) + rest) == Some((n, rest)),
{
    two_digits_are_two(n);
    let s = two_digits(n) + rest;
    assert(!blank(s[0]));
    assert(trimmed_start(s) == s);
    assert(s.skip(2) =~= rest);
}

/// A time of day that is written as hours and minutes is read back as it was.
pub proof fn written_minutes_are_read(local_secs: int)
    ensures
        clock_reading(hours_minutes(local_secs), false) == Some(
            ((local_secs % 86_400 / 60 * 60) as u32, 0u32),
        ),
{
    let s = local_secs % DAY_SECS as int;
    let h = (s / 3600) as nat;
    let m = (s / 60 % 60) as nat;
    reveal_strlit(":");
    let tail = two_digits(m);
    two_digits_are_read(h, ":"@ + tail);
    two_digits_are_read(m, Seq::empty());
    assert(hours_minutes(local_secs) =~= two_digits(h) + (":"@ + tail));
    assert((":"@ + tail).skip(1) =~= tail + Seq::<char>::empty());
    reveal_with_fuel(numbers_in, 3);
    assert(h * 3600 + m * 60 == s / 60 * 60);
}

/// A time of day that is written with seconds, and is no leap second, is read back as it was.
pub proof fn written_seconds_are_read(local_secs: int)
    ensures
        clock_reading(hours_minutes_seconds(local_secs, 0), true) == Some(
            ((local_secs % 86_400) as u32, 0u32),
        ),
{
    let s = local_secs % DAY_SECS as int;
    let h = (s / 3600) as nat;
    let m = (s / 60 % 60) as nat;
    let c = (s % 60) as nat;
    reveal_strlit(":");
    let last = two_digits(c);
    let tail = two_digits(m) + (":"@ + last);
    two_digits_are_read(h, ":"@ + tail);
    two_digits_are_read(m, ":"@ + last);
    two_digits_are_read(c, Seq::empty());
    assert(hours_minutes_seconds(local_secs, 0) =~= two_digits(h) + (":"@ + tail));
    assert((":"@ + tail).skip(1) =~= tail);
    assert((":"@ + last).skip(1) =~= last + Seq::<char>::empty());
    reveal_with_fuel(numbers_in, 4);
    assert(h * 3600 + m * 60 + c == s);
}

/// The nanoseconds since the start of 1970.
pub open spec fn total_nanos(t: LocalTime) -> int {
    t.secs * 1_000_000_000 + t.nanos
}

/// Away from leap seconds, times are compared and counted by their nanoseconds; whole seconds and
/// whole minutes are what is left when the fraction is cut off.
pub proof fn times_differ_by_their_nanoseconds(t: LocalTime, u: LocalTime)
    requires
        t.nanos < SECOND,
        u.nanos < SECOND,
    ensures
        t.nanos_since(u) == total_nanos(t) - total_nanos(u),
        t.later(u) <==> total_nanos(t) > total_nanos(u),
        t.same_instant(u) <==> total_nanos(t) == total_nanos(u),
        total_nanos(t) >= total_nanos(u) ==> t.seconds_since(u) * 1_000_000_000 <= t.nanos_since(u)
            < (t.seconds_since(u) + 1) * 1_000_000_000,
        total_nanos(t) >= total_nanos(u) ==> t.minutes_since(u) * 60 <= t.seconds_since(u) < (
        t.minutes_since(u) + 1) * 60,
        t.seconds_since(u) == -u.seconds_since(t),
        t.minutes_since(u) == -u.minutes_since(t),
{
}

/// A number of seconds later is that many seconds later.
pub proof fn seconds_after_are_seconds_after(t: LocalTime, u: LocalTime, n: int)
    requires
        t.is_seconds_after(u, n),
        u.nanos < SECOND,
    ensures
        total_nanos(t) == total_nanos(u) + n * 1_000_000_000,
{
}

/// The local day is the one within whose seconds the local clock stands.
pub proof fn local_days_have_their_seconds(t: LocalTime)
    ensures
        t.local_day() * 86_400 <= t.secs + t.offset < (t.local_day() + 1) * 86_400,
{
}

/// One of two points in time is later, or they are the same, and what is later than a later one is
/// later.
pub proof fn later_is_an_order(a: LocalTime, b: LocalTime, c: LocalTime)
    ensures
        a.later(b) || b.later(a) || a.same_instant(b),
        !(a.later(b) && b.later(a)),
        a.later(b) && b.later(c) ==> a.later(c),
{
}

/// Days follow each other as in the Gregorian calendar: the count starts on the first of January
/// 1970, after a day comes the next of the month, after the last of a month the first of the next
/// month, and after the last of December the first of January.
pub proof fn dates_follow_each_other(day: int, y: int, m: int, d: int)
    requires
        is_date_of(day, y, m, d),
    ensures
        is_date_of(0, 1970, 1, 1),
        d < month_length(y, m) ==> is_date_of(day + 1, y, m, d + 1),
        d == month_length(y, m) && m < 12 ==> is_date_of(day + 1, y, m + 1, 1),
        m == 12 && d == 31 ==> is_date_of(day + 1, y + 1, 1, 1),
        28 <= month_length(y, m) <= 31,
        m == 2 ==> (month_length(y, m) == 29 <==> y % 4 == 0 && (y % 100 != 0 || y % 400 == 0)),
        m == 2 ==> month_length(y, m) <= 29,
        m == 4 || m == 6 || m == 9 || m == 11 ==> month_length(y, m) == 30,
        m == 1 || m == 3 || m == 5 || m == 7 || m == 8 || m == 10 || m == 12 ==> month_length(y, m)
            == 31,
{
    year_length(y);
}

/// A date is shown by its own month and day, and by its own year.
pub proof fn dates_are_shown(local_secs: int, y: int, m: int, d: int)
    requires
        is_date_of(local_secs / 86_400, y, m, d),
    ensures
        month_day_time(local_secs) == two_digits(m as nat) + "-"@ + two_digits(d as nat) + " "@
            + hours_minutes(local_secs),
        1000 <= y <= 9999 ==> full_date_time(local_secs) == digits(y as nat) + "-"@
            + month_day_time(local_secs),
{
    date_is_unique(local_secs / 86_400, y, m, d);
    assert(1000 <= y <= 9999 ==> full_date_time(local_secs) =~= digits(y as nat) + "-"@
        + month_day_time(local_secs));
}

/// Seconds to come from one time to another are those to go back, leap seconds or not.
pub proof fn going_back_takes_as_long(t: LocalTime, u: LocalTime)
    ensures
        t.nanos_since(u) == -u.nanos_since(t),
        t.seconds_since(u) == -u.seconds_since(t),
        t.minutes_since(u) == -u.minutes_since(t),
        t.nanos_since(t) == 0,
{
}

/// What was found was looked for: it came from searching the local clock for these very seconds and
/// nanoseconds.
proof fn found_by_searching(local_secs: i64, nanos: u32, r: Option<LocalTime>)
    requires
        is_found(local_secs, nanos, r),
    ensures
        call_ensures(local_reading, (local_secs, nanos), r),
        r matches Some(t) ==> t.wf() && t.secs + t.offset == local_secs && t.nanos == nanos,
{
}

/// What the clock told was asked of it.
proof fn told_when_asked(now: LocalTime)
    requires
        told_by_clock(now),
    ensures
        call_ensures(local_now, (), now),
        now.wf(),
{
}

/// A clock time that is written begins and ends with a digit, so that no blank is there to be
/// trimmed. Hours, minutes and seconds cannot be taken for hours and minutes.
pub proof fn clock_texts_have_digits_at_the_ends(local_secs: int)
    ensures
        ({
            let short = hours_minutes(local_secs);
            let long = hours_minutes_seconds(local_secs, 0);
            &&& short.len() == 5
            &&& !blank(short[0]) && !blank(short.last())
            &&& long.len() == 8
            &&& !blank(long[0]) && !blank(long.last())
            &&& clock_reading(long, false) is None
        }),
{
    let s = local_secs % DAY_SECS as int;
    let h = (s / 3600) as nat;
    let m = (s / 60 % 60) as nat;
    let c = (s % 60) as nat;
    reveal_strlit(":");
    two_digits_are_two(h);
    two_digits_are_two(m);
    two_digits_are_two(c);
    let last = two_digits(c);
    let tail = two_digits(m) + (":"@ + last);
    two_digits_are_read(h, ":"@ + tail);
    two_digits_are_read(m, ":"@ + last);
    let long = hours_minutes_seconds(local_secs, 0);
    assert(long =~= two_digits(h) + (":"@ + tail));
    assert((":"@ + tail).skip(1) =~= tail);
    reveal_with_fuel(numbers_in, 3);
}

/// A leap second is one more second to live through for a time of day behind it, and is not counted
/// where it is not passed.
pub proof fn leap_seconds_count_where_they_are_passed(t: LocalTime, u: LocalTime)
    ensures
        ({
            let plain = total_nanos(t) - total_nanos(u);
            let (a, b) = (t.secs as int % 86_400, u.secs as int % 86_400);
            &&& a > b && u.nanos >= 1_000_000_000 ==> t.nanos_since(u) == plain + 1_000_000_000
            &&& a > b && u.nanos < 1_000_000_000 ==> t.nanos_since(u) == plain
            &&& a == b ==> t.nanos_since(u) == plain
            &&& a < b && t.nanos >= 1_000_000_000 ==> t.nanos_since(u) == plain - 1_000_000_000
            &&& a < b && t.nanos < 1_000_000_000 ==> t.nanos_since(u) == plain
            &&& t.nanos_since(u) >= 0 ==> 60_000_000_000 * t.minutes_since(u) <= t.nanos_since(u)
                < 60_000_000_000 * (t.minutes_since(u) + 1)
        }),
{
    let n = t.nanos_since(u);
    if n >= 0 {
        let s = n / 1_000_000_000;
        assert(1_000_000_000 * s <= n < 1_000_000_000 * (s + 1));
        let m = s / 60;
        assert(60 * m <= s < 60 * (m + 1));
    }
}

} // verus!
