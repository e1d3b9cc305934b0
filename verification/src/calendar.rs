//! Calendar arithmetic for day-partitioned statistics: the UTC day
//! number of a timestamp, and the civil (year, month, day) form of a day
//! number, used to build the networked engine's day-bucket keys.

use vstd::prelude::*;

verus! {

use vstd::arithmetic::div_mod::{
    lemma_div_is_ordered,
    lemma_div_minus_one,
    lemma_fundamental_div_mod,
};

/// The UTC day number (days since 1970-01-01) holding timestamp `ts`,
/// by Euclidean division, so day boundaries fall exactly at midnight.
pub open spec fn day_of(ts: int) -> int {
    ts / 86400
}

/// Gregorian leap-year rule.
pub open spec fn is_leap_year(y: int) -> bool {
    y % 4 == 0 && (y % 100 != 0 || y % 400 == 0)
}

pub open spec fn days_in_year(y: int) -> int {
    if is_leap_year(y) {
        366
    } else {
        365
    }
}

pub open spec fn days_in_month(y: int, m: int) -> int {
    if m == 2 {
        if is_leap_year(y) {
            29
        } else {
            28
        }
    } else if m == 4 || m == 6 || m == 9 || m == 11 {
        30
    } else {
        31
    }
}

/// Days from 1970-01-01 up to the start of year `y`.
pub open spec fn days_before_year(y: int) -> int
    decreases y - 1970,
{
    if y <= 1970 {
        0
    } else {
        days_before_year(y - 1) + days_in_year(y - 1)
    }
}

/// Days from the start of year `y` up to the start of month `m`.
pub open spec fn days_before_month(y: int, m: int) -> int
    decreases m - 1,
{
    if m <= 1 {
        0
    } else {
        days_before_month(y, m - 1) + days_in_month(y, m - 1)
    }
}

/// The day number of the civil date `y`-`m`-`d`.
pub open spec fn civil_to_days(y: int, m: int, d: int) -> int {
    days_before_year(y) + days_before_month(y, m) + (d - 1)
}

/// The year holding day `rem` counted from the start of year `y`,
/// together with the days left over within that year.
pub open spec fn year_of(y: int, rem: int) -> (int, int)
    decreases rem,
{
    if rem < days_in_year(y) || rem < 0 {
        (y, rem)
    } else {
        year_of(y + 1, rem - days_in_year(y))
    }
}

/// The month of year `y` holding day `rem` counted from the start of
/// month `m`, together with the days left over within that month.
pub open spec fn month_of(y: int, m: int, rem: int) -> (int, int)
    decreases 13 - m,
{
    if rem < days_in_month(y, m) || rem < 0 || m >= 13 {
        (m, rem)
    } else {
        month_of(y, m + 1, rem - days_in_month(y, m))
    }
}

/// The civil date (year, month, day-of-month) of day number `day`.
pub open spec fn civil_of_day(day: int) -> (int, int, int) {
    let (y, rem) = year_of(1970, day);
    let (m, d0) = month_of(y, 1, rem);
    (y, m, d0 + 1)
}

/// The `YYYYMMDD` decimal key of day number `day`.
pub open spec fn yyyymmdd_of(day: int) -> int {
    let (y, m, d) = civil_of_day(day);
    y * 10000 + m * 100 + d
}

/// Day numbers below this bound have a year before 10000, so their
/// `YYYYMMDD` form keeps four year digits.
pub open spec fn max_representable_day() -> int {
    days_before_year(10000)
}

/// Timestamps in `[0, this)` have a representable day key.
pub open spec fn max_representable_ts() -> int {
    max_representable_day() * 86400
}

/// A timestamp and everything up to one day before it share at most two
/// consecutive day numbers: any event inside a window that reaches back
/// no more than 24 hours from `now` lies on `now`'s day or the day
/// before. This is why scanning the two buckets "today" and "yesterday"
/// is enough for the default stat window.
pub proof fn lemma_default_window_two_days(since: int, now: int, t: int)
    requires
        now - 86400 <= since,
        since <= t <= now,
    ensures
        day_of(now) - 1 <= day_of(t) <= day_of(now),
{
    lemma_div_is_ordered(t, now, 86400);
    lemma_div_is_ordered(now - 86400, t, 86400);
    lemma_div_minus_one(now, 86400);
}

/// Monotonicity of the day function.
pub proof fn lemma_day_of_ordered(t1: int, t2: int)
    requires
        t1 <= t2,
    ensures
        day_of(t1) <= day_of(t2),
{
    lemma_div_is_ordered(t1, t2, 86400);
}

/// Exec mirror of `days_in_year`.
pub fn days_in_year_x(y: u64) -> (r: u64)
    ensures
        r == days_in_year(y as int),
{
    if y % 4 == 0 && (y % 100 != 0 || y % 400 == 0) {
        366
    } else {
        365
    }
}

/// Exec mirror of `days_in_month`.
pub fn days_in_month_x(y: u64, m: u64) -> (r: u64)
    ensures
        r == days_in_month(y as int, m as int),
{
    if m == 2 {
        if y % 4 == 0 && (y % 100 != 0 || y % 400 == 0) {
            29
        } else {
            28
        }
    } else if m == 4 || m == 6 || m == 9 || m == 11 {
        30
    } else {
        31
    }
}

/// The day number of a non-negative timestamp.
pub fn day_number(ts: u64) -> (r: u64)
    ensures
        r == day_of(ts as int),
        r <= ts,
{
    proof {
        vstd::arithmetic::div_mod::lemma_div_nonincreasing(ts as int, 86400);
        vstd::arithmetic::div_mod::lemma_div_pos_is_pos(ts as int, 86400);
    }
    ts / 86400
}

/// Later years never lie before earlier ones.
proof fn lemma_days_before_year_monotone(a: int, b: int)
    requires
        a <= b,
    ensures
        days_before_year(a) <= days_before_year(b),
    decreases b - a,
{
    if a < b {
        lemma_days_before_year_monotone(a, b - 1);
    }
}

/// The civil date of day number `day`: the unique in-range triple whose
/// `civil_to_days` is `day`, equal to the spec-level `civil_of_day`.
/// Days at or past year 10000 have no four-digit year key and are
/// refused.
pub fn civil_from_days(day: u64) -> (r: Option<(u64, u64, u64)>)
    ensures
        match r {
            Some(c) => {
                &&& day < max_representable_day()
                &&& (c.0 as int, c.1 as int, c.2 as int) == civil_of_day(day as int)
                &&& civil_to_days(c.0 as int, c.1 as int, c.2 as int) == day
                &&& 1970 <= c.0 < 10000
                &&& 1 <= c.1 <= 12
                &&& 1 <= c.2 <= days_in_month(c.0 as int, c.1 as int)
            },
            None => day >= max_representable_day(),
        },
{
    let mut y: u64 = 1970;
    let mut rem: u64 = day;
    loop
        invariant
            1970 <= y <= 9999,
            days_before_year(y as int) + rem == day,
            year_of(1970, day as int) == year_of(y as int, rem as int),
        ensures
            rem < days_in_year(y as int),
            1970 <= y <= 9999,
            days_before_year(y as int) + rem == day,
            year_of(1970, day as int) == year_of(y as int, rem as int),
        decreases rem,
    {
        let len = days_in_year_x(y);
        if rem < len {
            break ;
        }
        if y == 9999 {
            proof {
                assert(days_before_year(10000) == days_before_year(9999) + days_in_year(9999));
            }
            return None;
        }
        rem = rem - len;
        y = y + 1;
    }
    proof {
        lemma_days_before_year_monotone(y as int + 1, 10000);
        assert(days_before_year(y as int + 1) == days_before_year(y as int) + days_in_year(
            y as int,
        ));
    }
    assert(year_of(y as int, rem as int) == (y as int, rem as int));
    let ghost rem1: int = rem as int;
    let mut m: u64 = 1;
    loop
        invariant
            1 <= m <= 12,
            rem < days_in_year(y as int) - days_before_month(y as int, m as int),
            days_before_month(y as int, m as int) + rem == rem1,
            days_before_year(y as int) + rem1 == day,
            1970 <= y <= 9999,
            month_of(y as int, 1, rem1) == month_of(y as int, m as int, rem as int),
        ensures
            rem < days_in_month(y as int, m as int),
            1 <= m <= 12,
            days_before_month(y as int, m as int) + rem == rem1,
            days_before_year(y as int) + rem1 == day,
            month_of(y as int, 1, rem1) == month_of(y as int, m as int, rem as int),
        decreases 12 - m,
    {
        let len = days_in_month_x(y, m);
        if rem < len {
            break ;
        }
        proof {
            if m == 12 {
                lemma_year_has_twelve_months(y as int);
                assert(false);
            }
        }
        rem = rem - len;
        m = m + 1;
    }
    assert(month_of(y as int, m as int, rem as int) == (m as int, rem as int));
    Some((y, m, rem + 1))
}

/// The twelve months of a year make up exactly its days.
proof fn lemma_year_has_twelve_months(y: int)
    ensures
        days_before_month(y, 13) == days_in_year(y),
{
    reveal_with_fuel(days_before_month, 14);
}

/// The `YYYYMMDD` key of day number `day`, as an integer; refused past
/// year 9999.
pub fn yyyymmdd_number(day: u64) -> (r: Option<u64>)
    ensures
        match r {
            Some(n) => day < max_representable_day() && n == yyyymmdd_of(day as int) && n
                < 100000000,
            None => day >= max_representable_day(),
        },
{
    match civil_from_days(day) {
        Some((y, m, d)) => Some(y * 10000 + m * 100 + d),
        None => None,
    }
}

} // verus!
