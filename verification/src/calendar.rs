//! The proleptic Gregorian calendar, as plain arithmetic on day numbers.
//!
//! A day number counts days since 1970-01-01, which is day 0; earlier days are
//! negative.

use vstd::prelude::*;

verus! {

pub const SECONDS_PER_DAY: i64 = 86_400;

pub const SECONDS_PER_HOUR: i64 = 3_600;

pub open spec fn is_leap_year(y: int) -> bool {
    y % 4 == 0 && (y % 100 != 0 || y % 400 == 0)
}

pub open spec fn days_in_month(y: int, m: int) -> int {
    if m == 2 {
        if is_leap_year(y) {
            29
        } else {
            28
        }
    } else if m == 4 || m == 6 || m == 9 || m == 11 {
        30
    } else {
        31
    }
}

/// How many of the years 1 to `y` are leap years (continued below year 1).
pub open spec fn leap_years_through(y: int) -> int {
    y / 4 - y / 100 + y / 400
}

/// The day number of January 1 of year `y`.
pub open spec fn days_before_year(y: int) -> int {
    365 * (y - 1970) + leap_years_through(y - 1) - leap_years_through(1969)
}

/// How many days of year `y` come before month `m`.
pub open spec fn days_before_month(y: int, m: int) -> int
    decreases m,
{
    if m <= 1 {
        0
    } else {
        days_before_month(y, m - 1) + days_in_month(y, m - 1)
    }
}

pub open spec fn valid_date(y: int, m: int, d: int) -> bool {
    1 <= m <= 12 && 1 <= d <= days_in_month(y, m)
}

pub open spec fn day_number(y: int, m: int, d: int) -> int {
    days_before_year(y) + days_before_month(y, m) + d - 1
}

/// The day on which a second of Unix time falls.
pub open spec fn day_of(secs: int) -> int {
    secs / 86_400
}

/// Seconds since midnight of a second of Unix time.
pub open spec fn second_of_day(secs: int) -> int {
    secs % 86_400
}

/// 0 for Monday up to 6 for Sunday; day 0 was a Thursday.
pub open spec fn weekday_number(day: int) -> int {
    (day + 3) % 7
}

/// The day number of the same day of the month `k` months before `y`-`m`-`d`,
/// or of that month's last day where it has no such day.
pub open spec fn months_before(y: int, m: int, d: int, k: int) -> int {
    let t = 12 * y + (m - 1) - k;
    let y2 = t / 12;
    let m2 = t % 12 + 1;
    let last = days_in_month(y2, m2);
    day_number(y2, m2, if d <= last { d } else { last })
}

/// `earlier` is `k` calendar months before `day`.
pub open spec fn is_months_before(day: int, k: int, earlier: int) -> bool {
    exists|y: int, m: int, d: int|
        #![trigger day_number(y, m, d)]
        valid_date(y, m, d) && day_number(y, m, d) == day && earlier == months_before(y, m, d, k)
}

/// The day number of the first day of month `t`, months counted from January of
/// year 0.
#[verifier::opaque]
spec fn month_start(t: int) -> int {
    days_before_year(t / 12) + days_before_month(t / 12, t % 12 + 1)
}

proof fn lemma_days_before_months(y: int)
    ensures
        days_before_month(y, 1) == 0,
        days_before_month(y, 2) == 31,
        days_before_month(y, 3) == 31 + days_in_month(y, 2),
        days_before_month(y, 4) == 62 + days_in_month(y, 2),
        days_before_month(y, 5) == 92 + days_in_month(y, 2),
        days_before_month(y, 6) == 123 + days_in_month(y, 2),
        days_before_month(y, 7) == 153 + days_in_month(y, 2),
        days_before_month(y, 8) == 184 + days_in_month(y, 2),
        days_before_month(y, 9) == 215 + days_in_month(y, 2),
        days_before_month(y, 10) == 245 + days_in_month(y, 2),
        days_before_month(y, 11) == 276 + days_in_month(y, 2),
        days_before_month(y, 12) == 306 + days_in_month(y, 2),
{
    reveal_with_fuel(days_before_month, 13);
}

proof fn lemma_leap_step_4(y: int)
    ensures
        y / 4 == (y - 1) / 4 + (if y % 4 == 0 {
            1int
        } else {
            0int
        }),
{
}

proof fn lemma_leap_step_100(y: int)
    ensures
        y / 100 == (y - 1) / 100 + (if y % 100 == 0 {
            1int
        } else {
            0int
        }),
        y % 100 == 0 ==> y % 4 == 0,
{
}

proof fn lemma_leap_step_400(y: int)
    ensures
        y / 400 == (y - 1) / 400 + (if y % 400 == 0 {
            1int
        } else {
            0int
        }),
        y % 400 == 0 ==> y % 100 == 0,
{
}

proof fn lemma_next_year(y: int)
    ensures
        days_before_year(y + 1) == days_before_year(y) + (if is_leap_year(y) {
            366int
        } else {
            365int
        }),
{
    lemma_leap_step_4(y);
    lemma_leap_step_100(y);
    lemma_leap_step_400(y);
    let (a, b, c) = (y / 4, y / 100, y / 400);
    let (a1, b1, c1) = ((y - 1) / 4, (y - 1) / 100, (y - 1) / 400);
    assert(leap_years_through(y) == a - b + c);
    assert(leap_years_through(y - 1) == a1 - b1 + c1);
}

/// A month starts where the one before it ends.
proof fn lemma_next_month(t: int)
    ensures
        month_start(t + 1) == month_start(t) + days_in_month(t / 12, t % 12 + 1),
{
    reveal(month_start);
    let y = t / 12;
    lemma_days_before_months(y);
    lemma_days_before_months(y + 1);
    lemma_next_year(y);
    if t % 12 == 11 {
        assert((t + 1) / 12 == y + 1 && (t + 1) % 12 == 0);
    } else {
        assert((t + 1) / 12 == y && (t + 1) % 12 == t % 12 + 1);
    }
}

proof fn lemma_later_month(s: int, t: int)
    requires
        s < t,
    ensures
        month_start(t) >= month_start(s) + days_in_month(s / 12, s % 12 + 1),
    decreases t - s,
{
    lemma_next_month(s);
    if s + 1 < t {
        lemma_later_month(s + 1, t);
    }
}

proof fn lemma_month_of_date(y: int, m: int, d: int)
    requires
        valid_date(y, m, d),
    ensures
        (12 * y + (m - 1)) / 12 == y,
        (12 * y + (m - 1)) % 12 == m - 1,
        day_number(y, m, d) == month_start(12 * y + (m - 1)) + d - 1,
{
    reveal(month_start);
}

/// A day has one date: two dates with the same day number are the same date.
pub proof fn date_of_day_is_unique(y1: int, m1: int, d1: int, y2: int, m2: int, d2: int)
    requires
        valid_date(y1, m1, d1),
        valid_date(y2, m2, d2),
        day_number(y1, m1, d1) == day_number(y2, m2, d2),
    ensures
        y1 == y2 && m1 == m2 && d1 == d2,
{
    lemma_month_of_date(y1, m1, d1);
    lemma_month_of_date(y2, m2, d2);
    let t1 = 12 * y1 + (m1 - 1);
    let t2 = 12 * y2 + (m2 - 1);
    if t1 < t2 {
        lemma_later_month(t1, t2);
    }
    if t2 < t1 {
        lemma_later_month(t2, t1);
    }
}

/// Every day from 1970-01-01 on has a date.
pub proof fn day_has_a_date(day: int) -> (date: (int, int, int))
    requires
        day >= 0,
    ensures
        valid_date(date.0, date.1, date.2),
        day_number(date.0, date.1, date.2) == day,
    decreases day,
{
    if day == 0 {
        lemma_days_before_months(1970);
        (1970, 1, 1)
    } else {
        let (y, m, d) = day_has_a_date(day - 1);
        if d < days_in_month(y, m) {
            (y, m, d + 1)
        } else {
            let t = 12 * y + (m - 1);
            let (y2, m2) = ((t + 1) / 12, (t + 1) % 12 + 1);
            lemma_month_of_date(y, m, d);
            lemma_next_month(t);
            lemma_month_of_date(y2, m2, 1);
            (y2, m2, 1)
        }
    }
}

/// Going back `k` months from a day leads to one day only.
pub proof fn months_before_is_unique(day: int, k: int, a: int, b: int)
    requires
        is_months_before(day, k, a),
        is_months_before(day, k, b),
    ensures
        a == b,
{
    let (y1, m1, d1) = choose|y: int, m: int, d: int|
        #![trigger day_number(y, m, d)]
        valid_date(y, m, d) && day_number(y, m, d) == day && a == months_before(y, m, d, k);
    let (y2, m2, d2) = choose|y: int, m: int, d: int|
        #![trigger day_number(y, m, d)]
        valid_date(y, m, d) && day_number(y, m, d) == day && b == months_before(y, m, d, k);
    date_of_day_is_unique(y1, m1, d1, y2, m2, d2);
}

proof fn lemma_earlier_months(y: int, m: int, i: int)
    requires
        1 <= m <= 12,
        0 <= i <= 3,
    ensures
        (12 * y + (m - 1) - i) % 12 + 1 == (if m > i {
            m - i
        } else {
            m - i + 12
        }),
{
}

/// Three calendar months span 89 to 92 days.
pub proof fn three_months_span(day: int, earlier: int)
    requires
        is_months_before(day, 3, earlier),
    ensures
        89 <= day - earlier <= 92,
{
    let (y, m, d) = choose|y: int, m: int, d: int|
        #![trigger day_number(y, m, d)]
        valid_date(y, m, d) && day_number(y, m, d) == day && earlier == months_before(y, m, d, 3);
    let t = 12 * y + (m - 1);
    lemma_month_of_date(y, m, d);
    lemma_next_month(t - 3);
    lemma_next_month(t - 2);
    lemma_next_month(t - 1);
    lemma_earlier_months(y, m, 1);
    lemma_earlier_months(y, m, 2);
    lemma_earlier_months(y, m, 3);
    let (y3, m3) = ((t - 3) / 12, (t - 3) % 12 + 1);
    let last = days_in_month(y3, m3);
    let d3 = if d <= last {
        d
    } else {
        last
    };
    assert(12 * y3 + (m3 - 1) == t - 3);
    lemma_month_of_date(y3, m3, d3);
    assert(earlier == month_start(t - 3) + d3 - 1);
}

/// Days are numbered one after the other, from month to month and from year to year, and
/// 1970-01-01 is day 0.
pub proof fn days_follow_one_another(y: int, m: int, d: int)
    requires
        valid_date(y, m, d),
    ensures
        day_number(1970, 1, 1) == 0,
        d < days_in_month(y, m) ==> valid_date(y, m, d + 1) && day_number(y, m, d + 1)
            == day_number(y, m, d) + 1,
        d == days_in_month(y, m) && m < 12 ==> valid_date(y, m + 1, 1) && day_number(y, m + 1, 1)
            == day_number(y, m, d) + 1,
        d == days_in_month(y, m) && m == 12 ==> valid_date(y + 1, 1, 1) && day_number(y + 1, 1, 1)
            == day_number(y, m, d) + 1,
{
    lemma_days_before_months(y);
    lemma_days_before_months(1970);
    lemma_days_before_months(y + 1);
}

/// Months have 31 or 30 days, but for February, which has 28 and in leap years 29: those of
/// every fourth year, but of the full centuries only every fourth.
pub proof fn months_have_their_lengths(y: int, m: int)
    requires
        1 <= m <= 12,
    ensures
        m == 1 || m == 3 || m == 5 || m == 7 || m == 8 || m == 10 || m == 12 ==> days_in_month(y, m)
            == 31,
        m == 4 || m == 6 || m == 9 || m == 11 ==> days_in_month(y, m) == 30,
        m == 2 && y % 4 != 0 ==> days_in_month(y, m) == 28,
        m == 2 && y % 4 == 0 && y % 100 != 0 ==> days_in_month(y, m) == 29,
        m == 2 && y % 100 == 0 && y % 400 != 0 ==> days_in_month(y, m) == 28,
        m == 2 && y % 400 == 0 ==> days_in_month(y, m) == 29,
{
}

/// Weekdays go round every seven days, from Monday, which is 0, on; 1970-01-01 was a Thursday.
pub proof fn weekdays_go_round(day: int)
    ensures
        weekday_number(0) == 3,
        0 <= weekday_number(day) < 7,
        weekday_number(day + 7) == weekday_number(day),
        weekday_number(day) < 6 ==> weekday_number(day + 1) == weekday_number(day) + 1,
        weekday_number(day) == 6 ==> weekday_number(day + 1) == 0,
{
}

/// A second of Unix time falls on a day, so many seconds after its midnight.
pub proof fn seconds_fall_on_days(secs: int)
    ensures
        86_400 * day_of(secs) + second_of_day(secs) == secs,
        0 <= second_of_day(secs) < 86_400,
{
}

} // verus!
