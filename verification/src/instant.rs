//! Instants of UTC time, and the date arithmetic that `chrono` does on them.

use crate::calendar::{
    day_number, day_of, is_months_before, second_of_day, valid_date, weekday_number,
};
use chrono::{DateTime, Datelike, Months, TimeZone, Utc};
use chrono_tz::America::New_York;
use vstd::prelude::*;

verus! {

/// The first second of year -262143, where `chrono`'s calendar starts.
pub const MIN_SECS: i64 = -8_334_601_228_800;

/// The last second of year 262142, where `chrono`'s calendar ends.
pub const MAX_SECS: i64 = 8_210_266_876_799;

pub open spec fn in_calendar(secs: int) -> bool {
    MIN_SECS <= secs <= MAX_SECS
}

/// A point in time: seconds since the Unix epoch and nanoseconds on top of them.
/// A leap second is a 59th second with a billion nanoseconds or more.
pub struct Moment {
    pub secs: int,
    pub nanos: int,
}

impl Moment {
    pub open spec fn valid(self) -> bool {
        &&& in_calendar(self.secs)
        &&& 0 <= self.nanos < 2_000_000_000
        &&& self.nanos >= 1_000_000_000 ==> self.secs % 60 == 59
    }

    /// `self` is `other` or comes before it.
    pub open spec fn up_to(self, other: Moment) -> bool {
        self.secs < other.secs || (self.secs == other.secs && self.nanos <= other.nanos)
    }
}

/// An instant of UTC time.
#[derive(Clone, Copy, Debug, PartialEq, Eq)]
pub struct UtcInstant {
    secs: i64,
    nanos: u32,
}

impl View for UtcInstant {
    type V = Moment;

    closed spec fn view(&self) -> Moment {
        Moment { secs: self.secs as int, nanos: self.nanos as int }
    }
}

impl UtcInstant {
    #[verifier::type_invariant]
    pub open spec fn well_formed(self) -> bool {
        self@.valid()
    }

    /// The instant `secs` seconds and `nanos` nanoseconds after the Unix epoch, where
    /// there is one.
    pub fn new(secs: i64, nanos: u32) -> (r: Option<UtcInstant>)
        ensures
            r matches Some(at) ==> at@ == (Moment { secs: secs as int, nanos: nanos as int }),
            r is Some <==> (Moment { secs: secs as int, nanos: nanos as int }).valid(),
    {
        if secs < MIN_SECS || secs > MAX_SECS || nanos >= 2_000_000_000 {
            return None;
        }
        if nanos >= 1_000_000_000 {
            match secs.checked_rem_euclid(60) {
                Some(59) => {},
                _ => {
                    return None;
                },
            }
        }
        Some(UtcInstant { secs, nanos })
    }

    pub fn secs(&self) -> (r: i64)
        ensures
            r == self@.secs,
    {
        self.secs
    }

    pub fn nanos(&self) -> (r: u32)
        ensures
            r == self@.nanos,
    {
        self.nanos
    }

    /// Whether this instant is `other` or comes before it.
    pub fn up_to(&self, other: &UtcInstant) -> (r: bool)
        ensures
            r == self@.up_to(other@),
    {
        self.secs < other.secs || (self.secs == other.secs && self.nanos <= other.nanos)
    }
}

/// The moment of an optional instant.
pub open spec fn moment_of(at: Option<UtcInstant>) -> Option<Moment> {
    match at {
        Some(at) => Some(at@),
        None => None,
    }
}

/// The current time: `chrono::Utc::now`. What is claimed is that it reads no time
/// before the Unix epoch and no leap second.
#[verifier::external_body]
pub(crate) fn now_utc() -> (r: UtcInstant)
    ensures
        r@.secs >= 0,
        r@.nanos < 1_000_000_000,
{
    let now = Utc::now();
    UtcInstant { secs: now.timestamp(), nanos: now.timestamp_subsec_nanos() }
}

/// The clock showed `at` to a call that read it.
pub closed spec fn is_clock_reading(at: Moment) -> bool {
    &&& at.valid()
    &&& exists|reading: UtcInstant| #[trigger]
        call_ensures(now_utc, (), reading) && reading@ == at
}

/// The current time, as the clock shows it.
pub(crate) fn read_clock() -> (r: UtcInstant)
    ensures
        is_clock_reading(r@),
        r@.valid(),
        r@.secs >= 0,
        r@.nanos < 1_000_000_000,
{
    let now = now_utc();
    proof {
        use_type_invariant(&now);
    }
    now
}

/// The clock shows no time before the Unix epoch and no leap second.
pub proof fn clock_reads_from_the_epoch_on(at: Moment)
    requires
        is_clock_reading(at),
    ensures
        at.valid(),
        at.secs >= 0,
        at.nanos < 1_000_000_000,
{
    let reading = clock_reading_was_read(at);
    assert(reading@ == at);
}

/// Every reading of the clock came out of a call that read it.
pub(crate) proof fn clock_reading_was_read(at: Moment) -> (reading: UtcInstant)
    requires
        is_clock_reading(at),
    ensures
        call_ensures(now_utc, (), reading),
        reading@ == at,
{
    choose|reading: UtcInstant| #[trigger] call_ensures(now_utc, (), reading) && reading@ == at
}

/// The UTC date of an instant as year, month and day: `chrono::DateTime::date_naive`.
/// What is claimed is that the date exists, lies in `chrono`'s calendar and is the
/// one of the instant's day.
#[verifier::external_body]
pub(crate) fn utc_date(at: &UtcInstant) -> (r: (i32, u32, u32))
    ensures
        -262_143 <= r.0 <= 262_142,
        valid_date(r.0 as int, r.1 as int, r.2 as int),
        day_number(r.0 as int, r.1 as int, r.2 as int) == day_of(at@.secs),
{
    let date = DateTime::from_timestamp(at.secs, at.nanos).unwrap().date_naive();
    (date.year(), date.month(), date.day())
}

/// The instant at a UTC date and time of day: `chrono::TimeZone::with_ymd_and_hms`
/// on `Utc`. What is claimed is that there is one exactly where the date, the time of
/// day and the year are valid, and which second it is.
#[verifier::external_body]
pub(crate) fn utc_at(year: i32, month: u32, day: u32, hour: u32, minute: u32, second: u32) -> (r:
    Option<UtcInstant>)
    ensures
        r is Some <==> {
            &&& -262_143 <= year <= 262_142
            &&& valid_date(year as int, month as int, day as int)
            &&& hour < 24 && minute < 60 && second < 60
        },
        r matches Some(at) ==> at@ == (Moment {
            secs: 86_400 * day_number(year as int, month as int, day as int) + 3_600 * hour + 60
                * minute + second,
            nanos: 0,
        }),
{
    let at = Utc.with_ymd_and_hms(year, month, day, hour, minute, second).single()?;
    Some(UtcInstant { secs: at.timestamp(), nanos: at.timestamp_subsec_nanos() })
}

/// The instant a number of calendar months earlier:
/// `chrono::DateTime::checked_sub_months` on `DateTime<Utc>`. What is claimed is that
/// the time of day stays, that the day is the one that number of months before, the
/// month's last day standing in for one that it lacks, and that there is such an
/// instant from the Unix epoch on.
#[verifier::external_body]
pub(crate) fn minus_months(at: &UtcInstant, months: u32) -> (r: Option<UtcInstant>)
    requires
        months <= 12,
    ensures
        r matches Some(earlier) ==> {
            &&& is_months_before(day_of(at@.secs), months as int, day_of(earlier@.secs))
            &&& second_of_day(earlier@.secs) == second_of_day(at@.secs)
            &&& earlier@.nanos == at@.nanos
        },
        at@.secs >= 0 ==> r is Some,
{
    let at = DateTime::from_timestamp(at.secs, at.nanos).unwrap();
    let earlier = at.checked_sub_months(Months::new(months))?;
    Some(UtcInstant { secs: earlier.timestamp(), nanos: earlier.timestamp_subsec_nanos() })
}

/// The instant a number of days earlier: `chrono`'s `-` on a `DateTime<Utc>` and a
/// `Duration` of whole days. What is claimed is that each day takes 86400 seconds.
#[verifier::external_body]
pub(crate) fn minus_days(at: &UtcInstant, days: u32) -> (r: UtcInstant)
    requires
        at@.nanos < 1_000_000_000,
        at@.secs - 86_400 * days >= MIN_SECS,
    ensures
        r@ == (Moment { secs: at@.secs - 86_400 * days, nanos: at@.nanos }),
{
    let at = DateTime::from_timestamp(at.secs, at.nanos).unwrap();
    let earlier = at - chrono::Duration::days(days as i64);
    UtcInstant { secs: earlier.timestamp(), nanos: earlier.timestamp_subsec_nanos() }
}

/// What `chrono::DateTime::parse_from_rfc3339` reads from a text, taken to UTC: the
/// instant, or the error's message.
pub uninterp spec fn rfc3339_reading(text: Seq<char>) -> Result<Moment, Seq<char>>;

/// Reads an RFC 3339 text: `chrono::DateTime::parse_from_rfc3339`. What is claimed is
/// that the text alone decides what comes out.
#[verifier::external_body]
pub(crate) fn parse_rfc3339(text: &str) -> (r: Result<UtcInstant, String>)
    ensures
        match r {
            Ok(at) => rfc3339_reading(text@) == Ok::<Moment, Seq<char>>(at@),
            Err(message) => rfc3339_reading(text@) == Err::<Moment, Seq<char>>(message@),
        },
{
    match DateTime::parse_from_rfc3339(text) {
        Ok(at) => Ok(UtcInstant { secs: at.timestamp(), nanos: at.timestamp_subsec_nanos() }),
        Err(error) => Err(error.to_string()),
    }
}

/// The text that `chrono::DateTime::to_rfc3339` writes for an instant of UTC.
pub uninterp spec fn rfc3339_text(at: Moment) -> Seq<char>;

/// Writes an instant as RFC 3339 text: `chrono::DateTime::to_rfc3339`. What is
/// claimed is that the instant alone decides the text.
#[verifier::external_body]
pub(crate) fn to_rfc3339(at: &UtcInstant) -> (r: String)
    ensures
        r@ == rfc3339_text(at@),
{
    DateTime::from_timestamp(at.secs, at.nanos).unwrap().to_rfc3339()
}

/// The weekday of a second of clock time, 0 for Monday: `chrono::Datelike::weekday`.
/// What is claimed is the seven-day cycle.
#[verifier::external_body]
pub(crate) fn weekday(secs: i64) -> (r: u32)
    requires
        in_calendar(secs as int),
    ensures
        r == weekday_number(day_of(secs as int)),
{
    DateTime::from_timestamp(secs, 0).unwrap().weekday().num_days_from_monday()
}

/// How many seconds New York's clocks are ahead of UTC at a second of Unix time, by
/// the time zone table in `chrono_tz`.
pub uninterp spec fn new_york_offset(secs: int) -> int;

/// What New York's clocks show at a second of Unix time.
pub open spec fn new_york_clock(secs: int) -> int {
    secs + new_york_offset(secs)
}

/// The clock reading `clock` falls on a Tuesday.
pub open spec fn on_tuesday(clock: int) -> bool {
    weekday_number(day_of(clock)) == 1
}

/// The clock reading `clock` is at most an hour away from day number `day`.
pub open spec fn within_an_hour_of_day(clock: int, day: int) -> bool {
    86_400 * day - 3_600 <= clock < 86_400 * day + 90_000
}

/// New York's clocks show `clock` at second `secs`. By the table they are four to five
/// hours behind UTC at every time, and they never change on a Tuesday or in the hour
/// before or after one.
pub open spec fn is_new_york_reading(secs: int, clock: int) -> bool {
    &&& clock == new_york_clock(secs)
    &&& -18_000 <= clock - secs <= -14_400
    &&& forall|u: int|
        #![trigger new_york_offset(u)]
        in_calendar(u) ==> -3_600 <= new_york_offset(u) - (clock - secs) <= 3_600
    &&& forall|u: int, day: int|
        #![trigger new_york_offset(u), weekday_number(day)]
        in_calendar(u) && weekday_number(day) == 1 && within_an_hour_of_day(clock, day)
            && within_an_hour_of_day(u + (clock - secs), day) ==> new_york_offset(u) == clock - secs
}

/// What New York's clocks show at a second of Unix time:
/// `chrono::DateTime::with_timezone` to `chrono_tz::America::New_York`. Besides the
/// reading, what is claimed of the table behind it is what `is_new_york_reading` says:
/// the changes in the table fall on Sundays, but for a Monday at 02:00 in 1942 and a
/// Tuesday in 1945 that renamed the time and left the clocks alone.
#[verifier::external_body]
pub(crate) fn to_new_york(secs: i64) -> (r: i64)
    requires
        MIN_SECS + 18_000 <= secs <= MAX_SECS,
    ensures
        is_new_york_reading(secs as int, r as int),
{
    let at = DateTime::from_timestamp(secs, 0).unwrap().with_timezone(&New_York);
    at.naive_local().and_utc().timestamp()
}

/// The first second of Unix time at which New York's clocks show `clock`:
/// `chrono::TimeZone::from_local_datetime` on `chrono_tz::America::New_York`, with
/// `earliest`. What is claimed is that there is such a second exactly where the clocks
/// show `clock` at all, and that none comes before it.
#[verifier::external_body]
pub(crate) fn from_new_york(clock: i64) -> (r: Option<i64>)
    requires
        MIN_SECS <= clock <= MAX_SECS - 18_000,
    ensures
        match r {
            Some(secs) => {
                &&& in_calendar(secs as int)
                &&& new_york_clock(secs as int) == clock
                &&& forall|u: int|
                    #![trigger new_york_offset(u)]
                    in_calendar(u) && new_york_clock(u) == clock ==> secs <= u
            },
            None => forall|u: int|
                #![trigger new_york_offset(u)]
                in_calendar(u) ==> new_york_clock(u) != clock,
        },
{
    let local = DateTime::from_timestamp(clock, 0).unwrap().naive_utc();
    New_York.from_local_datetime(&local).earliest().map(|at| at.timestamp())
}

/// Moments are in order: of two, one comes up to the other, and both do only where they are
/// the same; what comes up to one comes up to all that are after it.
pub proof fn moments_are_in_order(a: Moment, b: Moment, c: Moment)
    ensures
        a.up_to(b) || b.up_to(a),
        a.up_to(b) && b.up_to(a) ==> a == b,
        a.up_to(b) && b.up_to(c) ==> a.up_to(c),
        a.secs < b.secs ==> a.up_to(b) && !b.up_to(a),
        a.secs == b.secs && a.nanos < b.nanos ==> a.up_to(b) && !b.up_to(a),
{
}

/// Every nanosecond of every second from the first day of year -262143 to the last day of
/// year 262142 is a moment, and so is the second that is inserted behind a 59th. Nothing
/// else is.
pub proof fn calendar_holds_its_years(at: Moment)
    ensures
        ({
            let first = 86_400 * day_number(-262_143, 1, 1);
            let end = 86_400 * day_number(262_143, 1, 1);
            at.valid() <==> {
                &&& first <= at.secs < end
                &&& 0 <= at.nanos < 1_000_000_000 || (1_000_000_000 <= at.nanos < 2_000_000_000
                    && at.secs % 60 == 59)
            }
        }),
{
}

/// An instant that is given is held, and one that is not is none.
pub proof fn given_instant_is_held(at: Option<UtcInstant>)
    ensures
        at is None <==> moment_of(at) is None,
        at is Some ==> moment_of(at)->0 == at->0@,
{
}

} // verus!
