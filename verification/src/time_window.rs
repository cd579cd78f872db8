//! Time windows: from a scope to the range of instants that it stands for.

use crate::calendar::{day_of, second_of_day, weekday_number, SECONDS_PER_DAY, SECONDS_PER_HOUR};
use crate::instant::{
    from_new_york, in_calendar, is_clock_reading, is_new_york_reading, moment_of, new_york_clock,
    new_york_offset, on_tuesday, read_clock, to_new_york, utc_at, utc_date, weekday,
    within_an_hour_of_day, Moment, UtcInstant, MIN_SECS,
};
use crate::text::{ascii_lowercase, str_text};
use vstd::prelude::*;

verus! {

/// The EU weekly reset is on a Wednesday, counted from Monday as 0.
const EU_RESET_WEEKDAY: u32 = 2;

/// The EU weekly reset is at 07:00 UTC.
const EU_RESET_HOUR_UTC: u32 = 7;

/// The NA weekly reset is on a Tuesday, counted from Monday as 0.
const NA_RESET_WEEKDAY: u32 = 1;

/// The NA weekly reset is at 09:00 in New York.
const NA_RESET_HOUR: i64 = 9;

/// `secs` is a second at which the EU week resets: Wednesday 07:00 UTC.
pub open spec fn is_eu_reset(secs: int) -> bool {
    weekday_number(day_of(secs)) == 2 && second_of_day(secs) == 25_200
}

/// `secs` is a second at which the NA week resets: Tuesday 09:00 in New York.
pub open spec fn is_na_reset(secs: int) -> bool {
    on_tuesday(new_york_clock(secs)) && second_of_day(new_york_clock(secs)) == 32_400
}

/// `reset` is the most recent EU reset at `now`.
pub open spec fn latest_eu_reset(now: Moment, reset: Moment) -> bool {
    &&& reset.nanos == 0
    &&& is_eu_reset(reset.secs)
    &&& reset.up_to(now)
    &&& forall|t: int| #[trigger] is_eu_reset(t) && t <= now.secs ==> t <= reset.secs
}

/// `reset` is the most recent NA reset at `now`.
pub open spec fn latest_na_reset(now: Moment, reset: Moment) -> bool {
    &&& reset.nanos == 0
    &&& is_na_reset(reset.secs)
    &&& reset.up_to(now)
    &&& forall|t: int|
        in_calendar(t) && #[trigger] is_na_reset(t) && t <= now.secs ==> t <= reset.secs
}

/// Which runs to look at.
#[derive(Debug, PartialEq, Eq, Structural, Clone, Copy)]
pub enum Scope {
    Today,
    Week,
    Alltime,
    Custom,
}

impl Default for Scope {
    fn default() -> (r: Self)
        ensures
            r == Scope::Alltime,
    {
        Scope::Alltime
    }
}

impl Scope {
    pub open spec fn text(self) -> Seq<char> {
        match self {
            Scope::Today => "today"@,
            Scope::Week => "week"@,
            Scope::Alltime => "alltime"@,
            Scope::Custom => "custom"@,
        }
    }

    /// The scope's name in lower case.
    pub fn name(self) -> (r: String)
        ensures
            r@ == self.text(),
    {
        match self {
            Scope::Today => String::from("today"),
            Scope::Week => String::from("week"),
            Scope::Alltime => String::from("alltime"),
            Scope::Custom => String::from("custom"),
        }
    }
}

/// Why no window can be made.
#[derive(Clone, Copy, Debug, PartialEq, Eq)]
pub enum WindowError {
    MissingFrom,
    MissingTo,
    FromAfterTo,
    NoMidnight,
    NoEpoch,
    NoEuDate,
    NoEuReset,
    NoNaDate,
    NoNaReset,
}

impl WindowError {
    pub open spec fn text(self) -> Seq<char> {
        match self {
            WindowError::MissingFrom => "scope=custom requires `from` parameter"@,
            WindowError::MissingTo => "scope=custom requires `to` parameter"@,
            WindowError::FromAfterTo => "`from` must be before `to`"@,
            WindowError::NoMidnight => "Could not compute midnight"@,
            WindowError::NoEpoch => "epoch failed"@,
            WindowError::NoEuDate => "Could not build EU reset datetime"@,
            WindowError::NoEuReset => "Could not determine EU weekly reset start"@,
            WindowError::NoNaDate => "Could not build ET reset datetime (DST gap?)"@,
            WindowError::NoNaReset => "Could not determine NA weekly reset start"@,
        }
    }

    pub fn message(&self) -> (r: String)
        ensures
            r@ == self.text(),
    {
        match self {
            WindowError::MissingFrom => String::from("scope=custom requires `from` parameter"),
            WindowError::MissingTo => String::from("scope=custom requires `to` parameter"),
            WindowError::FromAfterTo => String::from("`from` must be before `to`"),
            WindowError::NoMidnight => String::from("Could not compute midnight"),
            WindowError::NoEpoch => String::from("epoch failed"),
            WindowError::NoEuDate => String::from("Could not build EU reset datetime"),
            WindowError::NoEuReset => String::from("Could not determine EU weekly reset start"),
            WindowError::NoNaDate => String::from("Could not build ET reset datetime (DST gap?)"),
            WindowError::NoNaReset => String::from("Could not determine NA weekly reset start"),
        }
    }
}

/// An EU reset is fixed by its day.
proof fn lemma_eu_reset_of_day(day: int)
    ensures
        day_of(86_400 * day + 25_200) == day,
        weekday_number(day) == 2 <==> is_eu_reset(86_400 * day + 25_200),
        forall|t: int| #[trigger] is_eu_reset(t) ==> t == 86_400 * day_of(t) + 25_200,
{
}

/// The most recent EU reset: Wednesday 07:00 UTC.
pub fn weekly_reset_eu(now: UtcInstant) -> (r: Result<UtcInstant, WindowError>)
    requires
        exists|t: int| #[trigger] is_eu_reset(t) && MIN_SECS <= t <= now@.secs,
    ensures
        r matches Ok(reset) && latest_eu_reset(now@, reset@),
{
    proof {
        use_type_invariant(&now);
    }
    let ghost known: int = choose|t: int|
        #[trigger] is_eu_reset(t) && MIN_SECS <= t <= now@.secs;
    let ghost today: int = day_of(now@.secs);
    let mut days_back: i64 = 0;
    while days_back < 8
        invariant
            now@.valid(),
            today == day_of(now@.secs),
            0 <= days_back <= 8,
            is_eu_reset(known) && MIN_SECS <= known <= now@.secs,
            forall|t: int| #[trigger]
                is_eu_reset(t) && t <= now@.secs ==> day_of(t) <= today - days_back,
        decreases 8 - days_back,
    {
        let candidate: i64 = now.secs() - days_back * SECONDS_PER_DAY;
        assert(day_of(known) <= today - days_back);
        assert(day_of(candidate as int) == today - days_back);
        proof {
            lemma_eu_reset_of_day(today - days_back);
        }
        if weekday(candidate) == EU_RESET_WEEKDAY {
            let (year, month, day) = match UtcInstant::new(candidate, 0) {
                Some(at) => utc_date(&at),
                None => {
                    return Err(WindowError::NoEuDate);
                },
            };
            let reset = match utc_at(year, month, day, EU_RESET_HOUR_UTC, 0, 0) {
                Some(at) => at,
                None => {
                    return Err(WindowError::NoEuDate);
                },
            };
            if reset.up_to(&now) {
                return Ok(reset);
            }
        }
        days_back = days_back + 1;
    }
    proof {
        let last = today - (today + 1) % 7;
        lemma_eu_reset_of_day(last);
        lemma_eu_reset_of_day(last - 7);
        assert(is_eu_reset(86_400 * (last - 7) + 25_200));
        assert(false);
    }
    Err(WindowError::NoEuReset)
}

/// The day of the latest Tuesday 09:00 that a clock reading has reached.
spec fn latest_tuesday(clock: int) -> int {
    let day = day_of(clock - 32_400);
    day - (day + 2) % 7
}

proof fn lemma_latest_tuesday(clock: int)
    ensures
        weekday_number(latest_tuesday(clock)) == 1,
        86_400 * latest_tuesday(clock) + 32_400 <= clock,
        clock < 86_400 * (latest_tuesday(clock) + 7) + 32_400,
{
}

/// Tuesdays are a week apart.
proof fn lemma_tuesdays_apart(a: int, b: int)
    requires
        weekday_number(a) == 1,
        weekday_number(b) == 1,
    ensures
        a == b || a <= b - 7 || a >= b + 7,
{
}

/// The second at which New York's clocks showed 09:00 on the latest Tuesday is the most
/// recent NA reset; `secs` is some second of that Tuesday.
proof fn lemma_latest_na_reset(now: Moment, now_clock: int, secs: int, clock: int, reset: int)
    requires
        now.valid(),
        is_new_york_reading(now.secs, now_clock),
        is_new_york_reading(secs, clock),
        day_of(clock) == latest_tuesday(now_clock),
        new_york_clock(reset) == 86_400 * latest_tuesday(now_clock) + 32_400,
        in_calendar(reset),
        reset <= now.secs,
    ensures
        latest_na_reset(now, Moment { secs: reset, nanos: 0 }),
{
    let tuesday = latest_tuesday(now_clock);
    lemma_latest_tuesday(now_clock);
    assert(day_of(new_york_clock(reset)) == tuesday);
    assert(new_york_offset(reset) == clock - secs);
    assert forall|t: int|
        in_calendar(t) && #[trigger] is_na_reset(t) && t <= now.secs implies t <= reset by {
        let day = day_of(new_york_clock(t));
        assert(new_york_clock(t) == 86_400 * day + 32_400);
        lemma_tuesdays_apart(day, tuesday);
        if day >= tuesday + 7 {
            lemma_tuesdays_apart(day, tuesday + 7);
            assert(weekday_number(tuesday + 7) == 1);
            assert(new_york_offset(t) - (now_clock - now.secs) <= 3_600);
            assert(day == tuesday + 7);
            assert(within_an_hour_of_day(now_clock, day));
            assert(new_york_offset(t) == now_clock - now.secs);
            assert(false);
        } else if day == tuesday {
            assert(-3_600 <= new_york_offset(t) - (clock - secs) <= 3_600);
            assert(within_an_hour_of_day(t + (clock - secs), tuesday));
            assert(new_york_offset(t) == clock - secs);
        } else {
            assert(-3_600 <= new_york_offset(t) - (clock - secs) <= 3_600);
        }
    }
}

/// The reading of New York's clocks at the reset on the day of a reading, where that day is
/// a Tuesday.
pub fn na_reset_clock(clock: i64) -> (r: Option<i64>)
    requires
        in_calendar(clock as int),
    ensures
        match r {
            Some(reading) => on_tuesday(clock as int) && reading == 86_400 * day_of(clock as int)
                + 32_400,
            None => !on_tuesday(clock as int),
        },
{
    if weekday(clock) != NA_RESET_WEEKDAY {
        return None;
    }
    match clock.checked_rem_euclid(SECONDS_PER_DAY) {
        Some(time_of_day) => Some(clock - time_of_day + NA_RESET_HOUR * SECONDS_PER_HOUR),
        None => None,
    }
}

/// New York's clocks show the reset on a Tuesday, and at one second alone: `clock` is a
/// reading of that day, taken at `secs`.
proof fn lemma_reset_on_tuesday(secs: int, clock: int, found: int)
    requires
        is_new_york_reading(secs, clock),
        on_tuesday(clock),
    ensures
        ({
            let reset = 86_400 * day_of(clock) + 32_400 - (clock - secs);
            &&& in_calendar(reset) ==> new_york_clock(reset) == 86_400 * day_of(clock) + 32_400
            &&& in_calendar(found) && new_york_clock(found) == 86_400 * day_of(clock) + 32_400
                ==> found == reset
        }),
{
    let day = day_of(clock);
    let reset = 86_400 * day + 32_400 - (clock - secs);
    assert(weekday_number(day) == 1);
    assert(within_an_hour_of_day(clock, day));
    if in_calendar(reset) {
        assert(within_an_hour_of_day(reset + (clock - secs), day));
        assert(new_york_offset(reset) == clock - secs);
    }
    if in_calendar(found) && new_york_clock(found) == 86_400 * day + 32_400 {
        assert(-3_600 <= new_york_offset(found) - (clock - secs) <= 3_600);
        assert(within_an_hour_of_day(found + (clock - secs), day));
        assert(new_york_offset(found) == clock - secs);
    }
}

/// Of the Tuesdays that a walk back from `now` comes by, day by day, only the latest has its
/// reset at `now` or before: `clock` is the reading after so many days.
proof fn lemma_reset_is_reached(now: Moment, now_clock: int, days_back: int, clock: int)
    requires
        now.valid(),
        now.secs >= MIN_SECS + 8 * 86_400,
        0 <= days_back < 8,
        is_new_york_reading(now.secs, now_clock),
        is_new_york_reading(now.secs - 86_400 * days_back, clock),
        on_tuesday(clock),
        day_of(clock) >= latest_tuesday(now_clock),
    ensures
        ({
            let reset = 86_400 * day_of(clock) + 32_400 - (clock - now.secs + 86_400 * days_back);
            &&& day_of(clock) == latest_tuesday(now_clock) <==> reset <= now.secs
            &&& day_of(clock) == latest_tuesday(now_clock) ==> now.secs - reset < 7 * 86_400
                + 3_600
        }),
{
    let tuesday = latest_tuesday(now_clock);
    let offset = clock - (now.secs - 86_400 * days_back);
    lemma_latest_tuesday(now_clock);
    lemma_tuesdays_apart(day_of(clock), tuesday);
    assert(-3_600 <= new_york_offset(now.secs) - offset <= 3_600);
    if day_of(clock) == tuesday {
        if days_back == 0 {
            assert(clock == now_clock);
        }
    } else if 86_400 * day_of(clock) + 32_400 - offset <= now.secs {
        let day = day_of(clock);
        assert(weekday_number(day) == 1);
        assert(within_an_hour_of_day(clock, day));
        assert(within_an_hour_of_day(now.secs + offset, day));
        assert(new_york_offset(now.secs) == offset);
    }
}

/// A day back from a day after the latest Tuesday lies on that Tuesday or after it, and seven
/// days back from `now` lie on it or before it.
proof fn lemma_step_back(now: Moment, now_clock: int, days_back: int, clock: int, next: int)
    requires
        now.valid(),
        now.secs >= MIN_SECS + 8 * 86_400,
        0 <= days_back < 8,
        is_new_york_reading(now.secs, now_clock),
        is_new_york_reading(now.secs - 86_400 * days_back, clock),
        days_back < 7 ==> is_new_york_reading(now.secs - 86_400 * (days_back + 1), next),
    ensures
        days_back == 7 ==> day_of(clock) <= latest_tuesday(now_clock),
        days_back < 7 && day_of(clock) > latest_tuesday(now_clock) ==> day_of(next)
            >= latest_tuesday(now_clock),
{
    let tuesday = latest_tuesday(now_clock);
    lemma_latest_tuesday(now_clock);
    assert(-3_600 <= new_york_offset(now.secs) - (clock - (now.secs - 86_400 * days_back))
        <= 3_600);
    if days_back < 7 && day_of(clock) > tuesday && day_of(next) < tuesday {
        let before = now.secs - 86_400 * (days_back + 1);
        let offset = clock - (now.secs - 86_400 * days_back);
        assert(-3_600 <= new_york_offset(before) - offset <= 3_600);
        assert(weekday_number(tuesday) == 1);
        assert(within_an_hour_of_day(clock, tuesday));
        assert(within_an_hour_of_day(before + offset, tuesday));
        assert(new_york_offset(before) == offset);
    }
}

/// The most recent NA reset: Tuesday 09:00 in New York.
pub fn weekly_reset_na(now: UtcInstant) -> (r: Result<UtcInstant, WindowError>)
    requires
        now@.secs >= MIN_SECS + 8 * 86_400,
    ensures
        r matches Ok(reset) && {
            &&& latest_na_reset(now@, reset@)
            &&& now@.secs - reset@.secs < 7 * 86_400 + 3_600
        },
{
    proof {
        use_type_invariant(&now);
    }
    let mut candidate: i64 = now.secs();
    let mut clock: i64 = to_new_york(candidate);
    let ghost now_clock: int = clock as int;
    proof {
        lemma_latest_tuesday(now_clock);
    }
    let mut days_back: i64 = 0;
    while days_back < 8
        invariant
            now@.valid(),
            now@.secs >= MIN_SECS + 8 * 86_400,
            0 <= days_back <= 8,
            candidate == now@.secs - 86_400 * days_back,
            days_back < 8 ==> is_new_york_reading(candidate as int, clock as int),
            is_new_york_reading(now@.secs, now_clock),
            days_back < 8 ==> day_of(clock as int) >= latest_tuesday(now_clock),
            days_back == 8 ==> false,
        decreases 8 - days_back,
    {
        let ghost last_clock: int = clock as int;
        if let Some(reading) = na_reset_clock(clock) {
            proof {
                let reset = reading - (clock - candidate);
                lemma_reset_on_tuesday(candidate as int, clock as int, reset);
                lemma_reset_is_reached(now@, now_clock, days_back as int, clock as int);
            }
            let found: i64 = match from_new_york(reading) {
                Some(secs) => secs,
                None => {
                    return Err(WindowError::NoNaDate);
                },
            };
            proof {
                lemma_reset_on_tuesday(candidate as int, clock as int, found as int);
            }
            if found <= now.secs() {
                match UtcInstant::new(found, 0) {
                    Some(reset) => {
                        proof {
                            lemma_latest_na_reset(
                                now@,
                                now_clock,
                                candidate as int,
                                clock as int,
                                found as int,
                            );
                        }
                        return Ok(reset);
                    },
                    None => {
                        return Err(WindowError::NoNaReset);
                    },
                }
            }
        }
        proof {
            lemma_latest_tuesday(now_clock);
            assert(day_of(last_clock) != latest_tuesday(now_clock));
        }
        days_back = days_back + 1;
        candidate = candidate - SECONDS_PER_DAY;
        if days_back < 8 {
            clock = to_new_york(candidate);
        }
        proof {
            lemma_step_back(now@, now_clock, days_back - 1, last_clock, clock as int);
        }
    }
    Err(WindowError::NoNaReset)
}

/// The region is the European one, in whatever case it is written.
pub open spec fn is_eu(region: Seq<char>) -> bool {
    ascii_lowercase(region) == ascii_lowercase("eu"@)
}

/// `reset` is the most recent weekly reset of `region` at `now`.
pub open spec fn latest_reset(region: Seq<char>, now: Moment, reset: Moment) -> bool {
    if is_eu(region) {
        latest_eu_reset(now, reset)
    } else {
        latest_na_reset(now, reset)
    }
}

/// From eight days into the calendar on there is an EU reset to go back to.
proof fn lemma_some_eu_reset(now: Moment)
    requires
        now.secs >= MIN_SECS + 8 * 86_400,
    ensures
        exists|t: int| #[trigger] is_eu_reset(t) && MIN_SECS <= t <= now.secs,
{
    let yesterday = day_of(now.secs) - 1;
    let wednesday = yesterday - (yesterday + 1) % 7;
    lemma_eu_reset_of_day(wednesday);
    assert(is_eu_reset(86_400 * wednesday + 25_200));
}

/// The most recent weekly reset of a region; every region but the EU follows NA.
pub fn weekly_reset_start(now: UtcInstant, region: &str) -> (r: Result<UtcInstant, WindowError>)
    requires
        now@.secs >= MIN_SECS + 8 * 86_400,
    ensures
        r matches Ok(reset) && latest_reset(region@, now@, reset@),
{
    if region.eq_ignore_ascii_case("eu") {
        proof {
            lemma_some_eu_reset(now@);
        }
        return weekly_reset_eu(now);
    }
    weekly_reset_na(now)
}

/// Midnight UTC of the day of `at`.
pub open spec fn midnight(at: Moment) -> Moment {
    Moment { secs: 86_400 * day_of(at.secs), nanos: 0 }
}

/// Midnight UTC of the day of an instant.
pub fn start_of_day(at: &UtcInstant) -> (r: Option<UtcInstant>)
    ensures
        r matches Some(start) && start@ == midnight(at@),
{
    let (year, month, day) = utc_date(at);
    utc_at(year, month, day, 0, 0, 0)
}

/// A range of instants, both ends included.
#[derive(Clone, Copy, Debug, PartialEq, Eq)]
pub struct TimeWindow {
    pub from: UtcInstant,
    pub to: UtcInstant,
}

/// `window` is what `scope` stands for at `now`, in a region where one is given and in
/// `us` where none is.
pub open spec fn is_window(
    window: TimeWindow,
    now: Moment,
    scope: Scope,
    region: Option<Seq<char>>,
    custom_from: Option<Moment>,
    custom_to: Option<Moment>,
) -> bool {
    match scope {
        Scope::Today => window.from@ == midnight(now) && window.to@ == now,
        Scope::Week => {
            &&& latest_reset(
                match region {
                    Some(region) => region,
                    None => "us"@,
                },
                now,
                window.from@,
            )
            &&& window.to@ == now
        },
        Scope::Alltime => window.from@ == (Moment { secs: 0, nanos: 0 }) && window.to@ == now,
        Scope::Custom => {
            &&& custom_from matches Some(from) && window.from@ == from
            &&& custom_to matches Some(to) && window.to@ == to
        },
    }
}

/// Why a scope has no window: only a custom one can have none.
pub open spec fn window_error(
    scope: Scope,
    custom_from: Option<Moment>,
    custom_to: Option<Moment>,
) -> Option<WindowError> {
    if scope != Scope::Custom {
        None
    } else {
        match (custom_from, custom_to) {
            (None, _) => Some(WindowError::MissingFrom),
            (Some(_), None) => Some(WindowError::MissingTo),
            (Some(from), Some(to)) => if from.up_to(to) {
                None
            } else {
                Some(WindowError::FromAfterTo)
            },
        }
    }
}

impl TimeWindow {
    /// The window that a scope stands for now.
    pub fn resolve(
        scope: Scope,
        region: Option<&str>,
        custom_from: Option<UtcInstant>,
        custom_to: Option<UtcInstant>,
    ) -> (r: Result<Self, WindowError>)
        ensures
            match r {
                Ok(window) => {
                    &&& window_error(scope, moment_of(custom_from), moment_of(custom_to)) is None
                    &&& exists|now: Moment|
                        now.valid() && now.secs >= 0 && is_clock_reading(now)
                            && #[trigger] is_window(
                            window,
                            now,
                            scope,
                            str_text(region),
                            moment_of(custom_from),
                            moment_of(custom_to),
                        )
                },
                Err(error) => window_error(scope, moment_of(custom_from), moment_of(custom_to))
                    == Some(error),
            },
    {
        let now = read_clock();
        TimeWindow::resolve_at(now, scope, region, custom_from, custom_to)
    }

    /// The window that a scope stands for at `now`.
    pub fn resolve_at(
        now: UtcInstant,
        scope: Scope,
        region: Option<&str>,
        custom_from: Option<UtcInstant>,
        custom_to: Option<UtcInstant>,
    ) -> (r: Result<Self, WindowError>)
        requires
            now@.secs >= MIN_SECS + 8 * 86_400,
        ensures
            match r {
                Ok(window) => {
                    &&& window_error(scope, moment_of(custom_from), moment_of(custom_to)) is None
                    &&& is_window(
                        window,
                        now@,
                        scope,
                        str_text(region),
                        moment_of(custom_from),
                        moment_of(custom_to),
                    )
                },
                Err(error) => window_error(scope, moment_of(custom_from), moment_of(custom_to))
                    == Some(error),
            },
    {
        match scope {
            Scope::Today => match start_of_day(&now) {
                Some(midnight) => Ok(TimeWindow { from: midnight, to: now }),
                None => Err(WindowError::NoMidnight),
            },
            Scope::Week => {
                let region = match region {
                    Some(region) => region,
                    None => "us",
                };
                match weekly_reset_start(now, region) {
                    Ok(start) => Ok(TimeWindow { from: start, to: now }),
                    Err(error) => Err(error),
                }
            },
            Scope::Alltime => match UtcInstant::new(0, 0) {
                Some(epoch) => Ok(TimeWindow { from: epoch, to: now }),
                None => Err(WindowError::NoEpoch),
            },
            Scope::Custom => match (custom_from, custom_to) {
                (None, _) => Err(WindowError::MissingFrom),
                (Some(_), None) => Err(WindowError::MissingTo),
                (Some(from), Some(to)) => if from.up_to(&to) {
                    Ok(TimeWindow { from, to })
                } else {
                    Err(WindowError::FromAfterTo)
                },
            },
        }
    }
}

/// A window never ends before it begins.
pub proof fn window_is_ordered(
    window: TimeWindow,
    now: Moment,
    scope: Scope,
    region: Option<Seq<char>>,
    custom_from: Option<Moment>,
    custom_to: Option<Moment>,
)
    requires
        now.valid(),
        now.secs >= 0,
        window_error(scope, custom_from, custom_to) is None,
        is_window(window, now, scope, region, custom_from, custom_to),
    ensures
        window.from@.up_to(window.to@),
{
}

/// There is one most recent EU reset, and it lies less than a week back.
pub proof fn eu_reset_is_within_a_week(now: Moment, a: Moment, b: Moment)
    requires
        latest_eu_reset(now, a),
        latest_eu_reset(now, b),
    ensures
        a == b,
        now.secs - a.secs < 7 * 86_400,
{
    lemma_eu_reset_of_day(day_of(a.secs) + 7);
}

/// There is one most recent NA reset.
pub proof fn na_reset_is_unique(now: Moment, a: Moment, b: Moment)
    requires
        latest_na_reset(now, a),
        latest_na_reset(now, b),
        in_calendar(a.secs),
        in_calendar(b.secs),
    ensures
        a == b,
{
}

/// Today's window starts on a whole day of 86400 seconds, less than a day before it ends,
/// and it ends now.
pub proof fn today_starts_at_midnight(
    window: TimeWindow,
    now: Moment,
    region: Option<Seq<char>>,
    custom_from: Option<Moment>,
    custom_to: Option<Moment>,
)
    requires
        now.valid(),
        is_window(window, now, Scope::Today, region, custom_from, custom_to),
    ensures
        window.from@.secs % 86_400 == 0,
        window.from@.nanos == 0,
        window.from@.secs <= now.secs < window.from@.secs + 86_400,
        window.to@ == now,
{
}

/// The window of all time starts at the Unix epoch and ends now.
pub proof fn all_time_starts_at_the_epoch(
    window: TimeWindow,
    now: Moment,
    region: Option<Seq<char>>,
    custom_from: Option<Moment>,
    custom_to: Option<Moment>,
)
    requires
        is_window(window, now, Scope::Alltime, region, custom_from, custom_to),
    ensures
        window.from@.secs == 0,
        window.from@.nanos == 0,
        window.to@ == now,
{
}

/// A custom window is the one that was asked for, whatever the time and the region.
pub proof fn custom_window_is_as_given(
    window: TimeWindow,
    now: Moment,
    region: Option<Seq<char>>,
    custom_from: Option<Moment>,
    custom_to: Option<Moment>,
)
    requires
        is_window(window, now, Scope::Custom, region, custom_from, custom_to),
    ensures
        custom_from == Some(window.from@),
        custom_to == Some(window.to@),
{
}

/// `region` is `eu` in whatever case.
spec fn spells_eu(region: Seq<char>) -> bool {
    &&& region.len() == 2
    &&& region[0] == 'e' || region[0] == 'E'
    &&& region[1] == 'u' || region[1] == 'U'
}

proof fn lemma_spells_eu(region: Seq<char>)
    ensures
        is_eu(region) <==> spells_eu(region),
{
    reveal_strlit("eu");
    let eu = ascii_lowercase("eu"@);
    assert(eu.len() == 2 && eu[0] == 'e' && eu[1] == 'u');
    let lower = ascii_lowercase(region);
    if spells_eu(region) {
        assert(lower == eu);
    }
    if lower == eu {
        assert(region.len() == 2);
        assert(lower[0] == 'e' && lower[1] == 'u');
    }
}

/// In the EU, however it is written, the week starts on the latest Wednesday at 07:00 UTC,
/// which lies less than seven days back. Day 0 of Unix time was a Thursday.
pub proof fn eu_week_starts_on_wednesday(
    window: TimeWindow,
    now: Moment,
    region: Seq<char>,
    custom_from: Option<Moment>,
    custom_to: Option<Moment>,
)
    requires
        now.valid(),
        region.len() == 2,
        region[0] == 'e' || region[0] == 'E',
        region[1] == 'u' || region[1] == 'U',
        is_window(window, now, Scope::Week, Some(region), custom_from, custom_to),
    ensures
        (window.from@.secs / 86_400) % 7 == 6,
        window.from@.secs % 86_400 == 7 * 3_600,
        window.from@.nanos == 0,
        window.from@.secs <= now.secs,
        now.secs < window.from@.secs + 7 * 86_400,
        window.to@ == now,
{
    lemma_spells_eu(region);
    eu_reset_is_within_a_week(now, window.from@, window.from@);
}

/// Everywhere but in the EU, and where no region is given, the week starts on the latest
/// Tuesday at 09:00 by New York's clocks: they show that time then, and no later time up to
/// now. Day 0 of Unix time was a Thursday.
pub proof fn other_weeks_start_on_tuesday(
    window: TimeWindow,
    now: Moment,
    region: Option<Seq<char>>,
    custom_from: Option<Moment>,
    custom_to: Option<Moment>,
)
    requires
        region matches Some(region) ==> !(region.len() == 2 && (region[0] == 'e' || region[0]
            == 'E') && (region[1] == 'u' || region[1] == 'U')),
        is_window(window, now, Scope::Week, region, custom_from, custom_to),
    ensures
        ({
            let clock = window.from@.secs + new_york_offset(window.from@.secs);
            &&& (clock / 86_400) % 7 == 5
            &&& clock % 86_400 == 9 * 3_600
        }),
        window.from@.nanos == 0,
        window.from@.secs <= now.secs,
        forall|t: int|
            #![trigger new_york_offset(t)]
            in_calendar(t) && window.from@.secs < t <= now.secs ==> !({
                let clock = t + new_york_offset(t);
                (clock / 86_400) % 7 == 5 && clock % 86_400 == 9 * 3_600
            }),
        window.to@ == now,
{
    let name = match region {
        Some(region) => region,
        None => "us"@,
    };
    reveal_strlit("us");
    lemma_spells_eu(name);
    assert forall|t: int|
        #![trigger new_york_offset(t)]
        in_calendar(t) && window.from@.secs < t <= now.secs implies !({
        let clock = t + new_york_offset(t);
        (clock / 86_400) % 7 == 5 && clock % 86_400 == 9 * 3_600
    }) by {
        assert(is_na_reset(t) ==> t <= window.from@.secs);
    }
}

/// Only a custom window is ever refused: where one of its ends is missing, or where it
/// would end before it starts.
pub proof fn only_custom_windows_are_refused(
    scope: Scope,
    custom_from: Option<Moment>,
    custom_to: Option<Moment>,
)
    ensures
        window_error(scope, custom_from, custom_to) is None <==> (scope != Scope::Custom || (
        custom_from is Some && custom_to is Some && (custom_from->0.secs < custom_to->0.secs || (
        custom_from->0.secs == custom_to->0.secs && custom_from->0.nanos
            <= custom_to->0.nanos)))),
        scope == Scope::Custom && custom_from is None ==> window_error(
            scope,
            custom_from,
            custom_to,
        ) == Some(WindowError::MissingFrom),
        scope == Scope::Custom && custom_from is Some && custom_to is None ==> window_error(
            scope,
            custom_from,
            custom_to,
        ) == Some(WindowError::MissingTo),
        scope == Scope::Custom && custom_from is Some && custom_to is Some && (
        custom_from->0.secs > custom_to->0.secs || (custom_from->0.secs == custom_to->0.secs
            && custom_from->0.nanos > custom_to->0.nanos)) ==> window_error(
            scope,
            custom_from,
            custom_to,
        ) == Some(WindowError::FromAfterTo),
{
}

/// What a refused custom window is answered.
pub proof fn refused_windows_say_why()
    ensures
        WindowError::MissingFrom.text() == "scope=custom requires `from` parameter"@,
        WindowError::MissingTo.text() == "scope=custom requires `to` parameter"@,
        WindowError::FromAfterTo.text() == "`from` must be before `to`"@,
{
}

/// A later query for the same scope sees a window that ends no earlier.
pub proof fn windows_move_with_the_clock(
    scope: Scope,
    region: Option<Seq<char>>,
    custom_from: Option<Moment>,
    custom_to: Option<Moment>,
    earlier: Moment,
    later: Moment,
    first: TimeWindow,
    second: TimeWindow,
)
    requires
        earlier.up_to(later),
        earlier.valid(),
        later.valid(),
        is_window(first, earlier, scope, region, custom_from, custom_to),
        is_window(second, later, scope, region, custom_from, custom_to),
        in_calendar(first.from@.secs),
        in_calendar(second.from@.secs),
    ensures
        first.to@.up_to(second.to@),
        first.from@.up_to(second.from@),
        scope != Scope::Custom ==> first.to@ == earlier && second.to@ == later,
{
}

/// A scope is shown by its own name in lower case.
pub proof fn scopes_have_their_names()
    ensures
        Scope::Today.text() == "today"@,
        Scope::Week.text() == "week"@,
        Scope::Alltime.text() == "alltime"@,
        Scope::Custom.text() == "custom"@,
{
}

/// Unless it is a custom one, a window ends when the clock is read.
pub proof fn windows_go_up_to_the_clock(
    scope: Scope,
    region: Option<&str>,
    custom_from: Option<UtcInstant>,
    custom_to: Option<UtcInstant>,
    r: Result<TimeWindow, WindowError>,
) -> (now: Moment)
    requires
        call_ensures(TimeWindow::resolve, (scope, region, custom_from, custom_to), r),
        r is Ok,
    ensures
        is_clock_reading(now),
        now.secs >= 0,
        scope != Scope::Custom ==> r->Ok_0.to@ == now,
{
    choose|now: Moment|
        now.valid() && now.secs >= 0 && is_clock_reading(now) && #[trigger] is_window(
            r->Ok_0,
            now,
            scope,
            str_text(region),
            moment_of(custom_from),
            moment_of(custom_to),
        )
}

} // verus!
