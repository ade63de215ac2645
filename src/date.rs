//! Civil calendar dates, held as Julian day numbers.
//!
//! A `Date` is the Julian day number that the `time` crate assigns to a
//! calendar day. Day arithmetic and the day of the week are plain integer
//! arithmetic on that number; conversions from and to year, month and day go
//! through `time`.
use vstd::prelude::*;
use vstd::arithmetic::div_mod::{
    lemma_fundamental_div_mod, lemma_fundamental_div_mod_converse, lemma_mod_multiples_vanish,
    lemma_mod_pos_bound,
};

verus! {

/// Smallest year that `time` represents (without its `large-dates` feature).
pub const MIN_YEAR: i32 = -9999;

/// Largest year that `time` represents (without its `large-dates` feature).
pub const MAX_YEAR: i32 = 9999;

/// Julian day number of -9999-01-01, the first date that `time` represents.
pub const MIN_JULIAN_DAY: i32 = -1930999;

/// Julian day number of 9999-12-31, the last date that `time` represents.
pub const MAX_JULIAN_DAY: i32 = 5373484;

/// A multiple of seven that makes every valid Julian day number non-negative.
const WEEK_ALIGNED_SHIFT: i32 = 1931006;

pub open spec fn is_leap_year(year: int) -> bool {
    year % 4 == 0 && (year % 100 != 0 || year % 400 == 0)
}

pub open spec fn days_in_month(year: int, month: int) -> int {
    if month == 2 {
        if is_leap_year(year) {
            29
        } else {
            28
        }
    } else if month == 4 || month == 6 || month == 9 || month == 11 {
        30
    } else {
        31
    }
}

/// Days of the year that lie before the first of `month`.
pub open spec fn days_before_month(year: int, month: int) -> int
    decreases month,
{
    if month <= 1 {
        0
    } else {
        days_before_month(year, month - 1) + days_in_month(year, month - 1)
    }
}

/// Whether year, month and day name a day of the calendar that `time` represents.
pub open spec fn is_valid_date(year: int, month: int, day: int) -> bool {
    &&& MIN_YEAR <= year <= MAX_YEAR
    &&& 1 <= month <= 12
    &&& 1 <= day <= days_in_month(year, month)
}

/// The Julian day number of the last day before January 1 of `year`, as
/// `time` computes it.
pub open spec fn year_start(year: int) -> int {
    let adj_year = year + 999_999;
    let century = adj_year / 100;
    1461 * adj_year / 4 - century + century / 4 - 363_521_075
}

/// The Julian day number of a valid calendar date, as `time` computes it
/// from the year and the day of the year.
pub open spec fn julian_day_of(year: int, month: int, day: int) -> int {
    year_start(year) + days_before_month(year, month) + day
}

pub open spec fn days_in_year(year: int) -> int {
    if is_leap_year(year) {
        366
    } else {
        365
    }
}

proof fn lemma_div_step(a: int, b: int)
    requires
        a >= 0,
        b > 0,
    ensures
        (a + 1) / b == a / b + if (a + 1) % b == 0 {
            1int
        } else {
            0
        },
{
    lemma_fundamental_div_mod(a, b);
    lemma_mod_pos_bound(a, b);
    let q = a / b;
    let r = a % b;
    if r + 1 == b {
        assert(a + 1 == (q + 1) * b + 0) by (nonlinear_arith)
            requires
                a == b * q + r,
                r + 1 == b,
        ;
        lemma_fundamental_div_mod_converse(a + 1, b, q + 1, 0);
    } else {
        assert(a + 1 == q * b + (r + 1)) by (nonlinear_arith)
            requires
                a == b * q + r,
        ;
        lemma_fundamental_div_mod_converse(a + 1, b, q, r + 1);
    }
}

/// `1461 * a / 4` is `365 * a + a / 4`.
proof fn lemma_quad_year_days(a: int)
    requires
        a >= 0,
    ensures
        1461 * a / 4 == 365 * a + a / 4,
{
    lemma_fundamental_div_mod(a, 4);
    lemma_mod_pos_bound(a, 4);
    assert(1461 * a == (365 * a + a / 4) * 4 + a % 4) by (nonlinear_arith)
        requires
            a == 4 * (a / 4) + a % 4,
    ;
    lemma_fundamental_div_mod_converse(1461 * a, 4, 365 * a + a / 4, a % 4);
}

proof fn lemma_year_start_step(year: int)
    requires
        year >= -999_999,
    ensures
        year_start(year + 1) == year_start(year) + days_in_year(year),
{
    let a = year + 999_999;
    lemma_quad_year_days(a);
    lemma_quad_year_days(a + 1);
    lemma_div_step(a, 4);
    lemma_div_step(a, 100);
    let c = a / 100;
    let c1 = (a + 1) / 100;
    lemma_mod_pos_bound(a, 100);
    lemma_fundamental_div_mod(a, 100);
    assert(c >= 0) by {
        lemma_fundamental_div_mod_converse(a, 100, a / 100, a % 100);
    }
    lemma_mod_multiples_vanish(250_000, year, 4);
    lemma_mod_multiples_vanish(10_000, year, 100);
    lemma_mod_multiples_vanish(2_500, year, 400);
    assert(a + 1 == 4 * 250_000 + year);
    assert(a + 1 == 100 * 10_000 + year);
    assert(a + 1 == 400 * 2_500 + year);
    if (a + 1) % 100 == 0 {
        lemma_div_step(c, 4);
        lemma_fundamental_div_mod(a + 1, 100);
        lemma_fundamental_div_mod(c1, 4);
        lemma_mod_pos_bound(c1, 4);
        assert(a + 1 == 400 * (c1 / 4) + 100 * (c1 % 4)) by (nonlinear_arith)
            requires
                a + 1 == 100 * c1 + 0,
                c1 == 4 * (c1 / 4) + c1 % 4,
        ;
        lemma_fundamental_div_mod_converse(a + 1, 400, c1 / 4, 100 * (c1 % 4));
    }
}

proof fn lemma_year_start_increases(y1: int, y2: int)
    requires
        -999_999 <= y1 < y2,
    ensures
        year_start(y2) >= year_start(y1) + days_in_year(y1),
    decreases y2 - y1,
{
    lemma_year_start_step(y1);
    if y1 + 1 < y2 {
        lemma_year_start_increases(y1 + 1, y2);
    }
}

proof fn lemma_day_of_year_bounds(year: int, month: int, day: int)
    requires
        is_valid_date(year, month, day),
    ensures
        1 <= days_before_month(year, month) + day <= days_in_year(year),
{
    reveal_with_fuel(days_before_month, 13);
}

/// Whether the date with this day number falls in `year`.
pub open spec fn is_year_of(year: int, day_number: int) -> bool {
    exists|m: int, d: int|
        #[trigger] is_valid_date(year, m, d) && julian_day_of(year, m, d) == day_number
}

/// The year that the date with this day number falls in.
pub open spec fn year_of(day_number: int) -> int {
    choose|y: int| is_year_of(y, day_number)
}

/// A day number lies in one year only.
pub proof fn lemma_year_of_day_unique(y1: int, m1: int, d1: int, y2: int, m2: int, d2: int)
    requires
        is_valid_date(y1, m1, d1),
        is_valid_date(y2, m2, d2),
        julian_day_of(y1, m1, d1) == julian_day_of(y2, m2, d2),
    ensures
        y1 == y2,
{
    lemma_day_of_year_bounds(y1, m1, d1);
    lemma_day_of_year_bounds(y2, m2, d2);
    if y1 < y2 {
        lemma_year_start_increases(y1, y2);
    } else if y2 < y1 {
        lemma_year_start_increases(y2, y1);
    }
}

/// The text `time` shows for the date with this Julian day number ("2022-01-15").
pub uninterp spec fn date_text_of(julian_day: int) -> Seq<char>;

#[derive(Clone, Copy, Debug, PartialEq, Eq, Structural)]
pub enum Weekday {
    Monday,
    Tuesday,
    Wednesday,
    Thursday,
    Friday,
    Saturday,
    Sunday,
}

/// Days since Monday: Monday is 0, Sunday is 6.
pub open spec fn weekday_index(w: Weekday) -> int {
    match w {
        Weekday::Monday => 0,
        Weekday::Tuesday => 1,
        Weekday::Wednesday => 2,
        Weekday::Thursday => 3,
        Weekday::Friday => 4,
        Weekday::Saturday => 5,
        Weekday::Sunday => 6,
    }
}

pub open spec fn weekday_from_index(i: int) -> Weekday {
    if i == 0 {
        Weekday::Monday
    } else if i == 1 {
        Weekday::Tuesday
    } else if i == 2 {
        Weekday::Wednesday
    } else if i == 3 {
        Weekday::Thursday
    } else if i == 4 {
        Weekday::Friday
    } else if i == 5 {
        Weekday::Saturday
    } else {
        Weekday::Sunday
    }
}

/// The day of the week of a Julian day number: day 0 was a Monday.
pub open spec fn weekday_of(julian_day: int) -> Weekday {
    weekday_from_index(julian_day % 7)
}

impl Weekday {
    pub fn index(self) -> (r: u8)
        ensures
            r as int == weekday_index(self),
    {
        match self {
            Weekday::Monday => 0,
            Weekday::Tuesday => 1,
            Weekday::Wednesday => 2,
            Weekday::Thursday => 3,
            Weekday::Friday => 4,
            Weekday::Saturday => 5,
            Weekday::Sunday => 6,
        }
    }

    pub fn from_index(i: u8) -> (r: Weekday)
        requires
            i < 7,
        ensures
            r == weekday_from_index(i as int),
            weekday_index(r) == i as int,
    {
        if i == 0 {
            Weekday::Monday
        } else if i == 1 {
            Weekday::Tuesday
        } else if i == 2 {
            Weekday::Wednesday
        } else if i == 3 {
            Weekday::Thursday
        } else if i == 4 {
            Weekday::Friday
        } else if i == 5 {
            Weekday::Saturday
        } else {
            Weekday::Sunday
        }
    }
}

#[derive(Clone, Copy, Debug, PartialEq, Eq, Structural)]
pub enum Month {
    January,
    February,
    March,
    April,
    May,
    June,
    July,
    August,
    September,
    October,
    November,
    December,
}

/// The month's number, January being 1.
pub open spec fn month_number(m: Month) -> int {
    match m {
        Month::January => 1,
        Month::February => 2,
        Month::March => 3,
        Month::April => 4,
        Month::May => 5,
        Month::June => 6,
        Month::July => 7,
        Month::August => 8,
        Month::September => 9,
        Month::October => 10,
        Month::November => 11,
        Month::December => 12,
    }
}

impl Month {
    pub fn number(self) -> (r: u8)
        ensures
            r as int == month_number(self),
            1 <= r <= 12,
    {
        match self {
            Month::January => 1,
            Month::February => 2,
            Month::March => 3,
            Month::April => 4,
            Month::May => 5,
            Month::June => 6,
            Month::July => 7,
            Month::August => 8,
            Month::September => 9,
            Month::October => 10,
            Month::November => 11,
            Month::December => 12,
        }
    }

    pub fn from_number(n: u8) -> (r: Option<Month>)
        ensures
            r.is_some() <==> 1 <= n <= 12,
            r matches Some(m) ==> month_number(m) == n as int,
    {
        if n == 1 {
            Some(Month::January)
        } else if n == 2 {
            Some(Month::February)
        } else if n == 3 {
            Some(Month::March)
        } else if n == 4 {
            Some(Month::April)
        } else if n == 5 {
            Some(Month::May)
        } else if n == 6 {
            Some(Month::June)
        } else if n == 7 {
            Some(Month::July)
        } else if n == 8 {
            Some(Month::August)
        } else if n == 9 {
            Some(Month::September)
        } else if n == 10 {
            Some(Month::October)
        } else if n == 11 {
            Some(Month::November)
        } else if n == 12 {
            Some(Month::December)
        } else {
            None
        }
    }
}

/// Relies on `time::Month::try_from`, `time::Date::from_calendar_date` and
/// `time::Date::to_julian_day`: a date exists exactly for a year in range, a
/// month from 1 to 12 and a day within that month, and its Julian day number
/// is computed from the year and the day of the year.
#[verifier::external_body]
fn julian_day_from_calendar(year: i32, month: u8, day: u8) -> (r: Option<i32>)
    ensures
        r.is_some() <==> is_valid_date(year as int, month as int, day as int),
        r matches Some(jd) ==> jd as int == julian_day_of(year as int, month as int, day as int),
        r matches Some(jd) ==> MIN_JULIAN_DAY <= jd <= MAX_JULIAN_DAY,
{
    let month = time::Month::try_from(month).ok()?;
    time::Date::from_calendar_date(year, month, day).ok().map(|d| d.to_julian_day())
}

/// Relies on `time::Date::from_julian_day` and `time::Date::to_calendar_date`:
/// every Julian day number between those of `Date::MIN` and `Date::MAX` is a
/// date, and its year, month and day give that number back.
#[verifier::external_body]
fn calendar_from_julian_day(jd: i32) -> (r: (i32, u8, u8))
    requires
        MIN_JULIAN_DAY <= jd <= MAX_JULIAN_DAY,
    ensures
        is_valid_date(r.0 as int, r.1 as int, r.2 as int),
        julian_day_of(r.0 as int, r.1 as int, r.2 as int) == jd as int,
{
    let (year, month, day) = time::Date::from_julian_day(jd).unwrap().to_calendar_date();
    (year, month as u8, day)
}

/// Relies on `time::Date`'s `Display`: the date as year, month and day,
/// zero-padded and separated by dashes.
#[verifier::external_body]
fn text_from_julian_day(jd: i32) -> (r: String)
    requires
        MIN_JULIAN_DAY <= jd <= MAX_JULIAN_DAY,
    ensures
        r@ == date_text_of(jd as int),
{
    time::Date::from_julian_day(jd).unwrap().to_string()
}

/// Relies on `time::OffsetDateTime::now_utc` and `time::Date::to_julian_day`:
/// today's date in UTC, which lies within the dates that `time` represents.
#[verifier::external_body]
fn julian_day_now_utc() -> (r: i32)
    ensures
        MIN_JULIAN_DAY <= r <= MAX_JULIAN_DAY,
{
    time::OffsetDateTime::now_utc().date().to_julian_day()
}

/// The clock of the machine.
pub struct WallClock;

impl WallClock {
    /// Today's date in UTC.
    pub fn today(&self) -> (r: Date)
        ensures
            r.wf(),
    {
        Date { julian_day: julian_day_now_utc() }
    }
}

/// A civil calendar date, as its Julian day number.
#[derive(Clone, Copy, Debug, PartialEq, Eq, Structural)]
pub struct Date {
    pub julian_day: i32,
}

/// Why a date could not be built.
#[derive(Clone, Copy, Debug, PartialEq, Eq, Structural)]
pub enum DateError {
    /// Year, month and day name no day of the calendar (such as February 30).
    InvalidCalendarDate { year: i32, month: u8, day: u8 },
    /// The date lies outside the years that can be represented.
    OutOfRange,
}

impl Date {
    /// The date lies within the represented years.
    pub open spec fn wf(self) -> bool {
        MIN_JULIAN_DAY <= self.julian_day <= MAX_JULIAN_DAY
    }

    pub open spec fn day_number(self) -> int {
        self.julian_day as int
    }

    pub fn from_calendar_date(year: i32, month: Month, day: u8) -> (r: Result<Date, DateError>)
        ensures
            r.is_ok() <==> is_valid_date(year as int, month_number(month), day as int),
            r matches Ok(d) ==> d.wf() && d.day_number() == julian_day_of(
                year as int,
                month_number(month),
                day as int,
            ),
            r matches Err(e) ==> e == (DateError::InvalidCalendarDate {
                year,
                month: month_number(month) as u8,
                day,
            }),
    {
        let m = month.number();
        match julian_day_from_calendar(year, m, day) {
            Some(jd) => Ok(Date { julian_day: jd }),
            None => Err(DateError::InvalidCalendarDate { year, month: m, day }),
        }
    }

    pub fn from_julian_day(jd: i32) -> (r: Result<Date, DateError>)
        ensures
            r.is_ok() <==> MIN_JULIAN_DAY <= jd <= MAX_JULIAN_DAY,
            r matches Ok(d) ==> d.julian_day == jd,
            r matches Err(e) ==> e == DateError::OutOfRange,
    {
        if MIN_JULIAN_DAY <= jd && jd <= MAX_JULIAN_DAY {
            Ok(Date { julian_day: jd })
        } else {
            Err(DateError::OutOfRange)
        }
    }

    /// Year, month and day of the date.
    pub fn to_calendar_date(self) -> (r: (i32, Month, u8))
        requires
            self.wf(),
        ensures
            is_valid_date(r.0 as int, month_number(r.1), r.2 as int),
            julian_day_of(r.0 as int, month_number(r.1), r.2 as int) == self.day_number(),
    {
        let (year, m, day) = calendar_from_julian_day(self.julian_day);
        let month = Month::from_number(m);
        (year, month.unwrap(), day)
    }

    pub fn year(self) -> (r: i32)
        requires
            self.wf(),
        ensures
            MIN_YEAR <= r <= MAX_YEAR,
            r as int == year_of(self.day_number()),
    {
        let (year, month, day) = self.to_calendar_date();
        proof {
            let y = year_of(self.day_number());
            assert(is_year_of(year as int, self.day_number())) by {
                assert(is_valid_date(year as int, month_number(month), day as int));
            }
            let (m2, d2) = choose|m: int, d: int|
                #[trigger] is_valid_date(y, m, d) && julian_day_of(y, m, d) == self.day_number();
            lemma_year_of_day_unique(year as int, month_number(month), day as int, y, m2, d2);
        }
        year
    }

    pub fn weekday(self) -> (r: Weekday)
        requires
            self.wf(),
        ensures
            r == weekday_of(self.day_number()),
    {
        let shifted = (self.julian_day + WEEK_ALIGNED_SHIFT) as u32;
        let i = (shifted % 7) as u8;
        assert(i as int == self.day_number() % 7) by {
            assert(WEEK_ALIGNED_SHIFT as int == 7 * 275858);
        }
        Weekday::from_index(i)
    }

    /// The date `days` days later (earlier, for a negative count), if it can be represented.
    pub fn add_days(self, days: i32) -> (r: Option<Date>)
        requires
            self.wf(),
        ensures
            r.is_some() <==> MIN_JULIAN_DAY <= self.day_number() + days <= MAX_JULIAN_DAY,
            r matches Some(d) ==> d.day_number() == self.day_number() + days,
    {
        let sum = self.julian_day as i64 + days as i64;
        if MIN_JULIAN_DAY as i64 <= sum && sum <= MAX_JULIAN_DAY as i64 {
            Some(Date { julian_day: sum as i32 })
        } else {
            None
        }
    }

    /// The date as `time` writes it ("2022-01-15").
    pub fn to_text(self) -> (r: String)
        requires
            self.wf(),
        ensures
            r@ == date_text_of(self.day_number()),
    {
        text_from_julian_day(self.julian_day)
    }
}

/// Signed number of days from `from` to `to`.
pub fn day_distance(from: Date, to: Date) -> (r: i32)
    requires
        from.wf(),
        to.wf(),
    ensures
        r as int == to.day_number() - from.day_number(),
{
    to.julian_day - from.julian_day
}

/// Days from `from` until the next day that is a `weekday`: 0 when `from` is one.
pub open spec fn days_until_weekday(from: int, weekday: Weekday) -> int {
    (weekday_index(weekday) - from % 7 + 7) % 7
}

/// The first date on or after `from` that falls on `weekday`, if it can be represented.
pub fn next_occurrence(from: Date, weekday: Weekday) -> (r: Option<Date>)
    requires
        from.wf(),
    ensures
        r.is_some() <==> from.day_number() + days_until_weekday(from.day_number(), weekday)
            <= MAX_JULIAN_DAY,
        r matches Some(d) ==> {
            &&& d.wf()
            &&& d.day_number() == from.day_number() + days_until_weekday(from.day_number(), weekday)
            &&& weekday_of(d.day_number()) == weekday
            &&& from.day_number() <= d.day_number() < from.day_number() + 7
            &&& forall|k: int|
                from.day_number() <= k < d.day_number() ==> weekday_of(k) != weekday
        },
{
    let mut next = from;
    let mut steps: u8 = 0;
    while next.weekday() != weekday
        invariant
            from.wf(),
            next.wf(),
            steps <= 6,
            next.day_number() == from.day_number() + steps,
            forall|k: int| from.day_number() <= k < next.day_number() ==> weekday_of(k) != weekday,
            steps as int <= days_until_weekday(from.day_number(), weekday),
        decreases days_until_weekday(from.day_number(), weekday) - steps,
    {
        assert(steps < days_until_weekday(from.day_number(), weekday)) by {
            if steps == days_until_weekday(from.day_number(), weekday) {
                assert(next.day_number() % 7 == weekday_index(weekday));
            }
        }
        match next.add_days(1) {
            Some(d) => {
                next = d;
                steps = steps + 1;
            },
            None => {
                return None;
            },
        }
    }
    assert(steps as int == days_until_weekday(from.day_number(), weekday));
    Some(next)
}

} // verus!
