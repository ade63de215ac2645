//! The date and recurrence expressions that users type: "15.Jan.2022",
//! "12.Feb", "Wednesday", "2.weeks".
use vstd::prelude::*;

use crate::date::{
    days_until_weekday, is_valid_date, julian_day_of, month_number, next_occurrence, weekday_of, year_of,
    Date, DateError, Month, Weekday, MAX_JULIAN_DAY,
};
use crate::text::{
    decimal_string, decimal_text, first_index_of, split_on,
    split_once_str, split_str, str_eq_ignore_ascii_case, str_equal, eq_ignore_ascii_case, number_in,
    parse_number_in,
};

verus! {

/// Why an expression was refused; each variant carries the offending text.
#[derive(Debug)]
pub enum DateSpecError {
    /// A token that should be a number in range is not.
    InvalidNumber(String),
    UnknownMonth(String),
    UnknownWeekday(String),
    UnknownPeriod(String),
    /// Fits none of the date forms ("day.month.year", "day.month", weekday).
    NotADate(String),
    /// Fits none of the recurrence forms.
    NotAnInterval(String),
}

/// `DateSpecError` with its texts as character sequences.
pub enum DateSpecFailure {
    InvalidNumber(Seq<char>),
    UnknownMonth(Seq<char>),
    UnknownWeekday(Seq<char>),
    UnknownPeriod(Seq<char>),
    NotADate(Seq<char>),
    NotAnInterval(Seq<char>),
}

impl View for DateSpecError {
    type V = DateSpecFailure;

    open spec fn view(&self) -> DateSpecFailure {
        match self {
            DateSpecError::InvalidNumber(t) => DateSpecFailure::InvalidNumber(t@),
            DateSpecError::UnknownMonth(t) => DateSpecFailure::UnknownMonth(t@),
            DateSpecError::UnknownWeekday(t) => DateSpecFailure::UnknownWeekday(t@),
            DateSpecError::UnknownPeriod(t) => DateSpecFailure::UnknownPeriod(t@),
            DateSpecError::NotADate(t) => DateSpecFailure::NotADate(t@),
            DateSpecError::NotAnInterval(t) => DateSpecFailure::NotAnInterval(t@),
        }
    }
}

/// The accepted date forms, as a message names them.
pub open spec fn date_grammar_text() -> Seq<char> {
    "Use day.month or day.month.year or weekday."@
}

/// What a refusal says: the offending text, and for a date the accepted forms.
pub open spec fn failure_text(f: DateSpecFailure) -> Seq<char> {
    match f {
        DateSpecFailure::InvalidNumber(t) => "invalid number: "@ + t,
        DateSpecFailure::UnknownMonth(t) => "No matching month name: "@ + t,
        DateSpecFailure::UnknownWeekday(t) => "No matching day of the week: "@ + t,
        DateSpecFailure::UnknownPeriod(t) => "unknown period: "@ + t,
        DateSpecFailure::NotADate(t) => "No matching date format found for '"@ + t + "'. "@
            + date_grammar_text(),
        DateSpecFailure::NotAnInterval(t) => "Unrecognized format for repeating date: "@ + t,
    }
}

impl DateSpecError {
    pub fn message(&self) -> (r: String)
        ensures
            r@ == failure_text(self@),
    {
        match self {
            DateSpecError::InvalidNumber(t) => String::from_str("invalid number: ").concat(
                t.as_str(),
            ),
            DateSpecError::UnknownMonth(t) => String::from_str("No matching month name: ").concat(
                t.as_str(),
            ),
            DateSpecError::UnknownWeekday(t) => String::from_str(
                "No matching day of the week: ",
            ).concat(t.as_str()),
            DateSpecError::UnknownPeriod(t) => String::from_str("unknown period: ").concat(
                t.as_str(),
            ),
            DateSpecError::NotADate(t) => {
                let m = String::from_str("No matching date format found for '").concat(t.as_str());
                m.concat("'. ").concat("Use day.month or day.month.year or weekday.")
            },
            DateSpecError::NotAnInterval(t) => String::from_str(
                "Unrecognized format for repeating date: ",
            ).concat(t.as_str()),
        }
    }
}

/// The day of the week that `s` names: the full English name or its first
/// three letters, in any case of ASCII letters.
pub open spec fn weekday_named(s: Seq<char>) -> Option<Weekday> {
    if eq_ignore_ascii_case(s, "monday"@) || eq_ignore_ascii_case(s, "mon"@) {
        Some(Weekday::Monday)
    } else if eq_ignore_ascii_case(s, "tuesday"@) || eq_ignore_ascii_case(s, "tue"@) {
        Some(Weekday::Tuesday)
    } else if eq_ignore_ascii_case(s, "wednesday"@) || eq_ignore_ascii_case(s, "wed"@) {
        Some(Weekday::Wednesday)
    } else if eq_ignore_ascii_case(s, "thursday"@) || eq_ignore_ascii_case(s, "thu"@) {
        Some(Weekday::Thursday)
    } else if eq_ignore_ascii_case(s, "friday"@) || eq_ignore_ascii_case(s, "fri"@) {
        Some(Weekday::Friday)
    } else if eq_ignore_ascii_case(s, "saturday"@) || eq_ignore_ascii_case(s, "sat"@) {
        Some(Weekday::Saturday)
    } else if eq_ignore_ascii_case(s, "sunday"@) || eq_ignore_ascii_case(s, "sun"@) {
        Some(Weekday::Sunday)
    } else {
        None
    }
}

/// The month that `s` names: the full English name or its first three
/// letters, in any case of ASCII letters.
pub open spec fn month_named(s: Seq<char>) -> Option<Month> {
    if eq_ignore_ascii_case(s, "january"@) || eq_ignore_ascii_case(s, "jan"@) {
        Some(Month::January)
    } else if eq_ignore_ascii_case(s, "february"@) || eq_ignore_ascii_case(s, "feb"@) {
        Some(Month::February)
    } else if eq_ignore_ascii_case(s, "march"@) || eq_ignore_ascii_case(s, "mar"@) {
        Some(Month::March)
    } else if eq_ignore_ascii_case(s, "april"@) || eq_ignore_ascii_case(s, "apr"@) {
        Some(Month::April)
    } else if eq_ignore_ascii_case(s, "may"@) {
        Some(Month::May)
    } else if eq_ignore_ascii_case(s, "june"@) || eq_ignore_ascii_case(s, "jun"@) {
        Some(Month::June)
    } else if eq_ignore_ascii_case(s, "july"@) || eq_ignore_ascii_case(s, "jul"@) {
        Some(Month::July)
    } else if eq_ignore_ascii_case(s, "august"@) || eq_ignore_ascii_case(s, "aug"@) {
        Some(Month::August)
    } else if eq_ignore_ascii_case(s, "september"@) || eq_ignore_ascii_case(s, "sep"@) {
        Some(Month::September)
    } else if eq_ignore_ascii_case(s, "october"@) || eq_ignore_ascii_case(s, "oct"@) {
        Some(Month::October)
    } else if eq_ignore_ascii_case(s, "november"@) || eq_ignore_ascii_case(s, "nov"@) {
        Some(Month::November)
    } else if eq_ignore_ascii_case(s, "december"@) || eq_ignore_ascii_case(s, "dec"@) {
        Some(Month::December)
    } else {
        None
    }
}

pub fn parse_weekday(s: &str) -> (r: Result<Weekday, DateSpecError>)
    ensures
        r matches Ok(w) ==> weekday_named(s@) == Some(w),
        r matches Err(e) ==> weekday_named(s@) is None && e@ == DateSpecFailure::UnknownWeekday(
            s@,
        ),
{
    if str_eq_ignore_ascii_case(s, "monday") || str_eq_ignore_ascii_case(s, "mon") {
        Ok(Weekday::Monday)
    } else if str_eq_ignore_ascii_case(s, "tuesday") || str_eq_ignore_ascii_case(s, "tue") {
        Ok(Weekday::Tuesday)
    } else if str_eq_ignore_ascii_case(s, "wednesday") || str_eq_ignore_ascii_case(s, "wed") {
        Ok(Weekday::Wednesday)
    } else if str_eq_ignore_ascii_case(s, "thursday") || str_eq_ignore_ascii_case(s, "thu") {
        Ok(Weekday::Thursday)
    } else if str_eq_ignore_ascii_case(s, "friday") || str_eq_ignore_ascii_case(s, "fri") {
        Ok(Weekday::Friday)
    } else if str_eq_ignore_ascii_case(s, "saturday") || str_eq_ignore_ascii_case(s, "sat") {
        Ok(Weekday::Saturday)
    } else if str_eq_ignore_ascii_case(s, "sunday") || str_eq_ignore_ascii_case(s, "sun") {
        Ok(Weekday::Sunday)
    } else {
        Err(DateSpecError::UnknownWeekday(String::from_str(s)))
    }
}

pub fn parse_month(s: &str) -> (r: Result<Month, DateSpecError>)
    ensures
        r matches Ok(m) ==> month_named(s@) == Some(m),
        r matches Err(e) ==> month_named(s@) is None && e@ == DateSpecFailure::UnknownMonth(s@),
{
    if str_eq_ignore_ascii_case(s, "january") || str_eq_ignore_ascii_case(s, "jan") {
        Ok(Month::January)
    } else if str_eq_ignore_ascii_case(s, "february") || str_eq_ignore_ascii_case(s, "feb") {
        Ok(Month::February)
    } else if str_eq_ignore_ascii_case(s, "march") || str_eq_ignore_ascii_case(s, "mar") {
        Ok(Month::March)
    } else if str_eq_ignore_ascii_case(s, "april") || str_eq_ignore_ascii_case(s, "apr") {
        Ok(Month::April)
    } else if str_eq_ignore_ascii_case(s, "may") {
        Ok(Month::May)
    } else if str_eq_ignore_ascii_case(s, "june") || str_eq_ignore_ascii_case(s, "jun") {
        Ok(Month::June)
    } else if str_eq_ignore_ascii_case(s, "july") || str_eq_ignore_ascii_case(s, "jul") {
        Ok(Month::July)
    } else if str_eq_ignore_ascii_case(s, "august") || str_eq_ignore_ascii_case(s, "aug") {
        Ok(Month::August)
    } else if str_eq_ignore_ascii_case(s, "september") || str_eq_ignore_ascii_case(s, "sep") {
        Ok(Month::September)
    } else if str_eq_ignore_ascii_case(s, "october") || str_eq_ignore_ascii_case(s, "oct") {
        Ok(Month::October)
    } else if str_eq_ignore_ascii_case(s, "november") || str_eq_ignore_ascii_case(s, "nov") {
        Ok(Month::November)
    } else if str_eq_ignore_ascii_case(s, "december") || str_eq_ignore_ascii_case(s, "dec") {
        Ok(Month::December)
    } else {
        Err(DateSpecError::UnknownMonth(String::from_str(s)))
    }
}

/// A one-off date as the user gave it.
#[derive(Clone, Copy, Debug, PartialEq, Eq, Structural)]
pub enum SpecificDate {
    /// The next day, from the reference date on, that falls on this weekday.
    Next(Weekday),
    OnDate(Date),
    /// Day and month in the year of the reference date.
    OnDayMonth(u8, Month),
}

/// The date that `s` writes in one of the accepted forms, if it does:
/// "day.month.year" naming an existing day, "day.month", or a weekday.
pub open spec fn specific_date_form(s: Seq<char>) -> Option<SpecificDate> {
    let parts = split_on(s, '.');
    if parts.len() == 3 {
        let day = number_in(parts[0], 0, 255);
        let month = month_named(parts[1]);
        let year = number_in(parts[2], i32::MIN as int, i32::MAX as int);
        if day is Some && month is Some && year is Some && is_valid_date(
            year->Some_0,
            month_number(month->Some_0),
            day->Some_0,
        ) {
            Some(
                SpecificDate::OnDate(
                    Date {
                        julian_day: julian_day_of(
                            year->Some_0,
                            month_number(month->Some_0),
                            day->Some_0,
                        ) as i32,
                    },
                ),
            )
        } else {
            None
        }
    } else if parts.len() == 2 {
        let day = number_in(parts[0], 0, 255);
        let month = month_named(parts[1]);
        if day is Some && month is Some {
            Some(SpecificDate::OnDayMonth(day->Some_0 as u8, month->Some_0))
        } else {
            None
        }
    } else if parts.len() == 1 {
        match weekday_named(s) {
            Some(w) => Some(SpecificDate::Next(w)),
            None => None,
        }
    } else {
        None
    }
}

/// What `SpecificDate::parse` makes of `s`: the date of the form it fits,
/// or an error that names the accepted forms.
pub open spec fn specific_date_of(s: Seq<char>) -> Result<SpecificDate, DateSpecFailure> {
    match specific_date_form(s) {
        Some(d) => Ok(d),
        None => Err(DateSpecFailure::NotADate(s)),
    }
}

impl SpecificDate {
    /// Reads "day.month.year", "day.month" or a bare weekday, told apart by
    /// the number of dots. Text that fits none of them is refused with an
    /// error that names the accepted forms.
    pub fn parse(s: &str) -> (r: Result<SpecificDate, DateSpecError>)
        ensures
            match r {
                Ok(d) => specific_date_of(s@) == Ok::<SpecificDate, DateSpecFailure>(d),
                Err(e) => specific_date_of(s@) == Err::<SpecificDate, DateSpecFailure>(e@),
            },
            r matches Ok(d) ==> d.wf(),
    {
        match Self::parse_form(s) {
            Some(d) => Ok(d),
            None => Err(DateSpecError::NotADate(String::from_str(s))),
        }
    }

    fn parse_form(s: &str) -> (r: Option<SpecificDate>)
        ensures
            r == specific_date_form(s@),
            r matches Some(d) ==> d.wf(),
    {
        let parts = split_str(s, '.');
        if parts.len() == 3 {
            let day = parse_number_in(parts[0].as_str(), 0, 255);
            let month = parse_month(parts[1].as_str());
            let year = parse_number_in(parts[2].as_str(), i32::MIN as i128, i32::MAX as i128);
            match (day, month, year) {
                (Some(day), Ok(month), Some(year)) => match Date::from_calendar_date(
                    year as i32,
                    month,
                    day as u8,
                ) {
                    Ok(d) => Some(SpecificDate::OnDate(d)),
                    Err(_) => None,
                },
                _ => None,
            }
        } else if parts.len() == 2 {
            let day = parse_number_in(parts[0].as_str(), 0, 255);
            let month = parse_month(parts[1].as_str());
            match (day, month) {
                (Some(day), Ok(month)) => Some(SpecificDate::OnDayMonth(day as u8, month)),
                _ => None,
            }
        } else if parts.len() == 1 {
            match parse_weekday(s) {
                Ok(w) => Some(SpecificDate::Next(w)),
                Err(_) => None,
            }
        } else {
            None
        }
    }

    /// A given date is representable.
    pub open spec fn wf(self) -> bool {
        self matches SpecificDate::OnDate(d) ==> d.wf()
    }

    /// What `next_date` returns, seen from `current`: a date stands for
    /// itself, a day and month lie in the year of `current`, and a weekday
    /// is its next occurrence on or after `current`.
    pub open spec fn resolves_to(self, current: Date, r: Result<Date, DateError>) -> bool {
        &&& r matches Ok(d) ==> d.wf()
        &&& self matches SpecificDate::OnDate(d) ==> r == Ok::<Date, DateError>(d)
        &&& self matches SpecificDate::OnDayMonth(day, month) ==> {
            let y = year_of(current.day_number());
            &&& r.is_ok() <==> is_valid_date(y, month_number(month), day as int)
            &&& r matches Ok(d) ==> d.day_number() == julian_day_of(y, month_number(month), day as int)
            &&& r matches Err(e) ==> e == (DateError::InvalidCalendarDate {
                year: y as i32,
                month: month_number(month) as u8,
                day,
            })
        }
        &&& self matches SpecificDate::Next(w) ==> {
            let days = days_until_weekday(current.day_number(), w);
            &&& r.is_ok() <==> current.day_number() + days <= MAX_JULIAN_DAY
            &&& r matches Ok(d) ==> d.day_number() == current.day_number() + days && weekday_of(
                d.day_number(),
            ) == w
            &&& r matches Err(e) ==> e == DateError::OutOfRange
        }
    }

    /// The concrete date meant, seen from `current`.
    pub fn next_date(self, current: Date) -> (r: Result<Date, DateError>)
        requires
            self.wf(),
            current.wf(),
        ensures
            self.resolves_to(current, r),
    {
        match self {
            SpecificDate::OnDate(d) => Ok(d),
            SpecificDate::OnDayMonth(day, month) => {
                let year = current.year();
                Date::from_calendar_date(year, month, day)
            },
            SpecificDate::Next(w) => match next_occurrence(current, w) {
                Some(d) => Ok(d),
                None => Err(DateError::OutOfRange),
            },
        }
    }
}

/// The length unit of a periodic recurrence.
#[derive(Clone, Copy, Debug, PartialEq, Eq, Structural)]
pub enum Period {
    Days,
    Weeks,
}

pub open spec fn period_length(p: Period) -> int {
    match p {
        Period::Days => 1,
        Period::Weeks => 7,
    }
}

/// How a reminder recurs.
#[derive(Clone, Copy, Debug, PartialEq, Eq, Structural)]
pub enum RepeatingDate {
    /// Every occurrence of this day of the week.
    Weekday(Weekday),
    /// Every `amount` days or weeks, counted from the anchor date.
    Periodic { amount: usize, period: Period },
}

impl RepeatingDate {
    /// A periodic recurrence repeats after at least one day.
    pub open spec fn wf(self) -> bool {
        self matches RepeatingDate::Periodic { amount, .. } ==> amount > 0
    }

    /// Reads a weekday, or "amount.unit" with a positive amount and a unit of
    /// "days" or "weeks".
    pub fn parse(s: &str) -> (r: Result<RepeatingDate, DateSpecError>)
        ensures
            match r {
                Ok(d) => repeating_date_of(s@) == Ok::<RepeatingDate, DateSpecFailure>(d),
                Err(e) => repeating_date_of(s@) == Err::<RepeatingDate, DateSpecFailure>(e@),
            },
            r matches Ok(d) ==> d.wf(),
    {
        if let Ok(w) = parse_weekday(s) {
            return Ok(RepeatingDate::Weekday(w));
        }
        match split_once_str(s, '.') {
            Some((digits, unit)) => {
                let amount = match parse_number_in(digits.as_str(), 1, usize::MAX as i128) {
                    Some(v) => v,
                    None => {
                        return Err(DateSpecError::InvalidNumber(digits));
                    },
                };
                let period = if str_equal(unit.as_str(), "days") {
                    Period::Days
                } else if str_equal(unit.as_str(), "weeks") {
                    Period::Weeks
                } else {
                    return Err(DateSpecError::UnknownPeriod(unit));
                };
                Ok(RepeatingDate::Periodic { amount: amount as usize, period })
            },
            None => Err(DateSpecError::NotAnInterval(String::from_str(s))),
        }
    }

    /// A short description: the weekday's name, or "every 2 Weeks".
    pub fn describe(self) -> (r: String)
        ensures
            r@ == repeating_date_text(self),
    {
        match self {
            RepeatingDate::Weekday(w) => String::from_str(weekday_display_name(w)),
            RepeatingDate::Periodic { amount, period } => {
                let text = String::from_str("every ").concat(decimal_string(amount as u64).as_str());
                let unit = match period {
                    Period::Days => " Days",
                    Period::Weeks => " Weeks",
                };
                text.concat(unit)
            },
        }
    }
}

/// What `RepeatingDate::parse` makes of `s`.
pub open spec fn repeating_date_of(s: Seq<char>) -> Result<RepeatingDate, DateSpecFailure> {
    match weekday_named(s) {
        Some(w) => Ok(RepeatingDate::Weekday(w)),
        None => match first_index_of(s, '.') {
            None => Err(DateSpecFailure::NotAnInterval(s)),
            Some(i) => {
                let digits = s.take(i);
                let unit = s.skip(i + 1);
                match number_in(digits, 1, usize::MAX as int) {
                    None => Err(DateSpecFailure::InvalidNumber(digits)),
                    Some(amount) => if unit == "days"@ {
                        Ok(RepeatingDate::Periodic { amount: amount as usize, period: Period::Days })
                    } else if unit == "weeks"@ {
                        Ok(
                            RepeatingDate::Periodic {
                                amount: amount as usize,
                                period: Period::Weeks,
                            },
                        )
                    } else {
                        Err(DateSpecFailure::UnknownPeriod(unit))
                    },
                }
            },
        },
    }
}

pub open spec fn weekday_display_text(w: Weekday) -> Seq<char> {
    match w {
        Weekday::Monday => "Monday"@,
        Weekday::Tuesday => "Tuesday"@,
        Weekday::Wednesday => "Wednesday"@,
        Weekday::Thursday => "Thursday"@,
        Weekday::Friday => "Friday"@,
        Weekday::Saturday => "Saturday"@,
        Weekday::Sunday => "Sunday"@,
    }
}

pub open spec fn repeating_date_text(d: RepeatingDate) -> Seq<char> {
    match d {
        RepeatingDate::Weekday(w) => weekday_display_text(w),
        RepeatingDate::Periodic { amount, period } => "every "@ + decimal_text(amount as nat) + (
        match period {
            Period::Days => " Days"@,
            Period::Weeks => " Weeks"@,
        }),
    }
}

fn weekday_display_name(w: Weekday) -> (r: &'static str)
    ensures
        r@ == weekday_display_text(w),
{
    match w {
        Weekday::Monday => "Monday",
        Weekday::Tuesday => "Tuesday",
        Weekday::Wednesday => "Wednesday",
        Weekday::Thursday => "Thursday",
        Weekday::Friday => "Friday",
        Weekday::Saturday => "Saturday",
        Weekday::Sunday => "Sunday",
    }
}

} // verus!
