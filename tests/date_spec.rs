use journal::date::{Date, Month, Weekday};
use journal::date_spec::{DateSpecError, Period, RepeatingDate, SpecificDate};

#[test]
fn parses_day_month() {
    assert_eq!(SpecificDate::parse("12.Feb").unwrap(), SpecificDate::OnDayMonth(12, Month::February));
    assert_eq!(
        SpecificDate::parse("12.February").unwrap(),
        SpecificDate::OnDayMonth(12, Month::February)
    );
    assert_eq!(SpecificDate::parse("2.Feb").unwrap(), SpecificDate::OnDayMonth(2, Month::February));
    assert_eq!(SpecificDate::parse("2.feb").unwrap(), SpecificDate::OnDayMonth(2, Month::February));
}

#[test]
fn parses_day_month_year() {
    assert_eq!(
        SpecificDate::parse("15.Jan.2022").unwrap(),
        SpecificDate::OnDate(Date::from_calendar_date(2022, Month::January, 15).unwrap())
    );
}

#[test]
fn parses_weekday_in_any_case() {
    assert_eq!(SpecificDate::parse("Wednesday").unwrap(), SpecificDate::Next(Weekday::Wednesday));
    assert_eq!(SpecificDate::parse("wed").unwrap(), SpecificDate::Next(Weekday::Wednesday));
    assert_eq!(SpecificDate::parse("WEDNESDAY").unwrap(), SpecificDate::Next(Weekday::Wednesday));
    assert_eq!(SpecificDate::parse("Sun").unwrap(), SpecificDate::Next(Weekday::Sunday));
}

#[test]
fn refuses_malformed_dates_naming_the_accepted_forms() {
    for input in ["x.Feb", "300.Feb", "12.Fbr", "someday", "Someday", "", "1.2.3.4", "30.Feb.2022", "1.Jan.x"] {
        match SpecificDate::parse(input) {
            Err(e) => {
                assert!(matches!(&e, DateSpecError::NotADate(t) if t == input));
                let message = e.message();
                assert!(message.contains("Use day.month or day.month.year or weekday."));
                assert!(message.contains(input));
            }
            Ok(d) => panic!("{} parsed as {:?}", input, d),
        }
    }
}

#[test]
fn parses_repeating_dates() {
    assert_eq!(RepeatingDate::parse("Wednesday").unwrap(), RepeatingDate::Weekday(Weekday::Wednesday));
    assert_eq!(
        RepeatingDate::parse("2.days").unwrap(),
        RepeatingDate::Periodic { amount: 2, period: Period::Days }
    );
    assert_eq!(
        RepeatingDate::parse("7.weeks").unwrap(),
        RepeatingDate::Periodic { amount: 7, period: Period::Weeks }
    );
}

#[test]
fn negative_amount_names_the_number() {
    assert!(matches!(RepeatingDate::parse("-1.months"), Err(DateSpecError::InvalidNumber(t)) if t == "-1"));
    assert!(matches!(RepeatingDate::parse("0.days"), Err(DateSpecError::InvalidNumber(t)) if t == "0"));
}

#[test]
fn any_positive_amount_that_fits_is_accepted() {
    assert_eq!(
        RepeatingDate::parse("5000000000.days").unwrap(),
        RepeatingDate::Periodic { amount: 5_000_000_000, period: Period::Days }
    );
    assert_eq!(
        RepeatingDate::parse("+3.weeks").unwrap(),
        RepeatingDate::Periodic { amount: 3, period: Period::Weeks }
    );
    assert!(matches!(
        RepeatingDate::parse("99999999999999999999999.days"),
        Err(DateSpecError::InvalidNumber(_))
    ));
}

#[test]
fn messages_cite_the_offending_text() {
    assert_eq!(RepeatingDate::parse("1.fortnights").unwrap_err().message(), "unknown period: fortnights");
    assert_eq!(RepeatingDate::parse("-1.months").unwrap_err().message(), "invalid number: -1");
}

#[test]
fn unknown_period_names_the_unit() {
    assert!(matches!(
        RepeatingDate::parse("1.fortnights"),
        Err(DateSpecError::UnknownPeriod(t)) if t == "fortnights"
    ));
}

#[test]
fn text_that_is_no_recurrence() {
    assert!(matches!(
        RepeatingDate::parse("quaselgoop"),
        Err(DateSpecError::NotAnInterval(t)) if t == "quaselgoop"
    ));
}

#[test]
fn describes_recurrences() {
    assert_eq!(RepeatingDate::Weekday(Weekday::Friday).describe(), "Friday");
    assert_eq!(RepeatingDate::Periodic { amount: 12, period: Period::Days }.describe(), "every 12 Days");
}
