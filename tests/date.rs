use journal::date::{day_distance, next_occurrence, Date, Month, Weekday};

#[test]
fn known_julian_days() {
    assert_eq!(Date::from_calendar_date(2000, Month::January, 1).unwrap().julian_day, 2_451_545);
    assert_eq!(Date::from_calendar_date(2019, Month::December, 31).unwrap().julian_day, 2_458_849);
}

#[test]
fn invalid_calendar_dates_are_refused() {
    assert!(Date::from_calendar_date(2019, Month::February, 29).is_err());
    assert!(Date::from_calendar_date(2020, Month::February, 29).is_ok());
    assert!(Date::from_calendar_date(2021, Month::April, 31).is_err());
    assert!(Date::from_calendar_date(2021, Month::April, 0).is_err());
    assert!(Date::from_calendar_date(10000, Month::April, 1).is_err());
}

#[test]
fn weekdays() {
    let d = Date::from_calendar_date(2021, Month::July, 19).unwrap();
    assert_eq!(d.weekday(), Weekday::Monday);
    assert_eq!(Date::from_calendar_date(2019, Month::September, 1).unwrap().weekday(), Weekday::Sunday);
    assert_eq!(Date::from_calendar_date(-4713, Month::November, 24).unwrap().weekday(), Weekday::Monday);
}

#[test]
fn next_occurrence_is_today_or_later_within_a_week() {
    let thursday = Date::from_calendar_date(2021, Month::July, 15).unwrap();
    assert_eq!(next_occurrence(thursday, Weekday::Thursday), Some(thursday));
    assert_eq!(
        next_occurrence(thursday, Weekday::Monday),
        Some(Date::from_calendar_date(2021, Month::July, 19).unwrap())
    );
    assert_eq!(
        next_occurrence(thursday, Weekday::Wednesday),
        Some(Date::from_calendar_date(2021, Month::July, 21).unwrap())
    );
}

#[test]
fn distance_and_text() {
    let a = Date::from_calendar_date(2021, Month::December, 24).unwrap();
    let b = Date::from_calendar_date(2022, Month::January, 3).unwrap();
    assert_eq!(day_distance(a, b), 10);
    assert_eq!(day_distance(b, a), -10);
    assert_eq!(a.to_text(), "2021-12-24");
    assert_eq!(a.to_calendar_date(), (2021, Month::December, 24));
    assert_eq!(a.year(), 2021);
}

#[test]
fn adding_days_stays_in_range() {
    let last = Date::from_calendar_date(9999, Month::December, 31).unwrap();
    assert!(last.add_days(1).is_none());
    assert_eq!(last.add_days(-1).unwrap().to_text(), "9999-12-30");
    assert!(next_occurrence(last, Weekday::Monday).is_none() || last.weekday() == Weekday::Monday);
}

#[test]
fn the_wall_clock_reads_a_recent_date() {
    let today = journal::date::WallClock.today();
    let start_of_2024 = Date::from_calendar_date(2024, Month::January, 1).unwrap();

    assert!(day_distance(start_of_2024, today) > 0);
}
