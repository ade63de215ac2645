use journal::date::{next_occurrence, Date, Month, Weekday};
use journal::date_spec::{Period, RepeatingDate, SpecificDate};
use journal::reminders::{ReminderCmd, ReminderCmdError, ReminderOutcome, Reminders, StoredReminder};

fn date(year: i32, month: Month, day: u8) -> Date {
    Date::from_calendar_date(year, month, day).unwrap()
}

fn after(today: Date, days: i32) -> Date {
    today.add_days(days).unwrap()
}

fn advance_to(today: Date, weekday: Weekday) -> Date {
    next_occurrence(today, weekday).unwrap()
}

fn weekly(amount: usize) -> RepeatingDate {
    RepeatingDate::Periodic { amount, period: Period::Weeks }
}

fn reminders() -> Reminders {
    Reminders::new()
}

#[test]
fn repeating_reminders() {
    let mut clock = date(2021, Month::July, 15);
    let mut reminders = reminders();

    clock = advance_to(clock, Weekday::Monday);
    reminders.every(clock, &RepeatingDate::Weekday(Weekday::Wednesday), "Email someone");

    clock = advance_to(clock, Weekday::Wednesday);
    let todays_reminders = reminders.for_today(clock);
    assert_eq!(todays_reminders, vec!["Email someone".to_string()]);

    clock = after(clock, 1); // Thursday
    reminders.every(clock, &weekly(2), "Second task");

    clock = after(clock, 7); // next Thursday
    let todays_reminders = reminders.for_today(clock);
    assert!(todays_reminders.is_empty());

    clock = after(clock, 7); // Thursday after that...
    let todays_reminders = reminders.for_today(clock);
    assert_eq!(todays_reminders, vec!["Second task".to_string()]);
}

#[test]
fn adding_multiple_reminders_on_filesystem() {
    let mut clock = date(2021, Month::July, 15);

    let mut reminders = reminders();

    reminders.on_date(after(clock, 3), "First task".to_string());
    reminders.on_date(after(clock, 4), "Second task".to_string());
    reminders.on_date(after(clock, 4), "Third task".to_string());

    let todays_reminders = reminders.for_today(clock);
    assert!(todays_reminders.is_empty());

    clock = after(clock, 3);

    let todays_reminders = reminders.for_today(clock);
    assert_eq!(todays_reminders, vec!["First task".to_string()]);

    clock = after(clock, 1);
    let todays_reminders = reminders.for_today(clock);
    assert_eq!(
        todays_reminders,
        vec!["Second task".to_string(), "Third task".to_string()]
    );

    clock = after(clock, 1);
    let todays_reminders = reminders.for_today(clock);
    assert!(todays_reminders.is_empty());
}

fn five_reminders() -> Reminders {
    let mut clock = date(2021, Month::July, 15);
    let mut reminders = reminders();

    clock = advance_to(clock, Weekday::Monday);
    reminders.every(clock, &RepeatingDate::Weekday(Weekday::Wednesday), "One");
    reminders.every(clock, &weekly(2), "Two");
    reminders.on_date(after(clock, 3), "Three".to_string());
    reminders.on_date(after(clock, 4), "Four".to_string());
    reminders.on_date(after(clock, 4), "Five".to_string());
    reminders
}

#[test]
fn lists_all_currently_tracked_reminders() {
    let reminders = five_reminders();

    assert_eq!(reminders.all().len(), 5);
}

#[test]
fn can_delete_reminders() {
    let mut reminders = five_reminders();

    assert_eq!(reminders.all().len(), 5);

    reminders.delete(3).unwrap(); // should be the "Three"
    assert_eq!(reminders.all().len(), 4);

    let existing_reminders = reminders
        .all()
        .into_iter()
        .map(|reminders| reminders.reminder)
        .collect::<Vec<_>>();

    assert_eq!(
        existing_reminders,
        &["One", "Two", /* deleted: Three */ "Four", "Five"]
    );
}

#[test]
fn reports_when_the_number_to_delete_is_out_of_range() {
    let clock = date(2021, Month::July, 15);
    let mut reminders = reminders();

    reminders.on_date(clock, "Awesome".to_string());
    let result = reminders.delete(3);

    let err = result.unwrap_err();
    assert_eq!(err.message(), "There is no reminder '3'");
}

#[test]
fn delete_refuses_zero_and_keeps_the_store() {
    let mut reminders = five_reminders();

    let err = reminders.delete(0).unwrap_err();

    assert_eq!(err.message(), "There is no reminder '0'");
    assert_eq!(reminders.len(), 5);
    assert!(reminders.delete(6).is_err());
    assert!(reminders.delete(5).is_ok());
    assert_eq!(reminders.len(), 4);
}

#[test]
fn listing_numbers_from_one_and_shows_schedules() {
    let reminders = five_reminders();

    let lines = reminders.all();

    assert_eq!(lines[0].nr, 1);
    assert_eq!(lines[0].date, "Wednesday");
    assert_eq!(lines[1].date, "every 2 Weeks");
    assert_eq!(lines[2].nr, 3);
    assert_eq!(lines[2].date, "2021-07-22");
    assert_eq!(lines[4].reminder, "Five");
}

#[test]
fn specifics_dates_are_their_own_next_date() {
    let jan_15_2022 = date(2022, Month::January, 15);
    let specific_date = SpecificDate::OnDate(jan_15_2022);

    let next_date = specific_date.next_date(date(2022, Month::January, 10)).unwrap();

    assert_eq!(jan_15_2022, next_date);
}

#[test]
fn day_month_dates_use_year_of_item_if_possible() {
    let specific_date = SpecificDate::OnDayMonth(9, Month::December);

    let dez_7_2021 = date(2021, Month::December, 7);
    let next_date = specific_date.next_date(dez_7_2021).unwrap();

    assert_eq!(date(2021, Month::December, 9), next_date);
}

#[test]
fn weekday_picks_next_available_weekday() {
    let specific_date = SpecificDate::Next(Weekday::Wednesday);

    let dez_7_2021 = date(2021, Month::December, 7);
    let next_date = specific_date.next_date(dez_7_2021).unwrap();

    assert_eq!(date(2021, Month::December, 8), next_date);
}

#[test]
fn day_month_that_does_not_exist_this_year_is_an_error() {
    let specific_date = SpecificDate::OnDayMonth(29, Month::February);

    assert!(specific_date.next_date(date(2021, Month::March, 1)).is_err());
    assert_eq!(
        specific_date.next_date(date(2024, Month::March, 1)).unwrap(),
        date(2024, Month::February, 29)
    );
}

#[test]
fn concrete_reminder_is_due_only_on_its_date() {
    let day = date(2021, Month::July, 15);
    let mut reminders = reminders();
    reminders.on_date(day, "Once".to_string());

    assert_eq!(reminders.for_today(day), vec!["Once".to_string()]);
    assert!(reminders.for_today(after(day, 1)).is_empty());
    assert!(reminders.for_today(after(day, -1)).is_empty());
    assert!(reminders.for_today(after(day, 365)).is_empty());
}

#[test]
fn weekday_reminder_is_due_on_every_matching_day() {
    let monday = date(2021, Month::July, 19);
    let mut reminders = reminders();
    reminders.every(monday, &RepeatingDate::Weekday(Weekday::Wednesday), "Email someone");

    assert!(reminders.for_today(monday).is_empty());
    assert_eq!(reminders.for_today(after(monday, 2)), vec!["Email someone".to_string()]);
    for offset in [-5, 9, 16, 702] {
        assert_eq!(reminders.for_today(after(monday, offset)).len(), 1);
    }
    for offset in [1, 3, 4, 5, 6, 7] {
        assert!(reminders.for_today(after(monday, offset)).is_empty());
    }
}

#[test]
fn fortnightly_reminder_is_due_every_other_week() {
    let anchor = date(2021, Month::July, 22);
    let mut reminders = reminders();
    reminders.every(anchor, &weekly(2), "Second task");

    for offset in [0, 14, 28, -14, 140] {
        assert_eq!(reminders.for_today(after(anchor, offset)).len(), 1);
    }
    for offset in [7, 21, 1, 13, -7] {
        assert!(reminders.for_today(after(anchor, offset)).is_empty());
    }
}

#[test]
fn daily_reminder_every_three_days() {
    let anchor = date(2021, Month::July, 22);
    let mut reminders = reminders();
    reminders.every(
        anchor,
        &RepeatingDate::Periodic { amount: 3, period: Period::Days },
        "Water plants",
    );

    assert_eq!(reminders.for_today(after(anchor, 3)).len(), 1);
    assert_eq!(reminders.for_today(after(anchor, -6)).len(), 1);
    assert!(reminders.for_today(after(anchor, 4)).is_empty());
}

#[test]
fn store_refuses_a_periodic_reminder_of_zero_days() {
    let anchor = date(2021, Month::July, 22);
    let entries = vec![StoredReminder::Recurring {
        start: anchor,
        interval: RepeatingDate::Periodic { amount: 0, period: Period::Days },
        text: "never".to_string(),
    }];

    assert!(Reminders::from_entries(entries).is_none());
}

#[test]
fn command_adds_on_a_resolved_date_and_recurring() {
    let today = date(2021, Month::December, 7);
    let mut store = reminders();

    let outcome = ReminderCmd::New {
        on_date: Some(SpecificDate::Next(Weekday::Wednesday)),
        every: Some(weekly(1)),
        reminder: "Both".to_string(),
    }
    .apply(&mut store, today);

    match outcome {
        Ok(ReminderOutcome::Added { on, every }) => {
            assert_eq!(on, Some(date(2021, Month::December, 8)));
            assert_eq!(every, Some(weekly(1)));
        }
        _ => panic!("expected the reminders to be added"),
    }
    assert_eq!(store.len(), 2);
    assert_eq!(store.for_today(date(2021, Month::December, 8)), vec!["Both".to_string()]);
    assert_eq!(store.for_today(date(2021, Month::December, 14)), vec!["Both".to_string()]);
}

#[test]
fn command_reports_a_day_that_does_not_exist() {
    let today = date(2021, Month::December, 7);
    let mut store = reminders();

    let outcome = ReminderCmd::New {
        on_date: Some(SpecificDate::OnDayMonth(30, Month::February)),
        every: None,
        reminder: "Never".to_string(),
    }
    .apply(&mut store, today);

    assert!(matches!(outcome, Err(ReminderCmdError::Date(_))));
    assert_eq!(store.len(), 0);
}

#[test]
fn command_lists_and_deletes() {
    let mut store = five_reminders();

    match (ReminderCmd::List).apply(&mut store, date(2021, Month::July, 15)) {
        Ok(ReminderOutcome::Listed(lines)) => assert_eq!(lines.len(), 5),
        _ => panic!("expected a listing"),
    }
    match (ReminderCmd::Delete { nr: 1 }).apply(&mut store, date(2021, Month::July, 15)) {
        Ok(ReminderOutcome::Deleted(nr)) => assert_eq!(nr, 1),
        _ => panic!("expected a deletion"),
    }
    assert!(matches!(
        (ReminderCmd::Delete { nr: 9 }).apply(&mut store, date(2021, Month::July, 15)),
        Err(ReminderCmdError::NotFound(_))
    ));
    assert_eq!(store.len(), 4);
}
