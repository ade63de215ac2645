use journal::config::SectionName;
use journal::date::{Date, Month};
use journal::template::{expand_with_defaults, Template};

fn dec_24_2021() -> Date {
    Date::from_calendar_date(2021, Month::December, 24).unwrap()
}

#[test]
fn title_and_todos_for_today() {
    let template = Template {
        title: "Some title".to_string(),
        today: dec_24_2021(),
        sections: vec![
            (SectionName::Todos, "## TODOs\n\n* [] a todo\n* [] another one\n".to_string()),
            (SectionName::Notes, "## Notes\n\n> This is where your notes will go!\n".to_string()),
        ],
    };

    let expected = "# Some title on 2021-12-24\n\n## Notes\n\n> This is where your notes will go!\n\n\n## TODOs\n\n* [] a todo\n* [] another one\n".to_string();

    assert_eq!(
        expected,
        template.render(vec![SectionName::Notes, SectionName::Todos, SectionName::Prs])
    );
}

#[test]
fn title_todos_and_prs_for_today() {
    let template = Template {
        title: "Some title".to_string(),
        today: dec_24_2021(),
        sections: vec![
            (SectionName::Notes, "## Notes\n\n> This is where your notes will go!\n".to_string()),
            (SectionName::Todos, "## TODOs\n\n* [ ] a todo\n* [ ] another one\n".to_string()),
            (
                SectionName::Prs,
                "## Pull Requests\n\n* [ ] Fix the thingon [felipesere/journal](https://github.com/felipesere/journal) by felipe\n".to_string(),
            ),
        ],
    };

    let expected = "# Some title on 2021-12-24\n\n## Notes\n\n> This is where your notes will go!\n\n\n## TODOs\n\n* [ ] a todo\n* [ ] another one\n\n\n## Pull Requests\n\n* [ ] Fix the thingon [felipesere/journal](https://github.com/felipesere/journal) by felipe\n".to_string();

    assert_eq!(
        expected,
        template.render(vec![SectionName::Notes, SectionName::Todos, SectionName::Prs])
    );
}

#[test]
fn title_todos_and_reminders_for_today() {
    let template = Template {
        title: "Some title".to_string(),
        today: dec_24_2021(),
        sections: vec![
            (SectionName::Notes, "## Notes\n\n> This is where your notes will go!\n".to_string()),
            (SectionName::Todos, "## TODOs\n\n* [ ] a todo\n* [ ] another one\n".to_string()),
            (
                SectionName::Reminders,
                "## Your reminders for today:\n\n* [ ] Buy milk\n* [ ] Send email\n".to_string(),
            ),
        ],
    };

    let expected = "# Some title on 2021-12-24\n\n## Notes\n\n> This is where your notes will go!\n\n\n## TODOs\n\n* [ ] a todo\n* [ ] another one\n\n\n## Your reminders for today:\n\n* [ ] Buy milk\n* [ ] Send email\n".to_string();

    assert_eq!(
        expected,
        template.render(vec![SectionName::Notes, SectionName::Todos, SectionName::Reminders])
    );
}

#[test]
fn missing_sections_come_after_the_given_order() {
    let order = expand_with_defaults(vec![SectionName::Reminders, SectionName::Notes]);

    assert_eq!(
        order,
        vec![
            SectionName::Reminders,
            SectionName::Notes,
            SectionName::Todos,
            SectionName::Prs,
            SectionName::Tasks,
        ]
    );
    assert_eq!(expand_with_defaults(vec![]).len(), 5);
}

#[test]
fn sections_follow_the_order_given() {
    let template = Template {
        title: "T".to_string(),
        today: dec_24_2021(),
        sections: vec![
            (SectionName::Notes, "notes".to_string()),
            (SectionName::Reminders, "reminders".to_string()),
        ],
    };

    assert_eq!(
        template.render(vec![SectionName::Reminders]),
        "# T on 2021-12-24\n\nreminders\n\nnotes"
    );
}
