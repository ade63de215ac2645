use journal::todo::{extract_todos, ExtractState, FindTodos, MdEvent, State, TodoConfig};

#[test]
fn there_were_no_todos() {
    let markdown = "# Something\n\n";

    let mut parser = FindTodos::new();
    let found_todos = parser.process(markdown);

    assert_eq!(parser.current_state(), State::Done);
    assert_eq!(found_todos.len(), 0);
}

#[test]
fn parser_knows_when_found_the_todo_header() {
    let markdown = "# Something\n\n## TODOs\n\nabc\n";

    let mut parser = FindTodos::new();
    parser.process(markdown);

    assert_eq!(parser.current_state(), State::GettingTodos,);
}

#[test]
fn parser_knows_when_it_is_looking_at_a_todo_list() {
    let markdown = "# Something\n\n## TODOs\n\n* [ ] abc\n";

    let mut parser = FindTodos::new();
    let found_todos = parser.process(markdown);

    assert_eq!(parser.current_state(), State::GettingTodos);
    assert_eq!(found_todos.len(), 1);
}

#[test]
fn parser_knows_when_its_done_with_todos() {
    let markdown = "# Something\n\n## TODOs\n\n## Not TODOs\n\n";

    let mut parser = FindTodos::new();
    let found_todos = parser.process(markdown);

    assert_eq!(parser.current_state(), State::Done);
    assert_eq!(found_todos.len(), 0);
}

#[test]
fn finds_multiple_todos() {
    let markdown =
        "# Something\n\n## TODOs\n\n* [ ] first\n\n* [ ] second\n\n* [ ] third\n\n## Other thing\n";

    let mut parser = FindTodos::new();
    let found_todos = parser.process(markdown);

    for todo in &found_todos {
        println!("---------------");
        println!("{}", todo);
        println!("---------------");
    }

    assert_eq!(found_todos.len(), 3);
}

#[test]
fn skips_completed_todos() {
    let markdown =
        "# Something\n\n## TODOs\n\n* [ ] first\n\n* [x] second\n\n* [ ] third\n\n## Other thing\n";

    let mut parser = FindTodos::new();
    let found_todos = parser.process(markdown);

    for todo in &found_todos {
        println!("---------------");
        println!("{}", todo);
        println!("---------------");
    }

    assert_eq!(found_todos.len(), 2);
}

#[test]
fn ignores_todos_beneath_a_completed_one() {
    let markdown = "# Something\n\n## TODOs\n\n* [ ] first\n\n* [x] second\n    * [ ] second.dot.one\n\n* [ ] third\n\n## Other thing\n";

    let mut parser = FindTodos::new();
    let found_todos = parser.process(markdown);

    for todo in &found_todos {
        println!("---------------");
        println!("{}", todo);
        println!("---------------");
    }

    assert_eq!(found_todos.len(), 2);
}

#[test]
fn ignores_normal_bullet_lists_within_completed_ones() {
    let markdown = "# Something\n\n## TODOs\n\n* [ ] first\n\n* [x] second\n    * second.dot.one\n\n* [ ] third\n\n## Other thing\n";

    let mut parser = FindTodos::new();
    let found_todos = parser.process(markdown);

    for todo in &found_todos {
        println!("---------------");
        println!("{}", todo);
        println!("---------------");
    }

    assert_eq!(found_todos.len(), 2);
}

#[test]
fn keeps_first_and_third_but_not_items_under_a_checked_one() {
    let markdown = "## TODOs\n\n* [ ] first\n\n* [x] second\n  * [ ] second.dot.one\n\n* [ ] third\n\n## Other";

    let mut parser = FindTodos::new();
    let found = parser.process(markdown);

    assert_eq!(found.len(), 2);
    assert!(found[0].contains("first"));
    assert!(found[1].contains("third"));
    assert!(found.iter().all(|t| !t.contains("second")));
}

#[test]
fn an_open_item_keeps_its_nested_items_verbatim() {
    let markdown = "## TODOs\n\n* [ ] parent\n  * [x] done child\n  * [ ] open child\n* [ ] sibling\n";

    let mut parser = FindTodos::new();
    let found = parser.process(markdown);

    assert_eq!(found.len(), 2);
    assert!(found[0].starts_with("* [ ] parent"));
    assert!(found[0].contains("  * [x] done child"));
    assert!(found[0].contains("  * [ ] open child"));
    assert!(found[1].contains("sibling"));
}

#[test]
fn an_open_item_holding_a_heading_is_kept() {
    let markdown = "## TODOs\n\n* [ ] a\n\n  ## b\n\n* [ ] c\n";

    let mut parser = FindTodos::new();
    let found = parser.process(markdown);

    assert_eq!(found.len(), 1);
    assert!(found[0].starts_with("* [ ] a"));
    assert_eq!(parser.current_state(), State::Done);
}

#[test]
fn an_empty_level_two_heading_does_not_start_the_section() {
    let markdown = "##\n\nTODOs\n\n##\n\n* [ ] not an item of the section\n";

    let mut parser = FindTodos::new();
    assert!(parser.process(markdown).is_empty());
}

#[test]
fn a_document_without_a_todos_heading_yields_nothing() {
    let markdown = "# TODOs\n\n* [ ] not in a level two section\n\n### TODOs\n\n* [ ] nor here\n";

    let mut parser = FindTodos::new();
    let found = parser.process(markdown);

    assert!(found.is_empty());
    assert_eq!(parser.current_state(), State::Done);
}

#[test]
fn a_heading_of_any_level_ends_the_section() {
    let markdown = "## TODOs\n\n* [ ] kept\n\n#### Deeper\n\n* [ ] not kept\n";

    let mut parser = FindTodos::new();
    let found = parser.process(markdown);

    assert_eq!(found.len(), 1);
    assert!(found[0].contains("kept"));
    assert!(!found[0].contains("not kept"));
    assert_eq!(parser.current_state(), State::Done);
}

#[test]
fn the_title_must_match_exactly() {
    let mut parser = FindTodos::new();
    assert!(parser.process("## todos\n\n* [ ] lower case title\n").is_empty());
    let mut parser = FindTodos::new();
    assert!(parser.process("## TODOs later\n\n* [ ] longer title\n").is_empty());
}

fn item(text: &str) -> MdEvent {
    MdEvent::ItemStart(text.to_string())
}

#[test]
fn state_machine_on_hand_written_events() {
    let events = vec![
        MdEvent::HeadingStart(2),
        MdEvent::Text("TODOs".to_string()),
        MdEvent::HeadingEnd(2),
        MdEvent::Other,
        item("* [ ] a\n  * [x] b\n"),
        MdEvent::TaskMarker(false),
        item("  * [x] b\n"),
        MdEvent::TaskMarker(true),
        MdEvent::ItemEnd,
        MdEvent::ItemEnd,
        item("* [x] c\n"),
        MdEvent::TaskMarker(true),
        MdEvent::ItemEnd,
        item("* d\n"),
        MdEvent::ItemEnd,
        MdEvent::HeadingStart(3),
        item("* [ ] e\n"),
        MdEvent::TaskMarker(false),
        MdEvent::ItemEnd,
    ];

    let (state, items) = extract_todos(&events);

    assert_eq!(state, ExtractState::Finished);
    assert_eq!(items, vec!["* [ ] a\n  * [x] b\n".to_string()]);
}

#[test]
fn state_machine_without_events_keeps_searching() {
    let (state, items) = extract_todos(&Vec::new());

    assert!(matches!(state, ExtractState::Searching(_)));
    assert!(items.is_empty());
}

#[test]
fn todos_section_without_a_previous_entry_is_the_bare_template() {
    let config = TodoConfig { template: None };

    let rendered = config.render(None).unwrap();

    assert!(rendered.starts_with("## TODOs\n"));
    assert!(!rendered.contains("* ["));
}

#[test]
fn todos_section_lists_the_open_items() {
    let config = TodoConfig { template: Some("{{#each todos}}<{{this}}>{{/each}}".to_string()) };

    let rendered = config
        .render(Some("## TODOs\n\n* [ ] one\n* [x] two\n* [ ] three\n"))
        .unwrap();

    assert!(rendered.starts_with("<* [ ] one"));
    assert!(rendered.contains("><* [ ] three"));
    assert!(!rendered.contains("two"));
}
