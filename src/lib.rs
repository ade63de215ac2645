//! Building blocks of a daily journal: the calendar, the date and recurrence
//! expressions that users type, the reminder store, and the extraction of
//! still-open TODO items from the previous entry, and the assembly of a new
//! entry out of its sections.
pub mod config;
pub mod date;
pub mod date_spec;
pub mod github;
pub mod jira;
pub mod notes;
pub mod reminders;
pub mod storage;
pub mod template;
pub mod text;
pub mod todo;
