//! The notes section: a fixed text, by default a placeholder for the day's notes.
use vstd::prelude::*;

verus! {

pub const NOTE_TEMPLATE: &'static str = "## Notes\n\n> This is where your notes will go!\n\n";

pub fn default_note_template() -> (r: String)
    ensures
        r@ == NOTE_TEMPLATE@,
{
    String::from_str(NOTE_TEMPLATE)
}

pub struct NotesConfig {
    pub template: String,
}

impl Default for NotesConfig {
    fn default() -> (r: NotesConfig)
        ensures
            r.template@ == NOTE_TEMPLATE@,
    {
        NotesConfig::new()
    }
}

impl NotesConfig {
    pub fn new() -> (r: NotesConfig)
        ensures
            r.template@ == NOTE_TEMPLATE@,
    {
        NotesConfig { template: default_note_template() }
    }

    /// The section as written: its template, unchanged.
    pub fn render(&self) -> (r: String)
        ensures
            r@ == self.template@,
    {
        self.template.clone()
    }
}

} // verus!
