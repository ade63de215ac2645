//! Which sections an entry has, and in which order.
use vstd::prelude::*;

use crate::github::PullRequestConfig;
use crate::jira::JiraConfig;
use crate::notes::NotesConfig;
use crate::reminders::ReminderConfig;
use crate::todo::TodoConfig;

verus! {

/// What the `config` command can do.
#[derive(Clone, Copy, Debug, PartialEq, Eq, Structural)]
pub enum ConfigCmd {
    /// Show the configuration that is loaded.
    Show,
}

/// A section's configuration with its on/off switch.
pub struct Enabled<T> {
    pub enabled: bool,
    pub inner: T,
}

impl<T> Enabled<T> {
    /// `inner`, switched on.
    pub fn new(inner: T) -> (r: Enabled<T>)
        ensures
            r.enabled,
            r.inner == inner,
    {
        Enabled { enabled: true, inner }
    }

    pub fn is_enabled(&self) -> (r: bool)
        ensures
            r == self.enabled,
    {
        self.enabled
    }
}

#[derive(Clone, Copy, Debug, PartialEq, Eq, Hash, Structural)]
pub enum SectionName {
    Notes,
    Todos,
    Prs,
    Tasks,
    Reminders,
}

pub open spec fn default_sections() -> Seq<SectionName> {
    seq![
        SectionName::Notes,
        SectionName::Todos,
        SectionName::Prs,
        SectionName::Tasks,
        SectionName::Reminders,
    ]
}

/// Notes, todos, pull requests, tasks, reminders.
pub fn default_order() -> (r: Vec<SectionName>)
    ensures
        r@ == default_sections(),
{
    let r = vec![
        SectionName::Notes,
        SectionName::Todos,
        SectionName::Prs,
        SectionName::Tasks,
        SectionName::Reminders,
    ];
    assert(r@ =~= default_sections());
    r
}

/// Everything the journal is configured with.
pub struct Config {
    pub sections: Vec<SectionName>,
    pub dir: String,
    pub todos: Enabled<TodoConfig>,
    pub notes: Enabled<NotesConfig>,
    pub reminders: Enabled<ReminderConfig>,
    pub jira: Option<Enabled<JiraConfig>>,
    pub pull_requests: Option<Enabled<PullRequestConfig>>,
}

pub open spec fn when(on: bool, s: SectionName) -> Seq<SectionName> {
    if on {
        seq![s]
    } else {
        Seq::empty()
    }
}

impl Config {
    /// The switched-on sections: todos, notes and reminders unless switched
    /// off, tasks and pull requests when configured and switched on.
    pub open spec fn enabled_list(&self) -> Seq<SectionName> {
        when(self.todos.enabled, SectionName::Todos) + when(self.notes.enabled, SectionName::Notes)
            + when(self.reminders.enabled, SectionName::Reminders) + when(
            self.jira matches Some(j) && j.enabled,
            SectionName::Tasks,
        ) + when(self.pull_requests matches Some(p) && p.enabled, SectionName::Prs)
    }

    pub fn enabled_sections(&self) -> (r: Vec<SectionName>)
        ensures
            r@ == self.enabled_list(),
    {
        let mut r: Vec<SectionName> = Vec::new();
        if self.todos.is_enabled() {
            r.push(SectionName::Todos);
        }
        if self.notes.is_enabled() {
            r.push(SectionName::Notes);
        }
        if self.reminders.is_enabled() {
            r.push(SectionName::Reminders);
        }
        if let Some(jira) = &self.jira {
            if jira.is_enabled() {
                r.push(SectionName::Tasks);
            }
        }
        if let Some(prs) = &self.pull_requests {
            if prs.is_enabled() {
                r.push(SectionName::Prs);
            }
        }
        assert(r@ =~= self.enabled_list());
        r
    }
}

} // verus!
