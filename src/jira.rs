//! Jira tasks: the query that selects them and the shape they are listed in.
use vstd::prelude::*;

use crate::text::{join, join_strings};

verus! {

pub struct JiraAuth {
    pub user: String,
    pub personal_access_token: String,
}

/// Field and value pairs that a task must match.
pub struct Jql(pub Vec<(String, String)>);

/// `field="value"`.
pub open spec fn clause_text(pair: (String, String)) -> Seq<char> {
    pair.0@ + "=\""@ + pair.1@ + "\""@
}

impl Jql {
    pub open spec fn clause_texts(&self) -> Seq<Seq<char>> {
        self.0@.map_values(|p: (String, String)| clause_text(p))
    }

    /// The clauses joined by " and ".
    pub fn to_query(&self) -> (r: String)
        ensures
            r@ == join(self.clause_texts(), " and "@),
    {
        let mut parts: Vec<String> = Vec::new();
        let mut i: usize = 0;
        while i < self.0.len()
            invariant
                i <= self.0@.len(),
                parts.deep_view() == self.clause_texts().take(i as int),
            decreases self.0@.len() - i,
        {
            let clause = self.0[i].0.clone().concat("=\"");
            let clause = clause.concat(self.0[i].1.as_str());
            let clause = clause.concat("\"");
            assert(clause@ == clause_text(self.0@[i as int]));
            let ghost before = parts.deep_view();
            parts.push(clause);
            assert(parts.deep_view() =~= before.push(clause_text(self.0@[i as int])));
            assert(parts.deep_view() =~= self.clause_texts().take(i + 1));
            i = i + 1;
        }
        assert(self.clause_texts().take(self.0@.len() as int) =~= self.clause_texts());
        join_strings(&parts, " and ")
    }
}

pub struct JiraConfig {
    pub enabled: bool,
    pub base_url: String,
    pub auth: JiraAuth,
    pub query: Jql,
    pub template: Option<String>,
}

/// An open task, as the section lists it.
pub struct Task {
    pub summary: String,
    pub href: String,
}

pub const TASKS_TEMPLATE: &'static str = "\n## Open tasks\n\n{{#each tasks as | task | }}\n* [ ] {{task.summary}} [here]({{task.task.href}})\n{{/each }}\n";

} // verus!
