//! Pull requests: which repositories to ask, and which of their open pull
//! requests an entry lists.
use vstd::prelude::*;

use crate::text::{split_on, split_str};

verus! {

/// An open pull request, as the section lists it.
pub struct Pr {
    pub author: String,
    pub labels: Vec<String>,
    pub repo: String,
    pub title: String,
    pub url: String,
}

/// Which pull requests to keep: an empty list accepts everything.
pub struct LocalFilter {
    pub authors: Vec<String>,
    pub labels: Vec<String>,
}

fn contains_string(xs: &Vec<String>, x: &String) -> (r: bool)
    ensures
        r == xs.deep_view().contains(x@),
{
    let ghost v = xs.deep_view();
    let mut i: usize = 0;
    while i < xs.len()
        invariant
            v == xs.deep_view(),
            i <= xs@.len(),
            forall|j: int| 0 <= j < i ==> v[j] != x@,
        decreases xs@.len() - i,
    {
        if xs[i].eq(x) {
            assert(v[i as int] == x@);
            return true;
        }
        i = i + 1;
    }
    false
}

impl LocalFilter {
    /// The author is one of `authors`, unless that list is empty, and at
    /// least one label is one of `labels`, unless that list is empty.
    pub open spec fn accepts(&self, pr: &Pr) -> bool {
        &&& (self.authors@.len() == 0 || self.authors.deep_view().contains(pr.author@))
        &&& (self.labels@.len() == 0 || exists|i: int|
            0 <= i < self.labels@.len() && pr.labels.deep_view().contains(
                #[trigger] self.labels.deep_view()[i],
            ))
    }

    pub fn apply(&self, pr: &Pr) -> (r: bool)
        ensures
            r == self.accepts(pr),
    {
        if self.authors.len() > 0 && !contains_string(&self.authors, &pr.author) {
            return false;
        }
        if self.labels.len() == 0 {
            return true;
        }
        let ghost wanted = self.labels.deep_view();
        let mut i: usize = 0;
        while i < self.labels.len()
            invariant
                wanted == self.labels.deep_view(),
                i <= self.labels@.len(),
                self.authors@.len() == 0 || self.authors.deep_view().contains(pr.author@),
                forall|j: int| 0 <= j < i ==> !pr.labels.deep_view().contains(#[trigger] wanted[j]),
            decreases self.labels@.len() - i,
        {
            if contains_string(&pr.labels, &self.labels[i]) {
                assert(wanted[i as int] == self.labels@[i as int]@);
                assert(pr.labels.deep_view().contains(self.labels.deep_view()[i as int]));
                assert(self.authors@.len() == 0 || self.authors.deep_view().contains(pr.author@));
                return true;
            }
            i = i + 1;
        }
        false
    }
}

/// The pull requests of `prs` that `filter` accepts, in order.
pub open spec fn accepted(filter: LocalFilter, prs: Seq<Pr>) -> Seq<Pr>
    decreases prs.len(),
{
    if prs.len() == 0 {
        Seq::empty()
    } else if filter.accepts(&prs[0]) {
        seq![prs[0]] + accepted(filter, prs.skip(1))
    } else {
        accepted(filter, prs.skip(1))
    }
}

impl LocalFilter {
    /// The pull requests that the filter accepts, in their order.
    pub fn keep(&self, prs: Vec<Pr>) -> (r: Vec<Pr>)
        ensures
            r@ == accepted(*self, prs@),
    {
        let ghost all = prs@;
        let mut rest = prs;
        let mut kept: Vec<Pr> = Vec::new();
        while rest.len() > 0
            invariant
                kept@ + accepted(*self, rest@) == accepted(*self, all),
            decreases rest@.len(),
        {
            let ghost before = rest@;
            let pr = rest.remove(0);
            assert(rest@ =~= before.skip(1));
            if self.apply(&pr) {
                kept.push(pr);
                assert(kept@ + accepted(*self, rest@) =~= kept@.drop_last() + accepted(*self, before));
            }
        }
        assert(kept@ + accepted(*self, rest@) =~= kept@);
        kept
    }
}

/// A repository, as "owner/name".
pub struct Repo {
    pub owner: String,
    pub name: String,
}

impl Repo {
    /// Reads "owner/name": exactly one slash.
    pub fn parse(s: &str) -> (r: Result<Repo, String>)
        ensures
            r.is_ok() <==> split_on(s@, '/').len() == 2,
            r matches Ok(repo) ==> repo.owner@ == split_on(s@, '/')[0] && repo.name@ == split_on(
                s@,
                '/',
            )[1],
            r matches Err(msg) ==> msg@ == "\""@ + s@ + "\" did not have exactly 2 components"@,
    {
        let mut parts = split_str(s, '/');
        if parts.len() != 2 {
            let msg = String::from_str("\"").concat(s);
            return Err(msg.concat("\" did not have exactly 2 components"));
        }
        let ghost v = parts.deep_view();
        let name = parts.pop().unwrap();
        let owner = parts.pop().unwrap();
        proof {
            assert(v[1] == name@);
        }
        Ok(Repo { owner, name })
    }
}

/// One repository to ask, and which of its pull requests to keep.
pub struct PrSelector {
    pub repo: Repo,
    pub filter: LocalFilter,
}

/// Where the pull requests section comes from, and its template.
pub struct PullRequestConfig {
    pub select: Vec<PrSelector>,
    pub template: Option<String>,
}

pub const PRS_TEMPLATE: &'static str = "\n## Pull Requests:\n\n{{#each prs as | pr | }}\n* [ ] `{{pr.title}}` on [{{pr.repo}}]({{pr.url}}) by {{pr.author}}\n{{/each }}\n";

} // verus!
