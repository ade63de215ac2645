//! Putting an entry together: the title line, then each rendered section in
//! the configured order, and the rendering of a section's list through a
//! handlebars template.
use vstd::prelude::*;

use crate::config::{default_sections, SectionName};
use crate::date::{date_text_of, Date};
use crate::text::{join, join_strings};

verus! {

/// What handlebars makes of `template` when `key` names the list `items`
/// (escaping switched off): the rendered text, or none where it refuses the
/// template.
pub uninterp spec fn rendered_list_of(
    template: Seq<char>,
    key: Seq<char>,
    items: Seq<Seq<char>>,
) -> Option<Seq<char>>;

/// `r` succeeds exactly when `expected` is a text, and then holds it.
pub open spec fn gives(r: Result<String, String>, expected: Option<Seq<char>>) -> bool {
    match r {
        Ok(s) => expected == Some(s@),
        Err(_) => expected is None,
    }
}

/// Relies on `handlebars::Handlebars::render_template`, with HTML escaping
/// replaced by `handlebars::no_escape`: the template rendered against a map
/// from `key` to `items`, or the render error's text. Whether it succeeds,
/// and what it renders, depend on these arguments alone.
#[verifier::external_body]
pub(crate) fn render_list(template: &str, key: &str, items: &Vec<String>) -> (r: Result<String, String>)
    ensures
        gives(r, rendered_list_of(template@, key@, items.deep_view())),
{
    let mut registry = handlebars::Handlebars::new();
    registry.register_escape_fn(handlebars::no_escape);
    let data = std::collections::BTreeMap::from([(key, items)]);
    registry.render_template(template, &data).map_err(|e| e.to_string())
}

/// The sections of `xs` that `order` does not name, in the order of `xs`.
pub open spec fn missing_from(xs: Seq<SectionName>, order: Seq<SectionName>) -> Seq<SectionName>
    decreases xs.len(),
{
    if xs.len() == 0 {
        Seq::empty()
    } else if order.contains(xs.last()) {
        missing_from(xs.drop_last(), order)
    } else {
        missing_from(xs.drop_last(), order).push(xs.last())
    }
}

/// `order`, followed by the default sections it leaves out.
pub open spec fn expanded_order(order: Seq<SectionName>) -> Seq<SectionName> {
    order + missing_from(default_sections(), order)
}

pub fn expand_with_defaults(order: Vec<SectionName>) -> (r: Vec<SectionName>)
    ensures
        r@ == expanded_order(order@),
{
    let defaults = crate::config::default_order();
    let mut result = order.clone();
    let mut i: usize = 0;
    while i < defaults.len()
        invariant
            defaults@ == default_sections(),
            i <= defaults@.len(),
            result@ == order@ + missing_from(defaults@.take(i as int), order@),
        decreases defaults@.len() - i,
    {
        assert(defaults@.take(i + 1).drop_last() =~= defaults@.take(i as int));
        let s = defaults[i];
        let mut found = false;
        let mut j: usize = 0;
        while j < order.len()
            invariant
                j <= order@.len(),
                found <==> exists|k: int| 0 <= k < j && order@[k] == s,
            decreases order@.len() - j,
        {
            if order[j] == s {
                found = true;
            }
            j = j + 1;
        }
        if !found {
            result.push(s);
            assert(result@ =~= order@ + missing_from(defaults@.take(i + 1), order@));
        } else {
            assert(order@[choose|k: int| 0 <= k < order@.len() && order@[k] == s] == s);
        }
        i = i + 1;
    }
    assert(defaults@.take(defaults@.len() as int) =~= defaults@);
    result
}

/// The text stored for `name`: the first pair that names it.
pub open spec fn lookup(sections: Seq<(SectionName, Seq<char>)>, name: SectionName) -> Option<
    Seq<char>,
>
    decreases sections.len(),
{
    if sections.len() == 0 {
        None
    } else {
        match lookup(sections.drop_last(), name) {
            Some(t) => Some(t),
            None => if sections.last().0 == name {
                Some(sections.last().1)
            } else {
                None
            },
        }
    }
}

proof fn lemma_lookup_prefix(s: Seq<(SectionName, Seq<char>)>, n: int, name: SectionName)
    requires
        0 <= n <= s.len(),
        lookup(s.take(n), name) is Some,
    ensures
        lookup(s, name) == lookup(s.take(n), name),
    decreases s.len() - n,
{
    if n < s.len() {
        assert(s.take(n + 1).drop_last() =~= s.take(n));
        lemma_lookup_prefix(s, n + 1, name);
    } else {
        assert(s.take(n) =~= s);
    }
}

/// The texts of the sections named in `order` that `sections` holds, in that order.
pub open spec fn section_texts(
    order: Seq<SectionName>,
    sections: Seq<(SectionName, Seq<char>)>,
) -> Seq<Seq<char>>
    decreases order.len(),
{
    if order.len() == 0 {
        Seq::empty()
    } else {
        match lookup(sections, order.last()) {
            Some(t) => section_texts(order.drop_last(), sections).push(t),
            None => section_texts(order.drop_last(), sections),
        }
    }
}

pub open spec fn title_line(title: Seq<char>, date: Seq<char>) -> Seq<char> {
    "# "@ + title + " on "@ + date
}

/// The rendered sections of a new entry, with its title and date.
pub struct Template {
    pub title: String,
    pub today: Date,
    pub sections: Vec<(SectionName, String)>,
}

pub open spec fn sections_view(sections: Seq<(SectionName, String)>) -> Seq<(SectionName, Seq<char>)> {
    sections.map_values(|p: (SectionName, String)| (p.0, p.1@))
}

fn find_section(sections: &Vec<(SectionName, String)>, name: SectionName) -> (r: Option<String>)
    ensures
        match r {
            Some(t) => lookup(sections_view(sections@), name) == Some(t@),
            None => lookup(sections_view(sections@), name) is None,
        },
{
    let ghost all = sections_view(sections@);
    let mut i: usize = 0;
    while i < sections.len()
        invariant
            all == sections_view(sections@),
            i <= sections@.len(),
            lookup(all.take(i as int), name) is None,
        decreases sections@.len() - i,
    {
        assert(all.take(i + 1).drop_last() =~= all.take(i as int));
        if sections[i].0 == name {
            proof {
                lemma_lookup_prefix(all, i + 1, name);
            }
            return Some(sections[i].1.clone());
        }
        i = i + 1;
    }
    assert(all.take(sections@.len() as int) =~= all);
    None
}

impl Template {
    /// "# title on date", then the text of each section present, in `order`
    /// followed by the default sections that `order` leaves out, separated
    /// by blank lines.
    pub fn render(self, order: Vec<SectionName>) -> (r: String)
        requires
            self.today.wf(),
        ensures
            r@ == join(
                seq![title_line(self.title@, date_text_of(self.today.day_number()))] + section_texts(
                    expanded_order(order@),
                    sections_view(self.sections@),
                ),
                "\n\n"@,
            ),
    {
        let ghost secs = sections_view(self.sections@);
        let order = expand_with_defaults(order);
        let heading = String::from_str("# ").concat(self.title.as_str());
        let heading = heading.concat(" on ");
        let heading = heading.concat(self.today.to_text().as_str());
        let mut parts: Vec<String> = Vec::new();
        parts.push(heading);
        let ghost first = parts.deep_view();
        assert(first =~= seq![title_line(self.title@, date_text_of(self.today.day_number()))]);
        assert(section_texts(order@.take(0), secs) =~= Seq::<Seq<char>>::empty());
        assert(parts.deep_view() =~= first + section_texts(order@.take(0), secs));
        let mut i: usize = 0;
        while i < order.len()
            invariant
                secs == sections_view(self.sections@),
                i <= order@.len(),
                first.len() == 1,
                parts.deep_view() == first + section_texts(order@.take(i as int), secs),
            decreases order@.len() - i,
        {
            assert(order@.take(i + 1).drop_last() =~= order@.take(i as int));
            assert(order@.take(i + 1).last() == order@[i as int]);
            match find_section(&self.sections, order[i]) {
                Some(t) => {
                    assert(section_texts(order@.take(i + 1), secs) == section_texts(
                        order@.take(i as int),
                        secs,
                    ).push(t@));
                    let ghost before = parts.deep_view();
                    parts.push(t);
                    assert(parts.deep_view() =~= before.push(t@));
                    assert(parts.deep_view() =~= first + section_texts(order@.take(i + 1), secs));
                },
                None => {},
            }
            i = i + 1;
        }
        assert(order@.take(order@.len() as int) =~= order@);
        join_strings(&parts, "\n\n")
    }
}

} // verus!
