//! Carrying open TODO items forward: find the level-2 "TODOs" section of the
//! previous entry and keep the source text of each top-level checklist item
//! that is not yet checked off.
use pulldown_cmark::{Event, Options, Parser, Tag};
use vstd::prelude::*;

use crate::template::{gives, render_list, rendered_list_of};

verus! {

/// The part of a parsed markdown document that the extraction reads.
#[derive(Clone, Debug)]
pub enum MdEvent {
    /// Start of a heading of this level (1 to 6).
    HeadingStart(u8),
    HeadingEnd(u8),
    Text(String),
    /// Start of a list item, with the source text of the whole item,
    /// nested items included.
    ItemStart(String),
    ItemEnd,
    /// A checkbox: `true` when it is checked.
    TaskMarker(bool),
    /// Anything else.
    Other,
}

/// `MdEvent` with its texts as character sequences.
pub enum MdToken {
    HeadingStart(u8),
    HeadingEnd(u8),
    Text(Seq<char>),
    ItemStart(Seq<char>),
    ItemEnd,
    TaskMarker(bool),
    Other,
}

impl View for MdEvent {
    type V = MdToken;

    open spec fn view(&self) -> MdToken {
        match self {
            MdEvent::HeadingStart(l) => MdToken::HeadingStart(*l),
            MdEvent::HeadingEnd(l) => MdToken::HeadingEnd(*l),
            MdEvent::Text(t) => MdToken::Text(t@),
            MdEvent::ItemStart(t) => MdToken::ItemStart(t@),
            MdEvent::ItemEnd => MdToken::ItemEnd,
            MdEvent::TaskMarker(done) => MdToken::TaskMarker(*done),
            MdEvent::Other => MdToken::Other,
        }
    }
}

pub open spec fn tokens_of(events: Seq<MdEvent>) -> Seq<MdToken> {
    events.map_values(|e: MdEvent| e@)
}

/// The events that pulldown-cmark yields for a markdown text, task lists enabled.
pub uninterp spec fn markdown_events_of(text: Seq<char>) -> Seq<MdToken>;

/// Relies on `pulldown_cmark::Parser::new_ext` (with task lists) and
/// `Parser::into_offset_iter`: the events of the document in order, each
/// list item start with the source text of its range.
#[verifier::external_body]
fn markdown_events(text: &str) -> (r: Vec<MdEvent>)
    ensures
        tokens_of(r@) == markdown_events_of(text@),
{
    let mut options = Options::empty();
    options.insert(Options::ENABLE_TASKLISTS);
    Parser::new_ext(text, options).into_offset_iter().map(|(e, range)| match e {
        Event::Start(Tag::Heading(l, ..)) => MdEvent::HeadingStart(l as u8),
        Event::End(Tag::Heading(l, ..)) => MdEvent::HeadingEnd(l as u8),
        Event::Text(t) => MdEvent::Text(t.to_string()),
        Event::Start(Tag::Item) => MdEvent::ItemStart(text[range].to_string()),
        Event::End(Tag::Item) => MdEvent::ItemEnd,
        Event::TaskListMarker(done) => MdEvent::TaskMarker(done),
        _ => MdEvent::Other,
    }).collect()
}

/// Progress towards the title of the TODOs section.
#[derive(Clone, Copy, Debug, PartialEq, Eq, Structural)]
pub enum TitleState {
    NotFound,
    /// A level-2 heading began; its first text decides.
    AwaitingTitle,
    /// The heading's title is "TODOs"; the section begins where the heading ends.
    TitleConfirmed,
}

/// The top-level item being looked at, by the index of its start event.
#[derive(Clone, Copy, Debug, PartialEq, Eq, Structural)]
pub enum Candidate {
    NoItem,
    /// Its checkbox has not been seen yet.
    Pending(usize),
}

#[derive(Clone, Copy, Debug, PartialEq, Eq, Structural)]
pub enum ExtractState {
    Searching(TitleState),
    Collecting { depth: usize, candidate: Candidate },
    Finished,
}

pub open spec fn is_todos_title(t: Seq<char>) -> bool {
    t == "TODOs"@
}

/// One transition on the event at index `i`: the next state, and the index
/// of the start event of an item that is kept: a top-level item is kept when
/// its own checkbox turns out to be open.
pub open spec fn step(s: ExtractState, i: usize, e: MdToken) -> (ExtractState, Option<usize>) {
    match s {
        ExtractState::Searching(t) => match e {
            MdToken::HeadingStart(level) => if level == 2 {
                (ExtractState::Searching(TitleState::AwaitingTitle), None)
            } else {
                (s, None)
            },
            MdToken::Text(x) => if t == TitleState::AwaitingTitle {
                if is_todos_title(x) {
                    (ExtractState::Searching(TitleState::TitleConfirmed), None)
                } else {
                    (ExtractState::Searching(TitleState::NotFound), None)
                }
            } else {
                (s, None)
            },
            MdToken::HeadingEnd(level) => if level == 2 && t == TitleState::TitleConfirmed {
                (ExtractState::Collecting { depth: 0, candidate: Candidate::NoItem }, None)
            } else if t == TitleState::AwaitingTitle {
                (ExtractState::Searching(TitleState::NotFound), None)
            } else {
                (s, None)
            },
            _ => (s, None),
        },
        ExtractState::Collecting { depth, candidate } => match e {
            MdToken::HeadingStart(_) => (ExtractState::Finished, None),
            MdToken::ItemStart(_) => if depth == 0 {
                (ExtractState::Collecting { depth: 1, candidate: Candidate::Pending(i) }, None)
            } else {
                (ExtractState::Collecting { depth: (depth + 1) as usize, candidate }, None)
            },
            MdToken::ItemEnd => if depth <= 1 {
                (ExtractState::Collecting { depth: 0, candidate: Candidate::NoItem }, None)
            } else {
                (ExtractState::Collecting { depth: (depth - 1) as usize, candidate }, None)
            },
            MdToken::TaskMarker(done) => match candidate {
                Candidate::Pending(k) => if depth == 1 {
                    if done {
                        (ExtractState::Collecting { depth, candidate: Candidate::NoItem }, None)
                    } else {
                        (ExtractState::Collecting { depth, candidate: Candidate::NoItem }, Some(k))
                    }
                } else {
                    (s, None)
                },
                _ => (s, None),
            },
            _ => (s, None),
        },
        ExtractState::Finished => (s, None),
    }
}

/// The state after the events `evs`, and the indices of the kept items in order.
pub open spec fn run(evs: Seq<MdToken>) -> (ExtractState, Seq<usize>)
    decreases evs.len(),
{
    if evs.len() == 0 {
        (ExtractState::Searching(TitleState::NotFound), Seq::empty())
    } else {
        let (s, kept) = run(evs.drop_last());
        let (next, out) = step(s, (evs.len() - 1) as usize, evs.last());
        (
            next,
            match out {
                Some(k) => kept.push(k),
                None => kept,
            },
        )
    }
}

/// The source text of an item start event.
pub open spec fn item_text(e: MdToken) -> Seq<char> {
    match e {
        MdToken::ItemStart(t) => t,
        _ => Seq::empty(),
    }
}

/// The texts of the kept items, in order.
pub open spec fn todo_items(evs: Seq<MdToken>) -> Seq<Seq<char>> {
    texts_at(evs, run(evs).1)
}

/// The texts of the item start events at the indices `kept`.
pub open spec fn texts_at(evs: Seq<MdToken>, kept: Seq<usize>) -> Seq<Seq<char>> {
    kept.map_values(|k: usize| item_text(evs[k as int]))
}

/// What is known of every prefix: depths and item indices stay below the
/// number of events read, kept items are kept in increasing order, and they
/// come before the current candidate.
pub open spec fn run_bounds(evs: Seq<MdToken>) -> bool {
    let (s, kept) = run(evs);
    &&& forall|j: int| 0 <= j < kept.len() ==> (#[trigger] kept[j]) < evs.len()
    &&& forall|j: int| 0 <= j < kept.len() ==> evs[kept[j] as int] is ItemStart
    &&& forall|a: int, b: int| 0 <= a < b < kept.len() ==> #[trigger] kept[a] < #[trigger] kept[b]
    &&& s matches ExtractState::Collecting { depth, candidate } ==> {
        &&& depth <= evs.len()
        &&& candidate matches Candidate::Pending(k) ==> k < evs.len() && evs[k as int] is ItemStart
            && forall|j: int| 0 <= j < kept.len() ==> (#[trigger] kept[j]) < k
        &&& candidate != Candidate::NoItem ==> depth >= 1
    }
}

proof fn lemma_run_bounds(evs: Seq<MdToken>)
    requires
        evs.len() <= usize::MAX,
    ensures
        run_bounds(evs),
    decreases evs.len(),
{
    if evs.len() > 0 {
        let p = evs.drop_last();
        lemma_run_bounds(p);
        assert forall|j: int| 0 <= j < p.len() implies p[j] == evs[j] by {}
    }
}

/// Whether a level-2 heading's first text, before the heading ends, is "TODOs".
pub open spec fn has_todos_heading(evs: Seq<MdToken>) -> bool {
    exists|i: int, j: int|
        #![trigger evs[i], evs[j]]
        0 <= i < j < evs.len() && evs[i] == MdToken::HeadingStart(2) && (evs[j] matches MdToken::Text(
            t,
        ) && is_todos_title(t)) && forall|k: int|
            i < k < j ==> !(#[trigger] evs[k] is Text) && !(evs[k] is HeadingEnd)
}

#[verifier::rlimit(40)]
proof fn lemma_search_phase(evs: Seq<MdToken>)
    ensures
        run(evs).0 is Searching ==> run(evs).1.len() == 0,
        run(evs).0 == ExtractState::Searching(TitleState::AwaitingTitle) ==> exists|i: int|
            0 <= i < evs.len() && evs[i] == MdToken::HeadingStart(2) && forall|k: int|
                i < k < evs.len() ==> !(#[trigger] evs[k] is Text) && !(evs[k] is HeadingEnd),
        run(evs).0 == ExtractState::Searching(TitleState::TitleConfirmed) ==> has_todos_heading(evs),
        !(run(evs).0 is Searching) ==> has_todos_heading(evs),
    decreases evs.len(),
{
    if evs.len() > 0 {
        let p = evs.drop_last();
        let n = evs.len() - 1;
        lemma_search_phase(p);
        assert forall|k: int| 0 <= k < p.len() implies p[k] == evs[k] by {}
        let s = run(p).0;
        let e = evs.last();
        if has_todos_heading(p) {
            let (i, j) = choose|i: int, j: int|
                #![trigger p[i], p[j]]
                0 <= i < j < p.len() && p[i] == MdToken::HeadingStart(2) && (p[j] matches MdToken::Text(
                    t,
                ) && is_todos_title(t)) && forall|k: int|
                    i < k < j ==> !(#[trigger] p[k] is Text) && !(p[k] is HeadingEnd);
            assert(evs[j] == p[j]);
            assert forall|k: int| i < k < j implies !(#[trigger] evs[k] is Text) && !(
            evs[k] is HeadingEnd) by {
                assert(evs[k] == p[k]);
            }
            assert(has_todos_heading(evs));
        }
        if e == MdToken::HeadingStart(2) {
            assert(evs[n] == MdToken::HeadingStart(2));
        } else if s == ExtractState::Searching(TitleState::AwaitingTitle) {
            let i = choose|i: int|
                0 <= i < p.len() && p[i] == MdToken::HeadingStart(2) && forall|k: int|
                    i < k < p.len() ==> !(#[trigger] p[k] is Text) && !(p[k] is HeadingEnd);
            assert(evs[i] == MdToken::HeadingStart(2));
            if let MdToken::Text(t) = e {
                if is_todos_title(t) {
                    assert forall|k: int| i < k < n implies !(#[trigger] evs[k] is Text) && !(
                    evs[k] is HeadingEnd) by {
                        assert(evs[k] == p[k]);
                    }
                    assert(evs[n] matches MdToken::Text(t) && is_todos_title(t));
                    assert(has_todos_heading(evs));
                }
            } else if !(e is HeadingEnd) {
                assert forall|k: int| i < k < evs.len() implies !(#[trigger] evs[k] is Text) && !(
                evs[k] is HeadingEnd) by {
                    if k < n {
                        assert(evs[k] == p[k]);
                    }
                }
            }
        }
    }
}

/// A document whose events hold no level-2 heading titled "TODOs" yields no
/// item, and the extraction never leaves its search.
pub proof fn lemma_no_todos_heading_no_items(evs: Seq<MdToken>)
    requires
        !has_todos_heading(evs),
    ensures
        todo_items(evs) == Seq::<Seq<char>>::empty(),
        run(evs).0 is Searching,
        outcome_state(run(evs).0) == State::Done,
{
    lemma_search_phase(evs);
    assert(todo_items(evs) =~= Seq::<Seq<char>>::empty());
}

proof fn lemma_finished_stays(p: Seq<MdToken>, rest: Seq<MdToken>)
    requires
        run(p).0 == ExtractState::Finished,
    ensures
        run(p + rest) == run(p),
    decreases rest.len(),
{
    if rest.len() == 0 {
        assert(p + rest =~= p);
    } else {
        lemma_finished_stays(p, rest.drop_last());
        assert((p + rest).drop_last() =~= p + rest.drop_last());
    }
}

/// Once the TODOs section is being read, the start of a heading of any
/// level ends it: nothing after that heading is kept.
pub proof fn lemma_heading_ends_collection(before: Seq<MdToken>, level: u8, after: Seq<MdToken>)
    requires
        run(before).0 is Collecting,
        before.len() + 1 + after.len() <= usize::MAX,
    ensures
        run(before.push(MdToken::HeadingStart(level)) + after).0 == ExtractState::Finished,
        run(before.push(MdToken::HeadingStart(level)) + after).1 == run(before).1,
        todo_items(before.push(MdToken::HeadingStart(level)) + after) == todo_items(before),
{
    let p = before.push(MdToken::HeadingStart(level));
    let q = p + after;
    assert(p.drop_last() =~= before);
    lemma_finished_stays(p, after);
    lemma_run_bounds(before);
    let kept = run(before).1;
    assert forall|j: int| 0 <= j < kept.len() implies q[kept[j] as int] == before[kept[j] as int] by {
        assert(kept[j] < before.len());
    }
    assert(todo_items(q) =~= todo_items(before));
}

/// Indices kept after a prefix `p` that leaves no candidate item open lie
/// beyond `p`.
proof fn lemma_kept_after(p: Seq<MdToken>, after: Seq<MdToken>)
    requires
        !(run(p).0 matches ExtractState::Collecting { candidate, .. } && candidate
            != Candidate::NoItem),
        p.len() + after.len() <= usize::MAX,
    ensures
        run(p + after).1.len() >= run(p).1.len(),
        run(p + after).1.take(run(p).1.len() as int) == run(p).1,
        forall|j: int|
            run(p).1.len() <= j < run(p + after).1.len() ==> #[trigger] run(p + after).1[j] >= p.len(),
        run(p + after).0 matches ExtractState::Collecting { candidate, .. } ==> (
        candidate matches Candidate::Pending(c) ==> c >= p.len()),
    decreases after.len(),
{
    if after.len() == 0 {
        assert(p + after =~= p);
        assert(run(p).1.take(run(p).1.len() as int) =~= run(p).1);
    } else {
        let a = after.drop_last();
        lemma_kept_after(p, a);
        assert((p + after).drop_last() =~= p + a);
        let prev = run(p + a).1;
        let now = run(p + after).1;
        if now.len() > prev.len() {
            assert(now =~= prev.push(now.last()));
            assert(now.take(run(p).1.len() as int) =~= prev.take(run(p).1.len() as int));
        }
    }
}

/// A top-level item checked off is never kept, whatever follows it.
pub proof fn lemma_checked_item_never_kept(before: Seq<MdToken>, after: Seq<MdToken>)
    requires
        run(before).0 matches ExtractState::Collecting { depth, candidate } && depth == 1
            && candidate is Pending,
        before.len() + 1 + after.len() <= usize::MAX,
    ensures
        ({
            let k = run(before).0->candidate->Pending_0;
            let kept = run(before.push(MdToken::TaskMarker(true)) + after).1;
            forall|j: int| 0 <= j < kept.len() ==> kept[j] != k
        }),
{
    let k = run(before).0->candidate->Pending_0;
    let p = before.push(MdToken::TaskMarker(true));
    assert(p.drop_last() =~= before);
    lemma_run_bounds(before);
    lemma_kept_after(p, after);
    let kept = run(p + after).1;
    let first = run(p).1;
    assert forall|j: int| 0 <= j < kept.len() implies kept[j] != k by {
        if j < first.len() {
            assert(kept[j] == kept.take(first.len() as int)[j]);
            assert(first[j] < k);
        } else {
            assert(kept[j] >= p.len());
        }
    }
}

/// A checkbox inside a nested item leaves the top-level item as it is.
pub proof fn lemma_nested_marker_ignored(before: Seq<MdToken>, done: bool)
    requires
        run(before).0 matches ExtractState::Collecting { depth, .. } && depth >= 2,
    ensures
        run(before.push(MdToken::TaskMarker(done))) == run(before),
{
    assert(before.push(MdToken::TaskMarker(done)).drop_last() =~= before);
}

/// An open top-level item is kept as soon as its own checkbox shows it
/// open, as the whole source text of its start event: its nested items,
/// checked or not, come with it.
pub proof fn lemma_open_item_kept_whole(before: Seq<MdToken>)
    requires
        run(before).0 matches ExtractState::Collecting { depth, candidate } && depth == 1
            && candidate is Pending,
        before.len() + 1 <= usize::MAX,
    ensures
        ({
            let k = run(before).0->candidate->Pending_0;
            todo_items(before.push(MdToken::TaskMarker(false))) == todo_items(before).push(
                item_text(before[k as int]),
            )
        }),
{
    let k = run(before).0->candidate->Pending_0;
    let q = before.push(MdToken::TaskMarker(false));
    assert(q.drop_last() =~= before);
    lemma_run_bounds(before);
    let kept = run(before).1;
    assert forall|j: int| 0 <= j < kept.len() implies q[kept[j] as int] == before[kept[j] as int] by {
        assert(kept[j] < before.len());
    }
    assert(q[k as int] == before[k as int]);
    assert(todo_items(q) =~= todo_items(before).push(item_text(before[k as int])));
}

/// Whatever follows, an open top-level item stays in the final list, once,
/// as the whole source text of its start event.
pub proof fn lemma_open_item_kept_once(before: Seq<MdToken>, after: Seq<MdToken>)
    requires
        run(before).0 matches ExtractState::Collecting { depth, candidate } && depth == 1
            && candidate is Pending,
        before.len() + 1 + after.len() <= usize::MAX,
    ensures
        ({
            let k = run(before).0->candidate->Pending_0;
            let evs = before.push(MdToken::TaskMarker(false)) + after;
            let n = run(before).1.len();
            let kept = run(evs).1;
            &&& n < kept.len()
            &&& kept[n as int] == k
            &&& forall|j: int| 0 <= j < kept.len() && j != n ==> kept[j] != k
            &&& todo_items(evs)[n as int] == item_text(before[k as int])
        }),
{
    let k = run(before).0->candidate->Pending_0;
    let p = before.push(MdToken::TaskMarker(false));
    let evs = p + after;
    let n = run(before).1.len();
    assert(p.drop_last() =~= before);
    lemma_run_bounds(before);
    lemma_kept_after(p, after);
    let first = run(p).1;
    let kept = run(evs).1;
    assert(first == run(before).1.push(k));
    assert(kept[n as int] == kept.take(first.len() as int)[n as int]);
    assert forall|j: int| 0 <= j < kept.len() && j != n implies kept[j] != k by {
        if j < n {
            assert(kept[j] == kept.take(first.len() as int)[j]);
            assert(first[j] == run(before).1[j]);
        } else {
            assert(kept[j] >= p.len());
        }
    }
    assert(evs[k as int] == before[k as int]);
}

/// What the extraction returns, apart from the items.
#[derive(Clone, Copy, Debug, PartialEq, Eq, Structural)]
pub enum State {
    Initial,
    /// Inside the TODOs section when the document ended.
    GettingTodos,
    /// The section was missing, or another section followed it.
    Done,
}

pub open spec fn outcome_state(s: ExtractState) -> State {
    match s {
        ExtractState::Collecting { .. } => State::GettingTodos,
        _ => State::Done,
    }
}

fn item_text_of(e: &MdEvent) -> (r: String)
    ensures
        r@ == item_text(e@),
{
    match e {
        MdEvent::ItemStart(t) => t.clone(),
        _ => String::new(),
    }
}

/// One transition of the extraction, on the event at index `i`.
pub fn advance(s: ExtractState, i: usize, e: &MdEvent) -> (r: (ExtractState, Option<usize>))
    requires
        s matches ExtractState::Collecting { depth, .. } ==> depth < usize::MAX,
    ensures
        r == step(s, i, e@),
{
    match s {
        ExtractState::Searching(t) => match e {
            MdEvent::HeadingStart(level) => if *level == 2 {
                (ExtractState::Searching(TitleState::AwaitingTitle), None)
            } else {
                (s, None)
            },
            MdEvent::Text(x) => if t == TitleState::AwaitingTitle {
                proof {
                    reveal_strlit("TODOs");
                }
                if x.eq(&String::from_str("TODOs")) {
                    (ExtractState::Searching(TitleState::TitleConfirmed), None)
                } else {
                    (ExtractState::Searching(TitleState::NotFound), None)
                }
            } else {
                (s, None)
            },
            MdEvent::HeadingEnd(level) => if *level == 2 && t == TitleState::TitleConfirmed {
                (ExtractState::Collecting { depth: 0, candidate: Candidate::NoItem }, None)
            } else if t == TitleState::AwaitingTitle {
                (ExtractState::Searching(TitleState::NotFound), None)
            } else {
                (s, None)
            },
            _ => (s, None),
        },
        ExtractState::Collecting { depth, candidate } => match e {
            MdEvent::HeadingStart(_) => (ExtractState::Finished, None),
            MdEvent::ItemStart(_) => if depth == 0 {
                (ExtractState::Collecting { depth: 1, candidate: Candidate::Pending(i) }, None)
            } else {
                (ExtractState::Collecting { depth: depth + 1, candidate }, None)
            },
            MdEvent::ItemEnd => if depth <= 1 {
                (ExtractState::Collecting { depth: 0, candidate: Candidate::NoItem }, None)
            } else {
                (ExtractState::Collecting { depth: depth - 1, candidate }, None)
            },
            MdEvent::TaskMarker(done) => match candidate {
                Candidate::Pending(k) => if depth == 1 {
                    if *done {
                        (ExtractState::Collecting { depth, candidate: Candidate::NoItem }, None)
                    } else {
                        (ExtractState::Collecting { depth, candidate: Candidate::NoItem }, Some(k))
                    }
                } else {
                    (s, None)
                },
                _ => (s, None),
            },
            _ => (s, None),
        },
        ExtractState::Finished => (s, None),
    }
}

/// Runs the extraction over `events`: the final state and the source texts
/// of the kept items, in order.
pub fn extract_todos(events: &Vec<MdEvent>) -> (r: (ExtractState, Vec<String>))
    ensures
        r.0 == run(tokens_of(events@)).0,
        r.1.deep_view() == todo_items(tokens_of(events@)),
{
    let ghost evs = tokens_of(events@);
    let mut s = ExtractState::Searching(TitleState::NotFound);
    let mut items: Vec<String> = Vec::new();
    let ghost mut kept: Seq<usize> = Seq::empty();
    let mut i: usize = 0;
    while i < events.len()
        invariant
            evs == tokens_of(events@),
            i <= events@.len(),
            (s, kept) == run(evs.take(i as int)),
            items.deep_view() == texts_at(evs, kept),
        decreases events@.len() - i,
    {
        proof {
            lemma_run_bounds(evs.take(i as int));
            assert(evs.take(i + 1).drop_last() =~= evs.take(i as int));
            assert(evs.take(i + 1).last() == events@[i as int]@);
        }
        let (next, out) = advance(s, i, &events[i]);
        match out {
            Some(k) => {
                proof {
                    assert(k < i);
                    assert(evs.take(i as int)[k as int] == evs[k as int]);
                }
                let ghost old_items = items.deep_view();
                let text = item_text_of(&events[k]);
                items.push(text);
                proof {
                    assert(evs[k as int] == events@[k as int]@);
                    assert(items.deep_view() =~= old_items.push(item_text(evs[k as int])));
                    let old_kept = kept;
                    kept = kept.push(k);
                    assert forall|j: int| 0 <= j < kept.len() implies #[trigger] texts_at(evs, kept)[j]
                        == items.deep_view()[j] by {
                        if j < old_kept.len() {
                            assert(kept[j] == old_kept[j]);
                        }
                    }
                    assert(items.deep_view() =~= texts_at(evs, kept));
                }
            },
            None => {},
        }
        s = next;
        i = i + 1;
    }
    proof {
        assert(evs.take(events@.len() as int) =~= evs);
    }
    (s, items)
}

/// Finds the open top-level items of a journal entry's TODOs section.
pub struct FindTodos {
    state: State,
}

impl FindTodos {
    pub fn new() -> (r: FindTodos)
        ensures
            r.state() == State::Initial,
    {
        FindTodos { state: State::Initial }
    }

    pub closed spec fn state(&self) -> State {
        self.state
    }

    /// Where the last extraction stopped.
    pub fn current_state(&self) -> (r: State)
        ensures
            r == self.state(),
    {
        self.state
    }

    /// The source text of each open top-level item of the "TODOs" section of
    /// `markdown`, nested items included, in document order.
    #[verifier::rlimit(40)]
    pub fn process(&mut self, markdown: &str) -> (r: Vec<String>)
        ensures
            r.deep_view() == todo_items(markdown_events_of(markdown@)),
            final(self).state() == outcome_state(run(markdown_events_of(markdown@)).0),
            !has_todos_heading(markdown_events_of(markdown@)) ==> r@.len() == 0,
            !has_todos_heading(markdown_events_of(markdown@)) ==> final(self).state() == State::Done,
    {
        let events = markdown_events(markdown);
        let (s, items) = extract_todos(&events);
        proof {
            let evs = markdown_events_of(markdown@);
            if !has_todos_heading(evs) {
                lemma_no_todos_heading_no_items(evs);
                assert(items.deep_view().len() == items@.len());
            }
        }
        self.state = match s {
            ExtractState::Collecting { .. } => State::GettingTodos,
            _ => State::Done,
        };
        items
    }
}

/// The default template of the todos section.
pub const TODO_TEMPLATE: &'static str = "## TODOs\n{{#each todos as |todo| }}\n{{~todo~}}\n{{/each}}\n";

/// The todos section's template, if it is not the default one.
pub struct TodoConfig {
    pub template: Option<String>,
}

impl Default for TodoConfig {
    /// The default template.
    fn default() -> (r: TodoConfig)
        ensures
            r.template is None,
    {
        TodoConfig { template: None }
    }
}

/// The open items of the previous entry, if there is one.
pub open spec fn carried_items(latest_entry: Option<Seq<char>>) -> Seq<Seq<char>> {
    match latest_entry {
        Some(md) => todo_items(markdown_events_of(md)),
        None => Seq::empty(),
    }
}

pub open spec fn template_or(template: Option<String>, default: Seq<char>) -> Seq<char> {
    match template {
        Some(t) => t@,
        None => default,
    }
}

impl TodoConfig {
    /// The todos section: the open items of the latest entry's TODOs
    /// section (none without an entry), rendered through the template as
    /// the list `todos`. It fails exactly where the template engine refuses
    /// the template.
    pub fn render(&self, latest_entry: Option<&str>) -> (r: Result<String, String>)
        ensures
            gives(
                r,
                rendered_list_of(
                    template_or(self.template, TODO_TEMPLATE@),
                    "todos"@,
                    carried_items(
                        match latest_entry {
                            Some(md) => Some(md@),
                            None => None,
                        },
                    ),
                ),
            ),
    {
        let todos = match latest_entry {
            Some(md) => {
                let mut finder = FindTodos::new();
                finder.process(md)
            },
            None => Vec::new(),
        };
        proof {
            if latest_entry is None {
                assert(todos.deep_view() =~= Seq::<Seq<char>>::empty());
            }
        }
        match &self.template {
            Some(t) => render_list(t.as_str(), "todos", &todos),
            None => render_list(TODO_TEMPLATE, "todos", &todos),
        }
    }
}

} // verus!
