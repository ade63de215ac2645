//! The reminder store: one-off and recurring reminders in insertion order,
//! and which of them are due on a given day.
use vstd::prelude::*;
use vstd::arithmetic::div_mod::{
    lemma_fundamental_div_mod, lemma_mod_multiples_basic, lemma_mod_multiples_vanish,
};

use crate::date::{date_text_of, weekday_of, Date, DateError};
use crate::date::Weekday;
use crate::date_spec::{period_length, repeating_date_text, Period, RepeatingDate, SpecificDate};
use crate::template::{gives, render_list, rendered_list_of};
use crate::text::{decimal_string, decimal_text};

verus! {

/// One reminder as the store keeps it.
#[derive(Clone, Debug)]
pub enum StoredReminder {
    /// Due on exactly one date.
    Concrete { date: Date, text: String },
    /// Due again and again after `start`, as `interval` says.
    Recurring { start: Date, interval: RepeatingDate, text: String },
}

impl StoredReminder {
    pub open spec fn wf(self) -> bool {
        match self {
            StoredReminder::Concrete { date, .. } => date.wf(),
            StoredReminder::Recurring { start, interval, .. } => start.wf() && interval.wf(),
        }
    }

    pub open spec fn text_view(self) -> Seq<char> {
        match self {
            StoredReminder::Concrete { text, .. } => text@,
            StoredReminder::Recurring { text, .. } => text@,
        }
    }

    /// Whether the reminder is due on the day with this day number. A
    /// periodic reminder is due whenever the distance from its anchor is a
    /// multiple of its period, before the anchor as well as after it.
    pub open spec fn is_due(self, day: int) -> bool {
        match self {
            StoredReminder::Concrete { date, .. } => date.day_number() == day,
            StoredReminder::Recurring { start, interval, .. } => match interval {
                RepeatingDate::Weekday(w) => weekday_of(day) == w,
                RepeatingDate::Periodic { amount, period } => (day - start.day_number()) % (
                amount * period_length(period)) == 0,
            },
        }
    }

    /// What a listing shows in place of a date.
    pub open spec fn schedule_text(self) -> Seq<char> {
        match self {
            StoredReminder::Concrete { date, .. } => date_text_of(date.day_number()),
            StoredReminder::Recurring { interval, .. } => repeating_date_text(interval),
        }
    }
}

/// Texts of the reminders in `rs` that are due on `day`, in store order.
pub open spec fn due_texts(rs: Seq<StoredReminder>, day: int) -> Seq<Seq<char>>
    decreases rs.len(),
{
    if rs.len() == 0 {
        Seq::empty()
    } else {
        let before = due_texts(rs.drop_last(), day);
        if rs.last().is_due(day) {
            before.push(rs.last().text_view())
        } else {
            before
        }
    }
}

/// One line of a listing: the 1-based number, the date or the recurrence, and the text.
#[derive(Clone, Debug)]
pub struct Reminder {
    pub nr: usize,
    pub date: String,
    pub reminder: String,
}

/// Why a reminder could not be deleted.
#[derive(Clone, Copy, Debug, PartialEq, Eq, Structural)]
pub enum ReminderError {
    /// No reminder has this number.
    NotFound(u32),
}

impl ReminderError {
    /// "There is no reminder '3'".
    pub fn message(&self) -> (r: String)
        ensures
            self matches ReminderError::NotFound(nr) ==> r@ == "There is no reminder '"@
                + decimal_text(nr as nat) + "'"@,
    {
        match self {
            ReminderError::NotFound(nr) => {
                let text = String::from_str("There is no reminder '");
                let text = text.concat(decimal_string(*nr as u64).as_str());
                text.concat("'")
            },
        }
    }
}

/// The reminders, in the order in which they were added.
pub struct Reminders {
    stored: Vec<StoredReminder>,
}

impl View for Reminders {
    type V = Seq<StoredReminder>;

    closed spec fn view(&self) -> Seq<StoredReminder> {
        self.stored@
    }
}

proof fn lemma_mod_of_negation(d: int, p: int)
    requires
        p > 0,
    ensures
        (d % p == 0) <==> ((-d) % p == 0),
{
    lemma_fundamental_div_mod(d, p);
    lemma_fundamental_div_mod(-d, p);
    if d % p == 0 {
        let q = d / p;
        assert(-d == (-q) * p) by (nonlinear_arith)
            requires
                d == p * q,
        ;
        lemma_mod_multiples_basic(-q, p);
    }
    if (-d) % p == 0 {
        let q = (-d) / p;
        assert(d == (-q) * p) by (nonlinear_arith)
            requires
                -d == p * q,
        ;
        lemma_mod_multiples_basic(-q, p);
    }
}

/// A one-off reminder is due on its own date, once, and on no other date.
pub proof fn lemma_concrete_due_only_on_its_date(date: Date, text: String, day: int)
    ensures
        due_texts(seq![StoredReminder::Concrete { date, text }], day) == if day
            == date.day_number() {
            seq![text@]
        } else {
            Seq::<Seq<char>>::empty()
        },
{
    let rs = seq![StoredReminder::Concrete { date, text }];
    assert(rs.drop_last() =~= Seq::empty());
    assert(due_texts(rs.drop_last(), day) == Seq::<Seq<char>>::empty());
    assert(rs.last() == StoredReminder::Concrete { date, text });
    assert(seq![text@] =~= Seq::<Seq<char>>::empty().push(text@));
}

/// A weekly reminder, whatever its anchor, is due exactly on the days that
/// share its day of the week.
pub proof fn lemma_weekday_due_on_matching_days(start: Date, w: Weekday, text: String, day: int)
    ensures
        due_texts(
            seq![StoredReminder::Recurring { start, interval: RepeatingDate::Weekday(w), text }],
            day,
        ).len() > 0 <==> weekday_of(day) == w,
{
    let r = StoredReminder::Recurring { start, interval: RepeatingDate::Weekday(w), text };
    let rs = seq![r];
    assert(rs.drop_last() =~= Seq::empty());
    assert(due_texts(rs.drop_last(), day) == Seq::<Seq<char>>::empty());
    assert(rs.last() == r);
}

/// A reminder every two weeks is due on its anchor and every fourteen days
/// from it, and not on the weeks in between.
pub proof fn lemma_fortnightly_due_every_other_week(start: Date, text: String, k: int)
    ensures
        ({
            let r = StoredReminder::Recurring {
                start,
                interval: RepeatingDate::Periodic { amount: 2, period: Period::Weeks },
                text,
            };
            &&& r.is_due(start.day_number() + 14 * k)
            &&& !r.is_due(start.day_number() + 14 * k + 7)
        }),
{
    lemma_mod_multiples_vanish(k, 0, 14);
    lemma_mod_multiples_vanish(k, 7, 14);
    assert(start.day_number() + 14 * k - start.day_number() == 14 * k + 0);
    assert(start.day_number() + 14 * k + 7 - start.day_number() == 14 * k + 7);
}

impl Reminders {
    /// Every reminder has a representable date and a recurrence of at least one day.
    pub open spec fn wf(&self) -> bool {
        forall|i: int| 0 <= i < self@.len() ==> (#[trigger] self@[i]).wf()
    }

    pub fn new() -> (r: Reminders)
        ensures
            r@ == Seq::<StoredReminder>::empty(),
            r.wf(),
    {
        Reminders { stored: Vec::new() }
    }

    /// A store holding `entries`, if every one of them is well formed.
    pub fn from_entries(entries: Vec<StoredReminder>) -> (r: Option<Reminders>)
        ensures
            r.is_some() <==> forall|i: int| 0 <= i < entries@.len() ==> (#[trigger] entries@[i]).wf(),
            r matches Some(rs) ==> rs@ == entries@ && rs.wf(),
    {
        let mut i: usize = 0;
        while i < entries.len()
            invariant
                i <= entries@.len(),
                forall|j: int| 0 <= j < i ==> (#[trigger] entries@[j]).wf(),
            decreases entries@.len() - i,
        {
            let ok = match &entries[i] {
                StoredReminder::Concrete { date, .. } => Date::from_julian_day(
                    date.julian_day,
                ).is_ok(),
                StoredReminder::Recurring { start, interval, .. } => {
                    Date::from_julian_day(start.julian_day).is_ok() && match interval {
                        RepeatingDate::Periodic { amount, .. } => *amount > 0,
                        RepeatingDate::Weekday(_) => true,
                    }
                },
            };
            if !ok {
                return None;
            }
            i = i + 1;
        }
        Some(Reminders { stored: entries })
    }

    /// The stored reminders, in order.
    pub fn entries(&self) -> (r: &Vec<StoredReminder>)
        ensures
            r@ == self@,
    {
        &self.stored
    }

    pub fn len(&self) -> (r: usize)
        ensures
            r == self@.len(),
    {
        self.stored.len()
    }

    /// Appends a reminder due on `date`.
    pub fn on_date(&mut self, date: Date, reminder: String)
        requires
            old(self).wf(),
            date.wf(),
        ensures
            final(self).wf(),
            final(self)@ == old(self)@.push(StoredReminder::Concrete { date, text: reminder }),
    {
        self.stored.push(StoredReminder::Concrete { date, text: reminder });
        assert forall|i: int| 0 <= i < self@.len() implies (#[trigger] self@[i]).wf() by {
            if i < old(self)@.len() {
                assert(self@[i] == old(self)@[i]);
            }
        }
    }

    /// Appends a reminder that recurs as `interval` says, anchored at `today`.
    pub fn every(&mut self, today: Date, interval: &RepeatingDate, reminder: &str)
        requires
            old(self).wf(),
            today.wf(),
            interval.wf(),
        ensures
            final(self).wf(),
            final(self)@.len() == old(self)@.len() + 1,
            final(self)@.take(old(self)@.len() as int) == old(self)@,
            final(self)@.last() matches StoredReminder::Recurring { start, interval: iv, text } && start
                == today && iv == *interval && text@ == reminder@,
    {
        let text = String::from_str(reminder);
        self.stored.push(StoredReminder::Recurring { start: today, interval: *interval, text });
        assert(self@[self@.len() - 1].wf());
        assert(self@.take(self@.len() - 1) =~= old(self)@);
    }

    fn is_due_on(r: &StoredReminder, today: Date) -> (b: bool)
        requires
            r.wf(),
            today.wf(),
        ensures
            b == r.is_due(today.day_number()),
    {
        match r {
            StoredReminder::Concrete { date, .. } => date.julian_day == today.julian_day,
            StoredReminder::Recurring { start, interval, .. } => match interval {
                RepeatingDate::Weekday(w) => today.weekday() == *w,
                RepeatingDate::Periodic { amount, period } => {
                    let unit: u128 = match period {
                        Period::Days => 1,
                        Period::Weeks => 7,
                    };
                    let days: u128 = (*amount as u128) * unit;
                    let distance: i64 = today.julian_day as i64 - start.julian_day as i64;
                    let magnitude: u128 = if distance < 0 {
                        (-distance) as u128
                    } else {
                        distance as u128
                    };
                    proof {
                        lemma_mod_of_negation(distance as int, days as int);
                    }
                    magnitude % days == 0
                },
            },
        }
    }

    /// Texts of the reminders due on `today`, in store order.
    pub fn for_today(&self, today: Date) -> (r: Vec<String>)
        requires
            self.wf(),
            today.wf(),
        ensures
            r.deep_view() == due_texts(self@, today.day_number()),
    {
        let mut result: Vec<String> = Vec::new();
        let mut i: usize = 0;
        while i < self.stored.len()
            invariant
                self.wf(),
                today.wf(),
                i <= self@.len(),
                result.deep_view() == due_texts(self@.take(i as int), today.day_number()),
            decreases self@.len() - i,
        {
            let r = &self.stored[i];
            assert(self@.take(i + 1).drop_last() =~= self@.take(i as int));
            assert(self@[i as int].wf());
            if Self::is_due_on(r, today) {
                let text = match r {
                    StoredReminder::Concrete { text, .. } => text.clone(),
                    StoredReminder::Recurring { text, .. } => text.clone(),
                };
                result.push(text);
                assert(result.deep_view() =~= due_texts(self@.take(i as int), today.day_number()).push(
                    self@[i as int].text_view(),
                ));
            }
            i = i + 1;
        }
        assert(self@.take(self@.len() as int) =~= self@);
        result
    }

    /// Every reminder with its current 1-based number and its schedule.
    pub fn all(&self) -> (r: Vec<Reminder>)
        requires
            self.wf(),
        ensures
            r@.len() == self@.len(),
            forall|i: int|
                0 <= i < r@.len() ==> {
                    &&& #[trigger] r@[i].nr == i + 1
                    &&& r@[i].date@ == self@[i].schedule_text()
                    &&& r@[i].reminder@ == self@[i].text_view()
                },
    {
        let mut result: Vec<Reminder> = Vec::new();
        let mut i: usize = 0;
        while i < self.stored.len()
            invariant
                self.wf(),
                i <= self@.len(),
                result@.len() == i,
                forall|j: int|
                    0 <= j < i ==> {
                        &&& #[trigger] result@[j].nr == j + 1
                        &&& result@[j].date@ == self@[j].schedule_text()
                        &&& result@[j].reminder@ == self@[j].text_view()
                    },
            decreases self@.len() - i,
        {
            assert(self@[i as int].wf());
            let line = match &self.stored[i] {
                StoredReminder::Concrete { date, text } => Reminder {
                    nr: i + 1,
                    date: date.to_text(),
                    reminder: text.clone(),
                },
                StoredReminder::Recurring { interval, text, .. } => Reminder {
                    nr: i + 1,
                    date: interval.describe(),
                    reminder: text.clone(),
                },
            };
            result.push(line);
            i = i + 1;
        }
        result
    }

    /// Removes the reminder with 1-based number `nr`; later ones move up by one.
    pub fn delete(&mut self, nr: u32) -> (r: Result<(), ReminderError>)
        requires
            old(self).wf(),
        ensures
            final(self).wf(),
            r.is_ok() <==> 1 <= nr <= old(self)@.len(),
            r.is_ok() ==> final(self)@ == old(self)@.remove(nr - 1),
            r matches Err(e) ==> e == ReminderError::NotFound(nr) && final(self)@ == old(self)@,
    {
        if nr >= 1 && ((nr - 1) as usize) < self.stored.len() {
            self.stored.remove((nr - 1) as usize);
            assert forall|i: int| 0 <= i < self@.len() implies (#[trigger] self@[i]).wf() by {
                if i < nr - 1 {
                    assert(self@[i] == old(self)@[i]);
                } else {
                    assert(self@[i] == old(self)@[i + 1]);
                }
            }
            Ok(())
        } else {
            Err(ReminderError::NotFound(nr))
        }
    }
}

/// The default template of the reminders section.
pub const REMINDERS_TEMPLATE: &'static str = "\n## Your reminders for today:\n{{#each reminders as | reminder | }}\n* [ ] {{ reminder }}\n{{/each }}\n\n";

pub fn default_reminders_template() -> (r: String)
    ensures
        r@ == REMINDERS_TEMPLATE@,
{
    String::from_str(REMINDERS_TEMPLATE)
}

/// The reminders section's template.
pub struct ReminderConfig {
    pub template: String,
}

impl Default for ReminderConfig {
    fn default() -> (r: ReminderConfig)
        ensures
            r.template@ == REMINDERS_TEMPLATE@,
    {
        ReminderConfig::new()
    }
}

impl ReminderConfig {
    pub fn new() -> (r: ReminderConfig)
        ensures
            r.template@ == REMINDERS_TEMPLATE@,
    {
        ReminderConfig { template: default_reminders_template() }
    }

    /// The reminders section: the texts of the reminders due `today`,
    /// rendered through the template as the list `reminders`. It fails
    /// exactly where the template engine refuses the template.
    pub fn render(&self, reminders: &Reminders, today: Date) -> (r: Result<String, String>)
        requires
            reminders.wf(),
            today.wf(),
        ensures
            gives(
                r,
                rendered_list_of(
                    self.template@,
                    "reminders"@,
                    due_texts(reminders@, today.day_number()),
                ),
            ),
    {
        let due = reminders.for_today(today);
        render_list(self.template.as_str(), "reminders", &due)
    }
}

/// A change to, or a look at, the reminder store.
pub enum ReminderCmd {
    /// Add a reminder on a date, recurring, or both.
    New { on_date: Option<SpecificDate>, every: Option<RepeatingDate>, reminder: String },
    /// List all reminders.
    List,
    /// Delete the reminder with this number.
    Delete { nr: u32 },
}

/// What a command did, for the caller to report.
pub enum ReminderOutcome {
    /// Reminders were added: on this date, and recurring this way.
    Added { on: Option<Date>, every: Option<RepeatingDate> },
    Listed(Vec<Reminder>),
    Deleted(u32),
}

pub enum ReminderCmdError {
    NotFound(ReminderError),
    /// The requested date does not exist (such as February 30 of the current year).
    Date(DateError),
}

impl ReminderCmd {
    pub open spec fn wf(&self) -> bool {
        self matches ReminderCmd::New { on_date, every, .. } ==> {
            &&& on_date matches Some(d) ==> d.wf()
            &&& every matches Some(i) ==> i.wf()
        }
    }

    /// Carries the command out on `store`, with `today` as the current date:
    /// a new one-off reminder goes on the date its expression means from
    /// today, a new recurring one is anchored today.
    #[verifier::rlimit(40)]
    pub fn apply(self, store: &mut Reminders, today: Date) -> (r: Result<
        ReminderOutcome,
        ReminderCmdError,
    >)
        requires
            old(store).wf(),
            today.wf(),
            self.wf(),
        ensures
            final(store).wf(),
            self matches ReminderCmd::Delete { nr } ==> {
                &&& r is Ok <==> 1 <= nr <= old(store)@.len()
                &&& r matches Ok(o) ==> (o matches ReminderOutcome::Deleted(n) && n == nr)
                    && final(store)@ == old(store)@.remove(nr - 1)
                &&& r matches Err(e) ==> (e matches ReminderCmdError::NotFound(inner) && inner
                    == ReminderError::NotFound(nr)) && final(store)@ == old(store)@
            },
            self matches ReminderCmd::List ==> {
                &&& final(store)@ == old(store)@
                &&& r matches Ok(ReminderOutcome::Listed(lines)) && lines@.len() == old(store)@.len()
                    && forall|i: int|
                    0 <= i < lines@.len() ==> {
                        &&& #[trigger] lines@[i].nr == i + 1
                        &&& lines@[i].date@ == old(store)@[i].schedule_text()
                        &&& lines@[i].reminder@ == old(store)@[i].text_view()
                    }
            },
            self matches ReminderCmd::New { on_date, every, reminder } ==> {
                &&& on_date is None ==> r is Ok
                &&& on_date matches Some(sd) ==> (r is Err <==> exists|e: DateError|
                    sd.resolves_to(today, Err(e)))
                &&& r matches Err(e) ==> (e matches ReminderCmdError::Date(de) && (on_date matches Some(
                    sd,
                ) && sd.resolves_to(today, Err(de)))) && final(store)@ == old(store)@
                &&& r matches Ok(o) ==> (o matches ReminderOutcome::Added { on, every: added } && {
                    let n = old(store)@.len();
                    let k = if on is Some {
                        1int
                    } else {
                        0
                    };
                    &&& added == every
                    &&& on is Some <==> on_date is Some
                    &&& final(store)@.len() == n + k + if every is Some {
                        1int
                    } else {
                        0
                    }
                    &&& final(store)@.take(n as int) == old(store)@
                    &&& on matches Some(d) ==> (on_date->Some_0.resolves_to(today, Ok(d)) && (
                    final(store)@[n as int] matches StoredReminder::Concrete { date, text } && date
                        == d && text@ == reminder@))
                    &&& every matches Some(iv) ==> (final(store)@[n + k] matches StoredReminder::Recurring {
                        start,
                        interval,
                        text,
                    } && start == today && interval == iv && text@ == reminder@)
                })
            },
    {
        match self {
            ReminderCmd::Delete { nr } => match store.delete(nr) {
                Ok(()) => Ok(ReminderOutcome::Deleted(nr)),
                Err(e) => Err(ReminderCmdError::NotFound(e)),
            },
            ReminderCmd::List => {
                let lines = store.all();
                assert(forall|i: int|
                    0 <= i < lines@.len() ==> {
                        &&& #[trigger] lines@[i].nr == i + 1
                        &&& lines@[i].date@ == old(store)@[i].schedule_text()
                        &&& lines@[i].reminder@ == old(store)@[i].text_view()
                    });
                Ok(ReminderOutcome::Listed(lines))
            },
            ReminderCmd::New { on_date, every, reminder } => {
                let ghost n = old(store)@.len();
                let on = match on_date {
                    Some(sd) => match sd.next_date(today) {
                        Ok(d) => {
                            store.on_date(d, reminder.clone());
                            Some(d)
                        },
                        Err(e) => {
                            return Err(ReminderCmdError::Date(e));
                        },
                    },
                    None => None,
                };
                proof {
                    assert(store@.take(n as int) =~= old(store)@);
                }
                let ghost mid = store@;
                match every {
                    Some(iv) => {
                        store.every(today, &iv, reminder.as_str());
                        proof {
                            assert(store@.take(n as int) =~= mid.take(n as int));
                            assert(store@[mid.len() as int] == store@.last());
                            if on is Some {
                                assert(store@[n as int] == mid[n as int]);
                            }
                        }
                    },
                    None => {},
                }
                Ok(ReminderOutcome::Added { on, every })
            },
        }
    }
}

} // verus!
