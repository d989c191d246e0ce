//! What every remediation task offers, independent of the operating system it
//! runs against: its name, its description, and whether it only previews its
//! changes. Reading the machine, changing it and checking the change are the
//! program's, which drives them for whichever task it was given.
use vstd::prelude::*;
use crate::models::{details_of, opt_view, TaskResult};
use crate::text::{chars_of, concat_chars, concat_str, string_of, strs};

verus! {

/// One unit of remediation, as the program sees it before running it.
pub trait Task: Send {
    /// The task's name, as menus and logs show it.
    fn name(&self) -> &str;

    /// One line on what the task does.
    fn description(&self) -> &str;

    /// When true, the task only previews its changes.
    fn dry_run(&self) -> bool;

    fn set_dry_run(&mut self, value: bool);
}

/// What came of one change the program made on a task's behalf.
#[derive(Clone, Debug, PartialEq, Eq)]
pub enum Outcome {
    /// The change was made.
    Done,
    /// The change did not apply, and nothing was wrong (its subject is absent).
    Skipped,
    /// The change failed, for the reason given.
    Failed(String),
}


/// How a failed change is worded in a task's error details.
#[derive(Clone, Copy, Debug, PartialEq, Eq)]
pub enum Wording {
    /// `subject: reason`.
    Colon,
    /// `subject (reason)`.
    Brackets,
}

pub open spec fn worded(subject: Seq<char>, reason: Seq<char>, wording: Wording) -> Seq<char> {
    match wording {
        Wording::Colon => subject + ": "@ + reason,
        Wording::Brackets => subject + " ("@ + reason + ")"@,
    }
}

/// What a run of changes has come to: how many were made, how many did not
/// apply, and why the others failed.
pub struct TallyView {
    pub succeeded: i32,
    pub skipped: i32,
    pub failures: Seq<Seq<char>>,
}

pub open spec fn bumped(n: i32) -> i32 {
    if n < i32::MAX {
        (n + 1) as i32
    } else {
        n
    }
}

/// The tally after one more change on `subject` came out as `outcome`: a
/// change made counts as a success, one that did not apply as skipped, and
/// a failure is listed with its reason.
pub open spec fn tally_after(
    t: TallyView,
    subject: Seq<char>,
    outcome: Outcome,
    wording: Wording,
) -> TallyView {
    match outcome {
        Outcome::Done => TallyView { succeeded: bumped(t.succeeded), ..t },
        Outcome::Skipped => TallyView { skipped: bumped(t.skipped), ..t },
        Outcome::Failed(e) => TallyView {
            failures: t.failures.push(worded(subject, e@, wording)),
            ..t
        },
    }
}

/// The tally of a whole sequence of changes, taken in order.
pub open spec fn tally_of(changes: Seq<(Seq<char>, Outcome, Wording)>) -> TallyView
    decreases changes.len(),
{
    if changes.len() == 0 {
        TallyView { succeeded: 0, skipped: 0, failures: Seq::empty() }
    } else {
        let last = changes.last();
        tally_after(tally_of(changes.drop_last()), last.0, last.1, last.2)
    }
}

/// The running account of a task's changes.
pub struct Tally {
    succeeded: i32,
    skipped: i32,
    failures: Vec<String>,
}

impl Tally {
    pub closed spec fn state(&self) -> TallyView {
        TallyView { succeeded: self.succeeded, skipped: self.skipped, failures: strs(self.failures@) }
    }

    /// Nothing counted yet.
    pub fn new() -> (t: Self)
        ensures
            t.state() == tally_of(Seq::empty()),
    {
        let t = Tally { succeeded: 0, skipped: 0, failures: Vec::new() };
        proof {
            assert(strs(t.failures@) =~= Seq::<Seq<char>>::empty());
        }
        t
    }

    /// Count one change on `subject`; a failure reads `subject: reason`.
    pub fn record(&mut self, subject: &str, outcome: Outcome)
        ensures
            final(self).state() == tally_after(old(self).state(), subject@, outcome, Wording::Colon),
    {
        self.record_worded(subject, outcome, Wording::Colon);
    }

    /// Count one change on `subject`, its failure worded as `wording` says.
    pub fn record_worded(&mut self, subject: &str, outcome: Outcome, wording: Wording)
        ensures
            final(self).state() == tally_after(old(self).state(), subject@, outcome, wording),
    {
        match outcome {
            Outcome::Done => {
                if self.succeeded < i32::MAX {
                    self.succeeded = self.succeeded + 1;
                }
            },
            Outcome::Skipped => {
                if self.skipped < i32::MAX {
                    self.skipped = self.skipped + 1;
                }
            },
            Outcome::Failed(e) => {
                let text = word(subject, &e, wording);
                self.failures.push(text);
                proof {
                    assert(strs(self.failures@) =~= strs(old(self).failures@).push(text@));
                }
            },
        }
    }

    /// How many changes were made.
    pub fn succeeded(&self) -> (n: i32)
        ensures
            n == self.state().succeeded,
    {
        self.succeeded
    }

    /// How many changes did not apply.
    pub fn skipped(&self) -> (n: i32)
        ensures
            n == self.state().skipped,
    {
        self.skipped
    }

    /// How many changes failed.
    pub fn failed(&self) -> (n: usize)
        ensures
            n == self.state().failures.len(),
    {
        self.failures.len()
    }

    /// Close a run into `result`: the counts, whether anything failed and
    /// why, and `message`.
    pub fn finish(&self, result: &mut TaskResult, message: String)
        ensures
            final(result).items_succeeded == self.state().succeeded,
            final(result).items_skipped == self.state().skipped,
            final(result).success == (self.state().failures.len() == 0),
            final(result).message@ == message@,
            opt_view(final(result).error_details) == details_of(self.state().failures),
            final(result).task_name == old(result).task_name,
            final(result).items_attempted == old(result).items_attempted,
            final(result).verified == old(result).verified,
            final(result).confidence_percent == old(result).confidence_percent,
    {
        result.items_succeeded = self.succeeded;
        result.items_skipped = self.skipped;
        result.finish(message, &self.failures);
    }
}

fn word(subject: &str, reason: &String, wording: Wording) -> (r: String)
    ensures
        r@ == worded(subject@, reason@, wording),
{
    let v = match wording {
        Wording::Colon => concat_chars(&concat_str(&chars_of(subject), ": "), &chars_of(reason.as_str())),
        Wording::Brackets => concat_str(
            &concat_chars(&concat_str(&chars_of(subject), " ("), &chars_of(reason.as_str())),
            ")",
        ),
    };
    proof {
        assert(v@ =~= worded(subject@, reason@, wording));
    }
    string_of(&v)
}

/// Every change of a run is accounted for exactly once, as made, as not
/// applying, or as a failure with its reason (while the counts stay below
/// their cap).
pub proof fn law_every_change_is_accounted_for(changes: Seq<(Seq<char>, Outcome, Wording)>)
    requires
        changes.len() < i32::MAX,
    ensures
        tally_of(changes).succeeded + tally_of(changes).skipped + tally_of(changes).failures.len()
            == changes.len(),
        0 <= tally_of(changes).succeeded,
        0 <= tally_of(changes).skipped,
    decreases changes.len(),
{
    if changes.len() > 0 {
        law_every_change_is_accounted_for(changes.drop_last());
    }
}

} // verus!
