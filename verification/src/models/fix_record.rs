//! One entry of the remediation ledger: what was wanted, what was done, and
//! what reading the state back proved.
use vstd::prelude::*;
use crate::text::filter_map;

verus! {

/// How a change ended.
#[derive(Debug, Clone, Copy, PartialEq, Eq, Structural)]
pub enum FixOutcome {
    /// The machine was already in the wanted state; nothing was written.
    AlreadyCompliant,
    /// The change was made and reading the state back confirms it.
    Fixed,
    /// The change was attempted and did not take.
    Failed,
    /// The write reported success but the result could not be confirmed.
    Unverified,
    /// Nothing was attempted: a dry run, or deliberately left alone.
    Skipped,
}

pub open spec fn tag_spec(o: FixOutcome) -> Seq<char> {
    match o {
        FixOutcome::Fixed => "FIXED"@,
        FixOutcome::AlreadyCompliant => "ALREADY OK"@,
        FixOutcome::Failed => "FAILED"@,
        FixOutcome::Unverified => "UNVERIFIED"@,
        FixOutcome::Skipped => "SKIPPED"@,
    }
}

impl FixOutcome {
    /// The fixed tag the ledger and the narrative share.
    pub fn tag(self) -> (r: &'static str)
        ensures
            r@ == tag_spec(self),
    {
        match self {
            FixOutcome::Fixed => "FIXED",
            FixOutcome::AlreadyCompliant => "ALREADY OK",
            FixOutcome::Failed => "FAILED",
            FixOutcome::Unverified => "UNVERIFIED",
            FixOutcome::Skipped => "SKIPPED",
        }
    }

    /// Did this leave the machine in the wanted state?
    pub fn is_compliant(self) -> (b: bool)
        ensures
            b == (self == FixOutcome::Fixed || self == FixOutcome::AlreadyCompliant),
    {
        match self {
            FixOutcome::Fixed | FixOutcome::AlreadyCompliant => true,
            _ => false,
        }
    }
}

/// One change, recorded specifically enough to check by hand.
#[derive(Debug, Clone)]
pub struct FixRecord {
    /// The task that wanted the change.
    pub task: String,
    /// The exact thing being changed: a path, a service name, an account.
    pub target: String,
    /// The wanted end state, and why it matters.
    pub intent: String,
    /// The state observed before acting, or `None` when it could not be read.
    pub before: Option<String>,
    /// What the tool actually did.
    pub action: String,
    pub outcome: FixOutcome,
    /// What reading the state back afterwards returned.
    pub evidence: String,
}

/// How many of the records ended with `outcome`.
pub open spec fn count_spec(fixes: Seq<FixRecord>, outcome: FixOutcome) -> nat
    decreases fixes.len(),
{
    if fixes.len() == 0 {
        0
    } else {
        count_spec(fixes.drop_last(), outcome) + if fixes.last().outcome == outcome {
            1nat
        } else {
            0nat
        }
    }
}

pub proof fn lemma_count_bound(fixes: Seq<FixRecord>, outcome: FixOutcome)
    ensures
        count_spec(fixes, outcome) <= fixes.len(),
    decreases fixes.len(),
{
    if fixes.len() > 0 {
        lemma_count_bound(fixes.drop_last(), outcome);
    }
}

/// How many of the records ended with `outcome`.
pub fn count_of(fixes: &[FixRecord], outcome: FixOutcome) -> (r: usize)
    ensures
        r == count_spec(fixes@, outcome),
{
    let mut count: usize = 0;
    let n = fixes.len();
    let mut i: usize = 0;
    while i < n
        invariant
            i <= n == fixes@.len(),
            count == count_spec(fixes@.take(i as int), outcome),
        decreases n - i,
    {
        proof {
            assert(fixes@.take(i + 1).drop_last() =~= fixes@.take(i as int));
            lemma_count_bound(fixes@.take(i as int), outcome);
        }
        if fixes[i].outcome == outcome {
            count = count + 1;
        }
        i = i + 1;
    }
    proof {
        assert(fixes@.take(n as int) =~= fixes@);
    }
    count
}

/// A record whose change is not confirmed: it failed, or it could not be
/// read back.
pub open spec fn unconfirmed(f: FixRecord) -> Option<FixRecord> {
    if f.outcome == FixOutcome::Failed || f.outcome == FixOutcome::Unverified {
        Some(f)
    } else {
        None
    }
}

pub open spec fn derefs(v: Seq<&FixRecord>) -> Seq<FixRecord> {
    v.map_values(|f: &FixRecord| *f)
}

/// The records to check by hand, in order: every failed and every
/// unverified change.
pub fn needs_attention(fixes: &[FixRecord]) -> (r: Vec<&FixRecord>)
    ensures
        derefs(r@) == filter_map(fixes@, |f: FixRecord| unconfirmed(f)),
{
    let mut out: Vec<&FixRecord> = Vec::new();
    let n = fixes.len();
    let mut i: usize = 0;
    while i < n
        invariant
            i <= n == fixes@.len(),
            derefs(out@) == filter_map(fixes@.take(i as int), |f: FixRecord| unconfirmed(f)),
        decreases n - i,
    {
        proof {
            assert(fixes@.take(i + 1).drop_last() =~= fixes@.take(i as int));
        }
        let f = &fixes[i];
        if f.outcome == FixOutcome::Failed || f.outcome == FixOutcome::Unverified {
            let ghost before = derefs(out@);
            out.push(f);
            proof {
                assert(derefs(out@) =~= before.push(*f));
            }
        }
        i = i + 1;
    }
    proof {
        assert(fixes@.take(n as int) =~= fixes@);
    }
    out
}

/// What a change is recorded as before anything is written: a machine
/// already in the wanted state is already compliant, a dry run writes
/// nothing, and otherwise (`None`) the change is made.
pub open spec fn before_spec(already_right: bool, dry_run: bool) -> Option<FixOutcome> {
    if already_right {
        Some(FixOutcome::AlreadyCompliant)
    } else if dry_run {
        Some(FixOutcome::Skipped)
    } else {
        None
    }
}

pub fn before_change(already_right: bool, dry_run: bool) -> (r: Option<FixOutcome>)
    ensures
        r == before_spec(already_right, dry_run),
{
    if already_right {
        Some(FixOutcome::AlreadyCompliant)
    } else if dry_run {
        Some(FixOutcome::Skipped)
    } else {
        None
    }
}

/// What a change that was made is recorded as: a write that failed has
/// failed; one whose result reads back as wanted is fixed; one whose result
/// does not is unverified, whatever the write reported.
pub open spec fn after_spec(written: bool, confirmed: bool) -> FixOutcome {
    if !written {
        FixOutcome::Failed
    } else if confirmed {
        FixOutcome::Fixed
    } else {
        FixOutcome::Unverified
    }
}

pub fn after_change(written: bool, confirmed: bool) -> (r: FixOutcome)
    ensures
        r == after_spec(written, confirmed),
{
    if !written {
        FixOutcome::Failed
    } else if confirmed {
        FixOutcome::Fixed
    } else {
        FixOutcome::Unverified
    }
}

/// A change is compliant only on the strength of having looked: "fixed"
/// needs the read-back to confirm it, "already OK" needs the machine to have
/// been right before, and a dry run or an unconfirmed write never is.
pub proof fn law_compliance_is_read_back(already_right: bool, dry_run: bool, written: bool, confirmed: bool)
    ensures
        before_spec(already_right, dry_run) == Some(FixOutcome::AlreadyCompliant) <==> already_right,
        after_spec(written, confirmed) == FixOutcome::Fixed <==> written && confirmed,
        before_spec(already_right, dry_run) == Some(FixOutcome::Skipped) ==> !already_right && dry_run,
{
}

} // verus!
