//! What a round's README says, as the tasks read it: the accounts it
//! authorises, the software and services it requires or forbids, and the
//! scenario text that decides what may be deleted.
use vstd::prelude::*;
use crate::text::{chars_all, chars_of, join, join_chars, string_of, strs};
use crate::text::{concat_chars, concat_str, decimal_of, decimal_string, lines, lines_of, seqs};

pub mod fix_record;
pub mod password_policy;

verus! {

/// An account the README names.
#[derive(Debug, Clone)]
pub struct AuthorizedUser {
    pub username: String,
    /// The password the README publishes for it, if any.
    pub password: Option<String>,
    pub is_admin: bool,
    /// The account the competitor logs in as, which is never touched.
    pub is_primary_user: bool,
    pub notes: Option<String>,
}

/// A group the README wants to exist with the given members.
#[derive(Debug, Clone)]
pub struct GroupRequirement {
    pub group_name: String,
    pub members: Vec<String>,
}

/// Software the README requires.
#[derive(Debug, Clone)]
pub struct SoftwareRequirement {
    pub name: String,
    pub version: Option<String>,
    pub should_be_latest: bool,
    pub is_required: bool,
    pub notes: Option<String>,
}

/// The parts of a README the tasks act on.
#[derive(Debug, Clone)]
pub struct ReadmeData {
    pub title: String,
    pub operating_system: String,
    pub scenario: String,
    pub guidelines: Vec<String>,
    pub administrators: Vec<AuthorizedUser>,
    pub users: Vec<AuthorizedUser>,
    pub users_to_create: Vec<String>,
    pub group_requirements: Vec<GroupRequirement>,
    pub required_software: Vec<SoftwareRequirement>,
    pub prohibited_software: Vec<String>,
    pub critical_services: Vec<String>,
    pub prohibited_services: Vec<String>,
}

impl Default for ReadmeData {
    /// A README that says nothing.
    fn default() -> (r: Self)
        ensures
            r.title@.len() == 0,
            r.operating_system@.len() == 0,
            r.scenario@.len() == 0,
            r.guidelines@.len() == 0,
            r.administrators@.len() == 0,
            r.users@.len() == 0,
            r.users_to_create@.len() == 0,
            r.group_requirements@.len() == 0,
            r.required_software@.len() == 0,
            r.prohibited_software@.len() == 0,
            r.critical_services@.len() == 0,
            r.prohibited_services@.len() == 0,
    {
        ReadmeData {
            title: String::new(),
            operating_system: String::new(),
            scenario: String::new(),
            guidelines: Vec::new(),
            administrators: Vec::new(),
            users: Vec::new(),
            users_to_create: Vec::new(),
            group_requirements: Vec::new(),
            required_software: Vec::new(),
            prohibited_software: Vec::new(),
            critical_services: Vec::new(),
            prohibited_services: Vec::new(),
        }
    }
}

/// What a task read of the machine before acting.
#[derive(Debug, Clone)]
pub struct SystemInfo {
    /// What the commands it ran printed.
    pub raw_output: Option<String>,
    /// What they printed as errors.
    pub error_output: Option<String>,
}

impl Default for SystemInfo {
    /// Nothing read.
    fn default() -> (r: Self)
        ensures
            r.raw_output is None,
            r.error_output is None,
    {
        SystemInfo { raw_output: None, error_output: None }
    }
}

/// How one task's run went.
#[derive(Debug, Clone)]
pub struct TaskResult {
    pub task_name: String,
    pub success: bool,
    /// One line on what was done.
    pub message: String,
    pub items_attempted: i32,
    pub items_succeeded: i32,
    pub items_skipped: i32,
    /// What went wrong, one item after another.
    pub error_details: Option<String>,
    /// Did reading the machine back confirm the changes?
    pub verified: bool,
    /// How far the result can be trusted, in percent.
    pub confidence_percent: i32,
}

/// The most a result can be trusted.
pub const FULL_CONFIDENCE: i32 = 100;

/// How much trust an unconfirmed result loses, in percent.
pub const UNVERIFIED_PENALTY: i32 = 30;

/// The trust an unconfirmed result never falls below, in percent.
pub const CONFIDENCE_FLOOR: i32 = 50;

impl Default for TaskResult {
    /// A result with nothing done yet and full confidence.
    fn default() -> (r: Self)
        ensures
            r.task_name@.len() == 0,
            !r.success,
            r.message@.len() == 0,
            r.items_attempted == 0,
            r.items_succeeded == 0,
            r.items_skipped == 0,
            r.error_details is None,
            !r.verified,
            r.confidence_percent == FULL_CONFIDENCE,
    {
        TaskResult {
            task_name: String::new(),
            success: false,
            message: String::new(),
            items_attempted: 0,
            items_succeeded: 0,
            items_skipped: 0,
            error_details: None,
            verified: false,
            confidence_percent: FULL_CONFIDENCE,
        }
    }
}

/// The confidence left after verification: unchanged when the changes read
/// back as made, else lowered by [`UNVERIFIED_PENALTY`] but not below
/// [`CONFIDENCE_FLOOR`].
pub open spec fn confidence_after(confidence: int, verified: bool) -> int {
    if verified {
        confidence
    } else if confidence - UNVERIFIED_PENALTY > CONFIDENCE_FLOOR {
        confidence - UNVERIFIED_PENALTY
    } else {
        CONFIDENCE_FLOOR as int
    }
}

/// `failures.join("; ")`, or nothing when there were none.
pub open spec fn details_of(failures: Seq<Seq<char>>) -> Option<Seq<char>> {
    if failures.len() == 0 {
        None
    } else {
        Some(join(failures, "; "@))
    }
}

pub open spec fn opt_view(o: Option<String>) -> Option<Seq<char>> {
    match o {
        Some(s) => Some(s@),
        None => None,
    }
}

impl TaskResult {
    /// A result for the named task that has so far succeeded at nothing.
    pub fn started(task_name: &str) -> (r: Self)
        ensures
            r.task_name@ == task_name@,
            r.success,
            r.message@.len() == 0,
            r.items_attempted == 0,
            r.items_succeeded == 0,
            r.items_skipped == 0,
            r.error_details is None,
            !r.verified,
            r.confidence_percent == FULL_CONFIDENCE,
    {
        let mut r = TaskResult::default();
        r.task_name = string_of(&chars_of(task_name));
        r.success = true;
        r
    }

    /// Close a run: it succeeded when nothing failed, the failures become
    /// the details, and `message` says what was done.
    pub fn finish(&mut self, message: String, failures: &Vec<String>)
        ensures
            final(self).success == (failures@.len() == 0),
            final(self).message@ == message@,
            opt_view(final(self).error_details) == details_of(strs(failures@)),
            final(self).task_name == old(self).task_name,
            final(self).items_attempted == old(self).items_attempted,
            final(self).items_succeeded == old(self).items_succeeded,
            final(self).items_skipped == old(self).items_skipped,
            final(self).verified == old(self).verified,
            final(self).confidence_percent == old(self).confidence_percent,
    {
        self.success = failures.len() == 0;
        self.message = message;
        if failures.len() == 0 {
            self.error_details = None;
        } else {
            let joined = join_chars(&chars_all(failures), &chars_of("; "));
            self.error_details = Some(string_of(&joined));
        }
    }

    /// Record what verification found, and lower the confidence of a result
    /// whose changes did not read back.
    pub fn record_verification(&mut self, verified: bool)
        ensures
            final(self).verified == verified,
            final(self).confidence_percent == confidence_after(
                old(self).confidence_percent as int,
                verified,
            ),
            CONFIDENCE_FLOOR <= old(self).confidence_percent <= FULL_CONFIDENCE ==> CONFIDENCE_FLOOR
                <= final(self).confidence_percent <= FULL_CONFIDENCE,
            final(self).task_name == old(self).task_name,
            final(self).success == old(self).success,
            final(self).message == old(self).message,
            final(self).items_attempted == old(self).items_attempted,
            final(self).items_succeeded == old(self).items_succeeded,
            final(self).items_skipped == old(self).items_skipped,
            final(self).error_details == old(self).error_details,
    {
        self.verified = verified;
        if !verified {
            // Compared before subtracting, so that no confidence can overflow.
            self.confidence_percent = if self.confidence_percent > CONFIDENCE_FLOOR + UNVERIFIED_PENALTY {
                self.confidence_percent - UNVERIFIED_PENALTY
            } else {
                CONFIDENCE_FLOOR
            };
        }
    }
}


/// What a run of tasks adds up to: how many tasks ran, passed and read back
/// as verified, and the item counts summed over them. The sums are kept wide
/// enough that no count of results can overflow them.
pub struct RunTotals {
    pub tasks: usize,
    pub passed: usize,
    pub verified: usize,
    pub attempted: i128,
    pub succeeded: i128,
    pub skipped: i128,
    /// The tasks' confidence, summed.
    pub confidence: i128,
    /// Each task's confidence times the items it attempted, summed.
    pub weighted_confidence: i128,
}

pub open spec fn count_passed(rs: Seq<TaskResult>) -> nat
    decreases rs.len(),
{
    if rs.len() == 0 {
        0
    } else {
        count_passed(rs.drop_last()) + if rs.last().success {
            1nat
        } else {
            0nat
        }
    }
}

pub open spec fn count_verified(rs: Seq<TaskResult>) -> nat
    decreases rs.len(),
{
    if rs.len() == 0 {
        0
    } else {
        count_verified(rs.drop_last()) + if rs.last().verified {
            1nat
        } else {
            0nat
        }
    }
}

/// The sum of `f` over the results.
pub open spec fn sum_of(rs: Seq<TaskResult>, f: spec_fn(TaskResult) -> int) -> int
    decreases rs.len(),
{
    if rs.len() == 0 {
        0
    } else {
        sum_of(rs.drop_last(), f) + f(rs.last())
    }
}

pub open spec fn attempted_of(r: TaskResult) -> int {
    r.items_attempted as int
}

pub open spec fn succeeded_of(r: TaskResult) -> int {
    r.items_succeeded as int
}

pub open spec fn skipped_of(r: TaskResult) -> int {
    r.items_skipped as int
}

pub open spec fn confidence_of(r: TaskResult) -> int {
    r.confidence_percent as int
}

pub open spec fn weighted_of(r: TaskResult) -> int {
    r.confidence_percent as int * r.items_attempted as int
}

proof fn lemma_weighted_bound(r: TaskResult)
    ensures
        -0x4000_0000_0000_0000 <= weighted_of(r) <= 0x4000_0000_0000_0000,
{
    let c = r.confidence_percent as int;
    let a = r.items_attempted as int;
    assert(-0x4000_0000_0000_0000 <= c * a <= 0x4000_0000_0000_0000) by (nonlinear_arith)
        requires
            -0x8000_0000 <= c < 0x8000_0000,
            -0x8000_0000 <= a < 0x8000_0000,
    ;
}

/// Add up a run's results.
pub fn run_totals(results: &[TaskResult]) -> (t: RunTotals)
    ensures
        t.tasks == results@.len(),
        t.passed == count_passed(results@),
        t.verified == count_verified(results@),
        t.attempted == sum_of(results@, |r: TaskResult| attempted_of(r)),
        t.succeeded == sum_of(results@, |r: TaskResult| succeeded_of(r)),
        t.skipped == sum_of(results@, |r: TaskResult| skipped_of(r)),
        t.confidence == sum_of(results@, |r: TaskResult| confidence_of(r)),
        t.weighted_confidence == sum_of(results@, |r: TaskResult| weighted_of(r)),
{
    let ghost fa = |r: TaskResult| attempted_of(r);
    let ghost fs = |r: TaskResult| succeeded_of(r);
    let ghost fk = |r: TaskResult| skipped_of(r);
    let ghost fc = |r: TaskResult| confidence_of(r);
    let ghost fw = |r: TaskResult| weighted_of(r);
    let mut t = RunTotals {
        tasks: results.len(),
        passed: 0,
        verified: 0,
        attempted: 0,
        succeeded: 0,
        skipped: 0,
        confidence: 0,
        weighted_confidence: 0,
    };
    let mut i: usize = 0;
    while i < results.len()
        invariant
            i <= results@.len(),
            t.tasks == results@.len(),
            t.passed == count_passed(results@.take(i as int)),
            t.verified == count_verified(results@.take(i as int)),
            t.passed <= i,
            t.verified <= i,
            t.attempted == sum_of(results@.take(i as int), fa),
            t.succeeded == sum_of(results@.take(i as int), fs),
            t.skipped == sum_of(results@.take(i as int), fk),
            t.confidence == sum_of(results@.take(i as int), fc),
            t.weighted_confidence == sum_of(results@.take(i as int), fw),
            -(i as int) * 0x8000_0000 <= t.attempted <= (i as int) * 0x8000_0000,
            -(i as int) * 0x8000_0000 <= t.succeeded <= (i as int) * 0x8000_0000,
            -(i as int) * 0x8000_0000 <= t.skipped <= (i as int) * 0x8000_0000,
            -(i as int) * 0x8000_0000 <= t.confidence <= (i as int) * 0x8000_0000,
            -(i as int) * 0x4000_0000_0000_0000 <= t.weighted_confidence <= (i as int)
                * 0x4000_0000_0000_0000,
            fa == (|r: TaskResult| attempted_of(r)),
            fs == (|r: TaskResult| succeeded_of(r)),
            fk == (|r: TaskResult| skipped_of(r)),
            fc == (|r: TaskResult| confidence_of(r)),
            fw == (|r: TaskResult| weighted_of(r)),
        decreases results@.len() - i,
    {
        let r = &results[i];
        proof {
            assert(results@.take(i as int + 1).drop_last() =~= results@.take(i as int));
            assert(results@.take(i as int + 1).last() == results@[i as int]);
            lemma_weighted_bound(*r);
            assert((i as int + 1) * 0x4000_0000_0000_0000 <= 0x1_0000_0000_0000_0000 * 0x4000_0000_0000_0000)
                by (nonlinear_arith)
                requires
                    i < 0x1_0000_0000_0000_0000,
            ;
            assert((i as int) * 0x4000_0000_0000_0000 + 0x4000_0000_0000_0000 == (i as int + 1)
                * 0x4000_0000_0000_0000) by (nonlinear_arith);
            assert((i as int) * 0x8000_0000 + 0x8000_0000 == (i as int + 1) * 0x8000_0000)
                by (nonlinear_arith);
            assert((i as int + 1) * 0x8000_0000 <= 0x1_0000_0000_0000_0000 * 0x8000_0000)
                by (nonlinear_arith)
                requires
                    i < 0x1_0000_0000_0000_0000,
            ;
        }
        if r.success {
            t.passed = t.passed + 1;
        }
        if r.verified {
            t.verified = t.verified + 1;
        }
        t.attempted = t.attempted + r.items_attempted as i128;
        t.succeeded = t.succeeded + r.items_succeeded as i128;
        t.skipped = t.skipped + r.items_skipped as i128;
        t.confidence = t.confidence + r.confidence_percent as i128;
        t.weighted_confidence = t.weighted_confidence + (r.confidence_percent as i128) * (
        r.items_attempted as i128);
        i = i + 1;
    }
    proof {
        assert(results@.take(results@.len() as int) =~= results@);
    }
    t
}


/// An `i32` written out in decimal, as `{}` writes it.
pub open spec fn int_string(n: int) -> Seq<char> {
    if n < 0 {
        "-"@ + decimal_string((-n) as nat)
    } else {
        decimal_string(n as nat)
    }
}

fn int_text(n: i32) -> (r: Vec<char>)
    ensures
        r@ == int_string(n as int),
{
    if n < 0 {
        let magnitude: u64 = (-(n as i64)) as u64;
        let mut v = chars_of("-");
        crate::text::extend(&mut v, &decimal_of(magnitude));
        proof {
            reveal_strlit("-");
            assert(v@ =~= int_string(n as int));
        }
        v
    } else {
        decimal_of(n as u64)
    }
}

/// Each line of `text`, after `prefix`.
pub open spec fn prefixed(prefix: Seq<char>, text: Seq<char>) -> Seq<Seq<char>> {
    lines(text).map_values(|l: Seq<char>| prefix + l)
}

/// The block the run log gives one task's result: its name, outcome,
/// verification, counts and confidence, its message indented, and its
/// issues, if any, one per line.
pub open spec fn result_block(r: TaskResult) -> Seq<Seq<char>> {
    seq![
        Seq::empty(),
        "Task:      "@ + r.task_name@,
        "Outcome:   "@ + if r.success {
            "SUCCESS"@
        } else {
            "FAILED"@
        },
        "Verified:  "@ + if r.verified {
            "yes"@
        } else {
            "no"@
        },
        "Items:     "@ + int_string(r.items_attempted as int) + " attempted, "@ + int_string(
            r.items_succeeded as int,
        ) + " succeeded, "@ + int_string(r.items_skipped as int) + " skipped"@,
        "Confidence: "@ + int_string(r.confidence_percent as int) + "%"@,
    ] + prefixed("           "@, r.message@) + match r.error_details {
        Some(d) => seq!["Issues:"@] + prefixed("  - "@, d@),
        None => Seq::empty(),
    }
}

pub open spec fn rule_79() -> Seq<char> {
    Seq::new(79, |i: int| '=')
}

/// The run log's per-task section: a heading, then each result's block in
/// turn.
pub open spec fn result_details_spec(rs: Seq<TaskResult>) -> Seq<Seq<char>>
    decreases rs.len(),
{
    if rs.len() == 0 {
        seq![Seq::empty(), rule_79(), "TASK RESULTS"@, rule_79()]
    } else {
        result_details_spec(rs.drop_last()) + result_block(rs.last())
    }
}

fn prefixed_lines(prefix: &str, text: &str, out: &mut Vec<String>)
    ensures
        strs(final(out)@) == strs(old(out)@) + prefixed(prefix@, text@),
{
    let ls = lines_of(&chars_of(text));
    let ghost all = seqs(ls@);
    let ghost start = strs(out@);
    let p = chars_of(prefix);
    let mut i: usize = 0;
    while i < ls.len()
        invariant
            i <= ls@.len(),
            all == seqs(ls@),
            all == lines(text@),
            p@ == prefix@,
            strs(out@) == start + all.take(i as int).map_values(|l: Seq<char>| prefix@ + l),
        decreases ls@.len() - i,
    {
        let line = string_of(&concat_chars(&p, &ls[i]));
        let ghost before = strs(out@);
        out.push(line);
        proof {
            assert(strs(out@) =~= before.push(line@));
            assert(all.take(i as int + 1).map_values(|l: Seq<char>| prefix@ + l) =~= all.take(
                i as int,
            ).map_values(|l: Seq<char>| prefix@ + l).push(prefix@ + all[i as int]));
        }
        i = i + 1;
    }
    proof {
        assert(all.take(all.len() as int) =~= all);
    }
}

fn push_line(out: &mut Vec<String>, v: Vec<char>)
    ensures
        strs(final(out)@) == strs(old(out)@).push(v@),
{
    let line = string_of(&v);
    out.push(line);
    proof {
        assert(strs(out@) =~= strs(old(out)@).push(v@));
    }
}

fn push_block(r: &TaskResult, out: &mut Vec<String>)
    ensures
        strs(final(out)@) == strs(old(out)@) + result_block(*r),
{
    let ghost start = strs(out@);
    push_line(out, Vec::new());
    push_line(out, concat_str(&chars_of("Task:      "), r.task_name.as_str()));
    push_line(out, concat_str(&chars_of("Outcome:   "), if r.success { "SUCCESS" } else { "FAILED" }));
    push_line(out, concat_str(&chars_of("Verified:  "), if r.verified { "yes" } else { "no" }));
    let mut items = concat_chars(&chars_of("Items:     "), &int_text(r.items_attempted));
    items = concat_str(&items, " attempted, ");
    items = concat_chars(&items, &int_text(r.items_succeeded));
    items = concat_str(&items, " succeeded, ");
    items = concat_chars(&items, &int_text(r.items_skipped));
    items = concat_str(&items, " skipped");
    push_line(out, items);
    let confidence = concat_str(&concat_chars(&chars_of("Confidence: "), &int_text(r.confidence_percent)), "%");
    push_line(out, confidence);
    let ghost fixed = strs(out@);
    proof {
        reveal_strlit("Task:      ");
        reveal_strlit("Outcome:   ");
        reveal_strlit("Verified:  ");
        reveal_strlit("Items:     ");
        reveal_strlit("Confidence: ");
        assert(fixed =~= start + result_block(*r).take(6));
    }
    prefixed_lines("           ", r.message.as_str(), out);
    let ghost with_message = strs(out@);
    match &r.error_details {
        Some(d) => {
            push_line(out, chars_of("Issues:"));
            prefixed_lines("  - ", d.as_str(), out);
            proof {
                assert(strs(out@) =~= with_message + (seq!["Issues:"@] + prefixed("  - "@, d@)));
            }
        },
        None => {},
    }
    proof {
        assert(result_block(*r) =~= result_block(*r).take(6) + prefixed("           "@, r.message@)
            + match r.error_details {
            Some(d) => seq!["Issues:"@] + prefixed("  - "@, d@),
            None => Seq::empty(),
        });
        assert(strs(out@) =~= start + result_block(*r));
    }
}

/// The lines of the run log's per-task section.
pub fn result_details(results: &[TaskResult]) -> (r: Vec<String>)
    ensures
        strs(r@) == result_details_spec(results@),
{
    let mut out: Vec<String> = Vec::new();
    let mut rule: Vec<char> = Vec::new();
    let mut k: usize = 0;
    while k < 79
        invariant
            k <= 79,
            rule@ == Seq::new(k as nat, |i: int| '='),
        decreases 79 - k,
    {
        rule.push('=');
        k = k + 1;
        proof {
            assert(rule@ =~= Seq::new(k as nat, |i: int| '='));
        }
    }
    push_line(&mut out, Vec::new());
    push_line(&mut out, rule.clone());
    push_line(&mut out, chars_of("TASK RESULTS"));
    push_line(&mut out, rule);
    proof {
        assert(strs(out@) =~= result_details_spec(results@.take(0)));
    }
    let mut i: usize = 0;
    while i < results.len()
        invariant
            i <= results@.len(),
            strs(out@) == result_details_spec(results@.take(i as int)),
        decreases results@.len() - i,
    {
        push_block(&results[i], &mut out);
        proof {
            assert(results@.take(i as int + 1).drop_last() =~= results@.take(i as int));
        }
        i = i + 1;
    }
    proof {
        assert(results@.take(results@.len() as int) =~= results@);
    }
    out
}

} // verus!
