//! Cron jobs that look like persistence: a line that fetches from the network,
//! opens a shell, or runs something out of a world-writable directory. They
//! are reported, never disabled: a cron line's meaning depends on context.
use vstd::prelude::*;
use crate::task::Task;
use crate::text::{decimal_string, format_counts, interleave};
use crate::text::{concat_str, decimal_of, join, join_strings, join_strs, strs, views};
use crate::file_ops::{is_active_chars, line_is_active};
use crate::text::{
    chars_of, contains, contains_chars, filter_map, lines, lines_of, lowercase, lowercase_chars,
    seqs, string_of, trim, trim_chars,
};

verus! {

/// Where cron reads jobs from.
pub const CRON_LOCATIONS: [&'static str; 7] = [
    "/etc/crontab",
    "/etc/cron.d",
    "/etc/cron.hourly",
    "/etc/cron.daily",
    "/etc/cron.weekly",
    "/etc/cron.monthly",
    "/var/spool/cron/crontabs",
];

/// What a job line holds when it is worth a second look, in the order they
/// are tried.
pub const SUSPICIOUS_FRAGMENTS: [&'static str; 16] = [
    "curl",
    "wget",
    "nc ",
    "ncat",
    "/dev/tcp/",
    "bash -i",
    "sh -i",
    "base64 -d",
    "| sh",
    "| bash",
    "python -c",
    "python3 -c",
    "perl -e",
    "chmod +s",
    "useradd",
    "/tmp/",
];

/// Why each of [`SUSPICIOUS_FRAGMENTS`] is suspicious, row by row.
pub const SUSPICIOUS_REASONS: [&'static str; 16] = [
    "fetches something from the network",
    "fetches something from the network",
    "netcat - the classic reverse shell",
    "netcat - the classic reverse shell",
    "a bash reverse shell needs no binary at all",
    "an interactive shell from a scheduled job",
    "an interactive shell from a scheduled job",
    "decodes a payload rather than running a command",
    "pipes downloaded text straight into a shell",
    "pipes downloaded text straight into a shell",
    "runs inline code rather than a script",
    "runs inline code rather than a script",
    "runs inline code rather than a script",
    "sets the setuid bit",
    "creates an account on a schedule",
    "runs something out of a world-writable directory",
];

pub struct ScheduledTasksAuditTask {
    pub name: String,
    pub description: String,
    pub dry_run: bool,
}

impl ScheduledTasksAuditTask {
    pub fn new() -> (t: Self)
        ensures
            t.name@ == "Scheduled Tasks Audit"@,
            t.description@ == "Report cron jobs and timers that look like persistence"@,
            !t.dry_run,
    {
        ScheduledTasksAuditTask {
            name: String::from_str("Scheduled Tasks Audit"),
            description: String::from_str("Report cron jobs and timers that look like persistence"),
            dry_run: false,
        }
    }
}

impl Default for ScheduledTasksAuditTask {
    fn default() -> (t: Self)
        ensures
            t.name@ == "Scheduled Tasks Audit"@,
            t.description@ == "Report cron jobs and timers that look like persistence"@,
            !t.dry_run,
    {
        Self::new()
    }
}

/// The first fragment, at or after row `k`, that the lowercased line holds.
pub open spec fn first_fragment(lower: Seq<char>, k: nat) -> Option<int>
    decreases 16 - k,
{
    if k >= 16 {
        None
    } else if contains(lower, SUSPICIOUS_FRAGMENTS@[k as int]@) {
        Some(k as int)
    } else {
        first_fragment(lower, k + 1)
    }
}

/// Why an active line is suspicious: the reason of the first fragment its
/// lowercased text holds.
pub open spec fn suspicion_spec(line: Seq<char>) -> Option<&'static str> {
    if !line_is_active(line) {
        None
    } else {
        match first_fragment(lowercase(line), 0) {
            Some(i) => Some(SUSPICIOUS_REASONS@[i]),
            None => None,
        }
    }
}

fn suspicion_chars(line: &Vec<char>) -> (r: Option<&'static str>)
    ensures
        r == suspicion_spec(line@),
{
    if !is_active_chars(line) {
        return None;
    }
    let lower = lowercase_chars(line);
    let mut i: usize = 0;
    while i < 16
        invariant
            i <= 16,
            lower@ == lowercase(line@),
            line_is_active(line@),
            first_fragment(lower@, 0) == first_fragment(lower@, i as nat),
        decreases 16 - i,
    {
        let frag = SUSPICIOUS_FRAGMENTS[i];
        if contains_chars(&lower, &chars_of(frag)) {
            proof {
                assert(frag == SUSPICIOUS_FRAGMENTS@[i as int]);
                assert(first_fragment(lower@, i as nat) == Some(i as int));
            }
            return Some(SUSPICIOUS_REASONS[i]);
        }
        i = i + 1;
    }
    None
}

/// Why a cron line looks like persistence, if it does. Comments and blank
/// lines are not jobs.
pub fn suspicion(line: &str) -> (r: Option<&'static str>)
    ensures
        r == suspicion_spec(line@),
{
    suspicion_chars(&chars_of(line))
}

/// One suspicious job: the file it is in, the line trimmed, and why.
#[derive(Debug, Clone, PartialEq, Eq)]
pub struct Finding {
    pub source: String,
    pub line: String,
    pub why: &'static str,
}

pub open spec fn finding_views(v: Seq<Finding>) -> Seq<(Seq<char>, Seq<char>, &'static str)> {
    v.map_values(|f: Finding| (f.source@, f.line@, f.why))
}

/// The findings of one file: each suspicious line, trimmed, with its reason.
pub open spec fn scan_text_spec(source: Seq<char>, text: Seq<char>) -> Seq<
    (Seq<char>, Seq<char>, &'static str),
> {
    filter_map(
        lines(text),
        |l: Seq<char>|
            match suspicion_spec(l) {
                Some(why) => Some((source, trim(l), why)),
                None => None,
            },
    )
}

/// The suspicious jobs in the text of one cron file.
pub fn scan_text(source: &str, text: &str) -> (r: Vec<Finding>)
    ensures
        finding_views(r@) == scan_text_spec(source@, text@),
{
    let tv = chars_of(text);
    let ls = lines_of(&tv);
    let ghost all = seqs(ls@);
    let sv = chars_of(source);
    let mut out: Vec<Finding> = Vec::new();
    let n = ls.len();
    let mut i: usize = 0;
    while i < n
        invariant
            i <= n == ls.len(),
            all == seqs(ls@),
            all == lines(text@),
            sv@ == source@,
            finding_views(out@) == filter_map(
                all.take(i as int),
                |l: Seq<char>|
                    match suspicion_spec(l) {
                        Some(why) => Some((source@, trim(l), why)),
                        None => None,
                    },
            ),
        decreases n - i,
    {
        proof {
            assert(all.take(i + 1).drop_last() =~= all.take(i as int));
            assert(all.take(i + 1).last() == all[i as int]);
        }
        match suspicion_chars(&ls[i]) {
            Some(why) => {
                let f = Finding {
                    source: string_of(&sv),
                    line: string_of(&trim_chars(&ls[i])),
                    why,
                };
                let ghost before = finding_views(out@);
                out.push(f);
                proof {
                    assert(finding_views(out@) =~= before.push((f.source@, f.line@, f.why)));
                }
            },
            None => {},
        }
        i = i + 1;
    }
    proof {
        assert(all.take(n as int) =~= all);
    }
    out
}

} // verus!

verus! {

impl Task for ScheduledTasksAuditTask {
    fn name(&self) -> (r: &str)
        ensures
            r@ == self.name@,
    {
        self.name.as_str()
    }

    fn description(&self) -> (r: &str)
        ensures
            r@ == self.description@,
    {
        self.description.as_str()
    }

    fn dry_run(&self) -> (b: bool)
        ensures
            b == self.dry_run,
    {
        self.dry_run
    }

    /// Only the flag changes.
    fn set_dry_run(&mut self, value: bool)
        ensures
            *final(self) == (ScheduledTasksAuditTask { dry_run: value, ..*old(self) }),
    {
        self.dry_run = value;
    }
}

} // verus!

verus! {

/// What is reported when no job looks suspicious.
pub const NOTHING_FOUND_MESSAGE: &'static str = "No suspicious scheduled jobs found.";

/// What a finished run reports.
pub fn summary_message(findings: usize) -> (r: String)
    ensures
        r@ == decimal_string(findings as nat) + " scheduled jobs need review. Nothing was disabled - a cron line's meaning depends on context this tool cannot see."@,
{
    let parts = ["", " scheduled jobs need review. Nothing was disabled - a cron line's meaning depends on context this tool cannot see."];
    let r = format_counts(&parts, &[findings]);
    proof {
        reveal_strlit("");
        reveal_with_fuel(interleave, 2);
        assert(crate::text::views(parts@) =~= seq![parts[0]@, parts[1]@]);
        assert(Seq::<char>::empty() + r@ =~= r@);
    }
    r
}


/// What a clean run's finding records: where it looked.
pub fn searched_evidence() -> (r: String)
    ensures
        r@ == "searched "@ + join(views(CRON_LOCATIONS@), ", "@),
{
    let all = join_strs(&CRON_LOCATIONS, ", ");
    string_of(&concat_str(&chars_of("searched "), all.as_str()))
}

pub open spec fn sources(v: Seq<Finding>) -> Seq<Seq<char>> {
    v.map_values(|f: Finding| f.source@)
}

/// What the finding records when jobs need review: how many, and where.
pub fn review_evidence(findings: &Vec<Finding>) -> (r: String)
    ensures
        r@ == decimal_string(findings@.len()) + " jobs worth reviewing: "@ + join(
            sources(findings@),
            ", "@,
        ),
{
    let mut names: Vec<String> = Vec::new();
    let mut i: usize = 0;
    while i < findings.len()
        invariant
            i <= findings@.len(),
            strs(names@) == sources(findings@).take(i as int),
        decreases findings@.len() - i,
    {
        let ghost before = strs(names@);
        let name = findings[i].source.clone();
        names.push(name);
        proof {
            assert(strs(names@) =~= before.push(findings@[i as int].source@));
            assert(sources(findings@).take(i as int + 1) =~= sources(findings@).take(i as int).push(
                sources(findings@)[i as int],
            ));
        }
        i = i + 1;
    }
    proof {
        assert(sources(findings@).take(findings@.len() as int) =~= sources(findings@));
    }
    let mut v = decimal_of(findings.len() as u64);
    v = concat_str(&v, " jobs worth reviewing: ");
    v = concat_str(&v, join_strings(&names, ", ").as_str());
    string_of(&v)
}

} // verus!
