//! The command line: which flags exist, which of them take a value, and the
//! first argument that is none of them. A typo of a known flag has to be
//! reported, not read as "no task named", which would run every task.
use vstd::prelude::*;
use crate::platform::{linux_task, linux_tasks, TaskSpec, TASK_CONCURRENT};
use crate::text::{chars_of, concat_str, eq_chars, split, split_of, string_of, strs, views};

verus! {

/// Every flag that is not a task, as `--help` lists it: the long form (a
/// value-taking one spelled with its value), the short form or empty, and
/// what it does.
pub const GLOBAL_LONG: [&'static str; 10] = [
    "--help",
    "--tui",
    "--version",
    "--readme <path>",
    "--auto-readme",
    "--parse-readme",
    "--directives",
    "--dry-run",
    "--all",
    "--log <path>",
];

pub const GLOBAL_SHORT: [&'static str; 10] = ["-h", "-i", "-V", "-r", "-R", "", "", "-d", "", ""];

pub const GLOBAL_HELP: [&'static str; 10] = [
    "Show this help and exit",
    "Open the interactive menu",
    "Print the version and build date, then exit",
    "Read the competition README at <path>",
    "Find the README automatically",
    "Show what the parser extracted, then exit (read-only)",
    "Show what this round does differently, then exit (read-only)",
    "Report what would change without changing it",
    "Run every task (the default when no task is named)",
    "Write the run log to <path>",
];

/// The flags that take the next argument as their value.
pub const VALUE_FLAGS: [&'static str; 3] = ["--readme", "-r", "--log"];

/// The global flags as `(long, short, description)`.
pub fn global_flags() -> (r: Vec<(&'static str, &'static str, &'static str)>)
    ensures
        r@.len() == 10,
        forall|i: int|
            0 <= i < 10 ==> (#[trigger] r@[i]) == (GLOBAL_LONG@[i], GLOBAL_SHORT@[i], GLOBAL_HELP@[i]),
{
    let mut out: Vec<(&'static str, &'static str, &'static str)> = Vec::new();
    let mut i: usize = 0;
    while i < 10
        invariant
            i <= 10,
            out@.len() == i,
            forall|k: int|
                0 <= k < i ==> (#[trigger] out@[k]) == (
                    GLOBAL_LONG@[k],
                    GLOBAL_SHORT@[k],
                    GLOBAL_HELP@[k],
                ),
        decreases 10 - i,
    {
        out.push((GLOBAL_LONG[i], GLOBAL_SHORT[i], GLOBAL_HELP[i]));
        i = i + 1;
    }
    out
}

/// Does the argument name a flag this tool accepts: a global flag (its long
/// form without the value), a global short flag, a task's flag or short
/// flag, or `-?` or `/?`, which are help too?
pub open spec fn is_known(arg: Seq<char>) -> bool {
    (exists|i: int| 0 <= i < 10 && #[trigger] split(GLOBAL_LONG@[i]@, ' ')[0] == arg) || (exists|i: int|
        0 <= i < 10 && GLOBAL_SHORT@[i]@.len() > 0 && #[trigger] GLOBAL_SHORT@[i]@ == arg) || (exists|k: int|
        0 <= k < 15 && (#[trigger] linux_task(k).flag@ == arg || (linux_task(k).short@.len() > 0
            && linux_task(k).short@ == arg))) || arg == "-?"@ || arg == "/?"@
}

/// The first unknown argument from position `i` on; `skip` when the previous
/// argument was a flag that takes a value.
pub open spec fn first_unknown_from(args: Seq<Seq<char>>, i: int, skip: bool) -> Option<Seq<char>>
    decreases args.len() - i,
{
    if i >= args.len() || i < 0 {
        None
    } else if skip {
        first_unknown_from(args, i + 1, false)
    } else if views(VALUE_FLAGS@).contains(args[i]) {
        first_unknown_from(args, i + 1, true)
    } else if !is_known(args[i]) {
        Some(args[i])
    } else {
        first_unknown_from(args, i + 1, false)
    }
}

fn is_known_exec(arg: &Vec<char>, tasks: &Vec<TaskSpec>) -> (b: bool)
    requires
        tasks@.len() == 15,
        forall|i: int| 0 <= i < 15 ==> #[trigger] tasks@[i] == linux_task(i),
    ensures
        b == is_known(arg@),
{
    let mut i: usize = 0;
    while i < 10
        invariant
            i <= 10,
            forall|k: int| 0 <= k < i ==> #[trigger] split(GLOBAL_LONG@[k]@, ' ')[0] != arg@,
            forall|k: int|
                0 <= k < i ==> !(GLOBAL_SHORT@[k]@.len() > 0 && #[trigger] GLOBAL_SHORT@[k]@ == arg@),
        decreases 10 - i,
    {
        let pieces = split_of(&chars_of(GLOBAL_LONG[i]), ' ');
        proof {
            assert(crate::text::seqs(pieces@).len() > 0);
        }
        if eq_chars(&pieces[0], arg) {
            assert(split(GLOBAL_LONG@[i as int]@, ' ')[0] == arg@);
            return true;
        }
        proof {
            assert(pieces@[0]@ == split(GLOBAL_LONG@[i as int]@, ' ')[0]);
        }
        let s = chars_of(GLOBAL_SHORT[i]);
        proof {
            assert(s@ == GLOBAL_SHORT@[i as int]@);
        }
        if s.len() > 0 && eq_chars(&s, arg) {
            assert(GLOBAL_SHORT@[i as int]@ == arg@);
            return true;
        }
        i = i + 1;
    }
    let mut k: usize = 0;
    while k < 15
        invariant
            k <= 15,
            tasks@.len() == 15,
            forall|j: int| 0 <= j < 15 ==> #[trigger] tasks@[j] == linux_task(j),
            forall|j: int|
                0 <= j < k ==> !(#[trigger] linux_task(j).flag@ == arg@ || (linux_task(j).short@.len()
                    > 0 && linux_task(j).short@ == arg@)),
        decreases 15 - k,
    {
        let t = &tasks[k];
        proof {
            assert(tasks@[k as int] == linux_task(k as int));
        }
        let s = chars_of(t.short);
        if eq_chars(&chars_of(t.flag), arg) || (s.len() > 0 && eq_chars(&s, arg)) {
            assert(tasks@[k as int] == linux_task(k as int));
            return true;
        }
        proof {
            assert(!(linux_task(k as int).flag@ == arg@ || (linux_task(k as int).short@.len() > 0
                && linux_task(k as int).short@ == arg@)));
        }
        k = k + 1;
    }
    eq_chars(arg, &chars_of("-?")) || eq_chars(arg, &chars_of("/?"))
}

fn is_value_flag(arg: &Vec<char>) -> (b: bool)
    ensures
        b == views(VALUE_FLAGS@).contains(arg@),
{
    let mut i: usize = 0;
    while i < 3
        invariant
            i <= 3,
            forall|k: int| 0 <= k < i ==> views(VALUE_FLAGS@)[k] != arg@,
        decreases 3 - i,
    {
        if eq_chars(&chars_of(VALUE_FLAGS[i]), arg) {
            assert(views(VALUE_FLAGS@)[i as int] == arg@);
            return true;
        }
        i = i + 1;
    }
    false
}

/// The first argument that is not a flag this tool accepts, if any. The
/// value after `--readme`, `-r` or `--log` is a value, not a flag.
pub fn first_unknown_argument(args: &[String]) -> (r: Option<String>)
    ensures
        match r {
            Some(a) => first_unknown_from(strs(args@), 0, false) == Some(a@),
            None => first_unknown_from(strs(args@), 0, false) is None,
        },
{
    let tasks = linux_tasks();
    let ghost all = strs(args@);
    let n = args.len();
    let mut skip = false;
    let mut i: usize = 0;
    while i < n
        invariant
            i <= n == args@.len(),
            all == strs(args@),
            tasks@.len() == 15,
            forall|j: int| 0 <= j < 15 ==> #[trigger] tasks@[j] == linux_task(j),
            first_unknown_from(all, 0, false) == first_unknown_from(all, i as int, skip),
        decreases n - i,
    {
        let a = chars_of(args[i].as_str());
        proof {
            assert(a@ == all[i as int]);
        }
        if skip {
            skip = false;
        } else if is_value_flag(&a) {
            skip = true;
        } else if !is_known_exec(&a, &tasks) {
            return Some(string_of(&a));
        }
        i = i + 1;
    }
    None
}

/// The value after the first of the flags that has one after it.
pub open spec fn extract_from(args: Seq<Seq<char>>, flags: Seq<Seq<char>>, i: int) -> Option<
    Seq<char>,
>
    decreases args.len() - i,
{
    if i >= args.len() || i < 0 {
        None
    } else if flags.contains(args[i]) && i + 1 < args.len() {
        Some(args[i + 1])
    } else {
        extract_from(args, flags, i + 1)
    }
}

fn contains_str(flags: &[&str], x: &Vec<char>) -> (b: bool)
    ensures
        b == views(flags@).contains(x@),
{
    let n = flags.len();
    let mut i: usize = 0;
    while i < n
        invariant
            i <= n == flags@.len(),
            forall|k: int| 0 <= k < i ==> views(flags@)[k] != x@,
        decreases n - i,
    {
        if eq_chars(&chars_of(flags[i]), x) {
            assert(views(flags@)[i as int] == x@);
            return true;
        }
        i = i + 1;
    }
    false
}

/// The value that follows one of the given flags.
pub fn extract_argument(args: &[String], flags: &[&str]) -> (r: Option<String>)
    ensures
        match r {
            Some(v) => extract_from(strs(args@), views(flags@), 0) == Some(v@),
            None => extract_from(strs(args@), views(flags@), 0) is None,
        },
{
    let ghost all = strs(args@);
    let n = args.len();
    let mut i: usize = 0;
    while i < n
        invariant
            i <= n == args@.len(),
            all == strs(args@),
            extract_from(all, views(flags@), 0) == extract_from(all, views(flags@), i as int),
        decreases n - i,
    {
        let a = chars_of(args[i].as_str());
        if contains_str(flags, &a) && i + 1 < n {
            let v = chars_of(args[i + 1].as_str());
            return Some(string_of(&v));
        }
        i = i + 1;
    }
    None
}

/// Is any of the flags among the arguments?
pub fn has_flag(args: &[String], flags: &[&str]) -> (b: bool)
    ensures
        b == exists|i: int| 0 <= i < args@.len() && views(flags@).contains(#[trigger] strs(args@)[i]),
{
    let n = args.len();
    let mut i: usize = 0;
    while i < n
        invariant
            i <= n == args@.len(),
            forall|k: int| 0 <= k < i ==> !views(flags@).contains(#[trigger] strs(args@)[k]),
        decreases n - i,
    {
        if contains_str(flags, &chars_of(args[i].as_str())) {
            assert(views(flags@).contains(strs(args@)[i as int]));
            return true;
        }
        i = i + 1;
    }
    false
}

/// How a flag is written in the help listing: `-p, --password-policy`, or
/// the long form alone when there is no short one.
pub open spec fn spelling_spec(long: Seq<char>, short: Seq<char>) -> Seq<char> {
    if short.len() == 0 {
        "    "@ + long
    } else {
        "    "@ + short + ", "@ + long
    }
}

pub fn spelling(long: &str, short: &str) -> (r: String)
    ensures
        r@ == spelling_spec(long@, short@),
{
    let s = chars_of(short);
    if s.len() == 0 {
        string_of(&concat_str(&chars_of("    "), long))
    } else {
        let mut v = concat_str(&chars_of("    "), short);
        v = concat_str(&v, ", ");
        v = concat_str(&v, long);
        string_of(&v)
    }
}

// ---------------------------------------------------------------------------
// What a command line asks for
// ---------------------------------------------------------------------------

pub const HELP_FLAGS: [&'static str; 4] = ["--help", "-h", "-?", "/?"];
pub const MENU_FLAGS: [&'static str; 2] = ["--tui", "-i"];
pub const VERSION_FLAGS: [&'static str; 2] = ["--version", "-V"];
pub const README_FLAGS: [&'static str; 2] = ["--readme", "-r"];
pub const AUTO_README_FLAGS: [&'static str; 2] = ["--auto-readme", "-R"];
pub const DRY_RUN_FLAGS: [&'static str; 2] = ["--dry-run", "-d"];
pub const PARSE_FLAGS: [&'static str; 1] = ["--parse-readme"];
pub const DIRECTIVES_FLAGS: [&'static str; 1] = ["--directives"];
pub const ALL_FLAGS: [&'static str; 1] = ["--all"];
pub const LOG_FLAGS: [&'static str; 1] = ["--log"];

/// Is one of `flags` among the arguments?
pub open spec fn given(args: Seq<String>, flags: Seq<&str>) -> bool {
    exists|i: int| 0 <= i < args.len() && views(flags).contains(#[trigger] strs(args)[i])
}

/// What happens before anything else.
#[derive(Debug, Clone, Copy, PartialEq, Eq, Structural)]
pub enum Start {
    /// Print the help and stop.
    Help,
    /// Open the interactive menu; what it returns is the command line.
    Menu,
    /// Go on with the command line as it is.
    Continue,
}

/// Help comes first. A bare launch with a person at a terminal, or `--tui`,
/// opens the menu: a bare launch has nothing to act on, and a prompt with no
/// person to answer it would wait forever.
pub open spec fn start_spec(args: Seq<String>, interactive: bool) -> Start {
    if given(args, HELP_FLAGS@) {
        Start::Help
    } else if given(args, MENU_FLAGS@) || (args.len() == 0 && interactive) {
        Start::Menu
    } else {
        Start::Continue
    }
}

pub fn start(args: &[String], interactive: bool) -> (s: Start)
    ensures
        s == start_spec(args@, interactive),
{
    if has_flag(args, &HELP_FLAGS) {
        Start::Help
    } else if has_flag(args, &MENU_FLAGS) || (args.len() == 0 && interactive) {
        Start::Menu
    } else {
        Start::Continue
    }
}

/// What a run does once the command line is settled.
#[derive(Debug, Clone, Copy, PartialEq, Eq, Structural)]
pub enum Mode {
    /// An argument this tool does not accept: say which, and stop.
    Unknown,
    /// Print the version and stop.
    Version,
    /// Nothing was asked for: print the help and a hint, and stop.
    NothingSelected,
    /// Report what the round does differently, and stop.
    DirectivesOnly,
    /// Report what the parser extracted, and stop.
    ParseOnly,
    /// Run the selected tasks.
    Run,
}

/// Does the argument name task `k`, by its flag or its short flag?
pub open spec fn names_task(arg: Seq<char>, k: int) -> bool {
    arg == linux_task(k).flag@ || (linux_task(k).short@.len() > 0 && arg == linux_task(k).short@)
}

pub open spec fn named(args: Seq<String>, k: int) -> bool {
    exists|i: int| 0 <= i < args.len() && names_task(#[trigger] strs(args)[i], k)
}

pub open spec fn any_named(args: Seq<String>) -> bool {
    exists|k: int| 0 <= k < 15 && #[trigger] named(args, k)
}

/// Is task `k` to run: everything was asked for, or it was named?
pub open spec fn selected(args: Seq<String>, k: int) -> bool {
    given(args, ALL_FLAGS@) || named(args, k)
}

/// Reject anything unrecognised; then the version; then, with neither
/// `--all` nor a task nor a report asked for, nothing (running everything has
/// to be asked for); then the two reports; else the run.
pub open spec fn mode_spec(args: Seq<String>) -> Mode {
    if first_unknown_from(strs(args), 0, false) is Some {
        Mode::Unknown
    } else if given(args, VERSION_FLAGS@) {
        Mode::Version
    } else if !given(args, ALL_FLAGS@) && !any_named(args) && !given(args, PARSE_FLAGS@)
        && !given(args, DIRECTIVES_FLAGS@) {
        Mode::NothingSelected
    } else if given(args, DIRECTIVES_FLAGS@) {
        Mode::DirectivesOnly
    } else if given(args, PARSE_FLAGS@) {
        Mode::ParseOnly
    } else {
        Mode::Run
    }
}

/// Does task `k` run, and with the given concurrency?
pub open spec fn runs_in(args: Seq<String>, k: int, concurrent: bool) -> bool {
    selected(args, k) && TASK_CONCURRENT@[k] == concurrent
}

/// `rows` lists, in table order, exactly the rows of the tasks that run with
/// the given concurrency.
pub open spec fn rows_of(rows: Seq<usize>, args: Seq<String>, concurrent: bool) -> bool {
    &&& forall|j: int| 0 <= j < rows.len() ==> #[trigger] rows[j] < 15
    &&& forall|j: int, l: int| 0 <= j < l < rows.len() ==> rows[j] < rows[l]
    &&& forall|k: int|
        0 <= k < 15 ==> (#[trigger] rows.contains(k as usize) <==> runs_in(args, k, concurrent))
}

/// Everything a command line decides.
pub struct RunPlan {
    pub mode: Mode,
    /// The argument that is not accepted, for [`Mode::Unknown`].
    pub unknown: Option<String>,
    /// Whether `--all` or any task was named (which a report-only run does
    /// not run, and says so).
    pub tasks_named: bool,
    /// The README given with `--readme` or `-r`.
    pub readme: Option<String>,
    pub auto_readme: bool,
    pub dry_run: bool,
    /// Where `--log` sends the run log.
    pub log: Option<String>,
    /// Rows of the task table to run one after another, in table order. The
    /// order the run depends on (the README before user management, services
    /// protected before any is disabled) is the table's, not the command
    /// line's.
    pub sequential: Vec<usize>,
    /// Rows of the audits that may run alongside them, in table order.
    pub concurrent: Vec<usize>,
}

pub open spec fn opt_str(o: Option<String>) -> Option<Seq<char>> {
    match o {
        Some(s) => Some(s@),
        None => None,
    }
}

fn named_exec(args: &[String], tasks: &Vec<TaskSpec>, k: usize) -> (b: bool)
    requires
        k < 15,
        tasks@.len() == 15,
        forall|j: int| 0 <= j < 15 ==> #[trigger] tasks@[j] == linux_task(j),
    ensures
        b == named(args@, k as int),
{
    let n = args.len();
    let mut i: usize = 0;
    while i < n
        invariant
            i <= n == args@.len(),
            k < 15,
            tasks@.len() == 15,
            forall|j: int| 0 <= j < 15 ==> #[trigger] tasks@[j] == linux_task(j),
            forall|j: int| 0 <= j < i ==> !names_task(#[trigger] strs(args@)[j], k as int),
        decreases n - i,
    {
        assert(tasks@[k as int] == linux_task(k as int));
        if tasks[k].matches(args[i].as_str()) {
            assert(names_task(strs(args@)[i as int], k as int));
            return true;
        }
        i = i + 1;
    }
    false
}

/// Appending row `k` (or not) to rows all below `k`.
proof fn lemma_rows_grow(before: Seq<usize>, after: Seq<usize>, k: usize, pushed: bool)
    requires
        forall|j: int| 0 <= j < before.len() ==> #[trigger] before[j] < k,
        after == if pushed { before.push(k) } else { before },
    ensures
        forall|j: int|
            0 <= j <= k ==> (#[trigger] after.contains(j as usize) <==> (j < k && before.contains(
                j as usize,
            )) || (j == k && pushed)),
{
    assert forall|j: int|
        0 <= j <= k implies (#[trigger] after.contains(j as usize) <==> (j < k && before.contains(
        j as usize,
    )) || (j == k && pushed)) by {
        if after.contains(j as usize) {
            let x = choose|x: int| 0 <= x < after.len() && after[x] == j as usize;
            if pushed && x == before.len() {
                assert(after[x] == k);
            } else {
                assert(before[x] == after[x]);
            }
        }
        if j < k && before.contains(j as usize) {
            let x = choose|x: int| 0 <= x < before.len() && before[x] == j as usize;
            assert(after[x] == before[x]);
        }
        if j == k && pushed {
            assert(after[before.len() as int] == k);
        }
    }
}

fn any_named_exec(args: &[String], tasks: &Vec<TaskSpec>) -> (b: bool)
    requires
        tasks@.len() == 15,
        forall|j: int| 0 <= j < 15 ==> #[trigger] tasks@[j] == linux_task(j),
    ensures
        b == any_named(args@),
{
    let mut k: usize = 0;
    while k < 15
        invariant
            k <= 15,
            tasks@.len() == 15,
            forall|j: int| 0 <= j < 15 ==> #[trigger] tasks@[j] == linux_task(j),
            forall|j: int| 0 <= j < k ==> !#[trigger] named(args@, j),
        decreases 15 - k,
    {
        if named_exec(args, tasks, k) {
            return true;
        }
        k = k + 1;
    }
    false
}

/// The selected rows whose concurrency is `concurrent`, in table order.
fn rows_where(args: &[String], tasks: &Vec<TaskSpec>, all: bool, concurrent: bool) -> (r: Vec<usize>)
    requires
        tasks@.len() == 15,
        forall|j: int| 0 <= j < 15 ==> #[trigger] tasks@[j] == linux_task(j),
        all == given(args@, ALL_FLAGS@),
    ensures
        rows_of(r@, args@, concurrent),
{
    let mut rows: Vec<usize> = Vec::new();
    let mut k: usize = 0;
    while k < 15
        invariant
            k <= 15,
            tasks@.len() == 15,
            forall|j: int| 0 <= j < 15 ==> #[trigger] tasks@[j] == linux_task(j),
            all == given(args@, ALL_FLAGS@),
            forall|j: int| 0 <= j < rows@.len() ==> #[trigger] rows@[j] < k,
            forall|j: int, l: int| 0 <= j < l < rows@.len() ==> rows@[j] < rows@[l],
            forall|j: int|
                0 <= j < k ==> (#[trigger] rows@.contains(j as usize) <==> selected(args@, j)
                    && TASK_CONCURRENT@[j] == concurrent),
        decreases 15 - k,
    {
        let ghost before = rows@;
        let pick = (all || named_exec(args, tasks, k)) && TASK_CONCURRENT[k] == concurrent;
        if pick {
            rows.push(k);
        }
        proof {
            lemma_rows_grow(before, rows@, k, pick);
            assert forall|j: int|
                0 <= j < k + 1 implies (#[trigger] rows@.contains(j as usize) <==> selected(
                args@,
                j,
            ) && TASK_CONCURRENT@[j] == concurrent) by {
                assert(rows@.contains(j as usize) <==> (j < k && before.contains(j as usize)) || (
                j == k && pick));
                if j < k {
                    assert(before.contains(j as usize) <==> selected(args@, j)
                        && TASK_CONCURRENT@[j] == concurrent);
                }
            }
        }
        k = k + 1;
    }
    rows
}

/// Read a settled command line: what to do, with which README, and which
/// tasks in which order.
pub fn plan_run(args: &[String]) -> (p: RunPlan)
    ensures
        p.mode == mode_spec(args@),
        opt_str(p.unknown) == first_unknown_from(strs(args@), 0, false),
        p.tasks_named == (given(args@, ALL_FLAGS@) || any_named(args@)),
        opt_str(p.readme) == extract_from(strs(args@), views(README_FLAGS@), 0),
        p.auto_readme == given(args@, AUTO_README_FLAGS@),
        p.dry_run == given(args@, DRY_RUN_FLAGS@),
        opt_str(p.log) == extract_from(strs(args@), views(LOG_FLAGS@), 0),
        rows_of(p.sequential@, args@, false),
        rows_of(p.concurrent@, args@, true),
{
    let tasks = linux_tasks();
    let unknown = first_unknown_argument(args);
    let all = has_flag(args, &ALL_FLAGS);
    let any = any_named_exec(args, &tasks);
    let sequential = rows_where(args, &tasks, all, false);
    let concurrent = rows_where(args, &tasks, all, true);
    let version = has_flag(args, &VERSION_FLAGS);
    let parse = has_flag(args, &PARSE_FLAGS);
    let directives = has_flag(args, &DIRECTIVES_FLAGS);
    let mode = if unknown.is_some() {
        Mode::Unknown
    } else if version {
        Mode::Version
    } else if !all && !any && !parse && !directives {
        Mode::NothingSelected
    } else if directives {
        Mode::DirectivesOnly
    } else if parse {
        Mode::ParseOnly
    } else {
        Mode::Run
    };
    RunPlan {
        mode,
        unknown,
        tasks_named: all || any,
        readme: extract_argument(args, &README_FLAGS),
        auto_readme: has_flag(args, &AUTO_README_FLAGS),
        dry_run: has_flag(args, &DRY_RUN_FLAGS),
        log: extract_argument(args, &LOG_FLAGS),
        sequential,
        concurrent,
    }
}

/// Running tasks has to be asked for: a run happens only with `--all` or a
/// task named, and never alongside an argument this tool does not accept (a
/// mistyped `--dry-run` must not start a real run).
pub proof fn law_nothing_runs_unasked(args: Seq<String>)
    ensures
        mode_spec(args) == Mode::Run ==> (given(args, ALL_FLAGS@) || any_named(args))
            && first_unknown_from(strs(args), 0, false) is None,
{
}

/// A task that was neither named nor covered by `--all` is never scheduled.
pub proof fn law_only_selected_tasks_are_scheduled(rows: Seq<usize>, args: Seq<String>, concurrent: bool, k: int)
    requires
        rows_of(rows, args, concurrent),
        0 <= k < 15,
        rows.contains(k as usize),
    ensures
        given(args, ALL_FLAGS@) || named(args, k),
{
}


// ---------------------------------------------------------------------------
// The help listing
// ---------------------------------------------------------------------------

/// `s` padded with spaces to `width` characters, as `{:<width}` writes it.
pub open spec fn padded(s: Seq<char>, width: nat) -> Seq<char> {
    if s.len() >= width {
        s
    } else {
        s + Seq::new((width - s.len()) as nat, |i: int| ' ')
    }
}

/// The column the descriptions in the help listing start at.
pub const HELP_COLUMN: usize = 34;

/// The help line of the `i`th global flag.
pub open spec fn option_line(i: int) -> Seq<char> {
    padded(spelling_spec(GLOBAL_LONG@[i]@, GLOBAL_SHORT@[i]@), HELP_COLUMN as nat) + GLOBAL_HELP@[i]@
}

/// The help line of the `i`th task.
pub open spec fn task_line(i: int) -> Seq<char> {
    padded(spelling_spec(linux_task(i).flag@, linux_task(i).short@), HELP_COLUMN as nat) + linux_task(
        i,
    ).help@
}

pub open spec fn help_head(version: Seq<char>) -> Seq<Seq<char>> {
    seq![
        "PinnacleCyPat "@ + version,
        Seq::empty(),
        "USAGE:"@,
        "    pinnacle-cypat [OPTIONS]"@,
        Seq::empty(),
        "Run as root. Name a task, or pass --all to run every task."@,
        "Pass --dry-run first to see what would change."@,
        "Not sure? Run --tui for a guided menu."@,
        Seq::empty(),
        "OPTIONS:"@,
    ]
}

pub open spec fn help_middle() -> Seq<Seq<char>> {
    seq![Seq::empty(), "LINUX TASKS:"@]
}

pub open spec fn help_tail() -> Seq<Seq<char>> {
    seq![
        Seq::empty(),
        "EXAMPLES:"@,
        "    pinnacle-cypat --tui                          # guided menu"@,
        "    pinnacle-cypat --auto-readme --parse-readme   # read-only"@,
        "    pinnacle-cypat --auto-readme --all --dry-run  # preview"@,
        "    pinnacle-cypat --auto-readme --all            # apply"@,
    ]
}

/// The help listing, line by line: usage, the global flags, the tasks each
/// with its flags and what it does, and examples.
pub open spec fn help_spec(version: Seq<char>) -> Seq<Seq<char>> {
    help_head(version) + Seq::new(10, |i: int| option_line(i)) + help_middle() + Seq::new(
        15,
        |i: int| task_line(i),
    ) + help_tail()
}

fn pad(v: Vec<char>, width: usize) -> (r: Vec<char>)
    ensures
        r@ == padded(v@, width as nat),
{
    let mut r = v;
    let ghost start = r@;
    while r.len() < width
        invariant
            start.len() <= r@.len() || start.len() >= width,
            r@.len() <= width || r@ == start,
            r@.len() >= start.len(),
            r@.subrange(0, start.len() as int) == start,
            forall|k: int| start.len() <= k < r@.len() ==> r@[k] == ' ',
        decreases width - r@.len(),
    {
        r.push(' ');
    }
    proof {
        if start.len() < width {
            assert(r@ =~= start + Seq::new((width - start.len()) as nat, |i: int| ' '));
        } else {
            assert(r@ =~= start);
        }
    }
    r
}

fn line_of(label: String, text: &str) -> (r: String)
    ensures
        r@ == padded(label@, HELP_COLUMN as nat) + text@,
{
    string_of(&concat_str(&pad(chars_of(label.as_str()), HELP_COLUMN), text))
}

/// The help listing for this build, `version` being what `--version` says.
pub fn help_lines(version: &str) -> (r: Vec<String>)
    ensures
        strs(r@) == help_spec(version@),
{
    let mut out: Vec<String> = Vec::new();
    out.push(string_of(&concat_str(&chars_of("PinnacleCyPat "), version)));
    out.push(String::new());
    out.push(String::from_str("USAGE:"));
    out.push(String::from_str("    pinnacle-cypat [OPTIONS]"));
    out.push(String::new());
    out.push(String::from_str("Run as root. Name a task, or pass --all to run every task."));
    out.push(String::from_str("Pass --dry-run first to see what would change."));
    out.push(String::from_str("Not sure? Run --tui for a guided menu."));
    out.push(String::new());
    out.push(String::from_str("OPTIONS:"));
    proof {
        reveal_strlit("PinnacleCyPat ");
        assert(strs(out@) =~= help_head(version@));
    }
    let ghost head = help_head(version@);
    let flags = global_flags();
    let mut i: usize = 0;
    while i < 10
        invariant
            i <= 10,
            flags@.len() == 10,
            forall|k: int|
                0 <= k < 10 ==> (#[trigger] flags@[k]) == (GLOBAL_LONG@[k], GLOBAL_SHORT@[k], GLOBAL_HELP@[k]),
            head == help_head(version@),
            strs(out@) == head + Seq::new(i as nat, |k: int| option_line(k)),
        decreases 10 - i,
    {
        let (long, short, text) = flags[i];
        let line = line_of(spelling(long, short), text);
        let ghost before = strs(out@);
        out.push(line);
        proof {
            assert(strs(out@) =~= before.push(line@));
            assert(head + Seq::new((i + 1) as nat, |k: int| option_line(k)) =~= head + Seq::new(
                i as nat,
                |k: int| option_line(k),
            ).push(option_line(i as int)));
        }
        i = i + 1;
    }
    let ghost with_options = strs(out@);
    out.push(String::new());
    out.push(String::from_str("LINUX TASKS:"));
    proof {
        assert(strs(out@) =~= with_options + help_middle());
    }
    let ghost upper = strs(out@);
    let tasks = linux_tasks();
    let mut j: usize = 0;
    while j < 15
        invariant
            j <= 15,
            tasks@.len() == 15,
            forall|k: int| 0 <= k < 15 ==> #[trigger] tasks@[k] == linux_task(k),
            strs(out@) == upper + Seq::new(j as nat, |k: int| task_line(k)),
        decreases 15 - j,
    {
        let spec = &tasks[j];
        let line = line_of(spelling(spec.flag, spec.short), spec.help);
        let ghost before = strs(out@);
        out.push(line);
        proof {
            assert(strs(out@) =~= before.push(line@));
            assert(upper + Seq::new((j + 1) as nat, |k: int| task_line(k)) =~= upper + Seq::new(
                j as nat,
                |k: int| task_line(k),
            ).push(task_line(j as int)));
        }
        j = j + 1;
    }
    let ghost with_tasks = strs(out@);
    out.push(String::new());
    out.push(String::from_str("EXAMPLES:"));
    out.push(String::from_str("    pinnacle-cypat --tui                          # guided menu"));
    out.push(String::from_str("    pinnacle-cypat --auto-readme --parse-readme   # read-only"));
    out.push(String::from_str("    pinnacle-cypat --auto-readme --all --dry-run  # preview"));
    out.push(String::from_str("    pinnacle-cypat --auto-readme --all            # apply"));
    proof {
        assert(strs(out@) =~= with_tasks + help_tail());
        assert(help_spec(version@) =~= head + Seq::new(10, |k: int| option_line(k)) + help_middle()
            + Seq::new(15, |k: int| task_line(k)) + help_tail());
    }
    out
}

} // verus!
