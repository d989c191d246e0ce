//! The host firewall: which ports to open before `ufw` is told to deny
//! inbound traffic, and whether `ufw status` says it is on. SSH is always
//! opened, so the run cannot lock out a remotely administered image.
use vstd::prelude::*;
use crate::task::Task;
use crate::text::{decimal_string, format_counts, interleave};
use crate::file_ops::line_is_active;
use crate::models::{details_of, opt_view, ReadmeData, TaskResult};
use crate::readme_services::is_critical_spec;
use crate::services::{is_critical, unit_aliases};
use crate::text::{concat_chars, concat_str, string_of, strs};
use crate::text::{
    chars_of, eq_chars, lines, lines_of, seqs, slice, starts_with, starts_with_chars, trim,
    trim_chars,
};

verus! {

/// The port each service listens on, row by row with [`PORT_UNITS`].
pub const PORT_UNITS: [&'static str; 9] = [
    "ssh.service",
    "apache2.service",
    "nginx.service",
    "vsftpd.service",
    "smbd.service",
    "postgresql.service",
    "mysql.service",
    "mariadb.service",
    "xrdp.service",
];

pub const PORTS: [&'static str; 9] = [
    "22/tcp",
    "80/tcp",
    "80/tcp",
    "21/tcp",
    "445/tcp",
    "5432/tcp",
    "3306/tcp",
    "3306/tcp",
    "3389/tcp",
];

/// The port that is always opened.
pub const SSH_PORT: &'static str = "22/tcp";

pub struct FirewallTask {
    pub name: String,
    pub description: String,
    pub dry_run: bool,
    pub readme_data: Option<ReadmeData>,
}

impl FirewallTask {
    pub fn new() -> (t: Self)
        ensures
            t.name@ == "Firewall"@,
            t.description@ == "Enable ufw, deny inbound, open what the README needs"@,
            !t.dry_run,
            t.readme_data is None,
    {
        FirewallTask {
            name: String::from_str("Firewall"),
            description: String::from_str("Enable ufw, deny inbound, open what the README needs"),
            dry_run: false,
            readme_data: None,
        }
    }

    pub fn set_readme_data(&mut self, data: ReadmeData)
        ensures
            final(self).readme_data == Some(data),
            final(self).name == old(self).name,
            final(self).description == old(self).description,
            final(self).dry_run == old(self).dry_run,
    {
        self.readme_data = Some(data);
    }

    /// The ports to allow: SSH first, then the port of each service the
    /// README calls critical, each port once.
    pub fn ports_to_open(&self) -> (r: Vec<&'static str>)
        ensures
            port_views(r@) == ports_spec(self.readme_data, 9),
            r@.len() > 0,
            r@[0]@ == SSH_PORT@,
            forall|i: int, j: int|
                0 <= i < j < r@.len() ==> (#[trigger] r@[i])@ != (#[trigger] r@[j])@,
            forall|k: int|
                0 <= k < 9 && critical_for(self.readme_data, #[trigger] PORT_UNITS@[k]@)
                    ==> port_views(r@).contains(PORTS@[k]@),
    {
        let r = ports_for(self.readme_data.as_ref());
        proof {
            assert forall|k: int|
                0 <= k < 9 && critical_for(self.readme_data, #[trigger] PORT_UNITS@[k]@)
                    implies port_views(r@).contains(PORTS@[k]@) by {
                law_every_critical_port_is_opened(self.readme_data, k);
            }
        }
        r
    }
}

impl Default for FirewallTask {
    fn default() -> (t: Self)
        ensures
            t.name@ == "Firewall"@,
            t.description@ == "Enable ufw, deny inbound, open what the README needs"@,
            !t.dry_run,
            t.readme_data is None,
    {
        Self::new()
    }
}

pub open spec fn port_views(v: Seq<&'static str>) -> Seq<Seq<char>> {
    v.map_values(|p: &'static str| p@)
}

/// The ports wanted after the first `k` rows of the table.
pub open spec fn ports_spec(readme: Option<ReadmeData>, k: nat) -> Seq<Seq<char>>
    decreases k,
{
    if k == 0 {
        seq![SSH_PORT@]
    } else {
        let acc = ports_spec(readme, (k - 1) as nat);
        let unit = PORT_UNITS@[k - 1]@;
        let port = PORTS@[k - 1]@;
        let wanted = match readme {
            Some(r) => is_critical_spec(unit_aliases(), Some(&r), unit),
            None => false,
        };
        if wanted && !acc.contains(port) {
            acc.push(port)
        } else {
            acc
        }
    }
}

/// Does the README call this unit critical (no README calls nothing critical)?
pub open spec fn critical_for(readme: Option<ReadmeData>, unit: Seq<char>) -> bool {
    match readme {
        Some(r) => is_critical_spec(unit_aliases(), Some(&r), unit),
        None => false,
    }
}

proof fn lemma_ports_keep(readme: Option<ReadmeData>, m: nat, n: nat, x: Seq<char>)
    requires
        m <= n,
        ports_spec(readme, m).contains(x),
    ensures
        ports_spec(readme, n).contains(x),
    decreases n,
{
    if n > m {
        lemma_ports_keep(readme, m, (n - 1) as nat, x);
        let acc = ports_spec(readme, (n - 1) as nat);
        let i = choose|i: int| 0 <= i < acc.len() && acc[i] == x;
        assert(acc.push(PORTS@[n - 1]@)[i] == x);
    }
}

/// SSH is always opened, and so is the port of every service the README
/// calls critical: no row of the port table whose unit is critical is left
/// out of what is allowed before the firewall denies inbound traffic.
pub proof fn law_every_critical_port_is_opened(readme: Option<ReadmeData>, k: int)
    requires
        0 <= k < 9,
        critical_for(readme, PORT_UNITS@[k]@),
    ensures
        ports_spec(readme, 9).contains(PORTS@[k]@),
        ports_spec(readme, 9).contains(SSH_PORT@),
{
    assert(ports_spec(readme, 0)[0] == SSH_PORT@);
    lemma_ports_keep(readme, 0, 9, SSH_PORT@);
    let acc = ports_spec(readme, k as nat);
    let port = PORTS@[k]@;
    if !acc.contains(port) {
        assert(ports_spec(readme, (k + 1) as nat) == acc.push(port));
        assert(acc.push(port)[acc.len() as int] == port);
    } else {
        lemma_ports_keep(readme, k as nat, (k + 1) as nat, port);
    }
    lemma_ports_keep(readme, (k + 1) as nat, 9, port);
}

fn contains_port(v: &Vec<&'static str>, p: &'static str) -> (b: bool)
    ensures
        b == port_views(v@).contains(p@),
{
    let n = v.len();
    let pc = chars_of(p);
    let mut i: usize = 0;
    while i < n
        invariant
            i <= n == v.len(),
            pc@ == p@,
            forall|k: int| 0 <= k < i ==> port_views(v@)[k] != p@,
        decreases n - i,
    {
        if eq_chars(&chars_of(v[i]), &pc) {
            assert(port_views(v@)[i as int] == p@);
            return true;
        }
        i = i + 1;
    }
    false
}

fn ports_for(readme: Option<&ReadmeData>) -> (r: Vec<&'static str>)
    ensures
        port_views(r@) == ports_spec(
            match readme {
                Some(x) => Some(*x),
                None => None,
            },
            9,
        ),
        r@.len() > 0,
        r@[0]@ == SSH_PORT@,
        forall|i: int, j: int|
            0 <= i < j < r@.len() ==> (#[trigger] r@[i])@ != (#[trigger] r@[j])@,
{
    let ghost owned = match readme {
        Some(x) => Some(*x),
        None => None,
    };
    let mut ports: Vec<&'static str> = Vec::new();
    ports.push(SSH_PORT);
    proof {
        assert(port_views(ports@) =~= ports_spec(owned, 0));
    }
    let mut k: usize = 0;
    while k < 9
        invariant
            k <= 9,
            owned == match readme {
                Some(x) => Some(*x),
                None => None,
            },
            port_views(ports@) == ports_spec(owned, k as nat),
            ports@.len() > 0,
            ports@[0]@ == SSH_PORT@,
            forall|i: int, j: int|
                0 <= i < j < ports@.len() ==> (#[trigger] ports@[i])@ != (#[trigger] ports@[j])@,
        decreases 9 - k,
    {
        let unit = PORT_UNITS[k];
        let port = PORTS[k];
        let critical = match readme {
            Some(x) => is_critical(Some(x), unit),
            None => false,
        };
        if critical && !contains_port(&ports, port) {
            let ghost before = ports@;
            ports.push(port);
            proof {
                assert(port_views(ports@) =~= port_views(before).push(port@));
                assert forall|i: int, j: int|
                    0 <= i < j < ports@.len() implies (#[trigger] ports@[i])@ != (
                    #[trigger] ports@[j])@ by {
                    if j == ports@.len() - 1 {
                        assert(port_views(before)[i] == before[i]@);
                    }
                }
            }
        }
        k = k + 1;
    }
    ports
}

/// What follows `Status:` on the first line of `ufw status` that has it.
pub open spec fn status_from(ls: Seq<Seq<char>>, k: nat) -> Option<Seq<char>>
    decreases ls.len() - k,
{
    if k >= ls.len() {
        None
    } else if starts_with(trim(ls[k as int]), "Status:"@) {
        Some(trim(ls[k as int]).skip(7))
    } else {
        status_from(ls, k + 1)
    }
}

/// Is the firewall on: does the first `Status:` line say `active`? No ufw,
/// or an error message, is not.
pub open spec fn is_active_spec(status_output: Seq<char>) -> bool {
    match status_from(lines(status_output), 0) {
        Some(s) => trim(s) == "active"@,
        None => false,
    }
}

pub fn is_active(status_output: &str) -> (b: bool)
    ensures
        b == is_active_spec(status_output@),
{
    let tv = chars_of(status_output);
    let ls = lines_of(&tv);
    let ghost all = seqs(ls@);
    let prefix = chars_of("Status:");
    proof {
        reveal_strlit("Status:");
    }
    let n = ls.len();
    let mut k: usize = 0;
    while k < n
        invariant
            k <= n == ls.len(),
            all == seqs(ls@),
            all == lines(status_output@),
            prefix@ == "Status:"@,
            prefix@.len() == 7,
            status_from(all, 0) == status_from(all, k as nat),
        decreases n - k,
    {
        let t = trim_chars(&ls[k]);
        if starts_with_chars(&t, &prefix) {
            let rest = slice(&t, 7, t.len());
            proof {
                assert(rest@ =~= t@.skip(7));
            }
            return eq_chars(&trim_chars(&rest), &chars_of("active"));
        }
        k = k + 1;
    }
    false
}

} // verus!

verus! {

impl Task for FirewallTask {
    fn name(&self) -> (r: &str)
        ensures
            r@ == self.name@,
    {
        self.name.as_str()
    }

    fn description(&self) -> (r: &str)
        ensures
            r@ == self.description@,
    {
        self.description.as_str()
    }

    fn dry_run(&self) -> (b: bool)
        ensures
            b == self.dry_run,
    {
        self.dry_run
    }

    /// Only the flag changes.
    fn set_dry_run(&mut self, value: bool)
        ensures
            *final(self) == (FirewallTask { dry_run: value, ..*old(self) }),
    {
        self.dry_run = value;
    }
}

} // verus!

verus! {

/// What is reported on an image without ufw.
pub const NOT_INSTALLED_MESSAGE: &'static str = "ufw is not installed; the firewall was not changed.";

/// What is reported when no allow rule could be added.
pub const NO_ALLOW_RULES_MESSAGE: &'static str = "No allow rules could be added; the firewall was left as it was.";

/// What a dry run reports.
pub fn dry_run_message(ports: usize) -> (r: String)
    ensures
        r@ == "DRY RUN: would open "@ + decimal_string(ports as nat) + " ports and enable the firewall."@,
{
    let parts = ["DRY RUN: would open ", " ports and enable the firewall."];
    let r = format_counts(&parts, &[ports]);
    proof {
        reveal_with_fuel(interleave, 2);
        assert(crate::text::views(parts@) =~= seq![parts[0]@, parts[1]@]);
        assert(Seq::<char>::empty() + r@ =~= r@);
    }
    r
}

/// What a finished run reports.
pub fn summary_message(ports: usize) -> (r: String)
    ensures
        r@ == "Firewall enabled with "@ + decimal_string(ports as nat) + " allow rules."@,
{
    let parts = ["Firewall enabled with ", " allow rules."];
    let r = format_counts(&parts, &[ports]);
    proof {
        reveal_with_fuel(interleave, 2);
        assert(crate::text::views(parts@) =~= seq![parts[0]@, parts[1]@]);
        assert(Seq::<char>::empty() + r@ =~= r@);
    }
    r
}

} // verus!

verus! {

/// One `ufw` command a firewall run asks for.
#[derive(Clone, Copy, Debug, PartialEq, Eq)]
pub enum FirewallStep {
    /// `ufw allow <port>`.
    Allow(&'static str),
    /// `ufw default deny incoming`.
    DenyIncoming,
    /// `ufw default allow outgoing`.
    AllowOutgoing,
    /// Switch `ufw` on.
    Enable,
}

/// The `k`th command of a run that opens `ports`: the allow rules, then the
/// two default policies, then switching the firewall on.
pub open spec fn step_at(ports: Seq<&'static str>, k: int) -> FirewallStep {
    if k < ports.len() {
        FirewallStep::Allow(ports[k])
    } else if k == ports.len() {
        FirewallStep::DenyIncoming
    } else if k == ports.len() + 1 {
        FirewallStep::AllowOutgoing
    } else {
        FirewallStep::Enable
    }
}

/// How many of `answers` were successes.
pub open spec fn count_ok(answers: Seq<bool>) -> nat
    decreases answers.len(),
{
    if answers.len() == 0 {
        0
    } else {
        count_ok(answers.drop_last()) + if answers.last() {
            1nat
        } else {
            0nat
        }
    }
}

/// How many allow rules went in, given the answers so far.
pub open spec fn allowed_of(ports: Seq<&'static str>, answers: Seq<bool>) -> nat {
    if answers.len() <= ports.len() {
        count_ok(answers)
    } else {
        count_ok(answers.take(ports.len() as int))
    }
}

/// The command a run asks for after `answers`: every allow rule first; then,
/// only if at least one of them went in, the default policies and switching
/// the firewall on; then nothing.
pub open spec fn next_of(ports: Seq<&'static str>, answers: Seq<bool>) -> Option<FirewallStep> {
    let k = answers.len();
    if k < ports.len() {
        Some(step_at(ports, k as int))
    } else if allowed_of(ports, answers) == 0 {
        None
    } else if k < ports.len() + 3 {
        Some(step_at(ports, k as int))
    } else {
        None
    }
}

/// What a failed command is reported as.
pub open spec fn failure_text(step: FirewallStep, error: Option<Seq<char>>) -> Seq<char> {
    match step {
        FirewallStep::Allow(port) => "allow "@ + port@ + ": "@ + match error {
            Some(e) => e,
            None => "ufw refused the rule"@,
        },
        FirewallStep::DenyIncoming => "default deny incoming: "@ + match error {
            Some(e) => e,
            None => Seq::empty(),
        },
        FirewallStep::AllowOutgoing => "default allow outgoing: "@ + match error {
            Some(e) => e,
            None => Seq::empty(),
        },
        FirewallStep::Enable => "enable: "@ + match error {
            Some(e) => e,
            None => Seq::empty(),
        },
    }
}

/// A firewall run in progress: the ports to open, whether each command so
/// far succeeded, and what the failed ones said.
pub struct FirewallRun {
    ports: Vec<&'static str>,
    answers: Vec<bool>,
    failures: Vec<String>,
}

impl FirewallRun {
    pub closed spec fn ports(&self) -> Seq<&'static str> {
        self.ports@
    }

    pub closed spec fn answers(&self) -> Seq<bool> {
        self.answers@
    }

    pub closed spec fn failures(&self) -> Seq<Seq<char>> {
        strs(self.failures@)
    }

    /// A run that will open `ports`, with nothing done yet.
    pub fn new(ports: Vec<&'static str>) -> (r: Self)
        ensures
            r.ports() == ports@,
            r.answers().len() == 0,
            r.failures().len() == 0,
    {
        FirewallRun { ports, answers: Vec::new(), failures: Vec::new() }
    }

    fn allowed(&self) -> (n: usize)
        ensures
            n == allowed_of(self.ports(), self.answers()),
    {
        let limit = if self.answers.len() <= self.ports.len() {
            self.answers.len()
        } else {
            self.ports.len()
        };
        let ghost take = self.answers@.take(limit as int);
        proof {
            if self.answers@.len() <= self.ports@.len() {
                assert(take =~= self.answers@);
            }
        }
        count_true(&self.answers, limit)
    }

    /// The command to run next, or `None` when the run is over.
    pub fn next(&self) -> (r: Option<FirewallStep>)
        ensures
            r == next_of(self.ports(), self.answers()),
    {
        let k = self.answers.len();
        let n = self.ports.len();
        if k < n {
            Some(FirewallStep::Allow(self.ports[k]))
        } else if self.allowed() == 0 {
            None
        } else if k == n {
            Some(FirewallStep::DenyIncoming)
        } else if k - n == 1 {
            Some(FirewallStep::AllowOutgoing)
        } else if k - n == 2 {
            Some(FirewallStep::Enable)
        } else {
            None
        }
    }

    /// Record how the command [`Self::next`] asked for went: `ok`, or the
    /// error it reported.
    pub fn answer(&mut self, ok: bool, error: Option<String>)
        requires
            next_of(old(self).ports(), old(self).answers()) is Some,
        ensures
            final(self).ports() == old(self).ports(),
            final(self).answers() == old(self).answers().push(ok),
            final(self).failures() == if ok {
                old(self).failures()
            } else {
                old(self).failures().push(
                    failure_text(
                        step_at(old(self).ports(), old(self).answers().len() as int),
                        opt_view(error),
                    ),
                )
            },
    {
        let k = self.answers.len();
        let ghost step = step_at(self.ports@, k as int);
        if !ok {
            let step = if k < self.ports.len() {
                FirewallStep::Allow(self.ports[k])
            } else if k == self.ports.len() {
                FirewallStep::DenyIncoming
            } else if k - self.ports.len() == 1 {
                FirewallStep::AllowOutgoing
            } else {
                FirewallStep::Enable
            };
            let text = describe_failure(step, error);
            self.failures.push(text);
            proof {
                assert(strs(self.failures@) =~= strs(old(self).failures@).push(text@));
            }
        }
        self.answers.push(ok);
    }

    /// Did the run stop without switching the firewall on, because no allow
    /// rule went in?
    pub fn refused(&self) -> (b: bool)
        ensures
            b == (self.answers().len() >= self.ports().len() && allowed_of(
                self.ports(),
                self.answers(),
            ) == 0),
    {
        self.answers.len() >= self.ports.len() && self.allowed() == 0
    }

    /// Close the run into `result`: how many commands succeeded, whether any
    /// failed and why, and what was done.
    pub fn finish(&self, result: &mut TaskResult)
        ensures
            final(result).items_succeeded == clamp_i32(count_ok(self.answers())),
            final(result).success == (self.failures().len() == 0),
            final(result).message@ == if self.answers().len() >= self.ports().len()
                && allowed_of(self.ports(), self.answers()) == 0 {
                NO_ALLOW_RULES_MESSAGE@
            } else {
                "Firewall enabled with "@ + decimal_string(self.ports().len()) + " allow rules."@
            },
            opt_view(final(result).error_details) == details_of(self.failures()),
            final(result).task_name == old(result).task_name,
            final(result).items_attempted == old(result).items_attempted,
            final(result).items_skipped == old(result).items_skipped,
            final(result).verified == old(result).verified,
            final(result).confidence_percent == old(result).confidence_percent,
    {
        let succeeded = count_true(&self.answers, self.answers.len());
        proof {
            assert(self.answers@.take(self.answers@.len() as int) =~= self.answers@);
        }
        result.items_succeeded = to_i32(succeeded);
        let message = if self.refused() {
            String::from_str(NO_ALLOW_RULES_MESSAGE)
        } else {
            summary_message(self.ports.len())
        };
        result.finish(message, &self.failures);
    }
}

/// A count as a task result holds it, capped at `i32::MAX`.
pub open spec fn clamp_i32(n: nat) -> i32 {
    if n <= i32::MAX {
        n as i32
    } else {
        i32::MAX
    }
}

fn to_i32(n: usize) -> (r: i32)
    ensures
        r == clamp_i32(n as nat),
{
    if n <= 2147483647 {
        n as i32
    } else {
        2147483647
    }
}

fn count_true(v: &Vec<bool>, limit: usize) -> (n: usize)
    requires
        limit <= v@.len(),
    ensures
        n == count_ok(v@.take(limit as int)),
{
    let mut n: usize = 0;
    let mut i: usize = 0;
    while i < limit
        invariant
            i <= limit <= v@.len(),
            n == count_ok(v@.take(i as int)),
            n <= i,
        decreases limit - i,
    {
        proof {
            assert(v@.take(i as int + 1).drop_last() =~= v@.take(i as int));
        }
        if v[i] {
            n = n + 1;
        }
        i = i + 1;
    }
    n
}

fn describe_failure(step: FirewallStep, error: Option<String>) -> (r: String)
    ensures
        r@ == failure_text(step, opt_view(error)),
{
    let (head, fallback): (Vec<char>, &str) = match step {
        FirewallStep::Allow(port) => (concat_str(&chars_of("allow "), port), "ufw refused the rule"),
        FirewallStep::DenyIncoming => (chars_of("default deny incoming"), ""),
        FirewallStep::AllowOutgoing => (chars_of("default allow outgoing"), ""),
        FirewallStep::Enable => (chars_of("enable"), ""),
    };
    let with_colon = concat_str(&head, ": ");
    let tail = match &error {
        Some(e) => chars_of(e.as_str()),
        None => chars_of(fallback),
    };
    let all = concat_chars(&with_colon, &tail);
    proof {
        reveal_strlit("allow ");
        reveal_strlit(": ");
        reveal_strlit("default deny incoming");
        reveal_strlit("default deny incoming: ");
        reveal_strlit("default allow outgoing");
        reveal_strlit("default allow outgoing: ");
        reveal_strlit("enable");
        reveal_strlit("enable: ");
        reveal_strlit("");
        match step {
            FirewallStep::Allow(port) => {
                assert(all@ =~= failure_text(step, opt_view(error)));
            },
            FirewallStep::DenyIncoming => {
                assert(all@ =~= failure_text(step, opt_view(error)));
            },
            FirewallStep::AllowOutgoing => {
                assert(all@ =~= failure_text(step, opt_view(error)));
            },
            FirewallStep::Enable => {
                assert(all@ =~= failure_text(step, opt_view(error)));
            },
        }
    }
    string_of(&all)
}

proof fn lemma_count_ok_witness(s: Seq<bool>)
    requires
        count_ok(s) > 0,
    ensures
        exists|i: int| 0 <= i < s.len() && s[i],
    decreases s.len(),
{
    if !s.last() {
        lemma_count_ok_witness(s.drop_last());
        let i = choose|i: int| 0 <= i < s.drop_last().len() && s.drop_last()[i];
        assert(s[i]);
    } else {
        assert(s[s.len() - 1]);
    }
}

/// The firewall is never switched on, and no default policy is set, unless
/// every allow rule has been tried first and at least one of them went in:
/// a default-deny firewall with no allow rule would cut off the session the
/// run is happening over.
pub proof fn law_firewall_enabled_only_after_an_allow_rule(
    ports: Seq<&'static str>,
    answers: Seq<bool>,
)
    ensures
        next_of(ports, answers) matches Some(step) && !(step is Allow) ==> answers.len()
            >= ports.len() && exists|i: int| 0 <= i < ports.len() && answers[i],
        (answers.len() >= ports.len() && (forall|i: int| 0 <= i < ports.len() ==> !answers[i]))
            ==> next_of(ports, answers) is None,
{
    if answers.len() >= ports.len() {
        let t = if answers.len() <= ports.len() {
            answers
        } else {
            answers.take(ports.len() as int)
        };
        assert(allowed_of(ports, answers) == count_ok(t));
        if count_ok(t) > 0 {
            lemma_count_ok_witness(t);
            let i = choose|i: int| 0 <= i < t.len() && t[i];
            assert(answers[i]);
        }
        if forall|i: int| 0 <= i < ports.len() ==> !answers[i] {
            assert forall|i: int| 0 <= i < t.len() implies !t[i] by {
                assert(t[i] == answers[i]);
            }
            lemma_count_ok_none(t);
        }
    }
}

proof fn lemma_count_ok_none(s: Seq<bool>)
    requires
        forall|i: int| 0 <= i < s.len() ==> !s[i],
    ensures
        count_ok(s) == 0,
    decreases s.len(),
{
    if s.len() > 0 {
        lemma_count_ok_none(s.drop_last());
    }
}


proof fn lemma_count_ok_take(s: Seq<bool>, n: int)
    requires
        0 <= n <= s.len(),
    ensures
        count_ok(s) <= count_ok(s.take(n)) + (s.len() - n),
    decreases s.len(),
{
    if s.len() > n {
        lemma_count_ok_take(s.drop_last(), n);
        assert(s.drop_last().take(n) =~= s.take(n));
    } else {
        assert(s.take(n) =~= s);
    }
}

/// Each answer of a run is either a success or one failure: a run that
/// starts with neither keeps the failures equal to the answers that were
/// not successes.
pub proof fn law_failures_count_the_failed_commands(answers: Seq<bool>, ok: bool, failures: nat)
    requires
        failures + count_ok(answers) == answers.len(),
    ensures
        (if ok {
            failures
        } else {
            failures + 1
        }) + count_ok(answers.push(ok)) == answers.len() + 1,
{
    assert(answers.push(ok).drop_last() =~= answers);
}

/// A run in which no allow rule went in ends there, and ends failed: there
/// is nothing more to do, the run is refused (so it reports
/// `NO_ALLOW_RULES_MESSAGE`), and it holds at least one failure, so it is
/// not a success.
pub proof fn law_a_run_with_no_allow_rule_fails(
    ports: Seq<&'static str>,
    answers: Seq<bool>,
    failures: nat,
)
    requires
        ports.len() >= 1,
        answers.len() >= ports.len(),
        forall|i: int| 0 <= i < ports.len() ==> !answers[i],
        failures + count_ok(answers) == answers.len(),
    ensures
        next_of(ports, answers) is None,
        allowed_of(ports, answers) == 0,
        failures > 0,
{
    law_firewall_enabled_only_after_an_allow_rule(ports, answers);
    let n = ports.len() as int;
    let t = answers.take(n);
    assert forall|i: int| 0 <= i < t.len() implies !t[i] by {
        assert(t[i] == answers[i]);
    }
    lemma_count_ok_none(t);
    lemma_count_ok_take(answers, n);
    if answers.len() == ports.len() {
        assert(t =~= answers);
    }
}

} // verus!
