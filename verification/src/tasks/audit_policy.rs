//! The logging an image is scored on: `auditd` and `rsyslog` running, a
//! small set of watch rules on the files an attacker has to touch, and an
//! `auditd.conf` that keeps its history and does not halt the machine when
//! the disk fills.
use vstd::prelude::*;
use crate::task::Task;
use crate::text::{decimal_string, format_counts, interleave};
use crate::text::{chars_of, concat_str, extend, string_of};

verus! {

pub const RULES_FILE: &'static str = "/etc/audit/rules.d/99-pinnacle.rules";

/// The watch rules written, each on the file an attacker has to touch: 34
/// rules in 13 groups, one per `-k` key (identity, logins, privilege and so
/// on). The 13 audit rules the project's overview counts are these groups.
pub const AUDIT_RULES: [&'static str; 34] = [
    "-w /etc/passwd -p wa -k identity",
    "-w /etc/shadow -p wa -k identity",
    "-w /etc/group -p wa -k identity",
    "-w /etc/gshadow -p wa -k identity",
    "-w /etc/sudoers -p wa -k privilege",
    "-w /etc/sudoers.d/ -p wa -k privilege",
    "-w /etc/ssh/sshd_config -p wa -k remote-access",
    "-w /var/log/auth.log -p wa -k logs",
    "-w /etc/hosts -p wa -k network",
    "-w /etc/crontab -p wa -k persistence",
    "-w /etc/cron.d/ -p wa -k persistence",
    "-w /sbin/insmod -p x -k modules",
    "-w /sbin/modprobe -p x -k modules",
    "-w /sbin/rmmod -p x -k modules",
    "-w /etc/pam.d/ -p wa -k pam",
    "-w /etc/security/ -p wa -k pam",
    "-w /etc/login.defs -p wa -k logins",
    "-w /etc/sysctl.conf -p wa -k sysctl",
    "-w /etc/sysctl.d/ -p wa -k sysctl",
    "-w /etc/modprobe.d/ -p wa -k modules",
    "-w /var/log/faillog -p wa -k logins",
    "-w /var/log/lastlog -p wa -k logins",
    "-w /var/run/utmp -p wa -k session",
    "-w /var/log/wtmp -p wa -k session",
    "-w /var/log/btmp -p wa -k session",
    "-w /etc/systemd/ -p wa -k persistence",
    "-w /etc/fstab -p wa -k mounts",
    "-w /etc/hosts.allow -p wa -k network",
    "-w /etc/hosts.deny -p wa -k network",
    "-w /usr/bin/sudo -p x -k privilege",
    "-w /var/log/sudo.log -p wa -k privilege",
    "-w /etc/ufw/ -p wa -k network",
    "-w /etc/apt/sources.list -p wa -k software",
    "-w /etc/apt/sources.list.d/ -p wa -k software",
];

/// Why each of [`AUDIT_RULES`] is there, row by row.
pub const AUDIT_RULE_REASONS: [&'static str; 34] = [
    "account creation and deletion",
    "password changes",
    "group membership changes",
    "group password changes",
    "grants of administrative rights",
    "grants of administrative rights",
    "changes to remote access",
    "tampering with the authentication log",
    "static DNS overrides",
    "scheduled-task persistence",
    "scheduled-task persistence",
    "kernel module loading",
    "kernel module loading",
    "kernel module unloading",
    "changes to how authentication works",
    "changes to the password and lockout policy",
    "changes to the account ageing defaults",
    "changes to the kernel hardening",
    "changes to the kernel hardening",
    "changes to the module blacklist",
    "tampering with the failed-login record",
    "tampering with the last-login record",
    "tampering with the who-is-logged-in record",
    "tampering with the login history",
    "tampering with the failed-login history",
    "a unit file is persistence",
    "an added mount can shadow a system directory",
    "host-based access control",
    "host-based access control",
    "every use of sudo",
    "tampering with the sudo log",
    "changes to the firewall rules",
    "a added repository can install anything",
    "a added repository can install anything",
];

/// The `auditd.conf` keys set, with their values and reasons in the next two
/// tables, row by row.
pub const AUDITD_KEYS: [&'static str; 5] = [
    "max_log_file",
    "max_log_file_action",
    "space_left_action",
    "admin_space_left_action",
    "num_logs",
];

pub const AUDITD_VALUES: [&'static str; 5] = ["32", "keep_logs", "email", "single", "5"];

pub const AUDITD_REASONS: [&'static str; 5] = [
    "megabytes per log file before it rotates",
    "keep the history rather than overwriting the oldest",
    "warn while there is still room, rather than only at the end",
    "loud and recoverable, rather than halting the machine mid-round",
    "how many rotated files to keep",
];

/// The logging services kept running: unit, package, and why.
pub const LOGGING_UNITS: [&'static str; 2] = ["auditd.service", "rsyslog.service"];

pub const LOGGING_PACKAGES: [&'static str; 2] = ["auditd", "rsyslog"];

pub const LOGGING_REASONS: [&'static str; 2] = [
    "syscall-level auditing",
    "system and authentication logging",
];

pub struct AuditPolicyTask {
    pub name: String,
    pub description: String,
    pub dry_run: bool,
}

impl AuditPolicyTask {
    pub fn new() -> (t: Self)
        ensures
            t.name@ == "Audit Policy"@,
            t.description@ == "Enable auditd and system logging"@,
            !t.dry_run,
    {
        AuditPolicyTask {
            name: String::from_str("Audit Policy"),
            description: String::from_str("Enable auditd and system logging"),
            dry_run: false,
        }
    }
}

impl Default for AuditPolicyTask {
    fn default() -> (t: Self)
        ensures
            t.name@ == "Audit Policy"@,
            t.description@ == "Enable auditd and system logging"@,
            !t.dry_run,
    {
        Self::new()
    }
}

/// The watch rules as `(rule, why)`.
pub fn audit_rules() -> (r: Vec<(&'static str, &'static str)>)
    ensures
        r@.len() == AUDIT_RULES@.len(),
        forall|i: int|
            0 <= i < r@.len() ==> (#[trigger] r@[i]) == (AUDIT_RULES@[i], AUDIT_RULE_REASONS@[i]),
{
    crate::knowledge::rows(&AUDIT_RULES, &AUDIT_RULE_REASONS)
}

/// The `auditd.conf` settings as `(key, value, why)`.
pub fn auditd_settings() -> (r: Vec<(&'static str, &'static str, &'static str)>)
    ensures
        r@.len() == 5,
        forall|i: int|
            0 <= i < 5 ==> (#[trigger] r@[i]) == (
                AUDITD_KEYS@[i],
                AUDITD_VALUES@[i],
                AUDITD_REASONS@[i],
            ),
{
    let mut out: Vec<(&'static str, &'static str, &'static str)> = Vec::new();
    let mut i: usize = 0;
    while i < 5
        invariant
            i <= 5,
            out@.len() == i,
            forall|k: int|
                0 <= k < i ==> (#[trigger] out@[k]) == (
                    AUDITD_KEYS@[k],
                    AUDITD_VALUES@[k],
                    AUDITD_REASONS@[k],
                ),
        decreases 5 - i,
    {
        out.push((AUDITD_KEYS[i], AUDITD_VALUES[i], AUDITD_REASONS[i]));
        i = i + 1;
    }
    out
}

/// The first `n` rules, each under a comment giving its reason.
pub open spec fn rule_block(n: nat) -> Seq<char>
    decreases n,
{
    if n == 0 {
        seq![]
    } else {
        rule_block((n - 1) as nat) + "# "@ + AUDIT_RULE_REASONS@[n - 1]@ + "\n"@
            + AUDIT_RULES@[n - 1]@ + "\n"@
    }
}

/// The heading of the rules file.
pub open spec fn rules_heading() -> Seq<char> {
    "# Written by PinnacleCyPat.\n"@
        + "# Deliberately minimal: a full CIS ruleset fills the disk during a round.\n\n"@
}

pub open spec fn rules_text_spec() -> Seq<char> {
    rules_heading() + rule_block(34)
}

/// The audit rules file: a heading, then each rule under a comment that says
/// what it catches.
pub fn rules_text() -> (r: String)
    ensures
        r@ == rules_text_spec(),
{
    let mut out = chars_of("# Written by PinnacleCyPat.\n");
    out = concat_str(
        &out,
        "# Deliberately minimal: a full CIS ruleset fills the disk during a round.\n\n",
    );
    let ghost head = out@;
    proof {
        assert(head =~= rules_heading());
        assert(rule_block(0) =~= Seq::<char>::empty());
        assert(out@ =~= head + rule_block(0));
    }
    let mut i: usize = 0;
    while i < 34
        invariant
            i <= 34,
            head == rules_heading(),
            out@ == head + rule_block(i as nat),
        decreases 34 - i,
    {
        let mut entry = chars_of("# ");
        entry = concat_str(&entry, AUDIT_RULE_REASONS[i]);
        entry = concat_str(&entry, "\n");
        entry = concat_str(&entry, AUDIT_RULES[i]);
        entry = concat_str(&entry, "\n");
        extend(&mut out, &entry);
        i = i + 1;
        proof {
            assert(out@ =~= head + rule_block(i as nat));
        }
    }
    string_of(&out)
}

} // verus!

verus! {

impl Task for AuditPolicyTask {
    fn name(&self) -> (r: &str)
        ensures
            r@ == self.name@,
    {
        self.name.as_str()
    }

    fn description(&self) -> (r: &str)
        ensures
            r@ == self.description@,
    {
        self.description.as_str()
    }

    fn dry_run(&self) -> (b: bool)
        ensures
            b == self.dry_run,
    {
        self.dry_run
    }

    /// Only the flag changes.
    fn set_dry_run(&mut self, value: bool)
        ensures
            *final(self) == (AuditPolicyTask { dry_run: value, ..*old(self) }),
    {
        self.dry_run = value;
    }
}

} // verus!

verus! {

/// What a dry run reports.
pub const DRY_RUN_MESSAGE: &'static str = "DRY RUN: no logging configuration was changed.";

} // verus!

verus! {

/// What a finished run reports: how many logging services run (never more
/// than there are), and how many audit rules were written.
pub fn summary_message(succeeded: usize) -> (r: String)
    ensures
        r@ == decimal_string(
            if succeeded < LOGGING_UNITS@.len() { succeeded as nat } else { LOGGING_UNITS@.len() },
        ) + " logging services running, "@ + decimal_string(AUDIT_RULES@.len())
            + " audit rules written."@,
{
    let running = if succeeded < LOGGING_UNITS.len() { succeeded } else { LOGGING_UNITS.len() };
    let parts = ["", " logging services running, ", " audit rules written."];
    let r = format_counts(&parts, &[running, AUDIT_RULES.len()]);
    proof {
        reveal_strlit("");
        reveal_with_fuel(interleave, 3);
        assert(crate::text::views(parts@) =~= seq![parts[0]@, parts[1]@, parts[2]@]);
        assert(Seq::<char>::empty() + r@ =~= r@);
    }
    r
}

} // verus!
