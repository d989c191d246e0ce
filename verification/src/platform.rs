//! What a platform offers the command line: its tasks, each with the flags
//! that select it, its help text, whether it needs a README, and whether it
//! may run alongside others. Building a task and running it are the
//! program's.
use vstd::prelude::*;
use crate::text::{chars_of, eq_chars};

verus! {

/// Whether a task may overlap with others. Only audits that read the machine
/// without writing may.
#[derive(Debug, Clone, Copy, PartialEq, Eq, Structural)]
pub enum Concurrency {
    Sequential,
    Concurrent,
}

/// One task as the command line and the menu see it.
#[derive(Debug, Clone, Copy)]
pub struct TaskSpec {
    pub flag: &'static str,
    /// The short flag, or empty when there is none.
    pub short: &'static str,
    pub help: &'static str,
    pub label: &'static str,
    pub detail: &'static str,
    pub needs_readme: bool,
    pub concurrency: Concurrency,
}

impl TaskSpec {
    /// Is `arg` the long flag, or the short flag where there is one?
    pub fn matches(&self, arg: &str) -> (b: bool)
        ensures
            b == (arg@ == self.flag@ || (self.short@.len() > 0 && arg@ == self.short@)),
    {
        let a = chars_of(arg);
        let s = chars_of(self.short);
        eq_chars(&a, &chars_of(self.flag)) || (s.len() > 0 && eq_chars(&a, &s))
    }
}

/// What the program needs to know of a platform.
pub trait Platform {
    /// The platform's name.
    fn name() -> &'static str;

    /// The account the tool has to run as.
    fn privileged_role() -> &'static str;

    /// What to tell someone who did not run it as that account.
    fn elevation_hint() -> &'static str;

    /// The tasks the platform offers, in menu order.
    fn tasks() -> Vec<TaskSpec>;

    /// Is an effective user id the privileged one?
    fn is_privileged(euid: u32) -> bool;
}

/// The Linux task table, one column per constant, row by row.
pub const TASK_FLAGS: [&'static str; 15] = [
    "--password-policy",
    "--account-permissions",
    "--user-management",
    "--service-management",
    "--audit-policy",
    "--firewall",
    "--security-hardening",
    "--media-scan",
    "--software-updates",
    "--software-management",
    "--file-permissions",
    "--shared-folders",
    "--hosts-file",
    "--dns-settings",
    "--scheduled-tasks",
];

pub const TASK_SHORTS: [&'static str; 15] = [
    "-p",
    "-a",
    "-u",
    "-s",
    "-t",
    "-f",
    "-H",
    "-m",
    "",
    "",
    "",
    "",
    "",
    "",
    "",
];

pub const TASK_HELP: [&'static str; 15] = [
    "Password complexity, history and lockout, via PAM",
    "Passwordless logins, duplicate root, password ageing",
    "Create, remove and correct user accounts",
    "Mask insecure services, protect critical ones",
    "Enable auditd and system logging",
    "Enable ufw, deny inbound, open what the README needs",
    "Kernel, SSH and account-ageing hardening",
    "Find media files in user directories",
    "Upgrade installed packages and enable security updates",
    "Purge prohibited packages, install required ones",
    "Fix the modes on scored files; report world-writable, setuid and unowned",
    "Report Samba shares and NFS exports",
    "Remove unauthorised /etc/hosts entries",
    "Report the resolvers in use",
    "Report cron jobs and timers that look like persistence",
];

pub const TASK_LABELS: [&'static str; 15] = [
    "Password Policy",
    "Account Permissions",
    "User Management",
    "Service Management",
    "Audit Policy",
    "Firewall",
    "Security Hardening",
    "Prohibited Media",
    "Software Updates",
    "Software Management",
    "File Permissions Audit",
    "Shared Folders Audit",
    "Hosts File Audit",
    "DNS Settings Audit",
    "Scheduled Tasks Audit",
];

pub const TASK_DETAILS: [&'static str; 15] = [
    "length, classes, history, lockout",
    "empty passwords, uid 0, ageing",
    "needs a README",
    "systemd: mask insecure, protect critical",
    "auditd, rsyslog, audit rules",
    "ufw: default deny, allow what is needed",
    "sysctl, sshd_config, login.defs",
    "reports; deletes only if the README prohibits",
    "apt upgrade, unattended-upgrades",
    "apt purge and install",
    "/etc/shadow and friends; reports the rest",
    "reports; removes nothing",
    "removes unauthorised entries",
    "reports public resolvers",
    "reports; disables nothing",
];

pub const TASK_NEEDS_README: [bool; 15] = [false, false, true, false, false, false, false, false, false, true, false, false, false, false, false];

pub const TASK_CONCURRENT: [bool; 15] = [false, false, false, false, false, false, false, false, false, false, false, true, true, true, true];

/// The Linux platform.
pub struct Linux;

pub open spec fn linux_task(i: int) -> TaskSpec {
    TaskSpec {
        flag: TASK_FLAGS@[i],
        short: TASK_SHORTS@[i],
        help: TASK_HELP@[i],
        label: TASK_LABELS@[i],
        detail: TASK_DETAILS@[i],
        needs_readme: TASK_NEEDS_README@[i],
        concurrency: if TASK_CONCURRENT@[i] {
            Concurrency::Concurrent
        } else {
            Concurrency::Sequential
        },
    }
}

/// The Linux tasks, in menu order.
pub fn linux_tasks() -> (r: Vec<TaskSpec>)
    ensures
        r@.len() == 15,
        forall|i: int| 0 <= i < 15 ==> #[trigger] r@[i] == linux_task(i),
{
    let mut out: Vec<TaskSpec> = Vec::new();
    let mut i: usize = 0;
    while i < 15
        invariant
            i <= 15,
            out@.len() == i,
            forall|k: int| 0 <= k < i ==> #[trigger] out@[k] == linux_task(k),
        decreases 15 - i,
    {
        let concurrency = if TASK_CONCURRENT[i] {
            Concurrency::Concurrent
        } else {
            Concurrency::Sequential
        };
        out.push(
            TaskSpec {
                flag: TASK_FLAGS[i],
                short: TASK_SHORTS[i],
                help: TASK_HELP[i],
                label: TASK_LABELS[i],
                detail: TASK_DETAILS[i],
                needs_readme: TASK_NEEDS_README[i],
                concurrency,
            },
        );
        i = i + 1;
    }
    out
}

impl Platform for Linux {
    fn name() -> (r: &'static str)
        ensures
            r@ == "Linux"@,
    {
        "Linux"
    }

    fn privileged_role() -> (r: &'static str)
        ensures
            r@ == "root"@,
    {
        "root"
    }

    fn elevation_hint() -> (r: &'static str)
        ensures
            r@ == "Re-run with: sudo pinnacle-cypat ..."@,
    {
        "Re-run with: sudo pinnacle-cypat ..."
    }

    fn tasks() -> (r: Vec<TaskSpec>)
        ensures
            r@.len() == 15,
            forall|i: int| 0 <= i < 15 ==> #[trigger] r@[i] == linux_task(i),
    {
        linux_tasks()
    }

    /// Root is user id 0.
    fn is_privileged(euid: u32) -> (b: bool)
        ensures
            b == (euid == 0),
    {
        euid == 0
    }
}

} // verus!
