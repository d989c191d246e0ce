//! Kernel, SSH and account-ageing hardening: the settings of the knowledge
//! table, a modprobe drop-in that keeps unused kernel modules from loading,
//! and login banners that say nothing about the system.
use vstd::prelude::*;
use crate::task::Task;
use crate::knowledge::SETTING_PATHS;
use crate::text::{format_counts, interleave};
use crate::knowledge::{MODULE_REASONS, MODULES_TO_BLOCK};
use crate::models::ReadmeData;
use crate::readme_services::is_critical_spec;
use crate::services::{is_critical, unit_aliases};
use crate::text::{
    chars_of, concat_str, contains, contains_chars, decimal_of, decimal_string, extend, string_of,
    trim, trim_chars,
};

verus! {

/// The files a login banner is written to.
pub const BANNER_FILES: [&'static str; 3] = ["/etc/issue", "/etc/issue.net", "/etc/motd"];

/// A legal notice with no escapes: `/etc/issue` expands `\n`, `\l` and the
/// like into system details before anyone has authenticated.
pub const BANNER_TEXT: &'static str = "Authorized users only. All activity may be monitored and reported.\nUnauthorized access to this system is prohibited and will be prosecuted.\n";

pub struct SecurityHardeningTask {
    pub name: String,
    pub description: String,
    pub dry_run: bool,
    pub readme_data: Option<ReadmeData>,
}

impl SecurityHardeningTask {
    pub fn new() -> (t: Self)
        ensures
            t.name@ == "Security Hardening"@,
            t.description@ == "Kernel, SSH and account-ageing hardening"@,
            !t.dry_run,
            t.readme_data is None,
    {
        SecurityHardeningTask {
            name: String::from_str("Security Hardening"),
            description: String::from_str("Kernel, SSH and account-ageing hardening"),
            dry_run: false,
            readme_data: None,
        }
    }

    pub fn set_readme_data(&mut self, data: ReadmeData)
        ensures
            final(self).readme_data == Some(data),
            final(self).name == old(self).name,
            final(self).description == old(self).description,
            final(self).dry_run == old(self).dry_run,
    {
        self.readme_data = Some(data);
    }

    /// Does the README require SSH, under any of its names?
    pub fn ssh_is_required(&self) -> (b: bool)
        ensures
            b == match self.readme_data {
                Some(r) => is_critical_spec(unit_aliases(), Some(&r), "ssh.service"@),
                None => false,
            },
    {
        match &self.readme_data {
            Some(r) => is_critical(Some(r), "ssh.service"),
            None => false,
        }
    }
}

impl Default for SecurityHardeningTask {
    fn default() -> (t: Self)
        ensures
            t.name@ == "Security Hardening"@,
            t.description@ == "Kernel, SSH and account-ageing hardening"@,
            !t.dry_run,
            t.readme_data is None,
    {
        Self::new()
    }
}

/// The directives for the first `n` modules, each under its reason.
pub open spec fn module_block(n: nat) -> Seq<char>
    decreases n,
{
    if n == 0 {
        seq![]
    } else {
        let m = MODULES_TO_BLOCK@[n - 1]@;
        module_block((n - 1) as nat) + "# "@ + MODULE_REASONS@[n - 1]@ + "\ninstall "@ + m
            + " /bin/false\nblacklist "@ + m + "\n\n"@
    }
}

pub open spec fn blacklist_heading() -> Seq<char> {
    "# Written by PinnacleCyPat.\n"@
        + "# `install ... /bin/false` is what prevents loading; `blacklist` alone only\n# stops automatic loading and is bypassed by an explicit modprobe.\n\n"@
}

/// The modprobe drop-in: a heading, then for each module to block an
/// `install <module> /bin/false` line (which is what prevents loading) and a
/// `blacklist <module>` line, under a comment with the reason.
pub fn module_blacklist_text() -> (r: String)
    ensures
        r@ == blacklist_heading() + module_block(11),
{
    let mut out = chars_of("# Written by PinnacleCyPat.\n");
    out = concat_str(
        &out,
        "# `install ... /bin/false` is what prevents loading; `blacklist` alone only\n# stops automatic loading and is bypassed by an explicit modprobe.\n\n",
    );
    let ghost head = out@;
    proof {
        assert(head =~= blacklist_heading());
        assert(out@ =~= head + module_block(0));
    }
    let mut i: usize = 0;
    while i < 11
        invariant
            i <= 11,
            head == blacklist_heading(),
            out@ == head + module_block(i as nat),
        decreases 11 - i,
    {
        let mut entry = chars_of("# ");
        entry = concat_str(&entry, MODULE_REASONS[i]);
        entry = concat_str(&entry, "\ninstall ");
        entry = concat_str(&entry, MODULES_TO_BLOCK[i]);
        entry = concat_str(&entry, " /bin/false\nblacklist ");
        entry = concat_str(&entry, MODULES_TO_BLOCK[i]);
        entry = concat_str(&entry, "\n\n");
        extend(&mut out, &entry);
        i = i + 1;
        proof {
            assert(out@ =~= head + module_block(i as nat));
        }
    }
    string_of(&out)
}

/// What a banner file's text says about it: an escape leaks system details,
/// blank is empty, anything else is a plain notice. A missing file is absent.
pub open spec fn banner_state_spec(text: Option<Seq<char>>) -> Seq<char> {
    match text {
        None => "absent"@,
        Some(t) => if contains(t, "\\"@) {
            "leaks system information"@
        } else if trim(t).len() == 0 {
            "empty"@
        } else {
            "a plain notice"@
        },
    }
}

pub fn banner_state(text: Option<&str>) -> (r: String)
    ensures
        r@ == banner_state_spec(
            match text {
                Some(t) => Some(t@),
                None => None,
            },
        ),
{
    match text {
        None => String::from_str("absent"),
        Some(t) => {
            let v = chars_of(t);
            if contains_chars(&v, &chars_of("\\")) {
                String::from_str("leaks system information")
            } else if trim_chars(&v).len() == 0 {
                String::from_str("empty")
            } else {
                String::from_str("a plain notice")
            }
        },
    }
}

/// How many of the first `n` modules the drop-in text blocks with an
/// `install <module> /bin/false` line.
pub open spec fn blocked_count(text: Seq<char>, n: nat) -> nat
    decreases n,
{
    if n == 0 {
        0
    } else {
        blocked_count(text, (n - 1) as nat) + if contains(
            text,
            "install "@ + MODULES_TO_BLOCK@[n - 1]@ + " /bin/false"@,
        ) {
            1nat
        } else {
            0nat
        }
    }
}

/// What the modprobe drop-in's text says about it: `"<n> blocked"`, or
/// absent when there is no file.
pub open spec fn blacklist_state_spec(text: Option<Seq<char>>) -> Seq<char> {
    match text {
        None => "absent"@,
        Some(t) => decimal_string(blocked_count(t, 11)) + " blocked"@,
    }
}

pub fn blacklist_state(text: Option<&str>) -> (r: String)
    ensures
        r@ == blacklist_state_spec(
            match text {
                Some(t) => Some(t@),
                None => None,
            },
        ),
{
    match text {
        None => String::from_str("absent"),
        Some(t) => {
            let v = chars_of(t);
            let mut count: u64 = 0;
            let mut i: usize = 0;
            while i < 11
                invariant
                    i <= 11,
                    v@ == t@,
                    count == blocked_count(t@, i as nat),
                    count <= i,
                decreases 11 - i,
            {
                let mut line = chars_of("install ");
                line = concat_str(&line, MODULES_TO_BLOCK[i]);
                line = concat_str(&line, " /bin/false");
                if contains_chars(&v, &line) {
                    count = count + 1;
                }
                i = i + 1;
            }
            let d = decimal_of(count);
            string_of(&concat_str(&d, " blocked"))
        },
    }
}

} // verus!

verus! {

impl Task for SecurityHardeningTask {
    fn name(&self) -> (r: &str)
        ensures
            r@ == self.name@,
    {
        self.name.as_str()
    }

    fn description(&self) -> (r: &str)
        ensures
            r@ == self.description@,
    {
        self.description.as_str()
    }

    fn dry_run(&self) -> (b: bool)
        ensures
            b == self.dry_run,
    {
        self.dry_run
    }

    /// Only the flag changes.
    fn set_dry_run(&mut self, value: bool)
        ensures
            *final(self) == (SecurityHardeningTask { dry_run: value, ..*old(self) }),
    {
        self.dry_run = value;
    }
}

} // verus!

verus! {

/// What a dry run reports.
pub fn dry_run_message(settings: usize) -> (r: String)
    ensures
        r@ == "DRY RUN: would apply "@ + decimal_string(settings as nat) + " hardening settings."@,
{
    let parts = ["DRY RUN: would apply ", " hardening settings."];
    let r = format_counts(&parts, &[settings]);
    proof {
        reveal_with_fuel(interleave, 2);
        assert(crate::text::views(parts@) =~= seq![parts[0]@, parts[1]@]);
        assert(Seq::<char>::empty() + r@ =~= r@);
    }
    r
}

} // verus!

verus! {

/// What a finished run reports: every setting applied, or how many of the
/// hardening settings were applied and how many writes failed.
pub fn summary_message(succeeded: usize, failed: usize) -> (r: String)
    ensures
        r@ == if failed == 0 {
            "Applied "@ + crate::text::decimal_string(succeeded as nat) + " hardening settings."@
        } else {
            "Applied "@ + crate::text::decimal_string(succeeded as nat) + " of "@
                + crate::text::decimal_string(SETTING_PATHS@.len()) + " settings; "@
                + crate::text::decimal_string(failed as nat) + " failed."@
        },
{
    if failed == 0 {
        let parts = ["Applied ", " hardening settings."];
        let r = format_counts(&parts, &[succeeded]);
        proof {
            reveal_with_fuel(interleave, 2);
            assert(crate::text::views(parts@) =~= seq![parts[0]@, parts[1]@]);
        }
        r
    } else {
        let parts = ["Applied ", " of ", " settings; ", " failed."];
        let r = format_counts(&parts, &[succeeded, SETTING_PATHS.len(), failed]);
        proof {
            reveal_with_fuel(interleave, 4);
            assert(crate::text::views(parts@) =~= seq![parts[0]@, parts[1]@, parts[2]@, parts[3]@]);
        }
        r
    }
}

} // verus!
