//! Package upgrades, and security updates applied unattended from then on.
//! Reading the package manager's report is in [`crate::apt`].
use vstd::prelude::*;
use crate::task::Task;
use crate::text::{decimal_string, format_counts, interleave};
use crate::models::ReadmeData;

verus! {

/// The package that applies security updates unattended.
pub const UNATTENDED_UPGRADES: &'static str = "unattended-upgrades";

pub struct SoftwareUpdateTask {
    pub name: String,
    pub description: String,
    pub dry_run: bool,
    pub readme_data: Option<ReadmeData>,
}

impl SoftwareUpdateTask {
    pub fn new() -> (t: Self)
        ensures
            t.name@ == "Software Updates"@,
            t.description@ == "Upgrade installed packages and enable security updates"@,
            !t.dry_run,
            t.readme_data is None,
    {
        SoftwareUpdateTask {
            name: String::from_str("Software Updates"),
            description: String::from_str("Upgrade installed packages and enable security updates"),
            dry_run: false,
            readme_data: None,
        }
    }

    /// The README is accepted even though nothing here depends on it.
    pub fn set_readme_data(&mut self, data: ReadmeData)
        ensures
            final(self).readme_data == Some(data),
            final(self).name == old(self).name,
            final(self).description == old(self).description,
            final(self).dry_run == old(self).dry_run,
    {
        self.readme_data = Some(data);
    }
}

impl Default for SoftwareUpdateTask {
    fn default() -> (t: Self)
        ensures
            t.name@ == "Software Updates"@,
            t.description@ == "Upgrade installed packages and enable security updates"@,
            !t.dry_run,
            t.readme_data is None,
    {
        Self::new()
    }
}

} // verus!

verus! {

impl Task for SoftwareUpdateTask {
    fn name(&self) -> (r: &str)
        ensures
            r@ == self.name@,
    {
        self.name.as_str()
    }

    fn description(&self) -> (r: &str)
        ensures
            r@ == self.description@,
    {
        self.description.as_str()
    }

    fn dry_run(&self) -> (b: bool)
        ensures
            b == self.dry_run,
    {
        self.dry_run
    }

    /// Only the flag changes.
    fn set_dry_run(&mut self, value: bool)
        ensures
            *final(self) == (SoftwareUpdateTask { dry_run: value, ..*old(self) }),
    {
        self.dry_run = value;
    }
}

} // verus!

verus! {

/// What is reported on an image without apt.
pub const NO_APT_MESSAGE: &'static str = "apt is not available; nothing was updated.";

/// What is reported when nothing is pending.
pub const UP_TO_DATE_MESSAGE: &'static str = "Everything is already up to date.";

/// What is reported when the upgrade fails.
pub const INCOMPLETE_MESSAGE: &'static str = "The upgrade did not complete.";

/// What a dry run reports.
pub fn dry_run_message(pending: usize) -> (r: String)
    ensures
        r@ == "DRY RUN: "@ + decimal_string(pending as nat) + " packages would be upgraded."@,
{
    let parts = ["DRY RUN: ", " packages would be upgraded."];
    let r = format_counts(&parts, &[pending]);
    proof {
        reveal_with_fuel(interleave, 2);
        assert(crate::text::views(parts@) =~= seq![parts[0]@, parts[1]@]);
        assert(Seq::<char>::empty() + r@ =~= r@);
    }
    r
}

/// What a finished run reports.
pub fn summary_message(upgraded: usize) -> (r: String)
    ensures
        r@ == "Upgraded "@ + decimal_string(upgraded as nat) + " packages."@,
{
    let parts = ["Upgraded ", " packages."];
    let r = format_counts(&parts, &[upgraded]);
    proof {
        reveal_with_fuel(interleave, 2);
        assert(crate::text::views(parts@) =~= seq![parts[0]@, parts[1]@]);
        assert(Seq::<char>::empty() + r@ =~= r@);
    }
    r
}

} // verus!

verus! {

/// How many packages an upgrade took care of: those pending before it that
/// are not pending after it.
pub fn upgraded_count(pending: usize, remaining: usize) -> (r: usize)
    requires
        remaining <= pending,
    ensures
        r == pending - remaining,
{
    pending - remaining
}

/// The ledger's note on an upgrade.
pub fn upgrade_note(upgraded: usize, pending: usize, remaining: usize) -> (r: String)
    ensures
        r@ == decimal_string(upgraded as nat) + " of "@ + decimal_string(pending as nat)
            + " packages upgraded; "@ + decimal_string(remaining as nat) + " still pending"@,
{
    let parts = ["", " of ", " packages upgraded; ", " still pending"];
    let r = format_counts(&parts, &[upgraded, pending, remaining]);
    proof {
        reveal_strlit("");
        reveal_with_fuel(interleave, 4);
        assert(crate::text::views(parts@) =~= seq![parts[0]@, parts[1]@, parts[2]@, parts[3]@]);
        assert(Seq::<char>::empty() + r@ =~= r@);
    }
    r
}

} // verus!
