//! Services: the ones the README requires are kept running, and the insecure
//! ones the knowledge table lists are masked, unless they are protected.
use vstd::prelude::*;
use crate::task::{tally_after, Outcome, Tally, TallyView, Task, Wording};
use crate::models::{details_of, opt_view, TaskResult};
use crate::text::{decimal_string, format_counts, interleave};
use crate::knowledge::{PROHIBITED_SERVICE_REASONS, PROHIBITED_SERVICE_UNITS};
use crate::models::ReadmeData;
use crate::readme_services::{is_critical_spec, resolve_spec};
use crate::services::{is_protected, is_protected_spec, resolve, unit_aliases};
use crate::readme_services::same_service;
use crate::text::{eq_ignore_case, filter_map, lemma_filter_map_keeps, lemma_filter_map_source, strs};

verus! {

pub struct ServiceManagementTask {
    pub name: String,
    pub description: String,
    pub dry_run: bool,
    pub readme_data: Option<ReadmeData>,
}

/// The README's critical services, each resolved to a unit.
pub open spec fn required_units_spec(readme: Option<ReadmeData>) -> Seq<Seq<char>> {
    match readme {
        Some(r) => strs(r.critical_services@).map_values(
            |s: Seq<char>| resolve_spec(unit_aliases(), s),
        ),
        None => seq![],
    }
}

/// The prohibited units, with their reasons, that are not protected.
pub open spec fn units_to_mask_spec(readme: Option<ReadmeData>) -> Seq<(&'static str, &'static str)> {
    filter_map(
        Seq::new(28, |i: int| (PROHIBITED_SERVICE_UNITS@[i], PROHIBITED_SERVICE_REASONS@[i])),
        |row: (&'static str, &'static str)|
            if is_protected_spec(
                match readme {
                    Some(r) => Some(&r),
                    None => None,
                },
                row.0@,
            ) {
                None
            } else {
                Some(row)
            },
    )
}


/// Nothing protected is ever queued for masking: not a unit the README calls
/// critical under any spelling, and not one of the services that are never
/// stopped. Every unit queued is one of the prohibited units.
pub proof fn law_protected_never_masked(readme: Option<ReadmeData>, k: int)
    requires
        0 <= k < units_to_mask_spec(readme).len(),
    ensures
        !is_protected_spec(match readme {
        Some(r) => Some(&r),
        None => None,
    }, units_to_mask_spec(readme)[k].0@),
        exists|i: int| 0 <= i < 28 && #[trigger] PROHIBITED_SERVICE_UNITS@[i] == units_to_mask_spec(readme)[k].0,
{
    let rows = Seq::new(28, |i: int| (PROHIBITED_SERVICE_UNITS@[i], PROHIBITED_SERVICE_REASONS@[i]));
    let f = |row: (&'static str, &'static str)|
        if is_protected_spec(match readme {
        Some(r) => Some(&r),
        None => None,
    }, row.0@) {
            None
        } else {
            Some(row)
        };
    assert(units_to_mask_spec(readme) == filter_map(rows, f));
    lemma_filter_map_source(rows, f, k);
    let i = choose|i: int| 0 <= i < rows.len() && f(#[trigger] rows[i]) == Some(filter_map(rows, f)[k]);
    assert(PROHIBITED_SERVICE_UNITS@[i] == units_to_mask_spec(readme)[k].0);
}

/// Every prohibited unit that is not protected is masked, with its reason:
/// each row of the prohibited-service table whose unit is neither critical
/// for the README nor one never stopped is in the list, so none is skipped.
pub proof fn law_every_unprotected_prohibited_unit_is_masked(readme: Option<ReadmeData>, i: int)
    requires
        0 <= i < 28,
        !is_protected_spec(
            match readme {
                Some(r) => Some(&r),
                None => None,
            },
            PROHIBITED_SERVICE_UNITS@[i]@,
        ),
    ensures
        units_to_mask_spec(readme).contains((PROHIBITED_SERVICE_UNITS@[i], PROHIBITED_SERVICE_REASONS@[i])),
{
    let rows = Seq::new(28, |i: int| (PROHIBITED_SERVICE_UNITS@[i], PROHIBITED_SERVICE_REASONS@[i]));
    let f = |row: (&'static str, &'static str)|
        if is_protected_spec(match readme {
        Some(r) => Some(&r),
        None => None,
    }, row.0@) {
            None
        } else {
            Some(row)
        };
    assert(units_to_mask_spec(readme) == filter_map(rows, f));
    assert(f(rows[i]) == Some((PROHIBITED_SERVICE_UNITS@[i], PROHIBITED_SERVICE_REASONS@[i])));
    lemma_filter_map_keeps(rows, f, i);
}

/// A service the README requires is never masked: no unit queued for masking
/// resolves to a unit the README requires, whatever names either was given.
pub proof fn law_required_never_masked(readme: Option<ReadmeData>, k: int, j: int)
    requires
        0 <= k < units_to_mask_spec(readme).len(),
        0 <= j < required_units_spec(readme).len(),
    ensures
        !eq_ignore_case(
            required_units_spec(readme)[j],
            resolve_spec(unit_aliases(), units_to_mask_spec(readme)[k].0@),
        ),
{
    law_protected_never_masked(readme, k);
    let r = readme.unwrap();
    let u = units_to_mask_spec(readme)[k].0@;
    assert(!is_critical_spec(unit_aliases(), match readme {
        Some(r) => Some(&r),
        None => None,
    }, u));
    assert(!same_service(unit_aliases(), r.critical_services@[j]@, u));
}

impl ServiceManagementTask {
    pub fn new() -> (t: Self)
        ensures
            t.name@ == "Service Management"@,
            t.description@ == "Mask insecure services, protect critical ones"@,
            !t.dry_run,
            t.readme_data is None,
    {
        ServiceManagementTask {
            name: String::from_str("Service Management"),
            description: String::from_str("Mask insecure services, protect critical ones"),
            dry_run: false,
            readme_data: None,
        }
    }

    pub fn set_readme_data(&mut self, data: ReadmeData)
        ensures
            final(self).readme_data == Some(data),
            final(self).name == old(self).name,
            final(self).description == old(self).description,
            final(self).dry_run == old(self).dry_run,
    {
        self.readme_data = Some(data);
    }

    /// The units the README requires, by their unit names.
    pub fn required_units(&self) -> (r: Vec<String>)
        ensures
            strs(r@) == required_units_spec(self.readme_data),
    {
        match &self.readme_data {
            None => Vec::new(),
            Some(rd) => {
                let mut out: Vec<String> = Vec::new();
                let n = rd.critical_services.len();
                let mut i: usize = 0;
                while i < n
                    invariant
                        i <= n == rd.critical_services@.len(),
                        strs(out@) == strs(rd.critical_services@).take(i as int).map_values(
                            |s: Seq<char>| resolve_spec(unit_aliases(), s),
                        ),
                    decreases n - i,
                {
                    let u = resolve(rd.critical_services[i].as_str());
                    let ghost before = strs(out@);
                    out.push(u);
                    proof {
                        assert(strs(out@) =~= before.push(u@));
                        assert(strs(rd.critical_services@).take(i + 1) =~= strs(
                            rd.critical_services@,
                        ).take(i as int).push(rd.critical_services@[i as int]@));
                        assert(strs(out@) =~= strs(rd.critical_services@).take(i + 1).map_values(
                            |s: Seq<char>| resolve_spec(unit_aliases(), s),
                        ));
                    }
                    i = i + 1;
                }
                proof {
                    assert(strs(rd.critical_services@).take(n as int) =~= strs(
                        rd.critical_services@,
                    ));
                }
                out
            },
        }
    }

    /// The prohibited units to mask: every one the knowledge table lists,
    /// except those the README requires or that are never stopped.
    pub fn units_to_mask(&self) -> (r: Vec<(&'static str, &'static str)>)
        ensures
            r@ == units_to_mask_spec(self.readme_data),
    {
        let ghost rows = Seq::new(
            28,
            |i: int| (PROHIBITED_SERVICE_UNITS@[i], PROHIBITED_SERVICE_REASONS@[i]),
        );
        let ghost rd = match &self.readme_data {
            Some(r) => Some(r),
            None => None,
        };
        let mut out: Vec<(&'static str, &'static str)> = Vec::new();
        let mut i: usize = 0;
        while i < 28
            invariant
                i <= 28,
                rows == Seq::new(
                    28,
                    |i: int| (PROHIBITED_SERVICE_UNITS@[i], PROHIBITED_SERVICE_REASONS@[i]),
                ),
                out@ == filter_map(
                    rows.take(i as int),
                    |row: (&'static str, &'static str)|
                        if is_protected_spec(
                            match self.readme_data {
                                Some(r) => Some(&r),
                                None => None,
                            },
                            row.0@,
                        ) {
                            None
                        } else {
                            Some(row)
                        },
                ),
            decreases 28 - i,
        {
            proof {
                assert(rows.take(i + 1).drop_last() =~= rows.take(i as int));
                assert(rows.take(i + 1).last() == rows[i as int]);
            }
            let unit = PROHIBITED_SERVICE_UNITS[i];
            let protected = is_protected(self.readme_data.as_ref(), unit);
            if !protected {
                out.push((unit, PROHIBITED_SERVICE_REASONS[i]));
            }
            i = i + 1;
        }
        proof {
            assert(rows.take(28) =~= rows);
        }
        out
    }
}

impl Default for ServiceManagementTask {
    fn default() -> (t: Self)
        ensures
            t.name@ == "Service Management"@,
            t.description@ == "Mask insecure services, protect critical ones"@,
            !t.dry_run,
            t.readme_data is None,
    {
        Self::new()
    }
}

} // verus!

verus! {

impl Task for ServiceManagementTask {
    fn name(&self) -> (r: &str)
        ensures
            r@ == self.name@,
    {
        self.name.as_str()
    }

    fn description(&self) -> (r: &str)
        ensures
            r@ == self.description@,
    {
        self.description.as_str()
    }

    fn dry_run(&self) -> (b: bool)
        ensures
            b == self.dry_run,
    {
        self.dry_run
    }

    /// Only the flag changes.
    fn set_dry_run(&mut self, value: bool)
        ensures
            *final(self) == (ServiceManagementTask { dry_run: value, ..*old(self) }),
    {
        self.dry_run = value;
    }
}

} // verus!

verus! {

/// What a dry run reports.
pub fn dry_run_message(required: usize, to_mask: usize) -> (r: String)
    ensures
        r@ == "DRY RUN: would protect "@ + decimal_string(required as nat) + " services and mask up to "@ + decimal_string(to_mask as nat) + "."@,
{
    let parts = ["DRY RUN: would protect ", " services and mask up to ", "."];
    let r = format_counts(&parts, &[required, to_mask]);
    proof {
        reveal_with_fuel(interleave, 3);
        assert(crate::text::views(parts@) =~= seq![parts[0]@, parts[1]@, parts[2]@]);
        assert(Seq::<char>::empty() + r@ =~= r@);
    }
    r
}

/// What a finished run reports.
pub fn summary_message(changed: usize, not_installed: usize) -> (r: String)
    ensures
        r@ == decimal_string(changed as nat) + " services changed, "@ + decimal_string(not_installed as nat) + " not installed."@,
{
    let parts = ["", " services changed, ", " not installed."];
    let r = format_counts(&parts, &[changed, not_installed]);
    proof {
        reveal_strlit("");
        reveal_with_fuel(interleave, 3);
        assert(crate::text::views(parts@) =~= seq![parts[0]@, parts[1]@, parts[2]@]);
        assert(Seq::<char>::empty() + r@ =~= r@);
    }
    r
}


/// One change a service run asks for.
#[derive(Clone, Debug, PartialEq, Eq)]
pub enum ServiceStep {
    /// Keep a unit the README requires enabled and running.
    Protect(String),
    /// Mask an insecure unit, for the reason given.
    Mask(&'static str, &'static str),
}

/// A [`ServiceStep`], its unit as a sequence.
pub enum ServiceStepView {
    Protect(Seq<char>),
    Mask(&'static str, &'static str),
}

pub open spec fn service_step_view(s: ServiceStep) -> ServiceStepView {
    match s {
        ServiceStep::Protect(u) => ServiceStepView::Protect(u@),
        ServiceStep::Mask(u, why) => ServiceStepView::Mask(u, why),
    }
}

/// The change asked for once `k` changes are done: every required unit is
/// protected first, then the insecure units are masked, then nothing.
pub open spec fn service_next(
    required: Seq<Seq<char>>,
    to_mask: Seq<(&'static str, &'static str)>,
    k: nat,
) -> Option<ServiceStepView> {
    if k < required.len() {
        Some(ServiceStepView::Protect(required[k as int]))
    } else if k < required.len() + to_mask.len() {
        Some(ServiceStepView::Mask(to_mask[k - required.len()].0, to_mask[k - required.len()].1))
    } else {
        None
    }
}

/// The unit a step is about.
pub open spec fn step_unit(s: ServiceStepView) -> Seq<char> {
    match s {
        ServiceStepView::Protect(u) => u,
        ServiceStepView::Mask(u, _) => u@,
    }
}

/// Nothing is masked before every unit the README requires has been
/// protected: a mask step comes only after all the protect steps.
pub proof fn law_protect_before_mask(
    required: Seq<Seq<char>>,
    to_mask: Seq<(&'static str, &'static str)>,
    k: nat,
)
    ensures
        service_next(required, to_mask, k) matches Some(ServiceStepView::Mask(..)) ==> k
            >= required.len(),
        service_next(required, to_mask, k) matches Some(ServiceStepView::Protect(..)) ==> k
            < required.len(),
{
}

/// A service run in progress: the units to protect and to mask, how many
/// changes are done, and what they came to.
pub struct ServiceRun {
    required: Vec<String>,
    to_mask: Vec<(&'static str, &'static str)>,
    done: usize,
    tally: Tally,
}

pub open spec fn at_least_zero(n: i32) -> nat {
    if n < 0 {
        0
    } else {
        n as nat
    }
}

fn to_count(n: i32) -> (r: usize)
    ensures
        r == at_least_zero(n),
{
    if n < 0 {
        0
    } else {
        n as usize
    }
}

impl ServiceRun {
    pub closed spec fn required(&self) -> Seq<Seq<char>> {
        strs(self.required@)
    }

    pub closed spec fn to_mask(&self) -> Seq<(&'static str, &'static str)> {
        self.to_mask@
    }

    pub closed spec fn done(&self) -> nat {
        self.done as nat
    }

    pub closed spec fn tally(&self) -> TallyView {
        self.tally.state()
    }

    /// A run that will protect `required` and then mask `to_mask`.
    pub fn new(required: Vec<String>, to_mask: Vec<(&'static str, &'static str)>) -> (r: Self)
        ensures
            r.required() == strs(required@),
            r.to_mask() == to_mask@,
            r.done() == 0,
            r.tally() == crate::task::tally_of(Seq::empty()),
    {
        ServiceRun { required, to_mask, done: 0, tally: Tally::new() }
    }

    /// The change to make next, or `None` when the run is over.
    pub fn next(&self) -> (r: Option<ServiceStep>)
        ensures
            match r {
                Some(s) => service_next(self.required(), self.to_mask(), self.done()) == Some(
                    service_step_view(s),
                ),
                None => service_next(self.required(), self.to_mask(), self.done()) is None,
            },
    {
        let k = self.done;
        let n = self.required.len();
        if k < n {
            Some(ServiceStep::Protect(self.required[k].clone()))
        } else if k - n < self.to_mask.len() {
            let (unit, why) = self.to_mask[k - n];
            Some(ServiceStep::Mask(unit, why))
        } else {
            None
        }
    }

    /// Record how the change [`Self::next`] asked for came out: made, not
    /// applying because the unit is not installed, or failed.
    pub fn answer(&mut self, outcome: Outcome)
        requires
            service_next(old(self).required(), old(self).to_mask(), old(self).done()) is Some,
        ensures
            final(self).required() == old(self).required(),
            final(self).to_mask() == old(self).to_mask(),
            final(self).done() == if old(self).done() < usize::MAX {
                old(self).done() + 1
            } else {
                old(self).done()
            },
            final(self).tally() == tally_after(
                old(self).tally(),
                step_unit(service_next(old(self).required(), old(self).to_mask(), old(self).done())->0),
                outcome,
                Wording::Colon,
            ),
    {
        let k = self.done;
        let n = self.required.len();
        if k < n {
            let unit = self.required[k].clone();
            self.tally.record(unit.as_str(), outcome);
        } else {
            let (unit, _why) = self.to_mask[k - n];
            self.tally.record(unit, outcome);
        }
        // A run has far fewer steps than a counter holds; the cap only
        // keeps the count from wrapping.
        if k < usize::MAX {
            self.done = k + 1;
        }
    }

    /// Close the run into `result`: the counts, whether anything failed and
    /// why, and how many units changed and how many are not installed.
    pub fn finish(&self, result: &mut TaskResult)
        ensures
            final(result).items_succeeded == self.tally().succeeded,
            final(result).items_skipped == self.tally().skipped,
            final(result).success == (self.tally().failures.len() == 0),
            final(result).message@ == decimal_string(at_least_zero(self.tally().succeeded))
                + " services changed, "@ + decimal_string(at_least_zero(self.tally().skipped))
                + " not installed."@,
            opt_view(final(result).error_details) == details_of(self.tally().failures),
            final(result).task_name == old(result).task_name,
            final(result).items_attempted == old(result).items_attempted,
    {
        let changed = to_count(self.tally.succeeded());
        let missing = to_count(self.tally.skipped());
        self.tally.finish(result, summary_message(changed, missing));
    }
}

} // verus!
