//! Software: the packages the README requires are installed, and the tools
//! that are always prohibited, with those the README prohibits, are purged,
//! unless the README requires them.
use vstd::prelude::*;
use crate::task::Task;
use crate::text::{decimal_string, format_counts, interleave};
use crate::knowledge::{
    ALWAYS_PROHIBITED_PACKAGES, ALWAYS_PROHIBITED_REASONS, PACKAGE_APT_IDS, PACKAGE_NAMES,
};
use crate::models::{ReadmeData, SoftwareRequirement};
use crate::readme_services::alias_row;
use crate::text::{
    chars_of, eq_chars, eq_ignore_case, eq_ignore_case_chars, lowercase, lowercase_chars, seqs,
    string_of, strs, trim, trim_chars,
};

verus! {

pub struct SoftwareManagementTask {
    pub name: String,
    pub description: String,
    pub dry_run: bool,
    pub readme_data: Option<ReadmeData>,
}

impl SoftwareManagementTask {
    pub fn new() -> (t: Self)
        ensures
            t.name@ == "Software Management"@,
            t.description@ == "Purge prohibited packages, install required ones"@,
            !t.dry_run,
            t.readme_data is None,
    {
        SoftwareManagementTask {
            name: String::from_str("Software Management"),
            description: String::from_str("Purge prohibited packages, install required ones"),
            dry_run: false,
            readme_data: None,
        }
    }

    pub fn set_readme_data(&mut self, readme: &ReadmeData)
        ensures
            final(self).readme_data is Some,
            final(self).name == old(self).name,
            final(self).description == old(self).description,
            final(self).dry_run == old(self).dry_run,
    {
        self.readme_data = Some(readme.clone());
    }
}

impl Default for SoftwareManagementTask {
    fn default() -> (t: Self)
        ensures
            t.name@ == "Software Management"@,
            t.description@ == "Purge prohibited packages, install required ones"@,
            !t.dry_run,
            t.readme_data is None,
    {
        Self::new()
    }
}

/// The package table as `(software name, apt package)` rows.
pub open spec fn package_rows() -> Seq<(&'static str, &'static str)> {
    Seq::new(36, |i: int| (PACKAGE_NAMES@[i], PACKAGE_APT_IDS@[i]))
}

/// The apt package a README's software name stands for: that of the first
/// row whose name is the trimmed name, ASCII case aside.
pub open spec fn package_id_spec(name: Seq<char>) -> Option<Seq<char>> {
    match alias_row(package_rows(), trim(name), 0) {
        Some(i) => Some(package_rows()[i].1@),
        None => None,
    }
}

/// Resolve a README's software name to an apt package.
pub fn resolve_package_id(name: &str) -> (r: Option<String>)
    ensures
        match r {
            Some(s) => package_id_spec(name@) == Some(s@),
            None => package_id_spec(name@) is None,
        },
{
    let t = trim_chars(&chars_of(name));
    let mut k: usize = 0;
    while k < 36
        invariant
            k <= 36,
            t@ == trim(name@),
            alias_row(package_rows(), t@, 0) == alias_row(package_rows(), t@, k as nat),
        decreases 36 - k,
    {
        if eq_ignore_case_chars(&chars_of(PACKAGE_NAMES[k]), &t) {
            proof {
                assert(package_rows()[k as int].0 == PACKAGE_NAMES@[k as int]);
            }
            return Some(string_of(&chars_of(PACKAGE_APT_IDS[k])));
        }
        proof {
            assert(package_rows()[k as int].0 == PACKAGE_NAMES@[k as int]);
        }
        k = k + 1;
    }
    None
}

/// The required packages, each once, and the requirements no package
/// matches, after the first `n` requirements.
pub open spec fn required_state(reqs: Seq<SoftwareRequirement>, n: nat) -> (
    Seq<Seq<char>>,
    Seq<Seq<char>>,
)
    decreases n,
{
    if n == 0 {
        (seq![], seq![])
    } else {
        let (resolved, unresolved) = required_state(reqs, (n - 1) as nat);
        let name = reqs[n - 1].name@;
        match package_id_spec(name) {
            Some(id) => if resolved.contains(id) {
                (resolved, unresolved)
            } else {
                (resolved.push(id), unresolved)
            },
            None => (resolved, unresolved.push(name)),
        }
    }
}

pub open spec fn required_spec(r: ReadmeData) -> (Seq<Seq<char>>, Seq<Seq<char>>) {
    required_state(r.required_software@, r.required_software@.len())
}

fn contains_string(v: &Vec<String>, x: &Vec<char>) -> (b: bool)
    ensures
        b == strs(v@).contains(x@),
{
    let n = v.len();
    let mut i: usize = 0;
    while i < n
        invariant
            i <= n == v.len(),
            forall|k: int| 0 <= k < i ==> strs(v@)[k] != x@,
        decreases n - i,
    {
        if eq_chars(&chars_of(v[i].as_str()), x) {
            assert(strs(v@)[i as int] == x@);
            return true;
        }
        i = i + 1;
    }
    false
}

/// The apt packages the README's required software resolves to, each once,
/// and the requirements that match no package, which are reported rather
/// than dropped.
pub fn required_packages(readme: &ReadmeData) -> (r: (Vec<String>, Vec<String>))
    ensures
        (strs(r.0@), strs(r.1@)) == required_spec(*readme),
{
    let reqs = &readme.required_software;
    let mut resolved: Vec<String> = Vec::new();
    let mut unresolved: Vec<String> = Vec::new();
    let n = reqs.len();
    let mut i: usize = 0;
    while i < n
        invariant
            i <= n == reqs@.len(),
            (strs(resolved@), strs(unresolved@)) == required_state(reqs@, i as nat),
        decreases n - i,
    {
        let name = reqs[i].name.as_str();
        match resolve_package_id(name) {
            Some(id) => {
                if !contains_string(&resolved, &chars_of(id.as_str())) {
                    let ghost before = strs(resolved@);
                    resolved.push(id);
                    proof {
                        assert(strs(resolved@) =~= before.push(id@));
                    }
                }
            },
            None => {
                let ghost before = strs(unresolved@);
                let s = string_of(&chars_of(name));
                unresolved.push(s);
                proof {
                    assert(strs(unresolved@) =~= before.push(reqs@[i as int].name@));
                }
            },
        }
        i = i + 1;
    }
    (resolved, unresolved)
}

/// `out` with `(name, why)` added unless the name is required or already
/// listed.
pub open spec fn add_prohibited(
    out: Seq<(Seq<char>, Seq<char>)>,
    required: Seq<Seq<char>>,
    name: Seq<char>,
    why: Seq<char>,
) -> Seq<(Seq<char>, Seq<char>)> {
    if required.contains(name) || (exists|k: int| 0 <= k < out.len() && (#[trigger] out[k]).0 == name) {
        out
    } else {
        out.push((name, why))
    }
}

/// After the first `n` always-prohibited packages.
pub open spec fn always_state(required: Seq<Seq<char>>, n: nat) -> Seq<(Seq<char>, Seq<char>)>
    decreases n,
{
    if n == 0 {
        seq![]
    } else {
        add_prohibited(
            always_state(required, (n - 1) as nat),
            required,
            ALWAYS_PROHIBITED_PACKAGES@[n - 1]@,
            ALWAYS_PROHIBITED_REASONS@[n - 1]@,
        )
    }
}

/// A README's prohibited entry as a package: the one it resolves to, or the
/// entry lowercased.
pub open spec fn prohibited_name(entry: Seq<char>) -> Seq<char> {
    match package_id_spec(entry) {
        Some(id) => id,
        None => lowercase(entry),
    }
}

/// After the first `n` of the README's prohibited entries.
pub open spec fn readme_state(
    start: Seq<(Seq<char>, Seq<char>)>,
    required: Seq<Seq<char>>,
    entries: Seq<Seq<char>>,
    n: nat,
) -> Seq<(Seq<char>, Seq<char>)>
    decreases n,
{
    if n == 0 {
        start
    } else {
        add_prohibited(
            readme_state(start, required, entries, (n - 1) as nat),
            required,
            prohibited_name(entries[n - 1]),
            "the README prohibits it"@,
        )
    }
}

pub open spec fn prohibited_spec(readme: Option<ReadmeData>) -> Seq<(Seq<char>, Seq<char>)> {
    let required = match readme {
        Some(r) => required_spec(r).0,
        None => seq![],
    };
    let always = always_state(required, 29);
    match readme {
        Some(r) => readme_state(
            always,
            required,
            strs(r.prohibited_software@),
            r.prohibited_software@.len(),
        ),
        None => always,
    }
}

/// Is a package queued under this name?
pub open spec fn lists_package(out: Seq<(Seq<char>, Seq<char>)>, name: Seq<char>) -> bool {
    exists|k: int| 0 <= k < out.len() && (#[trigger] out[k]).0 == name
}

proof fn lemma_add_prohibited(
    out: Seq<(Seq<char>, Seq<char>)>,
    required: Seq<Seq<char>>,
    name: Seq<char>,
    why: Seq<char>,
    other: Seq<char>,
)
    ensures
        lists_package(out, other) ==> lists_package(add_prohibited(out, required, name, why), other),
        !required.contains(name) ==> lists_package(add_prohibited(out, required, name, why), name),
{
    let res = add_prohibited(out, required, name, why);
    if lists_package(out, other) {
        let k = choose|k: int| 0 <= k < out.len() && (#[trigger] out[k]).0 == other;
        assert(res[k].0 == other);
    }
    if !required.contains(name) && !(exists|k: int|
        0 <= k < out.len() && (#[trigger] out[k]).0 == name) {
        assert(res[out.len() as int].0 == name);
    }
}

proof fn lemma_readme_state_keeps(
    start: Seq<(Seq<char>, Seq<char>)>,
    required: Seq<Seq<char>>,
    entries: Seq<Seq<char>>,
    m: nat,
    n: nat,
    name: Seq<char>,
)
    requires
        m <= n,
        lists_package(readme_state(start, required, entries, m), name),
    ensures
        lists_package(readme_state(start, required, entries, n), name),
    decreases n,
{
    if n > m {
        lemma_readme_state_keeps(start, required, entries, m, (n - 1) as nat, name);
        lemma_add_prohibited(
            readme_state(start, required, entries, (n - 1) as nat),
            required,
            prohibited_name(entries[n - 1]),
            "the README prohibits it"@,
            name,
        );
    }
}

proof fn lemma_always_state_keeps(required: Seq<Seq<char>>, m: nat, n: nat, name: Seq<char>)
    requires
        m <= n,
        lists_package(always_state(required, m), name),
    ensures
        lists_package(always_state(required, n), name),
    decreases n,
{
    if n > m {
        lemma_always_state_keeps(required, m, (n - 1) as nat, name);
        lemma_add_prohibited(
            always_state(required, (n - 1) as nat),
            required,
            ALWAYS_PROHIBITED_PACKAGES@[n - 1]@,
            ALWAYS_PROHIBITED_REASONS@[n - 1]@,
            name,
        );
    }
}

/// A README's prohibited entry is queued under the apt package it stands
/// for when the package table knows it (so `Google Chrome` is purged as
/// `google-chrome-stable`), and under its lowercased text otherwise, unless
/// the README also requires that package.
pub proof fn law_readme_prohibited_entries_are_queued_as_packages(r: ReadmeData, j: int)
    requires
        0 <= j < r.prohibited_software@.len(),
    ensures
        ({
            let e = r.prohibited_software@[j]@;
            let required = required_spec(r).0;
            match package_id_spec(e) {
                Some(id) => !required.contains(id) ==> lists_package(prohibited_spec(Some(r)), id),
                None => !required.contains(lowercase(e)) ==> lists_package(
                    prohibited_spec(Some(r)),
                    lowercase(e),
                ),
            }
        }),
{
    let entries = strs(r.prohibited_software@);
    let required = required_spec(r).0;
    let always = always_state(required, 29);
    let e = r.prohibited_software@[j]@;
    assert(entries[j] == e);
    let name = prohibited_name(e);
    if !required.contains(name) {
        lemma_add_prohibited(
            readme_state(always, required, entries, j as nat),
            required,
            name,
            "the README prohibits it"@,
            name,
        );
        lemma_readme_state_keeps(
            always,
            required,
            entries,
            (j + 1) as nat,
            r.prohibited_software@.len(),
            name,
        );
    }
}

/// Every always-prohibited tool is queued, with or without a README, unless
/// the README requires it.
pub proof fn law_always_prohibited_packages_are_queued(readme: Option<ReadmeData>, i: int)
    requires
        0 <= i < 29,
    ensures
        ({
            let required = match readme {
                Some(r) => required_spec(r).0,
                None => seq![],
            };
            !required.contains(ALWAYS_PROHIBITED_PACKAGES@[i]@) ==> lists_package(
                prohibited_spec(readme),
                ALWAYS_PROHIBITED_PACKAGES@[i]@,
            )
        }),
{
    let required = match readme {
        Some(r) => required_spec(r).0,
        None => Seq::<Seq<char>>::empty(),
    };
    let name = ALWAYS_PROHIBITED_PACKAGES@[i]@;
    if !required.contains(name) {
        lemma_add_prohibited(
            always_state(required, i as nat),
            required,
            name,
            ALWAYS_PROHIBITED_REASONS@[i]@,
            name,
        );
        lemma_always_state_keeps(required, (i + 1) as nat, 29, name);
        match readme {
            Some(r) => {
                lemma_readme_state_keeps(
                    always_state(required, 29),
                    required,
                    strs(r.prohibited_software@),
                    0,
                    r.prohibited_software@.len(),
                    name,
                );
            },
            None => {},
        }
    }
}

pub open spec fn pair_views(v: Seq<(String, String)>) -> Seq<(Seq<char>, Seq<char>)> {
    v.map_values(|p: (String, String)| (p.0@, p.1@))
}

fn add_prohibited_exec(out: &mut Vec<(String, String)>, required: &Vec<String>, name: Vec<char>, why: Vec<char>)
    ensures
        pair_views(final(out)@) == add_prohibited(pair_views(old(out)@), strs(required@), name@, why@),
{
    if contains_string(required, &name) {
        return;
    }
    let n = out.len();
    let mut k: usize = 0;
    while k < n
        invariant
            k <= n == out.len(),
            forall|m: int| 0 <= m < k ==> (#[trigger] pair_views(out@)[m]).0 != name@,
        decreases n - k,
    {
        if eq_chars(&chars_of(out[k].0.as_str()), &name) {
            assert(pair_views(out@)[k as int].0 == name@);
            return;
        }
        k = k + 1;
    }
    let ghost before = pair_views(out@);
    let p = (string_of(&name), string_of(&why));
    out.push(p);
    proof {
        assert(pair_views(out@) =~= before.push((name@, why@)));
    }
}

/// The packages to purge, each once: the always-prohibited tools, then the
/// README's prohibited software (resolved to a package, or lowercased), all
/// except what the README requires.
pub fn prohibited_packages(readme: Option<&ReadmeData>) -> (r: Vec<(String, String)>)
    ensures
        pair_views(r@) == prohibited_spec(
            match readme {
                Some(x) => Some(*x),
                None => None,
            },
        ),
{
    let ghost owned = match readme {
        Some(x) => Some(*x),
        None => None,
    };
    let required: Vec<String> = match readme {
        Some(r) => required_packages(r).0,
        None => Vec::new(),
    };
    let ghost req = strs(required@);
    proof {
        assert(req == match owned {
            Some(r) => required_spec(r).0,
            None => Seq::<Seq<char>>::empty(),
        });
    }
    let mut out: Vec<(String, String)> = Vec::new();
    let mut i: usize = 0;
    while i < 29
        invariant
            i <= 29,
            req == strs(required@),
            pair_views(out@) == always_state(req, i as nat),
        decreases 29 - i,
    {
        add_prohibited_exec(
            &mut out,
            &required,
            chars_of(ALWAYS_PROHIBITED_PACKAGES[i]),
            chars_of(ALWAYS_PROHIBITED_REASONS[i]),
        );
        i = i + 1;
    }
    match readme {
        None => {},
        Some(r) => {
            let ghost always = pair_views(out@);
            let entries = &r.prohibited_software;
            let n = entries.len();
            let mut j: usize = 0;
            while j < n
                invariant
                    j <= n == entries@.len(),
                    req == strs(required@),
                    pair_views(out@) == readme_state(always, req, strs(entries@), j as nat),
                decreases n - j,
            {
                let e = entries[j].as_str();
                let name = match resolve_package_id(e) {
                    Some(id) => chars_of(id.as_str()),
                    None => lowercase_chars(&chars_of(e)),
                };
                proof {
                    assert(strs(entries@)[j as int] == e@);
                }
                add_prohibited_exec(&mut out, &required, name, chars_of("the README prohibits it"));
                j = j + 1;
            }
        },
    }
    out
}

} // verus!

verus! {

impl Task for SoftwareManagementTask {
    fn name(&self) -> (r: &str)
        ensures
            r@ == self.name@,
    {
        self.name.as_str()
    }

    fn description(&self) -> (r: &str)
        ensures
            r@ == self.description@,
    {
        self.description.as_str()
    }

    fn dry_run(&self) -> (b: bool)
        ensures
            b == self.dry_run,
    {
        self.dry_run
    }

    /// Only the flag changes.
    fn set_dry_run(&mut self, value: bool)
        ensures
            *final(self) == (SoftwareManagementTask { dry_run: value, ..*old(self) }),
    {
        self.dry_run = value;
    }
}

} // verus!

verus! {

/// What is reported on an image without apt.
pub const NO_APT_MESSAGE: &'static str = "apt is not available; no packages were changed.";

/// What a dry run reports.
pub fn dry_run_message(purge: usize, install: usize) -> (r: String)
    ensures
        r@ == "DRY RUN: would purge "@ + decimal_string(purge as nat) + " and install "@ + decimal_string(install as nat) + " packages."@,
{
    let parts = ["DRY RUN: would purge ", " and install ", " packages."];
    let r = format_counts(&parts, &[purge, install]);
    proof {
        reveal_with_fuel(interleave, 3);
        assert(crate::text::views(parts@) =~= seq![parts[0]@, parts[1]@, parts[2]@]);
        assert(Seq::<char>::empty() + r@ =~= r@);
    }
    r
}

/// What a finished run reports.
pub fn summary_message(purged: usize, installed: usize) -> (r: String)
    ensures
        r@ == "Purged "@ + decimal_string(purged as nat) + ", installed "@ + decimal_string(installed as nat) + "."@,
{
    let parts = ["Purged ", ", installed ", "."];
    let r = format_counts(&parts, &[purged, installed]);
    proof {
        reveal_with_fuel(interleave, 3);
        assert(crate::text::views(parts@) =~= seq![parts[0]@, parts[1]@, parts[2]@]);
        assert(Seq::<char>::empty() + r@ =~= r@);
    }
    r
}

} // verus!
