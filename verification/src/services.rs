//! README service names resolved against this platform's unit names, and
//! the services that are never stopped whatever the README says.
use vstd::prelude::*;
use crate::knowledge::{NEVER_DISABLE, SERVICE_DISPLAY_NAMES, SERVICE_UNITS};
use crate::models::ReadmeData;
use crate::readme_services::{is_critical_spec, resolve_spec};
use crate::text::{any_ci, any_ci_exec, chars_of, seqs, split, split_of, views};

verus! {

/// The display-name table as `(display name, unit)` rows.
pub open spec fn unit_aliases() -> Seq<(&'static str, &'static str)> {
    Seq::new(34, |i: int| (SERVICE_DISPLAY_NAMES@[i], SERVICE_UNITS@[i]))
}

fn unit_alias_rows() -> (r: Vec<(&'static str, &'static str)>)
    ensures
        r@ == unit_aliases(),
{
    let v = crate::knowledge::rows(&SERVICE_DISPLAY_NAMES, &SERVICE_UNITS);
    proof {
        assert(v@ =~= unit_aliases());
    }
    v
}

/// Resolve a README display name to a systemd unit.
pub fn resolve(display_name: &str) -> (r: String)
    ensures
        r@ == resolve_spec(unit_aliases(), display_name@),
{
    let rows = unit_alias_rows();
    crate::readme_services::resolve(rows.as_slice(), display_name)
}

/// Does the README list this unit as critical, however it spelled it?
pub fn is_critical(readme: Option<&ReadmeData>, unit: &str) -> (b: bool)
    ensures
        b == is_critical_spec(unit_aliases(), readme, unit@),
{
    let rows = unit_alias_rows();
    crate::readme_services::is_critical(rows.as_slice(), readme, unit)
}

/// A unit is protected when the README calls it critical, or when its name
/// before the first dot is one of the services that are never stopped.
pub open spec fn is_protected_spec(readme: Option<&ReadmeData>, unit: Seq<char>) -> bool {
    is_critical_spec(unit_aliases(), readme, unit) || any_ci(
        views(NEVER_DISABLE@),
        split(unit, '.')[0],
    )
}

/// Must this unit be left running? The scoring engine, the journal and cron
/// are protected even by a README that does not mention them.
pub fn is_protected(readme: Option<&ReadmeData>, unit: &str) -> (b: bool)
    ensures
        b == is_protected_spec(readme, unit@),
{
    if is_critical(readme, unit) {
        return true;
    }
    let pieces = split_of(&chars_of(unit), '.');
    proof {
        assert(seqs(pieces@).len() == pieces@.len());
        assert(split(unit@, '.').len() > 0);
        assert(pieces@[0]@ == split(unit@, '.')[0]);
    }
    any_ci_exec(&NEVER_DISABLE, &pieces[0])
}

} // verus!
