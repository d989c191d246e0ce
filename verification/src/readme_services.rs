//! The README names services the way a person would ("Apache", "Remote
//! Desktop"), and the machine names them the way its service manager does.
//! Resolving the one to the other, with a table of aliases, is what lets a
//! README entry protect a service however it was spelled.
use vstd::prelude::*;
use crate::models::ReadmeData;
use crate::text::{chars_of, eq_ignore_case, eq_ignore_case_chars, string_of, trim, trim_chars};

verus! {

/// The first row at or after `k` whose display name is `name`, ignoring
/// ASCII case.
pub open spec fn alias_row(aliases: Seq<(&str, &str)>, name: Seq<char>, k: nat) -> Option<int>
    decreases aliases.len() - k,
{
    if k >= aliases.len() {
        None
    } else if eq_ignore_case(aliases[k as int].0@, name) {
        Some(k as int)
    } else {
        alias_row(aliases, name, k + 1)
    }
}

/// The service a display name stands for: the name trimmed, then replaced by
/// the service of the first alias it matches, or kept as it is.
pub open spec fn resolve_spec(aliases: Seq<(&str, &str)>, display_name: Seq<char>) -> Seq<char> {
    let t = trim(display_name);
    match alias_row(aliases, t, 0) {
        Some(i) => aliases[i].1@,
        None => t,
    }
}

fn alias_row_exec(aliases: &[(&str, &str)], name: &Vec<char>) -> (r: Option<usize>)
    ensures
        match r {
            Some(i) => alias_row(aliases@, name@, 0) == Some(i as int) && i < aliases@.len(),
            None => alias_row(aliases@, name@, 0) is None,
        },
{
    let n = aliases.len();
    let mut k: usize = 0;
    while k < n
        invariant
            k <= n == aliases@.len(),
            alias_row(aliases@, name@, 0) == alias_row(aliases@, name@, k as nat),
        decreases n - k,
    {
        if eq_ignore_case_chars(&chars_of(aliases[k].0), name) {
            return Some(k);
        }
        k = k + 1;
    }
    None
}

/// Resolve a README's display name to a service name, leaving a name the
/// table does not know as it is (trimmed).
pub fn resolve(aliases: &[(&str, &str)], display_name: &str) -> (r: String)
    ensures
        r@ == resolve_spec(aliases@, display_name@),
{
    let t = trim_chars(&chars_of(display_name));
    match alias_row_exec(aliases, &t) {
        Some(i) => string_of(&chars_of(aliases[i].1)),
        None => string_of(&t),
    }
}

/// Does the README list the service as critical, under any name that
/// resolves to the same service (ASCII case aside)? Without a README nothing
/// is.
pub open spec fn is_critical_spec(
    aliases: Seq<(&str, &str)>,
    readme: Option<&ReadmeData>,
    service_name: Seq<char>,
) -> bool {
    match readme {
        None => false,
        Some(r) => exists|i: int|
            0 <= i < r.critical_services@.len() && #[trigger] same_service(
                aliases,
                r.critical_services@[i]@,
                service_name,
            ),
    }
}

/// Do the two names resolve to the same service, ASCII case aside?
pub open spec fn same_service(aliases: Seq<(&str, &str)>, a: Seq<char>, b: Seq<char>) -> bool {
    eq_ignore_case(resolve_spec(aliases, a), resolve_spec(aliases, b))
}

pub fn is_critical(aliases: &[(&str, &str)], readme: Option<&ReadmeData>, service_name: &str) -> (b:
    bool)
    ensures
        b == is_critical_spec(aliases@, readme, service_name@),
{
    match readme {
        None => false,
        Some(r) => {
            let wanted = chars_of(resolve(aliases, service_name).as_str());
            let n = r.critical_services.len();
            let mut i: usize = 0;
            while i < n
                invariant
                    i <= n == r.critical_services@.len(),
                    readme == Some(r),
                    wanted@ == resolve_spec(aliases@, service_name@),
                    forall|k: int|
                        0 <= k < i ==> !#[trigger] same_service(
                            aliases@,
                            r.critical_services@[k]@,
                            service_name@,
                        ),
                decreases n - i,
            {
                let entry = resolve(aliases, r.critical_services[i].as_str());
                if eq_ignore_case_chars(&chars_of(entry.as_str()), &wanted) {
                    proof {
                        assert(same_service(
                            aliases@,
                            r.critical_services@[i as int]@,
                            service_name@,
                        ));
                        assert(readme.unwrap().critical_services@ == r.critical_services@);
                        assert(readme is Some);
                        let rr = readme.unwrap();
                        assert(0 <= i < rr.critical_services@.len() && same_service(aliases@, rr.critical_services@[i as int]@, service_name@));
                    }
                    return true;
                }
                i = i + 1;
            }
            false
        },
    }
}

} // verus!
