//! What the package manager reports, read into values, and the fixed switches
//! every `apt-get` call carries. Running `apt-get` and `dpkg-query` is the
//! program's; reading their output is here.
use vstd::prelude::*;
use crate::text::{
    chars_of, concat_str, eq_chars, filter_map, lines, lines_of, seqs, slice, split, split_of,
    split_once, split_once_chars, starts_with, starts_with_chars, string_of, trim, trim_chars,
    words, words_of,
};

verus! {

/// The environment that keeps `apt-get` from stopping to ask a question,
/// as `(variable, value)` rows split in two tables.
pub const NONINTERACTIVE_NAMES: [&'static str; 3] = ["DEBIAN_FRONTEND", "DEBIAN_PRIORITY", "LC_ALL"];

pub const NONINTERACTIVE_VALUES: [&'static str; 3] = ["noninteractive", "critical", "C"];

/// Keep a locally modified configuration file rather than the package's new
/// one, so an upgrade does not revert the hardening applied earlier.
pub const KEEP_LOCAL_CONFIG: &'static str =
    "-o Dpkg::Options::=--force-confdef -o Dpkg::Options::=--force-confold";

/// How long a package operation may take, in seconds.
pub const PACKAGE_TIMEOUT_SECS: u64 = 1800;

/// The environment `apt-get` runs with, as `(variable, value)`.
pub fn noninteractive() -> (r: Vec<(&'static str, &'static str)>)
    ensures
        r@.len() == 3,
        forall|i: int|
            0 <= i < 3 ==> (#[trigger] r@[i]) == (NONINTERACTIVE_NAMES@[i], NONINTERACTIVE_VALUES@[i]),
{
    crate::knowledge::rows(&NONINTERACTIVE_NAMES, &NONINTERACTIVE_VALUES)
}

/// The argument string of an `apt-get` call: assume yes, quiet, keep local
/// configuration, then the operation.
pub open spec fn apt_arguments_spec(args: Seq<char>) -> Seq<char> {
    "-y -q "@ + KEEP_LOCAL_CONFIG@ + " "@ + args
}

pub fn apt_arguments(args: &str) -> (r: String)
    ensures
        r@ == apt_arguments_spec(args@),
{
    let mut v = chars_of("-y -q ");
    v = concat_str(&v, KEEP_LOCAL_CONFIG);
    v = concat_str(&v, " ");
    v = concat_str(&v, args);
    string_of(&v)
}

/// What `dpkg-query`'s status says of a package.
pub open spec fn installation_state_spec(out: Seq<char>) -> Seq<char> {
    let t = trim(out);
    if t == "installed"@ {
        "installed"@
    } else if t == "config-files"@ {
        "config-files remain"@
    } else {
        "absent"@
    }
}

/// A package's state from the output of `dpkg-query -W -f=${db:Status-Status}`:
/// installed, removed with its configuration left behind, or absent (the
/// query prints nothing for an unknown package).
pub fn installation_state_of(out: &str) -> (r: String)
    ensures
        r@ == installation_state_spec(out@),
{
    let t = trim_chars(&chars_of(out));
    if eq_chars(&t, &chars_of("installed")) {
        String::from_str("installed")
    } else if eq_chars(&t, &chars_of("config-files")) {
        String::from_str("config-files remain")
    } else {
        String::from_str("absent")
    }
}

/// The `(name, version)` of a `status<TAB>name<TAB>version` line whose status
/// is `installed`; a missing version reads as empty.
pub open spec fn installed_entry(l: Seq<char>) -> Option<(Seq<char>, Seq<char>)> {
    let f = split(l, '\t');
    if f.len() >= 2 && trim(f[0]) == "installed"@ {
        Some((f[1], if f.len() >= 3 { f[2] } else { seq![] }))
    } else {
        None
    }
}

pub open spec fn pair_views(v: Seq<(String, String)>) -> Seq<(Seq<char>, Seq<char>)> {
    v.map_values(|p: (String, String)| (p.0@, p.1@))
}

/// The installed packages in `dpkg-query` output. A package removed but not
/// purged is listed too, and is not installed.
pub fn parse_installed(output: &str) -> (r: Vec<(String, String)>)
    ensures
        pair_views(r@) == filter_map(lines(output@), |l: Seq<char>| installed_entry(l)),
{
    let tv = chars_of(output);
    let ls = lines_of(&tv);
    let ghost all = seqs(ls@);
    let key = chars_of("installed");
    let mut out: Vec<(String, String)> = Vec::new();
    let n = ls.len();
    let mut i: usize = 0;
    while i < n
        invariant
            i <= n == ls.len(),
            all == seqs(ls@),
            all == lines(output@),
            key@ == "installed"@,
            pair_views(out@) == filter_map(all.take(i as int), |l: Seq<char>| installed_entry(l)),
        decreases n - i,
    {
        proof {
            assert(all.take(i + 1).drop_last() =~= all.take(i as int));
            assert(all.take(i + 1).last() == all[i as int]);
        }
        let f = split_of(&ls[i], '\t');
        if f.len() >= 2 && eq_chars(&trim_chars(&f[0]), &key) {
            let version = if f.len() >= 3 {
                string_of(&f[2])
            } else {
                String::new()
            };
            let p = (string_of(&f[1]), version);
            let ghost before = pair_views(out@);
            out.push(p);
            proof {
                assert(pair_views(out@) =~= before.push((p.0@, p.1@)));
            }
        }
        i = i + 1;
    }
    proof {
        assert(all.take(n as int) =~= all);
    }
    out
}

/// The candidate version: the first word after `(`, or empty.
pub open spec fn candidate_of(rest: Seq<char>) -> Seq<char> {
    match split_once(rest, '(') {
        Some((_, r)) => if words(r).len() > 0 {
            words(r)[0]
        } else {
            seq![]
        },
        None => seq![],
    }
}

/// `(name, current, candidate)` of an `Inst name [current] (candidate ...)`
/// line. A package being newly installed has no current version and is not
/// an upgrade.
pub open spec fn upgrade_entry(l: Seq<char>) -> Option<(Seq<char>, Seq<char>, Seq<char>)> {
    if !starts_with(l, "Inst "@) {
        None
    } else {
        match split_once(l.skip(5), ' ') {
            None => None,
            Some((name, rest)) => if rest.len() > 0 && rest[0] == '[' {
                match split_once(rest.drop_first(), ']') {
                    Some((current, _)) => Some((name, current, candidate_of(rest))),
                    None => None,
                }
            } else {
                None
            },
        }
    }
}

pub open spec fn triple_views(v: Seq<(String, String, String)>) -> Seq<
    (Seq<char>, Seq<char>, Seq<char>),
> {
    v.map_values(|p: (String, String, String)| (p.0@, p.1@, p.2@))
}

fn candidate_exec(rest: &Vec<char>) -> (r: Vec<char>)
    ensures
        r@ == candidate_of(rest@),
{
    match split_once_chars(rest, '(') {
        Some((_, r)) => {
            let w = words_of(&r);
            if w.len() > 0 {
                slice(&w[0], 0, w[0].len())
            } else {
                Vec::new()
            }
        },
        None => Vec::new(),
    }
}

fn upgrade_entry_exec(l: &Vec<char>) -> (r: Option<(Vec<char>, Vec<char>, Vec<char>)>)
    ensures
        match r {
            Some((a, b, c)) => upgrade_entry(l@) == Some((a@, b@, c@)),
            None => upgrade_entry(l@) is None,
        },
{
    let inst = chars_of("Inst ");
    proof {
        reveal_strlit("Inst ");
    }
    if !starts_with_chars(l, &inst) {
        return None;
    }
    let after = slice(l, 5, l.len());
    proof {
        assert(after@ =~= l@.skip(5));
    }
    match split_once_chars(&after, ' ') {
        None => None,
        Some((name, rest)) => {
            if rest.len() > 0 && rest[0] == '[' {
                let inner = slice(&rest, 1, rest.len());
                proof {
                    assert(inner@ =~= rest@.drop_first());
                }
                match split_once_chars(&inner, ']') {
                    Some((current, _)) => {
                        let cand = candidate_exec(&rest);
                        Some((name, current, cand))
                    },
                    None => None,
                }
            } else {
                None
            }
        },
    }
}

/// The upgrades `apt-get --just-print upgrade` would make, as `(name,
/// current version, candidate version)`.
pub fn parse_simulated_upgrade(output: &str) -> (r: Vec<(String, String, String)>)
    ensures
        triple_views(r@) == filter_map(lines(output@), |l: Seq<char>| upgrade_entry(l)),
{
    let tv = chars_of(output);
    let ls = lines_of(&tv);
    let ghost all = seqs(ls@);
    let mut out: Vec<(String, String, String)> = Vec::new();
    let n = ls.len();
    let mut i: usize = 0;
    while i < n
        invariant
            i <= n == ls.len(),
            all == seqs(ls@),
            all == lines(output@),
            triple_views(out@) == filter_map(all.take(i as int), |l: Seq<char>| upgrade_entry(l)),
        decreases n - i,
    {
        proof {
            assert(all.take(i + 1).drop_last() =~= all.take(i as int));
            assert(all.take(i + 1).last() == all[i as int]);
        }
        match upgrade_entry_exec(&ls[i]) {
            Some((a, b, c)) => {
                let t = (string_of(&a), string_of(&b), string_of(&c));
                let ghost before = triple_views(out@);
                out.push(t);
                proof {
                    assert(triple_views(out@) =~= before.push((t.0@, t.1@, t.2@)));
                }
            },
            None => {},
        }
        i = i + 1;
    }
    proof {
        assert(all.take(n as int) =~= all);
    }
    out
}

} // verus!
