//! Entries in `/etc/hosts` beyond the installer's own. A planted line can send
//! the update server or the antivirus mirror to nowhere without anything else
//! on the machine looking wrong.
use vstd::prelude::*;
use crate::task::Task;
use crate::text::{decimal_string, format_counts, interleave};
use crate::file_ops::{is_active_chars, line_is_active};
use crate::text::{
    any_ci, any_ci_exec, chars_of, eq_chars, eq_ignore_case, eq_ignore_case_chars, filter_map,
    lines, lines_of, lower_ascii_chars, lower_ascii_str, seqs, starts_with, starts_with_chars,
    string_of, strs, trim, trim_chars, views, words, words_of,
};
use crate::text::lemma_filter_map_keeps;

verus! {

pub const HOSTS_FILE_PATH: &'static str = "/etc/hosts";

/// The names the installer writes into `/etc/hosts`.
pub const ALLOWED_HOSTS: [&'static str; 9] = [
    "localhost",
    "localhost.localdomain",
    "ip6-localhost",
    "ip6-loopback",
    "ip6-localnet",
    "ip6-mcastprefix",
    "ip6-allnodes",
    "ip6-allrouters",
    "ip6-allhosts",
];

pub struct HostsFileAuditTask {
    pub name: String,
    pub description: String,
    pub dry_run: bool,
}

impl HostsFileAuditTask {
    pub fn new() -> (t: Self)
        ensures
            t.name@ == "Hosts File Audit"@,
            t.description@ == "Remove unauthorised /etc/hosts entries"@,
            !t.dry_run,
    {
        HostsFileAuditTask {
            name: String::from_str("Hosts File Audit"),
            description: String::from_str("Remove unauthorised /etc/hosts entries"),
            dry_run: false,
        }
    }
}

impl Default for HostsFileAuditTask {
    fn default() -> (t: Self)
        ensures
            t.name@ == "Hosts File Audit"@,
            t.description@ == "Remove unauthorised /etc/hosts entries"@,
            !t.dry_run,
    {
        Self::new()
    }
}

/// Is the address this machine itself, or one of the installer's IPv6
/// multicast and local-net entries? Compared without regard to ASCII case.
pub open spec fn is_local_spec(address: Seq<char>) -> bool {
    let a = lower_ascii_str(address);
    starts_with(a, "127."@) || a == "0.0.0.0"@ || a == "::1"@ || a == "::"@ || starts_with(a, "ff0"@)
        || starts_with(a, "fe00:"@)
}

pub fn is_local_address(address: &str) -> (b: bool)
    ensures
        b == is_local_spec(address@),
{
    let a = lower_ascii_chars(&chars_of(address));
    starts_with_chars(&a, &chars_of("127.")) || eq_chars(&a, &chars_of("0.0.0.0")) || eq_chars(
        &a,
        &chars_of("::1"),
    ) || eq_chars(&a, &chars_of("::")) || starts_with_chars(&a, &chars_of("ff0"))
        || starts_with_chars(&a, &chars_of("fe00:"))
}

/// May a name stand in `/etc/hosts`: one of the installer's, or the machine's
/// own hostname when it has one?
pub open spec fn name_allowed(name: Seq<char>, hostname: Seq<char>) -> bool {
    any_ci(views(ALLOWED_HOSTS@), name) || (hostname.len() > 0 && eq_ignore_case(name, hostname))
}

/// An entry is allowed when it maps a local address to allowed names only. A
/// line with no fields is allowed: it defines nothing.
pub open spec fn is_allowed_spec(line: Seq<char>, hostname: Seq<char>) -> bool {
    let f = words(line);
    f.len() == 0 || (is_local_spec(f[0]) && forall|k: int|
        1 <= k < f.len() ==> name_allowed(#[trigger] f[k], hostname))
}

/// Is this hosts entry one the installer would have written?
pub fn is_allowed(line: &str, hostname: &str) -> (b: bool)
    ensures
        b == is_allowed_spec(line@, hostname@),
{
    is_allowed_chars(&chars_of(line), &chars_of(hostname))
}

fn is_allowed_chars(line: &Vec<char>, hostname: &Vec<char>) -> (b: bool)
    ensures
        b == is_allowed_spec(line@, hostname@),
{
    let f = words_of(line);
    if f.len() == 0 {
        return true;
    }
    let address = string_of(&f[0]);
    proof {
        assert(address@ == words(line@)[0]);
    }
    if !is_local_address(address.as_str()) {
        return false;
    }
    let n = f.len();
    let mut k: usize = 1;
    while k < n
        invariant
            1 <= k <= n == f.len(),
            seqs(f@) == words(line@),
            is_local_spec(words(line@)[0]),
            forall|m: int| 1 <= m < k ==> name_allowed(#[trigger] seqs(f@)[m], hostname@),
        decreases n - k,
    {
        let name = &f[k];
        let ok = any_ci_exec(&ALLOWED_HOSTS, name) || (hostname.len() > 0 && eq_ignore_case_chars(
            name,
            hostname,
        ));
        if !ok {
            assert(!name_allowed(seqs(f@)[k as int], hostname@));
            assert(!name_allowed(words(line@)[k as int], hostname@));
            return false;
        }
        k = k + 1;
    }
    proof {
        let w = words(line@);
        assert(address@ == w[0]);
        assert forall|m: int| 1 <= m < w.len() implies name_allowed(#[trigger] w[m], hostname@) by {
            assert(name_allowed(seqs(f@)[m], hostname@));
        }
    }
    true
}

/// The active lines that are not allowed, trimmed.
pub open spec fn unauthorised_spec(text: Seq<char>, hostname: Seq<char>) -> Seq<Seq<char>> {
    filter_map(
        lines(text),
        |l: Seq<char>|
            if line_is_active(l) && !is_allowed_spec(l, hostname) {
                Some(trim(l))
            } else {
                None
            },
    )
}

/// One foreign name is enough: an active line whose address is not this
/// machine, or that carries any name (first or later) that is neither the
/// installer's nor the hostname, is not allowed, and the audit reports it.
pub proof fn law_one_foreign_name_reports_the_line(text: Seq<char>, hostname: Seq<char>, i: int)
    requires
        0 <= i < lines(text).len(),
        line_is_active(lines(text)[i]),
        words(lines(text)[i]).len() > 0,
        !is_local_spec(words(lines(text)[i])[0]) || exists|k: int|
            1 <= k < words(lines(text)[i]).len() && !name_allowed(
                #[trigger] words(lines(text)[i])[k],
                hostname,
            ),
    ensures
        !is_allowed_spec(lines(text)[i], hostname),
        unauthorised_spec(text, hostname).contains(trim(lines(text)[i])),
{
    let l = lines(text)[i];
    let f = |l: Seq<char>|
        if line_is_active(l) && !is_allowed_spec(l, hostname) {
            Some(trim(l))
        } else {
            None
        };
    if is_local_spec(words(l)[0]) {
        let k = choose|k: int| 1 <= k < words(l).len() && !name_allowed(#[trigger] words(l)[k], hostname);
        assert(!name_allowed(words(l)[k], hostname));
    }
    assert(!is_allowed_spec(l, hostname));
    assert(unauthorised_spec(text, hostname) == filter_map(lines(text), f));
    assert(f(lines(text)[i]) == Some(trim(l)));
    lemma_filter_map_keeps(lines(text), f, i);
}

/// The entries of a hosts file that the installer did not write, as they
/// read with the surrounding whitespace trimmed.
pub fn unauthorised_entries(text: &str, hostname: &str) -> (r: Vec<String>)
    ensures
        strs(r@) == unauthorised_spec(text@, hostname@),
{
    let tv = chars_of(text);
    let hv = chars_of(hostname);
    let ls = lines_of(&tv);
    let ghost all = seqs(ls@);
    let mut out: Vec<String> = Vec::new();
    let n = ls.len();
    let mut i: usize = 0;
    while i < n
        invariant
            i <= n == ls.len(),
            all == seqs(ls@),
            all == lines(text@),
            hv@ == hostname@,
            strs(out@) == filter_map(
                all.take(i as int),
                |l: Seq<char>|
                    if line_is_active(l) && !is_allowed_spec(l, hostname@) {
                        Some(trim(l))
                    } else {
                        None
                    },
            ),
        decreases n - i,
    {
        proof {
            assert(all.take(i + 1).drop_last() =~= all.take(i as int));
            assert(all.take(i + 1).last() == all[i as int]);
        }
        if is_active_chars(&ls[i]) && !is_allowed_chars(&ls[i], &hv) {
            let s = string_of(&trim_chars(&ls[i]));
            let ghost before = strs(out@);
            out.push(s);
            proof {
                assert(strs(out@) =~= before.push(s@));
            }
        }
        i = i + 1;
    }
    proof {
        assert(all.take(n as int) =~= all);
    }
    out
}

} // verus!

verus! {

impl Task for HostsFileAuditTask {
    fn name(&self) -> (r: &str)
        ensures
            r@ == self.name@,
    {
        self.name.as_str()
    }

    fn description(&self) -> (r: &str)
        ensures
            r@ == self.description@,
    {
        self.description.as_str()
    }

    fn dry_run(&self) -> (b: bool)
        ensures
            b == self.dry_run,
    {
        self.dry_run
    }

    /// Only the flag changes.
    fn set_dry_run(&mut self, value: bool)
        ensures
            *final(self) == (HostsFileAuditTask { dry_run: value, ..*old(self) }),
    {
        self.dry_run = value;
    }
}

} // verus!

verus! {

/// What is reported when the hosts file is clean.
pub const NOTHING_FOUND_MESSAGE: &'static str = "No unauthorised hosts entries.";

/// What a dry run reports.
pub fn dry_run_message(found: usize) -> (r: String)
    ensures
        r@ == "DRY RUN: would comment out "@ + decimal_string(found as nat) + " unauthorised entries."@,
{
    let parts = ["DRY RUN: would comment out ", " unauthorised entries."];
    let r = format_counts(&parts, &[found]);
    proof {
        reveal_with_fuel(interleave, 2);
        assert(crate::text::views(parts@) =~= seq![parts[0]@, parts[1]@]);
        assert(Seq::<char>::empty() + r@ =~= r@);
    }
    r
}

/// What a finished run reports.
pub fn summary_message(count: usize) -> (r: String)
    ensures
        r@ == "Commented out "@ + decimal_string(count as nat) + " unauthorised entries."@,
{
    let parts = ["Commented out ", " unauthorised entries."];
    let r = format_counts(&parts, &[count]);
    proof {
        reveal_with_fuel(interleave, 2);
        assert(crate::text::views(parts@) =~= seq![parts[0]@, parts[1]@]);
        assert(Seq::<char>::empty() + r@ =~= r@);
    }
    r
}

} // verus!
