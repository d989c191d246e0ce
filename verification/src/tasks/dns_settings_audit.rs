//! The resolvers a machine uses, and which of them are well-known public
//! ones. Nothing is changed: the right resolver depends on the network.
use vstd::prelude::*;
use crate::task::Task;
use crate::text::{decimal_string, format_counts, interleave};
use crate::file_ops::{is_active_chars, line_is_active};
use crate::text::{concat_str, decimal_of, join, join_strings};
use crate::text::{
    chars_of, eq_chars, filter_map, lines, lines_of, seqs, slice, starts_with, starts_with_chars,
    string_of, strs, trim, trim_chars, words, words_of,
};
use crate::text::lemma_filter_map_keeps;

verus! {

/// Public resolvers by address, with whose they are in [`PUBLIC_RESOLVER_OWNERS`].
pub const PUBLIC_RESOLVER_ADDRESSES: [&'static str; 9] = [
    "8.8.8.8",
    "8.8.4.4",
    "1.1.1.1",
    "1.0.0.1",
    "9.9.9.9",
    "208.67.222.222",
    "208.67.220.220",
    "4.2.2.1",
    "4.2.2.2",
];

pub const PUBLIC_RESOLVER_OWNERS: [&'static str; 9] = [
    "Google",
    "Google",
    "Cloudflare",
    "Cloudflare",
    "Quad9",
    "OpenDNS",
    "OpenDNS",
    "Level3",
    "Level3",
];

/// The local stub `systemd-resolved` writes into `resolv.conf`; the real
/// upstreams are behind it.
pub const STUB_RESOLVER: &'static str = "127.0.0.53";

pub struct DnsSettingsAuditTask {
    pub name: String,
    pub description: String,
    pub dry_run: bool,
}

impl DnsSettingsAuditTask {
    pub fn new() -> (t: Self)
        ensures
            t.name@ == "DNS Settings Audit"@,
            t.description@ == "Report the resolvers in use"@,
            !t.dry_run,
    {
        DnsSettingsAuditTask {
            name: String::from_str("DNS Settings Audit"),
            description: String::from_str("Report the resolvers in use"),
            dry_run: false,
        }
    }
}

impl Default for DnsSettingsAuditTask {
    fn default() -> (t: Self)
        ensures
            t.name@ == "DNS Settings Audit"@,
            t.description@ == "Report the resolvers in use"@,
            !t.dry_run,
    {
        Self::new()
    }
}

/// The address of an active `nameserver <address>` line.
pub open spec fn nameserver_of(l: Seq<char>) -> Option<Seq<char>> {
    let w = words(l);
    if line_is_active(l) && w.len() >= 2 && w[0] == "nameserver"@ {
        Some(w[1])
    } else {
        None
    }
}

pub open spec fn nameservers_spec(text: Seq<char>) -> Seq<Seq<char>> {
    filter_map(lines(text), |l: Seq<char>| nameserver_of(l))
}

/// The resolvers `resolv.conf` names, in order; commented lines are not in
/// use.
pub fn nameservers(resolv_conf: &str) -> (r: Vec<String>)
    ensures
        strs(r@) == nameservers_spec(resolv_conf@),
{
    let tv = chars_of(resolv_conf);
    let ls = lines_of(&tv);
    let ghost all = seqs(ls@);
    let key = chars_of("nameserver");
    let mut out: Vec<String> = Vec::new();
    let n = ls.len();
    let mut i: usize = 0;
    while i < n
        invariant
            i <= n == ls.len(),
            all == seqs(ls@),
            all == lines(resolv_conf@),
            key@ == "nameserver"@,
            strs(out@) == filter_map(all.take(i as int), |l: Seq<char>| nameserver_of(l)),
        decreases n - i,
    {
        proof {
            assert(all.take(i + 1).drop_last() =~= all.take(i as int));
            assert(all.take(i + 1).last() == all[i as int]);
        }
        if is_active_chars(&ls[i]) {
            let w = words_of(&ls[i]);
            if w.len() >= 2 && eq_chars(&w[0], &key) {
                let s = string_of(&w[1]);
                let ghost before = strs(out@);
                out.push(s);
                proof {
                    assert(strs(out@) =~= before.push(s@));
                }
            }
        }
        i = i + 1;
    }
    proof {
        assert(all.take(n as int) =~= all);
    }
    out
}

/// `acc` with `x` added at the end unless it is already there.
pub open spec fn add_unique(acc: Seq<Seq<char>>, x: Seq<char>) -> Seq<Seq<char>> {
    if acc.contains(x) {
        acc
    } else {
        acc.push(x)
    }
}

pub open spec fn add_all_unique(acc: Seq<Seq<char>>, xs: Seq<Seq<char>>) -> Seq<Seq<char>>
    decreases xs.len(),
{
    if xs.len() == 0 {
        acc
    } else {
        add_unique(add_all_unique(acc, xs.drop_last()), xs.last())
    }
}

/// What follows `DNS Servers:` or `Current DNS Server:` on a line of
/// `resolvectl status`.
pub open spec fn dns_rest(line: Seq<char>) -> Option<Seq<char>> {
    let t = trim(line);
    if starts_with(t, "DNS Servers:"@) {
        Some(t.skip(12))
    } else if starts_with(t, "Current DNS Server:"@) {
        Some(t.skip(19))
    } else {
        None
    }
}

pub open spec fn resolvectl_state(ls: Seq<Seq<char>>) -> Seq<Seq<char>>
    decreases ls.len(),
{
    if ls.len() == 0 {
        seq![]
    } else {
        let acc = resolvectl_state(ls.drop_last());
        match dns_rest(ls.last()) {
            Some(rest) => add_all_unique(acc, words(rest)),
            None => acc,
        }
    }
}

fn contains_exec(v: &Vec<Vec<char>>, x: &Vec<char>) -> (b: bool)
    ensures
        b == seqs(v@).contains(x@),
{
    let n = v.len();
    let mut i: usize = 0;
    while i < n
        invariant
            i <= n == v.len(),
            forall|k: int| 0 <= k < i ==> seqs(v@)[k] != x@,
        decreases n - i,
    {
        if eq_chars(&v[i], x) {
            assert(seqs(v@)[i as int] == x@);
            return true;
        }
        i = i + 1;
    }
    false
}

/// Add each of `xs` in turn, skipping any already present.
fn add_all_unique_exec(acc: &mut Vec<Vec<char>>, xs: &Vec<Vec<char>>)
    ensures
        seqs(final(acc)@) == add_all_unique(seqs(old(acc)@), seqs(xs@)),
{
    let ghost start = seqs(acc@);
    let n = xs.len();
    let mut i: usize = 0;
    while i < n
        invariant
            i <= n == xs.len(),
            seqs(acc@) == add_all_unique(start, seqs(xs@).take(i as int)),
        decreases n - i,
    {
        proof {
            assert(seqs(xs@).take(i + 1).drop_last() =~= seqs(xs@).take(i as int));
            assert(seqs(xs@).take(i + 1).last() == seqs(xs@)[i as int]);
        }
        if !contains_exec(acc, &xs[i]) {
            let ghost before = seqs(acc@);
            acc.push(xs[i].clone());
            proof {
                assert(seqs(acc@) =~= before.push(seqs(xs@)[i as int]));
            }
        }
        i = i + 1;
    }
    proof {
        assert(seqs(xs@).take(n as int) =~= seqs(xs@));
    }
}

fn dns_rest_exec(line: &Vec<char>) -> (r: Option<Vec<char>>)
    ensures
        match r {
            Some(x) => dns_rest(line@) == Some(x@),
            None => dns_rest(line@) is None,
        },
{
    let t = trim_chars(line);
    let a = chars_of("DNS Servers:");
    let b = chars_of("Current DNS Server:");
    proof {
        reveal_strlit("DNS Servers:");
        reveal_strlit("Current DNS Server:");
    }
    if starts_with_chars(&t, &a) {
        proof {
            assert(t@.skip(12) =~= t@.subrange(12, t@.len() as int));
        }
        Some(slice(&t, 12, t.len()))
    } else if starts_with_chars(&t, &b) {
        proof {
            assert(t@.skip(19) =~= t@.subrange(19, t@.len() as int));
        }
        Some(slice(&t, 19, t.len()))
    } else {
        None
    }
}

/// The upstream resolvers `resolvectl status` reports, each once, in the
/// order they first appear.
pub fn resolvectl_servers(output: &str) -> (r: Vec<String>)
    ensures
        strs(r@) == resolvectl_state(lines(output@)),
{
    let tv = chars_of(output);
    let ls = lines_of(&tv);
    let ghost all = seqs(ls@);
    let mut acc: Vec<Vec<char>> = Vec::new();
    let n = ls.len();
    let mut i: usize = 0;
    while i < n
        invariant
            i <= n == ls.len(),
            all == seqs(ls@),
            all == lines(output@),
            seqs(acc@) == resolvectl_state(all.take(i as int)),
        decreases n - i,
    {
        proof {
            assert(all.take(i + 1).drop_last() =~= all.take(i as int));
            assert(all.take(i + 1).last() == all[i as int]);
        }
        match dns_rest_exec(&ls[i]) {
            Some(rest) => {
                let w = words_of(&rest);
                add_all_unique_exec(&mut acc, &w);
            },
            None => {},
        }
        i = i + 1;
    }
    proof {
        assert(all.take(n as int) =~= all);
    }
    crate::text::strings_of(&acc)
}

/// The row of the first public resolver, at or after `k`, with address `s`.
pub open spec fn public_row(s: Seq<char>, k: nat) -> Option<int>
    decreases 9 - k,
{
    if k >= 9 {
        None
    } else if PUBLIC_RESOLVER_ADDRESSES@[k as int]@ == s {
        Some(k as int)
    } else {
        public_row(s, k + 1)
    }
}

fn public_row_exec(s: &Vec<char>) -> (r: Option<usize>)
    ensures
        match r {
            Some(k) => public_row(s@, 0) == Some(k as int) && k < 9,
            None => public_row(s@, 0) is None,
        },
{
    let mut k: usize = 0;
    while k < 9
        invariant
            k <= 9,
            public_row(s@, 0) == public_row(s@, k as nat),
        decreases 9 - k,
    {
        if eq_chars(&chars_of(PUBLIC_RESOLVER_ADDRESSES[k]), s) {
            return Some(k);
        }
        k = k + 1;
    }
    None
}

pub open spec fn public_among_spec(servers: Seq<Seq<char>>) -> Seq<(Seq<char>, &'static str)> {
    filter_map(
        servers,
        |s: Seq<char>|
            match public_row(s, 0) {
                Some(i) => Some((s, PUBLIC_RESOLVER_OWNERS@[i])),
                None => None,
            },
    )
}

proof fn lemma_public_row_finds(s: Seq<char>, k: nat, i: int)
    requires
        k <= i < 9,
        PUBLIC_RESOLVER_ADDRESSES@[i]@ == s,
    ensures
        public_row(s, k) matches Some(m) && k <= m <= i && PUBLIC_RESOLVER_ADDRESSES@[m]@ == s,
    decreases i - k,
{
    if k < i && PUBLIC_RESOLVER_ADDRESSES@[k as int]@ != s {
        lemma_public_row_finds(s, k + 1, i);
    }
}

proof fn lemma_public_addresses_distinct(m: int, i: int)
    requires
        0 <= m < i < 9,
    ensures
        PUBLIC_RESOLVER_ADDRESSES@[m]@ != PUBLIC_RESOLVER_ADDRESSES@[i]@,
{
    reveal_strlit("8.8.8.8");
    reveal_strlit("8.8.4.4");
    reveal_strlit("1.1.1.1");
    reveal_strlit("1.0.0.1");
    reveal_strlit("9.9.9.9");
    reveal_strlit("208.67.222.222");
    reveal_strlit("208.67.220.220");
    reveal_strlit("4.2.2.1");
    reveal_strlit("4.2.2.2");
    let a = PUBLIC_RESOLVER_ADDRESSES@[m]@;
    let b = PUBLIC_RESOLVER_ADDRESSES@[i]@;
    if m == 0 {
        if i == 1 {
            assert(a[4] != b[4]);
        } else if i == 2 {
            assert(a[0] != b[0]);
        } else if i == 3 {
            assert(a[0] != b[0]);
        } else if i == 4 {
            assert(a[0] != b[0]);
        } else if i == 5 {
            assert(a.len() != b.len());
        } else if i == 6 {
            assert(a.len() != b.len());
        } else if i == 7 {
            assert(a[0] != b[0]);
        } else if i == 8 {
            assert(a[0] != b[0]);
        }
    } else if m == 1 {
        if i == 2 {
            assert(a[0] != b[0]);
        } else if i == 3 {
            assert(a[0] != b[0]);
        } else if i == 4 {
            assert(a[0] != b[0]);
        } else if i == 5 {
            assert(a.len() != b.len());
        } else if i == 6 {
            assert(a.len() != b.len());
        } else if i == 7 {
            assert(a[0] != b[0]);
        } else if i == 8 {
            assert(a[0] != b[0]);
        }
    } else if m == 2 {
        if i == 3 {
            assert(a[2] != b[2]);
        } else if i == 4 {
            assert(a[0] != b[0]);
        } else if i == 5 {
            assert(a.len() != b.len());
        } else if i == 6 {
            assert(a.len() != b.len());
        } else if i == 7 {
            assert(a[0] != b[0]);
        } else if i == 8 {
            assert(a[0] != b[0]);
        }
    } else if m == 3 {
        if i == 4 {
            assert(a[0] != b[0]);
        } else if i == 5 {
            assert(a.len() != b.len());
        } else if i == 6 {
            assert(a.len() != b.len());
        } else if i == 7 {
            assert(a[0] != b[0]);
        } else if i == 8 {
            assert(a[0] != b[0]);
        }
    } else if m == 4 {
        if i == 5 {
            assert(a.len() != b.len());
        } else if i == 6 {
            assert(a.len() != b.len());
        } else if i == 7 {
            assert(a[0] != b[0]);
        } else if i == 8 {
            assert(a[0] != b[0]);
        }
    } else if m == 5 {
        if i == 6 {
            assert(a[9] != b[9]);
        } else if i == 7 {
            assert(a.len() != b.len());
        } else if i == 8 {
            assert(a.len() != b.len());
        }
    } else if m == 6 {
        if i == 7 {
            assert(a.len() != b.len());
        } else if i == 8 {
            assert(a.len() != b.len());
        }
    } else if m == 7 {
        if i == 8 {
            assert(a[6] != b[6]);
        }
    }
}

/// Every well-known public resolver is flagged: a server in use whose
/// address is a row of the resolver table is listed, with that row's owner.
pub proof fn law_every_public_resolver_is_flagged(servers: Seq<Seq<char>>, j: int, i: int)
    requires
        0 <= j < servers.len(),
        0 <= i < 9,
        servers[j] == PUBLIC_RESOLVER_ADDRESSES@[i]@,
    ensures
        public_row(servers[j], 0) == Some(i),
        public_among_spec(servers).contains((servers[j], PUBLIC_RESOLVER_OWNERS@[i])),
{
    let s = servers[j];
    lemma_public_row_finds(s, 0, i);
    let m = public_row(s, 0)->0;
    if m < i {
        lemma_public_addresses_distinct(m, i);
    }
    let f = |s: Seq<char>|
        match public_row(s, 0) {
            Some(i) => Some((s, PUBLIC_RESOLVER_OWNERS@[i])),
            None => None,
        };
    assert(public_among_spec(servers) == filter_map(servers, f));
    lemma_filter_map_keeps(servers, f, j);
}

pub open spec fn owned_views(v: Seq<(String, &'static str)>) -> Seq<(Seq<char>, &'static str)> {
    v.map_values(|p: (String, &'static str)| (p.0@, p.1))
}

/// The servers that are well-known public resolvers, each with its owner.
pub fn public_among(servers: &[String]) -> (r: Vec<(String, &'static str)>)
    ensures
        owned_views(r@) == public_among_spec(strs(servers@)),
{
    let mut out: Vec<(String, &'static str)> = Vec::new();
    let n = servers.len();
    let mut i: usize = 0;
    while i < n
        invariant
            i <= n == servers@.len(),
            owned_views(out@) == public_among_spec(strs(servers@).take(i as int)),
        decreases n - i,
    {
        proof {
            assert(strs(servers@).take(i + 1).drop_last() =~= strs(servers@).take(i as int));
            assert(strs(servers@).take(i + 1).last() == strs(servers@)[i as int]);
        }
        let s = chars_of(servers[i].as_str());
        let found = public_row_exec(&s);
        match found {
            Some(k) => {
                proof {
                    assert(public_row(s@, 0) == Some(k as int));
                }
                let ghost before = owned_views(out@);
                let pair = (string_of(&s), PUBLIC_RESOLVER_OWNERS[k]);
                out.push(pair);
                proof {
                    assert(owned_views(out@) =~= before.push((s@, PUBLIC_RESOLVER_OWNERS@[k as int])));
                }
            },
            None => {
                proof {
                    assert(public_row(s@, 0) is None);
                }
            },
        }
        i = i + 1;
    }
    proof {
        assert(strs(servers@).take(n as int) =~= strs(servers@));
    }
    out
}

/// `resolv.conf` names no resolver, or only the local stub, so the real ones
/// have to be asked of `resolvectl`.
pub open spec fn needs_resolvectl_spec(servers: Seq<Seq<char>>) -> bool {
    servers.len() == 0 || servers.contains(STUB_RESOLVER@)
}

pub fn needs_resolvectl(servers: &Vec<String>) -> (b: bool)
    ensures
        b == needs_resolvectl_spec(strs(servers@)),
{
    let mut v: Vec<Vec<char>> = Vec::new();
    let n = servers.len();
    let mut i: usize = 0;
    while i < n
        invariant
            i <= n == servers@.len(),
            seqs(v@) == strs(servers@).take(i as int),
        decreases n - i,
    {
        let ghost before = seqs(v@);
        v.push(chars_of(servers[i].as_str()));
        proof {
            assert(seqs(v@) =~= before.push(strs(servers@)[i as int]));
        }
        i = i + 1;
        proof {
            assert(seqs(v@) =~= strs(servers@).take(i as int));
        }
    }
    proof {
        assert(strs(servers@).take(n as int) =~= strs(servers@));
    }
    n == 0 || contains_exec(&v, &chars_of(STUB_RESOLVER))
}

/// The resolvers `resolvectl` adds: those not yet known and not the stub.
pub open spec fn merge_spec(known: Seq<Seq<char>>, upstream: Seq<Seq<char>>) -> Seq<Seq<char>>
    decreases upstream.len(),
{
    if upstream.len() == 0 {
        known
    } else {
        let acc = merge_spec(known, upstream.drop_last());
        let a = upstream.last();
        if acc.contains(a) || a == STUB_RESOLVER@ {
            acc
        } else {
            acc.push(a)
        }
    }
}

/// The resolvers in use once `resolvectl status` has been asked: those of
/// `resolv.conf`, then each upstream it reports that is new and not the stub.
pub fn merge_resolvectl(servers: Vec<String>, output: &str) -> (r: Vec<String>)
    ensures
        strs(r@) == merge_spec(strs(servers@), resolvectl_state(lines(output@))),
{
    let upstream = resolvectl_servers(output);
    let stub = chars_of(STUB_RESOLVER);
    let mut acc: Vec<Vec<char>> = Vec::new();
    let sn = servers.len();
    let mut j: usize = 0;
    while j < sn
        invariant
            j <= sn == servers@.len(),
            seqs(acc@) == strs(servers@).take(j as int),
        decreases sn - j,
    {
        let ghost before = seqs(acc@);
        acc.push(chars_of(servers[j].as_str()));
        proof {
            assert(seqs(acc@) =~= before.push(strs(servers@)[j as int]));
        }
        j = j + 1;
        proof {
            assert(seqs(acc@) =~= strs(servers@).take(j as int));
        }
    }
    proof {
        assert(strs(servers@).take(sn as int) =~= strs(servers@));
    }
    let ghost known = seqs(acc@);
    let n = upstream.len();
    let mut i: usize = 0;
    while i < n
        invariant
            i <= n == upstream@.len(),
            stub@ == STUB_RESOLVER@,
            seqs(acc@) == merge_spec(known, strs(upstream@).take(i as int)),
        decreases n - i,
    {
        proof {
            assert(strs(upstream@).take(i + 1).drop_last() =~= strs(upstream@).take(i as int));
            assert(strs(upstream@).take(i + 1).last() == strs(upstream@)[i as int]);
        }
        let a = chars_of(upstream[i].as_str());
        if !contains_exec(&acc, &a) && !eq_chars(&a, &stub) {
            let ghost before = seqs(acc@);
            acc.push(a);
            proof {
                assert(seqs(acc@) =~= before.push(strs(upstream@)[i as int]));
            }
        }
        i = i + 1;
    }
    proof {
        assert(strs(upstream@).take(n as int) =~= strs(upstream@));
    }
    crate::text::strings_of(&acc)
}

} // verus!

verus! {

impl Task for DnsSettingsAuditTask {
    fn name(&self) -> (r: &str)
        ensures
            r@ == self.name@,
    {
        self.name.as_str()
    }

    fn description(&self) -> (r: &str)
        ensures
            r@ == self.description@,
    {
        self.description.as_str()
    }

    fn dry_run(&self) -> (b: bool)
        ensures
            b == self.dry_run,
    {
        self.dry_run
    }

    /// Only the flag changes.
    fn set_dry_run(&mut self, value: bool)
        ensures
            *final(self) == (DnsSettingsAuditTask { dry_run: value, ..*old(self) }),
    {
        self.dry_run = value;
    }
}

} // verus!

verus! {

/// What is reported when no resolver could be found.
pub const NO_RESOLVER_MESSAGE: &'static str = "No resolver could be determined.";

/// What a finished run reports.
pub fn summary_message(servers: usize, public: usize) -> (r: String)
    ensures
        r@ == decimal_string(servers as nat) + " resolvers in use, "@ + decimal_string(public as nat) + " of them public. Nothing was changed - the correct resolver depends on the network the image is on."@,
{
    let parts = ["", " resolvers in use, ", " of them public. Nothing was changed - the correct resolver depends on the network the image is on."];
    let r = format_counts(&parts, &[servers, public]);
    proof {
        reveal_strlit("");
        reveal_with_fuel(interleave, 3);
        assert(crate::text::views(parts@) =~= seq![parts[0]@, parts[1]@, parts[2]@]);
        assert(Seq::<char>::empty() + r@ =~= r@);
    }
    r
}


/// How a public resolver is named in the finding: `address = owner`.
pub open spec fn owned_entries(v: Seq<(Seq<char>, &'static str)>) -> Seq<Seq<char>> {
    v.map_values(|p: (Seq<char>, &'static str)| p.0 + " = "@ + p.1@)
}

/// What the resolver finding records: the resolvers in use and, when some
/// are public, how many and whose.
pub fn resolvers_evidence(servers: &Vec<String>, public: &Vec<(String, &'static str)>) -> (r: String)
    ensures
        r@ == "resolvers in use: "@ + join(strs(servers@), ", "@) + if public@.len() == 0 {
            Seq::<char>::empty()
        } else {
            "; "@ + decimal_string(public@.len()) + " of them public ("@ + join(
                owned_entries(owned_views(public@)),
                ", "@,
            ) + ")"@
        },
{
    let mut v = concat_str(&chars_of("resolvers in use: "), join_strings(servers, ", ").as_str());
    if public.len() > 0 {
        let mut entries: Vec<String> = Vec::new();
        let mut i: usize = 0;
        while i < public.len()
            invariant
                i <= public@.len(),
                strs(entries@) == owned_entries(owned_views(public@)).take(i as int),
            decreases public@.len() - i,
        {
            let (address, owner) = &public[i];
            let entry = concat_str(&concat_str(&chars_of(address.as_str()), " = "), owner);
            let text = string_of(&entry);
            proof {
                assert(owned_views(public@)[i as int] == (public@[i as int].0@, public@[i as int].1));
                assert(text@ =~= owned_entries(owned_views(public@))[i as int]);
            }
            let ghost before = strs(entries@);
            entries.push(text);
            proof {
                assert(strs(entries@) =~= before.push(text@));
                assert(owned_entries(owned_views(public@)).take(i as int + 1) =~= owned_entries(
                    owned_views(public@),
                ).take(i as int).push(owned_entries(owned_views(public@))[i as int]));
            }
            i = i + 1;
        }
        proof {
            assert(owned_entries(owned_views(public@)).take(public@.len() as int) =~= owned_entries(
                owned_views(public@),
            ));
        }
        v = concat_str(&v, "; ");
        crate::text::extend(&mut v, &decimal_of(public.len() as u64));
        v = concat_str(&v, " of them public (");
        v = concat_str(&v, join_strings(&entries, ", ").as_str());
        v = concat_str(&v, ")");
    }
    proof {
        reveal_strlit("resolvers in use: ");
        assert(Seq::<char>::empty() + "resolvers in use: "@ =~= "resolvers in use: "@);
    }
    string_of(&v)
}

} // verus!
